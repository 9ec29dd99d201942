//! The in-session list of recent transcripts: newest first, at most three
//! kept. The menu that displays it is a collaborator.

use vstd::prelude::*;

verus! {

/// How many recent transcripts are kept.
pub const RECENT_LIMIT: usize = 3;

/// The recent transcripts, newest first.
pub struct RecentTranscripts {
    pub items: Vec<String>,
}

impl RecentTranscripts {
    /// An empty history.
    pub fn new() -> (r: Self)
        ensures
            r.items@ == Seq::<String>::empty(),
    {
        RecentTranscripts { items: Vec::new() }
    }

    /// Record one transcript: it becomes the newest entry, and anything
    /// beyond the limit falls off the old end.
    pub fn add(&mut self, text: String)
        ensures
            final(self).items@ == old(self).items@.insert(0, text).take(
                if old(self).items@.len() + 1 <= RECENT_LIMIT {
                    old(self).items@.len() as int + 1
                } else {
                    RECENT_LIMIT as int
                },
            ),
    {
        self.items.insert(0, text);
        if self.items.len() > RECENT_LIMIT {
            self.items.truncate(RECENT_LIMIT);
        }
        proof {
            let whole = old(self).items@.insert(0, text);
            if whole.len() <= RECENT_LIMIT {
                assert(self.items@ =~= whole.take(whole.len() as int));
            }
        }
    }

    /// The transcript at the given position, newest first.
    pub fn get(&self, i: usize) -> (r: Option<&String>)
        ensures
            match r {
                Some(t) => i < self.items@.len() && t == self.items@[i as int],
                None => i >= self.items@.len(),
            },
    {
        if i < self.items.len() {
            Some(&self.items[i])
        } else {
            None
        }
    }

    /// How many transcripts are kept right now.
    pub fn len(&self) -> (r: usize)
        ensures
            r == self.items@.len(),
    {
        self.items.len()
    }
}

} // verus!
