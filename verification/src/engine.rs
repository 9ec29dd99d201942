//! Orchestration around the speech engine: assembling the transcript from
//! the engine's segments and naming the detected language. The engine
//! itself is a collaborator; a caller runs it and hands its segments and
//! language id here.

use vstd::prelude::*;
use vstd::string::{StringExecFns, StrSliceExecFns};
use crate::text::{trim_spec, trim_str};

verus! {

/// One transcription outcome: the assembled text and the detected
/// language code, or "unknown".
#[derive(Debug, Clone)]
pub struct TranscriptionResult {
    pub text: String,
    pub language: String,
}

/// The segments joined in order, each followed by one space.
pub open spec fn joined(segs: Seq<Seq<char>>) -> Seq<char>
    decreases segs.len(),
{
    if segs.len() == 0 {
        Seq::empty()
    } else {
        joined(segs.drop_last()) + segs.last() + seq![' ']
    }
}

/// Assemble the final transcript from the engine's segments: join them
/// with a trailing space each, then trim.
pub fn assemble_transcript(segments: &Vec<String>) -> (r: String)
    ensures
        r@ == trim_spec(joined(segments@.map_values(|s: String| s@))),
{
    let ghost views: Seq<Seq<char>> = segments@.map_values(|s: String| s@);
    let mut acc = String::new();
    let mut i: usize = 0;
    proof {
        reveal_strlit(" ");
        assert(" "@ =~= seq![' ']);
    }
    while i < segments.len()
        invariant
            i <= segments@.len(),
            views == segments@.map_values(|s: String| s@),
            " "@ == seq![' '],
            acc@ == joined(views.take(i as int)),
        decreases segments@.len() - i,
    {
        acc.append(segments[i].as_str());
        acc.append(" ");
        proof {
            assert(views.take(i + 1).drop_last() =~= views.take(i as int));
            assert(views.take(i + 1).last() == views[i as int]);
        }
        i += 1;
    }
    proof {
        assert(views.take(segments@.len() as int) =~= views);
    }
    trim_str(acc.as_str())
}

/// The language to report: the detected code, or "unknown" when the
/// engine detected none.
pub fn language_or_unknown(language: Option<String>) -> (r: String)
    ensures
        match language {
            Some(l) => r@ == l@,
            None => r@ == "unknown"@,
        },
{
    match language {
        Some(l) => l,
        None => String::from_str("unknown"),
    }
}

/// The catalog of speech-model sizes: name, file name, and download size
/// in bytes.
pub fn get_available_models() -> (r: Vec<(&'static str, &'static str, u64)>)
    ensures
        r@.len() == 4,
        r@[0].0@ == "tiny"@ && r@[0].1@ == "ggml-tiny.bin"@ && r@[0].2 == 75000000u64,
        r@[1].0@ == "base"@ && r@[1].1@ == "ggml-base.bin"@ && r@[1].2 == 142000000u64,
        r@[2].0@ == "small"@ && r@[2].1@ == "ggml-small.bin"@ && r@[2].2 == 466000000u64,
        r@[3].0@ == "medium"@ && r@[3].1@ == "ggml-medium.bin"@ && r@[3].2 == 1500000000u64,
{
    let mut v: Vec<(&'static str, &'static str, u64)> = Vec::new();
    v.push(("tiny", "ggml-tiny.bin", 75000000));
    v.push(("base", "ggml-base.bin", 142000000));
    v.push(("small", "ggml-small.bin", 466000000));
    v.push(("medium", "ggml-medium.bin", 1500000000));
    v
}

} // verus!
