//! The closed catalog of output-formatting modes: stable identifiers,
//! display names, descriptions, and the system-prompt templates, each pinned
//! down exactly by a spec function.

use vstd::prelude::*;
use vstd::string::StringExecFns;
use crate::text::{lower_chars, eq_lowered};

verus! {

#[derive(Debug, Clone, Copy, PartialEq, Eq, Structural)]
pub enum TranscriptionMode {
    Default,
    Email,
    Bullets,
    Summary,
    Slack,
    MeetingNotes,
    CodeComment,
}

/// The stable identifier of a mode.
pub open spec fn mode_id(m: TranscriptionMode) -> Seq<char> {
    match m {
        TranscriptionMode::Default => "default"@,
        TranscriptionMode::Email => "email"@,
        TranscriptionMode::Bullets => "bullets"@,
        TranscriptionMode::Summary => "summary"@,
        TranscriptionMode::Slack => "slack"@,
        TranscriptionMode::MeetingNotes => "meeting_notes"@,
        TranscriptionMode::CodeComment => "code_comment"@,
    }
}

/// The mode a (lowercased) identifier resolves to; anything unrecognized
/// falls back to `Default`.
pub open spec fn mode_of_id(s: Seq<char>) -> TranscriptionMode {
    if s == "email"@ {
        TranscriptionMode::Email
    } else if s == "bullets"@ {
        TranscriptionMode::Bullets
    } else if s == "summary"@ {
        TranscriptionMode::Summary
    } else if s == "slack"@ {
        TranscriptionMode::Slack
    } else if s == "meeting_notes"@ {
        TranscriptionMode::MeetingNotes
    } else if s == "code_comment"@ {
        TranscriptionMode::CodeComment
    } else {
        TranscriptionMode::Default
    }
}

/// The human-readable name of a mode.
pub open spec fn mode_display_name(m: TranscriptionMode) -> Seq<char> {
    match m {
        TranscriptionMode::Default => "Default"@,
        TranscriptionMode::Email => "Email"@,
        TranscriptionMode::Bullets => "Bullet Points"@,
        TranscriptionMode::Summary => "Summary"@,
        TranscriptionMode::Slack => "Slack Message"@,
        TranscriptionMode::MeetingNotes => "Meeting Notes"@,
        TranscriptionMode::CodeComment => "Code Comment"@,
    }
}

/// The one-line description of a mode.
pub open spec fn mode_description(m: TranscriptionMode) -> Seq<char> {
    match m {
        TranscriptionMode::Default => "Clean up grammar and filler words"@,
        TranscriptionMode::Email => "Format as professional email"@,
        TranscriptionMode::Bullets => "Convert to organized bullet points"@,
        TranscriptionMode::Summary => "Condense into a brief summary"@,
        TranscriptionMode::Slack => "Short, casual chat message"@,
        TranscriptionMode::MeetingNotes => "Structure with key points and action items"@,
        TranscriptionMode::CodeComment => "Format as code documentation"@,
    }
}

/// The full system prompt of a mode, with the language name spliced in.
pub open spec fn system_prompt_spec(m: TranscriptionMode, lang: Seq<char>) -> Seq<char> {
    match m {
        TranscriptionMode::Default => "You are a transcript cleaner that NEVER translates. You clean up speech transcripts by removing filler words and fixing grammar while keeping the EXACT SAME LANGUAGE as the input. If input is "@
            + lang + ", output "@ + lang
            + ". NEVER change the language. Output ONLY the cleaned text."@,
        TranscriptionMode::Email => "You are a professional email formatter that NEVER translates. Format this transcript as a professional email with an appropriate greeting, well-structured body paragraphs, and a professional closing. Keep the EXACT SAME LANGUAGE as the input ("@
            + lang
            + "). NEVER change the language. Output ONLY the formatted email, nothing else."@,
        TranscriptionMode::Bullets => "You are a content organizer that NEVER translates. Convert this transcript into clear, organized bullet points. Extract key points and use concise language. Keep the EXACT SAME LANGUAGE as the input ("@
            + lang
            + "). NEVER change the language. Output ONLY the bullet list using \u{2022} or - markers, nothing else."@,
        TranscriptionMode::Summary => "You are a summarizer that NEVER translates. Condense this transcript into a brief summary capturing the main points. Be concise but comprehensive. Keep the EXACT SAME LANGUAGE as the input ("@
            + lang
            + "). NEVER change the language. Output ONLY the summary, nothing else."@,
        TranscriptionMode::Slack => "You are a chat message formatter that NEVER translates. Convert this transcript into a short, casual message suitable for Slack or chat. Keep it friendly and concise. Keep the EXACT SAME LANGUAGE as the input ("@
            + lang
            + "). NEVER change the language. Output ONLY the message, nothing else."@,
        TranscriptionMode::MeetingNotes => "You are a meeting notes formatter that NEVER translates. Structure this transcript as meeting notes with:\n- Key Discussion Points\n- Decisions Made\n- Action Items (if any)\nKeep the EXACT SAME LANGUAGE as the input ("@
            + lang
            + "). NEVER change the language. Output ONLY the formatted notes, nothing else."@,
        TranscriptionMode::CodeComment => "You are a code documentation formatter that NEVER translates. Format this transcript as a code documentation comment. Use appropriate format (JSDoc, docstring, etc. based on content). Be technical and precise. Keep the EXACT SAME LANGUAGE as the input ("@
            + lang
            + "). NEVER change the language. Output ONLY the formatted comment, nothing else."@,
    }
}

/// All modes, in catalog order.
pub open spec fn mode_list() -> Seq<TranscriptionMode> {
    seq![
        TranscriptionMode::Default,
        TranscriptionMode::Email,
        TranscriptionMode::Bullets,
        TranscriptionMode::Summary,
        TranscriptionMode::Slack,
        TranscriptionMode::MeetingNotes,
        TranscriptionMode::CodeComment,
    ]
}

impl TranscriptionMode {
    /// Resolve an identifier, case-insensitively (ASCII), to a mode.
    pub fn from_str(s: &str) -> (r: Self)
        ensures
            r == mode_of_id(lower_chars(s@)),
    {
        if eq_lowered(s, "email") {
            Self::Email
        } else if eq_lowered(s, "bullets") {
            Self::Bullets
        } else if eq_lowered(s, "summary") {
            Self::Summary
        } else if eq_lowered(s, "slack") {
            Self::Slack
        } else if eq_lowered(s, "meeting_notes") {
            Self::MeetingNotes
        } else if eq_lowered(s, "code_comment") {
            Self::CodeComment
        } else {
            Self::Default
        }
    }

    /// The stable identifier of this mode.
    pub fn as_str(&self) -> (r: &'static str)
        ensures
            r@ == mode_id(*self),
    {
        match self {
            Self::Default => "default",
            Self::Email => "email",
            Self::Bullets => "bullets",
            Self::Summary => "summary",
            Self::Slack => "slack",
            Self::MeetingNotes => "meeting_notes",
            Self::CodeComment => "code_comment",
        }
    }

    /// The human-readable name of this mode.
    pub fn display_name(&self) -> (r: &'static str)
        ensures
            r@ == mode_display_name(*self),
    {
        match self {
            Self::Default => "Default",
            Self::Email => "Email",
            Self::Bullets => "Bullet Points",
            Self::Summary => "Summary",
            Self::Slack => "Slack Message",
            Self::MeetingNotes => "Meeting Notes",
            Self::CodeComment => "Code Comment",
        }
    }

    /// The one-line description of this mode.
    pub fn description(&self) -> (r: &'static str)
        ensures
            r@ == mode_description(*self),
    {
        match self {
            Self::Default => "Clean up grammar and filler words",
            Self::Email => "Format as professional email",
            Self::Bullets => "Convert to organized bullet points",
            Self::Summary => "Condense into a brief summary",
            Self::Slack => "Short, casual chat message",
            Self::MeetingNotes => "Structure with key points and action items",
            Self::CodeComment => "Format as code documentation",
        }
    }

    /// The system prompt for this mode, naming the input language.
    pub fn get_system_prompt(&self, language_name: &str) -> (r: String)
        ensures
            r@ == system_prompt_spec(*self, language_name@),
    {
        match self {
            Self::Default => {
                let s = String::from_str("You are a transcript cleaner that NEVER translates. You clean up speech transcripts by removing filler words and fixing grammar while keeping the EXACT SAME LANGUAGE as the input. If input is ");
                let s = s.concat(language_name);
                let s = s.concat(", output ");
                let s = s.concat(language_name);
                s.concat(". NEVER change the language. Output ONLY the cleaned text.")
            },
            Self::Email => {
                let s = String::from_str("You are a professional email formatter that NEVER translates. Format this transcript as a professional email with an appropriate greeting, well-structured body paragraphs, and a professional closing. Keep the EXACT SAME LANGUAGE as the input (");
                let s = s.concat(language_name);
                s.concat("). NEVER change the language. Output ONLY the formatted email, nothing else.")
            },
            Self::Bullets => {
                let s = String::from_str("You are a content organizer that NEVER translates. Convert this transcript into clear, organized bullet points. Extract key points and use concise language. Keep the EXACT SAME LANGUAGE as the input (");
                let s = s.concat(language_name);
                s.concat("). NEVER change the language. Output ONLY the bullet list using \u{2022} or - markers, nothing else.")
            },
            Self::Summary => {
                let s = String::from_str("You are a summarizer that NEVER translates. Condense this transcript into a brief summary capturing the main points. Be concise but comprehensive. Keep the EXACT SAME LANGUAGE as the input (");
                let s = s.concat(language_name);
                s.concat("). NEVER change the language. Output ONLY the summary, nothing else.")
            },
            Self::Slack => {
                let s = String::from_str("You are a chat message formatter that NEVER translates. Convert this transcript into a short, casual message suitable for Slack or chat. Keep it friendly and concise. Keep the EXACT SAME LANGUAGE as the input (");
                let s = s.concat(language_name);
                s.concat("). NEVER change the language. Output ONLY the message, nothing else.")
            },
            Self::MeetingNotes => {
                let s = String::from_str("You are a meeting notes formatter that NEVER translates. Structure this transcript as meeting notes with:\n- Key Discussion Points\n- Decisions Made\n- Action Items (if any)\nKeep the EXACT SAME LANGUAGE as the input (");
                let s = s.concat(language_name);
                s.concat("). NEVER change the language. Output ONLY the formatted notes, nothing else.")
            },
            Self::CodeComment => {
                let s = String::from_str("You are a code documentation formatter that NEVER translates. Format this transcript as a code documentation comment. Use appropriate format (JSDoc, docstring, etc. based on content). Be technical and precise. Keep the EXACT SAME LANGUAGE as the input (");
                let s = s.concat(language_name);
                s.concat("). NEVER change the language. Output ONLY the formatted comment, nothing else.")
            },
        }
    }

    /// Every mode leans on the text-generation service for formatting; the
    /// default mode merely falls back to the raw text when it is absent.
    pub fn requires_ollama(&self) -> (r: bool)
        ensures
            r == true,
    {
        true
    }

    /// All modes, in catalog order.
    pub fn all_modes() -> (r: Vec<Self>)
        ensures
            r@ == mode_list(),
    {
        let mut v: Vec<Self> = Vec::new();
        v.push(Self::Default);
        v.push(Self::Email);
        v.push(Self::Bullets);
        v.push(Self::Summary);
        v.push(Self::Slack);
        v.push(Self::MeetingNotes);
        v.push(Self::CodeComment);
        proof {
            assert(v@ =~= mode_list());
        }
        v
    }
}

impl Default for TranscriptionMode {
    fn default() -> (r: Self)
        ensures
            r == TranscriptionMode::Default,
    {
        TranscriptionMode::Default
    }
}

/// A mode's catalog entry, as handed to a user interface.
#[derive(Debug, Clone)]
pub struct ModeInfo {
    pub id: String,
    pub name: String,
    pub description: String,
    pub requires_ollama: bool,
}

/// `info` is the catalog entry of mode `m`.
pub open spec fn mode_info_matches(info: ModeInfo, m: TranscriptionMode) -> bool {
    &&& info.id@ == mode_id(m)
    &&& info.name@ == mode_display_name(m)
    &&& info.description@ == mode_description(m)
    &&& info.requires_ollama == true
}

impl ModeInfo {
    /// The catalog entry of one mode.
    pub fn from_mode(mode: TranscriptionMode) -> (r: ModeInfo)
        ensures
            mode_info_matches(r, mode),
    {
        ModeInfo {
            id: String::from_str(mode.as_str()),
            name: String::from_str(mode.display_name()),
            description: String::from_str(mode.description()),
            requires_ollama: mode.requires_ollama(),
        }
    }
}

/// The whole mode catalog, in order.
pub fn get_available_modes() -> (r: Vec<ModeInfo>)
    ensures
        r@.len() == mode_list().len(),
        forall|i: int| 0 <= i < r@.len() ==> mode_info_matches(#[trigger] r@[i], mode_list()[i]),
{
    let modes = TranscriptionMode::all_modes();
    let mut out: Vec<ModeInfo> = Vec::new();
    let mut i: usize = 0;
    while i < modes.len()
        invariant
            modes@ == mode_list(),
            i <= modes@.len(),
            out@.len() == i,
            forall|j: int| 0 <= j < i ==> mode_info_matches(#[trigger] out@[j], mode_list()[j]),
        decreases modes@.len() - i,
    {
        out.push(ModeInfo::from_mode(modes[i]));
        i += 1;
    }
    out
}

} // verus!
