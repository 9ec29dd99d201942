//! Cleanup orchestration: the language-name table, mode-driven prompt
//! construction, the fast paths that skip the text-generation service, and
//! the post-processing of a service response.
//!
//! The HTTP exchange itself is a collaborator: a caller turns a
//! `CleanupStep::Call` into one request to the local service and hands the
//! response text back to `finish_response`.

use vstd::prelude::*;
use vstd::string::StringExecFns;
use crate::modes::{TranscriptionMode, mode_of_id, system_prompt_spec};
use crate::text::{lower_chars, trim_spec, unquote_spec, trim_str, unquote_str, contains_seq, str_contains};

verus! {

/// The human-readable name of an ISO-639-1-like language code; unknown codes
/// pass through verbatim.
pub open spec fn language_name_spec(code: Seq<char>) -> Seq<char> {
    if code == "fr"@ {
        "French"@
    } else if code == "es"@ {
        "Spanish"@
    } else if code == "de"@ {
        "German"@
    } else if code == "it"@ {
        "Italian"@
    } else if code == "pt"@ {
        "Portuguese"@
    } else if code == "nl"@ {
        "Dutch"@
    } else if code == "ru"@ {
        "Russian"@
    } else if code == "zh"@ {
        "Chinese"@
    } else if code == "ja"@ {
        "Japanese"@
    } else if code == "ko"@ {
        "Korean"@
    } else if code == "ar"@ {
        "Arabic"@
    } else if code == "en"@ {
        "English"@
    } else {
        code
    }
}

/// The phrase used for an absent language code.
pub open spec fn language_phrase(code: Option<Seq<char>>) -> Seq<char> {
    match code {
        Some(c) => language_name_spec(c),
        None => "the same language"@,
    }
}

/// The view of an optional string slice.
pub open spec fn opt_chars(s: Option<&str>) -> Option<Seq<char>> {
    match s {
        Some(t) => Some(t@),
        None => None,
    }
}

fn str_same(a: &str, b: &str) -> (r: bool)
    ensures
        r == (a@ == b@),
{
    let sa = a.to_owned();
    let sb = b.to_owned();
    sa == sb
}

/// Map a language code to its human-readable name.
pub fn language_name<'a>(code: &'a str) -> (r: &'a str)
    ensures
        r@ == language_name_spec(code@),
{
    if str_same(code, "fr") {
        "French"
    } else if str_same(code, "es") {
        "Spanish"
    } else if str_same(code, "de") {
        "German"
    } else if str_same(code, "it") {
        "Italian"
    } else if str_same(code, "pt") {
        "Portuguese"
    } else if str_same(code, "nl") {
        "Dutch"
    } else if str_same(code, "ru") {
        "Russian"
    } else if str_same(code, "zh") {
        "Chinese"
    } else if str_same(code, "ja") {
        "Japanese"
    } else if str_same(code, "ko") {
        "Korean"
    } else if str_same(code, "ar") {
        "Arabic"
    } else if str_same(code, "en") {
        "English"
    } else {
        code
    }
}

/// The user prompt of a mode, naming the language twice and ending with the
/// raw transcript.
pub open spec fn user_prompt_spec(m: TranscriptionMode, lang: Seq<char>, text: Seq<char>) -> Seq<char> {
    match m {
        TranscriptionMode::Default => "Clean this "@ + lang + " transcript (keep in "@ + lang
            + ", do NOT translate):\n\n"@ + text,
        TranscriptionMode::Email => "Format this "@ + lang
            + " transcript as a professional email (keep in "@ + lang + "):\n\n"@ + text,
        TranscriptionMode::Bullets => "Convert this "@ + lang + " transcript to bullet points (keep in "@
            + lang + "):\n\n"@ + text,
        TranscriptionMode::Summary => "Summarize this "@ + lang + " transcript (keep in "@ + lang
            + "):\n\n"@ + text,
        TranscriptionMode::Slack => "Convert this "@ + lang
            + " transcript to a casual chat message (keep in "@ + lang + "):\n\n"@ + text,
        TranscriptionMode::MeetingNotes => "Format this "@ + lang
            + " transcript as meeting notes (keep in "@ + lang + "):\n\n"@ + text,
        TranscriptionMode::CodeComment => "Format this "@ + lang
            + " transcript as a code comment (keep in "@ + lang + "):\n\n"@ + text,
    }
}

/// Build the user prompt for one cleanup call.
pub fn build_user_prompt(mode: TranscriptionMode, lang: &str, text: &str) -> (r: String)
    ensures
        r@ == user_prompt_spec(mode, lang@, text@),
{
    match mode {
        TranscriptionMode::Default => {
            let s = String::from_str("Clean this ");
            let s = s.concat(lang);
            let s = s.concat(" transcript (keep in ");
            let s = s.concat(lang);
            let s = s.concat(", do NOT translate):\n\n");
            s.concat(text)
        },
        TranscriptionMode::Email => {
            let s = String::from_str("Format this ");
            let s = s.concat(lang);
            let s = s.concat(" transcript as a professional email (keep in ");
            let s = s.concat(lang);
            let s = s.concat("):\n\n");
            s.concat(text)
        },
        TranscriptionMode::Bullets => {
            let s = String::from_str("Convert this ");
            let s = s.concat(lang);
            let s = s.concat(" transcript to bullet points (keep in ");
            let s = s.concat(lang);
            let s = s.concat("):\n\n");
            s.concat(text)
        },
        TranscriptionMode::Summary => {
            let s = String::from_str("Summarize this ");
            let s = s.concat(lang);
            let s = s.concat(" transcript (keep in ");
            let s = s.concat(lang);
            let s = s.concat("):\n\n");
            s.concat(text)
        },
        TranscriptionMode::Slack => {
            let s = String::from_str("Convert this ");
            let s = s.concat(lang);
            let s = s.concat(" transcript to a casual chat message (keep in ");
            let s = s.concat(lang);
            let s = s.concat("):\n\n");
            s.concat(text)
        },
        TranscriptionMode::MeetingNotes => {
            let s = String::from_str("Format this ");
            let s = s.concat(lang);
            let s = s.concat(" transcript as meeting notes (keep in ");
            let s = s.concat(lang);
            let s = s.concat("):\n\n");
            s.concat(text)
        },
        TranscriptionMode::CodeComment => {
            let s = String::from_str("Format this ");
            let s = s.concat(lang);
            let s = s.concat(" transcript as a code comment (keep in ");
            let s = s.concat(lang);
            let s = s.concat("):\n\n");
            s.concat(text)
        },
    }
}

/// One single-turn generation request: sent with `stream` false and an empty
/// prior context, so the service keeps no cross-call history.
pub struct CleanupRequest {
    pub model: String,
    pub system: String,
    pub prompt: String,
}

/// What a cleanup call does next: hand the text back unchanged, or send one
/// request to the service.
pub enum CleanupStep {
    Done(String),
    Call(CleanupRequest),
}

/// The cleanup client configuration: the model to ask for, and whether
/// cleanup is enabled at all.
#[derive(Clone)]
pub struct OllamaClient {
    pub model: String,
    pub enabled: bool,
}

impl OllamaClient {
    /// A client with the default model, enabled.
    pub fn new() -> (r: Self)
        ensures
            r.model@ == "gemma2:2b"@,
            r.enabled,
    {
        OllamaClient { model: String::from_str("gemma2:2b"), enabled: true }
    }

    /// Select another model.
    pub fn set_model(&mut self, model: &str)
        ensures
            final(self).model@ == model@,
            final(self).enabled == old(self).enabled,
    {
        self.model = model.to_owned();
    }

    /// Enable or disable cleanup.
    pub fn set_enabled(&mut self, enabled: bool)
        ensures
            final(self).enabled == enabled,
            final(self).model@ == old(self).model@,
    {
        self.enabled = enabled;
    }

    /// Whether cleanup is enabled.
    pub fn is_enabled(&self) -> (r: bool)
        ensures
            r == self.enabled,
    {
        self.enabled
    }

    /// Decide what one cleanup call does. When cleanup is disabled, or the
    /// text is empty or whitespace-only, the text comes back unchanged and
    /// nothing is sent; otherwise the single request to send is built from
    /// the mode's templates and the language name.
    pub fn cleanup_plan(&self, text: &str, language: Option<&str>, mode: &str) -> (r: CleanupStep)
        ensures
            (r matches CleanupStep::Done(_)) <==> (!self.enabled || trim_spec(text@).len() == 0),
            r matches CleanupStep::Done(t) ==> t@ == text@,
            r matches CleanupStep::Call(req) ==> {
                let m = mode_of_id(lower_chars(mode@));
                let lang = language_phrase(opt_chars(language));
                &&& req.model@ == self.model@
                &&& req.system@ == system_prompt_spec(m, lang)
                &&& req.prompt@ == user_prompt_spec(m, lang, text@)
            },
    {
        if !self.enabled {
            return CleanupStep::Done(text.to_owned());
        }
        let trimmed = trim_str(text);
        if trimmed.as_str().is_empty() {
            return CleanupStep::Done(text.to_owned());
        }
        let tmode = TranscriptionMode::from_str(mode);
        let lang = match language {
            Some(l) => language_name(l),
            None => "the same language",
        };
        let system = tmode.get_system_prompt(lang);
        let prompt = build_user_prompt(tmode, lang, text);
        CleanupStep::Call(CleanupRequest { model: self.model.clone(), system, prompt })
    }

    /// The availability verdict once the model-listing endpoint answered:
    /// a non-success status means unavailable; an unreadable body counts as
    /// available; a readable body must mention the configured model or a
    /// models collection. (A connection failure never reaches this point:
    /// the probe reports unavailable without raising.)
    pub fn interpret_availability(&self, status_success: bool, body: Option<&str>) -> (r: bool)
        ensures
            r == availability_spec(self.model@, status_success, opt_chars(body)),
    {
        if !status_success {
            return false;
        }
        match body {
            None => true,
            Some(t) => str_contains(t, self.model.as_str()) || str_contains(t, "models"),
        }
    }
}

impl Default for OllamaClient {
    fn default() -> (r: Self)
        ensures
            r.model@ == "gemma2:2b"@,
            r.enabled,
    {
        OllamaClient::new()
    }
}

/// Whether a probe response shows the service as available.
pub open spec fn availability_spec(model: Seq<char>, status_success: bool, body: Option<Seq<char>>) -> bool {
    if !status_success {
        false
    } else {
        match body {
            None => true,
            Some(t) => contains_seq(t, model) || contains_seq(t, "models"@),
        }
    }
}

/// Post-process a service response: trim surrounding whitespace and one
/// layer of enclosing quotes.
pub fn finish_response(raw: &str) -> (r: String)
    ensures
        r@ == trim_spec(unquote_spec(trim_spec(raw@))),
{
    let t1 = trim_str(raw);
    let t2 = unquote_str(t1.as_str());
    trim_str(t2.as_str())
}

/// Recommended models for text cleanup, with a one-line description each.
pub fn get_recommended_models() -> (r: Vec<(&'static str, &'static str)>)
    ensures
        r@.len() == 4,
        r@[0].0@ == "gemma2:2b"@ && r@[0].1@ == "Fast, good quality (1.6GB)"@,
        r@[1].0@ == "phi3:3.8b"@ && r@[1].1@ == "Better quality (2.2GB)"@,
        r@[2].0@ == "llama3.1:8b"@ && r@[2].1@ == "Best quality (4.7GB)"@,
        r@[3].0@ == "grmr"@ && r@[3].1@ == "Grammar-focused (experimental)"@,
{
    let mut v: Vec<(&'static str, &'static str)> = Vec::new();
    v.push(("gemma2:2b", "Fast, good quality (1.6GB)"));
    v.push(("phi3:3.8b", "Better quality (2.2GB)"));
    v.push(("llama3.1:8b", "Best quality (4.7GB)"));
    v.push(("grmr", "Grammar-focused (experimental)"));
    v
}

} // verus!
