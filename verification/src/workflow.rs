//! The transcribe-and-cleanup workflow: the short-circuiting validation
//! gates in order, and the fallback policy that keeps the raw transcript
//! whenever cleanup fails or returns a refusal instead of a rewrite.
//!
//! The speech engine and the cleanup service are collaborators: a caller
//! runs them between the gates and hands their outcomes back.

use vstd::prelude::*;
use vstd::arithmetic::power2::{pow2, lemma2_to64};
use vstd::string::StrSliceExecFns;
use crate::text::{contains_seq, str_contains};
use crate::wav::{DecodedWav, SampleData, decode_wav, wav_ok, wav_format, wav_bits, wav_int_samples, wav_channels, wav_rate, wav_float_words};

verus! {

/// The byte-size floor under which a container counts as no capture.
pub const MIN_WAV_BYTES: usize = 1000;

/// Why the workflow rejected a capture or a transcript.
#[derive(Debug, Clone, Copy, PartialEq, Eq, Structural)]
pub enum WorkflowError {
    NoAudioCaptured,
    SilentAudio,
    UnintelligibleAudio,
    DecodeFailed,
}

impl WorkflowError {
    /// The user-facing guidance for this rejection.
    pub fn message(&self) -> (r: String)
        ensures
            match *self {
                WorkflowError::NoAudioCaptured => r@
                    == "No audio captured. Check microphone permissions in System Settings > Privacy & Security > Microphone."@,
                WorkflowError::SilentAudio => r@
                    == "Audio too quiet - check that your microphone is working and you have granted permission."@,
                WorkflowError::UnintelligibleAudio => r@
                    == "Could not transcribe audio. Try speaking louder or longer."@,
                WorkflowError::DecodeFailed => r@ == "Failed to read WAV data"@,
            },
    {
        match self {
            WorkflowError::NoAudioCaptured => String::from_str(
                "No audio captured. Check microphone permissions in System Settings > Privacy & Security > Microphone.",
            ),
            WorkflowError::SilentAudio => String::from_str(
                "Audio too quiet - check that your microphone is working and you have granted permission.",
            ),
            WorkflowError::UnintelligibleAudio => String::from_str(
                "Could not transcribe audio. Try speaking louder or longer.",
            ),
            WorkflowError::DecodeFailed => String::from_str("Failed to read WAV data"),
        }
    }
}

/// The absolute value of a 32-bit sample.
pub open spec fn abs_val(x: int) -> int {
    if x < 0 {
        -x
    } else {
        x
    }
}

/// The largest absolute sample value.
pub open spec fn peak_abs_spec(s: Seq<i32>) -> int
    decreases s.len(),
{
    if s.len() == 0 {
        0
    } else {
        let rest = peak_abs_spec(s.drop_last());
        if abs_val(s.last() as int) > rest {
            abs_val(s.last() as int)
        } else {
            rest
        }
    }
}

/// Integer samples at the given bit depth count as silent when the peak
/// amplitude is below one hundredth of full scale.
pub open spec fn is_silent(s: Seq<i32>, bits: int) -> bool {
    100 * peak_abs_spec(s) < pow2((bits - 1) as nat)
}

/// The peak absolute amplitude of a block of integer samples.
pub fn peak_abs(samples: &Vec<i32>) -> (r: u32)
    ensures
        r == peak_abs_spec(samples@),
{
    let mut peak: u32 = 0;
    let mut i: usize = 0;
    while i < samples.len()
        invariant
            i <= samples@.len(),
            peak == peak_abs_spec(samples@.take(i as int)),
        decreases samples@.len() - i,
    {
        let x = samples[i];
        let a: u32 = if x < 0 {
            (-(x as i64)) as u32
        } else {
            x as u32
        };
        if a > peak {
            peak = a;
        }
        proof {
            assert(samples@.take(i + 1).drop_last() =~= samples@.take(i as int));
        }
        i += 1;
    }
    proof {
        assert(samples@.take(samples@.len() as int) =~= samples@);
    }
    peak
}

/// Whether integer samples at the given bit depth fall below the silence
/// threshold.
pub fn is_silent_exec(samples: &Vec<i32>, bits: u16) -> (r: bool)
    requires
        bits == 8 || bits == 16 || bits == 24 || bits == 32,
    ensures
        r == is_silent(samples@, bits as int),
{
    let peak = peak_abs(samples);
    let half: u64 = match bits {
        8 => 128,
        16 => 32768,
        24 => 8388608,
        _ => 2147483648,
    };
    proof {
        lemma2_to64();
    }
    100 * (peak as u64) < half
}

/// Run the capture-side validation gates, in order: a container under the
/// minimum byte size is no capture at all; a malformed container fails to
/// decode; integer samples below the silence threshold are silent. A
/// well-formed floating-point container passes, and its amplitude is the
/// caller's to judge.
pub fn validate_capture(wav: &Vec<u8>) -> (r: Result<DecodedWav, WorkflowError>)
    ensures
        wav@.len() < MIN_WAV_BYTES ==> r == Err::<DecodedWav, WorkflowError>(
            WorkflowError::NoAudioCaptured,
        ),
        wav@.len() >= MIN_WAV_BYTES && !wav_ok(wav@) ==> r == Err::<DecodedWav, WorkflowError>(
            WorkflowError::DecodeFailed,
        ),
        wav@.len() >= MIN_WAV_BYTES && wav_ok(wav@) && wav_format(wav@) == 1 && is_silent(
            wav_int_samples(wav@),
            wav_bits(wav@),
        ) ==> r == Err::<DecodedWav, WorkflowError>(WorkflowError::SilentAudio),
        wav@.len() >= MIN_WAV_BYTES && wav_ok(wav@) && (wav_format(wav@) == 3 || !is_silent(
            wav_int_samples(wav@),
            wav_bits(wav@),
        )) ==> (r matches Ok(d) && {
            &&& d.channels == wav_channels(wav@)
            &&& d.sample_rate == wav_rate(wav@)
            &&& d.bits_per_sample == wav_bits(wav@)
            &&& wav_format(wav@) == 1 ==> (d.data matches SampleData::Int(v) && v@
                == wav_int_samples(wav@))
            &&& wav_format(wav@) == 3 ==> (d.data matches SampleData::Float(v) && v@
                == wav_float_words(wav@))
        }),
{
    if wav.len() < MIN_WAV_BYTES {
        return Err(WorkflowError::NoAudioCaptured);
    }
    let decoded = match decode_wav(wav) {
        Ok(d) => d,
        Err(_) => {
            return Err(WorkflowError::DecodeFailed);
        },
    };
    match &decoded.data {
        SampleData::Int(v) => {
            if is_silent_exec(v, decoded.bits_per_sample) {
                return Err(WorkflowError::SilentAudio);
            }
        },
        SampleData::Float(_) => {},
    }
    Ok(decoded)
}

/// Judge the transcription outcome: a transcript of fewer than two
/// characters is unintelligible; otherwise the text is meaningful as it
/// stands. The text is expected already trimmed, as `assemble_transcript`
/// returns it.
pub fn assess_transcript(text: &str) -> (r: Result<(), WorkflowError>)
    ensures
        r is Ok <==> text@.len() >= 2,
        r is Err ==> r == Err::<(), WorkflowError>(WorkflowError::UnintelligibleAudio),
{
    if text.unicode_len() < 2 {
        return Err(WorkflowError::UnintelligibleAudio);
    }
    Ok(())
}

/// Whether the workflow asks the cleanup service at all: cleanup must be
/// enabled and the raw text longer than three characters.
pub fn should_cleanup(enabled: bool, raw: &str) -> (r: bool)
    ensures
        r == (enabled && raw@.len() > 3),
{
    enabled && raw.unicode_len() > 3
}

/// A cleanup response that merely echoes the instructions rather than
/// rewriting the transcript: it names both the asking and the subject
/// token.
pub open spec fn looks_like_refusal(c: Seq<char>) -> bool {
    contains_seq(c, "provide"@) && contains_seq(c, "transcript"@)
}

/// What the cleanup stage came to: the service failed (or was skipped),
/// or it returned a candidate rewrite.
pub enum CleanupOutcome {
    Failed,
    Cleaned(String),
}

/// Choose the final text: any cleanup failure falls back to the raw
/// transcript, and so does a response that looks like a refusal rather
/// than a rewrite.
pub fn resolve_cleaned(raw: &str, outcome: CleanupOutcome) -> (r: String)
    ensures
        outcome matches CleanupOutcome::Failed ==> r@ == raw@,
        outcome matches CleanupOutcome::Cleaned(c) ==> if looks_like_refusal(c@) {
            r@ == raw@
        } else {
            r@ == c@
        },
{
    match outcome {
        CleanupOutcome::Failed => raw.to_owned(),
        CleanupOutcome::Cleaned(c) => {
            if str_contains(c.as_str(), "provide") && str_contains(c.as_str(), "transcript") {
                raw.to_owned()
            } else {
                c
            }
        },
    }
}

/// The workflow's final product: the raw transcript, the text after the
/// cleanup policy, and the detected language.
#[derive(Debug, Clone)]
pub struct TranscribeResult {
    pub raw_text: String,
    pub cleaned_text: String,
    pub language: String,
}

} // verus!
