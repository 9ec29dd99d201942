//! The recording session: the capture lifecycle state machine, the sample
//! buffer, device selection and configuration negotiation, and the stop
//! path that resamples and encodes the capture.
//!
//! Device enumeration and the audio stream itself are collaborators: a
//! caller hands `start` the enumerated devices as plain values, feeds
//! captured blocks to `append_block`, and `stop` returns the encoded
//! container bytes.

use vstd::prelude::*;
use vstd::string::StringExecFns;
use crate::resample::{resample, resampled_seq};
use crate::wav::{encode_wav, wav_encoding};
use vstd::arithmetic::div_mod::{
    lemma_fundamental_div_mod, lemma_multiply_divide_le, lemma_div_pos_is_pos,
};
use vstd::arithmetic::mul::lemma_mul_inequality;

verus! {

/// An audio input device, as a query-time snapshot; the id is the device
/// name itself.
#[derive(Debug, Clone)]
pub struct AudioDevice {
    pub id: String,
    pub name: String,
}

impl AudioDevice {
    /// A snapshot of one device, both fields from the same name.
    pub fn from_name(name: &str) -> (r: AudioDevice)
        ensures
            r.id@ == name@,
            r.name@ == name@,
    {
        AudioDevice { id: name.to_owned(), name: name.to_owned() }
    }
}

/// One supported input configuration of a device: its channel count and
/// the highest sample rate it offers.
#[derive(Debug, Clone, Copy, PartialEq, Eq, Structural)]
pub struct DeviceConfig {
    pub channels: u16,
    pub max_sample_rate: u32,
}

/// An enumerated input device: its name and its supported configurations.
pub struct InputDevice {
    pub name: String,
    pub configs: Vec<DeviceConfig>,
}

/// The negotiated capture parameters a successful `start` hands back for
/// the caller to open the stream with.
#[derive(Debug, Clone, Copy, PartialEq, Eq, Structural)]
pub struct CapturePlan {
    pub device_index: usize,
    pub channels: u16,
    pub sample_rate: u32,
}

/// Why a `start` attempt failed.
#[derive(Debug, Clone, Copy, PartialEq, Eq, Structural)]
pub enum StartError {
    AlreadyRecording,
    DeviceEnumerationError,
    SelectedDeviceNotFound,
    NoInputDevice,
    NoSupportedConfig,
}

/// Why a `stop` attempt failed.
#[derive(Debug, Clone, Copy, PartialEq, Eq, Structural)]
pub enum StopError {
    NotRecording,
    EmptyRecording,
    EncodingError,
}

/// The index of the first device with the given name.
pub open spec fn device_index(devs: Seq<InputDevice>, id: Seq<char>) -> Option<int>
    decreases devs.len(),
{
    if devs.len() == 0 {
        None
    } else if devs[0].name@ == id {
        Some(0int)
    } else {
        match device_index(devs.drop_first(), id) {
            Some(i) => Some(i + 1),
            None => None,
        }
    }
}

/// The index of the first single-channel configuration.
pub open spec fn mono_index(configs: Seq<DeviceConfig>) -> Option<int>
    decreases configs.len(),
{
    if configs.len() == 0 {
        None
    } else if configs[0].channels == 1 {
        Some(0int)
    } else {
        match mono_index(configs.drop_first()) {
            Some(i) => Some(i + 1),
            None => None,
        }
    }
}

/// The configuration `start` negotiates: the first mono configuration if
/// one is offered, else the first configuration.
pub open spec fn chosen_config(configs: Seq<DeviceConfig>) -> Option<int> {
    match mono_index(configs) {
        Some(i) => Some(i),
        None => if configs.len() > 0 {
            Some(0int)
        } else {
            None
        },
    }
}

proof fn lemma_device_index_first(devs: Seq<InputDevice>, id: Seq<char>, k: int)
    requires
        0 <= k <= devs.len(),
        forall|j: int| 0 <= j < k ==> devs[j].name@ != id,
        k < devs.len() ==> devs[k].name@ == id,
    ensures
        device_index(devs, id) == if k == devs.len() {
            None::<int>
        } else {
            Some(k)
        },
    decreases k,
{
    if devs.len() == 0 {
    } else if k == 0 {
    } else {
        lemma_device_index_first(devs.drop_first(), id, k - 1);
    }
}

proof fn lemma_mono_index_first(configs: Seq<DeviceConfig>, k: int)
    requires
        0 <= k <= configs.len(),
        forall|j: int| 0 <= j < k ==> configs[j].channels != 1,
        k < configs.len() ==> configs[k].channels == 1,
    ensures
        mono_index(configs) == if k == configs.len() {
            None::<int>
        } else {
            Some(k)
        },
    decreases k,
{
    if configs.len() == 0 {
    } else if k == 0 {
    } else {
        lemma_mono_index_first(configs.drop_first(), k - 1);
    }
}

/// The recording session: its phase, the mono sample buffer in capture
/// order, the sample rate negotiated at the latest start, and the
/// explicitly selected device, which persists across sessions.
pub struct RecordingSession {
    pub recording: bool,
    pub samples: Vec<i16>,
    pub sample_rate: u32,
    pub selected_device: Option<String>,
}

/// The device a `start` call resolves: the selected device by exact name
/// match, else the default input device.
pub open spec fn resolve_device(
    devs: Seq<InputDevice>,
    selected: Option<String>,
    default_index: Option<int>,
) -> Result<int, StartError> {
    match selected {
        Some(id) => match device_index(devs, id@) {
            Some(i) => Ok(i),
            None => Err(StartError::SelectedDeviceNotFound),
        },
        None => match default_index {
            Some(i) => Ok(i),
            None => Err(StartError::NoInputDevice),
        },
    }
}

/// The complete contract of `start`: what the new session state and the
/// result are, for every combination of prior state and enumeration
/// outcome. `devices` is `None` when enumeration itself failed.
pub open spec fn start_post(
    pre: RecordingSession,
    devices: Option<Seq<InputDevice>>,
    default_index: Option<int>,
    post: RecordingSession,
    r: Result<CapturePlan, StartError>,
) -> bool {
    &&& post.selected_device == pre.selected_device
    &&& if pre.recording {
        r == Err::<CapturePlan, StartError>(StartError::AlreadyRecording) && post == pre
    } else {
        &&& post.recording == r is Ok
        &&& post.samples@ == Seq::<i16>::empty()
        &&& match devices {
            None => r == Err::<CapturePlan, StartError>(StartError::DeviceEnumerationError)
                && post.sample_rate == pre.sample_rate,
            Some(devs) => match resolve_device(devs, pre.selected_device, default_index) {
                Err(e) => r == Err::<CapturePlan, StartError>(e) && post.sample_rate
                    == pre.sample_rate,
                Ok(di) => match chosen_config(devs[di].configs@) {
                    None => r == Err::<CapturePlan, StartError>(StartError::NoSupportedConfig)
                        && post.sample_rate == pre.sample_rate,
                    Some(ci) => {
                        let cfg = devs[di].configs@[ci];
                        &&& r == Ok::<CapturePlan, StartError>(
                            CapturePlan {
                                device_index: di as usize,
                                channels: cfg.channels,
                                sample_rate: cfg.max_sample_rate,
                            },
                        )
                        &&& post.sample_rate == cfg.max_sample_rate
                    },
                },
            },
        }
    }
}

/// The complete contract of `stop`.
pub open spec fn stop_post(
    pre: RecordingSession,
    post: RecordingSession,
    r: Result<Vec<u8>, StopError>,
) -> bool {
    &&& post.selected_device == pre.selected_device
    &&& post.sample_rate == pre.sample_rate
    &&& if !pre.recording {
        r == Err::<Vec<u8>, StopError>(StopError::NotRecording) && post == pre
    } else {
        &&& !post.recording
        &&& post.samples == pre.samples
        &&& {
            let s = pre.samples@;
            if s.len() == 0 {
                r == Err::<Vec<u8>, StopError>(StopError::EmptyRecording)
            } else {
                let processed = if pre.sample_rate != 16000 {
                    resampled_seq(s, pre.sample_rate as int, 16000)
                } else {
                    s
                };
                if 36 + 2 * processed.len() <= u32::MAX {
                    r matches Ok(bytes) && bytes@ == wav_encoding(processed)
                } else {
                    r == Err::<Vec<u8>, StopError>(StopError::EncodingError)
                }
            }
        }
    }
}

impl RecordingSession {
    /// A session starts idle, with an empty buffer, the canonical sample
    /// rate, and no device selected.
    pub fn new() -> (r: Self)
        ensures
            !r.recording,
            r.samples@ == Seq::<i16>::empty(),
            r.sample_rate == 16000,
            r.selected_device is None,
    {
        RecordingSession {
            recording: false,
            samples: Vec::new(),
            sample_rate: 16000,
            selected_device: None,
        }
    }

    /// Whether a recording is in progress. Pure query, no side effects.
    pub fn is_recording(&self) -> (r: bool)
        ensures
            r == self.recording,
    {
        self.recording
    }

    /// Select an input device by id, or clear the selection.
    pub fn set_input_device(&mut self, device_id: Option<String>)
        ensures
            final(self).selected_device == device_id,
            final(self).recording == old(self).recording,
            final(self).samples == old(self).samples,
            final(self).sample_rate == old(self).sample_rate,
    {
        self.selected_device = device_id;
    }

    /// The currently selected device id, if any.
    pub fn get_selected_device(&self) -> (r: Option<String>)
        ensures
            match r {
                Some(s) => self.selected_device matches Some(t) && s@ == t@,
                None => self.selected_device is None,
            },
    {
        match &self.selected_device {
            Some(s) => Some(s.clone()),
            None => None,
        }
    }

    /// Begin a recording: refuse when one is already running, clear the
    /// buffer, resolve the device (`devices` is `None` when enumeration
    /// failed; `default_index` names the default input device), negotiate
    /// a configuration preferring mono, record its maximum sample rate,
    /// and hand back the capture plan.
    pub fn start(
        &mut self,
        devices: Option<&Vec<InputDevice>>,
        default_index: Option<usize>,
    ) -> (r: Result<CapturePlan, StartError>)
        requires
            match (devices, default_index) {
                (Some(devs), Some(i)) => i < devs@.len(),
                _ => true,
            },
        ensures
            start_post(
                *old(self),
                match devices {
                    Some(devs) => Some(devs@),
                    None => None,
                },
                match default_index {
                    Some(i) => Some(i as int),
                    None => None,
                },
                *final(self),
                r,
            ),
    {
        if self.recording {
            return Err(StartError::AlreadyRecording);
        }
        self.samples = Vec::new();
        let devs = match devices {
            Some(devs) => devs,
            None => {
                return Err(StartError::DeviceEnumerationError);
            },
        };
        let di: usize = match &self.selected_device {
            Some(id) => {
                let mut i: usize = 0;
                let n = devs.len();
                let mut found: Option<usize> = None;
                while i < n && found.is_none()
                    invariant
                        n == devs@.len(),
                        i <= n,
                        match found {
                            Some(k) => k < i && devs@[k as int].name@ == id@ && (forall|j: int|
                                0 <= j < k ==> devs@[j].name@ != id@),
                            None => forall|j: int| 0 <= j < i ==> devs@[j].name@ != id@,
                        },
                    decreases n - i,
                {
                    if devs[i].name.eq(id) {
                        found = Some(i);
                    }
                    i += 1;
                }
                match found {
                    Some(k) => {
                        proof {
                            lemma_device_index_first(devs@, id@, k as int);
                        }
                        k
                    },
                    None => {
                        proof {
                            lemma_device_index_first(devs@, id@, devs@.len() as int);
                        }
                        return Err(StartError::SelectedDeviceNotFound);
                    },
                }
            },
            None => {
                match default_index {
                    Some(i) => i,
                    None => {
                        return Err(StartError::NoInputDevice);
                    },
                }
            },
        };
        let configs = &devs[di].configs;
        let nc = configs.len();
        let mut ci: Option<usize> = None;
        let mut i: usize = 0;
        while i < nc && ci.is_none()
            invariant
                nc == configs@.len(),
                i <= nc,
                match ci {
                    Some(k) => k < i && configs@[k as int].channels == 1 && (forall|j: int|
                        0 <= j < k ==> configs@[j].channels != 1),
                    None => forall|j: int| 0 <= j < i ==> configs@[j].channels != 1,
                },
            decreases nc - i,
        {
            if configs[i].channels == 1 {
                ci = Some(i);
            }
            i += 1;
        }
        let chosen: usize = match ci {
            Some(k) => {
                proof {
                    lemma_mono_index_first(configs@, k as int);
                }
                k
            },
            None => {
                proof {
                    lemma_mono_index_first(configs@, configs@.len() as int);
                }
                if nc == 0 {
                    return Err(StartError::NoSupportedConfig);
                }
                0
            },
        };
        let cfg = configs[chosen];
        self.sample_rate = cfg.max_sample_rate;
        self.recording = true;
        Ok(CapturePlan { device_index: di, channels: cfg.channels, sample_rate: cfg.max_sample_rate })
    }

    /// End the recording: refuse when idle, refuse an empty capture,
    /// resample to the canonical 16000 Hz when the capture rate differs,
    /// and encode the result. The buffer itself is kept until the next
    /// start clears it.
    pub fn stop(&mut self) -> (r: Result<Vec<u8>, StopError>)
        requires
            old(self).sample_rate > 0,
        ensures
            stop_post(*old(self), *final(self), r),
    {
        if !self.recording {
            return Err(StopError::NotRecording);
        }
        self.recording = false;
        let len = self.samples.len();
        if len == 0 {
            return Err(StopError::EmptyRecording);
        }
        if self.sample_rate != 16000 {
            if (len as u128) * 16000u128 > u64::MAX as u128 {
                proof {
                    lemma_huge_resample(self.samples@.len() as int, self.sample_rate as int);
                }
                return Err(StopError::EncodingError);
            }
            let wide: u64 = (len as u64) * 16000u64 / (self.sample_rate as u64);
            if wide > usize::MAX as u64 {
                return Err(StopError::EncodingError);
            }
            let processed = resample(&self.samples, self.sample_rate, 16000);
            if processed.len() > 2147483629usize {
                return Err(StopError::EncodingError);
            }
            Ok(encode_wav(&processed))
        } else {
            if len > 2147483629usize {
                return Err(StopError::EncodingError);
            }
            Ok(encode_wav(&self.samples))
        }
    }
}

impl Default for RecordingSession {
    fn default() -> (r: Self)
        ensures
            !r.recording,
            r.samples@ == Seq::<i16>::empty(),
            r.sample_rate == 16000,
            r.selected_device is None,
    {
        RecordingSession::new()
    }
}

/// The sum of one frame's first `k` samples, each shifted into 0..=65535.
pub open spec fn frame_sum(block: Seq<i16>, ch: int, f: int, k: int) -> int
    decreases k,
{
    if k <= 0 {
        0
    } else {
        frame_sum(block, ch, f, k - 1) + (block[f * ch + k - 1] + 32768)
    }
}

/// The average of one frame of `ch` interleaved samples, floor-rounded.
pub open spec fn frame_avg(block: Seq<i16>, ch: int, f: int) -> int {
    frame_sum(block, ch, f, ch) / ch - 32768
}

/// A block of interleaved samples downmixed to mono by per-frame
/// averaging.
pub open spec fn downmixed(block: Seq<i16>, ch: int) -> Seq<i16> {
    Seq::new(((block.len() as int) / ch) as nat, |f: int| frame_avg(block, ch, f) as i16)
}

impl RecordingSession {
    /// Drain one captured block: when the session has already been told to
    /// stop, the block is discarded; otherwise each frame of `channels`
    /// interleaved samples is averaged into one mono sample and appended
    /// to the buffer in capture order.
    pub fn append_block(&mut self, block: &Vec<i16>, channels: u16)
        requires
            channels >= 1,
            (block@.len() as int) % (channels as int) == 0,
            old(self).samples@.len() + block@.len() <= usize::MAX,
        ensures
            final(self).recording == old(self).recording,
            final(self).sample_rate == old(self).sample_rate,
            final(self).selected_device == old(self).selected_device,
            !old(self).recording ==> final(self).samples == old(self).samples,
            old(self).recording ==> final(self).samples@ == old(self).samples@ + downmixed(
                block@,
                channels as int,
            ),
    {
        if !self.recording {
            return;
        }
        let ch = channels as usize;
        let n = block.len();
        let frames = n / ch;
        proof {
            lemma_fundamental_div_mod(n as int, ch as int);
        }
        let mut f: usize = 0;
        while f < frames
            invariant
                1 <= ch <= 65535,
                ch == channels,
                n == block@.len(),
                frames == n as int / ch as int,
                ch * frames == n,
                f <= frames,
                self.recording == old(self).recording,
                self.sample_rate == old(self).sample_rate,
                self.selected_device == old(self).selected_device,
                old(self).samples@.len() + block@.len() <= usize::MAX,
                self.samples@ == old(self).samples@ + downmixed(block@, ch as int).take(f as int),
            decreases frames - f,
        {
            proof {
                lemma_mul_inequality(f + 1, frames as int, ch as int);
                assert((f + 1) * ch == f * ch + ch) by (nonlinear_arith);
                assert(frames as int * ch == ch * frames) by (nonlinear_arith);
                assert(f * ch >= 0) by (nonlinear_arith)
                    requires f >= 0 && ch >= 1;
            }
            let base = f * ch;
            let mut sum: u32 = 0;
            let mut k: usize = 0;
            while k < ch
                invariant
                    1 <= ch <= 65535,
                    k <= ch,
                    n == block@.len(),
                    base == f * ch,
                    base + ch <= n,
                    sum == frame_sum(block@, ch as int, f as int, k as int),
                    sum <= k * 65535,
                decreases ch - k,
            {
                sum = sum + ((block[base + k] as i32) + 32768) as u32;
                k += 1;
            }
            let avg: u32 = sum / (ch as u32);
            proof {
                lemma_multiply_divide_le(sum as int, ch as int, 65535);
                lemma_div_pos_is_pos(sum as int, ch as int);
            }
            let val: i16 = ((avg as i32) - 32768) as i16;
            self.samples.push(val);
            proof {
                assert(self.samples@ =~= old(self).samples@ + downmixed(block@, ch as int).take(
                    f + 1,
                ));
            }
            f += 1;
        }
        proof {
            assert(downmixed(block@, ch as int).take(frames as int) =~= downmixed(
                block@,
                ch as int,
            ));
        }
    }
}

/// A session that is recording refuses another `start`, with
/// `AlreadyRecording`, and is left exactly as it was. In particular a
/// `start` right after a successful `start` is refused: a successful
/// `start` leaves the session recording.
pub proof fn lemma_start_while_recording(
    pre: RecordingSession,
    devices: Option<Seq<InputDevice>>,
    default_index: Option<int>,
    post: RecordingSession,
    r: Result<CapturePlan, StartError>,
)
    requires
        pre.recording,
        start_post(pre, devices, default_index, post, r),
    ensures
        r == Err::<CapturePlan, StartError>(StartError::AlreadyRecording),
        post == pre,
{
}

/// A second `start` immediately after a successful one fails with
/// `AlreadyRecording` and changes nothing, whatever devices either call
/// saw.
pub proof fn lemma_start_twice(
    pre: RecordingSession,
    devices1: Option<Seq<InputDevice>>,
    default1: Option<int>,
    mid: RecordingSession,
    r1: Result<CapturePlan, StartError>,
    devices2: Option<Seq<InputDevice>>,
    default2: Option<int>,
    post: RecordingSession,
    r2: Result<CapturePlan, StartError>,
)
    requires
        start_post(pre, devices1, default1, mid, r1),
        r1 is Ok,
        start_post(mid, devices2, default2, post, r2),
    ensures
        r2 == Err::<CapturePlan, StartError>(StartError::AlreadyRecording),
        post == mid,
{
}

/// `stop` on an idle session fails with `NotRecording` and changes
/// nothing.
pub proof fn lemma_stop_idle(
    pre: RecordingSession,
    post: RecordingSession,
    r: Result<Vec<u8>, StopError>,
)
    requires
        !pre.recording,
        stop_post(pre, post, r),
    ensures
        r == Err::<Vec<u8>, StopError>(StopError::NotRecording),
        post == pre,
{
}

proof fn lemma_huge_resample(len: int, rate: int)
    requires
        0 < rate <= u32::MAX,
        len * 16000 > u64::MAX,
    ensures
        36 + 2 * (len * 16000 / rate) > u32::MAX,
{
    vstd::arithmetic::div_mod::lemma_div_is_ordered_by_denominator(
        len * 16000,
        rate,
        u32::MAX as int,
    );
    assert(len * 16000 / (u32::MAX as int) >= (u64::MAX as int + 1) / (u32::MAX as int)) by {
        vstd::arithmetic::div_mod::lemma_div_is_ordered(
            u64::MAX as int + 1,
            len * 16000,
            u32::MAX as int,
        );
    }
    assert((u64::MAX as int + 1) / (u32::MAX as int) > 2147483647) by {
        vstd::arithmetic::div_mod::lemma_div_multiples_vanish(2147483648, u32::MAX as int);
        assert((u32::MAX as int) * 2147483648 <= u64::MAX as int + 1) by (nonlinear_arith);
        vstd::arithmetic::div_mod::lemma_div_is_ordered(
            (u32::MAX as int) * 2147483648,
            u64::MAX as int + 1,
            u32::MAX as int,
        );
    }
}

} // verus!
