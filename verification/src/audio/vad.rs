//! Voice-activity detection with hysteresis.
//!
//! Each 30 ms frame is classified as speech or silence by the WebRTC
//! detector. The classification and a monotonic clock reading then drive a
//! two-state machine, so that an utterance ends only after silence has
//! lasted for the configured duration.

use std::time::Duration;
use std::time::Instant;
use vstd::prelude::*;
use webrtc_vad::Vad;

verus! {

/// Length of a detector frame in milliseconds.
pub const FRAME_DURATION_MS: u32 = 30;

/// Nanoseconds in a millisecond.
pub const NANOS_PER_MILLI: u128 = 1_000_000;

/// `webrtc_vad::Vad`, the WebRTC detector. Nothing inside it is visible here.
#[verifier::external_type_specification]
#[verifier::external_body]
pub struct ExVad(Vad);

/// `std::time::Instant`, a reading of the monotonic clock. Nothing inside it
/// is visible here.
#[verifier::external_type_specification]
#[verifier::external_body]
pub struct ExInstant(Instant);

/// The sample rate in Hz that a WebRTC detector was created for. The detector
/// keeps it to itself; it is set when the detector is made and decides which
/// frame lengths the detector accepts.
pub uninterp spec fn detector_rate(vad: &Vad) -> int;

/// Frame lengths that the WebRTC detector accepts at `rate` Hz: 10, 20 or
/// 30 ms of samples.
pub open spec fn detector_accepts(rate: int, len: int) -> bool {
    let per_ms = rate / 1000;
    len == 10 * per_ms || len == 20 * per_ms || len == 30 * per_ms
}

/// `Instant::now` reads the monotonic clock; nothing is known of the reading.
pub assume_specification[ Instant::now ]() -> (now: Instant)
;

/// `Instant::elapsed` gives the time since the instant was taken, zero if the
/// clock has not advanced; nothing more is known of it.
pub assume_specification[ Instant::elapsed ](start: &Instant) -> (elapsed: Duration)
;

/// `Duration::as_nanos` gives the whole duration in nanoseconds.
pub assume_specification[ Duration::as_nanos ](d: &Duration) -> (nanos: u128)
;

/// Calls `Vad::new_with_rate_and_mode`, which allocates a detector and sets its
/// rate and mode; the detector then processes frames at that rate.
#[verifier::external_body]
fn new_detector(rate: SampleRate, mode: Aggressiveness) -> (vad: Vad)
    ensures
        detector_rate(&vad) == rate.hertz(),
{
    let rate = match rate {
        SampleRate::Rate8kHz => webrtc_vad::SampleRate::Rate8kHz,
        SampleRate::Rate16kHz => webrtc_vad::SampleRate::Rate16kHz,
        SampleRate::Rate32kHz => webrtc_vad::SampleRate::Rate32kHz,
        SampleRate::Rate48kHz => webrtc_vad::SampleRate::Rate48kHz,
    };
    let mode = match mode {
        Aggressiveness::Quality => webrtc_vad::VadMode::Quality,
        Aggressiveness::LowBitrate => webrtc_vad::VadMode::LowBitrate,
        Aggressiveness::Aggressive => webrtc_vad::VadMode::Aggressive,
        Aggressiveness::VeryAggressive => webrtc_vad::VadMode::VeryAggressive,
    };
    Vad::new_with_rate_and_mode(rate, mode)
}

/// Calls `Vad::is_voice_segment`. The detector reads the first sample without
/// a bounds check, so the frame must not be empty. It answers `Ok` exactly for
/// frames of 10, 20 or 30 ms at its own rate, which the call does not change;
/// which of `true` and `false` it answers depends on the audio it has heard.
/// On a frame that is not empty it returns without unwinding.
#[verifier::external_body]
fn classify_frame(vad: &mut Vad, frame: &[i16]) -> (verdict: Result<bool, ()>)
    requires
        frame@.len() > 0,
    ensures
        detector_rate(final(vad)) == detector_rate(old(vad)),
        verdict is Ok <==> detector_accepts(detector_rate(old(vad)), frame@.len() as int),
    no_unwind
{
    vad.is_voice_segment(frame)
}

/// Sample rates that the detector supports.
#[derive(Debug, Clone, Copy, PartialEq, Eq, Structural)]
pub enum SampleRate {
    Rate8kHz,
    Rate16kHz,
    Rate32kHz,
    Rate48kHz,
}

/// Whether `hertz` is one of the four supported sample rates.
pub open spec fn is_supported_rate(hertz: u32) -> bool {
    hertz == 8000 || hertz == 16000 || hertz == 32000 || hertz == 48000
}

impl SampleRate {
    /// The rate in Hz.
    pub open spec fn hertz(self) -> int {
        match self {
            SampleRate::Rate8kHz => 8000,
            SampleRate::Rate16kHz => 16000,
            SampleRate::Rate32kHz => 32000,
            SampleRate::Rate48kHz => 48000,
        }
    }

    /// The supported rate of `hertz` Hz, if there is one.
    pub fn from_hertz(hertz: u32) -> (rate: Option<SampleRate>)
        ensures
            rate is Some <==> is_supported_rate(hertz),
            rate is Some ==> rate->0.hertz() == hertz,
    {
        if hertz == 8000 {
            Some(SampleRate::Rate8kHz)
        } else if hertz == 16000 {
            Some(SampleRate::Rate16kHz)
        } else if hertz == 32000 {
            Some(SampleRate::Rate32kHz)
        } else if hertz == 48000 {
            Some(SampleRate::Rate48kHz)
        } else {
            None
        }
    }
}

/// How restrictive the detector is in reporting speech.
#[derive(Debug, Clone, Copy, PartialEq, Eq, Structural)]
pub enum Aggressiveness {
    Quality,
    LowBitrate,
    Aggressive,
    VeryAggressive,
}

impl Aggressiveness {
    /// The numeric level, 0 to 3.
    pub open spec fn level(self) -> int {
        match self {
            Aggressiveness::Quality => 0,
            Aggressiveness::LowBitrate => 1,
            Aggressiveness::Aggressive => 2,
            Aggressiveness::VeryAggressive => 3,
        }
    }

    /// The mode of numeric `level`, if `level` is at most 3.
    pub fn from_level(level: u8) -> (mode: Option<Aggressiveness>)
        ensures
            mode is Some <==> level <= 3,
            mode is Some ==> mode->0.level() == level,
    {
        if level == 0 {
            Some(Aggressiveness::Quality)
        } else if level == 1 {
            Some(Aggressiveness::LowBitrate)
        } else if level == 2 {
            Some(Aggressiveness::Aggressive)
        } else if level == 3 {
            Some(Aggressiveness::VeryAggressive)
        } else {
            None
        }
    }
}

/// What one frame did to the detector.
#[derive(Debug, Clone, Copy, PartialEq, Eq, Structural)]
pub enum VadEvent {
    SpeechStart,
    Speaking,
    Silence,
    SpeechEnd,
}

/// Why a detector could not be built or a frame could not be processed.
#[derive(Debug, Clone, Copy, PartialEq, Eq, Structural)]
pub enum VadError {
    /// Configuration error: the sample rate is not 8000, 16000, 32000 or 48000.
    UnsupportedSampleRate { sample_rate: u32 },
    /// Configuration error: the aggressiveness is not in 0..=3.
    InvalidAggressiveness { aggressiveness: u8 },
    /// The frame does not hold exactly one frame's worth of samples.
    FrameSize { expected: usize, actual: usize },
    /// The underlying detector rejected the frame.
    DetectorFailed,
}

impl VadError {
    /// Whether the error reports a bad configuration value.
    pub open spec fn is_configuration(self) -> bool {
        self is UnsupportedSampleRate || self is InvalidAggressiveness
    }

    /// Whether the error reports a bad configuration value.
    #[verifier::when_used_as_spec(is_configuration)]
    pub fn is_configuration_error(self) -> (r: bool)
        ensures
            r == self.is_configuration(),
    {
        match self {
            VadError::UnsupportedSampleRate { .. } => true,
            VadError::InvalidAggressiveness { .. } => true,
            _ => false,
        }
    }
}

/// The hysteresis state: whether an utterance is in progress, and the clock
/// reading, in nanoseconds, of the last speech frame.
pub struct VadState {
    pub speaking: bool,
    pub last_speech: Option<nat>,
}

/// The state of a fresh or reset detector.
pub open spec fn idle_state() -> VadState {
    VadState { speaking: false, last_speech: None }
}

/// Time from `earlier` to `now`, zero if the clock reads less than before.
pub open spec fn elapsed_between(earlier: nat, now: nat) -> nat {
    if now >= earlier {
        (now - earlier) as nat
    } else {
        0
    }
}

/// Whether silence observed at `now` ends the utterance in state `s`.
pub open spec fn silence_expired(s: VadState, threshold: nat, now: nat) -> bool {
    s.speaking && s.last_speech is Some && elapsed_between(s.last_speech->0, now) >= threshold
}

/// One transition of the detector: the state after a frame classified as
/// `has_speech` at clock reading `now`, and the event it raises.
pub open spec fn vad_step(s: VadState, threshold: nat, has_speech: bool, now: nat) -> (
    VadState,
    VadEvent,
) {
    if has_speech {
        (
            VadState { speaking: true, last_speech: Some(now) },
            if s.speaking {
                VadEvent::Speaking
            } else {
                VadEvent::SpeechStart
            },
        )
    } else if silence_expired(s, threshold, now) {
        (VadState { speaking: false, last_speech: s.last_speech }, VadEvent::SpeechEnd)
    } else {
        (s, VadEvent::Silence)
    }
}

/// The events raised by a run of frames, each given as its classification and
/// clock reading, and the state the run ends in.
pub open spec fn vad_run(s: VadState, threshold: nat, frames: Seq<(bool, nat)>) -> (
    VadState,
    Seq<VadEvent>,
)
    decreases frames.len(),
{
    if frames.len() == 0 {
        (s, Seq::empty())
    } else {
        let first = vad_step(s, threshold, frames[0].0, frames[0].1);
        let rest = vad_run(first.0, threshold, frames.drop_first());
        (rest.0, seq![first.1] + rest.1)
    }
}

/// Frames of silence at the given clock readings.
pub open spec fn silence_frames(times: Seq<nat>) -> Seq<(bool, nat)> {
    Seq::new(times.len(), |i: int| (false, times[i]))
}

/// Whether the reading `times[i]` is the first that lies `threshold` or more
/// after `since`.
pub open spec fn first_expiry_at(times: Seq<nat>, since: nat, threshold: nat, i: int) -> bool {
    &&& 0 <= i < times.len()
    &&& elapsed_between(since, times[i]) >= threshold
    &&& forall|j: int| 0 <= j < i ==> elapsed_between(since, #[trigger] times[j]) < threshold
}

/// Silence does nothing to a detector that hears no utterance.
pub proof fn lemma_silence_while_idle(s: VadState, threshold: nat, times: Seq<nat>)
    requires
        !s.speaking,
    ensures
        vad_run(s, threshold, silence_frames(times)) == (
            s,
            Seq::new(times.len(), |i: int| VadEvent::Silence),
        ),
    decreases times.len(),
{
    let frames = silence_frames(times);
    let run = vad_run(s, threshold, frames);
    if times.len() == 0 {
        assert(run.1 =~= Seq::new(times.len(), |i: int| VadEvent::Silence));
    } else {
        let tail = times.drop_first();
        assert(frames.drop_first() =~= silence_frames(tail));
        lemma_silence_while_idle(s, threshold, tail);
        assert(run.1 =~= Seq::new(times.len(), |i: int| VadEvent::Silence));
    }
}

/// Hysteresis: during an utterance, a run of silence frames raises
/// `SpeechEnd` exactly at the first frame whose clock reading lies the
/// threshold or more after the last speech frame, and `Silence` at every
/// other frame. The utterance is still in progress after the run exactly when
/// no frame reached the threshold.
pub proof fn lemma_silence_ends_utterance_once(s: VadState, threshold: nat, times: Seq<nat>)
    requires
        s.speaking,
        s.last_speech is Some,
    ensures
        ({
            let since = s.last_speech->0;
            let run = vad_run(s, threshold, silence_frames(times));
            &&& run.1.len() == times.len()
            &&& forall|i: int|
                0 <= i < times.len() ==> (#[trigger] run.1[i]) == if first_expiry_at(
                    times,
                    since,
                    threshold,
                    i,
                ) {
                    VadEvent::SpeechEnd
                } else {
                    VadEvent::Silence
                }
            &&& run.0.last_speech == s.last_speech
            &&& run.0.speaking <==> forall|i: int|
                0 <= i < times.len() ==> elapsed_between(since, #[trigger] times[i]) < threshold
        }),
    decreases times.len(),
{
    let since = s.last_speech->0;
    let frames = silence_frames(times);
    let run = vad_run(s, threshold, frames);
    if times.len() > 0 {
        let tail = times.drop_first();
        assert(frames.drop_first() =~= silence_frames(tail));
        let first = vad_step(s, threshold, false, times[0]);
        let rest = vad_run(first.0, threshold, silence_frames(tail));
        assert(run.1 =~= seq![first.1] + rest.1);
        if elapsed_between(since, times[0]) >= threshold {
            lemma_silence_while_idle(first.0, threshold, tail);
            assert(first_expiry_at(times, since, threshold, 0));
            assert forall|i: int| 0 <= i < times.len() implies (#[trigger] run.1[i])
                == if first_expiry_at(times, since, threshold, i) {
                VadEvent::SpeechEnd
            } else {
                VadEvent::Silence
            } by {
                if i > 0 {
                    assert(run.1[i] == rest.1[i - 1]);
                    assert(!(elapsed_between(since, times[0]) < threshold));
                }
            }
        } else {
            lemma_silence_ends_utterance_once(s, threshold, tail);
            assert forall|i: int| 0 <= i < times.len() implies (#[trigger] run.1[i])
                == if first_expiry_at(times, since, threshold, i) {
                VadEvent::SpeechEnd
            } else {
                VadEvent::Silence
            } by {
                if i > 0 {
                    assert(run.1[i] == rest.1[i - 1]);
                    assert(times[i] == tail[i - 1]);
                    if first_expiry_at(tail, since, threshold, i - 1) {
                        assert forall|j: int| 0 <= j < i implies elapsed_between(
                            since,
                            #[trigger] times[j],
                        ) < threshold by {
                            if j > 0 {
                                assert(times[j] == tail[j - 1]);
                            }
                        }
                    }
                    if first_expiry_at(times, since, threshold, i) {
                        assert forall|j: int| 0 <= j < i - 1 implies elapsed_between(
                            since,
                            #[trigger] tail[j],
                        ) < threshold by {
                            assert(tail[j] == times[j + 1]);
                        }
                    }
                }
            }
            if run.0.speaking {
                assert forall|i: int| 0 <= i < times.len() implies elapsed_between(
                    since,
                    #[trigger] times[i],
                ) < threshold by {
                    if i > 0 {
                        assert(times[i] == tail[i - 1]);
                    }
                }
            } else {
                let k = choose|k: int|
                    0 <= k < tail.len() && !(elapsed_between(since, #[trigger] tail[k])
                        < threshold);
                assert(tail[k] == times[k + 1]);
            }
        }
    }
}

/// From rest, the first speech frame raises `SpeechStart` and the speech
/// frame after it raises `Speaking`.
pub proof fn lemma_speech_starts_then_continues(
    s: VadState,
    threshold: nat,
    first: nat,
    second: nat,
)
    requires
        !s.speaking,
    ensures
        vad_run(s, threshold, seq![(true, first), (true, second)]) == (
            VadState { speaking: true, last_speech: Some(second) },
            seq![VadEvent::SpeechStart, VadEvent::Speaking],
        ),
{
    let frames = seq![(true, first), (true, second)];
    let tail = frames.drop_first();
    assert(tail =~= seq![(true, second)]);
    assert(tail.drop_first() =~= Seq::<(bool, nat)>::empty());
    reveal_with_fuel(vad_run, 3);
    let run = vad_run(s, threshold, frames);
    assert(run.1 =~= seq![VadEvent::SpeechStart, VadEvent::Speaking]);
}

/// Once silence has ended an utterance, further silence raises no event but
/// `Silence`, however much later it comes.
pub proof fn lemma_idle_after_end(s: VadState, threshold: nat, now: nat)
    requires
        silence_expired(s, threshold, now),
    ensures
        vad_step(s, threshold, false, now).1 == VadEvent::SpeechEnd,
        !vad_step(s, threshold, false, now).0.speaking,
        forall|later: nat| #[trigger]
            vad_step(vad_step(s, threshold, false, now).0, threshold, false, later).1
                == VadEvent::Silence,
{
}

/// How often `event` occurs in `events`.
pub open spec fn count_of(events: Seq<VadEvent>, event: VadEvent) -> nat
    decreases events.len(),
{
    if events.len() == 0 {
        0
    } else {
        count_of(events.drop_first(), event) + if events[0] == event {
            1nat
        } else {
            0nat
        }
    }
}

/// Utterances open and close in turn: over any run of frames, the starts
/// raised exceed the ends raised by one if the run opens an utterance that it
/// leaves open, fall short by one if it only closes the one it found open,
/// and equal them otherwise. As this holds of every run, and so of every
/// beginning of a run, no `SpeechEnd` comes before its `SpeechStart`.
pub proof fn lemma_starts_and_ends_balance(s: VadState, threshold: nat, frames: Seq<(bool, nat)>)
    ensures
        ({
            let run = vad_run(s, threshold, frames);
            count_of(run.1, VadEvent::SpeechStart) + (if s.speaking {
                1nat
            } else {
                0nat
            }) == count_of(run.1, VadEvent::SpeechEnd) + (if run.0.speaking {
                1nat
            } else {
                0nat
            })
        }),
    decreases frames.len(),
{
    if frames.len() > 0 {
        let first = vad_step(s, threshold, frames[0].0, frames[0].1);
        let rest = vad_run(first.0, threshold, frames.drop_first());
        lemma_starts_and_ends_balance(first.0, threshold, frames.drop_first());
        let events = seq![first.1] + rest.1;
        assert(events.drop_first() =~= rest.1);
        assert(events[0] == first.1);
    }
}

/// What a detector is, as far as its contracts go.
pub struct DetectorView {
    pub sample_rate: u32,
    pub silence_duration_ms: u64,
    pub state: VadState,
}

impl DetectorView {
    /// Samples in one 30 ms frame.
    pub open spec fn frame_len(self) -> int {
        self.sample_rate * FRAME_DURATION_MS / 1000
    }

    /// The silence threshold in nanoseconds.
    pub open spec fn threshold(self) -> nat {
        (self.silence_duration_ms * NANOS_PER_MILLI) as nat
    }
}

/// A voice-activity detector for mono 16-bit frames of 30 ms.
pub struct VoiceActivityDetector {
    vad: Vad,
    sample_rate: u32,
    frame_duration_ms: u32,
    silence_duration_ms: u64,
    epoch: Instant,
    last_speech_time: Option<u128>,
    is_speaking: bool,
}

impl View for VoiceActivityDetector {
    type V = DetectorView;

    closed spec fn view(&self) -> DetectorView {
        DetectorView {
            sample_rate: self.sample_rate,
            silence_duration_ms: self.silence_duration_ms,
            state: VadState {
                speaking: self.is_speaking,
                last_speech: match self.last_speech_time {
                    Some(t) => Some(t as nat),
                    None => None,
                },
            },
        }
    }
}

impl VoiceActivityDetector {
    #[verifier::type_invariant]
    spec fn well_formed(&self) -> bool {
        &&& is_supported_rate(self.sample_rate)
        &&& self.frame_duration_ms == FRAME_DURATION_MS
        &&& detector_rate(&self.vad) == self.sample_rate
    }

    /// Builds a detector for `sample_rate` Hz at the given aggressiveness,
    /// which ends an utterance after `silence_duration_ms` of silence.
    ///
    /// The rate is checked first: an unsupported rate is reported whatever the
    /// aggressiveness is.
    pub fn new(sample_rate: u32, aggressiveness: u8, silence_duration_ms: u64) -> (result: Result<
        Self,
        VadError,
    >)
        ensures
            result is Ok <==> is_supported_rate(sample_rate) && aggressiveness <= 3,
            result is Ok ==> result->Ok_0@ == (DetectorView {
                sample_rate,
                silence_duration_ms,
                state: idle_state(),
            }),
            !is_supported_rate(sample_rate) ==> result == Err::<Self, VadError>(
                VadError::UnsupportedSampleRate { sample_rate },
            ),
            is_supported_rate(sample_rate) && aggressiveness > 3 ==> result == Err::<
                Self,
                VadError,
            >(VadError::InvalidAggressiveness { aggressiveness }),
    {
        let rate = match SampleRate::from_hertz(sample_rate) {
            Some(rate) => rate,
            None => {
                return Err(VadError::UnsupportedSampleRate { sample_rate });
            },
        };
        let mode = match Aggressiveness::from_level(aggressiveness) {
            Some(mode) => mode,
            None => {
                return Err(VadError::InvalidAggressiveness { aggressiveness });
            },
        };
        let vad = new_detector(rate, mode);
        Ok(
            VoiceActivityDetector {
                vad,
                sample_rate,
                frame_duration_ms: FRAME_DURATION_MS,
                silence_duration_ms,
                epoch: Instant::now(),
                last_speech_time: None,
                is_speaking: false,
            },
        )
    }

    /// The sample rate in Hz; always one of the four supported rates.
    pub fn sample_rate(&self) -> (hertz: u32)
        ensures
            hertz == self@.sample_rate,
            is_supported_rate(hertz),
    {
        proof {
            use_type_invariant(self);
        }
        self.sample_rate
    }

    /// Samples in one frame: `sample_rate * 30 / 1000`.
    pub fn samples_per_frame(&self) -> (n: usize)
        ensures
            n == self@.sample_rate * 30 / 1000,
            n == self@.frame_len(),
            is_supported_rate(self@.sample_rate),
    {
        proof {
            use_type_invariant(self);
        }
        (self.sample_rate * self.frame_duration_ms / 1000) as usize
    }

    /// Classifies one frame and advances the hysteresis by it.
    ///
    /// A frame of the wrong length is refused and leaves the detector as it
    /// was. A frame of the right length always yields an event: the one that
    /// `vad_step` gives for the detector's verdict on the frame and the clock
    /// reading taken after it.
    pub fn process_frame(&mut self, samples: &[i16]) -> (result: Result<VadEvent, VadError>)
        ensures
            final(self)@.sample_rate == old(self)@.sample_rate,
            final(self)@.silence_duration_ms == old(self)@.silence_duration_ms,
            samples@.len() != old(self)@.frame_len() ==> final(self)@ == old(self)@ && result
                == Err::<VadEvent, VadError>(
                VadError::FrameSize {
                    expected: old(self)@.frame_len() as usize,
                    actual: samples@.len() as usize,
                },
            ),
            samples@.len() == old(self)@.frame_len() ==> exists|has_speech: bool, now: nat|
                (final(self)@.state, result) == (
                    (#[trigger] vad_step(
                        old(self)@.state,
                        old(self)@.threshold(),
                        has_speech,
                        now,
                    )).0,
                    Ok::<VadEvent, VadError>(
                        vad_step(old(self)@.state, old(self)@.threshold(), has_speech, now).1,
                    ),
                ),
    {
        proof {
            use_type_invariant(&*self);
        }
        let expected = self.samples_per_frame();
        if samples.len() != expected {
            return Err(VadError::FrameSize { expected, actual: samples.len() });
        }
        let has_speech = match classify_frame(&mut self.vad, samples) {
            Ok(has_speech) => has_speech,
            Err(_) => {
                return Err(VadError::DetectorFailed);
            },
        };
        let now = self.epoch.elapsed().as_nanos();
        let event = self.advance(has_speech, now);
        Ok(event)
    }

    /// Advances the hysteresis by one frame that was classified as
    /// `has_speech` at clock reading `now`, in nanoseconds.
    pub fn advance(&mut self, has_speech: bool, now: u128) -> (event: VadEvent)
        ensures
            final(self)@.sample_rate == old(self)@.sample_rate,
            final(self)@.silence_duration_ms == old(self)@.silence_duration_ms,
            (final(self)@.state, event) == vad_step(
                old(self)@.state,
                old(self)@.threshold(),
                has_speech,
                now as nat,
            ),
    {
        proof {
            use_type_invariant(&*self);
        }
        if has_speech {
            self.last_speech_time = Some(now);
            if !self.is_speaking {
                self.is_speaking = true;
                return VadEvent::SpeechStart;
            }
            VadEvent::Speaking
        } else {
            if self.is_speaking {
                if let Some(last_speech) = self.last_speech_time {
                    let elapsed: u128 = if now >= last_speech {
                        now - last_speech
                    } else {
                        0
                    };
                    let silence_duration: u128 = (self.silence_duration_ms as u128)
                        * NANOS_PER_MILLI;
                    if elapsed >= silence_duration {
                        self.is_speaking = false;
                        return VadEvent::SpeechEnd;
                    }
                }
            }
            VadEvent::Silence
        }
    }

    /// Forgets any utterance in progress.
    pub fn reset(&mut self)
        ensures
            final(self)@ == (DetectorView { state: idle_state(), ..old(self)@ }),
    {
        proof {
            use_type_invariant(&*self);
        }
        self.is_speaking = false;
        self.last_speech_time = None;
    }

    /// Whether an utterance is in progress.
    pub fn is_speaking(&self) -> (speaking: bool)
        ensures
            speaking == self@.state.speaking,
    {
        self.is_speaking
    }
}

} // verus!
