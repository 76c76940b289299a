//! Capture: what each frame does to the utterance buffer, and what becomes of
//! a recognised text.
//!
//! The pipeline is generic in the sample type `T` of the captured audio: it
//! stores and hands out samples but never computes with them. The detector
//! is fed the same frame as 16-bit samples.

use super::vad::vad_step;
use super::vad::DetectorView;
use super::vad::VadError;
use super::vad::VadEvent;
use super::vad::VoiceActivityDetector;
use super::AudioEvent;
use super::AudioEventView;
use crate::text::is_blank;
use crate::text::lemma_trimmed_empty_iff_blank;
use crate::text::trim;
use crate::text::trimmed;
use vstd::prelude::*;
use vstd::string::StringExecFns;

verus! {

/// The input stream that capture asks for: mono, at the pipeline's rate, in
/// blocks of one detector frame.
#[derive(Debug, Clone, Copy, PartialEq, Eq, Structural)]
pub struct StreamRequest {
    pub channels: u16,
    pub sample_rate: u32,
    pub block_size: u32,
}

/// What the caller has to do after a frame.
#[derive(Debug)]
pub enum CaptureAction<T> {
    /// Nothing to report.
    Idle,
    /// An utterance began: report `SpeechStart`.
    SpeechStarted,
    /// An utterance ended: report `SpeechEnd`, and transcribe `utterance` if
    /// there is one.
    SpeechEnded { utterance: Option<Vec<T>> },
    /// The detector refused the frame; the pipeline is unchanged.
    Rejected(VadError),
}

impl<T> CaptureAction<T> {
    /// The event that the action reports, if any.
    pub open spec fn event(self) -> Option<AudioEventView> {
        match self {
            CaptureAction::SpeechStarted => Some(AudioEventView::SpeechStart),
            CaptureAction::SpeechEnded { .. } => Some(AudioEventView::SpeechEnd),
            _ => None,
        }
    }

    /// The event to send to the consumer, if any.
    pub fn to_event(&self) -> (event: Option<AudioEvent>)
        ensures
            event is Some <==> self.event() is Some,
            event is Some ==> event->0@ == self.event()->0,
    {
        match self {
            CaptureAction::SpeechStarted => Some(AudioEvent::SpeechStart),
            CaptureAction::SpeechEnded { .. } => Some(AudioEvent::SpeechEnd),
            _ => None,
        }
    }
}

/// The utterance buffer after a frame that raised `event`.
pub open spec fn buffer_after<T>(buffer: Seq<T>, event: VadEvent, frame: Seq<T>) -> Seq<T> {
    match event {
        VadEvent::SpeechStart => frame,
        VadEvent::Speaking => buffer + frame,
        VadEvent::SpeechEnd => Seq::empty(),
        VadEvent::Silence => buffer,
    }
}

/// Whether `len` samples at `sample_rate` Hz last half a second or more.
pub open spec fn worth_transcribing(len: nat, sample_rate: u32) -> bool {
    2 * len >= sample_rate
}

/// The utterance handed out for transcription after a frame that raised
/// `event`: the whole buffer at the end of an utterance of half a second or
/// more, nothing otherwise.
pub open spec fn utterance_after<T>(buffer: Seq<T>, sample_rate: u32, event: VadEvent) -> Option<
    Seq<T>,
> {
    if event == VadEvent::SpeechEnd && worth_transcribing(buffer.len(), sample_rate) {
        Some(buffer)
    } else {
        None
    }
}

/// Whether `action` is what a frame that raised `event` asks of the caller.
pub open spec fn action_matches<T>(
    action: CaptureAction<T>,
    buffer: Seq<T>,
    sample_rate: u32,
    event: VadEvent,
) -> bool {
    match event {
        VadEvent::SpeechStart => action is SpeechStarted,
        VadEvent::Speaking => action is Idle,
        VadEvent::Silence => action is Idle,
        VadEvent::SpeechEnd => action is SpeechEnded && match utterance_after(
            buffer,
            sample_rate,
            event,
        ) {
            Some(samples) => action->utterance is Some && action->utterance->0@ == samples,
            None => action->utterance is None,
        },
    }
}

/// What a capture pipeline is, as far as its contracts go.
pub struct CaptureView<T> {
    pub detector: DetectorView,
    pub buffer: Seq<T>,
    pub running: bool,
}

/// The capture side of the speech pipeline.
pub struct SttPipeline<T> {
    vad: VoiceActivityDetector,
    audio_buffer: Vec<T>,
    running: bool,
}

impl<T> View for SttPipeline<T> {
    type V = CaptureView<T>;

    closed spec fn view(&self) -> CaptureView<T> {
        CaptureView { detector: self.vad@, buffer: self.audio_buffer@, running: self.running }
    }
}

impl<T: Copy> SttPipeline<T> {
    /// Builds a stopped pipeline with an empty utterance buffer. It fails
    /// exactly when the detector cannot be configured.
    pub fn new(sample_rate: u32, vad_aggressiveness: u8, silence_duration_ms: u64) -> (result:
        Result<Self, VadError>)
        ensures
            result is Ok <==> super::vad::is_supported_rate(sample_rate) && vad_aggressiveness
                <= 3,
            result is Ok ==> result->Ok_0@ == (CaptureView::<T> {
                detector: DetectorView {
                    sample_rate,
                    silence_duration_ms,
                    state: super::vad::idle_state(),
                },
                buffer: Seq::empty(),
                running: false,
            }),
            !super::vad::is_supported_rate(sample_rate) ==> result is Err && result->Err_0
                == (VadError::UnsupportedSampleRate { sample_rate }),
            super::vad::is_supported_rate(sample_rate) && vad_aggressiveness > 3 ==> result is Err
                && result->Err_0 == (VadError::InvalidAggressiveness {
                aggressiveness: vad_aggressiveness,
            }),
    {
        match VoiceActivityDetector::new(sample_rate, vad_aggressiveness, silence_duration_ms) {
            Ok(vad) => Ok(SttPipeline { vad, audio_buffer: Vec::new(), running: false }),
            Err(e) => Err(e),
        }
    }

    /// Marks capture as running and returns the stream to open. While capture
    /// is running it changes nothing and returns `None`.
    pub fn start(&mut self) -> (request: Option<StreamRequest>)
        ensures
            final(self)@ == (CaptureView { running: true, ..old(self)@ }),
            request is None <==> old(self)@.running,
            request is Some ==> request->0 == (StreamRequest {
                channels: 1,
                sample_rate: old(self)@.detector.sample_rate,
                block_size: old(self)@.detector.frame_len() as u32,
            }),
    {
        if self.running {
            return None;
        }
        let sample_rate = self.vad.sample_rate();
        let block_size = self.vad.samples_per_frame();
        self.running = true;
        Some(StreamRequest { channels: 1, sample_rate, block_size: block_size as u32 })
    }

    /// Marks capture as stopped. Returns whether a stream was running, which
    /// the caller then has to release.
    pub fn stop(&mut self) -> (was_running: bool)
        ensures
            final(self)@ == (CaptureView { running: false, ..old(self)@ }),
            was_running == old(self)@.running,
    {
        let was_running = self.running;
        self.running = false;
        was_running
    }

    /// Whether capture is marked as running.
    pub fn is_running(&self) -> (running: bool)
        ensures
            running == self@.running,
    {
        self.running
    }

    /// The detector's sample rate in Hz.
    pub fn sample_rate(&self) -> (hertz: u32)
        ensures
            hertz == self@.detector.sample_rate,
    {
        self.vad.sample_rate()
    }

    /// Samples in one frame.
    pub fn samples_per_frame(&self) -> (n: usize)
        ensures
            n == self@.detector.frame_len(),
    {
        self.vad.samples_per_frame()
    }

    /// Samples buffered for the utterance in progress.
    pub fn buffered(&self) -> (n: usize)
        ensures
            n == self@.buffer.len(),
    {
        self.audio_buffer.len()
    }

    /// Handles one captured frame: `pcm` is fed to the detector, and `data`,
    /// the same frame in the capture format, is buffered as the event says.
    ///
    /// A frame that the detector refuses changes nothing. Any other frame is
    /// handled as `apply_event` handles the event that the detector raised.
    pub fn on_frame(&mut self, data: &[T], pcm: &[i16]) -> (action: CaptureAction<T>)
        ensures
            final(self)@.running == old(self)@.running,
            final(self)@.detector.sample_rate == old(self)@.detector.sample_rate,
            final(self)@.detector.silence_duration_ms == old(self)@.detector.silence_duration_ms,
            pcm@.len() != old(self)@.detector.frame_len() ==> final(self)@ == old(self)@
                && action is Rejected && action->Rejected_0 == (VadError::FrameSize {
                expected: old(self)@.detector.frame_len() as usize,
                actual: pcm@.len() as usize,
            }),
            pcm@.len() == old(self)@.detector.frame_len() ==> exists|has_speech: bool, now: nat|
                {
                    let step = #[trigger] vad_step(
                        old(self)@.detector.state,
                        old(self)@.detector.threshold(),
                        has_speech,
                        now,
                    );
                    &&& final(self)@.detector.state == step.0
                    &&& final(self)@.buffer == buffer_after(old(self)@.buffer, step.1, data@)
                    &&& action_matches(
                        action,
                        old(self)@.buffer,
                        old(self)@.detector.sample_rate,
                        step.1,
                    )
                },
    {
        match self.vad.process_frame(pcm) {
            Ok(event) => self.apply_event(event, data),
            Err(e) => CaptureAction::Rejected(e),
        }
    }

    /// Does to the utterance buffer what `event` asks for: a new utterance
    /// starts with this frame, a running one grows by it, and a finished one
    /// is handed out if it lasted half a second or more, and dropped if not.
    pub fn apply_event(&mut self, event: VadEvent, data: &[T]) -> (action: CaptureAction<T>)
        ensures
            final(self)@.running == old(self)@.running,
            final(self)@.detector == old(self)@.detector,
            final(self)@.buffer == buffer_after(old(self)@.buffer, event, data@),
            action_matches(action, old(self)@.buffer, old(self)@.detector.sample_rate, event),
    {
        match event {
            VadEvent::SpeechStart => {
                self.audio_buffer.clear();
                self.append_frame(data);
                assert(Seq::<T>::empty() + data@ =~= data@);
                CaptureAction::SpeechStarted
            },
            VadEvent::Speaking => {
                self.append_frame(data);
                CaptureAction::Idle
            },
            VadEvent::SpeechEnd => {
                let mut audio: Vec<T> = Vec::new();
                std::mem::swap(&mut self.audio_buffer, &mut audio);
                let sample_rate = self.vad.sample_rate();
                if (audio.len() as u128) * 2 >= sample_rate as u128 {
                    CaptureAction::SpeechEnded { utterance: Some(audio) }
                } else {
                    CaptureAction::SpeechEnded { utterance: None }
                }
            },
            VadEvent::Silence => CaptureAction::Idle,
        }
    }

    fn append_frame(&mut self, data: &[T])
        ensures
            final(self)@.running == old(self)@.running,
            final(self)@.detector == old(self)@.detector,
            final(self)@.buffer == old(self)@.buffer + data@,
    {
        let n = data.len();
        let mut i: usize = 0;
        while i < n
            invariant
                i <= n,
                n == data@.len(),
                self@.running == old(self)@.running,
                self@.detector == old(self)@.detector,
                self@.buffer == old(self)@.buffer + data@.take(i as int),
            decreases n - i,
        {
            self.audio_buffer.push(data[i]);
            assert(data@.take(i + 1) =~= data@.take(i as int).push(data@[i as int]));
            assert(self@.buffer =~= old(self)@.buffer + data@.take(i + 1));
            i += 1;
        }
        assert(data@.take(n as int) =~= data@);
    }
}

/// The texts of `segments`, each followed by one space.
pub open spec fn joined(segments: Seq<String>) -> Seq<char>
    decreases segments.len(),
{
    if segments.len() == 0 {
        Seq::empty()
    } else {
        joined(segments.drop_last()) + segments.last()@ + seq![' ']
    }
}

/// Joins the segments of a transcription, in order and separated by single
/// spaces, and trims the result.
pub fn join_segments(segments: &Vec<String>) -> (text: String)
    ensures
        text@ == trimmed(joined(segments@)),
{
    let mut text = String::new();
    let mut i: usize = 0;
    while i < segments.len()
        invariant
            i <= segments.len(),
            text@ == joined(segments@.take(i as int)),
        decreases segments.len() - i,
    {
        text.append(segments[i].as_str());
        text.push(' ');
        assert(segments@.take(i + 1).drop_last() =~= segments@.take(i as int));
        i += 1;
    }
    assert(segments@.take(i as int) =~= segments@);
    String::from_str(trim(text.as_str()))
}

/// The event that a recognised text gives rise to: `TranscriptFinal` with the
/// trimmed text, or nothing when the text is blank.
pub open spec fn transcript_of(recognized: Seq<char>) -> Option<AudioEventView> {
    if is_blank(recognized) {
        None
    } else {
        Some(AudioEventView::TranscriptFinal(trimmed(recognized)))
    }
}

/// Turns a recognised text into the event to send, if any.
pub fn transcript_event(recognized: &str) -> (event: Option<AudioEvent>)
    ensures
        event is Some <==> transcript_of(recognized@) is Some,
        event is Some ==> event->0@ == transcript_of(recognized@)->0,
{
    proof {
        lemma_trimmed_empty_iff_blank(recognized@);
    }
    let text = trim(recognized);
    if text.is_empty() {
        None
    } else {
        Some(AudioEvent::TranscriptFinal(String::from_str(text)))
    }
}

/// Turns the outcome of a transcription into the event to send, if any. A
/// failed transcription gives none: the utterance is dropped.
pub fn transcription_outcome<E>(outcome: Result<String, E>) -> (event: Option<AudioEvent>)
    ensures
        outcome is Err ==> event is None,
        outcome is Ok ==> (event is Some <==> transcript_of(outcome->Ok_0@) is Some),
        outcome is Ok && event is Some ==> event->0@ == transcript_of(outcome->Ok_0@)->0,
{
    match outcome {
        Ok(text) => transcript_event(text.as_str()),
        Err(_) => None,
    }
}

/// An utterance shorter than half a second is never handed out for
/// transcription, so no transcript can follow its `SpeechEnd`.
pub proof fn lemma_short_utterance_is_dropped<T>(buffer: Seq<T>, sample_rate: u32)
    requires
        2 * buffer.len() < sample_rate,
    ensures
        utterance_after(buffer, sample_rate, VadEvent::SpeechEnd) is None,
        forall|action: CaptureAction<T>|
            action_matches(action, buffer, sample_rate, VadEvent::SpeechEnd) ==> action
                is SpeechEnded && action->utterance is None,
{
}

/// An utterance of half a second or more is handed out whole, and a text
/// recognised in it that is not blank gives exactly the event
/// `TranscriptFinal` with the trimmed text.
pub proof fn lemma_long_utterance_is_transcribed<T>(
    buffer: Seq<T>,
    sample_rate: u32,
    recognized: Seq<char>,
)
    requires
        2 * buffer.len() >= sample_rate,
        !is_blank(recognized),
    ensures
        utterance_after(buffer, sample_rate, VadEvent::SpeechEnd) == Some(buffer),
        transcript_of(recognized) == Some(AudioEventView::TranscriptFinal(trimmed(recognized))),
{
}

} // verus!
