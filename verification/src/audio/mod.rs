//! The speech pipeline: events, voice-activity detection, capture and
//! synthesis bookkeeping.

use vstd::prelude::*;

pub mod stt;
pub mod tts;
pub mod vad;

pub use stt::SttPipeline;
pub use tts::TtsPipeline;
pub use vad::VoiceActivityDetector;

verus! {

/// What the pipeline reports to its consumer.
#[derive(Debug, Clone, PartialEq, Eq)]
pub enum AudioEvent {
    SpeechStart,
    SpeechEnd,
    TranscriptPartial(String),
    TranscriptFinal(String),
    TtsStarted,
    TtsFinished,
}

/// An `AudioEvent` with its text as a sequence of characters.
pub enum AudioEventView {
    SpeechStart,
    SpeechEnd,
    TranscriptPartial(Seq<char>),
    TranscriptFinal(Seq<char>),
    TtsStarted,
    TtsFinished,
}

impl View for AudioEvent {
    type V = AudioEventView;

    open spec fn view(&self) -> AudioEventView {
        match self {
            AudioEvent::SpeechStart => AudioEventView::SpeechStart,
            AudioEvent::SpeechEnd => AudioEventView::SpeechEnd,
            AudioEvent::TranscriptPartial(text) => AudioEventView::TranscriptPartial(text@),
            AudioEvent::TranscriptFinal(text) => AudioEventView::TranscriptFinal(text@),
            AudioEvent::TtsStarted => AudioEventView::TtsStarted,
            AudioEvent::TtsFinished => AudioEventView::TtsFinished,
        }
    }
}

/// The fast path of rate conversion: between equal rates the samples are
/// handed back as they are, and between different rates nothing is, so that
/// the caller converts.
pub fn same_rate_copy<T: Copy>(samples: &[T], from_rate: u32, to_rate: u32) -> (out: Option<
    Vec<T>,
>)
    ensures
        out is Some <==> from_rate == to_rate,
        out is Some ==> out->0@ == samples@,
{
    if from_rate != to_rate {
        return None;
    }
    let n = samples.len();
    let mut copy: Vec<T> = Vec::with_capacity(n);
    let mut i: usize = 0;
    while i < n
        invariant
            i <= n,
            n == samples@.len(),
            copy@ == samples@.take(i as int),
        decreases n - i,
    {
        copy.push(samples[i]);
        assert(samples@.take(i + 1) =~= samples@.take(i as int).push(samples@[i as int]));
        i += 1;
    }
    assert(samples@.take(n as int) =~= samples@);
    Some(copy)
}

} // verus!
