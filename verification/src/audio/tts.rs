//! Synthesis: token ids for a text, sentence segmentation of streamed text,
//! and the bookkeeping of playback.

use super::AudioEvent;
use crate::text::string_of;
use crate::text::views_of;
use vstd::prelude::*;
use vstd::std_specs::iter::IteratorSpec;

verus! {

/// Output rate of the synthesis engine in Hz.
pub const ENGINE_SAMPLE_RATE: u32 = 22050;

/// Guard margin added to every playback, in nanoseconds.
pub const PLAYBACK_GUARD_NANOS: u128 = 100_000_000;

/// Nanoseconds in a second.
pub const NANOS_PER_SECOND: u128 = 1_000_000_000;

/// The token id of a character: 1 to 26 for the letters `a` to `z` in either
/// case, 0 for a space, none for anything else.
pub open spec fn phoneme_of(c: char) -> Option<i64> {
    if 'a' <= c <= 'z' {
        Some((c as u32 - 'a' as u32 + 1) as i64)
    } else if 'A' <= c <= 'Z' {
        Some((c as u32 - 'A' as u32 + 1) as i64)
    } else if c == ' ' {
        Some(0i64)
    } else {
        None
    }
}

/// The token ids of a text: those of its characters, in order, characters
/// without one left out.
pub open spec fn phonemes_of(text: Seq<char>) -> Seq<i64>
    decreases text.len(),
{
    if text.len() == 0 {
        Seq::empty()
    } else {
        let head = phonemes_of(text.drop_last());
        match phoneme_of(text.last()) {
            Some(id) => head.push(id),
            None => head,
        }
    }
}

/// The token id of `c`, if it has one.
pub fn phoneme(c: char) -> (id: Option<i64>)
    ensures
        id == phoneme_of(c),
{
    let u: u32 = c as u32;
    if 97 <= u && u <= 122 {
        Some((u - 97 + 1) as i64)
    } else if 65 <= u && u <= 90 {
        Some((u - 65 + 1) as i64)
    } else if u == 32 {
        Some(0)
    } else {
        None
    }
}

/// Whether `c` ends a sentence.
pub open spec fn is_sentence_end(c: char) -> bool {
    c == '.' || c == '!' || c == '?'
}

/// Length of the longest prefix of `s` that ends with a sentence end; 0 when
/// `s` holds none.
pub open spec fn speakable_len(s: Seq<char>) -> int
    decreases s.len(),
{
    if s.len() == 0 {
        0
    } else if is_sentence_end(s.last()) {
        s.len() as int
    } else {
        speakable_len(s.drop_last())
    }
}

/// `speakable_len` marks the last sentence end of the text.
pub proof fn lemma_speakable_len(s: Seq<char>)
    ensures
        0 <= speakable_len(s) <= s.len(),
        speakable_len(s) > 0 ==> is_sentence_end(s[speakable_len(s) - 1]),
        forall|i: int| speakable_len(s) <= i < s.len() ==> !is_sentence_end(#[trigger] s[i]),
    decreases s.len(),
{
    if s.len() > 0 && !is_sentence_end(s.last()) {
        let t = s.drop_last();
        lemma_speakable_len(t);
        assert forall|i: int| speakable_len(s) <= i < s.len() implies !is_sentence_end(
            #[trigger] s[i],
        ) by {
            if i < t.len() {
                assert(s[i] == t[i]);
            }
        }
        if speakable_len(s) > 0 {
            assert(s[speakable_len(s) - 1] == t[speakable_len(t) - 1]);
        }
    }
}

/// Text that has arrived but does not yet end a sentence.
pub struct SentenceAccumulator {
    buffer: Vec<char>,
}

impl View for SentenceAccumulator {
    type V = Seq<char>;

    closed spec fn view(&self) -> Seq<char> {
        self.buffer@
    }
}

impl SentenceAccumulator {
    /// An accumulator that holds no text.
    pub fn new() -> (acc: Self)
        ensures
            acc@ == Seq::<char>::empty(),
    {
        SentenceAccumulator { buffer: Vec::new() }
    }

    /// Adds `chunk` to the held text. If the text then holds a sentence end,
    /// everything up to and including the last one is returned to be spoken,
    /// and only what follows it stays.
    pub fn push_chunk(&mut self, chunk: &str) -> (sentence: Option<String>)
        ensures
            ({
                let text = old(self)@ + chunk@;
                let k = speakable_len(text);
                &&& final(self)@ == text.subrange(k, text.len() as int)
                &&& sentence is Some <==> k > 0
                &&& sentence is Some ==> sentence->0@ == text.subrange(0, k)
            }),
    {
        for c in it: chunk.chars()
            invariant
                it.seq() == chunk@,
                self.buffer@ == old(self).buffer@ + chunk@.take(it.index() as int),
        {
            self.buffer.push(c);
            assert(chunk@.take(it.index() + 1) =~= chunk@.take(it.index() as int).push(c));
            assert(self.buffer@ =~= old(self).buffer@ + chunk@.take(it.index() + 1));
        }
        assert(chunk@.take(chunk@.len() as int) =~= chunk@);
        let ghost text = self.buffer@;
        let mut k: usize = self.buffer.len();
        assert(text.take(k as int) =~= text);
        while k > 0 && !is_sentence_end_char(self.buffer[k - 1])
            invariant
                k <= self.buffer.len(),
                self.buffer@ == text,
                speakable_len(text) == speakable_len(text.take(k as int)),
            decreases k,
        {
            assert(text.take(k as int).drop_last() =~= text.take(k - 1));
            k -= 1;
        }
        proof {
            if k > 0 {
                assert(text.take(k as int).last() == text[k - 1]);
            } else {
                assert(text.take(0).len() == 0);
            }
            assert(speakable_len(text) == k);
        }
        if k == 0 {
            return None;
        }
        let n = self.buffer.len();
        let sentence = string_of(self.buffer.as_slice(), 0, k);
        let mut rest: Vec<char> = Vec::new();
        let mut i: usize = k;
        while i < n
            invariant
                k <= i <= n,
                n == self.buffer.len(),
                self.buffer@ == text,
                rest@ == text.subrange(k as int, i as int),
            decreases n - i,
        {
            rest.push(self.buffer[i]);
            assert(text.subrange(k as int, i + 1) =~= text.subrange(k as int, i as int).push(
                text[i as int],
            ));
            i += 1;
        }
        self.buffer = rest;
        Some(sentence)
    }

    /// Ends the stream: what is still held is returned to be spoken once,
    /// whatever it holds, unless nothing is held.
    pub fn finish(self) -> (rest: Option<String>)
        ensures
            rest is Some <==> self@.len() > 0,
            rest is Some ==> rest->0@ == self@,
    {
        let n = self.buffer.len();
        if n == 0 {
            return None;
        }
        let rest = string_of(self.buffer.as_slice(), 0, n);
        assert(self.buffer@.subrange(0, n as int) =~= self.buffer@);
        Some(rest)
    }
}

/// Whether `c` ends a sentence.
pub fn is_sentence_end_char(c: char) -> (r: bool)
    ensures
        r == is_sentence_end(c),
{
    c == '.' || c == '!' || c == '?'
}

/// The state of a stream after `chunks`: the texts spoken so far and the text
/// still held.
pub open spec fn stream_state(chunks: Seq<String>) -> (Seq<Seq<char>>, Seq<char>)
    decreases chunks.len(),
{
    if chunks.len() == 0 {
        (Seq::empty(), Seq::empty())
    } else {
        let before = stream_state(chunks.drop_last());
        let text = before.1 + chunks.last()@;
        let k = speakable_len(text);
        (
            if k > 0 {
                before.0.push(text.subrange(0, k))
            } else {
                before.0
            },
            text.subrange(k, text.len() as int),
        )
    }
}

/// Every text that is spoken for a stream of `chunks`, in order: a sentence
/// group whenever a chunk completes one, and at the end what is left, unless
/// nothing is left.
pub open spec fn streamed_sentences(chunks: Seq<String>) -> Seq<Seq<char>> {
    let state = stream_state(chunks);
    if state.1.len() == 0 {
        state.0
    } else {
        state.0.push(state.1)
    }
}

/// All of `parts` in one text.
pub open spec fn concat_all(parts: Seq<Seq<char>>) -> Seq<char>
    decreases parts.len(),
{
    if parts.len() == 0 {
        Seq::empty()
    } else {
        concat_all(parts.drop_last()) + parts.last()
    }
}

/// Streaming loses and reorders nothing: the spoken texts followed by the
/// held text are the chunks, joined.
pub proof fn lemma_stream_preserves_text(chunks: Seq<String>)
    ensures
        concat_all(stream_state(chunks).0) + stream_state(chunks).1 == concat_all(
            views_of(chunks),
        ),
    decreases chunks.len(),
{
    if chunks.len() == 0 {
        assert(views_of(chunks) =~= Seq::<Seq<char>>::empty());
        assert(concat_all(stream_state(chunks).0) + stream_state(chunks).1 =~= Seq::<
            char,
        >::empty());
    } else {
        let head = chunks.drop_last();
        lemma_stream_preserves_text(head);
        let before = stream_state(head);
        let text = before.1 + chunks.last()@;
        let k = speakable_len(text);
        lemma_speakable_len(text);
        assert(views_of(chunks).drop_last() =~= views_of(head));
        assert(views_of(chunks).last() == chunks.last()@);
        let after = stream_state(chunks);
        if k > 0 {
            assert(after.0.drop_last() =~= before.0);
            assert(concat_all(after.0) == concat_all(before.0) + text.subrange(0, k));
        }
        assert(text.subrange(0, k) + text.subrange(k, text.len() as int) =~= text);
        assert(concat_all(after.0) + after.1 =~= concat_all(before.0) + before.1
            + chunks.last()@);
    }
}

/// A joined text is empty exactly when every part is.
pub proof fn lemma_concat_empty(parts: Seq<Seq<char>>)
    ensures
        concat_all(parts).len() == 0 <==> forall|i: int|
            0 <= i < parts.len() ==> (#[trigger] parts[i]).len() == 0,
    decreases parts.len(),
{
    if parts.len() > 0 {
        let head = parts.drop_last();
        lemma_concat_empty(head);
        if concat_all(parts).len() == 0 {
            assert forall|i: int| 0 <= i < parts.len() implies (#[trigger] parts[i]).len()
                == 0 by {
                if i < head.len() {
                    assert(parts[i] == head[i]);
                }
            }
        } else {
            if forall|i: int| 0 <= i < parts.len() ==> (#[trigger] parts[i]).len() == 0 {
                assert forall|i: int| 0 <= i < head.len() implies (#[trigger] head[i]).len()
                    == 0 by {
                    assert(head[i] == parts[i]);
                }
                assert(parts.last() == parts[parts.len() - 1]);
            }
        }
    }
}

/// Every text spoken before the stream ends holds something and ends with a
/// sentence end, and what is held never holds one.
pub proof fn lemma_stream_sentences(chunks: Seq<String>)
    ensures
        forall|i: int|
            0 <= i < stream_state(chunks).0.len() ==> (#[trigger] stream_state(chunks).0[i]).len()
                > 0 && is_sentence_end(stream_state(chunks).0[i].last()),
        forall|j: int|
            0 <= j < stream_state(chunks).1.len() ==> !is_sentence_end(
                #[trigger] stream_state(chunks).1[j],
            ),
    decreases chunks.len(),
{
    if chunks.len() > 0 {
        let head = chunks.drop_last();
        lemma_stream_sentences(head);
        let before = stream_state(head);
        let text = before.1 + chunks.last()@;
        let k = speakable_len(text);
        lemma_speakable_len(text);
        let after = stream_state(chunks);
        assert forall|i: int| 0 <= i < after.0.len() implies (#[trigger] after.0[i]).len() > 0
            && is_sentence_end(after.0[i].last()) by {
            if i < before.0.len() {
                assert(after.0[i] == before.0[i]);
            } else {
                assert(after.0[i] == text.subrange(0, k));
                assert(text.subrange(0, k).last() == text[k - 1]);
            }
        }
        assert forall|j: int| 0 <= j < after.1.len() implies !is_sentence_end(
            #[trigger] after.1[j],
        ) by {
            assert(after.1[j] == text[k + j]);
        }
    }
}

/// Streaming speaks everything, once and in order: the spoken texts joined
/// are the chunks joined. No spoken text is empty, every spoken text but the
/// last ends with a sentence end, and nothing is spoken exactly when every
/// chunk is empty.
pub proof fn lemma_stream_speaks_everything(chunks: Seq<String>)
    ensures
        concat_all(streamed_sentences(chunks)) == concat_all(views_of(chunks)),
        forall|i: int|
            0 <= i < streamed_sentences(chunks).len() ==> (#[trigger] streamed_sentences(
                chunks,
            )[i]).len() > 0,
        forall|i: int|
            0 <= i < streamed_sentences(chunks).len() - 1 ==> is_sentence_end(
                (#[trigger] streamed_sentences(chunks)[i]).last(),
            ),
        streamed_sentences(chunks).len() == 0 <==> forall|j: int|
            0 <= j < chunks.len() ==> (#[trigger] chunks[j])@.len() == 0,
{
    lemma_stream_preserves_text(chunks);
    lemma_stream_sentences(chunks);
    let state = stream_state(chunks);
    let spoken = streamed_sentences(chunks);
    let joined = concat_all(views_of(chunks));
    if state.1.len() == 0 {
        assert(concat_all(state.0) + state.1 =~= concat_all(state.0));
    } else {
        assert(spoken.drop_last() =~= state.0);
        assert(spoken.last() == state.1);
    }
    assert forall|i: int| 0 <= i < spoken.len() implies (#[trigger] spoken[i]).len() > 0 by {
        if i < state.0.len() {
            assert(spoken[i] == state.0[i]);
        }
    }
    assert forall|i: int| 0 <= i < spoken.len() - 1 implies is_sentence_end(
        (#[trigger] spoken[i]).last(),
    ) by {
        assert(spoken[i] == state.0[i]);
    }
    lemma_concat_empty(views_of(chunks));
    lemma_concat_empty(spoken);
    if spoken.len() == 0 {
        assert forall|j: int| 0 <= j < chunks.len() implies (#[trigger] chunks[j])@.len()
            == 0 by {
            assert(views_of(chunks)[j] == chunks[j]@);
        }
    }
    if forall|j: int| 0 <= j < chunks.len() ==> (#[trigger] chunks[j])@.len() == 0 {
        assert forall|j: int| 0 <= j < views_of(chunks).len() implies (#[trigger] views_of(
            chunks,
        )[j]).len() == 0 by {
            assert(views_of(chunks)[j] == chunks[j]@);
        }
        assert(joined.len() == 0);
        if spoken.len() > 0 {
            assert(spoken[0].len() > 0);
        }
    }
}

/// Settings read from a voice's description.
#[derive(Debug, Clone, Copy, PartialEq, Eq, Structural)]
pub struct PiperConfig {
    pub num_speakers: usize,
    pub sample_rate: u32,
}

/// What one call to speak has to do: the event to report first and the token
/// ids to synthesise.
#[derive(Debug)]
pub struct SpeechPlan {
    pub started: AudioEvent,
    pub tokens: Vec<i64>,
}

/// How to play a waveform: the rate of the output stream, and how long to
/// wait, in nanoseconds, before the playback counts as finished.
#[derive(Debug, Clone, Copy, PartialEq, Eq, Structural)]
pub struct PlaybackPlan {
    pub sample_rate: u32,
    pub duration_nanos: u128,
}

/// Time to wait for `samples` samples at `sample_rate` Hz: their duration,
/// rounded up to a whole nanosecond, and the guard margin.
pub open spec fn playback_nanos(samples: nat, sample_rate: u32) -> nat
    recommends
        sample_rate > 0,
{
    ((samples * NANOS_PER_SECOND + sample_rate - 1) / (sample_rate as int)
        + PLAYBACK_GUARD_NANOS) as nat
}

/// The wait is never shorter than the waveform: it covers all samples and the
/// guard margin.
pub proof fn lemma_playback_covers_waveform(samples: nat, sample_rate: u32)
    requires
        sample_rate > 0,
    ensures
        (playback_nanos(samples, sample_rate) - PLAYBACK_GUARD_NANOS) * sample_rate >= samples
            * NANOS_PER_SECOND,
        (playback_nanos(samples, sample_rate) - PLAYBACK_GUARD_NANOS - 1) * sample_rate < samples
            * NANOS_PER_SECOND,
{
    let x = samples * NANOS_PER_SECOND + sample_rate - 1;
    let d = sample_rate as int;
    assert(x == d * (x / d) + x % d && 0 <= x % d < d) by (nonlinear_arith)
        requires
            d > 0,
            x >= 0,
    ;
    assert((x / d) * d == d * (x / d)) by (nonlinear_arith);
    assert((x / d - 1) * d == (x / d) * d - d) by (nonlinear_arith);
}

/// Time to wait for `samples` samples at `sample_rate` Hz, in nanoseconds.
pub fn playback_duration_nanos(samples: usize, sample_rate: u32) -> (nanos: u128)
    requires
        sample_rate > 0,
    ensures
        nanos == playback_nanos(samples as nat, sample_rate),
{
    let scaled: u128 = (samples as u128) * NANOS_PER_SECOND;
    (scaled + (sample_rate as u128 - 1)) / (sample_rate as u128) + PLAYBACK_GUARD_NANOS
}

/// The synthesis side of the speech pipeline.
pub struct TtsPipeline {
    config: PiperConfig,
    output_sample_rate: u32,
}

impl TtsPipeline {
    #[verifier::type_invariant]
    spec fn well_formed(&self) -> bool {
        self.output_sample_rate > 0
    }

    /// The settings of the voice.
    pub closed spec fn config(&self) -> PiperConfig {
        self.config
    }

    /// The rate of the output stream in Hz.
    pub closed spec fn output_rate(&self) -> u32 {
        self.output_sample_rate
    }

    /// A pipeline for a single-speaker voice at the engine's rate.
    pub fn new() -> (tts: Self)
        ensures
            tts.config() == (PiperConfig { num_speakers: 1, sample_rate: ENGINE_SAMPLE_RATE }),
            tts.output_rate() == ENGINE_SAMPLE_RATE,
    {
        TtsPipeline {
            config: PiperConfig { num_speakers: 1, sample_rate: ENGINE_SAMPLE_RATE },
            output_sample_rate: ENGINE_SAMPLE_RATE,
        }
    }

    /// The rate of the output stream in Hz.
    pub fn output_sample_rate(&self) -> (hertz: u32)
        ensures
            hertz == self.output_rate(),
            hertz > 0,
    {
        proof {
            use_type_invariant(self);
        }
        self.output_sample_rate
    }

    /// The token ids of `text`.
    pub fn text_to_phonemes(&self, text: &str) -> (phonemes: Vec<i64>)
        ensures
            phonemes@ == phonemes_of(text@),
    {
        let mut phonemes: Vec<i64> = Vec::new();
        for c in it: text.chars()
            invariant
                it.seq() == text@,
                phonemes@ == phonemes_of(text@.take(it.index() as int)),
        {
            assert(text@.take(it.index() + 1).drop_last() =~= text@.take(it.index() as int));
            match phoneme(c) {
                Some(id) => {
                    phonemes.push(id);
                },
                None => {},
            }
        }
        assert(text@.take(text@.len() as int) =~= text@);
        phonemes
    }

    /// Plans one call to speak `text`: `TtsStarted` is reported first, then
    /// the token ids of the text are synthesised.
    pub fn speak(&self, text: &str) -> (plan: SpeechPlan)
        ensures
            plan.started == AudioEvent::TtsStarted,
            plan.tokens@ == phonemes_of(text@),
    {
        SpeechPlan { started: AudioEvent::TtsStarted, tokens: self.text_to_phonemes(text) }
    }

    /// Plans the playback of a synthesised waveform of `samples` samples.
    pub fn play_audio(&self, samples: usize) -> (plan: PlaybackPlan)
        ensures
            plan.sample_rate == self.output_rate(),
            plan.duration_nanos == playback_nanos(samples as nat, self.output_rate()),
    {
        let sample_rate = self.output_sample_rate();
        PlaybackPlan { sample_rate, duration_nanos: playback_duration_nanos(samples, sample_rate) }
    }

    /// The event that ends a call to speak.
    pub fn finished(&self) -> (event: AudioEvent)
        ensures
            event == AudioEvent::TtsFinished,
    {
        AudioEvent::TtsFinished
    }

    /// The texts that are spoken, one call each and in this order, for a
    /// reply that arrives as `chunks`.
    pub fn speak_streaming(&self, chunks: &Vec<String>) -> (spoken: Vec<String>)
        ensures
            views_of(spoken@) == streamed_sentences(chunks@),
    {
        let mut spoken: Vec<String> = Vec::new();
        let mut acc = SentenceAccumulator::new();
        let mut i: usize = 0;
        while i < chunks.len()
            invariant
                i <= chunks.len(),
                (views_of(spoken@), acc@) == stream_state(chunks@.take(i as int)),
            decreases chunks.len() - i,
        {
            let ghost before = views_of(spoken@);
            assert(chunks@.take(i + 1).drop_last() =~= chunks@.take(i as int));
            match acc.push_chunk(chunks[i].as_str()) {
                Some(sentence) => {
                    spoken.push(sentence);
                    assert(views_of(spoken@) =~= before.push(sentence@));
                },
                None => {},
            }
            i += 1;
        }
        assert(chunks@.take(i as int) =~= chunks@);
        let ghost before = views_of(spoken@);
        match acc.finish() {
            Some(rest) => {
                spoken.push(rest);
                assert(views_of(spoken@) =~= before.push(rest@));
            },
            None => {},
        }
        spoken
    }
}

/// A waveform being played, and how far playback has come.
pub struct Playback<T> {
    samples: Vec<T>,
    index: usize,
}

/// What a playback is, as far as its contracts go.
pub struct PlaybackView<T> {
    pub samples: Seq<T>,
    pub position: nat,
}

impl<T> View for Playback<T> {
    type V = PlaybackView<T>;

    closed spec fn view(&self) -> PlaybackView<T> {
        PlaybackView { samples: self.samples@, position: self.index as nat }
    }
}

/// The sample served at `position`: the waveform's, or silence once the
/// waveform is exhausted.
pub open spec fn served<T>(samples: Seq<T>, position: int, silence: T) -> T {
    if 0 <= position < samples.len() {
        samples[position]
    } else {
        silence
    }
}

impl<T> Playback<T> {
    #[verifier::type_invariant]
    spec fn well_formed(&self) -> bool {
        self.index <= self.samples.len()
    }
}

impl<T: Copy> Playback<T> {
    /// Starts the playback of `samples` at their first sample.
    pub fn new(samples: Vec<T>) -> (playback: Self)
        ensures
            playback@ == (PlaybackView { samples: samples@, position: 0 }),
    {
        Playback { samples, index: 0 }
    }

    /// Samples that are still to be served.
    pub fn remaining(&self) -> (n: usize)
        ensures
            n == self@.samples.len() - self@.position,
            self@.position <= self@.samples.len(),
    {
        proof {
            use_type_invariant(self);
        }
        self.samples.len() - self.index
    }

    /// Fills `out` with the next samples of the waveform, and with `silence`
    /// where the waveform has run out. The position moves past what was
    /// served and never past the end.
    pub fn fill(&mut self, out: &mut [T], silence: T)
        ensures
            final(self)@.samples == old(self)@.samples,
            old(self)@.position <= old(self)@.samples.len(),
            final(self)@.position == if old(self)@.position + old(out)@.len() <= old(
                self,
            )@.samples.len() {
                old(self)@.position + old(out)@.len()
            } else {
                old(self)@.samples.len()
            },
            final(out)@.len() == old(out)@.len(),
            forall|i: int|
                0 <= i < old(out)@.len() ==> (#[trigger] final(out)@[i]) == served(
                    old(self)@.samples,
                    old(self)@.position + i,
                    silence,
                ),
    {
        proof {
            use_type_invariant(&*self);
        }
        let n = out.len();
        let len = self.samples.len();
        let mut idx: usize = self.index;
        let mut i: usize = 0;
        while i < n
            invariant
                i <= n,
                n == out@.len(),
                len == self.samples@.len(),
                self.samples@ == old(self).samples@,
                self.index == old(self).index,
                old(self).index <= len,
                idx == if old(self).index + i <= len {
                    (old(self).index + i) as usize
                } else {
                    len
                },
                forall|j: int|
                    0 <= j < i ==> (#[trigger] out@[j]) == served(
                        old(self).samples@,
                        old(self).index + j,
                        silence,
                    ),
            decreases n - i,
        {
            if idx < len {
                out[i] = self.samples[idx];
                idx += 1;
            } else {
                out[i] = silence;
            }
            i += 1;
        }
        self.index = idx;
    }
}

} // verus!
