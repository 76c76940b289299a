use blipply_assistant::audio::same_rate_copy;
use blipply_assistant::audio::stt::join_segments;
use blipply_assistant::audio::stt::transcript_event;
use blipply_assistant::audio::stt::transcription_outcome;
use blipply_assistant::audio::stt::CaptureAction;
use blipply_assistant::audio::stt::StreamRequest;
use blipply_assistant::audio::tts::playback_duration_nanos;
use blipply_assistant::audio::tts::phoneme;
use blipply_assistant::audio::tts::Playback;
use blipply_assistant::audio::tts::SentenceAccumulator;
use blipply_assistant::audio::vad::Aggressiveness;
use blipply_assistant::audio::vad::SampleRate;
use blipply_assistant::audio::vad::VadError;
use blipply_assistant::audio::vad::VadEvent;
use blipply_assistant::audio::AudioEvent;
use blipply_assistant::audio::SttPipeline;
use blipply_assistant::audio::TtsPipeline;
use blipply_assistant::audio::VoiceActivityDetector;

const MS: u128 = 1_000_000;

#[test]
fn test_vad_creation() {
    let vad = VoiceActivityDetector::new(16000, 2, 1000);
    assert!(vad.is_ok());

    let vad = vad.unwrap();
    assert_eq!(vad.samples_per_frame(), 480); // 30ms at 16kHz
}

#[test]
fn test_invalid_sample_rate() {
    let vad = VoiceActivityDetector::new(44100, 2, 1000);
    assert!(vad.is_err());
}

#[test]
fn test_invalid_aggressiveness() {
    let vad = VoiceActivityDetector::new(16000, 5, 1000);
    assert!(vad.is_err());
}

#[test]
fn test_text_to_phonemes() {
    let tts = TtsPipeline::new();

    let phonemes = tts.text_to_phonemes("hello");
    assert!(!phonemes.is_empty());
}

#[test]
fn samples_per_frame_at_every_supported_rate() {
    let expected = [(8000u32, 240usize), (16000, 480), (32000, 960), (48000, 1440)];
    for (rate, frame) in expected {
        let vad = VoiceActivityDetector::new(rate, 0, 500).unwrap();
        assert_eq!(vad.samples_per_frame(), frame);
        assert_eq!(vad.samples_per_frame(), (rate * 30 / 1000) as usize);
        assert_eq!(vad.sample_rate(), rate);
    }
}

#[test]
fn every_valid_combination_builds_a_detector() {
    for rate in [8000u32, 16000, 32000, 48000] {
        for level in 0u8..=3 {
            assert!(VoiceActivityDetector::new(rate, level, 1000).is_ok());
        }
    }
}

#[test]
fn configuration_errors_name_the_bad_value() {
    match VoiceActivityDetector::new(44100, 2, 1000) {
        Err(e) => {
            assert_eq!(e, VadError::UnsupportedSampleRate { sample_rate: 44100 });
            assert!(e.is_configuration_error());
        }
        Ok(_) => panic!("44100 Hz was accepted"),
    }
    match VoiceActivityDetector::new(16000, 5, 1000) {
        Err(e) => {
            assert_eq!(e, VadError::InvalidAggressiveness { aggressiveness: 5 });
            assert!(e.is_configuration_error());
        }
        Ok(_) => panic!("aggressiveness 5 was accepted"),
    }
    // The rate is checked first.
    match VoiceActivityDetector::new(0, 9, 1000) {
        Err(e) => assert_eq!(e, VadError::UnsupportedSampleRate { sample_rate: 0 }),
        Ok(_) => panic!("0 Hz was accepted"),
    }
    assert!(!VadError::DetectorFailed.is_configuration_error());
    assert!(!VadError::FrameSize { expected: 480, actual: 1 }.is_configuration_error());
}

#[test]
fn rate_and_level_conversions() {
    assert_eq!(SampleRate::from_hertz(8000), Some(SampleRate::Rate8kHz));
    assert_eq!(SampleRate::from_hertz(16000), Some(SampleRate::Rate16kHz));
    assert_eq!(SampleRate::from_hertz(32000), Some(SampleRate::Rate32kHz));
    assert_eq!(SampleRate::from_hertz(48000), Some(SampleRate::Rate48kHz));
    assert_eq!(SampleRate::from_hertz(22050), None);
    assert_eq!(Aggressiveness::from_level(0), Some(Aggressiveness::Quality));
    assert_eq!(Aggressiveness::from_level(1), Some(Aggressiveness::LowBitrate));
    assert_eq!(Aggressiveness::from_level(2), Some(Aggressiveness::Aggressive));
    assert_eq!(Aggressiveness::from_level(3), Some(Aggressiveness::VeryAggressive));
    assert_eq!(Aggressiveness::from_level(4), None);
}

#[test]
fn wrong_frame_length_is_refused() {
    let mut vad = VoiceActivityDetector::new(16000, 2, 1000).unwrap();
    let short = vec![0i16; 479];
    assert_eq!(
        vad.process_frame(&short),
        Err(VadError::FrameSize { expected: 480, actual: 479 })
    );
    let empty: Vec<i16> = Vec::new();
    assert_eq!(
        vad.process_frame(&empty),
        Err(VadError::FrameSize { expected: 480, actual: 0 })
    );
    // 160 samples are a valid 10 ms frame for the detector, but not the
    // 30 ms frame that this pipeline works with.
    let ten_ms = vec![0i16; 160];
    assert_eq!(
        vad.process_frame(&ten_ms),
        Err(VadError::FrameSize { expected: 480, actual: 160 })
    );
    assert!(!vad.is_speaking());
}

#[test]
fn silent_frames_are_accepted_at_every_rate() {
    for rate in [8000u32, 16000, 32000, 48000] {
        let mut vad = VoiceActivityDetector::new(rate, 3, 1000).unwrap();
        let frame = vec![0i16; vad.samples_per_frame()];
        for _ in 0..5 {
            assert_eq!(vad.process_frame(&frame), Ok(VadEvent::Silence));
            assert!(!vad.is_speaking());
        }
    }
}

#[test]
fn speech_then_sustained_silence() {
    let mut vad = VoiceActivityDetector::new(16000, 2, 1000).unwrap();
    assert_eq!(vad.advance(false, 0), VadEvent::Silence);
    assert!(!vad.is_speaking());
    assert_eq!(vad.advance(true, 30 * MS), VadEvent::SpeechStart);
    assert!(vad.is_speaking());
    assert_eq!(vad.advance(true, 60 * MS), VadEvent::Speaking);
    // Silence below the threshold keeps the utterance open.
    let mut now = 60 * MS;
    for _ in 0..33 {
        now += 30 * MS;
        assert_eq!(vad.advance(false, now), VadEvent::Silence);
        assert!(vad.is_speaking());
    }
    // 990 ms have passed; the next frame reaches 1020 ms.
    now += 30 * MS;
    assert_eq!(vad.advance(false, now), VadEvent::SpeechEnd);
    assert!(!vad.is_speaking());
    // Exactly one SpeechEnd.
    for _ in 0..10 {
        now += 30 * MS;
        assert_eq!(vad.advance(false, now), VadEvent::Silence);
        assert!(!vad.is_speaking());
    }
}

#[test]
fn silence_threshold_is_inclusive() {
    let mut vad = VoiceActivityDetector::new(8000, 0, 1000).unwrap();
    assert_eq!(vad.advance(true, 5), VadEvent::SpeechStart);
    assert_eq!(vad.advance(false, 5 + 1000 * MS - 1), VadEvent::Silence);
    assert_eq!(vad.advance(false, 5 + 1000 * MS), VadEvent::SpeechEnd);
}

#[test]
fn brief_dip_does_not_end_the_utterance() {
    let mut vad = VoiceActivityDetector::new(16000, 2, 300).unwrap();
    assert_eq!(vad.advance(true, 0), VadEvent::SpeechStart);
    assert_eq!(vad.advance(false, 100 * MS), VadEvent::Silence);
    assert_eq!(vad.advance(false, 200 * MS), VadEvent::Silence);
    // Speech again: the silence clock starts over.
    assert_eq!(vad.advance(true, 250 * MS), VadEvent::Speaking);
    assert_eq!(vad.advance(false, 400 * MS), VadEvent::Silence);
    assert_eq!(vad.advance(false, 549 * MS), VadEvent::Silence);
    assert_eq!(vad.advance(false, 550 * MS), VadEvent::SpeechEnd);
}

#[test]
fn clock_that_reads_less_counts_as_no_time_passed() {
    let mut vad = VoiceActivityDetector::new(16000, 2, 10).unwrap();
    assert_eq!(vad.advance(true, 500 * MS), VadEvent::SpeechStart);
    assert_eq!(vad.advance(false, 100 * MS), VadEvent::Silence);
    assert!(vad.is_speaking());
    let mut zero = VoiceActivityDetector::new(16000, 2, 0).unwrap();
    assert_eq!(zero.advance(true, 500 * MS), VadEvent::SpeechStart);
    assert_eq!(zero.advance(false, 100 * MS), VadEvent::SpeechEnd);
}

#[test]
fn reset_discards_the_utterance() {
    let mut vad = VoiceActivityDetector::new(16000, 2, 1000).unwrap();
    assert_eq!(vad.advance(true, 0), VadEvent::SpeechStart);
    vad.reset();
    assert!(!vad.is_speaking());
    assert_eq!(vad.advance(false, 5000 * MS), VadEvent::Silence);
    assert_eq!(vad.advance(true, 5030 * MS), VadEvent::SpeechStart);
    assert_eq!(vad.samples_per_frame(), 480);
}

#[test]
fn capture_starts_once_and_stops_any_number_of_times() {
    let mut stt: SttPipeline<f32> = SttPipeline::new(48000, 1, 800).unwrap();
    assert!(!stt.is_running());
    assert_eq!(
        stt.start(),
        Some(StreamRequest { channels: 1, sample_rate: 48000, block_size: 1440 })
    );
    assert!(stt.is_running());
    assert_eq!(stt.start(), None);
    assert!(stt.is_running());
    assert!(stt.stop());
    assert!(!stt.stop());
    assert!(!stt.is_running());
    assert_eq!(
        stt.start(),
        Some(StreamRequest { channels: 1, sample_rate: 48000, block_size: 1440 })
    );
}

#[test]
fn capture_refuses_a_bad_configuration() {
    assert_eq!(
        SttPipeline::<f32>::new(44100, 2, 1000).err(),
        Some(VadError::UnsupportedSampleRate { sample_rate: 44100 })
    );
    assert_eq!(
        SttPipeline::<f32>::new(16000, 4, 1000).err(),
        Some(VadError::InvalidAggressiveness { aggressiveness: 4 })
    );
}

fn frame_of(value: f32, len: usize) -> Vec<f32> {
    vec![value; len]
}

#[test]
fn utterance_is_buffered_from_start_to_end() {
    let mut stt: SttPipeline<f32> = SttPipeline::new(16000, 2, 1000).unwrap();
    let n = stt.samples_per_frame();
    assert_eq!(n, 480);
    assert!(matches!(stt.apply_event(VadEvent::Silence, &frame_of(0.5, n)), CaptureAction::Idle));
    assert_eq!(stt.buffered(), 0);
    let started = stt.apply_event(VadEvent::SpeechStart, &frame_of(0.1, n));
    assert!(matches!(started, CaptureAction::SpeechStarted));
    assert_eq!(started.to_event(), Some(AudioEvent::SpeechStart));
    assert_eq!(stt.buffered(), 480);
    for i in 0..16 {
        let action = stt.apply_event(VadEvent::Speaking, &frame_of(0.2, n));
        assert!(matches!(action, CaptureAction::Idle));
        assert_eq!(action.to_event(), None);
        assert_eq!(stt.buffered(), 480 * (i + 2));
    }
    // Silence inside the utterance is not recorded.
    assert!(matches!(stt.apply_event(VadEvent::Silence, &frame_of(0.9, n)), CaptureAction::Idle));
    assert_eq!(stt.buffered(), 480 * 17);
    let ended = stt.apply_event(VadEvent::SpeechEnd, &frame_of(0.9, n));
    assert_eq!(ended.to_event(), Some(AudioEvent::SpeechEnd));
    match ended {
        CaptureAction::SpeechEnded { utterance: Some(samples) } => {
            assert_eq!(samples.len(), 480 * 17);
            assert!(samples[..480].iter().all(|s| *s == 0.1));
            assert!(samples[480..].iter().all(|s| *s == 0.2));
        }
        other => panic!("no utterance handed out: {:?}", other),
    }
    assert_eq!(stt.buffered(), 0);
}

#[test]
fn utterance_under_half_a_second_is_dropped() {
    let mut stt: SttPipeline<i16> = SttPipeline::new(16000, 2, 1000).unwrap();
    let frame = vec![7i16; 480];
    stt.apply_event(VadEvent::SpeechStart, &frame);
    for _ in 0..15 {
        stt.apply_event(VadEvent::Speaking, &frame);
    }
    // 16 frames: 7680 samples, less than the 8000 of half a second.
    assert_eq!(stt.buffered(), 7680);
    match stt.apply_event(VadEvent::SpeechEnd, &frame) {
        CaptureAction::SpeechEnded { utterance: None } => {}
        other => panic!("short utterance handed out: {:?}", other),
    }
    assert_eq!(stt.buffered(), 0);
}

#[test]
fn utterance_of_exactly_half_a_second_is_kept() {
    let mut stt: SttPipeline<i16> = SttPipeline::new(8000, 2, 1000).unwrap();
    // 4000 samples at 8 kHz, built from one frame of 240 and one odd block.
    stt.apply_event(VadEvent::SpeechStart, &vec![1i16; 240]);
    stt.apply_event(VadEvent::Speaking, &vec![2i16; 3760]);
    assert_eq!(stt.buffered(), 4000);
    match stt.apply_event(VadEvent::SpeechEnd, &[]) {
        CaptureAction::SpeechEnded { utterance: Some(samples) } => assert_eq!(samples.len(), 4000),
        other => panic!("utterance dropped: {:?}", other),
    }
    stt.apply_event(VadEvent::SpeechStart, &vec![1i16; 240]);
    stt.apply_event(VadEvent::Speaking, &vec![2i16; 3759]);
    match stt.apply_event(VadEvent::SpeechEnd, &[]) {
        CaptureAction::SpeechEnded { utterance: None } => {}
        other => panic!("short utterance handed out: {:?}", other),
    }
}

#[test]
fn new_utterance_replaces_what_was_buffered() {
    let mut stt: SttPipeline<i16> = SttPipeline::new(8000, 2, 1000).unwrap();
    stt.apply_event(VadEvent::SpeechStart, &vec![1i16; 240]);
    stt.apply_event(VadEvent::Speaking, &vec![1i16; 240]);
    stt.apply_event(VadEvent::SpeechStart, &vec![3i16; 240]);
    assert_eq!(stt.buffered(), 240);
}

#[test]
fn frames_go_through_the_detector() {
    let mut stt: SttPipeline<f32> = SttPipeline::new(16000, 3, 1000).unwrap();
    let data = vec![0.0f32; 480];
    let pcm = vec![0i16; 480];
    assert!(matches!(stt.on_frame(&data, &pcm), CaptureAction::Idle));
    assert_eq!(stt.buffered(), 0);
    match stt.on_frame(&data, &pcm[..100]) {
        CaptureAction::Rejected(e) => {
            assert_eq!(e, VadError::FrameSize { expected: 480, actual: 100 })
        }
        other => panic!("bad frame accepted: {:?}", other),
    }
}

#[test]
fn segments_are_joined_with_spaces_and_trimmed() {
    let segments = vec![" Hello".to_string(), "world.".to_string(), " Bye ".to_string()];
    assert_eq!(join_segments(&segments), "Hello world.  Bye");
    assert_eq!(join_segments(&Vec::new()), "");
    assert_eq!(join_segments(&vec!["  ".to_string(), "".to_string()]), "");
    assert_eq!(join_segments(&vec!["one".to_string()]), "one");
}

#[test]
fn transcript_is_trimmed_and_blank_text_is_noise() {
    assert_eq!(
        transcript_event("  turn on the lights \n"),
        Some(AudioEvent::TranscriptFinal("turn on the lights".to_string()))
    );
    assert_eq!(transcript_event(""), None);
    assert_eq!(transcript_event(" \t\n\u{a0}\u{3000} "), None);
    assert_eq!(
        transcription_outcome::<String>(Ok(" hi".to_string())),
        Some(AudioEvent::TranscriptFinal("hi".to_string()))
    );
    assert_eq!(transcription_outcome::<String>(Ok("   ".to_string())), None);
    assert_eq!(transcription_outcome(Err("engine failed")), None);
}

#[test]
fn phonemes_follow_the_alphabet() {
    let tts = TtsPipeline::new();
    assert_eq!(tts.text_to_phonemes("hello"), vec![8, 5, 12, 12, 15]);
    assert_eq!(tts.text_to_phonemes("Hi, you!"), vec![8, 9, 0, 25, 15, 21]);
    assert_eq!(tts.text_to_phonemes("a z A Z"), vec![1, 0, 26, 0, 1, 0, 26]);
    assert_eq!(tts.text_to_phonemes("123 \t\u{e9}\u{212a}"), vec![0]);
    assert_eq!(tts.text_to_phonemes(""), Vec::<i64>::new());
    assert_eq!(phoneme('a'), Some(1));
    assert_eq!(phoneme('Z'), Some(26));
    assert_eq!(phoneme(' '), Some(0));
    assert_eq!(phoneme('`'), None);
    assert_eq!(phoneme('{'), None);
    assert_eq!(phoneme('@'), None);
    assert_eq!(phoneme('['), None);
}

#[test]
fn speak_plans_start_event_and_tokens() {
    let tts = TtsPipeline::new();
    let plan = tts.speak("ab c");
    assert_eq!(plan.started, AudioEvent::TtsStarted);
    assert_eq!(plan.tokens, vec![1, 2, 0, 3]);
    assert_eq!(tts.finished(), AudioEvent::TtsFinished);
    assert_eq!(tts.output_sample_rate(), 22050);
}

#[test]
fn playback_waits_for_the_waveform_and_a_margin() {
    let tts = TtsPipeline::new();
    let plan = tts.play_audio(22050);
    assert_eq!(plan.sample_rate, 22050);
    assert_eq!(plan.duration_nanos, 1_100_000_000);
    assert_eq!(tts.play_audio(0).duration_nanos, 100_000_000);
    // One sample at 22050 Hz lasts 45351.47 ns, rounded up.
    assert_eq!(tts.play_audio(1).duration_nanos, 100_045_352);
    assert_eq!(playback_duration_nanos(3, 2), 1_600_000_000);
    assert_eq!(playback_duration_nanos(1, 3), 433_333_334);
    assert_eq!(playback_duration_nanos(48000, 48000), 1_100_000_000);
}

#[test]
fn playback_pads_with_silence() {
    let mut playback = Playback::new(vec![1.0f32, 2.0, 3.0, 4.0, 5.0]);
    assert_eq!(playback.remaining(), 5);
    let mut out = [9.0f32; 3];
    playback.fill(&mut out, 0.0);
    assert_eq!(out, [1.0, 2.0, 3.0]);
    assert_eq!(playback.remaining(), 2);
    playback.fill(&mut out, 0.0);
    assert_eq!(out, [4.0, 5.0, 0.0]);
    assert_eq!(playback.remaining(), 0);
    playback.fill(&mut out, 0.0);
    assert_eq!(out, [0.0, 0.0, 0.0]);
    assert_eq!(playback.remaining(), 0);
    let mut none: [f32; 0] = [];
    playback.fill(&mut none, 0.0);
    let mut empty = Playback::new(Vec::<i16>::new());
    let mut block = [5i16; 4];
    empty.fill(&mut block, -1);
    assert_eq!(block, [-1, -1, -1, -1]);
}

#[test]
fn streamed_reply_is_spoken_sentence_by_sentence() {
    let tts = TtsPipeline::new();
    let chunks = vec!["Hello wor".to_string(), "ld. How are".to_string(), " you?".to_string()];
    assert_eq!(tts.speak_streaming(&chunks), vec!["Hello world.", " How are you?"]);
}

#[test]
fn streamed_reply_edge_cases() {
    let tts = TtsPipeline::new();
    let texts = |chunks: &[&str]| -> Vec<String> {
        let chunks: Vec<String> = chunks.iter().map(|c| c.to_string()).collect();
        tts.speak_streaming(&chunks)
    };
    assert_eq!(texts(&[]), Vec::<String>::new());
    assert_eq!(texts(&["", "", ""]), Vec::<String>::new());
    // A remainder of whitespace is still a remainder.
    assert_eq!(texts(&[" "]), vec![" "]);
    assert_eq!(texts(&["", "  ", "\n"]), vec!["  \n"]);
    assert_eq!(texts(&["no end"]), vec!["no end"]);
    assert_eq!(texts(&["no", " end"]), vec!["no end"]);
    // Everything up to the last sentence end of the held text goes out at once.
    assert_eq!(texts(&["One. Two! Three"]), vec!["One. Two!", " Three"]);
    assert_eq!(texts(&["Wait", "...", " what?", " "]), vec!["Wait...", " what?", " "]);
    assert_eq!(texts(&["?", "!", "."]), vec!["?", "!", "."]);
    assert_eq!(texts(&["a.b", "c", "d.e"]), vec!["a.", "bcd.", "e"]);
}

#[test]
fn accumulator_holds_the_remainder() {
    let mut acc = SentenceAccumulator::new();
    assert_eq!(acc.push_chunk("Hello wor"), None);
    assert_eq!(acc.push_chunk("ld. How are"), Some("Hello world.".to_string()));
    assert_eq!(acc.push_chunk(" you"), None);
    assert_eq!(acc.finish(), Some(" How are you".to_string()));
    let mut blank = SentenceAccumulator::new();
    assert_eq!(blank.push_chunk("Done. "), Some("Done.".to_string()));
    assert_eq!(blank.finish(), Some(" ".to_string()));
    let mut done = SentenceAccumulator::new();
    assert_eq!(done.push_chunk("Done."), Some("Done.".to_string()));
    assert_eq!(done.finish(), None);
    assert_eq!(SentenceAccumulator::new().finish(), None);
}

#[test]
fn starts_and_ends_alternate() {
    let mut vad = VoiceActivityDetector::new(32000, 1, 90).unwrap();
    let mut seed: u32 = 12345;
    let mut now: u128 = 0;
    let mut open = false;
    let mut starts = 0;
    let mut ends = 0;
    for _ in 0..5000 {
        seed = seed.wrapping_mul(1664525).wrapping_add(1013904223);
        let speech = (seed >> 24) % 4 == 0;
        now += 30 * MS;
        match vad.advance(speech, now) {
            VadEvent::SpeechStart => {
                assert!(!open);
                open = true;
                starts += 1;
            }
            VadEvent::SpeechEnd => {
                assert!(open);
                open = false;
                ends += 1;
            }
            VadEvent::Speaking => assert!(open && speech),
            VadEvent::Silence => assert!(!speech),
        }
        assert_eq!(vad.is_speaking(), open);
        assert!(starts == ends || starts == ends + 1);
    }
    assert!(starts > 100);
    assert!(ends > 100);
}

#[test]
fn test_resample_same_rate() {
    let input = vec![0.0, 0.5, -0.5];
    let output = same_rate_copy(&input, 16000, 16000).unwrap();
    assert_eq!(input, output);
}

#[test]
fn equal_rates_hand_the_samples_back() {
    let input = vec![0.0f32, 0.5, -0.5];
    assert_eq!(same_rate_copy(&input, 16000, 16000), Some(input.clone()));
    assert_eq!(same_rate_copy(&input, 16000, 48000), None);
    assert_eq!(same_rate_copy(&input, 48000, 16000), None);
    assert_eq!(same_rate_copy::<i16>(&[], 0, 0), Some(Vec::new()));
    assert_eq!(same_rate_copy(&[7i16, -7], 8000, 8000), Some(vec![7, -7]));
}

#[test]
fn streaming_speaks_everything_once() {
    let tts = TtsPipeline::new();
    let streams: [&[&str]; 6] = [
        &[],
        &["", ""],
        &[" "],
        &["a", " ", "b. ", "", "\n"],
        &["One. Two! Three"],
        &["?", "", "!", " x"],
    ];
    for stream in streams {
        let chunks: Vec<String> = stream.iter().map(|c| c.to_string()).collect();
        let spoken = tts.speak_streaming(&chunks);
        assert_eq!(spoken.concat(), chunks.concat());
        assert!(spoken.iter().all(|text| !text.is_empty()));
        for text in spoken.iter().rev().skip(1) {
            assert!(text.ends_with(['.', '!', '?']));
        }
        assert_eq!(spoken.is_empty(), chunks.iter().all(|c| c.is_empty()));
    }
}

#[test]
fn streaming_loses_no_text() {
    let tts = TtsPipeline::new();
    let chunks: Vec<String> =
        ["So", "me te", "xt. And m", "ore! An", "d the rest", ""].iter().map(|c| c.to_string()).collect();
    let spoken = tts.speak_streaming(&chunks);
    assert_eq!(spoken, vec!["Some text.", " And more!", " And the rest"]);
    assert_eq!(spoken.concat(), chunks.concat());
}
