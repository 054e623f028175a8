use unsound::stt::check_file_audio;
use unsound::meeting::WHISPER_SAMPLE_RATE;
use unsound::remote::pcm16_wav;
use unsound::stt::{dictation_text, gate, sanitize_segment, timed_parts, Gate, RawSegment, MIN_SAMPLES};

/// Whisper's no-speech probability at or above which a stock phrase is dropped.
fn no_speech(probability: f32) -> bool {
    probability >= 0.6
}

/// A float sample as the 16-bit PCM it is sent as.
fn pcm(sample: f32) -> i16 {
    (sample.clamp(-1.0, 1.0) * i16::MAX as f32) as i16
}

#[test]
fn creates_a_valid_pcm_wav_header() {
    let samples: Vec<i16> = [0.0f32, 0.5].iter().map(|s| pcm(*s)).collect();
    let bytes = pcm16_wav(&samples, WHISPER_SAMPLE_RATE);
    assert_eq!(&bytes[..4], b"RIFF");
    assert_eq!(&bytes[8..12], b"WAVE");
    assert_eq!(bytes.len(), 48);
}

#[test]
fn strips_blank_audio_markers() {
    assert_eq!(sanitize_segment(" [BLANK_AUDIO] ", no_speech(0.0)), "");
    assert_eq!(
        sanitize_segment("hello [blank_audio] world", no_speech(0.0)),
        "hello  world"
    );
}

#[test]
fn drops_thank_you_only_when_model_detects_no_speech() {
    assert_eq!(sanitize_segment("Thank you.", no_speech(0.9)), "");
    assert_eq!(sanitize_segment("Thank you.", no_speech(0.1)), "Thank you.");
}

#[test]
fn wav_header_fields_are_little_endian() {
    let bytes = pcm16_wav(&[1, -1, 256], 16_000);
    assert_eq!(bytes.len(), 44 + 6);
    assert_eq!(&bytes[4..8], &(36u32 + 6).to_le_bytes());
    assert_eq!(&bytes[12..16], b"fmt ");
    assert_eq!(&bytes[24..28], &16_000u32.to_le_bytes());
    assert_eq!(&bytes[28..32], &32_000u32.to_le_bytes());
    assert_eq!(&bytes[36..40], b"data");
    assert_eq!(&bytes[40..44], &6u32.to_le_bytes());
    assert_eq!(&bytes[44..], &[1, 0, 0xFF, 0xFF, 0, 1]);
}

#[test]
fn removes_markers_that_a_removal_joins() {
    assert_eq!(sanitize_segment("a[BLANK_[blank_audio]AUDIO]b", false), "ab");
    assert_eq!(sanitize_segment("[Blank_Audio]", false), "");
}

#[test]
fn keeps_other_words_when_no_speech() {
    assert_eq!(sanitize_segment("Thank you all.", true), "Thank you all.");
    assert_eq!(sanitize_segment("  thank   YOU!! ", true), "");
    assert_eq!(sanitize_segment("thanks", true), "thanks");
}

#[test]
fn sanitizing_twice_changes_nothing() {
    for (t, ns) in [(" [BLANK_AUDIO] Thank you. ", true), ("hello [blank_audio] world ", false), ("x", true)] {
        let once = sanitize_segment(t, ns);
        assert_eq!(sanitize_segment(&once, ns), once);
    }
}

#[test]
fn dictation_text_concatenates_and_trims() {
    let segs = vec![
        RawSegment { text: " Hello".into(), no_speech: false, start_cs: 0, end_cs: 100 },
        RawSegment { text: " Thank you.".into(), no_speech: true, start_cs: 100, end_cs: 200 },
        RawSegment { text: " world. ".into(), no_speech: false, start_cs: 200, end_cs: 300 },
    ];
    assert_eq!(dictation_text(&segs), "Helloworld.");
}

#[test]
fn timed_parts_skip_empty_and_use_milliseconds() {
    let segs = vec![
        RawSegment { text: "[BLANK_AUDIO]".into(), no_speech: false, start_cs: 0, end_cs: 50 },
        RawSegment { text: " Hi there ".into(), no_speech: false, start_cs: 50, end_cs: 123 },
    ];
    assert_eq!(timed_parts(&segs), vec![(500, 1230, "Hi there".to_string())]);
}

#[test]
fn gate_decides_before_the_model() {
    assert_eq!(MIN_SAMPLES, 1600);
    assert_eq!(gate(1599, false), Gate::TooShort);
    assert_eq!(gate(1599, true), Gate::TooShort);
    assert_eq!(gate(1600, true), Gate::Silent);
    assert_eq!(gate(1600, false), Gate::Transcribe);
    assert_eq!(gate(10, false).dictation_error(), Some("recording is too short to transcribe".to_string()));
    assert_eq!(Gate::Silent.dictation_error(), None);
    assert_eq!(Gate::Transcribe.dictation_error(), None);
}

#[test]
fn uploads_need_a_fifth_of_a_second() {
    assert_eq!(check_file_audio(3199), Err("that file has almost no audio in it".to_string()));
    assert_eq!(check_file_audio(3200), Ok(()));
}
