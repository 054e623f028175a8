use unsound::meeting::{speaker_tag, worth_diarizing};
use unsound::meeting::{
    join_parts, meeting_context, meeting_segments, meeting_transcript, partial_text,
    record_failure, retry_delay_ms, sample_index_ms, should_send_partial, speaker_label,
    text_part, worker_count, CLOUD_TRANSCRIBE_ATTEMPTS,
};
use unsound::store::{default_source, default_speaker, Segment};

fn seg(speaker: &str, text: &str) -> Segment {
    Segment {
        id: 0,
        speaker: speaker.to_string(),
        source: "system".to_string(),
        start_ms: 0,
        end_ms: 0,
        text: text.to_string(),
    }
}

#[test]
fn speaker_labels() {
    assert_eq!(speaker_label("me"), "Me");
    assert_eq!(speaker_label("them"), "Them");
    assert_eq!(speaker_label("them:0"), "Speaker 1");
    assert_eq!(speaker_label("them:12"), "Speaker 13");
    assert_eq!(speaker_label("them:+4"), "Speaker 5");
    assert_eq!(speaker_label("them:-3"), "Speaker -2");
    assert_eq!(speaker_label("them:x"), "Them");
    assert_eq!(speaker_label("them:"), "Them");
    assert_eq!(speaker_label("Me"), "Them");
    assert_eq!(speaker_label("them:2147483647"), "Speaker 2147483648");
    assert_eq!(speaker_label("them:2147483648"), "Them");
}

#[test]
fn transcript_and_context() {
    let segs = vec![seg("me", "hello"), seg("them:1", "hi")];
    assert_eq!(meeting_transcript(&segs), "Me: hello\nSpeaker 2: hi\n");
    assert_eq!(
        meeting_context("Sum", " ", &segs),
        "Summary:\nSum\n\nTranscript:\nMe: hello\nSpeaker 2: hi\n"
    );
    assert_eq!(meeting_context("", "n", &vec![]), "My notes:\nn\n\nTranscript:\n");
}

#[test]
fn channel_segments_are_labelled_and_ordered() {
    let segs = meeting_segments(
        vec![(0, 10, "a".to_string())],
        vec![(5, 20, "b".to_string()), (30, 40, "c".to_string())],
    );
    assert_eq!(segs.len(), 3);
    assert_eq!((segs[0].speaker.as_str(), segs[0].source.as_str(), segs[0].text.as_str()), ("me", "mic", "a"));
    assert_eq!((segs[1].speaker.as_str(), segs[1].source.as_str(), segs[1].start_ms, segs[1].end_ms), ("them", "system", 5, 20));
    assert_eq!(segs[2].text, "c");
    assert_eq!(default_speaker(), "them");
    assert_eq!(default_source(), "system");
}

#[test]
fn timing_helpers() {
    assert_eq!(text_part(String::new(), 32_000), vec![]);
    assert_eq!(text_part("hi".to_string(), 32_000), vec![(0, 2000, "hi".to_string())]);
    assert_eq!(sample_index_ms(24_000), 1500);
    assert_eq!(text_part("long".to_string(), usize::MAX), vec![(0, (usize::MAX / 16) as i64, "long".to_string())]);
    assert_eq!(sample_index_ms(i64::MAX), i64::MAX / 16);
    assert!(should_send_partial(0, 16_000, true));
    assert!(!should_send_partial(1, 16_000, true));
    assert!(!should_send_partial(0, 15_999, true));
    assert!(!should_send_partial(0, 16_000, false));
    assert_eq!(worker_count(true), 2);
    assert_eq!(worker_count(false), 1);
}

#[test]
fn failures_are_reported_once() {
    let mut f = Vec::new();
    assert!(record_failure(&mut f, "boom".to_string()));
    assert!(!record_failure(&mut f, "boom".to_string()));
    assert!(record_failure(&mut f, "bang".to_string()));
    assert_eq!(f, vec!["boom".to_string(), "bang".to_string()]);
}

#[test]
fn cloud_retries_back_off_then_give_up() {
    assert_eq!(CLOUD_TRANSCRIBE_ATTEMPTS, 3);
    assert_eq!(retry_delay_ms(1), Some(500));
    assert_eq!(retry_delay_ms(2), Some(1000));
    assert_eq!(retry_delay_ms(3), None);
}

#[test]
fn partials_join_parts_and_skip_blank() {
    let parts = vec![(0, 1, "a".to_string()), (1, 2, "b".to_string())];
    assert_eq!(join_parts(&parts), "a b");
    assert_eq!(partial_text(&parts), Some("a b".to_string()));
    assert_eq!(partial_text(&vec![(0, 1, " ".to_string())]), None);
    assert_eq!(partial_text(&vec![]), None);
}

#[test]
fn speaker_tags_read_back_as_speaker_numbers() {
    assert_eq!(speaker_tag(0), "them:0");
    assert_eq!(speaker_tag(-4), "them:-4");
    for n in [0, 1, 9, 10, 123, -1, i32::MIN, i32::MAX] {
        assert_eq!(speaker_label(&speaker_tag(n)), format!("Speaker {}", n as i64 + 1));
    }
    assert!(worth_diarizing(16_000));
    assert!(!worth_diarizing(15_999));
}
