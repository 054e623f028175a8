use serde_json::Value;
use unsound::remote::{chat_body, chat_text, found_transcript, reply_json, transcript_from, Json};

fn parse(s: &str) -> Json {
    reply_json("test", true, "200 OK", s).ok().unwrap()
}

#[test]
fn failed_requests_name_provider_status_and_body() {
    assert_eq!(
        reply_json("openai", false, "401 Unauthorized", "{\"error\":1}").err(),
        Some("openai request failed (401 Unauthorized): {\"error\":1}".to_string())
    );
    let e = reply_json("mistral", true, "200 OK", "not json").err().unwrap();
    assert!(e.starts_with("mistral returned invalid JSON: "), "{e}");
    let v = reply_json("mistral", true, "200 OK", "{\"text\":\" hi \"}").ok().unwrap();
    assert_eq!(transcript_from(&v, "/text"), "hi");
}

#[test]
fn transcripts_are_found_by_pointer() {
    let dg = parse("{\"results\":{\"channels\":[{\"alternatives\":[{\"transcript\":\"  hello world \"}]}]}}");
    assert_eq!(transcript_from(&dg, "/results/channels/0/alternatives/0/transcript"), "hello world");
    assert_eq!(transcript_from(&dg, "/text"), "");
    assert_eq!(transcript_from(&parse("{\"text\":5}"), "/text"), "");
    assert_eq!(found_transcript(Some(" x ".to_string())), "x");
    assert_eq!(found_transcript(None), "");
}

#[test]
fn chat_answers_are_trimmed_or_missing() {
    let ok = parse("{\"choices\":[{\"message\":{\"content\":\" Summary. \"}}]}");
    assert_eq!(chat_text("openai", &ok), Ok("Summary.".to_string()));
    let blank = parse("{\"choices\":[{\"message\":{\"content\":\"   \"}}]}");
    assert_eq!(chat_text("openai", &blank), Err("openai returned no text".to_string()));
    assert_eq!(chat_text("mistral", &parse("{}")), Err("mistral returned no text".to_string()));
}

#[test]
fn chat_body_is_the_json_document() {
    let body = chat_body("gpt-4o-mini", "Be \"brief\"", "line1\nline2");
    assert_eq!(
        body,
        "{\"messages\":[{\"content\":\"Be \\\"brief\\\"\",\"role\":\"system\"},{\"content\":\"line1\\nline2\",\"role\":\"user\"}],\"model\":\"gpt-4o-mini\",\"temperature\":0.1}"
    );
    let v: Value = serde_json::from_str(&body).unwrap();
    assert_eq!(v.pointer("/messages/1/content").and_then(Value::as_str), Some("line1\nline2"));
    assert_eq!(v.pointer("/temperature").and_then(Value::as_f64), Some(0.1));
}

#[test]
fn chat_body_escapes_control_characters() {
    let body = chat_body("m", "a\u{1}\tb\\", "é\u{7f}");
    assert_eq!(
        body,
        "{\"messages\":[{\"content\":\"a\\u0001\\tb\\\\\",\"role\":\"system\"},{\"content\":\"é\u{7f}\",\"role\":\"user\"}],\"model\":\"m\",\"temperature\":0.1}"
    );
}
