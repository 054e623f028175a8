use unsound::llm::{
    cleanup_plan, cleanup_system_prompt, context_size, dictionary_addendum, extract_messages,
    facts_or_transcript, find_style, finish_cleanup, fold_system_messages, prompt_chunk_end,
    question_messages, style_addendum, summary_messages, Generation, Utf8Stream,
    DEFAULT_CLEANUP_PROMPT, DICT_INTRO, MAX_NEW_TOKENS, MEETING_EXTRACT_PROMPT,
};
use unsound::settings::{DictEntry, Style};

fn msg(role: &str, content: &str) -> (String, String) {
    (role.to_string(), content.to_string())
}

fn style(id: &str, samples: &[&str], notes: &str, lowercase: bool) -> Style {
    Style {
        id: id.to_string(),
        name: format!("{id} style"),
        notes: notes.to_string(),
        lowercase,
        samples: samples.iter().map(|s| s.to_string()).collect(),
    }
}

#[test]
fn utf8_stream_holds_back_incomplete_characters() {
    let mut s = Utf8Stream::new();
    assert_eq!(s.push(b"caf"), "caf");
    assert_eq!(s.push(&[0xC3]), "");
    assert_eq!(s.push(&[0xA9, b'!']), "é!");
    assert_eq!(s.push(&[0xF0, 0x9F]), "");
    assert_eq!(s.push(&[0x98, 0x80]), "😀");
}

#[test]
fn utf8_stream_pieces_make_up_the_whole() {
    let text = "naïve 😀 ok";
    let bytes = text.as_bytes();
    for cut in 0..=bytes.len() {
        let mut s = Utf8Stream::new();
        let mut out = s.push(&bytes[..cut]);
        out.push_str(&s.push(&bytes[cut..]));
        assert_eq!(out, text);
    }
}

#[test]
fn utf8_stream_any_number_of_pieces_make_up_the_whole() {
    let text = "añ😀€b";
    let bytes = text.as_bytes();
    let mut s = Utf8Stream::new();
    let mut out = String::new();
    for b in bytes {
        out.push_str(&s.push(&[*b]));
    }
    assert_eq!(out, text);
    let mut s = Utf8Stream::new();
    let mut out = String::new();
    for chunk in bytes.chunks(3) {
        out.push_str(&s.push(chunk));
    }
    assert_eq!(out, text);
    assert_eq!(s.push(&[]), "");
}

#[test]
fn utf8_stream_passes_invalid_bytes_on_later() {
    let mut s = Utf8Stream::new();
    assert_eq!(s.push(&[b'a', 0xFF, b'b']), "a");
    assert_eq!(s.push(b"c"), "");
}

#[test]
fn generation_streams_and_stops() {
    let mut g = Generation::new(false);
    assert_eq!(g.accept(false, b"Hel"), ("Hel".to_string(), true));
    assert_eq!(g.accept(false, &[0xC3]), (String::new(), true));
    assert_eq!(g.accept(false, &[0xA9, b'!', b' ']), ("é! ".to_string(), true));
    assert_eq!(g.accept(true, b"ignored"), (String::new(), false));
    assert_eq!(g.finish(), "Helé!");
    let mut lower = Generation::new(true);
    assert_eq!(lower.accept(false, b"HeLLo"), ("hello".to_string(), true));
}

#[test]
fn generation_stops_at_the_token_limit() {
    let mut g = Generation::new(false);
    for _ in 0..MAX_NEW_TOKENS - 1 {
        assert!(g.accept(false, b"x").1);
    }
    assert!(!g.accept(false, b"x").1);
}

#[test]
fn context_and_prompt_batches() {
    assert_eq!(context_size(10), 4122);
    assert_eq!(context_size(0), 4112);
    assert_eq!(prompt_chunk_end(0, 1000), 512);
    assert_eq!(prompt_chunk_end(512, 1000), 1000);
    assert_eq!(prompt_chunk_end(0, 3), 3);
}

#[test]
fn dictionary_addendum_lists_corrections() {
    assert_eq!(dictionary_addendum(&[]), "");
    let d = [DictEntry { from: "jon".into(), to: "John".into() }];
    assert_eq!(dictionary_addendum(&d), format!("{DICT_INTRO}- \"jon\" -> \"John\"\n"));
}

#[test]
fn cleanup_system_prompt_adds_user_instructions() {
    assert_eq!(cleanup_system_prompt(None, &[]), DEFAULT_CLEANUP_PROMPT);
    assert_eq!(cleanup_system_prompt(Some("  \n"), &[]), DEFAULT_CLEANUP_PROMPT);
    let d = [DictEntry { from: "a".into(), to: "b".into() }];
    assert_eq!(
        cleanup_system_prompt(Some("Be brief"), &d),
        format!(
            "{DEFAULT_CLEANUP_PROMPT}\n\nAdditional instructions from the user (apply alongside the rules above):\nBe brief{}",
            dictionary_addendum(&d)
        )
    );
}

#[test]
fn finds_styles_by_id() {
    let styles = vec![style("casual", &["hey"], "", false), style("formal", &[], "Be formal", false)];
    assert_eq!(find_style(&styles, Some("formal")).map(|s| s.name), Some("formal style".to_string()));
    assert!(find_style(&styles, Some("")).is_none());
    assert!(find_style(&styles, Some("nope")).is_none());
    assert!(find_style(&styles, None).is_none());
}

#[test]
fn style_addendum_includes_samples_and_rules() {
    let s = style("casual", &["  hey there  ", ""], "no caps", true);
    let text = style_addendum(&s);
    assert!(text.contains("\"casual style\""));
    assert!(text.contains("<style-sample 1>\nhey there\n</style-sample>\n"));
    assert!(!text.contains("<style-sample 2>"));
    assert!(text.contains("no caps\n"));
}

#[test]
fn cleanup_plan_wraps_transcript_and_demands_language() {
    let plan = cleanup_plan("SYS", "um hello", None, None, false);
    assert_eq!(plan.messages.len(), 6);
    assert_eq!(plan.messages[0].0, "system");
    assert!(plan.messages[0].1.starts_with("SYS\n\nOutput language: write the result in the same language"));
    assert_eq!(
        plan.messages[5].1,
        "<transcript>\num hello\n</transcript>\nReply in the same language as the transcript."
    );
    assert!(!plan.force_lowercase);
    let lower = style("l", &[], "", true);
    let plan = cleanup_plan("SYS", "x", Some(&lower), Some(" French "), false);
    assert!(plan.force_lowercase);
    assert!(plan.messages[5].1.ends_with("\nReply in French (translate)."));
    let plan = cleanup_plan("SYS", "x", None, Some("French"), true);
    assert!(plan.messages[5].1.ends_with("(transliterate, do not translate)."));
}

#[test]
fn cleaned_output_strips_echoed_tags() {
    assert_eq!(finish_cleanup("<transcript> Hello. </transcript>"), "Hello.");
    assert_eq!(finish_cleanup("  Hi\n"), "Hi");
}

#[test]
fn folds_system_messages_into_the_first_user_turn() {
    let folded = fold_system_messages(&vec![msg("system", "S"), msg("user", "U"), msg("assistant", "A"), msg("user", "V")]);
    assert_eq!(folded, vec![msg("user", "S\n\nU"), msg("assistant", "A"), msg("user", "V")]);
    let only = fold_system_messages(&vec![msg("system", "S1"), msg("system", "S2")]);
    assert_eq!(only, vec![msg("user", "S1\n\nS2")]);
}

#[test]
fn meeting_prompts() {
    let m = extract_messages("Me: hi\n");
    assert_eq!(m, vec![msg("system", MEETING_EXTRACT_PROMPT), msg("user", "Transcript:\n\nMe: hi\n")]);
    assert_eq!(facts_or_transcript("  ".to_string(), "T"), "T");
    assert_eq!(facts_or_transcript("F".to_string(), "T"), "F");
    assert_eq!(summary_messages("F")[1].1, "Extracted points:\n\nF");
    assert_eq!(question_messages("C", "Q?")[1].1, "C\n\nQuestion: Q?");
}
