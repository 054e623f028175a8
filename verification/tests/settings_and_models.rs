use unsound::models::{
    add_custom, all_models, builtin_registry, bundle_filenames, bundle_total, download_done,
    downloaded_name, find_model, model_file_name, progress_step, remove_custom, url_file_name_of,
    ModelKind, MB,
};
use unsound::remote::{
    chat_reply, chat_request, question_request_text, selected, summary_request_text, text_ready,
    voice_ready, voice_request,
};
use unsound::settings::{
    add_correction, load, set_cloud_settings, settings_from_raw, vocab_prompt, CloudProvider,
    DictEntry, RawSettings, Settings, DEFAULT_SHORTCUT,
};

fn raw() -> RawSettings {
    RawSettings {
        shortcut: None,
        hands_free: None,
        push_to_talk: None,
        mic_device: None,
        styles: None,
        default_style: None,
        dictionary: None,
        cloud_providers: None,
        cloud_voice_provider: None,
        cloud_text_provider: None,
    }
}

fn provider(id: &str, key: &str, voice: &str, text: &str) -> CloudProvider {
    CloudProvider { id: id.into(), api_key: key.into(), voice_model: voice.into(), text_model: text.into() }
}

fn entry(from: &str, to: &str) -> DictEntry {
    DictEntry { from: from.into(), to: to.into() }
}

#[test]
fn defaults_and_old_single_shortcut() {
    let s = load(None);
    assert_eq!(s.hands_free, vec![DEFAULT_SHORTCUT.to_string()]);
    assert!(s.dictionary.is_empty() && s.push_to_talk.is_empty());
    let old = settings_from_raw(RawSettings { shortcut: Some("alt+space".into()), ..raw() });
    assert_eq!(old.hands_free, vec!["alt+space".to_string()]);
    let blanked = settings_from_raw(RawSettings { shortcut: Some("  ".into()), ..raw() });
    assert!(blanked.hands_free.is_empty());
    let none = settings_from_raw(raw());
    assert_eq!(none.hands_free, vec![DEFAULT_SHORTCUT.to_string()]);
    let listed = settings_from_raw(RawSettings {
        shortcut: Some("alt+space".into()),
        hands_free: Some(vec!["fn".into()]),
        mic_device: Some("USB".into()),
        ..raw()
    });
    assert_eq!(listed.hands_free, vec!["fn".to_string()]);
    assert_eq!(listed.mic_device, "USB");
}

#[test]
fn corrections_replace_earlier_ones_ignoring_case() {
    let mut s = Settings::default();
    assert_eq!(
        add_correction(&mut s, " x ", "x").unwrap_err(),
        "correction needs a word and a different replacement"
    );
    assert_eq!(add_correction(&mut s, "", "y").unwrap_err(), "correction needs a word and a different replacement");
    add_correction(&mut s, "jon", "John").unwrap();
    add_correction(&mut s, "kate", "Cate").unwrap();
    add_correction(&mut s, " JON ", " Jon ").unwrap();
    let d: Vec<(String, String)> = s.dictionary.iter().map(|e| (e.from.clone(), e.to.clone())).collect();
    assert_eq!(d, vec![("kate".into(), "Cate".into()), ("JON".into(), "Jon".into())]);
}

#[test]
fn glossary_prompt_skips_blank_and_repeated_terms() {
    assert_eq!(vocab_prompt(&vec![]), None);
    let d = vec![entry("a", " Kubernetes "), entry("b", "  "), entry("c", "kubernetes"), entry("d", "Zig")];
    assert_eq!(vocab_prompt(&d), Some("Glossary: Kubernetes, Zig.".to_string()));
}

#[test]
fn cloud_settings_accept_known_providers_only() {
    let mut s = Settings::default();
    assert_eq!(
        set_cloud_settings(&mut s, vec![provider("acme", "k", "", "")], "acme".into(), "".into()).unwrap_err(),
        "unsupported cloud provider"
    );
    assert!(s.cloud_providers.is_empty());
    set_cloud_settings(&mut s, vec![provider("openai", "sk", "whisper-1", "gpt")], "openai".into(), "openai".into()).unwrap();
    assert_eq!(s.cloud_voice_provider, "openai");
    assert!(voice_ready(&s) && text_ready(&s));
}

#[test]
fn provider_selection_errors() {
    let mut s = Settings::default();
    assert_eq!(selected(&s, " ", "voice").err(), Some("choose a cloud voice provider in Settings first".to_string()));
    assert_eq!(selected(&s, "openai", "voice").err(), Some("cloud provider 'openai' is not configured".to_string()));
    s.cloud_providers = vec![provider("openai", "  ", "m", "t")];
    assert_eq!(selected(&s, "openai", "text").err(), Some("add an API key for openai in Settings".to_string()));
    assert!(!voice_ready(&s));
}

#[test]
fn voice_requests_per_provider() {
    let mut s = Settings::default();
    s.cloud_providers = vec![
        provider("openai", "sk", " whisper-1 ", ""),
        provider("deepgram", "dg", "nova-2", ""),
        provider("elevenlabs", "el", "scribe_v1", ""),
    ];
    s.cloud_voice_provider = "openai".into();
    let r = voice_request(&s, Some("de")).ok().unwrap();
    assert_eq!(r.url, "https://api.openai.com/v1/audio/transcriptions");
    assert_eq!(r.provider, "openai");
    assert_eq!((r.auth_header.as_str(), r.auth_value.as_str(), r.model.as_str()), ("authorization", "Bearer sk", "whisper-1"));
    let form = r.form.unwrap();
    assert_eq!((form.model_field.as_str(), form.language_field.as_str()), ("model", "language"));
    assert_eq!(form.language.as_deref(), Some("de"));
    s.cloud_voice_provider = "deepgram".into();
    let r = voice_request(&s, Some("")).ok().unwrap();
    assert_eq!(r.url, "https://api.deepgram.com/v1/listen?model=nova-2&smart_format=true");
    assert_eq!(r.auth_value, "Token dg");
    assert_eq!(r.provider, "deepgram");
    assert!(r.form.is_none());
    assert_eq!(r.text_pointer, "/results/channels/0/alternatives/0/transcript");
    s.cloud_voice_provider = "elevenlabs".into();
    let r = voice_request(&s, None).ok().unwrap();
    assert_eq!((r.auth_header.as_str(), r.auth_value.as_str()), ("xi-api-key", "el"));
    assert_eq!(r.form.unwrap().language, None);
}

#[test]
fn chat_requests_and_replies() {
    let mut s = Settings::default();
    s.cloud_providers = vec![provider("mistral", "m", "", " mistral-small "), provider("deepgram", "d", "", "x")];
    s.cloud_text_provider = "mistral".into();
    let q = chat_request(&s).ok().unwrap();
    assert_eq!(q.url, "https://api.mistral.ai/v1/chat/completions");
    assert_eq!((q.auth_value.as_str(), q.model.as_str()), ("Bearer m", "mistral-small"));
    s.cloud_text_provider = "deepgram".into();
    assert_eq!(chat_request(&s).err(), Some("deepgram is not available for meeting text; choose OpenAI or Mistral".to_string()));
    assert_eq!(chat_reply("openai", Some("  hi ")), Ok("hi".to_string()));
    assert_eq!(chat_reply("openai", Some("  ")), Err("openai returned no text".to_string()));
    assert_eq!(chat_reply("openai", None), Err("openai returned no text".to_string()));
    assert_eq!(summary_request_text("T"), "Transcript:\n\nT");
    assert_eq!(question_request_text("C", "Q"), "C\n\nQuestion: Q");
}

#[test]
fn registry_lookup() {
    let models = builtin_registry();
    assert_eq!(models.len(), 29);
    let mut ids: Vec<&str> = models.iter().map(|m| m.id.as_str()).collect();
    ids.sort();
    ids.dedup();
    assert_eq!(ids.len(), 29);
    let tiny = find_model(&models, "whisper-tiny").ok().unwrap();
    assert_eq!(tiny.kind, ModelKind::Stt);
    assert_eq!(model_file_name(&tiny), url_file_name_of(&tiny.url));
    assert!(find_model(&models, "nope").is_err());
    let vad = find_model(&models, "vad-silero").ok().unwrap();
    assert_eq!(vad.filename, "silero_vad.onnx");
    let moon = find_model(&models, "moonshine-base-en").ok().unwrap();
    assert_eq!(
        bundle_filenames(&moon),
        vec!["preprocess.onnx", "encode.int8.onnx", "uncached_decode.int8.onnx", "cached_decode.int8.onnx", "tokens.txt"]
    );
    assert_eq!(model_file_name(&moon), "moonshine-base-en");
}

#[test]
fn custom_models_come_and_go() {
    let mut customs = Vec::new();
    let m = add_custom(&mut customs, "Mine".into(), ModelKind::Llm, "https://x.org/a/My-Model.gguf?dl=1".into()).ok().unwrap();
    assert_eq!(m.id, "custom-my-model.gguf");
    assert_eq!(m.filename, "My-Model.gguf");
    assert!(m.custom && !m.downloaded);
    assert_eq!(
        add_custom(&mut customs, "Again".into(), ModelKind::Llm, "https://y.org/MY-MODEL.GGUF".into()).err(),
        Some("a custom model with that filename already exists".to_string())
    );
    assert_eq!(
        add_custom(&mut customs, "Bad".into(), ModelKind::Llm, "https://y.org/dir/".into()).err(),
        Some("could not derive a filename from that URL".to_string())
    );
    assert_eq!(all_models(customs.clone()).len(), 30);
    let found = find_model(&all_models(customs.clone()), "custom-my-model.gguf").ok().unwrap();
    assert_eq!((found.name.as_str(), found.url.as_str()), ("Mine", "https://x.org/a/My-Model.gguf?dl=1"));
    remove_custom(&mut customs, "custom-my-model.gguf");
    assert!(customs.is_empty());
}

#[test]
fn downloads() {
    let models = builtin_registry();
    let tiny = find_model(&models, "whisper-tiny").ok().unwrap();
    assert_eq!(downloaded_name(&tiny, false).err(), Some(format!("model '{}' is not downloaded yet", tiny.name)));
    assert_eq!(downloaded_name(&tiny, true).ok(), Some(tiny.filename.clone()));
    assert_eq!(progress_step(0, 0, MB), (MB, 0, false));
    assert_eq!(progress_step(2 * MB, 0, 1), (2 * MB + 1, 2 * MB + 1, true));
    assert_eq!(bundle_total(0), 1);
    assert_eq!(bundle_total(5), 5);
    let done = download_done("x", &Err("net".to_string()));
    assert!(!done.ok);
    assert_eq!(done.error.as_deref(), Some("net"));
    assert!(download_done("x", &Ok(())).ok);
}

#[test]
fn correction_is_remembered() {
    let mut s = Settings::default();
    s.dictionary = vec![DictEntry { from: "Teh".into(), to: "the".into() }];
    add_correction(&mut s, " teh ", " Verus ").unwrap();
    assert_eq!(s.dictionary.len(), 1);
    assert_eq!((s.dictionary[0].from.as_str(), s.dictionary[0].to.as_str()), ("teh", "Verus"));
    assert_eq!(vocab_prompt(&s.dictionary).as_deref(), Some("Glossary: Verus."));
    let note = unsound::llm::dictionary_addendum(&s.dictionary);
    assert!(note.ends_with("- \"teh\" -> \"Verus\"\n"));
}

#[test]
fn saved_settings_load_back() {
    let mut r = raw();
    r.hands_free = Some(vec![]);
    r.push_to_talk = Some(vec!["fn".into()]);
    r.mic_device = Some("USB Mic".into());
    r.default_style = Some("casual".into());
    r.dictionary = Some(vec![DictEntry { from: "jon".into(), to: "John".into() }]);
    r.cloud_voice_provider = Some("openai".into());
    r.cloud_text_provider = Some("mistral".into());
    let s = settings_from_raw(r);
    assert!(s.hands_free.is_empty());
    assert_eq!(s.push_to_talk, vec!["fn".to_string()]);
    assert_eq!(s.mic_device, "USB Mic");
    assert_eq!(s.default_style, "casual");
    assert_eq!(s.dictionary.len(), 1);
    assert_eq!((s.cloud_voice_provider.as_str(), s.cloud_text_provider.as_str()), ("openai", "mistral"));
}
