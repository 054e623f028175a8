//! The model library: the curated registry of downloadable speech, cleanup, diarization
//! and voice-activity models, user-added custom models, where each lives on disk, and
//! the progress a download reports.
use vstd::prelude::*;
use crate::text::{after_last, before_first, clone_strings, concat, lowercase, str_after_last,
    str_before_first, str_eq, strs, to_lowercase};

verus! {

/// What a model is for.
#[derive(Clone, Copy, PartialEq, Eq, Debug, Structural)]
pub enum ModelKind {
    /// Speech to text.
    Stt,
    /// Text cleanup and summaries.
    Llm,
    /// Speaker diarization (segmentation and embedding).
    Diarize,
    /// Voice-activity detection.
    Vad,
}

/// A model the app can download and use.
#[derive(Debug)]
pub struct ModelInfo {
    pub id: String,
    pub name: String,
    pub kind: ModelKind,
    pub url: String,
    pub filename: String,
    /// Approximate download size in bytes.
    pub size_bytes: u64,
    pub description: String,
    /// Human-readable language coverage.
    pub languages: String,
    /// Part of the recommended set offered at onboarding.
    pub recommended: bool,
    pub custom: bool,
    pub downloaded: bool,
    /// The file URLs of a multi-file model, which downloads into a directory named by
    /// its id; empty for a single-file model.
    pub files: Vec<String>,
}

pub struct ModelInfoView {
    pub id: Seq<char>,
    pub name: Seq<char>,
    pub kind: ModelKind,
    pub url: Seq<char>,
    pub filename: Seq<char>,
    pub size_bytes: u64,
    pub description: Seq<char>,
    pub languages: Seq<char>,
    pub recommended: bool,
    pub custom: bool,
    pub downloaded: bool,
    pub files: Seq<Seq<char>>,
}

impl View for ModelInfo {
    type V = ModelInfoView;

    open spec fn view(&self) -> ModelInfoView {
        ModelInfoView {
            id: self.id@,
            name: self.name@,
            kind: self.kind,
            url: self.url@,
            filename: self.filename@,
            size_bytes: self.size_bytes,
            description: self.description@,
            languages: self.languages@,
            recommended: self.recommended,
            custom: self.custom,
            downloaded: self.downloaded,
            files: strs(self.files@),
        }
    }
}

impl Clone for ModelInfo {
    fn clone(&self) -> (r: Self)
        ensures
            r@ == self@,
    {
        ModelInfo {
            id: self.id.clone(),
            name: self.name.clone(),
            kind: self.kind,
            url: self.url.clone(),
            filename: self.filename.clone(),
            size_bytes: self.size_bytes,
            description: self.description.clone(),
            languages: self.languages.clone(),
            recommended: self.recommended,
            custom: self.custom,
            downloaded: self.downloaded,
            files: clone_strings(&self.files),
        }
    }
}

/// Progress of a download: bytes so far of the total.
#[derive(Debug)]
pub struct DownloadProgress {
    pub id: String,
    pub downloaded: u64,
    pub total: u64,
}

/// The end of a download: whether it worked, and the error when it did not.
#[derive(Debug)]
pub struct DownloadDone {
    pub id: String,
    pub ok: bool,
    pub error: Option<String>,
}

pub open spec fn models_view(v: Seq<ModelInfo>) -> Seq<ModelInfoView> {
    v.map_values(|m: ModelInfo| m@)
}

/// The file name a download URL gives: the last path segment, query string left out.
pub open spec fn url_file_name(url: Seq<char>) -> Seq<char> {
    after_last(before_first(url, '?'), '/')
}

/// The file name a download URL gives.
pub fn url_file_name_of(url: &str) -> (r: String)
    ensures
        r@ == url_file_name(url@),
{
    let path = str_before_first(url, '?');
    str_after_last(path.as_str(), '/')
}

pub const MB: u64 = 1_000_000;
pub const GB: u64 = 1_000_000_000;
pub const WHISPER_LANGS: &'static str = "Multilingual · ~99 languages";
pub const EN_ONLY: &'static str = "English only";
pub const QWEN_LANGS: &'static str = "Multilingual · ~29 languages";
pub const LLAMA_LANGS: &'static str = "English + 7 languages (es, fr, de, it, pt, hi, th)";

/// A registry entry: single-file, named after the last segment of its URL.
pub open spec fn single_file_entry(m: ModelInfoView) -> bool {
    &&& m.files.len() == 0
    &&& m.filename == after_last(m.url, '/')
    &&& !m.custom
    &&& !m.downloaded
}

/// A registry entry: a bundle of files downloaded into a directory, with no single URL.
pub open spec fn bundle_entry(m: ModelInfoView) -> bool {
    &&& m.files.len() > 0
    &&& m.url.len() == 0
    &&& m.filename.len() == 0
    &&& !m.recommended
    &&& !m.custom
    &&& !m.downloaded
}

fn entry(
    id: &str,
    name: &str,
    kind: ModelKind,
    url: &str,
    size: u64,
    desc: &str,
    languages: &str,
    recommended: bool,
) -> (r: ModelInfo)
    ensures
        r@.id == id@,
        r@.kind == kind,
        r@.url == url@,
        r@.name == name@,
        r@.description == desc@,
        r@.languages == languages@,
        r@.size_bytes == size,
        r@.recommended == recommended,
        single_file_entry(r@),
{
    let r = ModelInfo {
        id: String::from_str(id),
        name: String::from_str(name),
        kind,
        url: String::from_str(url),
        filename: str_after_last(url, '/'),
        size_bytes: size,
        description: String::from_str(desc),
        languages: String::from_str(languages),
        recommended,
        custom: false,
        downloaded: false,
        files: Vec::new(),
    };
    assert(r@.files =~= Seq::<Seq<char>>::empty());
    r
}

fn bundle(
    id: &str,
    name: &str,
    kind: ModelKind,
    files: &[&str],
    size: u64,
    desc: &str,
    languages: &str,
) -> (r: ModelInfo)
    requires
        files@.len() > 0,
    ensures
        r@.id == id@,
        r@.kind == kind,
        r@.files == files@.map_values(|f: &str| f@),
        r@.name == name@,
        r@.description == desc@,
        r@.languages == languages@,
        r@.size_bytes == size,
        bundle_entry(r@),
{
    let mut fs: Vec<String> = Vec::new();
    let mut i: usize = 0;
    while i < files.len()
        invariant
            i <= files@.len(),
            strs(fs@) == files@.take(i as int).map_values(|f: &str| f@),
        decreases files.len() - i,
    {
        let ghost before = fs@;
        fs.push(String::from_str(files[i]));
        assert(strs(fs@) =~= strs(before).push(files@[i as int]@));
        assert(files@.take(i + 1) =~= files@.take(i as int).push(files@[i as int]));
        i = i + 1;
    }
    assert(files@.take(files@.len() as int) =~= files@);
    ModelInfo {
        id: String::from_str(id),
        name: String::from_str(name),
        kind,
        url: String::new(),
        filename: String::new(),
        size_bytes: size,
        description: String::from_str(desc),
        languages: String::from_str(languages),
        recommended: false,
        custom: false,
        downloaded: false,
        files: fs,
    }
}

/// The ids of the curated registry, in order.
pub open spec fn registry_ids() -> Seq<Seq<char>> {
    seq![
        "whisper-tiny"@,
        "whisper-base"@,
        "whisper-base-en"@,
        "whisper-small"@,
        "whisper-small-en"@,
        "whisper-medium"@,
        "whisper-large-v3-turbo"@,
        "whisper-large-v3"@,
        "indic-whisper-medium"@,
        "whisper-hindi2hinglish"@,
        "qwen2.5-1.5b"@,
        "qwen2.5-3b"@,
        "qwen3-4b"@,
        "gemma-3-4b"@,
        "qwen2.5-7b"@,
        "llama-3.1-8b"@,
        "llama-3.2-1b"@,
        "llama-3.2-3b"@,
        "qwen3-8b"@,
        "granite-3.3-8b"@,
        "gemma-3-12b"@,
        "phi-4-mini"@,
        "diarize-segmentation"@,
        "diarize-embedding"@,
        "diarize-embedding-titanet"@,
        "diarize-embedding-eres2netv2"@,
        "vad-silero"@,
        "moonshine-base-en"@,
        "parakeet-tdt-v3"@
    ]
}

/// The kinds of the curated registry, in order.
pub open spec fn registry_kinds() -> Seq<ModelKind> {
    seq![
        ModelKind::Stt,
        ModelKind::Stt,
        ModelKind::Stt,
        ModelKind::Stt,
        ModelKind::Stt,
        ModelKind::Stt,
        ModelKind::Stt,
        ModelKind::Stt,
        ModelKind::Stt,
        ModelKind::Stt,
        ModelKind::Llm,
        ModelKind::Llm,
        ModelKind::Llm,
        ModelKind::Llm,
        ModelKind::Llm,
        ModelKind::Llm,
        ModelKind::Llm,
        ModelKind::Llm,
        ModelKind::Llm,
        ModelKind::Llm,
        ModelKind::Llm,
        ModelKind::Llm,
        ModelKind::Diarize,
        ModelKind::Diarize,
        ModelKind::Diarize,
        ModelKind::Diarize,
        ModelKind::Vad,
        ModelKind::Stt,
        ModelKind::Stt
    ]
}

/// Which curated models are recommended, in order.
pub open spec fn registry_recommended() -> Seq<bool> {
    seq![false, false, false, true, false, false, false, false, false, false, false, false, true, false, false, false, false, false, false, false, false, false, true, true, false, false, true, false, false]
}

/// Where each curated model is downloaded from, in order: its file's URL, or the URLs
/// of the files of a multi-file model.
pub open spec fn registry_sources() -> Seq<Seq<Seq<char>>> {
    seq![
        seq!["https://huggingface.co/ggerganov/whisper.cpp/resolve/main/ggml-tiny.bin"@],
        seq!["https://huggingface.co/ggerganov/whisper.cpp/resolve/main/ggml-base.bin"@],
        seq!["https://huggingface.co/ggerganov/whisper.cpp/resolve/main/ggml-base.en.bin"@],
        seq!["https://huggingface.co/ggerganov/whisper.cpp/resolve/main/ggml-small.bin"@],
        seq!["https://huggingface.co/ggerganov/whisper.cpp/resolve/main/ggml-small.en.bin"@],
        seq!["https://huggingface.co/ggerganov/whisper.cpp/resolve/main/ggml-medium.bin"@],
        seq!["https://huggingface.co/ggerganov/whisper.cpp/resolve/main/ggml-large-v3-turbo.bin"@],
        seq!["https://huggingface.co/ggerganov/whisper.cpp/resolve/main/ggml-large-v3.bin"@],
        seq!["https://huggingface.co/rupind/indic-whisper-medium-gguf/resolve/main/ggml-indic-whisper-medium-q8_0.bin"@],
        seq!["https://huggingface.co/Marquestra/Whisper-Hindi2Hinglish-Apex-GGML/resolve/main/ggml-apex-hinglish-q8_0.bin"@],
        seq!["https://huggingface.co/Qwen/Qwen2.5-1.5B-Instruct-GGUF/resolve/main/qwen2.5-1.5b-instruct-q4_k_m.gguf"@],
        seq!["https://huggingface.co/Qwen/Qwen2.5-3B-Instruct-GGUF/resolve/main/qwen2.5-3b-instruct-q4_k_m.gguf"@],
        seq!["https://huggingface.co/unsloth/Qwen3-4B-Instruct-2507-GGUF/resolve/main/Qwen3-4B-Instruct-2507-Q4_K_M.gguf"@],
        seq!["https://huggingface.co/bartowski/google_gemma-3-4b-it-GGUF/resolve/main/google_gemma-3-4b-it-Q4_K_M.gguf"@],
        seq!["https://huggingface.co/bartowski/Qwen2.5-7B-Instruct-GGUF/resolve/main/Qwen2.5-7B-Instruct-Q4_K_M.gguf"@],
        seq!["https://huggingface.co/bartowski/Meta-Llama-3.1-8B-Instruct-GGUF/resolve/main/Meta-Llama-3.1-8B-Instruct-Q4_K_M.gguf"@],
        seq!["https://huggingface.co/bartowski/Llama-3.2-1B-Instruct-GGUF/resolve/main/Llama-3.2-1B-Instruct-Q4_K_M.gguf"@],
        seq!["https://huggingface.co/bartowski/Llama-3.2-3B-Instruct-GGUF/resolve/main/Llama-3.2-3B-Instruct-Q4_K_M.gguf"@],
        seq!["https://huggingface.co/unsloth/Qwen3-8B-GGUF/resolve/main/Qwen3-8B-Q4_K_M.gguf"@],
        seq!["https://huggingface.co/bartowski/ibm-granite_granite-3.3-8b-instruct-GGUF/resolve/main/ibm-granite_granite-3.3-8b-instruct-Q4_K_M.gguf"@],
        seq!["https://huggingface.co/unsloth/gemma-3-12b-it-GGUF/resolve/main/gemma-3-12b-it-Q4_K_M.gguf"@],
        seq!["https://huggingface.co/unsloth/Phi-4-mini-instruct-GGUF/resolve/main/Phi-4-mini-instruct-Q4_K_M.gguf"@],
        seq!["https://huggingface.co/csukuangfj/sherpa-onnx-pyannote-segmentation-3-0/resolve/main/model.onnx"@],
        seq!["https://github.com/k2-fsa/sherpa-onnx/releases/download/speaker-recongition-models/3dspeaker_speech_campplus_sv_zh_en_16k-common_advanced.onnx"@],
        seq!["https://github.com/k2-fsa/sherpa-onnx/releases/download/speaker-recongition-models/nemo_en_titanet_small.onnx"@],
        seq!["https://github.com/k2-fsa/sherpa-onnx/releases/download/speaker-recongition-models/3dspeaker_speech_eres2netv2_sv_zh-cn_16k-common.onnx"@],
        seq!["https://github.com/k2-fsa/sherpa-onnx/releases/download/asr-models/silero_vad.onnx"@],
        seq![
            "https://huggingface.co/csukuangfj/sherpa-onnx-moonshine-base-en-int8/resolve/main/preprocess.onnx"@,
            "https://huggingface.co/csukuangfj/sherpa-onnx-moonshine-base-en-int8/resolve/main/encode.int8.onnx"@,
            "https://huggingface.co/csukuangfj/sherpa-onnx-moonshine-base-en-int8/resolve/main/uncached_decode.int8.onnx"@,
            "https://huggingface.co/csukuangfj/sherpa-onnx-moonshine-base-en-int8/resolve/main/cached_decode.int8.onnx"@,
            "https://huggingface.co/csukuangfj/sherpa-onnx-moonshine-base-en-int8/resolve/main/tokens.txt"@
        ],
        seq![
            "https://huggingface.co/csukuangfj/sherpa-onnx-nemo-parakeet-tdt-0.6b-v3-int8/resolve/main/encoder.int8.onnx"@,
            "https://huggingface.co/csukuangfj/sherpa-onnx-nemo-parakeet-tdt-0.6b-v3-int8/resolve/main/decoder.int8.onnx"@,
            "https://huggingface.co/csukuangfj/sherpa-onnx-nemo-parakeet-tdt-0.6b-v3-int8/resolve/main/joiner.int8.onnx"@,
            "https://huggingface.co/csukuangfj/sherpa-onnx-nemo-parakeet-tdt-0.6b-v3-int8/resolve/main/tokens.txt"@
        ]
    ]
}

/// The download size of each curated model, in order, in bytes.
pub open spec fn registry_sizes() -> Seq<int> {
    seq![78 * MB, 148 * MB, 148 * MB, 488 * MB, 488 * MB, 1533 * MB, 1620 * MB, 3100 * MB, 824 * MB, 875 * MB, 1 * GB, 2 * GB, 2500 * MB, 2490 * MB, 4680 * MB, 4920 * MB, 808 * MB, 2020 * MB, 5030 * MB, 4950 * MB, 7300 * MB, 2500 * MB, 6 * MB, 28 * MB, 40 * MB, 72 * MB, 1 * MB, 210 * MB, 680 * MB]
}

/// The display name, description and language note of each curated model, in order.
pub open spec fn registry_texts() -> Seq<(Seq<char>, Seq<char>, Seq<char>)> {
    let names: Seq<Seq<char>> = seq![
        "Whisper Tiny"@,
        "Whisper Base"@,
        "Whisper Base (English)"@,
        "Whisper Small"@,
        "Whisper Small (English)"@,
        "Whisper Medium"@,
        "Whisper Large v3 Turbo"@,
        "Whisper Large v3"@,
        "IndicWhisper Medium"@,
        "Whisper Hindi→Hinglish (Apex)"@,
        "Qwen 2.5 1.5B Instruct (Q4_K_M)"@,
        "Qwen 2.5 3B Instruct (Q4_K_M)"@,
        "Qwen3 4B Instruct (Q4_K_M)"@,
        "Gemma 3 4B Instruct (Q4_K_M)"@,
        "Qwen 2.5 7B Instruct (Q4_K_M)"@,
        "Llama 3.1 8B Instruct (Q4_K_M)"@,
        "Llama 3.2 1B Instruct (Q4_K_M)"@,
        "Llama 3.2 3B Instruct (Q4_K_M)"@,
        "Qwen3 8B Instruct (Q4_K_M)"@,
        "Granite 3.3 8B Instruct (Q4_K_M)"@,
        "Gemma 3 12B Instruct (Q4_K_M)"@,
        "Phi-4 mini Instruct (Q4_K_M)"@,
        "Speaker segmentation (pyannote)"@,
        "Speaker embeddings (3D-Speaker CAM++)"@,
        "Speaker embeddings (NeMo TitaNet)"@,
        "Speaker embeddings (3D-Speaker ERes2NetV2)"@,
        "Voice activity detection (Silero)"@,
        "Moonshine Base (English, fast)"@,
        "Parakeet TDT v3 (multilingual, fast)"@
    ];
    let descriptions: Seq<Seq<char>> = seq![
        "Fastest, lowest accuracy. Good for quick tests."@,
        "Fast with reasonable accuracy."@,
        "Slightly better than Base when you only speak English."@,
        "Good balance of speed and accuracy."@,
        "Slightly better than Small when you only speak English."@,
        "High accuracy, slower."@,
        "Best accuracy at near-medium speed."@,
        "Most accurate; slower. Best for hard audio and non-English (Hindi/Urdu/Punjabi)."@,
        "AI4Bharat fine-tune for Indian languages; strongest on Hindi (helps Urdu too)."@,
        "Hindi dictation that outputs romanized Hinglish; great for Hindi/Urdu in Latin script."@,
        "Small and fast; fine for light cleanup."@,
        "Solid mid-size cleanup model."@,
        "Recommended default: near-7B quality at close to 3B speed."@,
        "Natural prose and broad language coverage."@,
        "Noticeably smarter cleanup; best choice for writing styles."@,
        "Strong instruction following and style mimicry."@,
        "Very fast, lighter cleanup quality."@,
        "Strong quality for its size."@,
        "Sharper cleanup and summaries than Qwen3 4B; better at context and homophones."@,
        "IBM model tuned for summarization and extraction with 128K context — well suited to meeting notes."@,
        "High-quality cleanup and summaries with the best multilingual coverage. Wants ~16GB RAM."@,
        "Small and fast with strong reasoning; a good quick pick for English cleanup."@,
        "Finds speech and speaker-change points in a meeting."@,
        "Tells voices apart to label Speaker 1, Speaker 2, … Good all-round default."@,
        "Larger, English-tuned. Often separates similar voices better."@,
        "Most accurate; built for short utterances, so it over-splits less."@,
        "Chunks meeting audio on natural pauses so words aren't cut mid-sentence."@,
        "Low-latency English transcription for live meetings. English only."@,
        "Fast, accurate transcription for live meetings; ~25 European languages."@
    ];
    let languages: Seq<Seq<char>> = seq![
        WHISPER_LANGS@,
        WHISPER_LANGS@,
        EN_ONLY@,
        WHISPER_LANGS@,
        EN_ONLY@,
        WHISPER_LANGS@,
        WHISPER_LANGS@,
        WHISPER_LANGS@,
        "Hindi + Indic languages"@,
        "Hindi / Hinglish (romanized)"@,
        QWEN_LANGS@,
        QWEN_LANGS@,
        QWEN_LANGS@,
        "Multilingual · 140+ languages"@,
        QWEN_LANGS@,
        LLAMA_LANGS@,
        LLAMA_LANGS@,
        LLAMA_LANGS@,
        QWEN_LANGS@,
        "Multilingual · 12 languages"@,
        "Multilingual · 140+ languages"@,
        "English + multilingual"@,
        "Language-independent"@,
        "Language-independent"@,
        "English"@,
        "Language-independent"@,
        "Language-independent"@,
        "English"@,
        "Multilingual · ~25 languages"@
    ];
    Seq::new(names.len(), |i: int| (names[i], descriptions[i], languages[i]))
}

/// Where a model is downloaded from: its URL, or its files' URLs.
pub open spec fn sources_of(m: ModelInfoView) -> Seq<Seq<char>> {
    if m.files.len() == 0 {
        seq![m.url]
    } else {
        m.files
    }
}

/// The curated models: whisper.cpp speech models, llama.cpp cleanup models, the
/// diarization and voice-activity models, and the multi-file sherpa speech models.
#[verifier::rlimit(100)]
pub fn builtin_registry() -> (r: Vec<ModelInfo>)
    ensures
        r@.len() == registry_ids().len(),
        forall|i: int| 0 <= i < r@.len() ==> (#[trigger] r@[i])@.id == registry_ids()[i],
        forall|i: int| 0 <= i < r@.len() ==> (#[trigger] r@[i])@.kind == registry_kinds()[i],
        forall|i: int|
            0 <= i < r@.len() ==> single_file_entry((#[trigger] r@[i])@) && r@[i]@.recommended
                == registry_recommended()[i] || bundle_entry(r@[i]@) && !registry_recommended()[i],
        forall|i: int| 0 <= i < r@.len() ==> sources_of((#[trigger] r@[i])@) == registry_sources()[i],
        forall|i: int| 0 <= i < r@.len() ==> (#[trigger] r@[i])@.size_bytes == registry_sizes()[i],
        forall|i: int|
            0 <= i < r@.len() ==> ((#[trigger] r@[i])@.name, r@[i]@.description, r@[i]@.languages)
                == registry_texts()[i],
{
    let mut v: Vec<ModelInfo> = Vec::new();
    v.push(entry("whisper-tiny", "Whisper Tiny", ModelKind::Stt, "https://huggingface.co/ggerganov/whisper.cpp/resolve/main/ggml-tiny.bin", 78 * MB, "Fastest, lowest accuracy. Good for quick tests.", WHISPER_LANGS, false));
    v.push(entry("whisper-base", "Whisper Base", ModelKind::Stt, "https://huggingface.co/ggerganov/whisper.cpp/resolve/main/ggml-base.bin", 148 * MB, "Fast with reasonable accuracy.", WHISPER_LANGS, false));
    v.push(entry("whisper-base-en", "Whisper Base (English)", ModelKind::Stt, "https://huggingface.co/ggerganov/whisper.cpp/resolve/main/ggml-base.en.bin", 148 * MB, "Slightly better than Base when you only speak English.", EN_ONLY, false));
    v.push(entry("whisper-small", "Whisper Small", ModelKind::Stt, "https://huggingface.co/ggerganov/whisper.cpp/resolve/main/ggml-small.bin", 488 * MB, "Good balance of speed and accuracy.", WHISPER_LANGS, true));
    v.push(entry("whisper-small-en", "Whisper Small (English)", ModelKind::Stt, "https://huggingface.co/ggerganov/whisper.cpp/resolve/main/ggml-small.en.bin", 488 * MB, "Slightly better than Small when you only speak English.", EN_ONLY, false));
    v.push(entry("whisper-medium", "Whisper Medium", ModelKind::Stt, "https://huggingface.co/ggerganov/whisper.cpp/resolve/main/ggml-medium.bin", 1533 * MB, "High accuracy, slower.", WHISPER_LANGS, false));
    v.push(entry("whisper-large-v3-turbo", "Whisper Large v3 Turbo", ModelKind::Stt, "https://huggingface.co/ggerganov/whisper.cpp/resolve/main/ggml-large-v3-turbo.bin", 1620 * MB, "Best accuracy at near-medium speed.", WHISPER_LANGS, false));
    v.push(entry("whisper-large-v3", "Whisper Large v3", ModelKind::Stt, "https://huggingface.co/ggerganov/whisper.cpp/resolve/main/ggml-large-v3.bin", 3100 * MB, "Most accurate; slower. Best for hard audio and non-English (Hindi/Urdu/Punjabi).", WHISPER_LANGS, false));
    v.push(entry("indic-whisper-medium", "IndicWhisper Medium", ModelKind::Stt, "https://huggingface.co/rupind/indic-whisper-medium-gguf/resolve/main/ggml-indic-whisper-medium-q8_0.bin", 824 * MB, "AI4Bharat fine-tune for Indian languages; strongest on Hindi (helps Urdu too).", "Hindi + Indic languages", false));
    v.push(entry("whisper-hindi2hinglish", "Whisper Hindi→Hinglish (Apex)", ModelKind::Stt, "https://huggingface.co/Marquestra/Whisper-Hindi2Hinglish-Apex-GGML/resolve/main/ggml-apex-hinglish-q8_0.bin", 875 * MB, "Hindi dictation that outputs romanized Hinglish; great for Hindi/Urdu in Latin script.", "Hindi / Hinglish (romanized)", false));
    v.push(entry("qwen2.5-1.5b", "Qwen 2.5 1.5B Instruct (Q4_K_M)", ModelKind::Llm, "https://huggingface.co/Qwen/Qwen2.5-1.5B-Instruct-GGUF/resolve/main/qwen2.5-1.5b-instruct-q4_k_m.gguf", 1 * GB, "Small and fast; fine for light cleanup.", QWEN_LANGS, false));
    v.push(entry("qwen2.5-3b", "Qwen 2.5 3B Instruct (Q4_K_M)", ModelKind::Llm, "https://huggingface.co/Qwen/Qwen2.5-3B-Instruct-GGUF/resolve/main/qwen2.5-3b-instruct-q4_k_m.gguf", 2 * GB, "Solid mid-size cleanup model.", QWEN_LANGS, false));
    v.push(entry("qwen3-4b", "Qwen3 4B Instruct (Q4_K_M)", ModelKind::Llm, "https://huggingface.co/unsloth/Qwen3-4B-Instruct-2507-GGUF/resolve/main/Qwen3-4B-Instruct-2507-Q4_K_M.gguf", 2500 * MB, "Recommended default: near-7B quality at close to 3B speed.", QWEN_LANGS, true));
    v.push(entry("gemma-3-4b", "Gemma 3 4B Instruct (Q4_K_M)", ModelKind::Llm, "https://huggingface.co/bartowski/google_gemma-3-4b-it-GGUF/resolve/main/google_gemma-3-4b-it-Q4_K_M.gguf", 2490 * MB, "Natural prose and broad language coverage.", "Multilingual · 140+ languages", false));
    v.push(entry("qwen2.5-7b", "Qwen 2.5 7B Instruct (Q4_K_M)", ModelKind::Llm, "https://huggingface.co/bartowski/Qwen2.5-7B-Instruct-GGUF/resolve/main/Qwen2.5-7B-Instruct-Q4_K_M.gguf", 4680 * MB, "Noticeably smarter cleanup; best choice for writing styles.", QWEN_LANGS, false));
    v.push(entry("llama-3.1-8b", "Llama 3.1 8B Instruct (Q4_K_M)", ModelKind::Llm, "https://huggingface.co/bartowski/Meta-Llama-3.1-8B-Instruct-GGUF/resolve/main/Meta-Llama-3.1-8B-Instruct-Q4_K_M.gguf", 4920 * MB, "Strong instruction following and style mimicry.", LLAMA_LANGS, false));
    v.push(entry("llama-3.2-1b", "Llama 3.2 1B Instruct (Q4_K_M)", ModelKind::Llm, "https://huggingface.co/bartowski/Llama-3.2-1B-Instruct-GGUF/resolve/main/Llama-3.2-1B-Instruct-Q4_K_M.gguf", 808 * MB, "Very fast, lighter cleanup quality.", LLAMA_LANGS, false));
    v.push(entry("llama-3.2-3b", "Llama 3.2 3B Instruct (Q4_K_M)", ModelKind::Llm, "https://huggingface.co/bartowski/Llama-3.2-3B-Instruct-GGUF/resolve/main/Llama-3.2-3B-Instruct-Q4_K_M.gguf", 2020 * MB, "Strong quality for its size.", LLAMA_LANGS, false));
    v.push(entry("qwen3-8b", "Qwen3 8B Instruct (Q4_K_M)", ModelKind::Llm, "https://huggingface.co/unsloth/Qwen3-8B-GGUF/resolve/main/Qwen3-8B-Q4_K_M.gguf", 5030 * MB, "Sharper cleanup and summaries than Qwen3 4B; better at context and homophones.", QWEN_LANGS, false));
    v.push(entry("granite-3.3-8b", "Granite 3.3 8B Instruct (Q4_K_M)", ModelKind::Llm, "https://huggingface.co/bartowski/ibm-granite_granite-3.3-8b-instruct-GGUF/resolve/main/ibm-granite_granite-3.3-8b-instruct-Q4_K_M.gguf", 4950 * MB, "IBM model tuned for summarization and extraction with 128K context — well suited to meeting notes.", "Multilingual · 12 languages", false));
    v.push(entry("gemma-3-12b", "Gemma 3 12B Instruct (Q4_K_M)", ModelKind::Llm, "https://huggingface.co/unsloth/gemma-3-12b-it-GGUF/resolve/main/gemma-3-12b-it-Q4_K_M.gguf", 7300 * MB, "High-quality cleanup and summaries with the best multilingual coverage. Wants ~16GB RAM.", "Multilingual · 140+ languages", false));
    v.push(entry("phi-4-mini", "Phi-4 mini Instruct (Q4_K_M)", ModelKind::Llm, "https://huggingface.co/unsloth/Phi-4-mini-instruct-GGUF/resolve/main/Phi-4-mini-instruct-Q4_K_M.gguf", 2500 * MB, "Small and fast with strong reasoning; a good quick pick for English cleanup.", "English + multilingual", false));
    v.push(entry("diarize-segmentation", "Speaker segmentation (pyannote)", ModelKind::Diarize, "https://huggingface.co/csukuangfj/sherpa-onnx-pyannote-segmentation-3-0/resolve/main/model.onnx", 6 * MB, "Finds speech and speaker-change points in a meeting.", "Language-independent", true));
    v.push(entry("diarize-embedding", "Speaker embeddings (3D-Speaker CAM++)", ModelKind::Diarize, "https://github.com/k2-fsa/sherpa-onnx/releases/download/speaker-recongition-models/3dspeaker_speech_campplus_sv_zh_en_16k-common_advanced.onnx", 28 * MB, "Tells voices apart to label Speaker 1, Speaker 2, … Good all-round default.", "Language-independent", true));
    v.push(entry("diarize-embedding-titanet", "Speaker embeddings (NeMo TitaNet)", ModelKind::Diarize, "https://github.com/k2-fsa/sherpa-onnx/releases/download/speaker-recongition-models/nemo_en_titanet_small.onnx", 40 * MB, "Larger, English-tuned. Often separates similar voices better.", "English", false));
    v.push(entry("diarize-embedding-eres2netv2", "Speaker embeddings (3D-Speaker ERes2NetV2)", ModelKind::Diarize, "https://github.com/k2-fsa/sherpa-onnx/releases/download/speaker-recongition-models/3dspeaker_speech_eres2netv2_sv_zh-cn_16k-common.onnx", 72 * MB, "Most accurate; built for short utterances, so it over-splits less.", "Language-independent", false));
    v.push(entry("vad-silero", "Voice activity detection (Silero)", ModelKind::Vad, "https://github.com/k2-fsa/sherpa-onnx/releases/download/asr-models/silero_vad.onnx", 1 * MB, "Chunks meeting audio on natural pauses so words aren't cut mid-sentence.", "Language-independent", true));
    v.push(bundle("moonshine-base-en", "Moonshine Base (English, fast)", ModelKind::Stt, &["https://huggingface.co/csukuangfj/sherpa-onnx-moonshine-base-en-int8/resolve/main/preprocess.onnx", "https://huggingface.co/csukuangfj/sherpa-onnx-moonshine-base-en-int8/resolve/main/encode.int8.onnx", "https://huggingface.co/csukuangfj/sherpa-onnx-moonshine-base-en-int8/resolve/main/uncached_decode.int8.onnx", "https://huggingface.co/csukuangfj/sherpa-onnx-moonshine-base-en-int8/resolve/main/cached_decode.int8.onnx", "https://huggingface.co/csukuangfj/sherpa-onnx-moonshine-base-en-int8/resolve/main/tokens.txt"], 210 * MB, "Low-latency English transcription for live meetings. English only.", "English"));
    v.push(bundle("parakeet-tdt-v3", "Parakeet TDT v3 (multilingual, fast)", ModelKind::Stt, &["https://huggingface.co/csukuangfj/sherpa-onnx-nemo-parakeet-tdt-0.6b-v3-int8/resolve/main/encoder.int8.onnx", "https://huggingface.co/csukuangfj/sherpa-onnx-nemo-parakeet-tdt-0.6b-v3-int8/resolve/main/decoder.int8.onnx", "https://huggingface.co/csukuangfj/sherpa-onnx-nemo-parakeet-tdt-0.6b-v3-int8/resolve/main/joiner.int8.onnx", "https://huggingface.co/csukuangfj/sherpa-onnx-nemo-parakeet-tdt-0.6b-v3-int8/resolve/main/tokens.txt"], 680 * MB, "Fast, accurate transcription for live meetings; ~25 European languages.", "Multilingual · ~25 languages"));
    v
}


/// The file names a multi-file model expects on disk, from its URLs.
pub fn bundle_filenames(info: &ModelInfo) -> (r: Vec<String>)
    ensures
        strs(r@) == info@.files.map_values(|u: Seq<char>| url_file_name(u)),
{
    let mut out: Vec<String> = Vec::new();
    let mut i: usize = 0;
    while i < info.files.len()
        invariant
            i <= info.files@.len(),
            strs(out@) == info@.files.take(i as int).map_values(|u: Seq<char>| url_file_name(u)),
        decreases info.files.len() - i,
    {
        let f = url_file_name_of(info.files[i].as_str());
        let ghost before = out@;
        let ghost fv = f@;
        assert(info@.files[i as int] == info.files@[i as int]@);
        out.push(f);
        assert(strs(out@) =~= strs(before).push(fv));
        assert(info@.files.take(i + 1) =~= info@.files.take(i as int).push(info@.files[i as int]));
        assert(strs(out@) =~= info@.files.take(i + 1).map_values(|u: Seq<char>| url_file_name(u)));
        i = i + 1;
    }
    assert(info@.files.take(info@.files.len() as int) =~= info@.files);
    out
}

/// The name of a model's place in the models directory: its file for a single-file
/// model, a directory named by its id for a multi-file one.
pub open spec fn disk_name(m: ModelInfoView) -> Seq<char> {
    if m.files.len() == 0 {
        m.filename
    } else {
        m.id
    }
}

/// The name of a model's place in the models directory.
pub fn model_file_name(info: &ModelInfo) -> (r: String)
    ensures
        r@ == disk_name(info@),
{
    if info.files.len() == 0 {
        info.filename.clone()
    } else {
        info.id.clone()
    }
}

/// Every model: the curated registry, then the custom ones.
pub fn all_models(customs: Vec<ModelInfo>) -> (r: Vec<ModelInfo>)
    ensures
        r@.len() == registry_ids().len() + customs@.len(),
        forall|i: int| 0 <= i < registry_ids().len() ==> (#[trigger] r@[i])@.id == registry_ids()[i],
        forall|i: int| 0 <= i < customs@.len() ==> r@[registry_ids().len() + i] == #[trigger] customs@[i],
        lists_all(models_view(r@), models_view(customs@)),
{
    let mut r = builtin_registry();
    let mut c = customs;
    let ghost start = r@;
    let ghost cs = c@;
    r.append(&mut c);
    assert(r@ == start + cs);
    proof {
        let ms = models_view(r@);
        let cv = models_view(cs);
        assert forall|i: int| 0 <= i < cv.len() implies ms[registry_ids().len() + i] == #[trigger] cv[i] by {
            assert(r@[registry_ids().len() + i] == cs[i]);
        }
        assert forall|i: int| 0 <= i < registry_ids().len() implies (#[trigger] ms[i]).id == registry_ids()[i] by {
            assert(ms[i] == r@[i]@);
        }
    }
    r
}

/// Whether `ms` lists the curated models, in order, and then the custom models `customs`.
pub open spec fn lists_all(ms: Seq<ModelInfoView>, customs: Seq<ModelInfoView>) -> bool {
    &&& ms.len() == registry_ids().len() + customs.len()
    &&& forall|i: int| 0 <= i < registry_ids().len() ==> (#[trigger] ms[i]).id == registry_ids()[i]
    &&& forall|i: int| 0 <= i < customs.len() ==> ms[registry_ids().len() + i] == #[trigger] customs[i]
}

/// The position of the first model with id `id`, if any.
pub open spec fn first_with_id(ms: Seq<ModelInfoView>, id: Seq<char>) -> Option<int> {
    if exists|i: int| 0 <= i < ms.len() && (#[trigger] ms[i]).id == id {
        Some(
            choose|i: int|
                0 <= i < ms.len() && (#[trigger] ms[i]).id == id && forall|j: int|
                    0 <= j < i ==> (#[trigger] ms[j]).id != id,
        )
    } else {
        None
    }
}

fn position_of(models: &Vec<ModelInfo>, id: &str) -> (r: Option<usize>)
    ensures
        match r {
            Some(i) => i < models@.len() && models@[i as int]@.id == id@ && forall|j: int|
                0 <= j < i ==> (#[trigger] models@[j])@.id != id@,
            None => forall|j: int| 0 <= j < models@.len() ==> (#[trigger] models@[j])@.id != id@,
        },
{
    let mut i: usize = 0;
    while i < models.len()
        invariant
            i <= models@.len(),
            forall|j: int| 0 <= j < i ==> (#[trigger] models@[j])@.id != id@,
        decreases models.len() - i,
    {
        if str_eq(models[i].id.as_str(), id) {
            return Some(i);
        }
        i = i + 1;
    }
    None
}

proof fn lemma_first_with_id(ms: Seq<ModelInfoView>, id: Seq<char>, i: int)
    requires
        0 <= i < ms.len(),
        ms[i].id == id,
        forall|j: int| 0 <= j < i ==> (#[trigger] ms[j]).id != id,
    ensures
        first_with_id(ms, id) == Some(i),
{
    let k = choose|k: int|
        0 <= k < ms.len() && (#[trigger] ms[k]).id == id && forall|j: int|
            0 <= j < k ==> (#[trigger] ms[j]).id != id;
    if k < i {
        assert(ms[k].id != id);
    } else if k > i {
        assert(ms[i].id != id);
    }
}

/// The first model with id `id`; an error naming the id when there is none.
pub fn find_model(models: &Vec<ModelInfo>, id: &str) -> (r: Result<ModelInfo, String>)
    ensures
        match first_with_id(models_view(models@), id@) {
            Some(i) => r matches Ok(m) && m@ == models@[i]@,
            None => r matches Err(e) && e@ == "unknown model id: "@ + id@,
        },
{
    let ghost ms = models_view(models@);
    match position_of(models, id) {
        Some(i) => {
            proof {
                assert forall|j: int| 0 <= j < i implies (#[trigger] ms[j]).id != id@ by {
                    assert(ms[j] == models@[j]@);
                }
                lemma_first_with_id(ms, id@, i as int);
            }
            Ok(models[i].clone())
        },
        None => {
            assert forall|j: int| 0 <= j < ms.len() implies (#[trigger] ms[j]).id != id@ by {
                assert(ms[j] == models@[j]@);
            }
            Err(concat("unknown model id: ", id))
        },
    }
}

/// The custom model a URL adds: named after the URL's file, with id `custom-` and that
/// name in lower case.
pub open spec fn custom_model(name: Seq<char>, kind: ModelKind, url: Seq<char>) -> ModelInfoView {
    ModelInfoView {
        id: "custom-"@ + lowercase(url_file_name(url)),
        name,
        kind,
        url,
        filename: url_file_name(url),
        size_bytes: 0,
        description: "Custom model"@,
        languages: seq![],
        recommended: false,
        custom: true,
        downloaded: false,
        files: seq![],
    }
}

/// Adds a custom model downloaded from `url` to `customs` and returns it. Errors,
/// changing nothing, when the URL names no file, and when a custom model with the same
/// id exists.
pub fn add_custom(customs: &mut Vec<ModelInfo>, name: String, kind: ModelKind, url: String) -> (r: Result<ModelInfo, String>)
    ensures
        ({
            let m = custom_model(name@, kind, url@);
            if url_file_name(url@).len() == 0 {
                r matches Err(e) && e@ == "could not derive a filename from that URL"@
                    && final(customs)@ == old(customs)@
            } else if exists|i: int| 0 <= i < old(customs)@.len() && (#[trigger] old(customs)@[i])@.id
                == m.id {
                r matches Err(e) && e@ == "a custom model with that filename already exists"@
                    && final(customs)@ == old(customs)@
            } else {
                &&& r matches Ok(x) && x@ == m
                &&& models_view(final(customs)@) == models_view(old(customs)@).push(m)
            }
        }),
{
    let filename = url_file_name_of(url.as_str());
    if filename.as_str().is_empty() {
        return Err(String::from_str("could not derive a filename from that URL"));
    }
    let id = concat("custom-", to_lowercase(filename.as_str()).as_str());
    match position_of(customs, id.as_str()) {
        Some(_) => {
            return Err(String::from_str("a custom model with that filename already exists"));
        },
        None => {},
    }
    let info = ModelInfo {
        id,
        name,
        kind,
        url,
        filename,
        size_bytes: 0,
        description: String::from_str("Custom model"),
        languages: String::new(),
        recommended: false,
        custom: true,
        downloaded: false,
        files: Vec::new(),
    };
    assert(info@.files =~= Seq::<Seq<char>>::empty());
    assert(info@ == custom_model(name@, kind, url@));
    let ghost before = customs@;
    customs.push(info.clone());
    assert(models_view(customs@) =~= models_view(before).push(info@));
    Ok(info)
}

/// The custom models without the ones with id `id`.
pub open spec fn without_id(ms: Seq<ModelInfoView>, id: Seq<char>) -> Seq<ModelInfoView>
    decreases ms.len(),
{
    if ms.len() == 0 {
        seq![]
    } else if ms.last().id == id {
        without_id(ms.drop_last(), id)
    } else {
        without_id(ms.drop_last(), id).push(ms.last())
    }
}

/// Forgets the custom models with id `id`.
pub fn remove_custom(customs: &mut Vec<ModelInfo>, id: &str)
    ensures
        models_view(final(customs)@) == without_id(models_view(old(customs)@), id@),
{
    let ghost ms = models_view(customs@);
    let mut kept: Vec<ModelInfo> = Vec::new();
    let mut i: usize = 0;
    while i < customs.len()
        invariant
            ms == models_view(customs@),
            i <= customs@.len(),
            models_view(kept@) == without_id(ms.take(i as int), id@),
        decreases customs.len() - i,
    {
        assert(ms.take(i + 1).drop_last() =~= ms.take(i as int));
        assert(ms.take(i + 1).last() == customs@[i as int]@);
        if !str_eq(customs[i].id.as_str(), id) {
            let ghost before = kept@;
            let c = customs[i].clone();
            kept.push(c);
            assert(models_view(kept@) =~= models_view(before).push(customs@[i as int]@));
        }
        i = i + 1;
    }
    assert(ms.take(ms.len() as int) =~= ms);
    *customs = kept;
}

/// A model's place in the models directory, once it is downloaded; an error naming the
/// model when it is not.
pub fn downloaded_name(info: &ModelInfo, downloaded: bool) -> (r: Result<String, String>)
    ensures
        downloaded ==> (r matches Ok(n) && n@ == disk_name(info@)),
        !downloaded ==> (r matches Err(e) && e@ == "model '"@ + info@.name
            + "' is not downloaded yet"@),
{
    if !downloaded {
        let mut e = String::from_str("model '");
        e.append(info.name.as_str());
        e.append("' is not downloaded yet");
        return Err(e);
    }
    Ok(model_file_name(info))
}

/// The step a download takes on a chunk of `chunk` bytes: the new byte count, the count
/// at the last progress report, and whether to report now (more than 2 MB since the last
/// report).
pub open spec fn progress_after(downloaded: u64, last_emit: u64, chunk: u64) -> (u64, u64, bool) {
    let d = (downloaded + chunk) as u64;
    if d - last_emit > 2 * MB {
        (d, d, true)
    } else {
        (d, last_emit, false)
    }
}

/// One step of a download's progress reporting.
pub fn progress_step(downloaded: u64, last_emit: u64, chunk: u64) -> (r: (u64, u64, bool))
    requires
        downloaded + chunk <= u64::MAX,
        last_emit <= downloaded,
    ensures
        r == progress_after(downloaded, last_emit, chunk),
        r.1 <= r.0,
{
    let d = downloaded + chunk;
    if d - last_emit > 2 * MB {
        (d, d, true)
    } else {
        (d, last_emit, false)
    }
}

/// The total a multi-file download reports progress against: the model's size, at least 1.
pub fn bundle_total(size_bytes: u64) -> (r: u64)
    ensures
        r == if size_bytes > 1 { size_bytes } else { 1 },
{
    if size_bytes > 1 { size_bytes } else { 1 }
}

/// The announcement that the download of `id` ended with `result`.
pub fn download_done(id: &str, result: &Result<(), String>) -> (r: DownloadDone)
    ensures
        r.id@ == id@,
        r.ok == result is Ok,
        match result {
            Ok(_) => r.error is None,
            Err(e) => r.error matches Some(x) && x@ == e@,
        },
{
    DownloadDone {
        id: String::from_str(id),
        ok: result.is_ok(),
        error: match result {
            Ok(_) => None,
            Err(e) => Some(e.clone()),
        },
    }
}


/// No two curated models share an id, so looking one up by id is unambiguous.
#[verifier::rlimit(100)]
pub proof fn law_registry_ids_distinct()
    ensures
        forall|i: int, j: int|
            0 <= i < j < registry_ids().len() ==> registry_ids()[i] != registry_ids()[j],
{
    reveal_strlit("whisper-tiny");
    reveal_strlit("whisper-base");
    reveal_strlit("whisper-base-en");
    reveal_strlit("whisper-small");
    reveal_strlit("whisper-small-en");
    reveal_strlit("whisper-medium");
    reveal_strlit("whisper-large-v3-turbo");
    reveal_strlit("whisper-large-v3");
    reveal_strlit("indic-whisper-medium");
    reveal_strlit("whisper-hindi2hinglish");
    reveal_strlit("qwen2.5-1.5b");
    reveal_strlit("qwen2.5-3b");
    reveal_strlit("qwen3-4b");
    reveal_strlit("gemma-3-4b");
    reveal_strlit("qwen2.5-7b");
    reveal_strlit("llama-3.1-8b");
    reveal_strlit("llama-3.2-1b");
    reveal_strlit("llama-3.2-3b");
    reveal_strlit("qwen3-8b");
    reveal_strlit("granite-3.3-8b");
    reveal_strlit("gemma-3-12b");
    reveal_strlit("phi-4-mini");
    reveal_strlit("diarize-segmentation");
    reveal_strlit("diarize-embedding");
    reveal_strlit("diarize-embedding-titanet");
    reveal_strlit("diarize-embedding-eres2netv2");
    reveal_strlit("vad-silero");
    reveal_strlit("moonshine-base-en");
    reveal_strlit("parakeet-tdt-v3");
    assert forall|i: int, j: int| 0 <= i < j < registry_ids().len() implies registry_ids()[i]
        != registry_ids()[j] by {
        if i == 0 {
            if j == 1 {
                assert(registry_ids()[0][8] != registry_ids()[1][8]);
            } else if j == 2 {
                assert(registry_ids()[0].len() != registry_ids()[2].len());
            } else if j == 3 {
                assert(registry_ids()[0].len() != registry_ids()[3].len());
            } else if j == 4 {
                assert(registry_ids()[0].len() != registry_ids()[4].len());
            } else if j == 5 {
                assert(registry_ids()[0].len() != registry_ids()[5].len());
            } else if j == 6 {
                assert(registry_ids()[0].len() != registry_ids()[6].len());
            } else if j == 7 {
                assert(registry_ids()[0].len() != registry_ids()[7].len());
            } else if j == 8 {
                assert(registry_ids()[0].len() != registry_ids()[8].len());
            } else if j == 9 {
                assert(registry_ids()[0].len() != registry_ids()[9].len());
            } else if j == 10 {
                assert(registry_ids()[0][0] != registry_ids()[10][0]);
            } else if j == 11 {
                assert(registry_ids()[0].len() != registry_ids()[11].len());
            } else if j == 12 {
                assert(registry_ids()[0].len() != registry_ids()[12].len());
            } else if j == 13 {
                assert(registry_ids()[0].len() != registry_ids()[13].len());
            } else if j == 14 {
                assert(registry_ids()[0].len() != registry_ids()[14].len());
            } else if j == 15 {
                assert(registry_ids()[0][0] != registry_ids()[15][0]);
            } else if j == 16 {
                assert(registry_ids()[0][0] != registry_ids()[16][0]);
            } else if j == 17 {
                assert(registry_ids()[0][0] != registry_ids()[17][0]);
            } else if j == 18 {
                assert(registry_ids()[0].len() != registry_ids()[18].len());
            } else if j == 19 {
                assert(registry_ids()[0].len() != registry_ids()[19].len());
            } else if j == 20 {
                assert(registry_ids()[0].len() != registry_ids()[20].len());
            } else if j == 21 {
                assert(registry_ids()[0].len() != registry_ids()[21].len());
            } else if j == 22 {
                assert(registry_ids()[0].len() != registry_ids()[22].len());
            } else if j == 23 {
                assert(registry_ids()[0].len() != registry_ids()[23].len());
            } else if j == 24 {
                assert(registry_ids()[0].len() != registry_ids()[24].len());
            } else if j == 25 {
                assert(registry_ids()[0].len() != registry_ids()[25].len());
            } else if j == 26 {
                assert(registry_ids()[0].len() != registry_ids()[26].len());
            } else if j == 27 {
                assert(registry_ids()[0].len() != registry_ids()[27].len());
            } else if j == 28 {
                assert(registry_ids()[0].len() != registry_ids()[28].len());
            }
        } else if i == 1 {
            if j == 2 {
                assert(registry_ids()[1].len() != registry_ids()[2].len());
            } else if j == 3 {
                assert(registry_ids()[1].len() != registry_ids()[3].len());
            } else if j == 4 {
                assert(registry_ids()[1].len() != registry_ids()[4].len());
            } else if j == 5 {
                assert(registry_ids()[1].len() != registry_ids()[5].len());
            } else if j == 6 {
                assert(registry_ids()[1].len() != registry_ids()[6].len());
            } else if j == 7 {
                assert(registry_ids()[1].len() != registry_ids()[7].len());
            } else if j == 8 {
                assert(registry_ids()[1].len() != registry_ids()[8].len());
            } else if j == 9 {
                assert(registry_ids()[1].len() != registry_ids()[9].len());
            } else if j == 10 {
                assert(registry_ids()[1][0] != registry_ids()[10][0]);
            } else if j == 11 {
                assert(registry_ids()[1].len() != registry_ids()[11].len());
            } else if j == 12 {
                assert(registry_ids()[1].len() != registry_ids()[12].len());
            } else if j == 13 {
                assert(registry_ids()[1].len() != registry_ids()[13].len());
            } else if j == 14 {
                assert(registry_ids()[1].len() != registry_ids()[14].len());
            } else if j == 15 {
                assert(registry_ids()[1][0] != registry_ids()[15][0]);
            } else if j == 16 {
                assert(registry_ids()[1][0] != registry_ids()[16][0]);
            } else if j == 17 {
                assert(registry_ids()[1][0] != registry_ids()[17][0]);
            } else if j == 18 {
                assert(registry_ids()[1].len() != registry_ids()[18].len());
            } else if j == 19 {
                assert(registry_ids()[1].len() != registry_ids()[19].len());
            } else if j == 20 {
                assert(registry_ids()[1].len() != registry_ids()[20].len());
            } else if j == 21 {
                assert(registry_ids()[1].len() != registry_ids()[21].len());
            } else if j == 22 {
                assert(registry_ids()[1].len() != registry_ids()[22].len());
            } else if j == 23 {
                assert(registry_ids()[1].len() != registry_ids()[23].len());
            } else if j == 24 {
                assert(registry_ids()[1].len() != registry_ids()[24].len());
            } else if j == 25 {
                assert(registry_ids()[1].len() != registry_ids()[25].len());
            } else if j == 26 {
                assert(registry_ids()[1].len() != registry_ids()[26].len());
            } else if j == 27 {
                assert(registry_ids()[1].len() != registry_ids()[27].len());
            } else if j == 28 {
                assert(registry_ids()[1].len() != registry_ids()[28].len());
            }
        } else if i == 2 {
            if j == 3 {
                assert(registry_ids()[2].len() != registry_ids()[3].len());
            } else if j == 4 {
                assert(registry_ids()[2].len() != registry_ids()[4].len());
            } else if j == 5 {
                assert(registry_ids()[2].len() != registry_ids()[5].len());
            } else if j == 6 {
                assert(registry_ids()[2].len() != registry_ids()[6].len());
            } else if j == 7 {
                assert(registry_ids()[2].len() != registry_ids()[7].len());
            } else if j == 8 {
                assert(registry_ids()[2].len() != registry_ids()[8].len());
            } else if j == 9 {
                assert(registry_ids()[2].len() != registry_ids()[9].len());
            } else if j == 10 {
                assert(registry_ids()[2].len() != registry_ids()[10].len());
            } else if j == 11 {
                assert(registry_ids()[2].len() != registry_ids()[11].len());
            } else if j == 12 {
                assert(registry_ids()[2].len() != registry_ids()[12].len());
            } else if j == 13 {
                assert(registry_ids()[2].len() != registry_ids()[13].len());
            } else if j == 14 {
                assert(registry_ids()[2].len() != registry_ids()[14].len());
            } else if j == 15 {
                assert(registry_ids()[2].len() != registry_ids()[15].len());
            } else if j == 16 {
                assert(registry_ids()[2].len() != registry_ids()[16].len());
            } else if j == 17 {
                assert(registry_ids()[2].len() != registry_ids()[17].len());
            } else if j == 18 {
                assert(registry_ids()[2].len() != registry_ids()[18].len());
            } else if j == 19 {
                assert(registry_ids()[2].len() != registry_ids()[19].len());
            } else if j == 20 {
                assert(registry_ids()[2].len() != registry_ids()[20].len());
            } else if j == 21 {
                assert(registry_ids()[2].len() != registry_ids()[21].len());
            } else if j == 22 {
                assert(registry_ids()[2].len() != registry_ids()[22].len());
            } else if j == 23 {
                assert(registry_ids()[2].len() != registry_ids()[23].len());
            } else if j == 24 {
                assert(registry_ids()[2].len() != registry_ids()[24].len());
            } else if j == 25 {
                assert(registry_ids()[2].len() != registry_ids()[25].len());
            } else if j == 26 {
                assert(registry_ids()[2].len() != registry_ids()[26].len());
            } else if j == 27 {
                assert(registry_ids()[2].len() != registry_ids()[27].len());
            } else if j == 28 {
                assert(registry_ids()[2][0] != registry_ids()[28][0]);
            }
        } else if i == 3 {
            if j == 4 {
                assert(registry_ids()[3].len() != registry_ids()[4].len());
            } else if j == 5 {
                assert(registry_ids()[3].len() != registry_ids()[5].len());
            } else if j == 6 {
                assert(registry_ids()[3].len() != registry_ids()[6].len());
            } else if j == 7 {
                assert(registry_ids()[3].len() != registry_ids()[7].len());
            } else if j == 8 {
                assert(registry_ids()[3].len() != registry_ids()[8].len());
            } else if j == 9 {
                assert(registry_ids()[3].len() != registry_ids()[9].len());
            } else if j == 10 {
                assert(registry_ids()[3].len() != registry_ids()[10].len());
            } else if j == 11 {
                assert(registry_ids()[3].len() != registry_ids()[11].len());
            } else if j == 12 {
                assert(registry_ids()[3].len() != registry_ids()[12].len());
            } else if j == 13 {
                assert(registry_ids()[3].len() != registry_ids()[13].len());
            } else if j == 14 {
                assert(registry_ids()[3].len() != registry_ids()[14].len());
            } else if j == 15 {
                assert(registry_ids()[3].len() != registry_ids()[15].len());
            } else if j == 16 {
                assert(registry_ids()[3].len() != registry_ids()[16].len());
            } else if j == 17 {
                assert(registry_ids()[3].len() != registry_ids()[17].len());
            } else if j == 18 {
                assert(registry_ids()[3].len() != registry_ids()[18].len());
            } else if j == 19 {
                assert(registry_ids()[3].len() != registry_ids()[19].len());
            } else if j == 20 {
                assert(registry_ids()[3].len() != registry_ids()[20].len());
            } else if j == 21 {
                assert(registry_ids()[3].len() != registry_ids()[21].len());
            } else if j == 22 {
                assert(registry_ids()[3].len() != registry_ids()[22].len());
            } else if j == 23 {
                assert(registry_ids()[3].len() != registry_ids()[23].len());
            } else if j == 24 {
                assert(registry_ids()[3].len() != registry_ids()[24].len());
            } else if j == 25 {
                assert(registry_ids()[3].len() != registry_ids()[25].len());
            } else if j == 26 {
                assert(registry_ids()[3].len() != registry_ids()[26].len());
            } else if j == 27 {
                assert(registry_ids()[3].len() != registry_ids()[27].len());
            } else if j == 28 {
                assert(registry_ids()[3].len() != registry_ids()[28].len());
            }
        } else if i == 4 {
            if j == 5 {
                assert(registry_ids()[4].len() != registry_ids()[5].len());
            } else if j == 6 {
                assert(registry_ids()[4].len() != registry_ids()[6].len());
            } else if j == 7 {
                assert(registry_ids()[4][8] != registry_ids()[7][8]);
            } else if j == 8 {
                assert(registry_ids()[4].len() != registry_ids()[8].len());
            } else if j == 9 {
                assert(registry_ids()[4].len() != registry_ids()[9].len());
            } else if j == 10 {
                assert(registry_ids()[4].len() != registry_ids()[10].len());
            } else if j == 11 {
                assert(registry_ids()[4].len() != registry_ids()[11].len());
            } else if j == 12 {
                assert(registry_ids()[4].len() != registry_ids()[12].len());
            } else if j == 13 {
                assert(registry_ids()[4].len() != registry_ids()[13].len());
            } else if j == 14 {
                assert(registry_ids()[4].len() != registry_ids()[14].len());
            } else if j == 15 {
                assert(registry_ids()[4].len() != registry_ids()[15].len());
            } else if j == 16 {
                assert(registry_ids()[4].len() != registry_ids()[16].len());
            } else if j == 17 {
                assert(registry_ids()[4].len() != registry_ids()[17].len());
            } else if j == 18 {
                assert(registry_ids()[4].len() != registry_ids()[18].len());
            } else if j == 19 {
                assert(registry_ids()[4].len() != registry_ids()[19].len());
            } else if j == 20 {
                assert(registry_ids()[4].len() != registry_ids()[20].len());
            } else if j == 21 {
                assert(registry_ids()[4].len() != registry_ids()[21].len());
            } else if j == 22 {
                assert(registry_ids()[4].len() != registry_ids()[22].len());
            } else if j == 23 {
                assert(registry_ids()[4].len() != registry_ids()[23].len());
            } else if j == 24 {
                assert(registry_ids()[4].len() != registry_ids()[24].len());
            } else if j == 25 {
                assert(registry_ids()[4].len() != registry_ids()[25].len());
            } else if j == 26 {
                assert(registry_ids()[4].len() != registry_ids()[26].len());
            } else if j == 27 {
                assert(registry_ids()[4].len() != registry_ids()[27].len());
            } else if j == 28 {
                assert(registry_ids()[4].len() != registry_ids()[28].len());
            }
        } else if i == 5 {
            if j == 6 {
                assert(registry_ids()[5].len() != registry_ids()[6].len());
            } else if j == 7 {
                assert(registry_ids()[5].len() != registry_ids()[7].len());
            } else if j == 8 {
                assert(registry_ids()[5].len() != registry_ids()[8].len());
            } else if j == 9 {
                assert(registry_ids()[5].len() != registry_ids()[9].len());
            } else if j == 10 {
                assert(registry_ids()[5].len() != registry_ids()[10].len());
            } else if j == 11 {
                assert(registry_ids()[5].len() != registry_ids()[11].len());
            } else if j == 12 {
                assert(registry_ids()[5].len() != registry_ids()[12].len());
            } else if j == 13 {
                assert(registry_ids()[5].len() != registry_ids()[13].len());
            } else if j == 14 {
                assert(registry_ids()[5].len() != registry_ids()[14].len());
            } else if j == 15 {
                assert(registry_ids()[5].len() != registry_ids()[15].len());
            } else if j == 16 {
                assert(registry_ids()[5].len() != registry_ids()[16].len());
            } else if j == 17 {
                assert(registry_ids()[5].len() != registry_ids()[17].len());
            } else if j == 18 {
                assert(registry_ids()[5].len() != registry_ids()[18].len());
            } else if j == 19 {
                assert(registry_ids()[5][0] != registry_ids()[19][0]);
            } else if j == 20 {
                assert(registry_ids()[5].len() != registry_ids()[20].len());
            } else if j == 21 {
                assert(registry_ids()[5].len() != registry_ids()[21].len());
            } else if j == 22 {
                assert(registry_ids()[5].len() != registry_ids()[22].len());
            } else if j == 23 {
                assert(registry_ids()[5].len() != registry_ids()[23].len());
            } else if j == 24 {
                assert(registry_ids()[5].len() != registry_ids()[24].len());
            } else if j == 25 {
                assert(registry_ids()[5].len() != registry_ids()[25].len());
            } else if j == 26 {
                assert(registry_ids()[5].len() != registry_ids()[26].len());
            } else if j == 27 {
                assert(registry_ids()[5].len() != registry_ids()[27].len());
            } else if j == 28 {
                assert(registry_ids()[5].len() != registry_ids()[28].len());
            }
        } else if i == 6 {
            if j == 7 {
                assert(registry_ids()[6].len() != registry_ids()[7].len());
            } else if j == 8 {
                assert(registry_ids()[6].len() != registry_ids()[8].len());
            } else if j == 9 {
                assert(registry_ids()[6][8] != registry_ids()[9][8]);
            } else if j == 10 {
                assert(registry_ids()[6].len() != registry_ids()[10].len());
            } else if j == 11 {
                assert(registry_ids()[6].len() != registry_ids()[11].len());
            } else if j == 12 {
                assert(registry_ids()[6].len() != registry_ids()[12].len());
            } else if j == 13 {
                assert(registry_ids()[6].len() != registry_ids()[13].len());
            } else if j == 14 {
                assert(registry_ids()[6].len() != registry_ids()[14].len());
            } else if j == 15 {
                assert(registry_ids()[6].len() != registry_ids()[15].len());
            } else if j == 16 {
                assert(registry_ids()[6].len() != registry_ids()[16].len());
            } else if j == 17 {
                assert(registry_ids()[6].len() != registry_ids()[17].len());
            } else if j == 18 {
                assert(registry_ids()[6].len() != registry_ids()[18].len());
            } else if j == 19 {
                assert(registry_ids()[6].len() != registry_ids()[19].len());
            } else if j == 20 {
                assert(registry_ids()[6].len() != registry_ids()[20].len());
            } else if j == 21 {
                assert(registry_ids()[6].len() != registry_ids()[21].len());
            } else if j == 22 {
                assert(registry_ids()[6].len() != registry_ids()[22].len());
            } else if j == 23 {
                assert(registry_ids()[6].len() != registry_ids()[23].len());
            } else if j == 24 {
                assert(registry_ids()[6].len() != registry_ids()[24].len());
            } else if j == 25 {
                assert(registry_ids()[6].len() != registry_ids()[25].len());
            } else if j == 26 {
                assert(registry_ids()[6].len() != registry_ids()[26].len());
            } else if j == 27 {
                assert(registry_ids()[6].len() != registry_ids()[27].len());
            } else if j == 28 {
                assert(registry_ids()[6].len() != registry_ids()[28].len());
            }
        } else if i == 7 {
            if j == 8 {
                assert(registry_ids()[7].len() != registry_ids()[8].len());
            } else if j == 9 {
                assert(registry_ids()[7].len() != registry_ids()[9].len());
            } else if j == 10 {
                assert(registry_ids()[7].len() != registry_ids()[10].len());
            } else if j == 11 {
                assert(registry_ids()[7].len() != registry_ids()[11].len());
            } else if j == 12 {
                assert(registry_ids()[7].len() != registry_ids()[12].len());
            } else if j == 13 {
                assert(registry_ids()[7].len() != registry_ids()[13].len());
            } else if j == 14 {
                assert(registry_ids()[7].len() != registry_ids()[14].len());
            } else if j == 15 {
                assert(registry_ids()[7].len() != registry_ids()[15].len());
            } else if j == 16 {
                assert(registry_ids()[7].len() != registry_ids()[16].len());
            } else if j == 17 {
                assert(registry_ids()[7].len() != registry_ids()[17].len());
            } else if j == 18 {
                assert(registry_ids()[7].len() != registry_ids()[18].len());
            } else if j == 19 {
                assert(registry_ids()[7].len() != registry_ids()[19].len());
            } else if j == 20 {
                assert(registry_ids()[7].len() != registry_ids()[20].len());
            } else if j == 21 {
                assert(registry_ids()[7].len() != registry_ids()[21].len());
            } else if j == 22 {
                assert(registry_ids()[7].len() != registry_ids()[22].len());
            } else if j == 23 {
                assert(registry_ids()[7].len() != registry_ids()[23].len());
            } else if j == 24 {
                assert(registry_ids()[7].len() != registry_ids()[24].len());
            } else if j == 25 {
                assert(registry_ids()[7].len() != registry_ids()[25].len());
            } else if j == 26 {
                assert(registry_ids()[7].len() != registry_ids()[26].len());
            } else if j == 27 {
                assert(registry_ids()[7].len() != registry_ids()[27].len());
            } else if j == 28 {
                assert(registry_ids()[7].len() != registry_ids()[28].len());
            }
        } else if i == 8 {
            if j == 9 {
                assert(registry_ids()[8].len() != registry_ids()[9].len());
            } else if j == 10 {
                assert(registry_ids()[8].len() != registry_ids()[10].len());
            } else if j == 11 {
                assert(registry_ids()[8].len() != registry_ids()[11].len());
            } else if j == 12 {
                assert(registry_ids()[8].len() != registry_ids()[12].len());
            } else if j == 13 {
                assert(registry_ids()[8].len() != registry_ids()[13].len());
            } else if j == 14 {
                assert(registry_ids()[8].len() != registry_ids()[14].len());
            } else if j == 15 {
                assert(registry_ids()[8].len() != registry_ids()[15].len());
            } else if j == 16 {
                assert(registry_ids()[8].len() != registry_ids()[16].len());
            } else if j == 17 {
                assert(registry_ids()[8].len() != registry_ids()[17].len());
            } else if j == 18 {
                assert(registry_ids()[8].len() != registry_ids()[18].len());
            } else if j == 19 {
                assert(registry_ids()[8].len() != registry_ids()[19].len());
            } else if j == 20 {
                assert(registry_ids()[8].len() != registry_ids()[20].len());
            } else if j == 21 {
                assert(registry_ids()[8].len() != registry_ids()[21].len());
            } else if j == 22 {
                assert(registry_ids()[8][0] != registry_ids()[22][0]);
            } else if j == 23 {
                assert(registry_ids()[8].len() != registry_ids()[23].len());
            } else if j == 24 {
                assert(registry_ids()[8].len() != registry_ids()[24].len());
            } else if j == 25 {
                assert(registry_ids()[8].len() != registry_ids()[25].len());
            } else if j == 26 {
                assert(registry_ids()[8].len() != registry_ids()[26].len());
            } else if j == 27 {
                assert(registry_ids()[8].len() != registry_ids()[27].len());
            } else if j == 28 {
                assert(registry_ids()[8].len() != registry_ids()[28].len());
            }
        } else if i == 9 {
            if j == 10 {
                assert(registry_ids()[9].len() != registry_ids()[10].len());
            } else if j == 11 {
                assert(registry_ids()[9].len() != registry_ids()[11].len());
            } else if j == 12 {
                assert(registry_ids()[9].len() != registry_ids()[12].len());
            } else if j == 13 {
                assert(registry_ids()[9].len() != registry_ids()[13].len());
            } else if j == 14 {
                assert(registry_ids()[9].len() != registry_ids()[14].len());
            } else if j == 15 {
                assert(registry_ids()[9].len() != registry_ids()[15].len());
            } else if j == 16 {
                assert(registry_ids()[9].len() != registry_ids()[16].len());
            } else if j == 17 {
                assert(registry_ids()[9].len() != registry_ids()[17].len());
            } else if j == 18 {
                assert(registry_ids()[9].len() != registry_ids()[18].len());
            } else if j == 19 {
                assert(registry_ids()[9].len() != registry_ids()[19].len());
            } else if j == 20 {
                assert(registry_ids()[9].len() != registry_ids()[20].len());
            } else if j == 21 {
                assert(registry_ids()[9].len() != registry_ids()[21].len());
            } else if j == 22 {
                assert(registry_ids()[9].len() != registry_ids()[22].len());
            } else if j == 23 {
                assert(registry_ids()[9].len() != registry_ids()[23].len());
            } else if j == 24 {
                assert(registry_ids()[9].len() != registry_ids()[24].len());
            } else if j == 25 {
                assert(registry_ids()[9].len() != registry_ids()[25].len());
            } else if j == 26 {
                assert(registry_ids()[9].len() != registry_ids()[26].len());
            } else if j == 27 {
                assert(registry_ids()[9].len() != registry_ids()[27].len());
            } else if j == 28 {
                assert(registry_ids()[9].len() != registry_ids()[28].len());
            }
        } else if i == 10 {
            if j == 11 {
                assert(registry_ids()[10].len() != registry_ids()[11].len());
            } else if j == 12 {
                assert(registry_ids()[10].len() != registry_ids()[12].len());
            } else if j == 13 {
                assert(registry_ids()[10].len() != registry_ids()[13].len());
            } else if j == 14 {
                assert(registry_ids()[10].len() != registry_ids()[14].len());
            } else if j == 15 {
                assert(registry_ids()[10][0] != registry_ids()[15][0]);
            } else if j == 16 {
                assert(registry_ids()[10][0] != registry_ids()[16][0]);
            } else if j == 17 {
                assert(registry_ids()[10][0] != registry_ids()[17][0]);
            } else if j == 18 {
                assert(registry_ids()[10].len() != registry_ids()[18].len());
            } else if j == 19 {
                assert(registry_ids()[10].len() != registry_ids()[19].len());
            } else if j == 20 {
                assert(registry_ids()[10].len() != registry_ids()[20].len());
            } else if j == 21 {
                assert(registry_ids()[10].len() != registry_ids()[21].len());
            } else if j == 22 {
                assert(registry_ids()[10].len() != registry_ids()[22].len());
            } else if j == 23 {
                assert(registry_ids()[10].len() != registry_ids()[23].len());
            } else if j == 24 {
                assert(registry_ids()[10].len() != registry_ids()[24].len());
            } else if j == 25 {
                assert(registry_ids()[10].len() != registry_ids()[25].len());
            } else if j == 26 {
                assert(registry_ids()[10].len() != registry_ids()[26].len());
            } else if j == 27 {
                assert(registry_ids()[10].len() != registry_ids()[27].len());
            } else if j == 28 {
                assert(registry_ids()[10].len() != registry_ids()[28].len());
            }
        } else if i == 11 {
            if j == 12 {
                assert(registry_ids()[11].len() != registry_ids()[12].len());
            } else if j == 13 {
                assert(registry_ids()[11][0] != registry_ids()[13][0]);
            } else if j == 14 {
                assert(registry_ids()[11][8] != registry_ids()[14][8]);
            } else if j == 15 {
                assert(registry_ids()[11].len() != registry_ids()[15].len());
            } else if j == 16 {
                assert(registry_ids()[11].len() != registry_ids()[16].len());
            } else if j == 17 {
                assert(registry_ids()[11].len() != registry_ids()[17].len());
            } else if j == 18 {
                assert(registry_ids()[11].len() != registry_ids()[18].len());
            } else if j == 19 {
                assert(registry_ids()[11].len() != registry_ids()[19].len());
            } else if j == 20 {
                assert(registry_ids()[11].len() != registry_ids()[20].len());
            } else if j == 21 {
                assert(registry_ids()[11][0] != registry_ids()[21][0]);
            } else if j == 22 {
                assert(registry_ids()[11].len() != registry_ids()[22].len());
            } else if j == 23 {
                assert(registry_ids()[11].len() != registry_ids()[23].len());
            } else if j == 24 {
                assert(registry_ids()[11].len() != registry_ids()[24].len());
            } else if j == 25 {
                assert(registry_ids()[11].len() != registry_ids()[25].len());
            } else if j == 26 {
                assert(registry_ids()[11][0] != registry_ids()[26][0]);
            } else if j == 27 {
                assert(registry_ids()[11].len() != registry_ids()[27].len());
            } else if j == 28 {
                assert(registry_ids()[11].len() != registry_ids()[28].len());
            }
        } else if i == 12 {
            if j == 13 {
                assert(registry_ids()[12].len() != registry_ids()[13].len());
            } else if j == 14 {
                assert(registry_ids()[12].len() != registry_ids()[14].len());
            } else if j == 15 {
                assert(registry_ids()[12].len() != registry_ids()[15].len());
            } else if j == 16 {
                assert(registry_ids()[12].len() != registry_ids()[16].len());
            } else if j == 17 {
                assert(registry_ids()[12].len() != registry_ids()[17].len());
            } else if j == 18 {
                assert(registry_ids()[12][6] != registry_ids()[18][6]);
            } else if j == 19 {
                assert(registry_ids()[12].len() != registry_ids()[19].len());
            } else if j == 20 {
                assert(registry_ids()[12].len() != registry_ids()[20].len());
            } else if j == 21 {
                assert(registry_ids()[12].len() != registry_ids()[21].len());
            } else if j == 22 {
                assert(registry_ids()[12].len() != registry_ids()[22].len());
            } else if j == 23 {
                assert(registry_ids()[12].len() != registry_ids()[23].len());
            } else if j == 24 {
                assert(registry_ids()[12].len() != registry_ids()[24].len());
            } else if j == 25 {
                assert(registry_ids()[12].len() != registry_ids()[25].len());
            } else if j == 26 {
                assert(registry_ids()[12].len() != registry_ids()[26].len());
            } else if j == 27 {
                assert(registry_ids()[12].len() != registry_ids()[27].len());
            } else if j == 28 {
                assert(registry_ids()[12].len() != registry_ids()[28].len());
            }
        } else if i == 13 {
            if j == 14 {
                assert(registry_ids()[13][0] != registry_ids()[14][0]);
            } else if j == 15 {
                assert(registry_ids()[13].len() != registry_ids()[15].len());
            } else if j == 16 {
                assert(registry_ids()[13].len() != registry_ids()[16].len());
            } else if j == 17 {
                assert(registry_ids()[13].len() != registry_ids()[17].len());
            } else if j == 18 {
                assert(registry_ids()[13].len() != registry_ids()[18].len());
            } else if j == 19 {
                assert(registry_ids()[13].len() != registry_ids()[19].len());
            } else if j == 20 {
                assert(registry_ids()[13].len() != registry_ids()[20].len());
            } else if j == 21 {
                assert(registry_ids()[13][0] != registry_ids()[21][0]);
            } else if j == 22 {
                assert(registry_ids()[13].len() != registry_ids()[22].len());
            } else if j == 23 {
                assert(registry_ids()[13].len() != registry_ids()[23].len());
            } else if j == 24 {
                assert(registry_ids()[13].len() != registry_ids()[24].len());
            } else if j == 25 {
                assert(registry_ids()[13].len() != registry_ids()[25].len());
            } else if j == 26 {
                assert(registry_ids()[13][0] != registry_ids()[26][0]);
            } else if j == 27 {
                assert(registry_ids()[13].len() != registry_ids()[27].len());
            } else if j == 28 {
                assert(registry_ids()[13].len() != registry_ids()[28].len());
            }
        } else if i == 14 {
            if j == 15 {
                assert(registry_ids()[14].len() != registry_ids()[15].len());
            } else if j == 16 {
                assert(registry_ids()[14].len() != registry_ids()[16].len());
            } else if j == 17 {
                assert(registry_ids()[14].len() != registry_ids()[17].len());
            } else if j == 18 {
                assert(registry_ids()[14].len() != registry_ids()[18].len());
            } else if j == 19 {
                assert(registry_ids()[14].len() != registry_ids()[19].len());
            } else if j == 20 {
                assert(registry_ids()[14].len() != registry_ids()[20].len());
            } else if j == 21 {
                assert(registry_ids()[14][0] != registry_ids()[21][0]);
            } else if j == 22 {
                assert(registry_ids()[14].len() != registry_ids()[22].len());
            } else if j == 23 {
                assert(registry_ids()[14].len() != registry_ids()[23].len());
            } else if j == 24 {
                assert(registry_ids()[14].len() != registry_ids()[24].len());
            } else if j == 25 {
                assert(registry_ids()[14].len() != registry_ids()[25].len());
            } else if j == 26 {
                assert(registry_ids()[14][0] != registry_ids()[26][0]);
            } else if j == 27 {
                assert(registry_ids()[14].len() != registry_ids()[27].len());
            } else if j == 28 {
                assert(registry_ids()[14].len() != registry_ids()[28].len());
            }
        } else if i == 15 {
            if j == 16 {
                assert(registry_ids()[15][8] != registry_ids()[16][8]);
            } else if j == 17 {
                assert(registry_ids()[15][8] != registry_ids()[17][8]);
            } else if j == 18 {
                assert(registry_ids()[15].len() != registry_ids()[18].len());
            } else if j == 19 {
                assert(registry_ids()[15].len() != registry_ids()[19].len());
            } else if j == 20 {
                assert(registry_ids()[15].len() != registry_ids()[20].len());
            } else if j == 21 {
                assert(registry_ids()[15].len() != registry_ids()[21].len());
            } else if j == 22 {
                assert(registry_ids()[15].len() != registry_ids()[22].len());
            } else if j == 23 {
                assert(registry_ids()[15].len() != registry_ids()[23].len());
            } else if j == 24 {
                assert(registry_ids()[15].len() != registry_ids()[24].len());
            } else if j == 25 {
                assert(registry_ids()[15].len() != registry_ids()[25].len());
            } else if j == 26 {
                assert(registry_ids()[15].len() != registry_ids()[26].len());
            } else if j == 27 {
                assert(registry_ids()[15].len() != registry_ids()[27].len());
            } else if j == 28 {
                assert(registry_ids()[15].len() != registry_ids()[28].len());
            }
        } else if i == 16 {
            if j == 17 {
                assert(registry_ids()[16][10] != registry_ids()[17][10]);
            } else if j == 18 {
                assert(registry_ids()[16].len() != registry_ids()[18].len());
            } else if j == 19 {
                assert(registry_ids()[16].len() != registry_ids()[19].len());
            } else if j == 20 {
                assert(registry_ids()[16].len() != registry_ids()[20].len());
            } else if j == 21 {
                assert(registry_ids()[16].len() != registry_ids()[21].len());
            } else if j == 22 {
                assert(registry_ids()[16].len() != registry_ids()[22].len());
            } else if j == 23 {
                assert(registry_ids()[16].len() != registry_ids()[23].len());
            } else if j == 24 {
                assert(registry_ids()[16].len() != registry_ids()[24].len());
            } else if j == 25 {
                assert(registry_ids()[16].len() != registry_ids()[25].len());
            } else if j == 26 {
                assert(registry_ids()[16].len() != registry_ids()[26].len());
            } else if j == 27 {
                assert(registry_ids()[16].len() != registry_ids()[27].len());
            } else if j == 28 {
                assert(registry_ids()[16].len() != registry_ids()[28].len());
            }
        } else if i == 17 {
            if j == 18 {
                assert(registry_ids()[17].len() != registry_ids()[18].len());
            } else if j == 19 {
                assert(registry_ids()[17].len() != registry_ids()[19].len());
            } else if j == 20 {
                assert(registry_ids()[17].len() != registry_ids()[20].len());
            } else if j == 21 {
                assert(registry_ids()[17].len() != registry_ids()[21].len());
            } else if j == 22 {
                assert(registry_ids()[17].len() != registry_ids()[22].len());
            } else if j == 23 {
                assert(registry_ids()[17].len() != registry_ids()[23].len());
            } else if j == 24 {
                assert(registry_ids()[17].len() != registry_ids()[24].len());
            } else if j == 25 {
                assert(registry_ids()[17].len() != registry_ids()[25].len());
            } else if j == 26 {
                assert(registry_ids()[17].len() != registry_ids()[26].len());
            } else if j == 27 {
                assert(registry_ids()[17].len() != registry_ids()[27].len());
            } else if j == 28 {
                assert(registry_ids()[17].len() != registry_ids()[28].len());
            }
        } else if i == 18 {
            if j == 19 {
                assert(registry_ids()[18].len() != registry_ids()[19].len());
            } else if j == 20 {
                assert(registry_ids()[18].len() != registry_ids()[20].len());
            } else if j == 21 {
                assert(registry_ids()[18].len() != registry_ids()[21].len());
            } else if j == 22 {
                assert(registry_ids()[18].len() != registry_ids()[22].len());
            } else if j == 23 {
                assert(registry_ids()[18].len() != registry_ids()[23].len());
            } else if j == 24 {
                assert(registry_ids()[18].len() != registry_ids()[24].len());
            } else if j == 25 {
                assert(registry_ids()[18].len() != registry_ids()[25].len());
            } else if j == 26 {
                assert(registry_ids()[18].len() != registry_ids()[26].len());
            } else if j == 27 {
                assert(registry_ids()[18].len() != registry_ids()[27].len());
            } else if j == 28 {
                assert(registry_ids()[18].len() != registry_ids()[28].len());
            }
        } else if i == 19 {
            if j == 20 {
                assert(registry_ids()[19].len() != registry_ids()[20].len());
            } else if j == 21 {
                assert(registry_ids()[19].len() != registry_ids()[21].len());
            } else if j == 22 {
                assert(registry_ids()[19].len() != registry_ids()[22].len());
            } else if j == 23 {
                assert(registry_ids()[19].len() != registry_ids()[23].len());
            } else if j == 24 {
                assert(registry_ids()[19].len() != registry_ids()[24].len());
            } else if j == 25 {
                assert(registry_ids()[19].len() != registry_ids()[25].len());
            } else if j == 26 {
                assert(registry_ids()[19].len() != registry_ids()[26].len());
            } else if j == 27 {
                assert(registry_ids()[19].len() != registry_ids()[27].len());
            } else if j == 28 {
                assert(registry_ids()[19].len() != registry_ids()[28].len());
            }
        } else if i == 20 {
            if j == 21 {
                assert(registry_ids()[20].len() != registry_ids()[21].len());
            } else if j == 22 {
                assert(registry_ids()[20].len() != registry_ids()[22].len());
            } else if j == 23 {
                assert(registry_ids()[20].len() != registry_ids()[23].len());
            } else if j == 24 {
                assert(registry_ids()[20].len() != registry_ids()[24].len());
            } else if j == 25 {
                assert(registry_ids()[20].len() != registry_ids()[25].len());
            } else if j == 26 {
                assert(registry_ids()[20].len() != registry_ids()[26].len());
            } else if j == 27 {
                assert(registry_ids()[20].len() != registry_ids()[27].len());
            } else if j == 28 {
                assert(registry_ids()[20].len() != registry_ids()[28].len());
            }
        } else if i == 21 {
            if j == 22 {
                assert(registry_ids()[21].len() != registry_ids()[22].len());
            } else if j == 23 {
                assert(registry_ids()[21].len() != registry_ids()[23].len());
            } else if j == 24 {
                assert(registry_ids()[21].len() != registry_ids()[24].len());
            } else if j == 25 {
                assert(registry_ids()[21].len() != registry_ids()[25].len());
            } else if j == 26 {
                assert(registry_ids()[21][0] != registry_ids()[26][0]);
            } else if j == 27 {
                assert(registry_ids()[21].len() != registry_ids()[27].len());
            } else if j == 28 {
                assert(registry_ids()[21].len() != registry_ids()[28].len());
            }
        } else if i == 22 {
            if j == 23 {
                assert(registry_ids()[22].len() != registry_ids()[23].len());
            } else if j == 24 {
                assert(registry_ids()[22].len() != registry_ids()[24].len());
            } else if j == 25 {
                assert(registry_ids()[22].len() != registry_ids()[25].len());
            } else if j == 26 {
                assert(registry_ids()[22].len() != registry_ids()[26].len());
            } else if j == 27 {
                assert(registry_ids()[22].len() != registry_ids()[27].len());
            } else if j == 28 {
                assert(registry_ids()[22].len() != registry_ids()[28].len());
            }
        } else if i == 23 {
            if j == 24 {
                assert(registry_ids()[23].len() != registry_ids()[24].len());
            } else if j == 25 {
                assert(registry_ids()[23].len() != registry_ids()[25].len());
            } else if j == 26 {
                assert(registry_ids()[23].len() != registry_ids()[26].len());
            } else if j == 27 {
                assert(registry_ids()[23][0] != registry_ids()[27][0]);
            } else if j == 28 {
                assert(registry_ids()[23].len() != registry_ids()[28].len());
            }
        } else if i == 24 {
            if j == 25 {
                assert(registry_ids()[24].len() != registry_ids()[25].len());
            } else if j == 26 {
                assert(registry_ids()[24].len() != registry_ids()[26].len());
            } else if j == 27 {
                assert(registry_ids()[24].len() != registry_ids()[27].len());
            } else if j == 28 {
                assert(registry_ids()[24].len() != registry_ids()[28].len());
            }
        } else if i == 25 {
            if j == 26 {
                assert(registry_ids()[25].len() != registry_ids()[26].len());
            } else if j == 27 {
                assert(registry_ids()[25].len() != registry_ids()[27].len());
            } else if j == 28 {
                assert(registry_ids()[25].len() != registry_ids()[28].len());
            }
        } else if i == 26 {
            if j == 27 {
                assert(registry_ids()[26].len() != registry_ids()[27].len());
            } else if j == 28 {
                assert(registry_ids()[26].len() != registry_ids()[28].len());
            }
        } else if i == 27 {
            if j == 28 {
                assert(registry_ids()[27].len() != registry_ids()[28].len());
            }
        } else if i == 28 {
        }
    }
}


/// The models the meeting and diarization features look up by id are curated, with the
/// kind they are used as.
pub proof fn law_required_models_present()
    ensures
        registry_ids()[26] == "vad-silero"@ && registry_kinds()[26] == ModelKind::Vad,
        registry_ids()[22] == "diarize-segmentation"@ && registry_kinds()[22]
            == ModelKind::Diarize,
        registry_ids()[23] == "diarize-embedding"@ && registry_kinds()[23]
            == ModelKind::Diarize,
{
}

/// Forgetting a custom model just added gives back the custom models as they were
/// before: `add_custom` only adds a model whose id none of them has.
pub proof fn law_remove_undoes_add(customs: Seq<ModelInfoView>, m: ModelInfoView)
    requires
        forall|i: int| 0 <= i < customs.len() ==> (#[trigger] customs[i]).id != m.id,
    ensures
        without_id(customs.push(m), m.id) == customs,
{
    assert(customs.push(m).drop_last() =~= customs);
    lemma_without_absent(customs, m.id);
}

/// Removing an id that no model has changes nothing.
pub proof fn lemma_without_absent(ms: Seq<ModelInfoView>, id: Seq<char>)
    requires
        forall|i: int| 0 <= i < ms.len() ==> (#[trigger] ms[i]).id != id,
    ensures
        without_id(ms, id) == ms,
    decreases ms.len(),
{
    if ms.len() > 0 {
        assert forall|i: int| 0 <= i < ms.drop_last().len() implies (#[trigger] ms.drop_last()[i]).id
            != id by {
            assert(ms.drop_last()[i] == ms[i]);
        }
        lemma_without_absent(ms.drop_last(), id);
        assert(ms.last() == ms[ms.len() - 1]);
        assert(ms.drop_last().push(ms.last()) =~= ms);
    }
}

/// A custom model just added is what looking up its id among all models finds: no
/// curated id starts as a custom one (`custom-`), and `add_custom` adds only an id that
/// no custom model has.
#[verifier::rlimit(100)]
pub proof fn law_added_model_found(
    customs: Seq<ModelInfoView>,
    name: Seq<char>,
    kind: ModelKind,
    url: Seq<char>,
    ms: Seq<ModelInfoView>,
)
    requires
        forall|i: int|
            0 <= i < customs.len() ==> (#[trigger] customs[i]).id != custom_model(name, kind, url).id,
        lists_all(ms, customs.push(custom_model(name, kind, url))),
    ensures
        first_with_id(ms, custom_model(name, kind, url).id) == Some((ms.len() - 1) as int),
        ms[ms.len() - 1] == custom_model(name, kind, url),
{
    let m = custom_model(name, kind, url);
    let cs = customs.push(m);
    let n = registry_ids().len();
    let last = ms.len() - 1;
    reveal_strlit("custom-");
    assert(m.id[0] == 'c');
    reveal_strlit("whisper-tiny");
    reveal_strlit("whisper-base");
    reveal_strlit("whisper-base-en");
    reveal_strlit("whisper-small");
    reveal_strlit("whisper-small-en");
    reveal_strlit("whisper-medium");
    reveal_strlit("whisper-large-v3-turbo");
    reveal_strlit("whisper-large-v3");
    reveal_strlit("indic-whisper-medium");
    reveal_strlit("whisper-hindi2hinglish");
    reveal_strlit("qwen2.5-1.5b");
    reveal_strlit("qwen2.5-3b");
    reveal_strlit("qwen3-4b");
    reveal_strlit("gemma-3-4b");
    reveal_strlit("qwen2.5-7b");
    reveal_strlit("llama-3.1-8b");
    reveal_strlit("llama-3.2-1b");
    reveal_strlit("llama-3.2-3b");
    reveal_strlit("qwen3-8b");
    reveal_strlit("granite-3.3-8b");
    reveal_strlit("gemma-3-12b");
    reveal_strlit("phi-4-mini");
    reveal_strlit("diarize-segmentation");
    reveal_strlit("diarize-embedding");
    reveal_strlit("diarize-embedding-titanet");
    reveal_strlit("diarize-embedding-eres2netv2");
    reveal_strlit("vad-silero");
    reveal_strlit("moonshine-base-en");
    reveal_strlit("parakeet-tdt-v3");
    assert forall|i: int| 0 <= i < n implies registry_ids()[i][0] != 'c' by {
        assert(registry_ids()[i].len() > 0);
    }
    assert(ms[last] == cs[customs.len() as int]);
    assert forall|j: int| 0 <= j < last implies (#[trigger] ms[j]).id != m.id by {
        if j < n {
            assert(ms[j].id == registry_ids()[j]);
            assert(registry_ids()[j][0] != 'c');
        } else {
            assert(ms[j] == cs[j - n]);
            assert(cs[j - n] == customs[j - n]);
        }
    }
    assert(ms[last].id == m.id);
    let c = choose|i: int|
        0 <= i < ms.len() && (#[trigger] ms[i]).id == m.id && forall|j: int|
            0 <= j < i ==> (#[trigger] ms[j]).id != m.id;
    assert(0 <= last < ms.len() && ms[last].id == m.id && forall|j: int|
        0 <= j < last ==> (#[trigger] ms[j]).id != m.id);
    assert(c == last);
}

/// Whether a model's id is other than `id`.
pub open spec fn id_other_than(id: Seq<char>) -> spec_fn(ModelInfoView) -> bool {
    |m: ModelInfoView| m.id != id
}

/// Forgetting the custom models with id `id` keeps every other model, in the order they
/// had: the result is the models whose id is not `id`; each model of another id is kept,
/// and no model with id `id` is.
pub proof fn law_remove_keeps_the_others(ms: Seq<ModelInfoView>, id: Seq<char>)
    ensures
        without_id(ms, id) == ms.filter(id_other_than(id)),
        forall|i: int| 0 <= i < ms.len() && ms[i].id != id ==> #[trigger] without_id(ms, id).contains(
            ms[i],
        ),
        forall|j: int| 0 <= j < without_id(ms, id).len() ==> (#[trigger] without_id(ms, id)[j]).id != id,
    decreases ms.len(),
{
    let p = id_other_than(id);
    reveal(Seq::filter);
    if ms.len() > 0 {
        law_remove_keeps_the_others(ms.drop_last(), id);
        assert(without_id(ms, id) =~= ms.filter(p));
    } else {
        assert(without_id(ms, id) =~= ms.filter(p));
    }
    assert forall|i: int| 0 <= i < ms.len() && ms[i].id != id implies #[trigger] without_id(
        ms,
        id,
    ).contains(ms[i]) by {
        ms.lemma_filter_contains(p, i);
    }
    assert forall|j: int| 0 <= j < without_id(ms, id).len() implies (#[trigger] without_id(
        ms,
        id,
    )[j]).id != id by {
        ms.lemma_filter_pred(p, j);
    }
}

} // verus!
