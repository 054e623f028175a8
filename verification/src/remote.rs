//! Opt-in, bring-your-own-key cloud processing for meetings: which provider and model a
//! request goes to, how it is addressed, and the WAV body a recording is sent as.
use vstd::prelude::*;
use crate::settings::{CloudProvider, CloudProviderView, Settings, providers_view};
use crate::text::{concat, str_eq, trim, trim_str};
use serde_json::Value;

verus! {

/// The provider a request goes to: the first configured provider whose id is `id`,
/// given that `id` is not blank and that provider has a key. Otherwise the message that
/// says what to set up.
pub open spec fn selected_spec(ps: Seq<CloudProviderView>, id: Seq<char>, purpose: Seq<char>) -> Result<
    int,
    Seq<char>,
> {
    if trim(id).len() == 0 {
        Err("choose a cloud "@ + purpose + " provider in Settings first"@)
    } else if !(exists|i: int| 0 <= i < ps.len() && (#[trigger] ps[i]).id == id) {
        Err("cloud provider '"@ + id + "' is not configured"@)
    } else {
        let i = choose|i: int|
            0 <= i < ps.len() && (#[trigger] ps[i]).id == id && forall|j: int|
                0 <= j < i ==> (#[trigger] ps[j]).id != id;
        if trim(ps[i].api_key).len() == 0 {
            Err("add an API key for "@ + ps[i].id + " in Settings"@)
        } else {
            Ok(i)
        }
    }
}

/// The first provider with id `id`, if any.
fn find_provider(ps: &Vec<CloudProvider>, id: &str) -> (r: Option<usize>)
    ensures
        match r {
            Some(i) => i < ps@.len() && ps@[i as int].id@ == id@ && forall|j: int|
                0 <= j < i ==> (#[trigger] ps@[j]).id@ != id@,
            None => forall|j: int| 0 <= j < ps@.len() ==> (#[trigger] ps@[j]).id@ != id@,
        },
{
    let mut i: usize = 0;
    while i < ps.len()
        invariant
            i <= ps@.len(),
            forall|j: int| 0 <= j < i ==> (#[trigger] ps@[j]).id@ != id@,
        decreases ps.len() - i,
    {
        if str_eq(ps[i].id.as_str(), id) {
            return Some(i);
        }
        i = i + 1;
    }
    None
}

/// The provider chosen for `purpose` ("voice" or "text"), by id.
pub fn selected<'a>(settings: &'a Settings, id: &str, purpose: &str) -> (r: Result<
    &'a CloudProvider,
    String,
>)
    ensures
        match selected_spec(providers_view(settings.cloud_providers@), id@, purpose@) {
            Ok(i) => r matches Ok(p) && p == settings.cloud_providers@[i],
            Err(e) => r matches Err(x) && x@ == e,
        },
{
    let ghost ps = providers_view(settings.cloud_providers@);
    let t = trim_str(id);
    if t.as_str().is_empty() {
        let mut e = String::from_str("choose a cloud ");
        e.append(purpose);
        e.append(" provider in Settings first");
        return Err(e);
    }
    match find_provider(&settings.cloud_providers, id) {
        None => {
            proof {
                assert forall|i: int| 0 <= i < ps.len() implies (#[trigger] ps[i]).id != id@ by {
                    assert(ps[i] == settings.cloud_providers@[i]@);
                }
            }
            let mut e = String::from_str("cloud provider '");
            e.append(id);
            e.append("' is not configured");
            Err(e)
        },
        Some(i) => {
            let p = &settings.cloud_providers[i];
            proof {
                assert(ps[i as int] == p@);
                assert forall|j: int| 0 <= j < i implies (#[trigger] ps[j]).id != id@ by {
                    assert(ps[j] == settings.cloud_providers@[j]@);
                }
                let k = choose|k: int|
                    0 <= k < ps.len() && (#[trigger] ps[k]).id == id@ && forall|j: int|
                        0 <= j < k ==> (#[trigger] ps[j]).id != id@;
                if k < i {
                    assert(ps[k] == settings.cloud_providers@[k]@);
                } else if k > i {
                    assert(ps[i as int].id == id@);
                }
                assert(k == i);
            }
            let key = trim_str(p.api_key.as_str());
            if key.as_str().is_empty() {
                let mut e = String::from_str("add an API key for ");
                e.append(p.id.as_str());
                e.append(" in Settings");
                return Err(e);
            }
            Ok(p)
        },
    }
}

/// Whether cloud transcription is set up: a voice provider chosen, configured, with a key.
pub fn voice_ready(settings: &Settings) -> (r: bool)
    ensures
        r == selected_spec(
            providers_view(settings.cloud_providers@),
            settings.cloud_voice_provider@,
            "voice"@,
        ) is Ok,
{
    selected(settings, settings.cloud_voice_provider.as_str(), "voice").is_ok()
}

/// Whether cloud summaries and answers are set up: a text provider chosen, configured,
/// with a key.
pub fn text_ready(settings: &Settings) -> (r: bool)
    ensures
        r == selected_spec(
            providers_view(settings.cloud_providers@),
            settings.cloud_text_provider@,
            "text"@,
        ) is Ok,
{
    selected(settings, settings.cloud_text_provider.as_str(), "text").is_ok()
}

/// The multipart form a transcription is posted as: the model field, the language field
/// (filled only when a language is given), and the audio as `segment.wav`.
pub struct VoiceForm {
    pub model_field: String,
    pub language_field: String,
    pub language: Option<String>,
}

/// How a transcription request is made: where it goes, the authorisation header, the
/// model, and either a form or (when `form` is none) the raw WAV as the body. The
/// transcript is read from the reply at `text_pointer` (a JSON pointer).
pub struct VoiceRequest {
    /// The provider's id, for messages about the reply.
    pub provider: String,
    pub url: String,
    pub auth_header: String,
    pub auth_value: String,
    pub model: String,
    pub form: Option<VoiceForm>,
    pub text_pointer: String,
}

/// The language sent with a form: the one given, unless it is empty.
pub open spec fn lang_sent(language: Option<Seq<char>>) -> Option<Seq<char>> {
    match language {
        Some(l) => if l.len() > 0 {
            Some(l)
        } else {
            None
        },
        None => None,
    }
}

pub open spec fn opt_view(o: Option<String>) -> Option<Seq<char>> {
    match o {
        Some(s) => Some(s@),
        None => None,
    }
}

pub open spec fn opt_ref_view(o: Option<&str>) -> Option<Seq<char>> {
    match o {
        Some(s) => Some(s@),
        None => None,
    }
}

/// The request for provider `id` with key `key`, trimmed model `model` and language.
pub open spec fn voice_request_ok(
    r: VoiceRequest,
    id: Seq<char>,
    key: Seq<char>,
    model: Seq<char>,
    language: Option<Seq<char>>,
) -> bool {
    &&& r.provider@ == id
    &&& r.model@ == model
    &&& if id == "openai"@ || id == "mistral"@ {
        &&& r.url@ == (if id == "openai"@ {
            "https://api.openai.com/v1/audio/transcriptions"@
        } else {
            "https://api.mistral.ai/v1/audio/transcriptions"@
        })
        &&& r.auth_header@ == "authorization"@
        &&& r.auth_value@ == "Bearer "@ + key
        &&& r.form matches Some(f) && f.model_field@ == "model"@ && f.language_field@
            == "language"@ && opt_view(f.language) == lang_sent(language)
        &&& r.text_pointer@ == "/text"@
    } else if id == "deepgram"@ {
        &&& r.url@ == "https://api.deepgram.com/v1/listen?model="@ + model
            + "&smart_format=true"@
        &&& r.auth_header@ == "authorization"@
        &&& r.auth_value@ == "Token "@ + key
        &&& r.form is None
        &&& r.text_pointer@ == "/results/channels/0/alternatives/0/transcript"@
    } else {
        &&& id == "elevenlabs"@
        &&& r.url@ == "https://api.elevenlabs.io/v1/speech-to-text"@
        &&& r.auth_header@ == "xi-api-key"@
        &&& r.auth_value@ == key
        &&& r.form matches Some(f) && f.model_field@ == "model_id"@ && f.language_field@
            == "language_code"@ && opt_view(f.language) == lang_sent(language)
        &&& r.text_pointer@ == "/text"@
    }
}

pub open spec fn known_voice(id: Seq<char>) -> bool {
    id == "openai"@ || id == "mistral"@ || id == "deepgram"@ || id == "elevenlabs"@
}

fn lang_field(language: Option<&str>) -> (r: Option<String>)
    ensures
        opt_view(r) == lang_sent(opt_ref_view(language)),
{
    match language {
        Some(l) => if l.is_empty() {
            None
        } else {
            Some(String::from_str(l))
        },
        None => None,
    }
}

/// How to transcribe with the chosen voice provider. Errors when cloud voice is not set
/// up (as `selected` says), when the provider has no voice model, and when the provider
/// does not transcribe.
pub fn voice_request(settings: &Settings, language: Option<&str>) -> (r: Result<VoiceRequest, String>)
    ensures
        match selected_spec(
            providers_view(settings.cloud_providers@),
            settings.cloud_voice_provider@,
            "voice"@,
        ) {
            Err(e) => r matches Err(x) && x@ == e,
            Ok(i) => {
                let p = settings.cloud_providers@[i]@;
                let model = trim(p.voice_model);
                if model.len() == 0 {
                    r matches Err(x) && x@ == "choose a voice model for "@ + p.id + " in Settings"@
                } else if !known_voice(p.id) {
                    r matches Err(x) && x@ == "unsupported cloud voice provider: "@ + p.id
                } else {
                    r matches Ok(q) && voice_request_ok(
                        q,
                        p.id,
                        p.api_key,
                        model,
                        opt_ref_view(language),
                    )
                }
            },
        },
{
    let p = selected(settings, settings.cloud_voice_provider.as_str(), "voice")?;
    let model = trim_str(p.voice_model.as_str());
    if model.as_str().is_empty() {
        let mut e = String::from_str("choose a voice model for ");
        e.append(p.id.as_str());
        e.append(" in Settings");
        return Err(e);
    }
    let id = p.id.as_str();
    if str_eq(id, "openai") || str_eq(id, "mistral") {
        let url = if str_eq(id, "openai") {
            String::from_str("https://api.openai.com/v1/audio/transcriptions")
        } else {
            String::from_str("https://api.mistral.ai/v1/audio/transcriptions")
        };
        Ok(VoiceRequest {
            provider: p.id.clone(),
            url,
            auth_header: String::from_str("authorization"),
            auth_value: concat("Bearer ", p.api_key.as_str()),
            model,
            form: Some(
                VoiceForm {
                    model_field: String::from_str("model"),
                    language_field: String::from_str("language"),
                    language: lang_field(language),
                },
            ),
            text_pointer: String::from_str("/text"),
        })
    } else if str_eq(id, "deepgram") {
        let mut url = String::from_str("https://api.deepgram.com/v1/listen?model=");
        url.append(model.as_str());
        url.append("&smart_format=true");
        Ok(VoiceRequest {
            provider: p.id.clone(),
            url,
            auth_header: String::from_str("authorization"),
            auth_value: concat("Token ", p.api_key.as_str()),
            model,
            form: None,
            text_pointer: String::from_str("/results/channels/0/alternatives/0/transcript"),
        })
    } else if str_eq(id, "elevenlabs") {
        Ok(VoiceRequest {
            provider: p.id.clone(),
            url: String::from_str("https://api.elevenlabs.io/v1/speech-to-text"),
            auth_header: String::from_str("xi-api-key"),
            auth_value: p.api_key.clone(),
            model,
            form: Some(
                VoiceForm {
                    model_field: String::from_str("model_id"),
                    language_field: String::from_str("language_code"),
                    language: lang_field(language),
                },
            ),
            text_pointer: String::from_str("/text"),
        })
    } else {
        Err(concat("unsupported cloud voice provider: ", id))
    }
}

/// How a chat request is made: where it goes, the bearer value, and the model.
pub struct ChatRequest {
    pub provider: String,
    pub url: String,
    pub auth_value: String,
    pub model: String,
}

/// How to ask the chosen text provider. Errors when cloud text is not set up, when the
/// provider has no text model, and when the provider is neither OpenAI nor Mistral.
pub fn chat_request(settings: &Settings) -> (r: Result<ChatRequest, String>)
    ensures
        match selected_spec(
            providers_view(settings.cloud_providers@),
            settings.cloud_text_provider@,
            "text"@,
        ) {
            Err(e) => r matches Err(x) && x@ == e,
            Ok(i) => {
                let p = settings.cloud_providers@[i]@;
                let model = trim(p.text_model);
                if model.len() == 0 {
                    r matches Err(x) && x@ == "choose a text model for "@ + p.id + " in Settings"@
                } else if p.id == "openai"@ {
                    r matches Ok(q) && q.url@ == "https://api.openai.com/v1/chat/completions"@
                        && q.auth_value@ == "Bearer "@ + p.api_key && q.model@ == model
                        && q.provider@ == p.id
                } else if p.id == "mistral"@ {
                    r matches Ok(q) && q.url@ == "https://api.mistral.ai/v1/chat/completions"@
                        && q.auth_value@ == "Bearer "@ + p.api_key && q.model@ == model
                        && q.provider@ == p.id
                } else {
                    r matches Err(x) && x@ == p.id
                        + " is not available for meeting text; choose OpenAI or Mistral"@
                }
            },
        },
{
    let p = selected(settings, settings.cloud_text_provider.as_str(), "text")?;
    let model = trim_str(p.text_model.as_str());
    if model.as_str().is_empty() {
        let mut e = String::from_str("choose a text model for ");
        e.append(p.id.as_str());
        e.append(" in Settings");
        return Err(e);
    }
    let id = p.id.as_str();
    let url = if str_eq(id, "openai") {
        String::from_str("https://api.openai.com/v1/chat/completions")
    } else if str_eq(id, "mistral") {
        String::from_str("https://api.mistral.ai/v1/chat/completions")
    } else {
        return Err(concat(id, " is not available for meeting text; choose OpenAI or Mistral"));
    };
    Ok(ChatRequest {
        provider: p.id.clone(),
        url,
        auth_value: concat("Bearer ", p.api_key.as_str()),
        model,
    })
}

/// The reply of a chat request: its content trimmed, or an error when there is none.
pub fn chat_reply(provider: &str, content: Option<&str>) -> (r: Result<String, String>)
    ensures
        match content {
            Some(c) if trim(c@).len() > 0 => r matches Ok(t) && t@ == trim(c@),
            _ => r matches Err(e) && e@ == provider@ + " returned no text"@,
        },
{
    match content {
        Some(c) => {
            let t = trim_str(c);
            if !t.as_str().is_empty() {
                return Ok(t);
            }
        },
        None => {},
    }
    Err(concat(provider, " returned no text"))
}

/// The user message asking for a summary of `transcript`.
pub fn summary_request_text(transcript: &str) -> (r: String)
    ensures
        r@ == "Transcript:\n\n"@ + transcript@,
{
    concat("Transcript:\n\n", transcript)
}

/// The user message asking `question` about a meeting with `context`.
pub fn question_request_text(context: &str, question: &str) -> (r: String)
    ensures
        r@ == context@ + "\n\nQuestion: "@ + question@,
{
    let mut r = concat(context, "\n\nQuestion: ");
    r.append(question);
    r
}

/// The four little-endian bytes of `x`.
pub open spec fn le32(x: u32) -> Seq<u8> {
    seq![
        (x & 0xff) as u8,
        ((x >> 8u32) & 0xff) as u8,
        ((x >> 16u32) & 0xff) as u8,
        ((x >> 24u32) & 0xff) as u8,
    ]
}

/// The two little-endian bytes of `x`.
pub open spec fn le16(x: u16) -> Seq<u8> {
    seq![(x & 0xff) as u8, ((x >> 8u16) & 0xff) as u8]
}

/// The little-endian bytes of each 16-bit sample, in order.
pub open spec fn pcm_bytes(samples: Seq<i16>) -> Seq<u8>
    decreases samples.len(),
{
    if samples.len() == 0 {
        seq![]
    } else {
        pcm_bytes(samples.drop_last()) + le16(samples.last() as u16)
    }
}

/// The 44-byte header of a mono 16-bit PCM WAV file holding `n` samples at `rate` Hz.
pub open spec fn wav_header(n: nat, rate: u32) -> Seq<u8> {
    let data_len = (2 * n) as u32;
    "RIFF"@.map_values(|c: char| c as u8) + le32((36 + data_len) as u32) + "WAVEfmt "@.map_values(
        |c: char| c as u8,
    ) + le32(16) + le16(1) + le16(1) + le32(rate) + le32((rate * 2) as u32) + le16(2) + le16(16)
        + "data"@.map_values(|c: char| c as u8) + le32(data_len)
}

fn push_le32(out: &mut Vec<u8>, x: u32)
    ensures
        final(out)@ == old(out)@ + le32(x),
{
    out.push((x & 0xff) as u8);
    out.push(((x >> 8u32) & 0xff) as u8);
    out.push(((x >> 16u32) & 0xff) as u8);
    out.push(((x >> 24u32) & 0xff) as u8);
    assert(final(out)@ =~= old(out)@ + le32(x));
}

fn push_le16(out: &mut Vec<u8>, x: u16)
    ensures
        final(out)@ == old(out)@ + le16(x),
{
    out.push((x & 0xff) as u8);
    out.push(((x >> 8u16) & 0xff) as u8);
    assert(final(out)@ =~= old(out)@ + le16(x));
}

fn push_ascii(out: &mut Vec<u8>, s: &str)
    requires
        s.is_ascii(),
    ensures
        final(out)@ == old(out)@ + s@.map_values(|c: char| c as u8),
{
    let b = s.as_bytes();
    proof {
        vstd::string::is_ascii_spec_bytes(s);
    }
    let mut i: usize = 0;
    let ghost start = out@;
    while i < b.len()
        invariant
            i <= b@.len(),
            b@ == s@.map_values(|c: char| c as u8),
            out@ == start + b@.take(i as int),
        decreases b.len() - i,
    {
        out.push(b[i]);
        assert(b@.take(i + 1) =~= b@.take(i as int).push(b@[i as int]));
        assert(out@ =~= start + b@.take(i + 1));
        i = i + 1;
    }
    assert(b@.take(b@.len() as int) =~= b@);
}

/// A mono 16-bit PCM WAV file of `samples` at `sample_rate` Hz: the 44-byte header, then
/// each sample in little-endian order.
pub fn pcm16_wav(samples: &[i16], sample_rate: u32) -> (r: Vec<u8>)
    requires
        2 * samples@.len() + 36 <= u32::MAX,
        2 * sample_rate <= u32::MAX,
    ensures
        r@ == wav_header(samples@.len(), sample_rate) + pcm_bytes(samples@),
{
    let n = samples.len();
    let data_len = (n * 2) as u32;
    let mut out: Vec<u8> = Vec::new();
    proof {
        reveal_strlit("RIFF");
        reveal_strlit("WAVEfmt ");
        reveal_strlit("data");
    }
    push_ascii(&mut out, "RIFF");
    push_le32(&mut out, 36 + data_len);
    push_ascii(&mut out, "WAVEfmt ");
    push_le32(&mut out, 16);
    push_le16(&mut out, 1);
    push_le16(&mut out, 1);
    push_le32(&mut out, sample_rate);
    push_le32(&mut out, sample_rate * 2);
    push_le16(&mut out, 2);
    push_le16(&mut out, 16);
    push_ascii(&mut out, "data");
    push_le32(&mut out, data_len);
    let ghost header = out@;
    assert(header =~= wav_header(n as nat, sample_rate));
    let mut i: usize = 0;
    while i < n
        invariant
            n == samples@.len(),
            i <= n,
            out@ == header + pcm_bytes(samples@.take(i as int)),
        decreases n - i,
    {
        push_le16(&mut out, samples[i] as u16);
        assert(samples@.take(i + 1).drop_last() =~= samples@.take(i as int));
        assert(out@ =~= header + pcm_bytes(samples@.take(i + 1)));
        i = i + 1;
    }
    assert(samples@.take(n as int) =~= samples@);
    out
}

#[verifier::external_type_specification]
#[verifier::external_body]
pub struct ExJsonValue(Value);

/// What `serde_json::from_str::<Value>` gives for `body`: `None` when the text parses,
/// else the parser's message.
pub uninterp spec fn json_error(body: Seq<char>) -> Option<Seq<char>>;

/// Whether the JSON Pointers `path`, followed in turn with `Value::pointer` from the
/// document that `body` parses to, lead to a value.
pub uninterp spec fn json_found(body: Seq<char>, path: Seq<Seq<char>>) -> bool;

/// What `Value::as_str` gives for the value that the pointers `path` lead to in the
/// document `body` parses to: its text when it is a JSON string, else `None`.
pub uninterp spec fn json_text(body: Seq<char>, path: Seq<Seq<char>>) -> Option<Seq<char>>;

/// A value within a JSON document: the document's text and the JSON Pointers followed
/// in it, in turn, to reach the value. Only `reply_json` and `follow` make one, each
/// recording the text and pointers that give the value it holds.
pub struct Json {
    value: Value,
    body: Ghost<Seq<char>>,
    path: Ghost<Seq<Seq<char>>>,
}

impl View for Json {
    type V = (Seq<char>, Seq<Seq<char>>);

    closed spec fn view(&self) -> (Seq<char>, Seq<Seq<char>>) {
        (self.body@, self.path@)
    }
}

/// `serde_json::from_str` into a `Value`: the document, or the parser's message, as
/// `json_error` names it.
#[verifier::external_body]
fn json_parse(body: &str) -> (r: Result<Value, String>)
    ensures
        match r {
            Ok(_) => json_error(body@) is None,
            Err(m) => json_error(body@) == Some(m@),
        },
{
    serde_json::from_str::<Value>(body).map_err(|e| e.to_string())
}

/// `Value::pointer` on the value `j` holds: the value the JSON Pointer (RFC 6901)
/// `pointer` leads to, when there is one, as `json_found` names it.
#[verifier::external_body]
fn json_pointer(j: &Json, pointer: &str) -> (r: Option<Value>)
    ensures
        r is Some == json_found(j@.0, j@.1.push(pointer@)),
{
    j.value.pointer(pointer).cloned()
}

/// `Value::as_str` on the value `j` holds: its text when it is a JSON string, as
/// `json_text` names it.
#[verifier::external_body]
fn json_as_str(j: &Json) -> (r: Option<String>)
    ensures
        match r {
            Some(t) => json_text(j@.0, j@.1) == Some(t@),
            None => json_text(j@.0, j@.1) is None,
        },
{
    j.value.as_str().map(|t| t.to_string())
}

/// The value that the JSON Pointer `pointer` leads to from `j`, if any.
fn follow(j: &Json, pointer: &str) -> (r: Option<Json>)
    ensures
        match r {
            Some(k) => json_found(j@.0, j@.1.push(pointer@)) && k@ == (j@.0, j@.1.push(pointer@)),
            None => !json_found(j@.0, j@.1.push(pointer@)),
        },
{
    match json_pointer(j, pointer) {
        Some(v) => Some(Json { value: v, body: Ghost(j.body@), path: Ghost(j.path@.push(pointer@)) }),
        None => None,
    }
}

/// The text of the JSON string that the pointer `pointer` leads to from the value `j`
/// (a document's text and the pointers followed in it); `None` when it leads nowhere or
/// to something other than a string.
pub open spec fn pointed_text(j: (Seq<char>, Seq<Seq<char>>), pointer: Seq<char>) -> Option<Seq<char>> {
    if json_found(j.0, j.1.push(pointer)) {
        json_text(j.0, j.1.push(pointer))
    } else {
        None
    }
}

/// The text of the JSON string at `pointer` from `j`, if there is one.
fn text_at(j: &Json, pointer: &str) -> (r: Option<String>)
    ensures
        match r {
            Some(t) => pointed_text(j@, pointer@) == Some(t@),
            None => pointed_text(j@, pointer@) is None,
        },
{
    match follow(j, pointer) {
        Some(k) => json_as_str(&k),
        None => None,
    }
}

/// A lower-case hexadecimal digit.
pub open spec fn hex_digit(d: u32) -> char {
    if d < 10 {
        (('0' as u32) + d) as char
    } else {
        (('a' as u32) + d - 10) as char
    }
}

/// How `serde_json` writes one character inside a JSON string: `"` and `\` behind a
/// backslash; backspace, tab, line feed, form feed and carriage return as `\b`, `\t`,
/// `\n`, `\f`, `\r`; the other control characters below U+0020 as `\u00XX` in
/// lower-case hexadecimal; every other character as it is.
pub open spec fn json_escape(c: char) -> Seq<char> {
    if c == '"' {
        seq!['\\', '"']
    } else if c == '\\' {
        seq!['\\', '\\']
    } else if c == '\u{08}' {
        seq!['\\', 'b']
    } else if c == '\t' {
        seq!['\\', 't']
    } else if c == '\n' {
        seq!['\\', 'n']
    } else if c == '\u{0C}' {
        seq!['\\', 'f']
    } else if c == '\r' {
        seq!['\\', 'r']
    } else if (c as u32) < 0x20 {
        seq!['\\', 'u', '0', '0', hex_digit((c as u32) / 16), hex_digit((c as u32) % 16)]
    } else {
        seq![c]
    }
}

/// The characters of `s`, each written as `json_escape` says.
pub open spec fn json_escaped(s: Seq<char>) -> Seq<char>
    decreases s.len(),
{
    if s.len() == 0 {
        seq![]
    } else {
        json_escaped(s.drop_last()) + json_escape(s.last())
    }
}

/// What `serde_json::to_string` writes for a string: the JSON string literal holding it,
/// its characters escaped as `json_escape` says, between double quotes.
pub open spec fn json_quoted(s: Seq<char>) -> Seq<char> {
    seq!['"'] + json_escaped(s) + seq!['"']
}

/// `serde_json::to_string` of a string, which cannot fail: serializing a `str` into a
/// `Vec<u8>` raises no error.
#[verifier::external_body]
fn json_string(s: &str) -> (r: String)
    ensures
        r@ == json_quoted(s@),
{
    match serde_json::to_string(s) {
        Ok(q) => q,
        Err(_) => String::new(),
    }
}

/// The JSON document a provider's reply carries: when the request failed, an error
/// naming the provider, the status and the body; otherwise the body parsed, or an error
/// saying the provider returned invalid JSON, with the parser's message.
pub fn reply_json(provider: &str, success: bool, status: &str, body: &str) -> (r: Result<
    Json,
    String,
>)
    ensures
        !success ==> (r matches Err(e) && e@ == provider@ + " request failed ("@ + status@ + "): "@
            + body@),
        success ==> match json_error(body@) {
            None => r matches Ok(j) && j@ == (body@, Seq::<Seq<char>>::empty()),
            Some(m) => r matches Err(e) && e@ == provider@ + " returned invalid JSON: "@ + m,
        },
{
    if !success {
        let mut e = String::from_str(provider);
        e.append(" request failed (");
        e.append(status);
        e.append("): ");
        e.append(body);
        return Err(e);
    }
    match json_parse(body) {
        Ok(v) => Ok(Json { value: v, body: Ghost(body@), path: Ghost(Seq::empty()) }),
        Err(m) => {
            let mut e = String::from_str(provider);
            e.append(" returned invalid JSON: ");
            e.append(m.as_str());
            Err(e)
        },
    }
}

/// A transcript as found in a reply: the text trimmed, or empty when there is none.
pub fn found_transcript(found: Option<String>) -> (r: String)
    ensures
        r@ == match found {
            Some(t) => trim(t@),
            None => Seq::<char>::empty(),
        },
{
    match found {
        Some(t) => trim_str(t.as_str()),
        None => String::new(),
    }
}

/// The transcript in a transcription reply, at the JSON Pointer `pointer`: the string
/// there, trimmed; empty when there is none.
pub fn transcript_from(json: &Json, pointer: &str) -> (r: String)
    ensures
        r@ == match pointed_text(json@, pointer@) {
            Some(t) => trim(t),
            None => Seq::<char>::empty(),
        },
{
    found_transcript(text_at(json, pointer))
}

/// The answer in a chat reply: the message content, trimmed, or an error saying the
/// provider returned no text.
pub fn chat_text(provider: &str, json: &Json) -> (r: Result<String, String>)
    ensures
        match pointed_text(json@, "/choices/0/message/content"@) {
            Some(c) if trim(c).len() > 0 => r matches Ok(t) && t@ == trim(c),
            _ => r matches Err(e) && e@ == provider@ + " returned no text"@,
        },
{
    let content = text_at(json, "/choices/0/message/content");
    match &content {
        Some(c) => chat_reply(provider, Some(c.as_str())),
        None => chat_reply(provider, None),
    }
}

/// The body of a chat request, as `serde_json` writes the document with model `model`,
/// temperature 0.1, and the system and user messages: keys in sorted order.
pub fn chat_body(model: &str, system: &str, user: &str) -> (r: String)
    ensures
        r@ == "{\"messages\":[{\"content\":"@ + json_quoted(system@) + ",\"role\":\"system\"},{\"content\":"@
            + json_quoted(user@) + ",\"role\":\"user\"}],\"model\":"@ + json_quoted(model@)
            + ",\"temperature\":0.1}"@,
{
    let mut b = String::from_str("{\"messages\":[{\"content\":");
    b.append(json_string(system).as_str());
    b.append(",\"role\":\"system\"},{\"content\":");
    b.append(json_string(user).as_str());
    b.append(",\"role\":\"user\"}],\"model\":");
    b.append(json_string(model).as_str());
    b.append(",\"temperature\":0.1}");
    b
}

proof fn lemma_first_with_id(ps: Seq<CloudProviderView>, id: Seq<char>, n: int)
    requires
        0 <= n <= ps.len(),
        exists|i: int| 0 <= i < n && (#[trigger] ps[i]).id == id,
    ensures
        exists|i: int|
            0 <= i < n && (#[trigger] ps[i]).id == id && forall|j: int| 0 <= j < i ==> (#[trigger] ps[j]).id
                != id,
    decreases n,
{
    if exists|i: int| 0 <= i < n - 1 && (#[trigger] ps[i]).id == id {
        lemma_first_with_id(ps, id, n - 1);
    } else {
        assert(ps[n - 1].id == id);
        assert(forall|j: int| 0 <= j < n - 1 ==> (#[trigger] ps[j]).id != id);
    }
}

/// A request goes to the provider the user chose: it is chosen exactly when the id is
/// not blank and the first provider configured with that id has a key, and then it is
/// that provider.
pub proof fn law_selected_provider(ps: Seq<CloudProviderView>, id: Seq<char>, purpose: Seq<char>)
    ensures
        (selected_spec(ps, id, purpose) is Ok) == (trim(id).len() > 0 && exists|i: int|
            0 <= i < ps.len() && (#[trigger] ps[i]).id == id && trim(ps[i].api_key).len() > 0
                && forall|j: int| 0 <= j < i ==> (#[trigger] ps[j]).id != id),
        selected_spec(ps, id, purpose) matches Ok(i) ==> 0 <= i < ps.len() && ps[i].id == id && trim(
            ps[i].api_key,
        ).len() > 0 && forall|j: int| 0 <= j < i ==> (#[trigger] ps[j]).id != id,
{
    if trim(id).len() > 0 && exists|i: int| 0 <= i < ps.len() && (#[trigger] ps[i]).id == id {
        lemma_first_with_id(ps, id, ps.len() as int);
        let c = choose|i: int|
            0 <= i < ps.len() && (#[trigger] ps[i]).id == id && forall|j: int|
                0 <= j < i ==> (#[trigger] ps[j]).id != id;
        assert forall|i: int|
            0 <= i < ps.len() && (#[trigger] ps[i]).id == id && forall|j: int|
                0 <= j < i ==> (#[trigger] ps[j]).id != id implies i == c by {
            if i < c {
                assert(ps[i].id != id);
            } else if i > c {
                assert(ps[c].id != id);
            }
        }
    }
}

} // verus!
