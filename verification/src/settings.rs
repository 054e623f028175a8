//! User settings: shortcuts, microphone, writing styles, the personal dictionary and the
//! cloud providers, and how an older settings file is read into them.
use vstd::prelude::*;
use crate::text::{clone_strings, concat, strs, to_lowercase, lowercase, trim, trim_str, join_with,
    lemma_join_with_push};

verus! {

/// The shortcut a fresh install records with (hands-free).
pub const DEFAULT_SHORTCUT: &'static str = "cmd+shift+space";

/// A learned correction: `from` is what the recogniser tends to hear, `to` is what the
/// speaker means. The `to` side also biases recognition.
#[derive(Debug)]
pub struct DictEntry {
    pub from: String,
    pub to: String,
}

impl View for DictEntry {
    type V = (Seq<char>, Seq<char>);

    open spec fn view(&self) -> (Seq<char>, Seq<char>) {
        (self.from@, self.to@)
    }
}

impl Clone for DictEntry {
    fn clone(&self) -> (r: Self)
        ensures
            r@ == self@,
    {
        DictEntry { from: self.from.clone(), to: self.to.clone() }
    }
}

/// A writing style the cleanup model imitates, defined by samples of the user's own
/// writing, explicit rules, and whether to lower-case the output.
#[derive(Debug)]
pub struct Style {
    pub id: String,
    pub name: String,
    pub notes: String,
    pub lowercase: bool,
    pub samples: Vec<String>,
}

pub struct StyleView {
    pub id: Seq<char>,
    pub name: Seq<char>,
    pub notes: Seq<char>,
    pub lowercase: bool,
    pub samples: Seq<Seq<char>>,
}

impl View for Style {
    type V = StyleView;

    open spec fn view(&self) -> StyleView {
        StyleView {
            id: self.id@,
            name: self.name@,
            notes: self.notes@,
            lowercase: self.lowercase,
            samples: strs(self.samples@),
        }
    }
}

impl Clone for Style {
    fn clone(&self) -> (r: Self)
        ensures
            r@ == self@,
    {
        Style {
            id: self.id.clone(),
            name: self.name.clone(),
            notes: self.notes.clone(),
            lowercase: self.lowercase,
            samples: clone_strings(&self.samples),
        }
    }
}

/// A bring-your-own-key cloud provider.
#[derive(Debug)]
pub struct CloudProvider {
    pub id: String,
    pub api_key: String,
    pub voice_model: String,
    pub text_model: String,
}

pub struct CloudProviderView {
    pub id: Seq<char>,
    pub api_key: Seq<char>,
    pub voice_model: Seq<char>,
    pub text_model: Seq<char>,
}

impl View for CloudProvider {
    type V = CloudProviderView;

    open spec fn view(&self) -> CloudProviderView {
        CloudProviderView {
            id: self.id@,
            api_key: self.api_key@,
            voice_model: self.voice_model@,
            text_model: self.text_model@,
        }
    }
}

/// The settings.
#[derive(Debug)]
pub struct Settings {
    /// Press once to start, again to stop.
    pub hands_free: Vec<String>,
    /// Hold to record, release to finish.
    pub push_to_talk: Vec<String>,
    /// Input device name; empty means the system default.
    pub mic_device: String,
    pub styles: Vec<Style>,
    /// Style applied by default; empty means none.
    pub default_style: String,
    /// Personal dictionary built from the user's corrections.
    pub dictionary: Vec<DictEntry>,
    pub cloud_providers: Vec<CloudProvider>,
    /// Provider id used for cloud transcription; empty means none chosen.
    pub cloud_voice_provider: String,
    /// Provider id used for cloud summaries and answers; empty means none chosen.
    pub cloud_text_provider: String,
}

pub open spec fn dict_view(d: Seq<DictEntry>) -> Seq<(Seq<char>, Seq<char>)> {
    d.map_values(|e: DictEntry| e@)
}

pub open spec fn providers_view(p: Seq<CloudProvider>) -> Seq<CloudProviderView> {
    p.map_values(|c: CloudProvider| c@)
}

/// The settings of a fresh install: one hands-free shortcut (`cmd+shift+space`) and
/// nothing else.
pub open spec fn fresh_settings(r: Settings) -> bool {
    &&& strs(r.hands_free@) == seq![DEFAULT_SHORTCUT@]
    &&& r.push_to_talk@.len() == 0
    &&& r.mic_device@.len() == 0
    &&& r.styles@.len() == 0
    &&& r.default_style@.len() == 0
    &&& r.dictionary@.len() == 0
    &&& r.cloud_providers@.len() == 0
    &&& r.cloud_voice_provider@.len() == 0
    &&& r.cloud_text_provider@.len() == 0
}

impl Default for Settings {
    /// One hands-free shortcut (`cmd+shift+space`) and nothing else.
    fn default() -> (r: Self)
        ensures
            fresh_settings(r),
    {
        let mut hands_free: Vec<String> = Vec::new();
        hands_free.push(String::from_str(DEFAULT_SHORTCUT));
        assert(strs(hands_free@) =~= seq![DEFAULT_SHORTCUT@]);
        Settings {
            hands_free,
            push_to_talk: Vec::new(),
            mic_device: String::new(),
            styles: Vec::new(),
            default_style: String::new(),
            dictionary: Vec::new(),
            cloud_providers: Vec::new(),
            cloud_voice_provider: String::new(),
            cloud_text_provider: String::new(),
        }
    }
}

/// The settings file as written, including the single `shortcut` of older versions. A
/// missing field is `None`.
#[derive(Debug)]
pub struct RawSettings {
    pub shortcut: Option<String>,
    pub hands_free: Option<Vec<String>>,
    pub push_to_talk: Option<Vec<String>>,
    pub mic_device: Option<String>,
    pub styles: Option<Vec<Style>>,
    pub default_style: Option<String>,
    pub dictionary: Option<Vec<DictEntry>>,
    pub cloud_providers: Option<Vec<CloudProvider>>,
    pub cloud_voice_provider: Option<String>,
    pub cloud_text_provider: Option<String>,
}

/// The hands-free shortcuts a settings file gives: its own list when it has one; else
/// the old single shortcut (hands-free), none when that was blanked out, and the default
/// when there was none at all.
pub open spec fn hands_free_of(hands_free: Option<Seq<Seq<char>>>, shortcut: Option<Seq<char>>) -> Seq<
    Seq<char>,
> {
    match hands_free {
        Some(v) => v,
        None => match shortcut {
            Some(s) => if trim(s).len() > 0 {
                seq![s]
            } else {
                seq![]
            },
            None => seq![DEFAULT_SHORTCUT@],
        },
    }
}

pub open spec fn opt_strs(o: Option<Vec<String>>) -> Option<Seq<Seq<char>>> {
    match o {
        Some(v) => Some(strs(v@)),
        None => None,
    }
}

pub open spec fn opt_str(o: Option<String>) -> Option<Seq<char>> {
    match o {
        Some(v) => Some(v@),
        None => None,
    }
}

pub open spec fn str_or_empty(o: Option<String>) -> Seq<char> {
    match o {
        Some(v) => v@,
        None => seq![],
    }
}

/// Whether `r` is what the settings file `raw` gives: each field as written, an absent
/// one empty, and the hands-free shortcuts as `hands_free_of` says.
pub open spec fn read_from(raw: RawSettings, r: Settings) -> bool {
    &&& strs(r.hands_free@) == hands_free_of(opt_strs(raw.hands_free), opt_str(raw.shortcut))
    &&& r.push_to_talk@ == match raw.push_to_talk {
        Some(v) => v@,
        None => seq![],
    }
    &&& r.mic_device@ == str_or_empty(raw.mic_device)
    &&& r.styles@ == match raw.styles {
        Some(v) => v@,
        None => seq![],
    }
    &&& r.default_style@ == str_or_empty(raw.default_style)
    &&& r.dictionary@ == match raw.dictionary {
        Some(v) => v@,
        None => seq![],
    }
    &&& r.cloud_providers@ == match raw.cloud_providers {
        Some(v) => v@,
        None => seq![],
    }
    &&& r.cloud_voice_provider@ == str_or_empty(raw.cloud_voice_provider)
    &&& r.cloud_text_provider@ == str_or_empty(raw.cloud_text_provider)
}

/// The settings file written for `s`: every field present, and no single `shortcut`
/// of older versions.
pub open spec fn saved_form(s: Settings) -> RawSettings {
    RawSettings {
        shortcut: None,
        hands_free: Some(s.hands_free),
        push_to_talk: Some(s.push_to_talk),
        mic_device: Some(s.mic_device),
        styles: Some(s.styles),
        default_style: Some(s.default_style),
        dictionary: Some(s.dictionary),
        cloud_providers: Some(s.cloud_providers),
        cloud_voice_provider: Some(s.cloud_voice_provider),
        cloud_text_provider: Some(s.cloud_text_provider),
    }
}

/// Saved settings load back: the settings read from the file written for `s` are `s`,
/// field by field, even when `s` has no hands-free shortcut at all.
pub proof fn law_saved_settings_load_back(s: Settings, r: Settings)
    requires
        read_from(saved_form(s), r),
    ensures
        strs(r.hands_free@) == strs(s.hands_free@),
        r.push_to_talk@ == s.push_to_talk@,
        r.mic_device@ == s.mic_device@,
        r.styles@ == s.styles@,
        r.default_style@ == s.default_style@,
        r.dictionary@ == s.dictionary@,
        r.cloud_providers@ == s.cloud_providers@,
        r.cloud_voice_provider@ == s.cloud_voice_provider@,
        r.cloud_text_provider@ == s.cloud_text_provider@,
{
}

/// The settings a settings file gives.
pub fn settings_from_raw(raw: RawSettings) -> (r: Settings)
    ensures
        read_from(raw, r),
{
    let hands_free = match raw.hands_free {
        Some(v) => v,
        None => match raw.shortcut {
            Some(s) => {
                let t = trim_str(s.as_str());
                if !t.as_str().is_empty() {
                    let mut v = Vec::new();
                    v.push(s);
                    assert(strs(v@) =~= seq![s@]);
                    v
                } else {
                    let v: Vec<String> = Vec::new();
                    assert(strs(v@) =~= Seq::<Seq<char>>::empty());
                    v
                }
            },
            None => {
                let mut v = Vec::new();
                v.push(String::from_str(DEFAULT_SHORTCUT));
                assert(strs(v@) =~= seq![DEFAULT_SHORTCUT@]);
                v
            },
        },
    };
    Settings {
        hands_free,
        push_to_talk: match raw.push_to_talk {
            Some(v) => v,
            None => Vec::new(),
        },
        mic_device: match raw.mic_device {
            Some(v) => v,
            None => String::new(),
        },
        styles: match raw.styles {
            Some(v) => v,
            None => Vec::new(),
        },
        default_style: match raw.default_style {
            Some(v) => v,
            None => String::new(),
        },
        dictionary: match raw.dictionary {
            Some(v) => v,
            None => Vec::new(),
        },
        cloud_providers: match raw.cloud_providers {
            Some(v) => v,
            None => Vec::new(),
        },
        cloud_voice_provider: match raw.cloud_voice_provider {
            Some(v) => v,
            None => String::new(),
        },
        cloud_text_provider: match raw.cloud_text_provider {
            Some(v) => v,
            None => String::new(),
        },
    }
}

/// The settings when there is no readable settings file, or the ones it gives.
pub fn load(raw: Option<RawSettings>) -> (r: Settings)
    ensures
        match raw {
            Some(x) => read_from(x, r),
            None => fresh_settings(r),
        },
{
    match raw {
        Some(x) => settings_from_raw(x),
        None => Settings::default(),
    }
}

/// The dictionary entries kept when a correction for `from` is added: those whose `from`
/// differs from it ignoring case.
pub open spec fn entries_kept(d: Seq<(Seq<char>, Seq<char>)>, from: Seq<char>) -> Seq<
    (Seq<char>, Seq<char>),
>
    decreases d.len(),
{
    if d.len() == 0 {
        seq![]
    } else {
        let prev = entries_kept(d.drop_last(), from);
        if lowercase(d.last().0) != lowercase(from) {
            prev.push(d.last())
        } else {
            prev
        }
    }
}

/// Teaches the dictionary that `from` means `to` (both trimmed). The new entry replaces
/// any entry for the same word, ignoring case, and goes last. Errors, changing nothing,
/// when either side is blank or both are the same.
pub fn add_correction(s: &mut Settings, from: &str, to: &str) -> (r: Result<(), String>)
    ensures
        ({
            let f = trim(from@);
            let t = trim(to@);
            if f.len() == 0 || t.len() == 0 || f == t {
                &&& r matches Err(e) && e@ == "correction needs a word and a different replacement"@
                &&& *final(s) == *old(s)
            } else {
                &&& r is Ok
                &&& dict_view(final(s).dictionary@) == entries_kept(
                    dict_view(old(s).dictionary@),
                    f,
                ).push((f, t))
                &&& final(s).hands_free == old(s).hands_free
                &&& final(s).push_to_talk == old(s).push_to_talk
                &&& final(s).styles == old(s).styles
                &&& final(s).mic_device == old(s).mic_device
                &&& final(s).default_style == old(s).default_style
                &&& final(s).cloud_providers == old(s).cloud_providers
                &&& final(s).cloud_voice_provider == old(s).cloud_voice_provider
                &&& final(s).cloud_text_provider == old(s).cloud_text_provider
            }
        }),
{
    let f = trim_str(from);
    let t = trim_str(to);
    if f.as_str().is_empty() || t.as_str().is_empty() || f == t {
        return Err(String::from_str("correction needs a word and a different replacement"));
    }
    let key = to_lowercase(f.as_str());
    let mut kept: Vec<DictEntry> = Vec::new();
    let ghost d = dict_view(s.dictionary@);
    let mut i: usize = 0;
    while i < s.dictionary.len()
        invariant
            d == dict_view(s.dictionary@),
            i <= s.dictionary@.len(),
            key@ == lowercase(f@),
            dict_view(kept@) == entries_kept(d.take(i as int), f@),
        decreases s.dictionary.len() - i,
    {
        assert(d.take(i + 1).drop_last() =~= d.take(i as int));
        assert(d.take(i + 1).last() == s.dictionary@[i as int]@);
        let lf = to_lowercase(s.dictionary[i].from.as_str());
        if lf != key {
            let e = s.dictionary[i].clone();
            let ghost before = kept@;
            kept.push(e);
            assert(dict_view(kept@) =~= dict_view(before).push(e@));
        }
        i = i + 1;
    }
    assert(d.take(d.len() as int) =~= d);
    let ghost before = kept@;
    let ghost fv = f@;
    let ghost tv = t@;
    kept.push(DictEntry { from: f, to: t });
    assert(dict_view(kept@) =~= dict_view(before).push((fv, tv)));
    s.dictionary = kept;
    Ok(())
}

/// The cloud provider ids the app knows how to talk to.
pub open spec fn known_provider(id: Seq<char>) -> bool {
    id == "openai"@ || id == "mistral"@ || id == "deepgram"@ || id == "elevenlabs"@
}

/// Replaces the cloud configuration. Errors, changing nothing, when a provider is not
/// one the app knows.
pub fn set_cloud_settings(
    s: &mut Settings,
    providers: Vec<CloudProvider>,
    voice: String,
    text: String,
) -> (r: Result<(), String>)
    ensures
        (forall|i: int| 0 <= i < providers@.len() ==> known_provider(#[trigger] providers@[i].id@))
            ==> r is Ok && final(s).cloud_providers@ == providers@ && final(s).cloud_voice_provider
            == voice && final(s).cloud_text_provider == text,
        !(forall|i: int| 0 <= i < providers@.len() ==> known_provider(
            #[trigger] providers@[i].id@,
        )) ==> (r matches Err(e) && e@ == "unsupported cloud provider"@ && *final(s) == *old(s)),
        final(s).hands_free == old(s).hands_free,
        final(s).push_to_talk == old(s).push_to_talk,
        final(s).mic_device == old(s).mic_device,
        final(s).styles == old(s).styles,
        final(s).default_style == old(s).default_style,
        final(s).dictionary == old(s).dictionary,
{
    let mut i: usize = 0;
    while i < providers.len()
        invariant
            i <= providers@.len(),
            forall|j: int| 0 <= j < i ==> known_provider(#[trigger] providers@[j].id@),
        decreases providers.len() - i,
    {
        let id = providers[i].id.as_str();
        let ok = crate::text::str_eq(id, "openai") || crate::text::str_eq(id, "mistral")
            || crate::text::str_eq(id, "deepgram") || crate::text::str_eq(id, "elevenlabs");
        if !ok {
            return Err(String::from_str("unsupported cloud provider"));
        }
        i = i + 1;
    }
    s.cloud_providers = providers;
    s.cloud_voice_provider = voice;
    s.cloud_text_provider = text;
    Ok(())
}

/// The glossary terms of a dictionary: each entry's trimmed `to`, blank ones left out,
/// and a term left out when one equal ignoring case came before it.
pub open spec fn glossary_terms(d: Seq<(Seq<char>, Seq<char>)>) -> Seq<Seq<char>>
    decreases d.len(),
{
    if d.len() == 0 {
        seq![]
    } else {
        let prev = glossary_terms(d.drop_last());
        let t = trim(d.last().1);
        if t.len() > 0 && !(exists|j: int|
            0 <= j < prev.len() && lowercase(#[trigger] prev[j]) == lowercase(t)) {
            prev.push(t)
        } else {
            prev
        }
    }
}

/// The recognition prompt that biases transcription toward the dictionary's words:
/// `Glossary: a, b.`, or none when there are no terms.
pub open spec fn glossary_prompt(d: Seq<(Seq<char>, Seq<char>)>) -> Option<Seq<char>> {
    let terms = glossary_terms(d);
    if terms.len() == 0 {
        None
    } else {
        Some("Glossary: "@ + join_with(terms, ", "@) + "."@)
    }
}

/// The recognition prompt for a dictionary.
pub fn vocab_prompt(dictionary: &Vec<DictEntry>) -> (r: Option<String>)
    ensures
        opt_str(r) == glossary_prompt(dict_view(dictionary@)),
{
    let ghost d = dict_view(dictionary@);
    let mut terms: Vec<String> = Vec::new();
    let mut seen: Vec<String> = Vec::new();
    let mut joined = String::new();
    let mut i: usize = 0;
    while i < dictionary.len()
        invariant
            d == dict_view(dictionary@),
            i <= dictionary@.len(),
            strs(terms@) == glossary_terms(d.take(i as int)),
            seen@.len() == terms@.len(),
            forall|j: int| 0 <= j < seen@.len() ==> (#[trigger] seen@[j])@ == lowercase(terms@[j]@),
            joined@ == join_with(strs(terms@), ", "@),
        decreases dictionary.len() - i,
    {
        assert(d.take(i + 1).drop_last() =~= d.take(i as int));
        assert(d.take(i + 1).last() == dictionary@[i as int]@);
        let t = trim_str(dictionary[i].to.as_str());
        if !t.as_str().is_empty() {
            let lt = to_lowercase(t.as_str());
            let mut dup = false;
            let mut j: usize = 0;
            while j < seen.len()
                invariant
                    j <= seen@.len(),
                    lt@ == lowercase(t@),
                    !dup ==> forall|k: int| 0 <= k < j ==> (#[trigger] seen@[k])@ != lt@,
                    dup ==> exists|k: int| 0 <= k < seen@.len() && (#[trigger] seen@[k])@ == lt@,
                decreases seen.len() - j,
            {
                if seen[j] == lt {
                    dup = true;
                }
                j = j + 1;
            }
            let ghost prev = strs(terms@);
            proof {
                assert(prev.len() == terms@.len());
                if dup {
                    let k = choose|k: int| 0 <= k < seen@.len() && (#[trigger] seen@[k])@ == lt@;
                    assert(prev[k] == terms@[k]@);
                    assert(lowercase(prev[k]) == lowercase(t@));
                } else {
                    assert forall|k: int| 0 <= k < prev.len() implies lowercase(#[trigger] prev[k])
                        != lowercase(t@) by {
                        assert(prev[k] == terms@[k]@);
                        assert(seen@[k]@ != lt@);
                    }
                }
            }
            if !dup {
                proof {
                    lemma_join_with_push(prev, ", "@, t@);
                }
                if terms.len() > 0 {
                    joined.append(", ");
                }
                joined.append(t.as_str());
                let ghost tv = t@;
                terms.push(t);
                seen.push(lt);
                assert(strs(terms@) =~= prev.push(tv));
            }
        }
        i = i + 1;
    }
    assert(d.take(d.len() as int) =~= d);
    if terms.len() == 0 {
        None
    } else {
        let mut r = String::from_str("Glossary: ");
        r.append(joined.as_str());
        r.append(".");
        Some(r)
    }
}

/// A correction is remembered: once `add_correction` succeeds for `from` and `to`, the
/// recognition glossary holds the trimmed replacement (or a word equal to it ignoring
/// case that an earlier entry gave), and the dictionary note of the cleanup prompt ends
/// with the trimmed pair.
pub proof fn law_correction_remembered(
    d: Seq<(Seq<char>, Seq<char>)>,
    from: Seq<char>,
    to: Seq<char>,
)
    requires
        trim(from).len() > 0,
        trim(to).len() > 0,
        trim(from) != trim(to),
    ensures
        ({
            let f = trim(from);
            let t = trim(to);
            let nd = entries_kept(d, f).push((f, t));
            let g = glossary_terms(nd);
            &&& glossary_prompt(nd) is Some
            &&& exists|j: int| 0 <= j < g.len() && lowercase(#[trigger] g[j]) == lowercase(t)
            &&& ("- \""@ + f + "\" -> \""@ + t + "\"\n"@).is_suffix_of(
                crate::llm::dictionary_text(nd),
            )
        }),
{
    let f = trim(from);
    let t = trim(to);
    let nd = entries_kept(d, f).push((f, t));
    let prev = glossary_terms(nd.drop_last());
    assert(nd.drop_last() =~= entries_kept(d, f));
    assert(nd.last() == (f, t));
    crate::text::lemma_trim_idempotent(to);
    let g = glossary_terms(nd);
    if exists|j: int| 0 <= j < prev.len() && lowercase(#[trigger] prev[j]) == lowercase(t) {
        let j = choose|j: int| 0 <= j < prev.len() && lowercase(#[trigger] prev[j]) == lowercase(t);
        assert(g == prev);
        assert(lowercase(g[j]) == lowercase(t));
    } else {
        assert(g == prev.push(t));
        assert(g[prev.len() as int] == t);
    }
    let line = "- \""@ + f + "\" -> \""@ + t + "\"\n"@;
    let dt = crate::llm::dictionary_text(nd);
    let p = if nd.len() == 1 {
        crate::llm::DICT_INTRO@
    } else {
        crate::llm::dictionary_text(nd.drop_last())
    };
    assert(dt == p + line);
    assert(dt.subrange(dt.len() - line.len(), dt.len() as int) =~= line);
}

/// The recognition glossary lists each replacement the dictionary teaches once: every
/// term is a trimmed, non-blank replacement of some entry, no two terms are equal
/// ignoring case, and every non-blank replacement has a term equal to it ignoring case.
pub proof fn law_glossary_lists_each_word_once(d: Seq<(Seq<char>, Seq<char>)>)
    ensures
        ({
            let g = glossary_terms(d);
            &&& forall|k: int|
                0 <= k < g.len() ==> (#[trigger] g[k]).len() > 0 && trim(g[k]) == g[k] && exists|j: int|
                    0 <= j < d.len() && trim(d[j].1) == g[k]
            &&& forall|k1: int, k2: int|
                0 <= k1 < k2 < g.len() ==> lowercase(#[trigger] g[k1]) != lowercase(#[trigger] g[k2])
            &&& forall|j: int|
                0 <= j < d.len() && trim(#[trigger] d[j].1).len() > 0 ==> exists|k: int|
                    0 <= k < g.len() && lowercase(g[k]) == lowercase(trim(d[j].1))
        }),
    decreases d.len(),
{
    if d.len() > 0 {
        let p = d.drop_last();
        law_glossary_lists_each_word_once(p);
        let prev = glossary_terms(p);
        let t = trim(d.last().1);
        let g = glossary_terms(d);
        crate::text::lemma_trim_idempotent(d.last().1);
        assert forall|j: int| 0 <= j < p.len() implies #[trigger] p[j] == d[j] by {}
        let last = d.len() - 1;
        assert(d[last] == d.last());
        if t.len() > 0 && !(exists|j: int| 0 <= j < prev.len() && lowercase(#[trigger] prev[j]) == lowercase(t)) {
            assert(g == prev.push(t));
            assert forall|k: int| 0 <= k < g.len() implies (#[trigger] g[k]).len() > 0 && trim(g[k])
                == g[k] && exists|j: int| 0 <= j < d.len() && trim(d[j].1) == g[k] by {
                if k < prev.len() {
                    assert(g[k] == prev[k]);
                    let j = choose|j: int| 0 <= j < p.len() && trim(p[j].1) == prev[k];
                    assert(p[j] == d[j]);
                } else {
                    assert(trim(d[last].1) == g[k]);
                }
            }
            assert forall|k1: int, k2: int| 0 <= k1 < k2 < g.len() implies lowercase(
                #[trigger] g[k1],
            ) != lowercase(#[trigger] g[k2]) by {
                assert(g[k1] == prev[k1]);
                if k2 < prev.len() {
                    assert(g[k2] == prev[k2]);
                }
            }
            assert forall|j: int| 0 <= j < d.len() && trim(#[trigger] d[j].1).len() > 0 implies exists|k: int|
                0 <= k < g.len() && lowercase(g[k]) == lowercase(trim(d[j].1)) by {
                if j < p.len() {
                    assert(p[j] == d[j]);
                    let k = choose|k: int| 0 <= k < prev.len() && lowercase(prev[k]) == lowercase(trim(p[j].1));
                    assert(g[k] == prev[k]);
                } else {
                    assert(g[prev.len() as int] == t);
                }
            }
        } else {
            assert(g == prev);
            assert forall|k: int| 0 <= k < g.len() implies (#[trigger] g[k]).len() > 0 && trim(g[k])
                == g[k] && exists|j: int| 0 <= j < d.len() && trim(d[j].1) == g[k] by {
                let j = choose|j: int| 0 <= j < p.len() && trim(p[j].1) == prev[k];
                assert(p[j] == d[j]);
            }
            assert forall|j: int| 0 <= j < d.len() && trim(#[trigger] d[j].1).len() > 0 implies exists|k: int|
                0 <= k < g.len() && lowercase(g[k]) == lowercase(trim(d[j].1)) by {
                if j < p.len() {
                    assert(p[j] == d[j]);
                    let k = choose|k: int| 0 <= k < prev.len() && lowercase(prev[k]) == lowercase(trim(p[j].1));
                } else {
                    let k = choose|k: int| 0 <= k < prev.len() && lowercase(#[trigger] prev[k]) == lowercase(t);
                    assert(lowercase(g[k]) == lowercase(t));
                }
            }
        }
    }
}

} // verus!
