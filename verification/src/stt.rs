//! What is kept of Whisper's output: its blank-audio markers and the stock "Thank you"
//! it produces on silence are removed, timestamps are turned into milliseconds.
use vstd::prelude::*;
use crate::meeting::Part;
use crate::text::{is_ws, is_whitespace, trim, trim_str, chars_of, string_from_chars, push_char, join_with, lemma_join_with_push, str_eq};

verus! {

/// What `char::is_alphabetic` says of `c` (Unicode `Alphabetic`).
pub uninterp spec fn alphabetic(c: char) -> bool;

/// `char::is_alphabetic`; the contract names the result, the Unicode tables are not stated.
#[verifier::external_body]
fn is_alphabetic(c: char) -> (r: bool)
    ensures
        r == alphabetic(c),
{
    c.is_alphabetic()
}

/// What `char::to_lowercase` yields for `c`: its full lower-case mapping.
pub uninterp spec fn char_lowercase(c: char) -> Seq<char>;

/// `char::to_lowercase`, collected; the contract names the result, the Unicode case
/// tables are not stated.
#[verifier::external_body]
fn char_to_lowercase(c: char) -> (r: Vec<char>)
    ensures
        r@ == char_lowercase(c),
{
    c.to_lowercase().collect()
}

/// ASCII lower case of one character (`to_ascii_lowercase`).
pub open spec fn ascii_lower(c: char) -> char {
    if 'A' <= c <= 'Z' {
        ((c as u32) + 32) as char
    } else {
        c
    }
}

/// The marker Whisper writes for a stretch without speech, in lower case.
pub open spec fn blank_marker() -> Seq<char> {
    "[blank_audio]"@
}

/// Whether the marker, in any ASCII case, starts at `i` in `s`.
pub open spec fn marker_at(s: Seq<char>, i: int) -> bool {
    &&& 0 <= i
    &&& i + 13 <= s.len()
    &&& forall|j: int| 0 <= j < 13 ==> #[trigger] ascii_lower(s[i + j]) == blank_marker()[j]
}

/// The first position from `i` on where the marker starts.
pub open spec fn find_marker(s: Seq<char>, i: int) -> Option<int>
    decreases s.len() - i,
{
    if i < 0 || i + 13 > s.len() {
        None
    } else if marker_at(s, i) {
        Some(i)
    } else {
        find_marker(s, i + 1)
    }
}

pub proof fn lemma_find_marker(s: Seq<char>, i: int)
    ensures
        find_marker(s, i) matches Some(k) ==> i <= k && marker_at(s, k),
    decreases s.len() - i,
{
    if 0 <= i && i + 13 <= s.len() && !marker_at(s, i) {
        lemma_find_marker(s, i + 1);
    }
}

/// `s` with the marker removed, the first occurrence each time, until none is left
/// (a removal can join two halves into a new one).
pub open spec fn strip_markers(s: Seq<char>) -> Seq<char>
    decreases s.len(),
{
    match find_marker(s, 0) {
        Some(i) => {
            proof {
                lemma_find_marker(s, 0);
            }
            strip_markers(s.take(i) + s.skip(i + 13))
        },
        None => s,
    }
}

/// Characters that count towards the words of a segment.
pub open spec fn kept(c: char) -> bool {
    alphabetic(c) || is_ws(c)
}

/// The letters and white space of `s`, lower-cased.
pub open spec fn letters_lowered(s: Seq<char>) -> Seq<char>
    decreases s.len(),
{
    if s.len() == 0 {
        seq![]
    } else {
        letters_lowered(s.drop_last()) + if kept(s.last()) {
            char_lowercase(s.last())
        } else {
            seq![]
        }
    }
}

/// Length of the run of non-white-space characters that `s` starts with.
pub open spec fn word_len(s: Seq<char>) -> nat
    decreases s.len(),
{
    if s.len() > 0 && !is_ws(s[0]) {
        1 + word_len(s.drop_first())
    } else {
        0
    }
}

pub proof fn lemma_word_len(s: Seq<char>)
    ensures
        word_len(s) <= s.len(),
        forall|i: int| 0 <= i < word_len(s) ==> !is_ws(#[trigger] s[i]),
    decreases s.len(),
{
    if s.len() > 0 && !is_ws(s[0]) {
        lemma_word_len(s.drop_first());
        assert forall|i: int| 0 <= i < word_len(s) implies !is_ws(#[trigger] s[i]) by {
            if i > 0 {
                assert(s[i] == s.drop_first()[i - 1]);
            }
        }
    }
}

/// A word length, characterised by its bounds.
pub proof fn lemma_word_len_unique(s: Seq<char>, n: int)
    requires
        0 <= n <= s.len(),
        forall|i: int| 0 <= i < n ==> !is_ws(#[trigger] s[i]),
        n < s.len() ==> is_ws(s[n]),
    ensures
        word_len(s) == n,
    decreases s.len(),
{
    if n > 0 {
        assert(!is_ws(s[0]));
        assert forall|i: int| 0 <= i < n - 1 implies !is_ws(#[trigger] s.drop_first()[i]) by {
            assert(s.drop_first()[i] == s[i + 1]);
        }
        if n - 1 < s.drop_first().len() {
            assert(s.drop_first()[n - 1] == s[n]);
        }
        lemma_word_len_unique(s.drop_first(), n - 1);
    } else if s.len() > 0 {
        assert(is_ws(s[0]));
    }
}

/// The words of `s`: its maximal runs of non-white-space, as `str::split_whitespace`
/// yields them.
pub open spec fn split_ws(s: Seq<char>) -> Seq<Seq<char>>
    decreases s.len(),
{
    if s.len() == 0 {
        seq![]
    } else if is_ws(s[0]) {
        split_ws(s.drop_first())
    } else {
        proof {
            lemma_word_len(s);
        }
        seq![s.take(word_len(s) as int)] + split_ws(s.skip(word_len(s) as int))
    }
}

/// Whether a segment reads "thank you" once its letters are lower-cased and its words
/// joined by single spaces: what Whisper writes on silence.
pub open spec fn reads_thank_you(text: Seq<char>) -> bool {
    join_with(split_ws(letters_lowered(text)), " "@) == "thank you"@
}

/// A Whisper segment as kept: without blank-audio markers, trimmed, and empty when the
/// model judged the audio to hold no speech and the segment only reads "thank you".
pub open spec fn sanitized(text: Seq<char>, no_speech: bool) -> Seq<char> {
    let cleaned = trim(strip_markers(text));
    if no_speech && reads_thank_you(cleaned) {
        seq![]
    } else {
        cleaned
    }
}

/// `find_marker` finds nothing from `i` on exactly when no marker starts there.
pub proof fn lemma_find_marker_none(s: Seq<char>, i: int)
    requires
        0 <= i,
    ensures
        find_marker(s, i) is None <==> forall|k: int| i <= k ==> !#[trigger] marker_at(s, k),
    decreases s.len() - i,
{
    if i + 13 <= s.len() && !marker_at(s, i) {
        lemma_find_marker_none(s, i + 1);
        if find_marker(s, i) is None {
            assert forall|k: int| i <= k implies !#[trigger] marker_at(s, k) by {
                if k == i {
                } else {
                    assert(i + 1 <= k);
                }
            }
        }
    } else if i + 13 > s.len() {
        assert forall|k: int| i <= k implies !#[trigger] marker_at(s, k) by {}
    }
}

/// What is left after removing the markers holds none.
pub proof fn lemma_strip_leaves_none(s: Seq<char>)
    ensures
        find_marker(strip_markers(s), 0) is None,
    decreases s.len(),
{
    match find_marker(s, 0) {
        Some(i) => {
            lemma_find_marker(s, 0);
            lemma_strip_leaves_none(s.take(i) + s.skip(i + 13));
        },
        None => {},
    }
}

/// A part of a text without markers holds none.
pub proof fn lemma_no_marker_subrange(s: Seq<char>, a: int, b: int)
    requires
        0 <= a <= b <= s.len(),
        find_marker(s, 0) is None,
    ensures
        find_marker(s.subrange(a, b), 0) is None,
{
    let t = s.subrange(a, b);
    lemma_find_marker_none(s, 0);
    assert forall|k: int| 0 <= k implies !#[trigger] marker_at(t, k) by {
        if marker_at(t, k) {
            assert forall|j: int| 0 <= j < 13 implies #[trigger] ascii_lower(s[a + k + j])
                == blank_marker()[j] by {
                assert(t[k + j] == s[a + k + j]);
            }
            assert(marker_at(s, a + k));
        }
    }
    lemma_find_marker_none(t, 0);
}

/// Sanitizing a segment a second time changes nothing: what is kept holds no marker, is
/// already trimmed, and is not a "thank you" to drop.
pub proof fn law_sanitize_idempotent(text: Seq<char>, no_speech: bool)
    ensures
        sanitized(sanitized(text, no_speech), no_speech) == sanitized(text, no_speech),
{
    let stripped = strip_markers(text);
    let c = trim(stripped);
    lemma_strip_leaves_none(text);
    crate::text::lemma_lead_ws(stripped);
    let u = crate::text::trim_start(stripped);
    crate::text::lemma_trail_ws(u);
    assert(c =~= stripped.subrange(
        crate::text::lead_ws(stripped) as int,
        crate::text::lead_ws(stripped) + u.len() - crate::text::trail_ws(u),
    ));
    lemma_no_marker_subrange(
        stripped,
        crate::text::lead_ws(stripped) as int,
        crate::text::lead_ws(stripped) + u.len() - crate::text::trail_ws(u),
    );
    assert(strip_markers(c) == c);
    crate::text::lemma_trim_idempotent(stripped);
    let e: Seq<char> = seq![];
    assert(find_marker(e, 0) is None);
    assert(strip_markers(e) == e);
    assert(crate::text::lead_ws(e) == 0);
    assert(crate::text::trim_start(e) =~= e);
    assert(crate::text::trail_ws(e) == 0);
    assert(trim(e) =~= e);
    if no_speech && reads_thank_you(c) {
        assert(sanitized(text, no_speech) == e);
        assert(!reads_thank_you(e)) by {
            reveal_strlit("thank you");
            assert(letters_lowered(e) =~= e);
            assert(split_ws(e) =~= Seq::<Seq<char>>::empty());
            assert(join_with(Seq::<Seq<char>>::empty(), " "@) =~= e);
            assert("thank you"@.len() == 9);
        }
    }
}

/// Whether the marker starts at `i` in `v`.
fn marker_at_exec(v: &Vec<char>, i: usize) -> (r: bool)
    ensures
        r == marker_at(v@, i as int),
{
    let m: [char; 13] = ['[', 'b', 'l', 'a', 'n', 'k', '_', 'a', 'u', 'd', 'i', 'o', ']'];
    proof {
        reveal_strlit("[blank_audio]");
        assert(m@ =~= blank_marker());
    }
    if i > v.len() || 13 > v.len() - i {
        return false;
    }
    let vl = v.len();
    let mut j: usize = 0;
    while j < 13
        invariant
            vl == v@.len(),
            i + 13 <= v@.len(),
            j <= 13,
            m@ == blank_marker(),
            forall|k: int| 0 <= k < j ==> #[trigger] ascii_lower(v@[i + k]) == blank_marker()[k],
        decreases 13 - j,
    {
        let c = v[i + j];
        let lc = if 'A' <= c && c <= 'Z' {
            ((c as u32) + 32) as u8 as char
        } else {
            c
        };
        assert(lc == ascii_lower(v@[i + j]));
        if lc != m[j] {
            return false;
        }
        j = j + 1;
    }
    true
}

/// `v` with `v[i..i + 13]` cut out.
fn cut13(v: &Vec<char>, i: usize) -> (r: Vec<char>)
    requires
        i + 13 <= v@.len(),
    ensures
        r@ == v@.take(i as int) + v@.skip(i + 13),
{
    let mut r: Vec<char> = Vec::new();
    let mut k: usize = 0;
    while k < v.len()
        invariant
            i + 13 <= v@.len(),
            k <= v@.len(),
            k <= i ==> r@ == v@.take(k as int),
            k >= i + 13 ==> r@ == v@.take(i as int) + v@.subrange(i + 13, k as int),
            i < k < i + 13 ==> r@ == v@.take(i as int),
        decreases v@.len() - k,
    {
        if k < i || k >= i + 13 {
            r.push(v[k]);
        }
        proof {
            if k < i {
                assert(r@ =~= v@.take(k + 1));
            } else if k >= i + 13 {
                assert(r@ =~= v@.take(i as int) + v@.subrange(i + 13, k + 1));
            } else if k + 1 == i + 13 {
                assert(v@.subrange(i + 13, k + 1) =~= seq![]);
                assert(r@ =~= v@.take(i as int) + v@.subrange(i + 13, k + 1));
            }
        }
        k = k + 1;
    }
    assert(v@.subrange(i + 13, v@.len() as int) =~= v@.skip(i + 13));
    r
}

/// `v` without blank-audio markers.
fn strip_markers_exec(input: Vec<char>) -> (r: Vec<char>)
    ensures
        r@ == strip_markers(input@),
{
    let mut v = input;
    loop
        invariant
            strip_markers(v@) == strip_markers(input@),
        decreases v@.len(),
    {
        let mut i: usize = 0;
        while v.len() >= 13 && i <= v.len() - 13 && !marker_at_exec(&v, i)
            invariant
                find_marker(v@, 0) == find_marker(v@, i as int),
            decreases v@.len() + 1 - i,
        {
            i = i + 1;
        }
        let found = v.len() >= 13 && i <= v.len() - 13;
        if !found {
            assert(find_marker(v@, 0) is None);
            assert(strip_markers(v@) == v@);
            return v;
        }
        assert(marker_at(v@, i as int));
        assert(find_marker(v@, 0) == Some(i as int));
        let w = cut13(&v, i);
        assert(strip_markers(v@) == strip_markers(w@));
        v = w;
    }
}

/// The letters and white space of `s`, lower-cased.
fn lower_letters(s: &Vec<char>) -> (r: Vec<char>)
    ensures
        r@ == letters_lowered(s@),
{
    let mut r: Vec<char> = Vec::new();
    let mut i: usize = 0;
    while i < s.len()
        invariant
            i <= s@.len(),
            r@ == letters_lowered(s@.take(i as int)),
        decreases s@.len() - i,
    {
        let c = s[i];
        let ghost before = r@;
        if is_alphabetic(c) || is_whitespace(c) {
            let low = char_to_lowercase(c);
            let mut j: usize = 0;
            while j < low.len()
                invariant
                    j <= low@.len(),
                    r@ == before + low@.take(j as int),
                decreases low@.len() - j,
            {
                r.push(low[j]);
                assert(low@.take(j + 1) =~= low@.take(j as int).push(low@[j as int]));
                j = j + 1;
            }
            assert(low@.take(low@.len() as int) =~= low@);
        }
        assert(s@.take(i + 1).drop_last() =~= s@.take(i as int));
        assert(r@ =~= letters_lowered(s@.take(i + 1)));
        i = i + 1;
    }
    assert(s@.take(s@.len() as int) =~= s@);
    r
}

/// The words of `s`, joined by single spaces.
fn squash_words(s: &Vec<char>) -> (r: String)
    ensures
        r@ == join_with(split_ws(s@), " "@),
{
    let n = s.len();
    let ghost mut words: Seq<Seq<char>> = seq![];
    let mut r = String::new();
    let mut any = false;
    let mut p: usize = 0;
    assert(s@.skip(0) =~= s@);
    assert(seq![] + split_ws(s@) =~= split_ws(s@));
    while p < n
        invariant
            any == (words.len() > 0),
            n == s@.len(),
            p <= n,
            split_ws(s@) == words + split_ws(s@.skip(p as int)),
            r@ == join_with(words, " "@),
        decreases n - p,
    {
        let ghost rest = s@.skip(p as int);
        if is_whitespace(s[p]) {
            assert(rest.drop_first() =~= s@.skip(p + 1));
            p = p + 1;
        } else {
            let mut q = p;
            while q < n && !is_whitespace(s[q])
                invariant
                    p <= q <= n == s@.len(),
                    forall|k: int| p <= k < q ==> !is_ws(#[trigger] s@[k]),
                decreases n - q,
            {
                q = q + 1;
            }
            proof {
                assert forall|k: int| 0 <= k < q - p implies !is_ws(#[trigger] rest[k]) by {
                    assert(rest[k] == s@[p + k]);
                }
                if q < n {
                    assert(rest[q - p] == s@[q as int]);
                }
                lemma_word_len_unique(rest, q - p);
                assert(rest.take(q - p) =~= s@.subrange(p as int, q as int));
                assert(rest.skip(q - p) =~= s@.skip(q as int));
                lemma_join_with_push(words, " "@, s@.subrange(p as int, q as int));
            }
            if any {
                r.append(" ");
            }
            any = true;
            let word = string_from_chars(s.as_slice(), p, q);
            r.append(word.as_str());
            proof {
                reveal_strlit(" ");
                let w0 = words;
                words = words.push(s@.subrange(p as int, q as int));
                assert(split_ws(s@) =~= words + split_ws(s@.skip(q as int))) by {
                    assert(w0 + (seq![s@.subrange(p as int, q as int)] + split_ws(s@.skip(q as int)))
                        =~= words + split_ws(s@.skip(q as int)));
                }
            }
            p = q;
        }
    }
    assert(s@.skip(n as int) =~= seq![]);
    assert(words + seq![] =~= words);
    r
}

/// A Whisper segment as the user gets it: blank-audio markers (in any ASCII case)
/// removed, trimmed, and dropped altogether when `no_speech` (the model's no-speech
/// probability reached its threshold) and all it says is "thank you".
pub fn sanitize_segment(text: &str, no_speech: bool) -> (r: String)
    ensures
        r@ == sanitized(text@, no_speech),
{
    let stripped = strip_markers_exec(chars_of(text));
    let joined = string_from_chars(stripped.as_slice(), 0, stripped.len());
    assert(stripped@.subrange(0, stripped@.len() as int) =~= stripped@);
    let cleaned = trim_str(joined.as_str());
    if no_speech {
        let words = squash_words(&lower_letters(&chars_of(cleaned.as_str())));
        if str_eq(words.as_str(), "thank you") {
            return String::new();
        }
    }
    cleaned
}


/// Fewer samples than this (0.1 s at 16 kHz) is too short to transcribe.
pub const MIN_SAMPLES: usize = 1600;

/// What becomes of a chunk of audio before the model sees it.
#[derive(PartialEq, Eq, Structural, Clone, Copy, Debug)]
pub enum Gate {
    /// Under `MIN_SAMPLES`: a dictation fails, a meeting channel yields nothing.
    TooShort,
    /// No sample reaches the silence threshold: nothing is transcribed, so that the
    /// model cannot make words up.
    Silent,
    /// Transcribed.
    Transcribe,
}

impl Gate {
    /// The error a dictation gated this way fails with: only one too short to transcribe
    /// fails.
    pub fn dictation_error(&self) -> (r: Option<String>)
        ensures
            match r {
                Some(e) => *self == Gate::TooShort && e@ == "recording is too short to transcribe"@,
                None => *self != Gate::TooShort,
            },
    {
        match self {
            Gate::TooShort => Some(String::from_str("recording is too short to transcribe")),
            _ => None,
        }
    }
}

/// What happens to audio of `n_samples` samples; `silent` says that no sample reaches
/// the silence threshold.
pub fn gate(n_samples: usize, silent: bool) -> (r: Gate)
    ensures
        r == if n_samples < MIN_SAMPLES {
            Gate::TooShort
        } else if silent {
            Gate::Silent
        } else {
            Gate::Transcribe
        },
{
    if n_samples < MIN_SAMPLES {
        Gate::TooShort
    } else if silent {
        Gate::Silent
    } else {
        Gate::Transcribe
    }
}

/// One segment as Whisper returns it: the text, whether its no-speech probability
/// reached the threshold, and its start and end in centiseconds.
pub struct RawSegment {
    pub text: String,
    pub no_speech: bool,
    pub start_cs: i64,
    pub end_cs: i64,
}

/// The kept text of the segments, concatenated.
pub open spec fn kept_text(segs: Seq<RawSegment>) -> Seq<char>
    decreases segs.len(),
{
    if segs.len() == 0 {
        seq![]
    } else {
        kept_text(segs.drop_last()) + sanitized(segs.last().text@, segs.last().no_speech)
    }
}

/// The text of a dictation: the kept text of its segments, concatenated and trimmed.
pub fn dictation_text(segments: &Vec<RawSegment>) -> (r: String)
    ensures
        r@ == trim(kept_text(segments@)),
{
    let mut all = String::new();
    let mut i: usize = 0;
    while i < segments.len()
        invariant
            i <= segments@.len(),
            all@ == kept_text(segments@.take(i as int)),
        decreases segments@.len() - i,
    {
        let piece = sanitize_segment(segments[i].text.as_str(), segments[i].no_speech);
        all.append(piece.as_str());
        assert(segments@.take(i + 1).drop_last() =~= segments@.take(i as int));
        i = i + 1;
    }
    assert(segments@.take(segments@.len() as int) =~= segments@);
    trim_str(all.as_str())
}

/// Whether every segment's times, in milliseconds, fit an `i64`.
pub open spec fn times_fit(segs: Seq<RawSegment>) -> bool {
    forall|i: int|
        0 <= i < segs.len() ==> i64::MIN <= (#[trigger] segs[i]).start_cs * 10 <= i64::MAX
            && i64::MIN <= segs[i].end_cs * 10 <= i64::MAX
}

/// The timed parts of the segments: start and end in milliseconds and the kept text,
/// for each segment whose kept text is not empty, in order.
pub open spec fn timed_parts_spec(segs: Seq<RawSegment>) -> Seq<(int, int, Seq<char>)>
    decreases segs.len(),
{
    if segs.len() == 0 {
        seq![]
    } else {
        let s = segs.last();
        let t = sanitized(s.text@, s.no_speech);
        timed_parts_spec(segs.drop_last()) + if t.len() == 0 {
            seq![]
        } else {
            seq![(s.start_cs * 10, s.end_cs * 10, t)]
        }
    }
}

pub open spec fn parts_view(parts: Seq<Part>) -> Seq<(int, int, Seq<char>)> {
    parts.map_values(|p: Part| (p.0 as int, p.1 as int, p.2@))
}

/// The timed parts of a meeting chunk's segments (Whisper counts in centiseconds).
pub fn timed_parts(segments: &Vec<RawSegment>) -> (r: Vec<Part>)
    requires
        times_fit(segments@),
    ensures
        parts_view(r@) == timed_parts_spec(segments@),
{
    let mut out: Vec<Part> = Vec::new();
    let mut i: usize = 0;
    while i < segments.len()
        invariant
            i <= segments@.len(),
            times_fit(segments@),
            parts_view(out@) == timed_parts_spec(segments@.take(i as int)),
        decreases segments@.len() - i,
    {
        let seg = &segments[i];
        let text = sanitize_segment(seg.text.as_str(), seg.no_speech);
        assert(segments@.take(i + 1).drop_last() =~= segments@.take(i as int));
        assert(segments@.take(i + 1).last() == segments@[i as int]);
        if !text.as_str().is_empty() {
            assert(i64::MIN <= segments@[i as int].start_cs * 10 <= i64::MAX);
            let start_ms = seg.start_cs * 10;
            let end_ms = seg.end_cs * 10;
            let ghost before = out@;
            out.push((start_ms, end_ms, text));
            assert(parts_view(out@) =~= parts_view(before).push((start_ms as int, end_ms as int, text@)));
        } else {
            assert(text@.len() == 0);
        }
        i = i + 1;
    }
    assert(segments@.take(segments@.len() as int) =~= segments@);
    out
}

/// An uploaded file must decode to at least this many samples (0.2 s at 16 kHz).
pub const MIN_FILE_SAMPLES: usize = 3200;

/// Whether an uploaded file decoded to enough audio to transcribe; the error the user
/// sees when not.
pub fn check_file_audio(n_samples: usize) -> (r: Result<(), String>)
    ensures
        n_samples >= MIN_FILE_SAMPLES ==> r is Ok,
        n_samples < MIN_FILE_SAMPLES ==> (r matches Err(e) && e@ == "that file has almost no audio in it"@),
{
    if n_samples < MIN_FILE_SAMPLES {
        Err(String::from_str("that file has almost no audio in it"))
    } else {
        Ok(())
    }
}

/// The timed part a segment gives: its times in milliseconds (Whisper's centiseconds
/// times ten) and its cleaned text.
pub open spec fn part_of(s: RawSegment) -> (int, int, Seq<char>) {
    (s.start_cs * 10, s.end_cs * 10, sanitized(s.text@, s.no_speech))
}

/// A meeting chunk's timed parts are its segments that keep some text, each in
/// milliseconds with its cleaned text, in the segments' order: no part is empty, every
/// part comes from a segment, and every segment that keeps text gives a part.
pub proof fn law_timed_parts_follow_segments(segs: Seq<RawSegment>)
    ensures
        ({
            let parts = timed_parts_spec(segs);
            &&& parts.len() <= segs.len()
            &&& forall|k: int|
                0 <= k < parts.len() ==> (#[trigger] parts[k]).2.len() > 0 && exists|j: int|
                    0 <= j < segs.len() && parts[k] == part_of(segs[j])
            &&& forall|j: int|
                0 <= j < segs.len() && sanitized((#[trigger] segs[j]).text@, segs[j].no_speech).len()
                    > 0 ==> exists|k: int| 0 <= k < parts.len() && parts[k] == part_of(segs[j])
        }),
    decreases segs.len(),
{
    if segs.len() > 0 {
        let p = segs.drop_last();
        law_timed_parts_follow_segments(p);
        let prev = timed_parts_spec(p);
        let parts = timed_parts_spec(segs);
        let last = segs.len() - 1;
        assert(segs[last] == segs.last());
        assert forall|j: int| 0 <= j < p.len() implies #[trigger] p[j] == segs[j] by {}
        let t = sanitized(segs.last().text@, segs.last().no_speech);
        if t.len() == 0 {
            assert(parts =~= prev);
            assert forall|k: int| 0 <= k < parts.len() implies (#[trigger] parts[k]).2.len() > 0
                && exists|j: int| 0 <= j < segs.len() && parts[k] == part_of(segs[j]) by {
                let j = choose|j: int| 0 <= j < p.len() && prev[k] == part_of(p[j]);
                assert(p[j] == segs[j]);
            }
            assert forall|j: int|
                0 <= j < segs.len() && sanitized((#[trigger] segs[j]).text@, segs[j].no_speech).len()
                    > 0 implies exists|k: int| 0 <= k < parts.len() && parts[k] == part_of(segs[j]) by {
                assert(j < p.len());
                assert(p[j] == segs[j]);
            }
        } else {
            assert(parts =~= prev.push(part_of(segs.last())));
            assert forall|k: int| 0 <= k < parts.len() implies (#[trigger] parts[k]).2.len() > 0
                && exists|j: int| 0 <= j < segs.len() && parts[k] == part_of(segs[j]) by {
                if k < prev.len() {
                    assert(parts[k] == prev[k]);
                    let j = choose|j: int| 0 <= j < p.len() && prev[k] == part_of(p[j]);
                    assert(p[j] == segs[j]);
                } else {
                    assert(parts[k] == part_of(segs[last]));
                }
            }
            assert forall|j: int|
                0 <= j < segs.len() && sanitized((#[trigger] segs[j]).text@, segs[j].no_speech).len()
                    > 0 implies exists|k: int| 0 <= k < parts.len() && parts[k] == part_of(segs[j]) by {
                if j < p.len() {
                    assert(p[j] == segs[j]);
                    let k = choose|k: int| 0 <= k < prev.len() && prev[k] == part_of(p[j]);
                    assert(parts[k] == prev[k]);
                } else {
                    assert(parts[prev.len() as int] == part_of(segs[j]));
                }
            }
        }
    }
}

} // verus!
