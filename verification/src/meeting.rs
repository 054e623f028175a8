//! Meeting transcripts: how speakers are named to the language model, the transcript and
//! question material it is given, how timed transcription parts become stored segments,
//! and the decisions of the live transcription pipeline.
use vstd::prelude::*;
use crate::store::Segment;
use crate::text::{chars_of, concat, dec, decimal, string_from_chars, trim, trim_str};

verus! {

pub open spec fn is_digit(c: char) -> bool {
    '0' <= c <= '9'
}

/// The number the decimal digits `s` write.
pub open spec fn digits_value(s: Seq<char>) -> int
    decreases s.len(),
{
    if s.len() == 0 {
        0
    } else {
        digits_value(s.drop_last()) * 10 + (s.last() as int - '0' as int)
    }
}

/// `s` without a leading sign.
pub open spec fn unsigned_part(s: Seq<char>) -> Seq<char> {
    if s.len() > 0 && (s[0] == '-' || s[0] == '+') {
        s.drop_first()
    } else {
        s
    }
}

pub open spec fn all_digits(s: Seq<char>) -> bool {
    forall|i: int| 0 <= i < s.len() ==> is_digit(#[trigger] s[i])
}

/// What `str::parse::<i32>` reads from `s`: an optional `+` or `-`, then one or more
/// decimal digits, within the range of `i32`.
pub open spec fn parse_i32(s: Seq<char>) -> Option<int> {
    let body = unsigned_part(s);
    if body.len() == 0 || !all_digits(body) {
        None
    } else {
        let v = if s[0] == '-' {
            -digits_value(body)
        } else {
            digits_value(body)
        };
        if i32::MIN <= v <= i32::MAX {
            Some(v)
        } else {
            None
        }
    }
}

proof fn lemma_digits_value_grows(s: Seq<char>)
    requires
        s.len() > 0,
        forall|i: int| 0 <= i < s.len() ==> is_digit(#[trigger] s[i]),
    ensures
        digits_value(s) >= digits_value(s.drop_last()),
        digits_value(s.drop_last()) >= 0,
    decreases s.len(),
{
    if s.len() > 1 {
        let t = s.drop_last();
        assert forall|i: int| 0 <= i < t.len() implies is_digit(#[trigger] t[i]) by {
            assert(t[i] == s[i]);
        }
        lemma_digits_value_grows(t);
    }
    assert(is_digit(s[s.len() - 1]));
}

/// Reads a decimal `i32` as `str::parse::<i32>` does.
pub fn parse_i32_of(s: &str) -> (r: Option<i32>)
    ensures
        match parse_i32(s@) {
            Some(v) => r == Some(v as i32),
            None => r is None,
        },
{
    let v = chars_of(s);
    let neg = v.len() > 0 && v[0] == '-';
    let start: usize = if v.len() > 0 && (v[0] == '-' || v[0] == '+') {
        1
    } else {
        0
    };
    let ghost body = unsigned_part(s@);
    assert(body =~= v@.subrange(start as int, v@.len() as int));
    if start == v.len() {
        assert(body.len() == 0);
        return None;
    }
    let mut acc: i64 = 0;
    let mut over = false;
    let mut i: usize = start;
    while i < v.len()
        invariant
            v@ == s@,
            start <= i <= v@.len(),
            body =~= v@.subrange(start as int, v@.len() as int),
            body == unsigned_part(s@),
            neg == (s@.len() > 0 && s@[0] == '-'),
            forall|j: int| 0 <= j < i - start ==> is_digit(#[trigger] body[j]),
            !over ==> acc == digits_value(body.take(i - start)) && 0 <= acc <= 2147483648,
            over ==> digits_value(body.take(i - start)) > 2147483648,
        decreases v.len() - i,
    {
        let c = v[i];
        if !('0' <= c && c <= '9') {
            assert(!is_digit(body[i - start]));
            return None;
        }
        let ghost k = (i - start) as int;
        assert(body.take(k + 1).drop_last() =~= body.take(k));
        assert(body.take(k + 1).last() == c);
        proof {
            assert forall|j: int| 0 <= j < k + 1 implies is_digit(#[trigger] body.take(k + 1)[j]) by {
                assert(body.take(k + 1)[j] == body[j]);
            }
            lemma_digits_value_grows(body.take(k + 1));
        }
        if !over {
            acc = acc * 10 + ((c as u32) - ('0' as u32)) as i64;
            if acc > 2147483648 {
                over = true;
            }
        }
        i = i + 1;
    }
    assert(body.take(body.len() as int) =~= body);
    if over {
        return None;
    }
    let val: i64 = if neg {
        -acc
    } else {
        acc
    };
    if val < -2147483648 || val > 2147483647 {
        None
    } else {
        Some(val as i32)
    }
}

/// `v` in decimal, with a minus sign when negative.
pub open spec fn signed_dec(v: int) -> Seq<char> {
    if v < 0 {
        "-"@ + dec((-v) as nat)
    } else {
        dec(v as nat)
    }
}

fn signed_decimal(v: i64) -> (r: String)
    requires
        v > i64::MIN,
    ensures
        r@ == signed_dec(v as int),
{
    if v < 0 {
        concat("-", decimal((-v) as u64).as_str())
    } else {
        decimal(v as u64)
    }
}

/// The number a diarized speaker label (`them:N`) carries, if it is one.
pub open spec fn speaker_number(speaker: Seq<char>) -> Option<int> {
    if "them:"@.is_prefix_of(speaker) {
        parse_i32(speaker.skip(5))
    } else {
        None
    }
}

/// A segment's speaker as the language model reads it: `Me` for the user, `Speaker N+1`
/// for diarized participant `them:N`, `Them` otherwise.
pub open spec fn speaker_text(speaker: Seq<char>) -> Seq<char> {
    if speaker == "me"@ {
        "Me"@
    } else {
        match speaker_number(speaker) {
            Some(n) => "Speaker "@ + signed_dec(n + 1),
            None => "Them"@,
        }
    }
}

/// The participant number of a diarized speaker label (`them:N`), if it is one.
pub fn speaker_number_of(speaker: &str) -> (r: Option<i32>)
    ensures
        match speaker_number(speaker@) {
            Some(n) => r == Some(n as i32),
            None => r is None,
        },
{
    proof {
        reveal_strlit("them:");
    }
    let v = chars_of(speaker);
    let prefix = chars_of("them:");
    let mut is_them = v.len() >= prefix.len();
    let mut i: usize = 0;
    while is_them && i < prefix.len()
        invariant
            v@ == speaker@,
            prefix@ == "them:"@,
            i <= prefix@.len(),
            is_them ==> v@.len() >= prefix@.len(),
            is_them ==> forall|j: int| 0 <= j < i ==> v@[j] == prefix@[j],
            !is_them ==> !"them:"@.is_prefix_of(speaker@),
        decreases prefix.len() - i,
    {
        if v[i] != prefix[i] {
            is_them = false;
        }
        i = i + 1;
    }
    if !is_them {
        return None;
    }
    assert(v@.take(5) =~= "them:"@);
    let rest = string_from_chars(v.as_slice(), 5, v.len());
    assert(rest@ =~= speaker@.skip(5));
    parse_i32_of(rest.as_str())
}

/// A segment's speaker as the language model reads it (participant `i32::MAX` is
/// `Speaker 2147483648`: the number is counted on in 64 bits).
pub fn speaker_label(speaker: &str) -> (r: String)
    ensures
        r@ == speaker_text(speaker@),
{
    if crate::text::str_eq(speaker, "me") {
        return String::from_str("Me");
    }
    match speaker_number_of(speaker) {
        Some(n) => {
            let label = signed_decimal(n as i64 + 1);
            concat("Speaker ", label.as_str())
        },
        None => String::from_str("Them"),
    }
}

/// The transcript lines of `segs`: `Speaker: text`, one per line.
pub open spec fn transcript_lines(segs: Seq<Segment>) -> Seq<char>
    decreases segs.len(),
{
    if segs.len() == 0 {
        seq![]
    } else {
        transcript_lines(segs.drop_last()) + speaker_text(segs.last().speaker@) + ": "@
            + segs.last().text@ + "\n"@
    }
}

fn append_lines(out: &mut String, segs: &Vec<Segment>)
    ensures
        final(out)@ == old(out)@ + transcript_lines(segs@),
{
    let ghost start = out@;
    let mut i: usize = 0;
    while i < segs.len()
        invariant
            i <= segs@.len(),
            out@ == start + transcript_lines(segs@.take(i as int)),
        decreases segs.len() - i,
    {
        assert(segs@.take(i + 1).drop_last() =~= segs@.take(i as int));
        let label = speaker_label(segs[i].speaker.as_str());
        out.append(label.as_str());
        out.append(": ");
        out.append(segs[i].text.as_str());
        out.append("\n");
        assert(out@ =~= start + transcript_lines(segs@.take(i + 1)));
        i = i + 1;
    }
    assert(segs@.take(segs@.len() as int) =~= segs@);
}

/// The transcript a summary is made from.
pub fn meeting_transcript(segs: &Vec<Segment>) -> (r: String)
    ensures
        r@ == transcript_lines(segs@),
{
    let mut r = String::new();
    append_lines(&mut r, segs);
    assert(r@ =~= transcript_lines(segs@));
    r
}

/// The material a question about a meeting is answered from: the summary and the user's
/// notes when they are not blank, then the transcript.
pub open spec fn context_text(summary: Seq<char>, notes: Seq<char>, segs: Seq<Segment>) -> Seq<char> {
    (if trim(summary).len() > 0 {
        "Summary:\n"@ + summary + "\n\n"@
    } else {
        seq![]
    }) + (if trim(notes).len() > 0 {
        "My notes:\n"@ + notes + "\n\n"@
    } else {
        seq![]
    }) + "Transcript:\n"@ + transcript_lines(segs)
}

/// The material a question about a meeting is answered from.
pub fn meeting_context(summary: &str, notes: &str, segs: &Vec<Segment>) -> (r: String)
    ensures
        r@ == context_text(summary@, notes@, segs@),
{
    let mut r = String::new();
    if !trim_str(summary).as_str().is_empty() {
        r.append("Summary:\n");
        r.append(summary);
        r.append("\n\n");
    }
    if !trim_str(notes).as_str().is_empty() {
        r.append("My notes:\n");
        r.append(notes);
        r.append("\n\n");
    }
    r.append("Transcript:\n");
    append_lines(&mut r, segs);
    assert(r@ =~= context_text(summary@, notes@, segs@));
    r
}

/// A timed piece of transcript: start and end in milliseconds, and the text.
pub type Part = (i64, i64, String);

pub open spec fn parts_fit(parts: Seq<Part>, base_ms: i64) -> bool {
    forall|i: int|
        0 <= i < parts.len() ==> i64::MIN <= base_ms + (#[trigger] parts[i]).0 <= i64::MAX
            && i64::MIN <= base_ms + parts[i].1 <= i64::MAX
}

/// The segments that timed parts become: said by `speaker` on `source`, offset by
/// `base_ms`, not yet stored (id 0).
pub open spec fn segments_of(
    parts: Seq<Part>,
    base_ms: i64,
    speaker: Seq<char>,
    source: Seq<char>,
    segs: Seq<Segment>,
) -> bool {
    &&& segs.len() == parts.len()
    &&& forall|i: int|
        0 <= i < segs.len() ==> (#[trigger] segs[i]).id == 0 && segs[i].speaker@ == speaker
            && segs[i].source@ == source && segs[i].start_ms == base_ms + parts[i].0
            && segs[i].end_ms == base_ms + parts[i].1 && segs[i].text == parts[i].2
}

/// Appends the segments that timed parts become.
pub fn push_segments(
    out: &mut Vec<Segment>,
    parts: Vec<Part>,
    base_ms: i64,
    speaker: &str,
    source: &str,
)
    requires
        parts_fit(parts@, base_ms),
    ensures
        final(out)@.len() == old(out)@.len() + parts@.len(),
        final(out)@.take(old(out)@.len() as int) == old(out)@,
        segments_of(parts@, base_ms, speaker@, source@, final(out)@.skip(old(out)@.len() as int)),
{
    let ghost start = out@;
    let ghost ps = parts@;
    let mut parts = parts;
    let mut rev: Vec<Segment> = Vec::new();
    while parts.len() > 0
        invariant
            parts_fit(ps, base_ms),
            parts@ == ps.take(parts@.len() as int),
            parts@.len() <= ps.len(),
            rev@.len() == ps.len() - parts@.len(),
            forall|j: int|
                0 <= j < rev@.len() ==> {
                    let k = ps.len() - 1 - j;
                    &&& (#[trigger] rev@[j]).id == 0
                    &&& rev@[j].speaker@ == speaker@
                    &&& rev@[j].source@ == source@
                    &&& rev@[j].start_ms == base_ms + ps[k].0
                    &&& rev@[j].end_ms == base_ms + ps[k].1
                    &&& rev@[j].text == ps[k].2
                },
        decreases parts.len(),
    {
        let ghost n = parts@.len();
        let p = parts.pop();
        match p {
            Some((s, e, text)) => {
                assert(ps[n - 1] == (s, e, text));
                rev.push(
                    Segment {
                        id: 0,
                        speaker: String::from_str(speaker),
                        source: String::from_str(source),
                        start_ms: base_ms + s,
                        end_ms: base_ms + e,
                        text,
                    },
                );
                assert(parts@ =~= ps.take(parts@.len() as int));
            },
            None => {
                assert(false);
            },
        }
    }
    while rev.len() > 0
        invariant
            rev@.len() <= ps.len(),
            out@.len() == start.len() + ps.len() - rev@.len(),
            out@.take(start.len() as int) == start,
            forall|j: int|
                0 <= j < rev@.len() ==> {
                    let k = ps.len() - 1 - j;
                    &&& (#[trigger] rev@[j]).id == 0
                    &&& rev@[j].speaker@ == speaker@
                    &&& rev@[j].source@ == source@
                    &&& rev@[j].start_ms == base_ms + ps[k].0
                    &&& rev@[j].end_ms == base_ms + ps[k].1
                    &&& rev@[j].text == ps[k].2
                },
            forall|k: int|
                0 <= k < ps.len() - rev@.len() ==> {
                    let g = #[trigger] out@[start.len() + k];
                    &&& g.id == 0
                    &&& g.speaker@ == speaker@
                    &&& g.source@ == source@
                    &&& g.start_ms == base_ms + ps[k].0
                    &&& g.end_ms == base_ms + ps[k].1
                    &&& g.text == ps[k].2
                },
        decreases rev.len(),
    {
        let ghost before = out@;
        let s = rev.pop();
        match s {
            Some(seg) => {
                out.push(seg);
                assert(out@.take(start.len() as int) =~= before.take(start.len() as int));
            },
            None => {
                assert(false);
            },
        }
    }
    assert forall|i: int| 0 <= i < ps.len() implies {
        let g = #[trigger] out@.skip(start.len() as int)[i];
        g == out@[start.len() + i]
    } by {}
}

/// The segments of a finished meeting's two channels: the microphone's parts said by
/// `me`, then the system audio's parts said by `them`.
pub fn meeting_segments(mic: Vec<Part>, system: Vec<Part>) -> (r: Vec<Segment>)
    requires
        parts_fit(mic@, 0),
        parts_fit(system@, 0),
    ensures
        r@.len() == mic@.len() + system@.len(),
        segments_of(mic@, 0, "me"@, "mic"@, r@.take(mic@.len() as int)),
        segments_of(system@, 0, "them"@, "system"@, r@.skip(mic@.len() as int)),
{
    let mut r: Vec<Segment> = Vec::new();
    let ghost m = mic@;
    push_segments(&mut r, mic, 0, "me", "mic");
    assert(r@.skip(0) =~= r@);
    let ghost first = r@;
    push_segments(&mut r, system, 0, "them", "system");
    assert(r@.take(m.len() as int) =~= first);
    r
}

/// The sample rate the speech models take: 16 kHz mono.
pub const WHISPER_SAMPLE_RATE: u32 = 16_000;

/// The length in milliseconds of `n` samples at 16 kHz (rounded down).
pub open spec fn samples_ms(n: int) -> int {
    n * 1000 / WHISPER_SAMPLE_RATE as int
}

/// The milliseconds of `n` samples at 16 kHz: a sixteenth of `n`, rounded down.
proof fn lemma_samples_ms(n: int)
    requires
        n >= 0,
    ensures
        samples_ms(n) == n / 16,
{
    assert(n * 1000 / 16000 == n / 16) by (nonlinear_arith)
        requires
            n >= 0,
    ;
}

/// A recogniser's plain text as timed parts: none when it is empty, else one part over
/// the whole chunk of `n_samples` samples.
pub fn text_part(text: String, n_samples: usize) -> (r: Vec<Part>)
    ensures
        text@.len() == 0 ==> r@.len() == 0,
        text@.len() > 0 ==> r@.len() == 1 && r@[0].0 == 0 && r@[0].1 == samples_ms(
            n_samples as int,
        ) && r@[0].2 == text,
{
    if text.as_str().is_empty() {
        Vec::new()
    } else {
        proof {
            lemma_samples_ms(n_samples as int);
        }
        let dur_ms = (n_samples / 16) as i64;
        let mut v: Vec<Part> = Vec::new();
        v.push((0, dur_ms, text));
        v
    }
}

/// A meeting position in milliseconds from a sample index at 16 kHz.
pub fn sample_index_ms(index: i64) -> (r: i64)
    requires
        0 <= index,
    ensures
        r == samples_ms(index as int),
{
    proof {
        lemma_samples_ms(index as int);
    }
    index / 16
}

/// Whether to send an in-progress utterance for a tentative transcript: only when the
/// transcriber is idle, at least a second of audio is pending, and speech is ongoing.
pub fn should_send_partial(queued: i64, pending_samples: usize, in_speech: bool) -> (r: bool)
    ensures
        r == (queued == 0 && pending_samples >= WHISPER_SAMPLE_RATE && in_speech),
{
    queued == 0 && pending_samples >= WHISPER_SAMPLE_RATE as usize && in_speech
}

/// Records a transcription failure; true when it is new (and so is to be shown), false
/// when the same message was recorded before.
pub fn record_failure(failures: &mut Vec<String>, message: String) -> (r: bool)
    ensures
        r == !(exists|i: int| 0 <= i < old(failures)@.len() && (#[trigger] old(failures)@[i])@
            == message@),
        r ==> final(failures)@ == old(failures)@.push(message),
        !r ==> final(failures)@ == old(failures)@,
{
    let mut i: usize = 0;
    while i < failures.len()
        invariant
            i <= failures@.len(),
            forall|j: int| 0 <= j < i ==> (#[trigger] failures@[j])@ != message@,
        decreases failures.len() - i,
    {
        if failures[i] == message {
            return false;
        }
        i = i + 1;
    }
    failures.push(message);
    true
}

/// How many transcription workers a meeting runs: two for a cloud provider, to keep up
/// with both channels; one for a local recogniser.
pub fn worker_count(cloud: bool) -> (r: usize)
    ensures
        r == if cloud { 2usize } else { 1usize },
{
    if cloud { 2 } else { 1 }
}

/// The texts of timed parts joined by single spaces (a tentative transcript).
pub open spec fn parts_text(parts: Seq<Part>) -> Seq<char>
    decreases parts.len(),
{
    if parts.len() == 0 {
        seq![]
    } else if parts.len() == 1 {
        parts[0].2@
    } else {
        parts_text(parts.drop_last()) + " "@ + parts.last().2@
    }
}

/// The texts of timed parts joined by single spaces.
pub fn join_parts(parts: &Vec<Part>) -> (r: String)
    ensures
        r@ == parts_text(parts@),
{
    let mut r = String::new();
    let mut i: usize = 0;
    while i < parts.len()
        invariant
            i <= parts@.len(),
            r@ == parts_text(parts@.take(i as int)),
        decreases parts.len() - i,
    {
        assert(parts@.take(i + 1).drop_last() =~= parts@.take(i as int));
        if i > 0 {
            r.append(" ");
        }
        r.append(parts[i].2.as_str());
        assert(r@ =~= parts_text(parts@.take(i + 1)));
        i = i + 1;
    }
    assert(parts@.take(parts@.len() as int) =~= parts@);
    r
}

/// How many times a meeting segment is sent to a cloud provider before giving up.
pub const CLOUD_TRANSCRIBE_ATTEMPTS: usize = 3;

/// At most this many segments wait for transcription; a finished segment that finds
/// the queue full is reported as lost.
pub const MAX_QUEUED_JOBS: usize = 24;

/// What follows the failure of cloud attempt number `attempt` (counted from 1): another
/// attempt after waiting 500 ms times `attempt`, or none after the last.
pub fn retry_delay_ms(attempt: usize) -> (r: Option<u64>)
    requires
        1 <= attempt,
    ensures
        attempt < CLOUD_TRANSCRIBE_ATTEMPTS ==> r == Some((500 * attempt) as u64),
        attempt >= CLOUD_TRANSCRIBE_ATTEMPTS ==> r is None,
{
    if attempt < CLOUD_TRANSCRIBE_ATTEMPTS {
        Some(500 * attempt as u64)
    } else {
        None
    }
}

/// The tentative transcript of an in-progress utterance: the texts of its parts joined
/// by spaces, shown only when not blank.
pub fn partial_text(parts: &Vec<Part>) -> (r: Option<String>)
    ensures
        r matches Some(t) ==> t@ == parts_text(parts@),
        r is Some <==> trim(parts_text(parts@)).len() > 0,
{
    let text = join_parts(parts);
    let t = trim_str(text.as_str());
    if t.as_str().is_empty() {
        None
    } else {
        Some(text)
    }
}

/// The speaker label a diarized participant is stored under: `them:` and its number.
pub open spec fn speaker_tag_spec(n: int) -> Seq<char> {
    "them:"@ + signed_dec(n)
}

/// The stored speaker label of diarized participant `n`.
pub fn speaker_tag(n: i32) -> (r: String)
    ensures
        r@ == speaker_tag_spec(n as int),
{
    concat("them:", signed_decimal(n as i64).as_str())
}

proof fn lemma_digit(d: nat)
    requires
        d < 10,
    ensures
        is_digit(crate::text::digit(d)),
        crate::text::digit(d) as int - '0' as int == d,
{
    assert(seq!['0', '1', '2', '3', '4', '5', '6', '7', '8', '9'][d as int] == crate::text::digit(d));
    if d == 0 { } else if d == 1 { } else if d == 2 { } else if d == 3 { } else if d == 4 { }
    else if d == 5 { } else if d == 6 { } else if d == 7 { } else if d == 8 { } else { }
}

/// The decimal digits of a number read back as that number.
proof fn lemma_dec_digits(m: nat)
    ensures
        dec(m).len() > 0,
        all_digits(dec(m)),
        digits_value(dec(m)) == m,
    decreases m,
{
    if m < 10 {
        lemma_digit(m);
        assert(dec(m) =~= seq![crate::text::digit(m)]);
        assert(dec(m).drop_last() =~= Seq::<char>::empty());
        assert(digits_value(Seq::<char>::empty()) == 0);
        assert(digits_value(dec(m)) == digits_value(dec(m).drop_last()) * 10 + (dec(m).last() as int
            - '0' as int));
    } else {
        lemma_dec_digits(m / 10);
        lemma_digit(m % 10);
        let s = dec(m);
        assert(s.drop_last() =~= dec(m / 10));
        assert forall|i: int| 0 <= i < s.len() implies is_digit(#[trigger] s[i]) by {
            if i < s.len() - 1 {
                assert(s[i] == dec(m / 10)[i]);
            }
        }
        assert(digits_value(s) == (m / 10) * 10 + (m % 10)) by (nonlinear_arith)
            requires
                digits_value(s) == digits_value(dec(m / 10)) * 10 + (crate::text::digit(m % 10) as int
                    - '0' as int),
                digits_value(dec(m / 10)) == m / 10,
                crate::text::digit(m % 10) as int - '0' as int == m % 10,
        ;
        assert((m / 10) * 10 + (m % 10) == m);
    }
}

/// `parse::<i32>` reads back what `signed_dec` writes.
pub proof fn lemma_parse_signed_dec(n: int)
    requires
        i32::MIN <= n <= i32::MAX,
    ensures
        parse_i32(signed_dec(n)) == Some(n),
{
    let s = signed_dec(n);
    if n < 0 {
        reveal_strlit("-");
        lemma_dec_digits((-n) as nat);
        assert(s[0] == '-');
        assert(unsigned_part(s) =~= dec((-n) as nat));
    } else {
        lemma_dec_digits(n as nat);
        assert(is_digit(s[0]));
        assert(unsigned_part(s) == s);
    }
}

/// A diarized participant's stored label reads, for the language model, as `Speaker`
/// and the participant's number plus one: participant 0 is Speaker 1.
pub proof fn law_speaker_tag_label(n: int)
    requires
        i32::MIN <= n <= i32::MAX,
    ensures
        speaker_number(speaker_tag_spec(n)) == Some(n),
        speaker_text(speaker_tag_spec(n)) == "Speaker "@ + signed_dec(n + 1),
{
    reveal_strlit("them:");
    reveal_strlit("me");
    let t = speaker_tag_spec(n);
    assert("them:"@.is_prefix_of(t)) by {
        assert(t.take(5) =~= "them:"@);
    }
    assert(t.skip(5) =~= signed_dec(n));
    lemma_parse_signed_dec(n);
    assert(t != "me"@) by {
        assert(t[0] == 't');
    }
}

/// Under a second of system audio holds nothing to tell speakers apart by.
pub const DIARIZE_MIN_SAMPLES: usize = 16_000;

/// Whether a meeting's system audio of `n_samples` samples is worth diarizing.
pub fn worth_diarizing(n_samples: usize) -> (r: bool)
    ensures
        r == (n_samples >= DIARIZE_MIN_SAMPLES),
{
    n_samples >= DIARIZE_MIN_SAMPLES
}

/// Whether the timed parts, offset by `base_ms`, keep their times within `i64`.
pub fn parts_fit_check(parts: &Vec<Part>, base_ms: i64) -> (r: bool)
    ensures
        r == parts_fit(parts@, base_ms),
{
    let mut i: usize = 0;
    while i < parts.len()
        invariant
            i <= parts@.len(),
            forall|j: int|
                0 <= j < i ==> i64::MIN <= base_ms + (#[trigger] parts@[j]).0 <= i64::MAX
                    && i64::MIN <= base_ms + parts@[j].1 <= i64::MAX,
        decreases parts@.len() - i,
    {
        if base_ms.checked_add(parts[i].0).is_none() || base_ms.checked_add(parts[i].1).is_none() {
            return false;
        }
        i = i + 1;
    }
    true
}

/// What a question about a meeting is answered from keeps each part the user wrote,
/// each independently of the others: it starts with the summary block whenever the
/// summary is not blank, ends with the notes block and then the transcript (what
/// `meeting_transcript` gives) whenever the notes are not blank, and always ends with
/// the transcript.
pub proof fn law_context_keeps_every_part(summary: Seq<char>, notes: Seq<char>, segs: Seq<Segment>)
    ensures
        ({
            let ctx = context_text(summary, notes, segs);
            let tail = "Transcript:\n"@ + transcript_lines(segs);
            &&& tail.is_suffix_of(ctx)
            &&& trim(notes).len() > 0 ==> ("My notes:\n"@ + notes + "\n\n"@ + tail).is_suffix_of(ctx)
            &&& trim(summary).len() > 0 ==> ("Summary:\n"@ + summary + "\n\n"@).is_prefix_of(ctx)
            &&& trim(summary).len() == 0 && trim(notes).len() == 0 ==> ctx == tail
        }),
{
    let ctx = context_text(summary, notes, segs);
    let tail = "Transcript:\n"@ + transcript_lines(segs);
    let a = if trim(summary).len() > 0 {
        "Summary:\n"@ + summary + "\n\n"@
    } else {
        seq![]
    };
    let b = if trim(notes).len() > 0 {
        "My notes:\n"@ + notes + "\n\n"@
    } else {
        seq![]
    };
    assert(ctx =~= a + (b + tail));
    assert(ctx.subrange(ctx.len() - tail.len(), ctx.len() as int) =~= tail);
    assert(ctx.subrange(ctx.len() - (b + tail).len(), ctx.len() as int) =~= b + tail);
    assert(ctx.subrange(0, a.len() as int) =~= a);
    if trim(summary).len() == 0 && trim(notes).len() == 0 {
        assert(ctx =~= tail);
    }
}

} // verus!
