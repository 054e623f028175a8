//! What the shortcut matcher promises across calls.
use vstd::prelude::*;
use crate::hotkeys::{
    BindingView, EventView, MatcherView, ModSet, Mode, Modifier, ParseAcc, TapView, cancelled,
    capture_begun, combo_parts, combo_text, first_hit, join, lemma_first_hit, matcher_wf, mod_name,
    mod_names, modifier_word, parse_parts, parse_spec, parse_step, press, release, split,
    mod_of_code, raw_tap, KeyEventKind,
};

verus! {

/// `s` holds no `c`.
pub open spec fn no_char(s: Seq<char>, c: char) -> bool {
    forall|i: int| 0 <= i < s.len() ==> s[i] != c
}

proof fn lemma_split_len(s: Seq<char>, c: char)
    ensures
        split(s, c).len() >= 1,
    decreases s.len(),
{
    if s.len() > 0 {
        lemma_split_len(s.drop_last(), c);
    }
}

proof fn lemma_split_plain(s: Seq<char>, b: Seq<char>, c: char)
    requires
        no_char(b, c),
    ensures
        split(s + b, c) == split(s, c).update(
            split(s, c).len() - 1,
            split(s, c).last() + b,
        ),
    decreases b.len(),
{
    lemma_split_len(s, c);
    if b.len() == 0 {
        assert(s + b =~= s);
        assert(split(s, c).last() + b =~= split(s, c).last());
        assert(split(s, c).update(split(s, c).len() - 1, split(s, c).last()) =~= split(s, c));
    } else {
        let b0 = b.drop_last();
        assert(no_char(b0, c)) by {
            assert forall|i: int| 0 <= i < b0.len() implies b0[i] != c by {
                assert(b0[i] == b[i]);
            }
        }
        lemma_split_plain(s, b0, c);
        assert((s + b).drop_last() =~= s + b0);
        assert((s + b).last() == b[b.len() - 1]);
        lemma_split_len(s + b0, c);
        let q = split(s, c);
        let l = q.len() - 1;
        let p = split(s + b0, c);
        assert(b[b.len() - 1] != c);
        assert(split(s + b, c) == p.update(p.len() - 1, p.last().push(b[b.len() - 1])));
        assert(p.len() == q.len());
        assert(p.last() == q.last() + b0);
        assert((q.last() + b0).push(b[b.len() - 1]) =~= q.last() + b);
        assert(split(s + b, c) =~= split(s, c).update(
            split(s, c).len() - 1,
            split(s, c).last() + b,
        ));
    }
}

proof fn lemma_split_join(parts: Seq<Seq<char>>, c: char)
    requires
        parts.len() >= 1,
        forall|i: int| 0 <= i < parts.len() ==> no_char(#[trigger] parts[i], c),
    ensures
        split(join(parts, c), c) == parts,
    decreases parts.len(),
{
    if parts.len() == 1 {
        lemma_split_plain(seq![], parts[0], c);
        assert(Seq::<char>::empty() + parts[0] =~= parts[0]);
        assert(split(Seq::<char>::empty(), c) =~= seq![seq![]]);
        assert(seq![Seq::<char>::empty()].update(0, Seq::<char>::empty() + parts[0]) =~= parts);
    } else {
        let init = parts.drop_last();
        assert forall|i: int| 0 <= i < init.len() implies no_char(#[trigger] init[i], c) by {
            assert(init[i] == parts[i]);
        }
        lemma_split_join(init, c);
        let a = join(init, c) + seq![c];
        assert(a.drop_last() =~= join(init, c));
        assert(split(a, c) == init.push(seq![]));
        assert(no_char(parts[parts.len() - 1], c));
        lemma_split_plain(a, parts.last(), c);
        assert(join(parts, c) == a + parts.last());
        assert(Seq::<char>::empty() + parts.last() =~= parts.last());
        assert(init.push(seq![]).update(init.len() as int, Seq::<char>::empty() + parts.last())
            =~= parts);
    }
}

proof fn lemma_parse_push(ps: Seq<Seq<char>>, p: Seq<char>)
    ensures
        parse_parts(ps.push(p)) == parse_step(parse_parts(ps), p),
{
    assert(ps.push(p).drop_last() =~= ps);
}

proof fn lemma_mod_words()
    ensures
        modifier_word(mod_name(Modifier::Cmd)) == Some(Modifier::Cmd),
        modifier_word(mod_name(Modifier::Ctrl)) == Some(Modifier::Ctrl),
        modifier_word(mod_name(Modifier::Alt)) == Some(Modifier::Alt),
        modifier_word(mod_name(Modifier::Shift)) == Some(Modifier::Shift),
        modifier_word(mod_name(Modifier::Fn)) == Some(Modifier::Fn),
        forall|m: Modifier| no_char(#[trigger] mod_name(m), '+'),
{
    assert(mod_name(Modifier::Ctrl) != seq!['c', 'm', 'd']);
    assert(mod_name(Modifier::Ctrl) != seq!['s', 'u', 'p', 'e', 'r']);
    assert(mod_name(Modifier::Alt) != seq!['c', 'm', 'd']);
    assert(mod_name(Modifier::Alt) != seq!['c', 't', 'r', 'l']);
    assert(mod_name(Modifier::Shift) != seq!['s', 'u', 'p', 'e', 'r']);
    assert(mod_name(Modifier::Shift) != seq!['c', 'o', 'n', 't', 'r', 'o', 'l']);
    assert(mod_name(Modifier::Shift) != seq!['o', 'p', 't', 'i', 'o', 'n']);
    assert(mod_name(Modifier::Fn) != seq!['a', 'l', 't']);
    assert(mod_name(Modifier::Fn) != seq!['c', 'm', 'd']);
    assert(mod_name(Modifier::Fn) != seq!['s', 'u', 'p', 'e', 'r']);
    assert(mod_name(Modifier::Fn) != seq!['o', 'p', 't', 'i', 'o', 'n']);
    assert(mod_name(Modifier::Fn) != seq!['s', 'h', 'i', 'f', 't']);
    assert(mod_name(Modifier::Fn) != seq!['c', 't', 'r', 'l']);
    assert(mod_name(Modifier::Fn) != seq!['c', 'o', 'm', 'm', 'a', 'n', 'd']);
    assert(mod_name(Modifier::Fn) != seq!['c', 'o', 'n', 't', 'r', 'o', 'l']);
}

/// The modifier names of `m`, read as combo parts, give back `m`.
proof fn lemma_parse_mod_names(m: ModSet)
    ensures
        parse_parts(mod_names(m)) == (ParseAcc { mods: m, key: None, dup: false }),
        mod_names(m).len() == 0 <==> m.empty_set(),
        forall|i: int| 0 <= i < mod_names(m).len() ==> no_char(#[trigger] mod_names(m)[i], '+'),
{
    lemma_mod_words();
    let n0: Seq<Seq<char>> = seq![];
    let n1 = if m.cmd { n0.push(mod_name(Modifier::Cmd)) } else { n0 };
    let n2 = if m.ctrl { n1.push(mod_name(Modifier::Ctrl)) } else { n1 };
    let n3 = if m.alt { n2.push(mod_name(Modifier::Alt)) } else { n2 };
    let n4 = if m.shift { n3.push(mod_name(Modifier::Shift)) } else { n3 };
    let n5 = if m.fn_key { n4.push(mod_name(Modifier::Fn)) } else { n4 };
    assert(mod_names(m) =~= n5);
    lemma_parse_push(n0, mod_name(Modifier::Cmd));
    lemma_parse_push(n1, mod_name(Modifier::Ctrl));
    lemma_parse_push(n2, mod_name(Modifier::Alt));
    lemma_parse_push(n3, mod_name(Modifier::Shift));
    lemma_parse_push(n4, mod_name(Modifier::Fn));
    assert forall|i: int| 0 <= i < n5.len() implies no_char(#[trigger] n5[i], '+') by {
        assert(exists|x: Modifier| n5[i] == mod_name(x));
    }
}

/// A combo written by `combo_string` reads back through `parse` as the same modifiers
/// and key, whenever it names something and its key is a plain key name (not empty,
/// without `+`, and not itself a modifier word).
pub proof fn law_combo_round_trip(m: ModSet, key: Option<Seq<char>>, mode: Mode)
    requires
        !m.empty_set() || key is Some,
        key matches Some(k) ==> k.len() > 0 && no_char(k, '+') && modifier_word(k) is None,
    ensures
        parse_spec(combo_text(m, key), mode) == Ok::<BindingView, Seq<char>>(
            BindingView { mods: m, key, combo: combo_text(m, key), mode },
        ),
{
    lemma_parse_mod_names(m);
    let parts = combo_parts(m, key);
    match key {
        Some(k) => {
            assert(parts == mod_names(m).push(k));
            assert forall|i: int| 0 <= i < parts.len() implies no_char(#[trigger] parts[i], '+') by {
                if i < mod_names(m).len() {
                    assert(parts[i] == mod_names(m)[i]);
                }
            }
            lemma_split_join(parts, '+');
            lemma_parse_push(mod_names(m), k);
        },
        None => {
            lemma_split_join(parts, '+');
        },
    }
}

/// Keys being captured: committing a key during a capture announces the held modifiers
/// and the key as a combo, and that combo reads back as the same shortcut.
pub proof fn law_capture_commit_reads_back(m: MatcherView, k: Seq<char>, mode: Mode)
    requires
        m.capturing,
        k.len() > 0,
        no_char(k, '+'),
        modifier_word(k) is None,
    ensures
        press(m, TapView::Key(k)).1 == seq![
            EventView::CaptureCommit(combo_text(m.mods_down, Some(k))),
        ],
        !press(m, TapView::Key(k)).0.capturing,
        parse_spec(combo_text(m.mods_down, Some(k)), mode) == Ok::<BindingView, Seq<char>>(
            BindingView {
                mods: m.mods_down,
                key: Some(k),
                combo: combo_text(m.mods_down, Some(k)),
                mode,
            },
        ),
{
    law_combo_round_trip(m.mods_down, Some(k), mode);
}

/// A modifier-only capture (such as bare fn) commits when the last modifier is let go,
/// with the most modifiers that were held at once, and that combo reads back.
pub proof fn law_capture_modifier_only(m: MatcherView, md: Modifier, mode: Mode)
    requires
        m.capturing,
        m.mods_down.set(md, false).empty_set(),
        !m.peak_mods.empty_set(),
    ensures
        release(m, TapView::Mod(md)).1 == seq![
            EventView::CaptureCommit(combo_text(m.peak_mods, None)),
        ],
        !release(m, TapView::Mod(md)).0.capturing,
        parse_spec(combo_text(m.peak_mods, None), mode) == Ok::<BindingView, Seq<char>>(
            BindingView {
                mods: m.peak_mods,
                key: None,
                combo: combo_text(m.peak_mods, None),
                mode,
            },
        ),
{
    law_combo_round_trip(m.peak_mods, None, mode);
}

pub open spec fn capture_event(e: EventView) -> bool {
    e is CaptureCancel || e is CaptureUpdate || e is CaptureCommit
}

/// While a capture runs, key events only drive the capture: they emit capture events
/// alone, and leave the bindings and any held push-to-talk as they were.
pub proof fn law_capture_is_isolated(m: MatcherView, t: TapView, down: bool)
    requires
        matcher_wf(m),
        m.capturing,
    ensures
        ({
            let (m1, ev) = if down {
                press(m, t)
            } else {
                release(m, t)
            };
            &&& forall|i: int| 0 <= i < ev.len() ==> capture_event(#[trigger] ev[i])
            &&& m1.bindings == m.bindings
            &&& m1.active_ptt == m.active_ptt
        }),
{
}

/// Escape during a capture cancels it and announces that alone; outside a capture it
/// changes nothing.
pub proof fn law_escape(m: MatcherView)
    ensures
        m.capturing ==> press(m, TapView::Escape) == (
            MatcherView { capturing: false, peak_mods: ModSet::none(), ..m },
            seq![EventView::CaptureCancel],
        ),
        !m.capturing ==> press(m, TapView::Escape) == (m, Seq::<EventView>::empty()),
{
}

/// Push-to-talk on a key combo: pressing the key while exactly the binding's modifiers
/// are held starts the binding, and letting the key go ends it with a single `ptt-up`.
pub proof fn law_push_to_talk_key(m: MatcherView, k: Seq<char>, i: int)
    requires
        matcher_wf(m),
        !m.capturing,
        !m.committed,
        first_hit(m.bindings, m.mods_down, Some(k)) == Some(i),
        m.bindings[i].mode == Mode::PushToTalk,
    ensures
        ({
            let (m1, e1) = press(m, TapView::Key(k));
            let (m2, e2) = release(m1, TapView::Key(k));
            &&& m1.active_ptt == Some(i)
            &&& e1.len() >= 1 && e1.last() == EventView::PttDown
            &&& e2 == seq![EventView::PttUp]
            &&& m2.active_ptt is None
            &&& m2.mods_down == m.mods_down
            &&& m2.bindings == m.bindings
        }),
{
    lemma_first_hit(m.bindings, m.mods_down, Some(k));
}

/// Push-to-talk on modifiers alone (such as bare fn): pressing the last modifier of the
/// binding starts it, and letting that modifier go ends it with a single `ptt-up`.
pub proof fn law_push_to_talk_modifier(m: MatcherView, md: Modifier, i: int)
    requires
        matcher_wf(m),
        !m.capturing,
        first_hit(m.bindings, m.mods_down.set(md, true), None) == Some(i),
        m.bindings[i].mode == Mode::PushToTalk,
    ensures
        ({
            let (m1, e1) = press(m, TapView::Mod(md));
            let (m2, e2) = release(m1, TapView::Mod(md));
            &&& m1.active_ptt == Some(i)
            &&& e1 == seq![EventView::PttDown]
            &&& e2 == seq![EventView::PttUp]
            &&& m2.active_ptt is None
            &&& m2.mods_down == m.mods_down.set(md, false)
        }),
{
    lemma_first_hit(m.bindings, m.mods_down.set(md, true), None);
    let d = m.mods_down.set(md, true);
    assert(d.has(md));
    assert(!d.empty_set());
}

/// Hands-free on a key combo: pressing the key while exactly the binding's modifiers are
/// held toggles recording once, first abandoning any push-to-talk held down.
pub proof fn law_hands_free_key(m: MatcherView, k: Seq<char>, i: int)
    requires
        matcher_wf(m),
        !m.capturing,
        first_hit(m.bindings, m.mods_down, Some(k)) == Some(i),
        m.bindings[i].mode == Mode::HandsFree,
    ensures
        ({
            let (m1, e1) = press(m, TapView::Key(k));
            &&& e1 == if m.active_ptt is Some {
                seq![EventView::PttCancel, EventView::HotkeyToggle]
            } else {
                seq![EventView::HotkeyToggle]
            }
            &&& m1.active_ptt is None
            &&& m1.bindings == m.bindings
        }),
{
    assert(seq![EventView::PttCancel].push(EventView::HotkeyToggle) =~= seq![
        EventView::PttCancel,
        EventView::HotkeyToggle,
    ]);
    assert(Seq::<EventView>::empty().push(EventView::HotkeyToggle) =~= seq![
        EventView::HotkeyToggle,
    ]);
}

/// Cancelling a capture right after beginning it gives back the idle state it began in.
pub proof fn law_cancel_undoes_begin(m: MatcherView)
    requires
        matcher_wf(m),
        !m.capturing,
        !m.committed,
    ensures
        cancelled(capture_begun(m)) == m,
{
}

/// Key events that match no binding, outside a capture, emit nothing.
pub proof fn law_unbound_keys_are_silent(m: MatcherView, k: Seq<char>)
    requires
        !m.capturing,
        first_hit(m.bindings, m.mods_down, Some(k)) is None,
    ensures
        press(m, TapView::Key(k)) == (m, Seq::<EventView>::empty()),
{
}

/// Each macOS modifier key code is read as the modifier printed on the key, the left and
/// right keys alike: 54 and 55 command, 56 and 60 shift, 58 and 61 option, 59 and 62
/// control, 63 fn; no other code is a modifier. A `FlagsChanged` event with one of these
/// codes reaches the matcher as that modifier going down or up.
pub proof fn law_modifier_key_codes(code: i64, down: bool)
    ensures
        (mod_of_code(code) == Some(Modifier::Cmd)) == (code == 54 || code == 55),
        (mod_of_code(code) == Some(Modifier::Shift)) == (code == 56 || code == 60),
        (mod_of_code(code) == Some(Modifier::Alt)) == (code == 58 || code == 61),
        (mod_of_code(code) == Some(Modifier::Ctrl)) == (code == 59 || code == 62),
        (mod_of_code(code) == Some(Modifier::Fn)) == (code == 63),
        (mod_of_code(code) is None) == !(54 <= code <= 56 || 58 <= code <= 63),
        (code == 54 || code == 55) ==> raw_tap(KeyEventKind::FlagsChanged, code, down) == Some(
            (TapView::Mod(Modifier::Cmd), down),
        ),
        (code == 56 || code == 60) ==> raw_tap(KeyEventKind::FlagsChanged, code, down) == Some(
            (TapView::Mod(Modifier::Shift), down),
        ),
        (code == 58 || code == 61) ==> raw_tap(KeyEventKind::FlagsChanged, code, down) == Some(
            (TapView::Mod(Modifier::Alt), down),
        ),
        (code == 59 || code == 62) ==> raw_tap(KeyEventKind::FlagsChanged, code, down) == Some(
            (TapView::Mod(Modifier::Ctrl), down),
        ),
        code == 63 ==> raw_tap(KeyEventKind::FlagsChanged, code, down) == Some(
            (TapView::Mod(Modifier::Fn), down),
        ),
{
}

/// Each (US layout) key code reaches the matcher as the key printed on it, from a fixed
/// table: letters, digits, space, the editing and arrow keys and F1 to F12; a key going
/// down is a press of that key, and codes outside the table name no key.
pub proof fn law_key_codes_name_their_keys(code: i64, down: bool)
    ensures
        code == 0 ==> raw_tap(KeyEventKind::KeyDown, code, down) == Some((TapView::Key("a"@), true)),
        code == 11 ==> raw_tap(KeyEventKind::KeyDown, code, down) == Some((TapView::Key("b"@), true)),
        code == 8 ==> raw_tap(KeyEventKind::KeyDown, code, down) == Some((TapView::Key("c"@), true)),
        code == 2 ==> raw_tap(KeyEventKind::KeyDown, code, down) == Some((TapView::Key("d"@), true)),
        code == 14 ==> raw_tap(KeyEventKind::KeyDown, code, down) == Some((TapView::Key("e"@), true)),
        code == 3 ==> raw_tap(KeyEventKind::KeyDown, code, down) == Some((TapView::Key("f"@), true)),
        code == 5 ==> raw_tap(KeyEventKind::KeyDown, code, down) == Some((TapView::Key("g"@), true)),
        code == 4 ==> raw_tap(KeyEventKind::KeyDown, code, down) == Some((TapView::Key("h"@), true)),
        code == 34 ==> raw_tap(KeyEventKind::KeyDown, code, down) == Some((TapView::Key("i"@), true)),
        code == 38 ==> raw_tap(KeyEventKind::KeyDown, code, down) == Some((TapView::Key("j"@), true)),
        code == 40 ==> raw_tap(KeyEventKind::KeyDown, code, down) == Some((TapView::Key("k"@), true)),
        code == 37 ==> raw_tap(KeyEventKind::KeyDown, code, down) == Some((TapView::Key("l"@), true)),
        code == 46 ==> raw_tap(KeyEventKind::KeyDown, code, down) == Some((TapView::Key("m"@), true)),
        code == 45 ==> raw_tap(KeyEventKind::KeyDown, code, down) == Some((TapView::Key("n"@), true)),
        code == 31 ==> raw_tap(KeyEventKind::KeyDown, code, down) == Some((TapView::Key("o"@), true)),
        code == 35 ==> raw_tap(KeyEventKind::KeyDown, code, down) == Some((TapView::Key("p"@), true)),
        code == 12 ==> raw_tap(KeyEventKind::KeyDown, code, down) == Some((TapView::Key("q"@), true)),
        code == 15 ==> raw_tap(KeyEventKind::KeyDown, code, down) == Some((TapView::Key("r"@), true)),
        code == 1 ==> raw_tap(KeyEventKind::KeyDown, code, down) == Some((TapView::Key("s"@), true)),
        code == 17 ==> raw_tap(KeyEventKind::KeyDown, code, down) == Some((TapView::Key("t"@), true)),
        code == 32 ==> raw_tap(KeyEventKind::KeyDown, code, down) == Some((TapView::Key("u"@), true)),
        code == 9 ==> raw_tap(KeyEventKind::KeyDown, code, down) == Some((TapView::Key("v"@), true)),
        code == 13 ==> raw_tap(KeyEventKind::KeyDown, code, down) == Some((TapView::Key("w"@), true)),
        code == 7 ==> raw_tap(KeyEventKind::KeyDown, code, down) == Some((TapView::Key("x"@), true)),
        code == 16 ==> raw_tap(KeyEventKind::KeyDown, code, down) == Some((TapView::Key("y"@), true)),
        code == 6 ==> raw_tap(KeyEventKind::KeyDown, code, down) == Some((TapView::Key("z"@), true)),
        code == 29 ==> raw_tap(KeyEventKind::KeyDown, code, down) == Some((TapView::Key("0"@), true)),
        code == 18 ==> raw_tap(KeyEventKind::KeyDown, code, down) == Some((TapView::Key("1"@), true)),
        code == 19 ==> raw_tap(KeyEventKind::KeyDown, code, down) == Some((TapView::Key("2"@), true)),
        code == 20 ==> raw_tap(KeyEventKind::KeyDown, code, down) == Some((TapView::Key("3"@), true)),
        code == 21 ==> raw_tap(KeyEventKind::KeyDown, code, down) == Some((TapView::Key("4"@), true)),
        code == 23 ==> raw_tap(KeyEventKind::KeyDown, code, down) == Some((TapView::Key("5"@), true)),
        code == 22 ==> raw_tap(KeyEventKind::KeyDown, code, down) == Some((TapView::Key("6"@), true)),
        code == 26 ==> raw_tap(KeyEventKind::KeyDown, code, down) == Some((TapView::Key("7"@), true)),
        code == 28 ==> raw_tap(KeyEventKind::KeyDown, code, down) == Some((TapView::Key("8"@), true)),
        code == 25 ==> raw_tap(KeyEventKind::KeyDown, code, down) == Some((TapView::Key("9"@), true)),
        code == 49 ==> raw_tap(KeyEventKind::KeyDown, code, down) == Some((TapView::Key("space"@), true)),
        code == 51 ==> raw_tap(KeyEventKind::KeyDown, code, down) == Some((TapView::Key("backspace"@), true)),
        code == 117 ==> raw_tap(KeyEventKind::KeyDown, code, down) == Some((TapView::Key("delete"@), true)),
        code == 36 ==> raw_tap(KeyEventKind::KeyDown, code, down) == Some((TapView::Key("enter"@), true)),
        code == 48 ==> raw_tap(KeyEventKind::KeyDown, code, down) == Some((TapView::Key("tab"@), true)),
        code == 115 ==> raw_tap(KeyEventKind::KeyDown, code, down) == Some((TapView::Key("home"@), true)),
        code == 119 ==> raw_tap(KeyEventKind::KeyDown, code, down) == Some((TapView::Key("end"@), true)),
        code == 116 ==> raw_tap(KeyEventKind::KeyDown, code, down) == Some((TapView::Key("pageup"@), true)),
        code == 121 ==> raw_tap(KeyEventKind::KeyDown, code, down) == Some((TapView::Key("pagedown"@), true)),
        code == 123 ==> raw_tap(KeyEventKind::KeyDown, code, down) == Some((TapView::Key("left"@), true)),
        code == 124 ==> raw_tap(KeyEventKind::KeyDown, code, down) == Some((TapView::Key("right"@), true)),
        code == 125 ==> raw_tap(KeyEventKind::KeyDown, code, down) == Some((TapView::Key("down"@), true)),
        code == 126 ==> raw_tap(KeyEventKind::KeyDown, code, down) == Some((TapView::Key("up"@), true)),
        code == 122 ==> raw_tap(KeyEventKind::KeyDown, code, down) == Some((TapView::Key("f1"@), true)),
        code == 120 ==> raw_tap(KeyEventKind::KeyDown, code, down) == Some((TapView::Key("f2"@), true)),
        code == 99 ==> raw_tap(KeyEventKind::KeyDown, code, down) == Some((TapView::Key("f3"@), true)),
        code == 118 ==> raw_tap(KeyEventKind::KeyDown, code, down) == Some((TapView::Key("f4"@), true)),
        code == 96 ==> raw_tap(KeyEventKind::KeyDown, code, down) == Some((TapView::Key("f5"@), true)),
        code == 97 ==> raw_tap(KeyEventKind::KeyDown, code, down) == Some((TapView::Key("f6"@), true)),
        code == 98 ==> raw_tap(KeyEventKind::KeyDown, code, down) == Some((TapView::Key("f7"@), true)),
        code == 100 ==> raw_tap(KeyEventKind::KeyDown, code, down) == Some((TapView::Key("f8"@), true)),
        code == 101 ==> raw_tap(KeyEventKind::KeyDown, code, down) == Some((TapView::Key("f9"@), true)),
        code == 109 ==> raw_tap(KeyEventKind::KeyDown, code, down) == Some((TapView::Key("f10"@), true)),
        code == 103 ==> raw_tap(KeyEventKind::KeyDown, code, down) == Some((TapView::Key("f11"@), true)),
        code == 111 ==> raw_tap(KeyEventKind::KeyDown, code, down) == Some((TapView::Key("f12"@), true)),
        (code < 0 || code > 126) ==> raw_tap(KeyEventKind::KeyDown, code, down) is None,
{
}

/// Outside a capture, pressing a key fires something exactly when some binding has that
/// key and exactly the modifiers held, and what fires is such a binding's event:
/// `ptt-down` for push-to-talk, a toggle for hands-free.
pub proof fn law_key_fires_on_exact_binding(m: MatcherView, k: Seq<char>)
    requires
        !m.capturing,
    ensures
        ({
            let ev = press(m, TapView::Key(k)).1;
            &&& (ev.len() > 0) == (exists|i: int|
                0 <= i < m.bindings.len() && (#[trigger] m.bindings[i]).mods == m.mods_down
                    && m.bindings[i].key == Some(k))
            &&& ev.len() > 0 ==> exists|i: int|
                0 <= i < m.bindings.len() && (#[trigger] m.bindings[i]).mods == m.mods_down
                    && m.bindings[i].key == Some(k) && ev.last() == (if m.bindings[i].mode
                    == Mode::PushToTalk {
                    EventView::PttDown
                } else {
                    EventView::HotkeyToggle
                })
        }),
{
    lemma_first_hit(m.bindings, m.mods_down, Some(k));
    let ev = press(m, TapView::Key(k)).1;
    match first_hit(m.bindings, m.mods_down, Some(k)) {
        Some(i) => {
            assert(m.bindings[i].mods == m.mods_down && m.bindings[i].key == Some(k));
        },
        None => {
            assert(ev.len() == 0);
            assert forall|i: int| 0 <= i < m.bindings.len() implies !((#[trigger] m.bindings[i]).mods
                == m.mods_down && m.bindings[i].key == Some(k)) by {
                assert(!crate::hotkeys::hit(m.bindings[i], m.mods_down, Some(k)));
            }
        },
    }
}

/// Outside a capture, pressing a modifier fires something exactly when some binding is
/// that modifier set alone, with no key: the modifiers held before and this one; what
/// fires is such a binding's event.
pub proof fn law_modifier_fires_on_exact_binding(m: MatcherView, md: Modifier)
    requires
        !m.capturing,
    ensures
        ({
            let held = m.mods_down.set(md, true);
            let ev = press(m, TapView::Mod(md)).1;
            &&& held.has(md)
            &&& (ev.len() > 0) == (exists|i: int|
                0 <= i < m.bindings.len() && (#[trigger] m.bindings[i]).mods == held
                    && m.bindings[i].key is None)
            &&& ev.len() > 0 ==> exists|i: int|
                0 <= i < m.bindings.len() && (#[trigger] m.bindings[i]).mods == held
                    && m.bindings[i].key is None && ev.last() == (if m.bindings[i].mode
                    == Mode::PushToTalk {
                    EventView::PttDown
                } else {
                    EventView::HotkeyToggle
                })
        }),
{
    let held = m.mods_down.set(md, true);
    lemma_first_hit(m.bindings, held, None);
    let ev = press(m, TapView::Mod(md)).1;
    match first_hit(m.bindings, held, None) {
        Some(i) => {
            assert(m.bindings[i].mods == held && m.bindings[i].key is None);
        },
        None => {
            assert(ev.len() == 0);
            assert forall|i: int| 0 <= i < m.bindings.len() implies !((#[trigger] m.bindings[i]).mods
                == held && m.bindings[i].key is None) by {
                assert(!crate::hotkeys::hit(m.bindings[i], held, None));
            }
        },
    }
}

/// Pressing or letting go of one modifier changes whether that modifier is held and no
/// other.
pub proof fn law_modifier_set_changes_one(mods: ModSet, md: Modifier, other: Modifier, v: bool)
    ensures
        mods.set(md, v).has(md) == v,
        other != md ==> mods.set(md, v).has(other) == mods.has(other),
{
}

} // verus!
