//! Matching of global key events against the user's shortcut bindings, and live
//! capture of a new shortcut from the keyboard.
//!
//! The matcher is a state machine: each key event moves it to a new state and
//! yields the events the UI is to receive. Bindings are written as combos such
//! as `fn+space`; `combo_string` writes them and `parse` reads them back.
use vstd::prelude::*;
use crate::text::{push_char, string_from_chars};

verus! {

/// How a binding drives recording.
#[derive(Clone, Copy, PartialEq, Eq, Debug, Structural)]
pub enum Mode {
    /// Press once to start, again to stop.
    HandsFree,
    /// Hold to record, release to finish.
    PushToTalk,
}

/// A modifier key.
#[derive(Clone, Copy, PartialEq, Eq, Debug, Structural)]
pub enum Modifier {
    Cmd,
    Ctrl,
    Alt,
    Shift,
    Fn,
}

/// A set of modifier keys.
#[derive(Clone, Copy, PartialEq, Eq, Debug, Structural)]
pub struct ModSet {
    pub cmd: bool,
    pub ctrl: bool,
    pub alt: bool,
    pub shift: bool,
    pub fn_key: bool,
}

impl ModSet {
    pub open spec fn has(self, m: Modifier) -> bool {
        match m {
            Modifier::Cmd => self.cmd,
            Modifier::Ctrl => self.ctrl,
            Modifier::Alt => self.alt,
            Modifier::Shift => self.shift,
            Modifier::Fn => self.fn_key,
        }
    }

    pub open spec fn set(self, m: Modifier, v: bool) -> ModSet {
        match m {
            Modifier::Cmd => ModSet { cmd: v, ..self },
            Modifier::Ctrl => ModSet { ctrl: v, ..self },
            Modifier::Alt => ModSet { alt: v, ..self },
            Modifier::Shift => ModSet { shift: v, ..self },
            Modifier::Fn => ModSet { fn_key: v, ..self },
        }
    }

    pub open spec fn none() -> ModSet {
        ModSet { cmd: false, ctrl: false, alt: false, shift: false, fn_key: false }
    }

    pub open spec fn empty_set(self) -> bool {
        self == ModSet::none()
    }

    /// The empty set.
    pub fn empty() -> (r: ModSet)
        ensures
            r == ModSet::none(),
    {
        ModSet { cmd: false, ctrl: false, alt: false, shift: false, fn_key: false }
    }

    pub fn contains(&self, m: Modifier) -> (r: bool)
        ensures
            r == self.has(m),
    {
        match m {
            Modifier::Cmd => self.cmd,
            Modifier::Ctrl => self.ctrl,
            Modifier::Alt => self.alt,
            Modifier::Shift => self.shift,
            Modifier::Fn => self.fn_key,
        }
    }

    pub fn insert(&mut self, m: Modifier)
        ensures
            *final(self) == old(self).set(m, true),
    {
        match m {
            Modifier::Cmd => self.cmd = true,
            Modifier::Ctrl => self.ctrl = true,
            Modifier::Alt => self.alt = true,
            Modifier::Shift => self.shift = true,
            Modifier::Fn => self.fn_key = true,
        }
    }

    pub fn remove(&mut self, m: Modifier)
        ensures
            *final(self) == old(self).set(m, false),
    {
        match m {
            Modifier::Cmd => self.cmd = false,
            Modifier::Ctrl => self.ctrl = false,
            Modifier::Alt => self.alt = false,
            Modifier::Shift => self.shift = false,
            Modifier::Fn => self.fn_key = false,
        }
    }

    pub fn is_empty(&self) -> (r: bool)
        ensures
            r == self.empty_set(),
    {
        !self.cmd && !self.ctrl && !self.alt && !self.shift && !self.fn_key
    }
}

/// The name a modifier has in a combo.
pub open spec fn mod_name(m: Modifier) -> Seq<char> {
    match m {
        Modifier::Cmd => seq!['c', 'm', 'd'],
        Modifier::Ctrl => seq!['c', 't', 'r', 'l'],
        Modifier::Alt => seq!['a', 'l', 't'],
        Modifier::Shift => seq!['s', 'h', 'i', 'f', 't'],
        Modifier::Fn => seq!['f', 'n'],
    }
}

/// The modifier a combo part names, if any (`super`/`command` are `cmd`, `control` is
/// `ctrl`, `option` is `alt`).
pub open spec fn modifier_word(p: Seq<char>) -> Option<Modifier> {
    if p == seq!['c', 'm', 'd'] || p == seq!['s', 'u', 'p', 'e', 'r'] || p == seq![
        'c',
        'o',
        'm',
        'm',
        'a',
        'n',
        'd',
    ] {
        Some(Modifier::Cmd)
    } else if p == seq!['c', 't', 'r', 'l'] || p == seq!['c', 'o', 'n', 't', 'r', 'o', 'l'] {
        Some(Modifier::Ctrl)
    } else if p == seq!['a', 'l', 't'] || p == seq!['o', 'p', 't', 'i', 'o', 'n'] {
        Some(Modifier::Alt)
    } else if p == seq!['s', 'h', 'i', 'f', 't'] {
        Some(Modifier::Shift)
    } else if p == seq!['f', 'n'] {
        Some(Modifier::Fn)
    } else {
        None
    }
}

/// The names of the modifiers in `m`, in display order: cmd, ctrl, alt, shift, fn.
pub open spec fn mod_names(m: ModSet) -> Seq<Seq<char>> {
    (if m.cmd { seq![mod_name(Modifier::Cmd)] } else { seq![] }) + (if m.ctrl {
        seq![mod_name(Modifier::Ctrl)]
    } else {
        seq![]
    }) + (if m.alt { seq![mod_name(Modifier::Alt)] } else { seq![] }) + (if m.shift {
        seq![mod_name(Modifier::Shift)]
    } else {
        seq![]
    }) + (if m.fn_key { seq![mod_name(Modifier::Fn)] } else { seq![] })
}

/// `parts` joined by `sep`.
pub open spec fn join(parts: Seq<Seq<char>>, sep: char) -> Seq<char>
    decreases parts.len(),
{
    if parts.len() == 0 {
        seq![]
    } else if parts.len() == 1 {
        parts[0]
    } else {
        join(parts.drop_last(), sep) + seq![sep] + parts.last()
    }
}

/// The parts of a combo: the modifier names in display order, then the key.
pub open spec fn combo_parts(m: ModSet, key: Option<Seq<char>>) -> Seq<Seq<char>> {
    match key {
        Some(k) => mod_names(m).push(k),
        None => mod_names(m),
    }
}

/// The canonical text of a combo, such as `cmd+shift+space`.
pub open spec fn combo_text(m: ModSet, key: Option<Seq<char>>) -> Seq<char> {
    join(combo_parts(m, key), '+')
}

/// `s` split at every `c`, as `str::split` gives it.
pub open spec fn split(s: Seq<char>, c: char) -> Seq<Seq<char>>
    decreases s.len(),
{
    if s.len() == 0 {
        seq![seq![]]
    } else if s.last() == c {
        split(s.drop_last(), c).push(seq![])
    } else {
        let p = split(s.drop_last(), c);
        p.update(p.len() - 1, p.last().push(s.last()))
    }
}

/// What has been read of a combo so far.
pub struct ParseAcc {
    pub mods: ModSet,
    pub key: Option<Seq<char>>,
    /// A second non-modifier key was seen.
    pub dup: bool,
}

pub open spec fn parse_step(a: ParseAcc, p: Seq<char>) -> ParseAcc {
    if a.dup {
        a
    } else {
        match modifier_word(p) {
            Some(m) => ParseAcc { mods: a.mods.set(m, true), ..a },
            None => if p.len() == 0 {
                a
            } else if a.key is Some {
                ParseAcc { dup: true, ..a }
            } else {
                ParseAcc { key: Some(p), ..a }
            },
        }
    }
}

pub open spec fn parse_parts(parts: Seq<Seq<char>>) -> ParseAcc
    decreases parts.len(),
{
    if parts.len() == 0 {
        ParseAcc { mods: ModSet::none(), key: None, dup: false }
    } else {
        parse_step(parse_parts(parts.drop_last()), parts.last())
    }
}

/// A binding as the contracts see it.
pub struct BindingView {
    pub mods: ModSet,
    pub key: Option<Seq<char>>,
    pub combo: Seq<char>,
    pub mode: Mode,
}

/// What reading `combo` gives: the binding, or the error message.
pub open spec fn parse_spec(combo: Seq<char>, mode: Mode) -> Result<BindingView, Seq<char>> {
    let a = parse_parts(split(combo, '+'));
    if a.dup {
        Err(seq!['\''] + combo + "' has more than one non-modifier key"@)
    } else if a.mods.empty_set() && a.key is None {
        Err(seq!['\''] + combo + "' is empty"@)
    } else {
        Ok(BindingView { mods: a.mods, key: a.key, combo, mode })
    }
}

/// A shortcut binding: modifiers, an optional non-modifier key, the combo text it was
/// read from, and its mode.
#[derive(Debug)]
pub struct Binding {
    pub mods: ModSet,
    pub key: Option<String>,
    pub combo: String,
    pub mode: Mode,
}

pub open spec fn opt_view(o: Option<String>) -> Option<Seq<char>> {
    match o {
        Some(s) => Some(s@),
        None => None,
    }
}

impl View for Binding {
    type V = BindingView;

    open spec fn view(&self) -> BindingView {
        BindingView { mods: self.mods, key: opt_view(self.key), combo: self.combo@, mode: self.mode }
    }
}

pub open spec fn opt_ref_view(o: Option<&String>) -> Option<Seq<char>> {
    match o {
        Some(s) => Some(s@),
        None => None,
    }
}

pub open spec fn binding_result_view(r: Result<Binding, String>) -> Result<BindingView, Seq<char>> {
    match r {
        Ok(b) => Ok(b@),
        Err(e) => Err(e@),
    }
}

/// Whether `v` holds exactly the characters of `w`.
fn chars_are(v: &Vec<char>, w: &[char]) -> (r: bool)
    ensures
        r == (v@ == w@),
{
    if v.len() != w.len() {
        return false;
    }
    let mut i: usize = 0;
    while i < v.len()
        invariant
            v@.len() == w@.len(),
            i <= v@.len(),
            forall|j: int| 0 <= j < i ==> v@[j] == w@[j],
        decreases v.len() - i,
    {
        if v[i] != w[i] {
            return false;
        }
        i = i + 1;
    }
    assert(v@ =~= w@);
    true
}

/// The modifier a combo part names, if any.
fn modifier_of(p: &Vec<char>) -> (r: Option<Modifier>)
    ensures
        r == modifier_word(p@),
{
    let cmd = ['c', 'm', 'd'];
    let sup = ['s', 'u', 'p', 'e', 'r'];
    let command = ['c', 'o', 'm', 'm', 'a', 'n', 'd'];
    let ctrl = ['c', 't', 'r', 'l'];
    let control = ['c', 'o', 'n', 't', 'r', 'o', 'l'];
    let alt = ['a', 'l', 't'];
    let option = ['o', 'p', 't', 'i', 'o', 'n'];
    let shift = ['s', 'h', 'i', 'f', 't'];
    let fnk = ['f', 'n'];
    assert(cmd@ =~= seq!['c', 'm', 'd']);
    assert(sup@ =~= seq!['s', 'u', 'p', 'e', 'r']);
    assert(command@ =~= seq!['c', 'o', 'm', 'm', 'a', 'n', 'd']);
    assert(ctrl@ =~= seq!['c', 't', 'r', 'l']);
    assert(control@ =~= seq!['c', 'o', 'n', 't', 'r', 'o', 'l']);
    assert(alt@ =~= seq!['a', 'l', 't']);
    assert(option@ =~= seq!['o', 'p', 't', 'i', 'o', 'n']);
    assert(shift@ =~= seq!['s', 'h', 'i', 'f', 't']);
    assert(fnk@ =~= seq!['f', 'n']);
    if chars_are(p, &cmd) || chars_are(p, &sup) || chars_are(p, &command) {
        Some(Modifier::Cmd)
    } else if chars_are(p, &ctrl) || chars_are(p, &control) {
        Some(Modifier::Ctrl)
    } else if chars_are(p, &alt) || chars_are(p, &option) {
        Some(Modifier::Alt)
    } else if chars_are(p, &shift) {
        Some(Modifier::Shift)
    } else if chars_are(p, &fnk) {
        Some(Modifier::Fn)
    } else {
        None
    }
}

/// Reads one completed part into the accumulated mods and key.
fn read_part(mods: &mut ModSet, key: &mut Option<String>, dup: &mut bool, part: &Vec<char>)
    ensures
        ({
            let a = parse_step(
                ParseAcc { mods: *old(mods), key: opt_view(*old(key)), dup: *old(dup) },
                part@,
            );
            *final(mods) == a.mods && opt_view(*final(key)) == a.key && *final(dup) == a.dup
        }),
{
    if *dup {
        return ;
    }
    match modifier_of(part) {
        Some(m) => mods.insert(m),
        None => {
            if part.len() == 0 {
            } else if key.is_some() {
                *dup = true;
            } else {
                *key = Some(string_from_chars(part.as_slice(), 0, part.len()));
            }
        },
    }
}

/// Reads a combo such as `fn+space` into a binding. Errors when the combo names two
/// non-modifier keys or names nothing at all.
pub fn parse(combo: &str, mode: Mode) -> (r: Result<Binding, String>)
    ensures
        binding_result_view(r) == parse_spec(combo@, mode),
{
    let cs = crate::text::chars_of(combo);
    let mut mods = ModSet::empty();
    let mut key: Option<String> = None;
    let mut dup = false;
    let mut cur: Vec<char> = Vec::new();
    let ghost mut done: Seq<Seq<char>> = seq![];
    let mut i: usize = 0;
    while i < cs.len()
        invariant
            cs@ == combo@,
            i <= cs@.len(),
            split(cs@.take(i as int), '+') == done.push(cur@),
            parse_parts(done) == (ParseAcc { mods, key: opt_view(key), dup }),
        decreases cs.len() - i,
    {
        let ch = cs[i];
        assert(cs@.take(i + 1).drop_last() =~= cs@.take(i as int));
        if ch == '+' {
            read_part(&mut mods, &mut key, &mut dup, &cur);
            proof {
                assert(done.push(cur@).drop_last() =~= done);
                done = done.push(cur@);
            }
            cur = Vec::new();
            assert(split(cs@.take(i + 1), '+') =~= done.push(cur@));
        } else {
            cur.push(ch);
            assert(split(cs@.take(i + 1), '+') =~= done.push(cur@));
        }
        i = i + 1;
    }
    read_part(&mut mods, &mut key, &mut dup, &cur);
    proof {
        assert(cs@.take(cs@.len() as int) =~= combo@);
        assert(done.push(cur@).drop_last() =~= done);
    }
    if dup {
        let mut e = String::from_str("'");
        e.append(combo);
        e.append("' has more than one non-modifier key");
        proof {
            reveal_strlit("'");
            assert(e@ =~= seq!['\''] + combo@ + "' has more than one non-modifier key"@);
        }
        return Err(e);
    }
    if mods.is_empty() && key.is_none() {
        let mut e = String::from_str("'");
        e.append(combo);
        e.append("' is empty");
        proof {
            reveal_strlit("'");
            assert(e@ =~= seq!['\''] + combo@ + "' is empty"@);
        }
        return Err(e);
    }
    Ok(Binding { mods, key, combo: String::from_str(combo), mode })
}

/// Appends one combo part, with a `+` before it unless it is the first.
fn push_part(r: &mut String, first: &mut bool, part: &str, Ghost(parts): Ghost<Seq<Seq<char>>>)
    requires
        old(r)@ == join(parts, '+'),
        *old(first) == (parts.len() == 0),
    ensures
        final(r)@ == join(parts.push(part@), '+'),
        *final(first) == false,
{
    proof {
        reveal_strlit("+");
        assert(parts.push(part@).drop_last() =~= parts);
    }
    if !*first {
        r.append("+");
    }
    r.append(part);
    *first = false;
    proof {
        if parts.len() == 0 {
            assert(r@ =~= join(parts.push(part@), '+'));
        }
    }
}

/// Writes a combo in display order (cmd, ctrl, alt, shift, fn, then the key), joined
/// by `+`.
pub fn combo_string(mods: &ModSet, key: Option<&str>) -> (r: String)
    ensures
        r@ == combo_text(
            *mods,
            match key {
                Some(k) => Some(k@),
                None => None,
            },
        ),
{
    proof {
        reveal_strlit("cmd");
        reveal_strlit("ctrl");
        reveal_strlit("alt");
        reveal_strlit("shift");
        reveal_strlit("fn");
        assert("cmd"@ =~= mod_name(Modifier::Cmd));
        assert("ctrl"@ =~= mod_name(Modifier::Ctrl));
        assert("alt"@ =~= mod_name(Modifier::Alt));
        assert("shift"@ =~= mod_name(Modifier::Shift));
        assert("fn"@ =~= mod_name(Modifier::Fn));
    }
    let mut r = String::new();
    let mut first = true;
    let ghost mut parts: Seq<Seq<char>> = seq![];
    if mods.cmd {
        push_part(&mut r, &mut first, "cmd", Ghost(parts));
        proof { parts = parts.push(mod_name(Modifier::Cmd)); }
    }
    if mods.ctrl {
        push_part(&mut r, &mut first, "ctrl", Ghost(parts));
        proof { parts = parts.push(mod_name(Modifier::Ctrl)); }
    }
    if mods.alt {
        push_part(&mut r, &mut first, "alt", Ghost(parts));
        proof { parts = parts.push(mod_name(Modifier::Alt)); }
    }
    if mods.shift {
        push_part(&mut r, &mut first, "shift", Ghost(parts));
        proof { parts = parts.push(mod_name(Modifier::Shift)); }
    }
    if mods.fn_key {
        push_part(&mut r, &mut first, "fn", Ghost(parts));
        proof { parts = parts.push(mod_name(Modifier::Fn)); }
    }
    assert(parts =~= mod_names(*mods));
    match key {
        Some(k) => {
            push_part(&mut r, &mut first, k, Ghost(parts));
        },
        None => {},
    }
    r
}


/// The payload of a capture event: the combo held so far, or the one just committed.
#[derive(Debug)]
pub struct CaptureUpdate {
    pub combo: String,
}

/// An event the UI is to receive.
#[derive(Debug)]
pub enum Event {
    /// Escape ended a capture.
    CaptureCancel,
    /// The modifiers held during a capture changed.
    CaptureUpdate(CaptureUpdate),
    /// A capture finished with a combo.
    CaptureCommit(CaptureUpdate),
    /// A hands-free binding fired.
    HotkeyToggle,
    /// A push-to-talk binding went down.
    PttDown,
    /// A held push-to-talk was abandoned for another binding.
    PttCancel,
    /// A held push-to-talk was released.
    PttUp,
}

/// An event as the contracts see it.
pub enum EventView {
    CaptureCancel,
    CaptureUpdate(Seq<char>),
    CaptureCommit(Seq<char>),
    HotkeyToggle,
    PttDown,
    PttCancel,
    PttUp,
}

impl View for Event {
    type V = EventView;

    open spec fn view(&self) -> EventView {
        match self {
            Event::CaptureCancel => EventView::CaptureCancel,
            Event::CaptureUpdate(u) => EventView::CaptureUpdate(u.combo@),
            Event::CaptureCommit(u) => EventView::CaptureCommit(u.combo@),
            Event::HotkeyToggle => EventView::HotkeyToggle,
            Event::PttDown => EventView::PttDown,
            Event::PttCancel => EventView::PttCancel,
            Event::PttUp => EventView::PttUp,
        }
    }
}

impl Event {
    /// The name the UI listens on for this event.
    pub fn name(&self) -> (r: &'static str)
        ensures
            r@ == event_name(self@),
    {
        match self {
            Event::CaptureCancel => "capture-cancel",
            Event::CaptureUpdate(_) => "capture-update",
            Event::CaptureCommit(_) => "capture-commit",
            Event::HotkeyToggle => "hotkey-toggle",
            Event::PttDown => "ptt-down",
            Event::PttCancel => "ptt-cancel",
            Event::PttUp => "ptt-up",
        }
    }
}

pub open spec fn event_name(e: EventView) -> Seq<char> {
    match e {
        EventView::CaptureCancel => "capture-cancel"@,
        EventView::CaptureUpdate(_) => "capture-update"@,
        EventView::CaptureCommit(_) => "capture-commit"@,
        EventView::HotkeyToggle => "hotkey-toggle"@,
        EventView::PttDown => "ptt-down"@,
        EventView::PttCancel => "ptt-cancel"@,
        EventView::PttUp => "ptt-up"@,
    }
}

pub open spec fn events_view(v: Seq<Event>) -> Seq<EventView> {
    v.map_values(|e: Event| e@)
}

/// A key event as the matcher sees it.
#[derive(Debug)]
pub enum Tap {
    Mod(Modifier),
    Key(String),
    Escape,
}

pub enum TapView {
    Mod(Modifier),
    Key(Seq<char>),
    Escape,
}

impl View for Tap {
    type V = TapView;

    open spec fn view(&self) -> TapView {
        match self {
            Tap::Mod(m) => TapView::Mod(*m),
            Tap::Key(k) => TapView::Key(k@),
            Tap::Escape => TapView::Escape,
        }
    }
}

/// The matcher's state as the contracts see it.
pub struct MatcherView {
    pub bindings: Seq<BindingView>,
    pub mods_down: ModSet,
    pub peak_mods: ModSet,
    pub capturing: bool,
    pub committed: bool,
    pub active_ptt: Option<int>,
}

/// The matcher's state: the bindings, the modifiers held now, the most held during a
/// capture, whether a capture is running or has just committed, and the push-to-talk
/// binding held down.
pub struct Matcher {
    bindings: Vec<Binding>,
    mods_down: ModSet,
    peak_mods: ModSet,
    capturing: bool,
    committed: bool,
    active_ptt: Option<usize>,
}

impl View for Matcher {
    type V = MatcherView;

    closed spec fn view(&self) -> MatcherView {
        MatcherView {
            bindings: self.bindings@.map_values(|b: Binding| b@),
            mods_down: self.mods_down,
            peak_mods: self.peak_mods,
            capturing: self.capturing,
            committed: self.committed,
            active_ptt: match self.active_ptt {
                Some(i) => Some(i as int),
                None => None,
            },
        }
    }
}

/// The matcher's invariant: a held push-to-talk names a push-to-talk binding, the peak
/// set is empty outside a capture, and a capture is never running and committed at once.
pub open spec fn matcher_wf(m: MatcherView) -> bool {
    &&& (m.active_ptt matches Some(i) ==> 0 <= i < m.bindings.len() && m.bindings[i].mode
        == Mode::PushToTalk)
    &&& (!m.capturing ==> m.peak_mods.empty_set())
    &&& (m.committed ==> !m.capturing)
}

pub open spec fn hit(b: BindingView, mods: ModSet, key: Option<Seq<char>>) -> bool {
    b.mods == mods && b.key == key
}

/// The first binding whose modifiers and key are exactly `mods` and `key`.
pub open spec fn first_hit(bs: Seq<BindingView>, mods: ModSet, key: Option<Seq<char>>) -> Option<
    int,
>
    decreases bs.len(),
{
    if bs.len() == 0 {
        None
    } else {
        match first_hit(bs.drop_last(), mods, key) {
            Some(i) => Some(i),
            None => if hit(bs.last(), mods, key) {
                Some(bs.len() - 1)
            } else {
                None
            },
        }
    }
}

pub proof fn lemma_first_hit(bs: Seq<BindingView>, mods: ModSet, key: Option<Seq<char>>)
    ensures
        first_hit(bs, mods, key) matches Some(i) ==> 0 <= i < bs.len() && hit(bs[i], mods, key)
            && forall|j: int| 0 <= j < i ==> !hit(#[trigger] bs[j], mods, key),
        first_hit(bs, mods, key) is None ==> forall|j: int|
            0 <= j < bs.len() ==> !hit(#[trigger] bs[j], mods, key),
    decreases bs.len(),
{
    if bs.len() > 0 {
        let p = bs.drop_last();
        lemma_first_hit(p, mods, key);
        match first_hit(p, mods, key) {
            Some(i) => {
                assert(p[i] == bs[i]);
                assert forall|j: int| 0 <= j < i implies !hit(#[trigger] bs[j], mods, key) by {
                    assert(p[j] == bs[j]);
                }
            },
            None => {
                assert forall|j: int| 0 <= j < p.len() implies !hit(#[trigger] bs[j], mods, key) by {
                    assert(p[j] == bs[j]);
                }
                assert forall|j: int| 0 <= j < bs.len() && first_hit(bs, mods, key) is None implies !hit(
                    #[trigger] bs[j],
                    mods,
                    key,
                ) by {
                    if j < p.len() {
                        assert(p[j] == bs[j]);
                    }
                }
            },
        }
    }
}

pub proof fn lemma_first_hit_unique(
    bs: Seq<BindingView>,
    mods: ModSet,
    key: Option<Seq<char>>,
    i: int,
)
    requires
        0 <= i < bs.len(),
        hit(bs[i], mods, key),
        forall|j: int| 0 <= j < i ==> !hit(#[trigger] bs[j], mods, key),
    ensures
        first_hit(bs, mods, key) == Some(i),
{
    lemma_first_hit(bs, mods, key);
    match first_hit(bs, mods, key) {
        Some(k) => {
            if k < i {
                assert(!hit(bs[k], mods, key));
            } else if k > i {
                assert(!hit(bs[i], mods, key));
            }
        },
        None => {
            assert(!hit(bs[i], mods, key));
        },
    }
}

/// The state after `f` with the modifiers held changed to `d`.
pub open spec fn with_mods(m: MatcherView, d: ModSet) -> MatcherView {
    MatcherView { mods_down: d, ..m }
}

/// What a key press does: the next state and the events emitted, in order.
pub open spec fn press(m: MatcherView, t: TapView) -> (MatcherView, Seq<EventView>) {
    if m.capturing {
        match t {
            TapView::Escape => (
                MatcherView { capturing: false, peak_mods: ModSet::none(), ..m },
                seq![EventView::CaptureCancel],
            ),
            TapView::Mod(md) => {
                let d = m.mods_down.set(md, true);
                (
                    MatcherView { mods_down: d, peak_mods: d, ..m },
                    seq![EventView::CaptureUpdate(combo_text(d, None))],
                )
            },
            TapView::Key(k) => (
                MatcherView { capturing: false, committed: true, peak_mods: ModSet::none(), ..m },
                seq![EventView::CaptureCommit(combo_text(m.mods_down, Some(k)))],
            ),
        }
    } else {
        match t {
            TapView::Escape => (m, seq![]),
            TapView::Mod(md) => {
                let d = m.mods_down.set(md, true);
                let m1 = with_mods(m, d);
                match first_hit(m.bindings, d, None) {
                    None => (m1, seq![]),
                    Some(i) => match m.bindings[i].mode {
                        Mode::HandsFree => (m1, seq![EventView::HotkeyToggle]),
                        Mode::PushToTalk => (
                            MatcherView { active_ptt: Some(i), ..m1 },
                            seq![EventView::PttDown],
                        ),
                    },
                }
            },
            TapView::Key(k) => match first_hit(m.bindings, m.mods_down, Some(k)) {
                None => (m, seq![]),
                Some(i) => {
                    let before = if m.active_ptt is Some {
                        seq![EventView::PttCancel]
                    } else {
                        seq![]
                    };
                    match m.bindings[i].mode {
                        Mode::HandsFree => (
                            MatcherView { active_ptt: None, ..m },
                            before.push(EventView::HotkeyToggle),
                        ),
                        Mode::PushToTalk => (
                            MatcherView { active_ptt: Some(i), ..m },
                            before.push(EventView::PttDown),
                        ),
                    }
                },
            },
        }
    }
}

/// Whether releasing `t` ends the push-to-talk binding held down.
pub open spec fn ends_ptt(m: MatcherView, t: TapView) -> bool {
    match m.active_ptt {
        Some(i) => 0 <= i < m.bindings.len() && match t {
            TapView::Mod(md) => m.bindings[i].mods.has(md),
            TapView::Key(k) => m.bindings[i].key == Some(k),
            TapView::Escape => false,
        },
        None => false,
    }
}

/// What a key release does: the next state and the events emitted, in order.
pub open spec fn release(m: MatcherView, t: TapView) -> (MatcherView, Seq<EventView>) {
    if m.capturing || (m.committed && m.mods_down.empty_set()) {
        match t {
            TapView::Mod(md) => {
                let d = m.mods_down.set(md, false);
                if m.capturing {
                    if d.empty_set() && !m.peak_mods.empty_set() {
                        (
                            MatcherView {
                                mods_down: d,
                                capturing: false,
                                peak_mods: ModSet::none(),
                                ..m
                            },
                            seq![EventView::CaptureCommit(combo_text(m.peak_mods, None))],
                        )
                    } else {
                        (with_mods(m, d), seq![EventView::CaptureUpdate(combo_text(d, None))])
                    }
                } else {
                    (with_mods(m, d), seq![])
                }
            },
            _ => (m, seq![]),
        }
    } else {
        let m0 = MatcherView { committed: false, ..m };
        let m1 = match t {
            TapView::Mod(md) => with_mods(m0, m.mods_down.set(md, false)),
            _ => m0,
        };
        if ends_ptt(m, t) {
            (MatcherView { active_ptt: None, ..m1 }, seq![EventView::PttUp])
        } else {
            (m1, seq![])
        }
    }
}

impl Matcher {
    /// A matcher with no bindings, nothing held and no capture running.
    pub fn new() -> (r: Matcher)
        ensures
            r@.bindings.len() == 0,
            r@.mods_down == ModSet::none(),
            r@.peak_mods == ModSet::none(),
            !r@.capturing,
            !r@.committed,
            r@.active_ptt is None,
            matcher_wf(r@),
    {
        let r = Matcher {
            bindings: Vec::new(),
            mods_down: ModSet::empty(),
            peak_mods: ModSet::empty(),
            capturing: false,
            committed: false,
            active_ptt: None,
        };
        assert(r@.bindings =~= Seq::<BindingView>::empty());
        r
    }

    /// The first binding whose modifiers and key are exactly `mods` and `key`.
    fn find_hit(&self, mods: ModSet, key: Option<&String>) -> (r: Option<usize>)
        ensures
            match r {
                Some(i) => first_hit(self@.bindings, mods, opt_ref_view(key)) == Some(
                    i as int,
                ),
                None => first_hit(self@.bindings, mods, opt_ref_view(key)) is None,
            },
    {
        let ghost kv = opt_ref_view(key);
        let ghost bs = self@.bindings;
        let mut i: usize = 0;
        while i < self.bindings.len()
            invariant
                bs == self@.bindings,
                kv == opt_ref_view(key),
                bs.len() == self.bindings@.len(),
                i <= bs.len(),
                forall|j: int| 0 <= j < i ==> !hit(#[trigger] bs[j], mods, kv),
            decreases self.bindings.len() - i,
        {
            let b = &self.bindings[i];
            assert(bs[i as int] == b@);
            let key_match = match &b.key {
                Some(bk) => match key {
                    Some(k) => {
                        let e = crate::text::str_eq(bk.as_str(), k.as_str());
                        assert(opt_view(b.key) == Some(bk@));
                        assert(kv == Some(k@));
                        e
                    },
                    None => false,
                },
                None => key.is_none(),
            };
            assert(key_match == (opt_view(b.key) == kv));
            if b.mods == mods && key_match {
                proof {
                    lemma_first_hit_unique(bs, mods, kv, i as int);
                }
                return Some(i);
            }
            i = i + 1;
        }
        proof {
            lemma_first_hit(bs, mods, kv);
            if first_hit(bs, mods, kv) is Some {
                let k = first_hit(bs, mods, kv)->0;
                assert(!hit(bs[k], mods, kv));
            }
        }
        None
    }

    /// Handles a key going down.
    pub fn on_press(&mut self, tap: Tap) -> (r: Vec<Event>)
        requires
            matcher_wf(old(self)@),
        ensures
            (final(self)@, events_view(r@)) == press(old(self)@, tap@),
            matcher_wf(final(self)@),
    {
        let ghost m = self@;
        let mut out: Vec<Event> = Vec::new();
        if self.capturing {
            match tap {
                Tap::Escape => {
                    self.capturing = false;
                    self.peak_mods = ModSet::empty();
                    out.push(Event::CaptureCancel);
                },
                Tap::Mod(md) => {
                    self.mods_down.insert(md);
                    self.peak_mods = self.mods_down;
                    let combo = combo_string(&self.mods_down, None);
                    out.push(Event::CaptureUpdate(CaptureUpdate { combo }));
                },
                Tap::Key(k) => {
                    let combo = combo_string(&self.mods_down, Some(k.as_str()));
                    self.capturing = false;
                    self.committed = true;
                    self.peak_mods = ModSet::empty();
                    out.push(Event::CaptureCommit(CaptureUpdate { combo }));
                },
            }
            assert(events_view(out@) =~= press(m, tap@).1);
            return out;
        }
        match tap {
            Tap::Escape => {},
            Tap::Mod(md) => {
                self.mods_down.insert(md);
                let hit = self.find_hit(self.mods_down, None);
                match hit {
                    Some(i) => {
                        proof {
                            lemma_first_hit(m.bindings, self.mods_down, None);
                        }
                        assert(self.bindings@[i as int]@ == m.bindings[i as int]);
                        match self.bindings[i].mode {
                            Mode::HandsFree => {
                                out.push(Event::HotkeyToggle);
                            },
                            Mode::PushToTalk => {
                                self.active_ptt = Some(i);
                                out.push(Event::PttDown);
                            },
                        }
                    },
                    None => {},
                }
            },
            Tap::Key(k) => {
                let hit = self.find_hit(self.mods_down, Some(&k));
                match hit {
                    Some(i) => {
                        proof {
                            lemma_first_hit(m.bindings, self.mods_down, Some(k@));
                        }
                        assert(self.bindings@[i as int]@ == m.bindings[i as int]);
                        let cancel = self.active_ptt.is_some();
                        self.active_ptt = None;
                        if cancel {
                            out.push(Event::PttCancel);
                        }
                        match self.bindings[i].mode {
                            Mode::HandsFree => {
                                out.push(Event::HotkeyToggle);
                            },
                            Mode::PushToTalk => {
                                self.active_ptt = Some(i);
                                out.push(Event::PttDown);
                            },
                        }
                    },
                    None => {},
                }
            },
        }
        assert(self@.bindings =~= m.bindings);
        assert(events_view(out@) =~= press(m, tap@).1);
        out
    }

    /// Handles a key going up.
    pub fn on_release(&mut self, tap: Tap) -> (r: Vec<Event>)
        requires
            matcher_wf(old(self)@),
        ensures
            (final(self)@, events_view(r@)) == release(old(self)@, tap@),
            matcher_wf(final(self)@),
    {
        let ghost m = self@;
        let mut out: Vec<Event> = Vec::new();
        if self.capturing || (self.committed && self.mods_down.is_empty()) {
            match tap {
                Tap::Mod(md) => {
                    self.mods_down.remove(md);
                    if self.capturing {
                        if self.mods_down.is_empty() && !self.peak_mods.is_empty() {
                            let combo = combo_string(&self.peak_mods, None);
                            self.capturing = false;
                            self.peak_mods = ModSet::empty();
                            out.push(Event::CaptureCommit(CaptureUpdate { combo }));
                        } else {
                            let combo = combo_string(&self.mods_down, None);
                            out.push(Event::CaptureUpdate(CaptureUpdate { combo }));
                        }
                    }
                },
                _ => {},
            }
            assert(self@.bindings =~= m.bindings);
            assert(events_view(out@) =~= release(m, tap@).1);
            return out;
        }
        self.committed = false;
        let ends = match self.active_ptt {
            Some(i) => {
                if i < self.bindings.len() {
                    assert(self.bindings@[i as int]@ == m.bindings[i as int]);
                    match &tap {
                        Tap::Mod(md) => self.bindings[i].mods.contains(*md),
                        Tap::Key(k) => match &self.bindings[i].key {
                            Some(bk) => crate::text::str_eq(bk.as_str(), k.as_str()),
                            None => false,
                        },
                        Tap::Escape => false,
                    }
                } else {
                    false
                }
            },
            None => false,
        };
        match &tap {
            Tap::Mod(md) => {
                self.mods_down.remove(*md);
            },
            _ => {},
        }
        if ends {
            self.active_ptt = None;
            out.push(Event::PttUp);
        }
        assert(self@.bindings =~= m.bindings);
        assert(events_view(out@) =~= release(m, tap@).1);
        out
    }

    /// Handles a key event, down or up.
    pub fn on_key(&mut self, tap: Tap, down: bool) -> (r: Vec<Event>)
        requires
            matcher_wf(old(self)@),
        ensures
            (final(self)@, events_view(r@)) == (if down {
                press(old(self)@, tap@)
            } else {
                release(old(self)@, tap@)
            }),
            matcher_wf(final(self)@),
    {
        if down {
            self.on_press(tap)
        } else {
            self.on_release(tap)
        }
    }
}


pub open spec fn pairs_view(bs: Seq<(String, Mode)>) -> Seq<(Seq<char>, Mode)> {
    bs.map_values(|p: (String, Mode)| (p.0@, p.1))
}

/// Reading every combo in order: the bindings, or the first error.
pub open spec fn parse_all(cs: Seq<(Seq<char>, Mode)>) -> Result<Seq<BindingView>, Seq<char>>
    decreases cs.len(),
{
    if cs.len() == 0 {
        Ok(seq![])
    } else {
        match parse_all(cs.drop_last()) {
            Err(e) => Err(e),
            Ok(v) => match parse_spec(cs.last().0, cs.last().1) {
                Ok(b) => Ok(v.push(b)),
                Err(e) => Err(e),
            },
        }
    }
}

/// Whether any binding uses the fn key.
pub open spec fn uses_fn(bs: Seq<BindingView>) -> bool {
    exists|i: int| 0 <= i < bs.len() && (#[trigger] bs[i]).mods.fn_key
}

/// Replaces the matcher's bindings with `bindings` read as combos, and drops any held
/// push-to-talk. When a combo does not read, nothing changes and its error is returned.
pub fn set_bindings(matcher: &mut Matcher, bindings: &[(String, Mode)]) -> (r: Result<(), String>)
    requires
        matcher_wf(old(matcher)@),
    ensures
        matcher_wf(final(matcher)@),
        match parse_all(pairs_view(bindings@)) {
            Ok(v) => r is Ok && final(matcher)@ == (MatcherView {
                bindings: v,
                active_ptt: None,
                ..old(matcher)@
            }),
            Err(e) => r matches Err(x) && x@ == e && final(matcher)@ == old(matcher)@,
        },
{
    let ghost cs = pairs_view(bindings@);
    let mut parsed: Vec<Binding> = Vec::new();
    let mut i: usize = 0;
    assert(cs.take(0) =~= Seq::<(Seq<char>, Mode)>::empty());
    assert(parsed@.map_values(|b: Binding| b@) =~= Seq::<BindingView>::empty());
    while i < bindings.len()
        invariant
            cs == pairs_view(bindings@),
            matcher@ == old(matcher)@,
            matcher_wf(matcher@),
            i <= bindings@.len(),
            parse_all(cs.take(i as int)) == Ok::<Seq<BindingView>, Seq<char>>(
                parsed@.map_values(|b: Binding| b@),
            ),
        decreases bindings.len() - i,
    {
        assert(cs.take(i + 1).drop_last() =~= cs.take(i as int));
        assert(cs.take(i + 1).last() == cs[i as int]);
        let (c, m) = &bindings[i];
        match parse(c.as_str(), *m) {
            Ok(b) => {
                let ghost before = parsed@;
                let ghost bv = b@;
                parsed.push(b);
                assert(parsed@.map_values(|b: Binding| b@) =~= before.map_values(
                    |b: Binding| b@,
                ).push(bv));
            },
            Err(e) => {
                proof {
                    lemma_parse_all_err(cs, i as int);
                }
                return Err(e);
            },
        }
        i = i + 1;
    }
    assert(cs.take(i as int) =~= cs);
    matcher.bindings = parsed;
    matcher.active_ptt = None;
    Ok(())
}

/// An error on a prefix is the error of the whole.
proof fn lemma_parse_all_err(cs: Seq<(Seq<char>, Mode)>, i: int)
    requires
        0 <= i < cs.len(),
        parse_all(cs.take(i)) is Ok,
        parse_spec(cs[i].0, cs[i].1) is Err,
    ensures
        parse_all(cs) == Err::<Seq<BindingView>, Seq<char>>(parse_spec(cs[i].0, cs[i].1)->Err_0),
    decreases cs.len(),
{
    assert(cs.take(i + 1).drop_last() =~= cs.take(i));
    if i + 1 < cs.len() {
        assert(cs.drop_last().take(i) =~= cs.take(i));
        assert(cs.drop_last()[i] == cs[i]);
        lemma_parse_all_err(cs.drop_last(), i);
    } else {
        assert(cs.drop_last() =~= cs.take(i));
    }
}

/// The state after a capture is cancelled.
pub open spec fn cancelled(m: MatcherView) -> MatcherView {
    MatcherView { capturing: false, committed: false, peak_mods: ModSet::none(), ..m }
}

/// The state after a capture begins: what is held now is the peak so far.
pub open spec fn capture_begun(m: MatcherView) -> MatcherView {
    MatcherView { capturing: true, committed: false, peak_mods: m.mods_down, ..m }
}

/// Ends any capture and forgets the modifiers it held.
pub fn cancel_capture(matcher: &mut Matcher)
    requires
        matcher_wf(old(matcher)@),
    ensures
        matcher_wf(final(matcher)@),
        final(matcher)@ == cancelled(old(matcher)@),
{
    matcher.capturing = false;
    matcher.committed = false;
    matcher.peak_mods = ModSet::empty();
}

/// Whether bare-fn key events are to be swallowed: while a capture runs or while any
/// binding uses fn, so that the system does not act on fn itself.
pub fn should_swallow_fn(matcher: &Matcher) -> (r: bool)
    ensures
        r == (matcher@.capturing || uses_fn(matcher@.bindings)),
{
    if matcher.capturing {
        return true;
    }
    let ghost bs = matcher@.bindings;
    let mut i: usize = 0;
    while i < matcher.bindings.len()
        invariant
            bs == matcher@.bindings,
            bs.len() == matcher.bindings@.len(),
            i <= bs.len(),
            forall|j: int| 0 <= j < i ==> !(#[trigger] bs[j]).mods.fn_key,
        decreases matcher.bindings.len() - i,
    {
        assert(bs[i as int] == matcher.bindings@[i as int]@);
        if matcher.bindings[i].mods.fn_key {
            return true;
        }
        i = i + 1;
    }
    false
}

impl Matcher {
    /// Starts a capture: what is held now is the peak so far.
    pub fn begin_capture(&mut self)
        requires
            matcher_wf(old(self)@),
        ensures
            matcher_wf(final(self)@),
            final(self)@ == capture_begun(old(self)@),
    {
        self.capturing = true;
        self.committed = false;
        self.peak_mods = self.mods_down;
    }
}

/// The key code of Escape.
pub const ESCAPE: i64 = 53;

/// The modifier a key code belongs to (left and right keys alike).
pub open spec fn mod_of_code(code: i64) -> Option<Modifier> {
    if code == 54 || code == 55 {
        Some(Modifier::Cmd)
    } else if code == 56 || code == 60 {
        Some(Modifier::Shift)
    } else if code == 58 || code == 61 {
        Some(Modifier::Alt)
    } else if code == 59 || code == 62 {
        Some(Modifier::Ctrl)
    } else if code == 63 {
        Some(Modifier::Fn)
    } else {
        None
    }
}

/// The modifier a key code belongs to.
pub fn mod_from_keycode(code: i64) -> (r: Option<Modifier>)
    ensures
        r == mod_of_code(code),
{
    match code {
        54 | 55 => Some(Modifier::Cmd),
        56 | 60 => Some(Modifier::Shift),
        58 | 61 => Some(Modifier::Alt),
        59 | 62 => Some(Modifier::Ctrl),
        63 => Some(Modifier::Fn),
        _ => None,
    }
}

/// The name of the key a (US layout) key code belongs to, from a fixed table.
pub open spec fn key_name(code: i64) -> Option<Seq<char>> {
    if code == 0 { Some("a"@) }
    else if code == 11 { Some("b"@) }
    else if code == 8 { Some("c"@) }
    else if code == 2 { Some("d"@) }
    else if code == 14 { Some("e"@) }
    else if code == 3 { Some("f"@) }
    else if code == 5 { Some("g"@) }
    else if code == 4 { Some("h"@) }
    else if code == 34 { Some("i"@) }
    else if code == 38 { Some("j"@) }
    else if code == 40 { Some("k"@) }
    else if code == 37 { Some("l"@) }
    else if code == 46 { Some("m"@) }
    else if code == 45 { Some("n"@) }
    else if code == 31 { Some("o"@) }
    else if code == 35 { Some("p"@) }
    else if code == 12 { Some("q"@) }
    else if code == 15 { Some("r"@) }
    else if code == 1 { Some("s"@) }
    else if code == 17 { Some("t"@) }
    else if code == 32 { Some("u"@) }
    else if code == 9 { Some("v"@) }
    else if code == 13 { Some("w"@) }
    else if code == 7 { Some("x"@) }
    else if code == 16 { Some("y"@) }
    else if code == 6 { Some("z"@) }
    else if code == 29 { Some("0"@) }
    else if code == 18 { Some("1"@) }
    else if code == 19 { Some("2"@) }
    else if code == 20 { Some("3"@) }
    else if code == 21 { Some("4"@) }
    else if code == 23 { Some("5"@) }
    else if code == 22 { Some("6"@) }
    else if code == 26 { Some("7"@) }
    else if code == 28 { Some("8"@) }
    else if code == 25 { Some("9"@) }
    else if code == 49 { Some("space"@) }
    else if code == 51 { Some("backspace"@) }
    else if code == 117 { Some("delete"@) }
    else if code == 36 { Some("enter"@) }
    else if code == 48 { Some("tab"@) }
    else if code == 115 { Some("home"@) }
    else if code == 119 { Some("end"@) }
    else if code == 116 { Some("pageup"@) }
    else if code == 121 { Some("pagedown"@) }
    else if code == 123 { Some("left"@) }
    else if code == 124 { Some("right"@) }
    else if code == 125 { Some("down"@) }
    else if code == 126 { Some("up"@) }
    else if code == 122 { Some("f1"@) }
    else if code == 120 { Some("f2"@) }
    else if code == 99 { Some("f3"@) }
    else if code == 118 { Some("f4"@) }
    else if code == 96 { Some("f5"@) }
    else if code == 97 { Some("f6"@) }
    else if code == 98 { Some("f7"@) }
    else if code == 100 { Some("f8"@) }
    else if code == 101 { Some("f9"@) }
    else if code == 109 { Some("f10"@) }
    else if code == 103 { Some("f11"@) }
    else if code == 111 { Some("f12"@) }
    else { None }
}

/// The name of the key a key code belongs to.
pub fn name_from_keycode(code: i64) -> (r: Option<&'static str>)
    ensures
        match r {
            Some(s) => key_name(code) == Some(s@),
            None => key_name(code) is None,
        },
{
    let s = match code {
        0 => "a",
        11 => "b",
        8 => "c",
        2 => "d",
        14 => "e",
        3 => "f",
        5 => "g",
        4 => "h",
        34 => "i",
        38 => "j",
        40 => "k",
        37 => "l",
        46 => "m",
        45 => "n",
        31 => "o",
        35 => "p",
        12 => "q",
        15 => "r",
        1 => "s",
        17 => "t",
        32 => "u",
        9 => "v",
        13 => "w",
        7 => "x",
        16 => "y",
        6 => "z",
        29 => "0",
        18 => "1",
        19 => "2",
        20 => "3",
        21 => "4",
        23 => "5",
        22 => "6",
        26 => "7",
        28 => "8",
        25 => "9",
        49 => "space",
        51 => "backspace",
        117 => "delete",
        36 => "enter",
        48 => "tab",
        115 => "home",
        119 => "end",
        116 => "pageup",
        121 => "pagedown",
        123 => "left",
        124 => "right",
        125 => "down",
        126 => "up",
        122 => "f1",
        120 => "f2",
        99 => "f3",
        118 => "f4",
        96 => "f5",
        97 => "f6",
        98 => "f7",
        100 => "f8",
        101 => "f9",
        109 => "f10",
        103 => "f11",
        111 => "f12",
        _ => return None,
    };
    Some(s)
}

/// The kinds of event the key tap delivers.
#[derive(Clone, Copy, PartialEq, Eq, Debug, Structural)]
pub enum KeyEventKind {
    KeyDown,
    KeyUp,
    FlagsChanged,
    /// The system switched the tap off (too slow, or user input).
    TapDisabled,
    Other,
}

/// What the matcher sees of a raw key event: the tap and whether it went down. Escape
/// counts only going down; `flag_down` says whether the event's flags hold the
/// modifier of `code`.
pub open spec fn raw_tap(kind: KeyEventKind, code: i64, flag_down: bool) -> Option<(TapView, bool)> {
    match kind {
        KeyEventKind::KeyDown | KeyEventKind::KeyUp => {
            let down = kind == KeyEventKind::KeyDown;
            if code == ESCAPE {
                if down {
                    Some((TapView::Escape, true))
                } else {
                    None
                }
            } else {
                match key_name(code) {
                    Some(n) => Some((TapView::Key(n), down)),
                    None => None,
                }
            }
        },
        KeyEventKind::FlagsChanged => match mod_of_code(code) {
            Some(md) => Some((TapView::Mod(md), flag_down)),
            None => None,
        },
        _ => None,
    }
}

impl Matcher {
    /// Handles one raw event from the key tap. Returns the UI events and whether the
    /// event is to be dropped before the system sees it (a bare fn change while fn is
    /// in use).
    pub fn handle_raw(&mut self, kind: KeyEventKind, code: i64, flag_down: bool) -> (r: (
        Vec<Event>,
        bool,
    ))
        requires
            matcher_wf(old(self)@),
        ensures
            matcher_wf(final(self)@),
            match raw_tap(kind, code, flag_down) {
                Some((t, down)) => {
                    let (m1, ev) = if down {
                        press(old(self)@, t)
                    } else {
                        release(old(self)@, t)
                    };
                    &&& final(self)@ == m1
                    &&& events_view(r.0@) == ev
                    &&& r.1 == (t == TapView::Mod(Modifier::Fn) && (m1.capturing || uses_fn(
                        m1.bindings,
                    )))
                },
                None => final(self)@ == old(self)@ && r.0@.len() == 0 && !r.1,
            },
    {
        match kind {
            KeyEventKind::KeyDown | KeyEventKind::KeyUp => {
                let down = kind == KeyEventKind::KeyDown;
                if code == ESCAPE {
                    if down {
                        let ev = self.on_key(Tap::Escape, true);
                        return (ev, false);
                    }
                } else {
                    match name_from_keycode(code) {
                        Some(n) => {
                            let ev = self.on_key(Tap::Key(String::from_str(n)), down);
                            return (ev, false);
                        },
                        None => {},
                    }
                }
                (Vec::new(), false)
            },
            KeyEventKind::FlagsChanged => {
                match mod_from_keycode(code) {
                    Some(md) => {
                        let ev = self.on_key(Tap::Mod(md), flag_down);
                        let drop = md == Modifier::Fn && should_swallow_fn(self);
                        (ev, drop)
                    },
                    None => (Vec::new(), false),
                }
            },
            _ => (Vec::new(), false),
        }
    }
}

/// The key listener where there is no key tap: fn-key shortcuts need macOS.
pub fn run() -> (r: Result<(), String>)
    ensures
        r matches Err(e) && e@ == "fn-key shortcuts are only supported on macOS"@,
{
    Err(String::from_str("fn-key shortcuts are only supported on macOS"))
}

} // verus!
