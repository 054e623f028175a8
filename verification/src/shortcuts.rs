//! Which global shortcuts go where: combos with the fn key to the key-event listener,
//! the others to the system's hotkey service; and what a system hotkey fires.
use vstd::prelude::*;
use crate::hotkeys::{split, Mode, EventView, Event};
use crate::text::{chars_of, trim, trim_str};

verus! {

/// What a system-registered shortcut drives.
#[derive(PartialEq, Eq, Structural, Clone, Copy, Debug)]
pub enum ShortcutMode {
    HandsFree,
    PushToTalk,
}

/// Where one combo is registered.
pub enum ShortcutStep {
    /// With the system's hotkey service.
    System(String, ShortcutMode),
    /// With the fn-key listener.
    FnKey(String, Mode),
}

pub enum StepView {
    System(Seq<char>, ShortcutMode),
    FnKey(Seq<char>, Mode),
}

impl View for ShortcutStep {
    type V = StepView;

    open spec fn view(&self) -> StepView {
        match self {
            ShortcutStep::System(c, m) => StepView::System(c@, *m),
            ShortcutStep::FnKey(c, m) => StepView::FnKey(c@, *m),
        }
    }
}

pub open spec fn steps_view(v: Seq<ShortcutStep>) -> Seq<StepView> {
    v.map_values(|s: ShortcutStep| s@)
}

/// Whether one of the `+`-separated parts of `combo` is `fn`.
pub open spec fn has_fn_part(combo: Seq<char>) -> bool {
    split(combo, '+').contains("fn"@)
}

/// The listener mode of a shortcut mode.
pub open spec fn listener_mode(m: ShortcutMode) -> Mode {
    match m {
        ShortcutMode::HandsFree => Mode::HandsFree,
        ShortcutMode::PushToTalk => Mode::PushToTalk,
    }
}

/// Where `combo` is registered for mode `m`.
pub open spec fn step_of(combo: Seq<char>, m: ShortcutMode) -> StepView {
    if has_fn_part(combo) {
        StepView::FnKey(combo, listener_mode(m))
    } else {
        StepView::System(combo, m)
    }
}

/// Registering the combos `entries` in order: the steps, and the first combo met a
/// second time, where registration stops. Blank combos are skipped.
pub open spec fn plan_spec(entries: Seq<(Seq<char>, ShortcutMode)>) -> (Seq<StepView>, Option<
    Seq<char>,
>)
    decreases entries.len(),
{
    if entries.len() == 0 {
        (seq![], None)
    } else {
        let (steps, dup) = plan_spec(entries.drop_last());
        let (c, m) = entries.last();
        if dup is Some || trim(c).len() == 0 {
            (steps, dup)
        } else if exists|j: int| 0 <= j < entries.len() - 1 && (#[trigger] entries[j]).0 == c {
            (steps, Some(c))
        } else {
            (steps.push(step_of(c, m)), None)
        }
    }
}

/// The combos of both lists in registration order: hands-free first.
pub open spec fn shortcut_entries(hands_free: Seq<String>, push_to_talk: Seq<String>) -> Seq<
    (Seq<char>, ShortcutMode),
> {
    hands_free.map_values(|c: String| (c@, ShortcutMode::HandsFree)) + push_to_talk.map_values(
        |c: String| (c@, ShortcutMode::PushToTalk),
    )
}

/// How a set of shortcuts is registered: the steps in order, and the combo assigned
/// twice that stops registration after them, if any.
pub struct ShortcutPlan {
    pub steps: Vec<ShortcutStep>,
    pub duplicate: Option<String>,
}

pub proof fn lemma_contains_push(s: Seq<Seq<char>>, x: Seq<char>, y: Seq<char>)
    ensures
        s.push(x).contains(y) == (s.contains(y) || x == y),
{
    let t = s.push(x);
    if x == y {
        assert(t[s.len() as int] == y);
    }
    if s.contains(y) {
        let k = choose|k: int| 0 <= k < s.len() && s[k] == y;
        assert(t[k] == y);
    }
    if t.contains(y) {
        let k = choose|k: int| 0 <= k < t.len() && t[k] == y;
        if k < s.len() {
            assert(s[k] == t[k]);
        }
    }
}

/// Once a combo is found twice, the rest of the combos change nothing.
pub proof fn lemma_plan_stops(entries: Seq<(Seq<char>, ShortcutMode)>, n: int, m: int)
    requires
        0 <= n <= m <= entries.len(),
        plan_spec(entries.take(n)).1 is Some,
    ensures
        plan_spec(entries.take(m)) == plan_spec(entries.take(n)),
    decreases m - n,
{
    if m > n {
        lemma_plan_stops(entries, n, m - 1);
        assert(entries.take(m).drop_last() =~= entries.take(m - 1));
    }
}

/// Whether a `+`-separated part of `combo` is `fn`.
pub fn has_fn(combo: &str) -> (r: bool)
    ensures
        r == has_fn_part(combo@),
{
    let cs = chars_of(combo);
    let ghost mut done: Seq<Seq<char>> = seq![];
    let mut cur: Vec<char> = Vec::new();
    let mut found = false;
    let mut i: usize = 0;
    proof {
        reveal_strlit("fn");
    }
    while i < cs.len()
        invariant
            cs@ == combo@,
            i <= cs@.len(),
            split(cs@.take(i as int), '+') == done.push(cur@),
            found == done.contains("fn"@),
            "fn"@ == seq!['f', 'n'],
        decreases cs.len() - i,
    {
        let ch = cs[i];
        assert(cs@.take(i + 1).drop_last() =~= cs@.take(i as int));
        if ch == '+' {
            let is_fn = cur.len() == 2 && cur[0] == 'f' && cur[1] == 'n';
            assert(is_fn == (cur@ == "fn"@)) by {
                if cur@ == "fn"@ {
                    assert(cur@.len() == 2);
                }
                if is_fn {
                    assert(cur@ =~= seq!['f', 'n']);
                }
            }
            proof {
                lemma_contains_push(done, cur@, "fn"@);
                done = done.push(cur@);
            }
            found = found || is_fn;
            cur = Vec::new();
            assert(split(cs@.take(i + 1), '+') =~= done.push(cur@));
        } else {
            cur.push(ch);
            assert(split(cs@.take(i + 1), '+') =~= done.push(cur@));
        }
        i = i + 1;
    }
    let is_fn = cur.len() == 2 && cur[0] == 'f' && cur[1] == 'n';
    assert(is_fn == (cur@ == "fn"@)) by {
        if cur@ == "fn"@ {
            assert(cur@.len() == 2);
        }
        if is_fn {
            assert(cur@ =~= seq!['f', 'n']);
        }
    }
    proof {
        assert(cs@.take(cs@.len() as int) =~= combo@);
        lemma_contains_push(done, cur@, "fn"@);
    }
    found || is_fn
}

/// The `i`-th combo of both lists, hands-free first.
fn entry_at<'a>(hands_free: &'a Vec<String>, push_to_talk: &'a Vec<String>, i: usize) -> (r: (&'a String, ShortcutMode))
    requires
        i < hands_free@.len() + push_to_talk@.len(),
    ensures
        (r.0@, r.1) == shortcut_entries(hands_free@, push_to_talk@)[i as int],
{
    if i < hands_free.len() {
        (&hands_free[i], ShortcutMode::HandsFree)
    } else {
        (&push_to_talk[i - hands_free.len()], ShortcutMode::PushToTalk)
    }
}

/// Whether one of the first `i` combos equals `combo`.
fn seen_earlier(hands_free: &Vec<String>, push_to_talk: &Vec<String>, i: usize, combo: &String) -> (r:
    bool)
    requires
        i <= hands_free@.len() + push_to_talk@.len(),
    ensures
        r == exists|j: int|
            0 <= j < i && (#[trigger] shortcut_entries(hands_free@, push_to_talk@)[j]).0 == combo@,
{
    let ghost entries = shortcut_entries(hands_free@, push_to_talk@);
    let mut j: usize = 0;
    while j < i
        invariant
            entries == shortcut_entries(hands_free@, push_to_talk@),
            i <= entries.len(),
            j <= i,
            forall|k: int| 0 <= k < j ==> (#[trigger] entries[k]).0 != combo@,
        decreases i - j,
    {
        let (c, _) = entry_at(hands_free, push_to_talk, j);
        if crate::text::str_eq(c.as_str(), combo.as_str()) {
            assert(entries[j as int].0 == combo@);
            return true;
        }
        j = j + 1;
    }
    false
}

/// Plans the registration of the hands-free and push-to-talk combos, in that order:
/// blank combos are skipped, a combo with an `fn` part goes to the fn-key listener and
/// any other to the system's hotkey service; registration stops at the first combo
/// that was already registered.
pub fn plan_shortcuts(hands_free: &Vec<String>, push_to_talk: &Vec<String>) -> (r: ShortcutPlan)
    requires
        hands_free@.len() + push_to_talk@.len() <= usize::MAX,
    ensures
        (steps_view(r.steps@), crate::hotkeys::opt_view(r.duplicate)) == plan_spec(
            shortcut_entries(hands_free@, push_to_talk@),
        ),
{
    let ghost entries = shortcut_entries(hands_free@, push_to_talk@);
    let total = hands_free.len() + push_to_talk.len();
    let mut steps: Vec<ShortcutStep> = Vec::new();
    let mut i: usize = 0;
    while i < total
        invariant
            entries == shortcut_entries(hands_free@, push_to_talk@),
            total == entries.len(),
            i <= total,
            plan_spec(entries.take(i as int)) == (steps_view(steps@), None::<Seq<char>>),
        decreases total - i,
    {
        let (combo, mode) = entry_at(hands_free, push_to_talk, i);
        assert(entries.take(i + 1).drop_last() =~= entries.take(i as int));
        assert(entries.take(i + 1).last() == entries[i as int]);
        let trimmed = trim_str(combo.as_str());
        if trimmed.as_str().is_empty() {
            i = i + 1;
            continue;
        }
        let again = seen_earlier(hands_free, push_to_talk, i, combo);
        proof {
            assert((exists|j: int| 0 <= j < i && (#[trigger] entries[j]).0 == combo@) == (exists|
                j: int,
            | 0 <= j < entries.take(i + 1).len() - 1 && (#[trigger] entries.take(i + 1)[j]).0
                == combo@)) by {
                assert forall|j: int| 0 <= j < i implies entries.take(i + 1)[j] == entries[j] by {}
            }
        }
        if again {
            proof {
                assert(plan_spec(entries.take(i + 1)).1 is Some);
                lemma_plan_stops(entries, i + 1, total as int);
                assert(entries.take(total as int) =~= entries);
            }
            return ShortcutPlan { steps, duplicate: Some(combo.clone()) };
        }
        let step = if has_fn(combo.as_str()) {
            ShortcutStep::FnKey(
                combo.clone(),
                match mode {
                    ShortcutMode::HandsFree => Mode::HandsFree,
                    ShortcutMode::PushToTalk => Mode::PushToTalk,
                },
            )
        } else {
            ShortcutStep::System(combo.clone(), mode)
        };
        let ghost old_steps = steps@;
        steps.push(step);
        assert(steps_view(steps@) =~= steps_view(old_steps).push(step_of(combo@, mode)));
        i = i + 1;
    }
    assert(entries.take(total as int) =~= entries);
    ShortcutPlan { steps, duplicate: None }
}

/// The message when a combo is assigned twice.
pub fn duplicate_message(combo: &str) -> (r: String)
    ensures
        r@ == seq!['\''] + combo@ + "' is assigned twice"@,
{
    let mut e = String::from_str("'");
    e.append(combo);
    e.append("' is assigned twice");
    proof {
        reveal_strlit("'");
        assert(e@ =~= seq!['\''] + combo@ + "' is assigned twice"@);
    }
    e
}

/// What a system hotkey of mode `mode` (if it is one of ours) fires when pressed or
/// released: hands-free toggles on press, push-to-talk goes down on press and up on
/// release.
pub open spec fn shortcut_event_spec(mode: Option<ShortcutMode>, pressed: bool) -> Option<EventView> {
    match mode {
        Some(ShortcutMode::HandsFree) => if pressed {
            Some(EventView::HotkeyToggle)
        } else {
            None
        },
        Some(ShortcutMode::PushToTalk) => if pressed {
            Some(EventView::PttDown)
        } else {
            Some(EventView::PttUp)
        },
        None => None,
    }
}

/// The event a system hotkey fires.
pub fn shortcut_event(mode: Option<ShortcutMode>, pressed: bool) -> (r: Option<Event>)
    ensures
        (match r {
            Some(e) => Some(e@),
            None => None,
        }) == shortcut_event_spec(mode, pressed),
{
    match mode {
        Some(ShortcutMode::HandsFree) => if pressed {
            Some(Event::HotkeyToggle)
        } else {
            None
        },
        Some(ShortcutMode::PushToTalk) => if pressed {
            Some(Event::PttDown)
        } else {
            Some(Event::PttUp)
        },
        None => None,
    }
}

/// A system hotkey drives dictation by its mode: a push-to-talk shortcut gives `ptt-down`
/// when pressed and `ptt-up` when let go; a hands-free one toggles when pressed and does
/// nothing when let go; a shortcut that drives nothing gives nothing.
pub proof fn law_shortcut_press_and_release(mode: Option<ShortcutMode>)
    ensures
        mode == Some(ShortcutMode::PushToTalk) ==> shortcut_event_spec(mode, true) == Some(
            EventView::PttDown,
        ) && shortcut_event_spec(mode, false) == Some(EventView::PttUp),
        mode == Some(ShortcutMode::HandsFree) ==> shortcut_event_spec(mode, true) == Some(
            EventView::HotkeyToggle,
        ) && shortcut_event_spec(mode, false) is None,
        mode is None ==> shortcut_event_spec(mode, true) is None && shortcut_event_spec(mode, false)
            is None,
{
}

/// The combo a registration step registers.
pub open spec fn step_combo(s: StepView) -> Seq<char> {
    match s {
        StepView::System(c, _) => c,
        StepView::FnKey(c, _) => c,
    }
}

/// How shortcuts are registered: every step registers a non-blank combo given for its
/// mode, with the fn-key listener exactly when one of the combo's `+`-separated parts is
/// `fn`; no combo is registered twice; and when no combo is given twice, every non-blank
/// combo given is registered.
pub proof fn law_plan_registers_each_combo(entries: Seq<(Seq<char>, ShortcutMode)>)
    ensures
        ({
            let (steps, dup) = plan_spec(entries);
            &&& forall|k: int|
                0 <= k < steps.len() ==> {
                    &&& trim(step_combo(#[trigger] steps[k])).len() > 0
                    &&& (steps[k] is FnKey) == split(step_combo(steps[k]), '+').contains("fn"@)
                    &&& exists|j: int|
                        0 <= j < entries.len() && entries[j].0 == step_combo(steps[k]) && steps[k]
                            == (if steps[k] is FnKey {
                            StepView::FnKey(entries[j].0, listener_mode(entries[j].1))
                        } else {
                            StepView::System(entries[j].0, entries[j].1)
                        })
                }
            &&& forall|k1: int, k2: int|
                0 <= k1 < k2 < steps.len() ==> step_combo(#[trigger] steps[k1]) != step_combo(
                    #[trigger] steps[k2],
                )
            &&& dup is None ==> forall|j: int|
                0 <= j < entries.len() && trim(#[trigger] entries[j].0).len() > 0 ==> exists|k: int|
                    0 <= k < steps.len() && step_combo(steps[k]) == entries[j].0
        }),
    decreases entries.len(),
{
    if entries.len() > 0 {
        let p = entries.drop_last();
        law_plan_registers_each_combo(p);
        let (ps, pd) = plan_spec(p);
        let (c, m) = entries.last();
        let (steps, dup) = plan_spec(entries);
        assert forall|j: int| 0 <= j < p.len() implies #[trigger] p[j] == entries[j] by {}
        if pd is Some || trim(c).len() == 0 {
            assert forall|k: int| 0 <= k < steps.len() implies exists|j: int|
                0 <= j < entries.len() && entries[j].0 == step_combo(#[trigger] steps[k]) && steps[k]
                    == (if steps[k] is FnKey {
                    StepView::FnKey(entries[j].0, listener_mode(entries[j].1))
                } else {
                    StepView::System(entries[j].0, entries[j].1)
                }) by {
                let j = choose|j: int|
                    0 <= j < p.len() && p[j].0 == step_combo(ps[k]) && ps[k] == (if ps[k] is FnKey {
                        StepView::FnKey(p[j].0, listener_mode(p[j].1))
                    } else {
                        StepView::System(p[j].0, p[j].1)
                    });
                assert(p[j] == entries[j]);
            }
            if dup is None {
                assert forall|j: int|
                    0 <= j < entries.len() && trim(#[trigger] entries[j].0).len() > 0 implies exists|k: int|
                    0 <= k < steps.len() && step_combo(steps[k]) == entries[j].0 by {
                    if j < p.len() {
                        assert(p[j] == entries[j]);
                        assert(trim(p[j].0).len() > 0);
                    }
                }
            }
        } else if exists|j: int| 0 <= j < entries.len() - 1 && (#[trigger] entries[j]).0 == c {
            assert forall|k: int| 0 <= k < steps.len() implies exists|j: int|
                0 <= j < entries.len() && entries[j].0 == step_combo(#[trigger] steps[k]) && steps[k]
                    == (if steps[k] is FnKey {
                    StepView::FnKey(entries[j].0, listener_mode(entries[j].1))
                } else {
                    StepView::System(entries[j].0, entries[j].1)
                }) by {
                let j = choose|j: int|
                    0 <= j < p.len() && p[j].0 == step_combo(ps[k]) && ps[k] == (if ps[k] is FnKey {
                        StepView::FnKey(p[j].0, listener_mode(p[j].1))
                    } else {
                        StepView::System(p[j].0, p[j].1)
                    });
                assert(p[j] == entries[j]);
            }
        } else {
            let st = step_of(c, m);
            assert(steps == ps.push(st));
            let last = entries.len() - 1;
            assert(entries[last] == (c, m));
            assert forall|k: int| 0 <= k < steps.len() implies exists|j: int|
                0 <= j < entries.len() && entries[j].0 == step_combo(#[trigger] steps[k]) && steps[k]
                    == (if steps[k] is FnKey {
                    StepView::FnKey(entries[j].0, listener_mode(entries[j].1))
                } else {
                    StepView::System(entries[j].0, entries[j].1)
                }) by {
                if k < ps.len() {
                    assert(steps[k] == ps[k]);
                    let j = choose|j: int|
                        0 <= j < p.len() && p[j].0 == step_combo(ps[k]) && ps[k] == (if ps[k] is FnKey {
                            StepView::FnKey(p[j].0, listener_mode(p[j].1))
                        } else {
                            StepView::System(p[j].0, p[j].1)
                        });
                    assert(p[j] == entries[j]);
                } else {
                    assert(steps[k] == st);
                    assert(entries[last].0 == step_combo(steps[k]));
                }
            }
            assert forall|k: int| 0 <= k < steps.len() implies trim(step_combo(#[trigger] steps[k])).len()
                > 0 && (steps[k] is FnKey) == split(step_combo(steps[k]), '+').contains("fn"@) by {
                if k < ps.len() {
                    assert(steps[k] == ps[k]);
                }
            }
            assert forall|k1: int, k2: int| 0 <= k1 < k2 < steps.len() implies step_combo(
                #[trigger] steps[k1],
            ) != step_combo(#[trigger] steps[k2]) by {
                assert(steps[k1] == ps[k1]);
                if k2 < ps.len() {
                    assert(steps[k2] == ps[k2]);
                } else {
                    let j = choose|j: int|
                        0 <= j < p.len() && p[j].0 == step_combo(ps[k1]) && ps[k1] == (if ps[k1] is FnKey {
                            StepView::FnKey(p[j].0, listener_mode(p[j].1))
                        } else {
                            StepView::System(p[j].0, p[j].1)
                        });
                    assert(entries[j].0 == p[j].0);
                }
            }
            assert forall|j: int|
                0 <= j < entries.len() && trim(#[trigger] entries[j].0).len() > 0 implies exists|k: int|
                0 <= k < steps.len() && step_combo(steps[k]) == entries[j].0 by {
                if j < p.len() {
                    assert(p[j] == entries[j]);
                    assert(trim(p[j].0).len() > 0);
                    let k = choose|k: int| 0 <= k < ps.len() && step_combo(ps[k]) == p[j].0;
                    assert(steps[k] == ps[k]);
                } else {
                    assert(step_combo(steps[ps.len() as int]) == c);
                }
            }
        }
    }
}

} // verus!
