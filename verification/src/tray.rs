//! The menu-bar menu: its microphone entries and what a click on an entry does.
use vstd::prelude::*;
use crate::text::{chars_of, string_from_chars, str_eq, concat};

verus! {

/// The id of the tray icon.
pub const TRAY_ID: &'static str = "unsound-tray";

/// The id of the "System default" microphone entry; a device's entry adds its name.
pub const MIC_DEFAULT_ID: &'static str = "mic:";

pub open spec fn mic_prefix() -> Seq<char> {
    seq!['m', 'i', 'c', ':']
}

/// `s` with every leading `mic:` removed (`trim_start_matches`).
pub open spec fn strip_mic(s: Seq<char>) -> Seq<char>
    decreases s.len(),
{
    if s.len() >= 4 && s.take(4) == mic_prefix() {
        strip_mic(s.skip(4))
    } else {
        s
    }
}

/// What a click on a tray entry does.
pub enum MenuAction {
    /// Show and focus the main window.
    Open,
    /// Type the last output into the frontmost app.
    PasteLast,
    /// Quit the app.
    Quit,
    /// Use this microphone (empty: the system default).
    SelectMic(String),
    /// Nothing.
    Ignore,
}

pub enum MenuActionView {
    Open,
    PasteLast,
    Quit,
    SelectMic(Seq<char>),
    Ignore,
}

impl View for MenuAction {
    type V = MenuActionView;

    open spec fn view(&self) -> MenuActionView {
        match self {
            MenuAction::Open => MenuActionView::Open,
            MenuAction::PasteLast => MenuActionView::PasteLast,
            MenuAction::Quit => MenuActionView::Quit,
            MenuAction::SelectMic(d) => MenuActionView::SelectMic(d@),
            MenuAction::Ignore => MenuActionView::Ignore,
        }
    }
}

/// The action of the entry with id `id`.
pub open spec fn menu_action_spec(id: Seq<char>) -> MenuActionView {
    if id == "open"@ {
        MenuActionView::Open
    } else if id == "paste-last"@ {
        MenuActionView::PasteLast
    } else if id == "quit"@ {
        MenuActionView::Quit
    } else if id.len() >= 4 && id.take(4) == mic_prefix() {
        MenuActionView::SelectMic(strip_mic(id))
    } else {
        MenuActionView::Ignore
    }
}

/// Whether `v[at..]` starts with `mic:`.
fn mic_at(v: &Vec<char>, at: usize) -> (r: bool)
    requires
        at <= v@.len(),
    ensures
        r == (v@.skip(at as int).len() >= 4 && v@.skip(at as int).take(4) == mic_prefix()),
{
    if v.len() - at < 4 {
        return false;
    }
    let r = v[at] == 'm' && v[at + 1] == 'i' && v[at + 2] == 'c' && v[at + 3] == ':';
    assert(r == (v@.skip(at as int).take(4) =~= mic_prefix())) by {
        if v@.skip(at as int).take(4) =~= mic_prefix() {
            assert(v@.skip(at as int).take(4)[0] == v@[at as int]);
            assert(v@.skip(at as int).take(4)[1] == v@[at + 1]);
            assert(v@.skip(at as int).take(4)[2] == v@[at + 2]);
            assert(v@.skip(at as int).take(4)[3] == v@[at + 3]);
        }
    }
    r
}

/// The action of a click on the entry with id `id`.
pub fn menu_action(id: &str) -> (r: MenuAction)
    ensures
        r@ == menu_action_spec(id@),
{
    if str_eq(id, "open") {
        return MenuAction::Open;
    }
    if str_eq(id, "paste-last") {
        return MenuAction::PasteLast;
    }
    if str_eq(id, "quit") {
        return MenuAction::Quit;
    }
    let v = chars_of(id);
    if !mic_at(&v, 0) {
        assert(v@.skip(0) =~= v@);
        return MenuAction::Ignore;
    }
    assert(v@.skip(0) =~= v@);
    let mut at: usize = 0;
    while mic_at(&v, at)
        invariant
            at <= v@.len(),
            v@ == id@,
            strip_mic(v@.skip(at as int)) == strip_mic(id@),
        decreases v@.len() - at,
    {
        assert(v@.skip(at as int).skip(4) =~= v@.skip(at + 4));
        at = at + 4;
    }
    assert(strip_mic(v@.skip(at as int)) == v@.skip(at as int));
    assert(v@.subrange(at as int, v@.len() as int) =~= v@.skip(at as int));
    MenuAction::SelectMic(string_from_chars(v.as_slice(), at, v.len()))
}

/// One microphone entry of the menu: its id, its label, and whether it is checked.
pub struct MicEntry {
    pub id: String,
    pub label: String,
    pub checked: bool,
}

/// The microphone entries for the `devices` found, with `selected` the chosen device
/// (empty: the system default): "System default" first, then one entry per device.
pub fn mic_entries(selected: &str, devices: &Vec<String>) -> (r: Vec<MicEntry>)
    ensures
        r@.len() == devices@.len() + 1,
        r@[0].id@ == MIC_DEFAULT_ID@,
        r@[0].label@ == "System default"@,
        r@[0].checked == (selected@.len() == 0),
        forall|i: int|
            0 <= i < devices@.len() ==> {
                &&& (#[trigger] r@[i + 1]).id@ == MIC_DEFAULT_ID@ + devices@[i]@
                &&& r@[i + 1].label@ == devices@[i]@
                &&& r@[i + 1].checked == (selected@ == devices@[i]@)
            },
{
    let mut r: Vec<MicEntry> = Vec::new();
    r.push(
        MicEntry {
            id: String::from_str(MIC_DEFAULT_ID),
            label: String::from_str("System default"),
            checked: selected.is_empty(),
        },
    );
    let mut i: usize = 0;
    while i < devices.len()
        invariant
            i <= devices@.len(),
            r@.len() == i + 1,
            r@[0].id@ == MIC_DEFAULT_ID@,
            r@[0].label@ == "System default"@,
            r@[0].checked == (selected@.len() == 0),
            forall|k: int|
                0 <= k < i ==> {
                    &&& (#[trigger] r@[k + 1]).id@ == MIC_DEFAULT_ID@ + devices@[k]@
                    &&& r@[k + 1].label@ == devices@[k]@
                    &&& r@[k + 1].checked == (selected@ == devices@[k]@)
                },
        decreases devices@.len() - i,
    {
        let name = &devices[i];
        r.push(
            MicEntry {
                id: concat(MIC_DEFAULT_ID, name.as_str()),
                label: name.clone(),
                checked: str_eq(selected, name.as_str()),
            },
        );
        i = i + 1;
    }
    r
}

/// Clicking a microphone entry selects that entry's device: the entry with id `mic:`
/// followed by a device name selects the device, and `mic:` alone the system default
/// (the empty name). A name that itself starts with `mic:` loses that prefix too.
pub proof fn law_mic_entry_selects_device(device: Seq<char>)
    requires
        !(device.len() >= 4 && device.take(4) == mic_prefix()),
    ensures
        menu_action_spec(MIC_DEFAULT_ID@ + device) == MenuActionView::SelectMic(device),
{
    reveal_strlit("mic:");
    reveal_strlit("open");
    reveal_strlit("paste-last");
    reveal_strlit("quit");
    let id = MIC_DEFAULT_ID@ + device;
    assert(id[0] == 'm');
    assert(id != "open"@) by {
        assert("open"@[0] == 'o');
    }
    assert(id != "paste-last"@) by {
        assert("paste-last"@[0] == 'p');
    }
    assert(id != "quit"@) by {
        assert("quit"@[0] == 'q');
    }
    assert(id.take(4) =~= mic_prefix());
    assert(id.skip(4) =~= device);
    assert(strip_mic(device) == device);
    assert(strip_mic(id) == strip_mic(device));
}

} // verus!
