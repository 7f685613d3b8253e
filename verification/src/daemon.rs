//! The background listener: which saved suites get a global hotkey, how a
//! hotkey text becomes modifiers and a key code, and what each window
//! message makes the listener do.

use vstd::prelude::*;
use crate::text::{
    push_str,
    chars_of, chars_eq_str, nth_field, split_chars, split_on, starts_with, starts_with_chars,
    string_from_chars, to_upper, upper, lemma_split_len,
};

use crate::config::SuiteConfig;
use crate::deployer::{DeploymentManager, suite_config_spec};
use crate::scraper::{opt_chars, task_models};

verus! {

/// The `Alt` modifier of a hotkey registration.
pub const MOD_ALT: u32 = 0x0001;
/// The `Ctrl` modifier of a hotkey registration.
pub const MOD_CONTROL: u32 = 0x0002;
/// The `Shift` modifier of a hotkey registration.
pub const MOD_SHIFT: u32 = 0x0004;
/// Keeps a held hotkey from repeating.
pub const MOD_NOREPEAT: u32 = 0x4000;

/// The first application-defined window message.
pub const WM_USER: u32 = 0x0400;
/// The message the tray icon sends.
pub const WM_TRAY_ICON: u32 = 0x0401;
/// Right mouse button released.
pub const WM_RBUTTONUP: u32 = 0x0205;
/// A menu command.
pub const WM_COMMAND: u32 = 0x0111;
/// A registered hotkey was pressed.
pub const WM_HOTKEY: u32 = 0x0312;
/// The window is being destroyed.
pub const WM_DESTROY: u32 = 0x0002;
/// The id of the tray menu's exit command.
pub const IDM_EXIT: usize = 1001;
/// The id of the tray icon.
pub const TRAY_ICON_ID: u32 = 1;

/// The first part that starts with `hotkey|`.
pub open spec fn first_hotkey_part(parts: Seq<Seq<char>>) -> Option<Seq<char>>
    decreases parts.len(),
{
    if parts.len() == 0 {
        None
    } else if starts_with(parts[0], "hotkey|"@) {
        Some(parts[0])
    } else {
        first_hotkey_part(parts.drop_first())
    }
}

/// The hotkey text of a suite's registry text: the value of the first
/// `hotkey|...` part (up to the next `|`), if there is such a part.
pub open spec fn hotkey_of_config_spec(config: Seq<char>) -> Option<Seq<char>> {
    match first_hotkey_part(split_on(config, ';')) {
        Some(p) => Some(match nth_field(p, '|', 1) {
            Some(f) => f,
            None => Seq::empty(),
        }),
        None => None,
    }
}

/// The hotkey text of a suite's registry text.
pub fn hotkey_of_config(config: &str) -> (r: Option<String>)
    ensures
        match r {
            Some(s) => hotkey_of_config_spec(config@) == Some(s@),
            None => hotkey_of_config_spec(config@) is None,
        },
{
    let chars = chars_of(config);
    let parts = split_chars(&chars, ';');
    let prefix = chars_of("hotkey|");
    let ghost pv = parts.deep_view();
    let mut i: usize = 0;
    assert(pv.skip(0) =~= pv);
    while i < parts.len()
        invariant
            i <= parts.len(),
            pv == parts.deep_view(),
            pv == split_on(config@, ';'),
            prefix@ == "hotkey|"@,
            first_hotkey_part(pv) == first_hotkey_part(pv.skip(i as int)),
        decreases parts.len() - i,
    {
        let ghost rest = pv.skip(i as int);
        proof {
            assert(rest[0] =~= parts@[i as int]@);
            assert(rest.drop_first() =~= pv.skip(i + 1));
        }
        if starts_with_chars(&parts[i], &prefix) {
            let kv = split_chars(&parts[i], '|');
            proof {
                lemma_split_len(parts@[i as int]@, '|');
            }
            if kv.len() > 1 {
                assert(kv.deep_view()[1] =~= kv@[1]@);
                return Some(string_from_chars(&kv[1]));
            } else {
                return Some(String::new());
            }
        }
        i = i + 1;
    }
    None
}

/// A text with exactly one byte in UTF-8: one ASCII character.
pub open spec fn single_ascii(s: Seq<char>) -> bool {
    s.len() == 1 && (s[0] as u32) < 0x80
}

/// The modifiers and key code of the `+`-separated hotkey parts: each part,
/// in upper case, that is `CTRL`, `ALT` or `SHIFT` adds that modifier, and a
/// part of one ASCII character sets the key code (the last such part counts).
pub open spec fn binding_of_parts(parts: Seq<Seq<char>>) -> (u32, u32)
    decreases parts.len(),
{
    if parts.len() == 0 {
        (MOD_NOREPEAT, 0)
    } else {
        let prev = binding_of_parts(parts.drop_last());
        let u = upper(parts.last());
        if u == "CTRL"@ {
            (prev.0 | MOD_CONTROL, prev.1)
        } else if u == "ALT"@ {
            (prev.0 | MOD_ALT, prev.1)
        } else if u == "SHIFT"@ {
            (prev.0 | MOD_SHIFT, prev.1)
        } else if single_ascii(u) {
            (prev.0, u[0] as u32)
        } else {
            prev
        }
    }
}

/// The modifiers and key code of a hotkey text such as `Ctrl+Alt+D`.
pub open spec fn hotkey_binding_spec(combo: Seq<char>) -> (u32, u32) {
    binding_of_parts(split_on(combo, '+'))
}

/// The modifiers and key code of a hotkey text (key code 0: no key).
pub fn hotkey_binding(combo: &str) -> (r: (u32, u32))
    ensures
        r == hotkey_binding_spec(combo@),
{
    let chars = chars_of(combo);
    let parts = split_chars(&chars, '+');
    let ghost pv = parts.deep_view();
    let mut modifiers: u32 = MOD_NOREPEAT;
    let mut key_code: u32 = 0;
    let mut i: usize = 0;
    while i < parts.len()
        invariant
            i <= parts.len(),
            pv == parts.deep_view(),
            pv == split_on(combo@, '+'),
            (modifiers, key_code) == binding_of_parts(pv.take(i as int)),
        decreases parts.len() - i,
    {
        proof {
            assert(pv.take(i + 1).drop_last() =~= pv.take(i as int));
            assert(pv.take(i + 1).last() =~= parts@[i as int]@);
        }
        let text = string_from_chars(&parts[i]);
        let up = to_upper(text.as_str());
        let u = chars_of(up.as_str());
        if chars_eq_str(&u, "CTRL") {
            modifiers = modifiers | MOD_CONTROL;
        } else if chars_eq_str(&u, "ALT") {
            modifiers = modifiers | MOD_ALT;
        } else if chars_eq_str(&u, "SHIFT") {
            modifiers = modifiers | MOD_SHIFT;
        } else if u.len() == 1 && (u[0] as u32) < 0x80 {
            key_code = u[0] as u32;
        }
        i = i + 1;
    }
    assert(pv.take(i as int) =~= pv);
    (modifiers, key_code)
}

/// A global hotkey to register for a saved suite.
pub struct HotkeyRegistration {
    /// The registration id: the suite's position in the saved list.
    pub id: i32,
    pub name: String,
    pub combo: String,
    pub modifiers: u32,
    pub key_code: u32,
}

/// The content of a [`HotkeyRegistration`].
pub struct RegistrationModel {
    pub id: i32,
    pub name: Seq<char>,
    pub combo: Seq<char>,
    pub modifiers: u32,
    pub key_code: u32,
}

impl View for HotkeyRegistration {
    type V = RegistrationModel;

    open spec fn view(&self) -> RegistrationModel {
        RegistrationModel {
            id: self.id,
            name: self.name@,
            combo: self.combo@,
            modifiers: self.modifiers,
            key_code: self.key_code,
        }
    }
}

/// The registrations for the saved suites, given as (name, registry text)
/// in the order they are enumerated: one for each suite whose text has a
/// hotkey naming a key (key code not 0), with the suite's position as id.
pub open spec fn registrations_spec(entries: Seq<(Seq<char>, Seq<char>)>) -> Seq<RegistrationModel>
    decreases entries.len(),
{
    if entries.len() == 0 {
        Seq::empty()
    } else {
        let prev = registrations_spec(entries.drop_last());
        let i = entries.len() - 1;
        match hotkey_of_config_spec(entries.last().1) {
            Some(combo) => {
                let b = hotkey_binding_spec(combo);
                if b.1 != 0 {
                    prev.push(RegistrationModel {
                        id: i as i32,
                        name: entries.last().0,
                        combo: combo,
                        modifiers: b.0,
                        key_code: b.1,
                    })
                } else {
                    prev
                }
            },
            None => prev,
        }
    }
}

/// The (name, text) pairs of the saved suites as character sequences.
pub open spec fn entry_texts(entries: Seq<(String, String)>) -> Seq<(Seq<char>, Seq<char>)> {
    entries.map_values(|e: (String, String)| (e.0@, e.1@))
}

/// The models of a list of registrations.
pub open spec fn registration_models(r: Seq<HotkeyRegistration>) -> Seq<RegistrationModel> {
    r.map_values(|x: HotkeyRegistration| x@)
}

/// The registrations for the saved suites.
pub fn hotkey_registrations(entries: &Vec<(String, String)>) -> (r: Vec<HotkeyRegistration>)
    ensures
        registration_models(r@) == registrations_spec(entry_texts(entries@)),
{
    let ghost all = entry_texts(entries@);
    let mut out: Vec<HotkeyRegistration> = Vec::new();
    let mut i: usize = 0;
    assert(registration_models(out@) =~= Seq::<RegistrationModel>::empty());
    while i < entries.len()
        invariant
            i <= entries.len(),
            all == entry_texts(entries@),
            registration_models(out@) == registrations_spec(all.take(i as int)),
        decreases entries.len() - i,
    {
        let ghost pre1 = all.take(i + 1);
        proof {
            assert(pre1.drop_last() =~= all.take(i as int));
            assert(pre1.last() == (entries@[i as int].0@, entries@[i as int].1@));
            assert(pre1.len() - 1 == i);
        }
        let (name, value) = &entries[i];
        match hotkey_of_config(value.as_str()) {
            Some(combo) => {
                let (modifiers, key_code) = hotkey_binding(combo.as_str());
                if key_code != 0 {
                    let reg = HotkeyRegistration {
                        id: i as i32,
                        name: name.clone(),
                        combo,
                        modifiers,
                        key_code,
                    };
                    let ghost before = registration_models(out@);
                    out.push(reg);
                    assert(registration_models(out@) =~= before.push(reg@));
                }
            },
            None => {},
        }
        i = i + 1;
    }
    assert(all.take(i as int) =~= all);
    out
}

/// What the listener does for a window message.
#[derive(Debug, Clone, Copy, PartialEq, Eq)]
pub enum DaemonAction {
    /// Show the tray menu at the cursor.
    ShowTrayMenu,
    /// Close the listener's window.
    Exit,
    /// Apply the saved suite at this position.
    ApplySuite(usize),
    /// Remove the tray icon and stop.
    RemoveTrayIconAndQuit,
    /// Leave the message to the default handler.
    Default,
}

/// The action for a window message: a right click on the tray icon shows
/// the menu, the exit command closes the window, a hotkey applies the suite
/// with its id, destruction removes the icon and quits; all else goes to the
/// default handler.
pub open spec fn window_action_spec(msg: u32, wparam: usize, lparam: isize) -> DaemonAction {
    if msg == WM_TRAY_ICON && lparam as u32 == WM_RBUTTONUP {
        DaemonAction::ShowTrayMenu
    } else if msg == WM_COMMAND && wparam == IDM_EXIT {
        DaemonAction::Exit
    } else if msg == WM_HOTKEY {
        DaemonAction::ApplySuite(wparam)
    } else if msg == WM_DESTROY {
        DaemonAction::RemoveTrayIconAndQuit
    } else {
        DaemonAction::Default
    }
}

/// The action for a window message.
pub fn window_action(msg: u32, wparam: usize, lparam: isize) -> (r: DaemonAction)
    ensures
        r == window_action_spec(msg, wparam, lparam),
{
    if msg == WM_TRAY_ICON && lparam as u32 == WM_RBUTTONUP {
        DaemonAction::ShowTrayMenu
    } else if msg == WM_COMMAND && wparam == IDM_EXIT {
        DaemonAction::Exit
    } else if msg == WM_HOTKEY {
        DaemonAction::ApplySuite(wparam)
    } else if msg == WM_DESTROY {
        DaemonAction::RemoveTrayIconAndQuit
    } else {
        DaemonAction::Default
    }
}

/// The name of the saved suite at `idx`, if there is one.
pub fn suite_name_at(names: &Vec<String>, idx: usize) -> (r: Option<String>)
    ensures
        match r {
            Some(n) => idx < names@.len() && n@ == names@[idx as int]@,
            None => idx >= names@.len(),
        },
{
    if idx < names.len() {
        Some(names[idx].clone())
    } else {
        None
    }
}

/// The message printed when a suite's hotkey was registered.
pub open spec fn registered_message_spec(combo: Seq<char>, name: Seq<char>) -> Seq<char> {
    "[SUCCESS] Registered daemon hotkey '"@ + combo + "' for '"@ + name + "'"@
}

/// The message printed when a suite's hotkey was registered.
pub fn registered_message(combo: &str, name: &str) -> (r: String)
    ensures
        r@ == registered_message_spec(combo@, name@),
{
    let mut v = chars_of("[SUCCESS] Registered daemon hotkey '");
    push_str(&mut v, combo);
    push_str(&mut v, "' for '");
    push_str(&mut v, name);
    push_str(&mut v, "'");
    assert(v@ =~= registered_message_spec(combo@, name@));
    string_from_chars(&v)
}

/// The lines printed when a suite's hotkey is already taken, given the
/// system's error text: what happened, the usual cause, and how to free the
/// key from the suite's desktop shortcut `df_NAME.lnk`.
pub open spec fn conflict_message_spec(combo: Seq<char>, name: Seq<char>, error: Seq<char>) -> Seq<Seq<char>> {
    seq![
        "\n[CONFLICT] Hotkey '"@ + combo + "' for suite '"@ + name + "' is already in use (Error: "@ + error + ")."@,
        "[CAUSE] This is usually caused by an existing Windows Desktop Shortcut (.lnk) using the same key."@,
        "[INSTRUCTION] To allow the Daemon to handle this hotkey:"@,
        " 1. Find 'df_"@ + name + ".lnk' on your Desktop."@,
        " 2. Right-click -> Properties -> Shortcut tab."@,
        " 3. Set 'Shortcut key' to None or delete the shortcut."@,
        " 4. Restart the DisplayFlow Daemon.\n"@,
    ]
}

/// The lines printed when a suite's hotkey is already taken.
pub fn conflict_message(combo: &str, name: &str, error: &str) -> (r: Vec<String>)
    ensures
        r.deep_view() == conflict_message_spec(combo@, name@, error@),
{
    let mut first = chars_of("\n[CONFLICT] Hotkey '");
    push_str(&mut first, combo);
    push_str(&mut first, "' for suite '");
    push_str(&mut first, name);
    push_str(&mut first, "' is already in use (Error: ");
    push_str(&mut first, error);
    push_str(&mut first, ").");
    let mut fourth = chars_of(" 1. Find 'df_");
    push_str(&mut fourth, name);
    push_str(&mut fourth, ".lnk' on your Desktop.");
    let mut out: Vec<String> = Vec::new();
    out.push(string_from_chars(&first));
    out.push(string_from_chars(&chars_of("[CAUSE] This is usually caused by an existing Windows Desktop Shortcut (.lnk) using the same key.")));
    out.push(string_from_chars(&chars_of("[INSTRUCTION] To allow the Daemon to handle this hotkey:")));
    out.push(string_from_chars(&fourth));
    out.push(string_from_chars(&chars_of(" 2. Right-click -> Properties -> Shortcut tab.")));
    out.push(string_from_chars(&chars_of(" 3. Set 'Shortcut key' to None or delete the shortcut.")));
    out.push(string_from_chars(&chars_of(" 4. Restart the DisplayFlow Daemon.\n")));
    assert(out.deep_view() =~~= conflict_message_spec(combo@, name@, error@));
    out
}

/// The listener's entries for saved suites: each suite's name with its
/// suite text (which holds its hotkey), in the given order.
pub open spec fn suite_entries_spec(configs: Seq<SuiteConfig>) -> Seq<(Seq<char>, Seq<char>)> {
    Seq::new(configs.len(), |i: int| (
        configs[i].name@,
        suite_config_spec(task_models(configs[i].tasks@), opt_chars(configs[i].post_cmd), opt_chars(configs[i].hotkey)),
    ))
}

/// The listener's entries for saved suites.
pub fn suite_entries(configs: &Vec<SuiteConfig>) -> (r: Vec<(String, String)>)
    ensures
        entry_texts(r@) == suite_entries_spec(configs@),
{
    let mut out: Vec<(String, String)> = Vec::new();
    let mut i: usize = 0;
    while i < configs.len()
        invariant
            i <= configs.len(),
            entry_texts(out@) == suite_entries_spec(configs@).take(i as int),
        decreases configs.len() - i,
    {
        let c = &configs[i];
        let text = DeploymentManager::suite_config(&c.tasks, &c.post_cmd, &c.hotkey);
        let ghost before = entry_texts(out@);
        out.push((c.name.clone(), text));
        assert(entry_texts(out@) =~= before.push((c.name@, text@)));
        assert(suite_entries_spec(configs@).take(i + 1) =~= suite_entries_spec(configs@).take(i as int).push(
            suite_entries_spec(configs@)[i as int]));
        i = i + 1;
    }
    assert(suite_entries_spec(configs@).take(i as int) =~= suite_entries_spec(configs@));
    out
}

} // verus!
