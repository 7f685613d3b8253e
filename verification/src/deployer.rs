//! Writing suites in the registry text form
//! `tasks|T1,T2,...;post|CMD;hotkey|COMBO`, and the desktop-shortcut script.

use vstd::prelude::*;
use crate::text::{
    int_decimal, join_chars, join_with, nat_decimal, push_chars, push_decimal, push_decimal_i64,
    push_str, string_from_chars, chars_of,
};
use crate::scraper::{DisplayTask, TaskModel, opt_chars, task_models};

verus! {

/// Saves suites and creates shortcuts that apply them.
pub struct DeploymentManager;

/// An optional text field, written as `0` when absent.
pub open spec fn or_zero(o: Option<Seq<char>>) -> Seq<char> {
    match o {
        Some(s) => s,
        None => seq!['0'],
    }
}

/// A percentage, written as `999` when absent.
pub open spec fn or_999(o: Option<u32>) -> nat {
    match o {
        Some(v) => v as nat,
        None => 999,
    }
}

/// The eleven fields of a task in the task string format.
pub open spec fn task_fields(t: TaskModel) -> Seq<Seq<char>> {
    seq![
        t.query,
        int_decimal(t.width as int),
        int_decimal(t.height as int),
        int_decimal(t.x as int),
        int_decimal(t.y as int),
        if t.is_primary { seq!['1'] } else { seq!['0'] },
        or_zero(t.direction),
        nat_decimal(t.freq as nat),
        nat_decimal(or_999(t.brightness)),
        nat_decimal(or_999(t.contrast)),
        or_zero(t.animation),
    ]
}

/// A task in the task string format.
pub open spec fn format_task_spec(t: TaskModel) -> Seq<char> {
    join_with(task_fields(t), ':')
}

/// The task strings of a list of tasks.
pub open spec fn formatted_tasks(tasks: Seq<TaskModel>) -> Seq<Seq<char>> {
    tasks.map_values(|t: TaskModel| format_task_spec(t))
}

/// A list of tasks as comma-separated task strings.
pub open spec fn format_task_args_spec(tasks: Seq<TaskModel>) -> Seq<char> {
    join_with(formatted_tasks(tasks), ',')
}

/// The registry text of a suite: its tasks, then the post command and the
/// hotkey when there are any.
pub open spec fn suite_config_spec(
    tasks: Seq<TaskModel>,
    post: Option<Seq<char>>,
    hotkey: Option<Seq<char>>,
) -> Seq<char> {
    let base = "tasks|"@ + format_task_args_spec(tasks);
    let with_post = match post {
        Some(cmd) => base + ";post|"@ + cmd,
        None => base,
    };
    match hotkey {
        Some(hk) => with_post + ";hotkey|"@ + hk,
        None => with_post,
    }
}

/// The name a suite is saved under: its name without a trailing `.bat`.
pub open spec fn suite_base_name(name: Seq<char>) -> Seq<char> {
    if name.len() >= 4 && name.subrange(name.len() - 4, name.len() as int) == ".bat"@ {
        name.subrange(0, name.len() - 4)
    } else {
        name
    }
}

/// The PowerShell command that creates the desktop shortcut `df_NAME.lnk`.
pub open spec fn shortcut_script_spec(
    name: Seq<char>,
    exe: Seq<char>,
    args: Seq<char>,
    icon: Seq<char>,
    hotkey: Seq<char>,
) -> Seq<char> {
    "$ws = New-Object -ComObject WScript.Shell; $lnk = $ws.CreateShortcut((Join-Path ([Environment]::GetFolderPath('Desktop')) 'df_"@
        + name + ".lnk')); $lnk.TargetPath = '"@ + exe + "'; $lnk.Arguments = '"@ + args
        + "'; $lnk.Hotkey = '"@ + hotkey + "'; if (Test-Path '"@ + icon
        + "') { $lnk.IconLocation = '"@ + icon + "' }; $lnk.Save();"@
}

/// The arguments with which a shortcut applies a suite.
pub open spec fn apply_suite_args_spec(base_name: Seq<char>) -> Seq<char> {
    "--apply-suite \""@ + base_name + "\""@
}

/// The hotkey given to the shortcut: the suite's hotkey when the shortcut
/// should carry it, else none.
pub open spec fn shortcut_hotkey_spec(hotkey: Option<Seq<char>>, link_with_hotkey: bool) -> Seq<char> {
    if link_with_hotkey {
        match hotkey {
            Some(h) => h,
            None => Seq::empty(),
        }
    } else {
        Seq::empty()
    }
}

fn or_zero_chars(o: &Option<String>) -> (v: Vec<char>)
    ensures
        v@ == or_zero(opt_chars(*o)),
{
    match o {
        Some(s) => chars_of(s.as_str()),
        None => {
            let mut v: Vec<char> = Vec::new();
            v.push('0');
            assert(v@ =~= seq!['0']);
            v
        },
    }
}

fn decimal_chars(n: u64) -> (v: Vec<char>)
    ensures
        v@ == nat_decimal(n as nat),
{
    let mut v: Vec<char> = Vec::new();
    push_decimal(&mut v, n);
    assert(v@ =~= nat_decimal(n as nat));
    v
}

fn signed_decimal_chars(n: i32) -> (v: Vec<char>)
    ensures
        v@ == int_decimal(n as int),
{
    let mut v: Vec<char> = Vec::new();
    push_decimal_i64(&mut v, n as i64);
    assert(v@ =~= int_decimal(n as int));
    v
}

fn or_999_chars(o: Option<u32>) -> (v: Vec<char>)
    ensures
        v@ == nat_decimal(or_999(o)),
{
    match o {
        Some(x) => decimal_chars(x as u64),
        None => decimal_chars(999),
    }
}

/// The fields of `t` in the task string format.
fn task_field_chars(t: &DisplayTask) -> (f: Vec<Vec<char>>)
    ensures
        f.deep_view() == task_fields(t@),
{
    let mut f: Vec<Vec<char>> = Vec::new();
    f.push(chars_of(t.query.as_str()));
    f.push(signed_decimal_chars(t.width));
    f.push(signed_decimal_chars(t.height));
    f.push(signed_decimal_chars(t.x));
    f.push(signed_decimal_chars(t.y));
    let mut p: Vec<char> = Vec::new();
    p.push(if t.is_primary { '1' } else { '0' });
    f.push(p);
    f.push(or_zero_chars(&t.direction));
    f.push(decimal_chars(t.freq as u64));
    f.push(or_999_chars(t.brightness));
    f.push(or_999_chars(t.contrast));
    f.push(or_zero_chars(&t.animation));
    proof {
        let tf = task_fields(t@);
        assert(f@[5]@ =~= tf[5]);
        assert(f.deep_view() =~~= tf);
    }
    f
}

/// Appends `t` in the task string format.
pub fn push_task(out: &mut Vec<char>, t: &DisplayTask)
    ensures
        final(out)@ == old(out)@ + format_task_spec(t@),
{
    let f = task_field_chars(t);
    let joined = join_chars(&f, ':');
    push_chars(out, &joined);
}

/// A task in the task string format.
pub fn format_task(t: &DisplayTask) -> (s: String)
    ensures
        s@ == format_task_spec(t@),
{
    let mut v: Vec<char> = Vec::new();
    push_task(&mut v, t);
    assert(v@ =~= format_task_spec(t@));
    string_from_chars(&v)
}

fn push_task_args(out: &mut Vec<char>, tasks: &Vec<DisplayTask>)
    ensures
        final(out)@ == old(out)@ + format_task_args_spec(task_models(tasks@)),
{
    let ghost start = out@;
    let ghost all = formatted_tasks(task_models(tasks@));
    let mut i: usize = 0;
    while i < tasks.len()
        invariant
            i <= tasks.len(),
            all == formatted_tasks(task_models(tasks@)),
            all.len() == tasks.len(),
            out@ == start + join_with(all.take(i as int), ','),
        decreases tasks.len() - i,
    {
        let ghost before = out@;
        proof {
            assert(all.take(i + 1).drop_last() =~= all.take(i as int));
            assert(all[i as int] == format_task_spec(tasks@[i as int]@));
        }
        if i > 0 {
            out.push(',');
        }
        push_task(out, &tasks[i]);
        proof {
            assert(all.take(i + 1).last() == all[i as int]);
            if i == 0 {
                assert(join_with(all.take(0), ',') =~= Seq::<char>::empty());
                assert(all.take(1) =~= seq![all[0]]);
                assert(out@ =~= start + join_with(all.take(1), ','));
            } else {
                assert(out@ =~= start + join_with(all.take(i + 1), ','));
            }
        }
        i = i + 1;
    }
    proof {
        assert(all.take(i as int) =~= all);
        if tasks.len() == 0 {
            assert(out@ =~= start + format_task_args_spec(task_models(tasks@)));
        }
    }
}

impl DeploymentManager {
    /// The tasks as comma-separated task strings.
    pub fn format_task_args(tasks: &Vec<DisplayTask>) -> (s: String)
        ensures
            s@ == format_task_args_spec(task_models(tasks@)),
    {
        let mut v: Vec<char> = Vec::new();
        push_task_args(&mut v, tasks);
        assert(v@ =~= format_task_args_spec(task_models(tasks@)));
        string_from_chars(&v)
    }

    /// The registry text of a suite.
    pub fn suite_config(tasks: &Vec<DisplayTask>, post_cmd: &Option<String>, hotkey: &Option<String>) -> (s: String)
        ensures
            s@ == suite_config_spec(task_models(tasks@), opt_chars(*post_cmd), opt_chars(*hotkey)),
    {
        let mut v: Vec<char> = Vec::new();
        push_str(&mut v, "tasks|");
        push_task_args(&mut v, tasks);
        let ghost base = v@;
        assert(base =~= "tasks|"@ + format_task_args_spec(task_models(tasks@)));
        match post_cmd {
            Some(cmd) => {
                push_str(&mut v, ";post|");
                push_str(&mut v, cmd.as_str());
            },
            None => {},
        }
        let ghost with_post = v@;
        match hotkey {
            Some(hk) => {
                push_str(&mut v, ";hotkey|");
                push_str(&mut v, hk.as_str());
            },
            None => {},
        }
        assert(v@ =~= suite_config_spec(task_models(tasks@), opt_chars(*post_cmd), opt_chars(*hotkey)));
        string_from_chars(&v)
    }

    /// The name a suite is saved under: `name` without a trailing `.bat`.
    pub fn base_name(name: &str) -> (s: String)
        ensures
            s@ == suite_base_name(name@),
    {
        let v = chars_of(name);
        let n = v.len();
        if n >= 4 && v[n - 4] == '.' && v[n - 3] == 'b' && v[n - 2] == 'a' && v[n - 1] == 't' {
            proof {
                reveal_strlit(".bat");
                assert(v@.subrange(n - 4, n as int) =~= ".bat"@);
            }
            let mut out: Vec<char> = Vec::new();
            let mut i: usize = 0;
            while i < n - 4
                invariant
                    n == v.len(),
                    n >= 4,
                    i <= n - 4,
                    out@ == v@.subrange(0, i as int),
                decreases n - 4 - i,
            {
                out.push(v[i]);
                i = i + 1;
                assert(out@ =~= v@.subrange(0, i as int));
            }
            string_from_chars(&out)
        } else {
            proof {
                reveal_strlit(".bat");
                if n >= 4 && v@.subrange(n - 4, n as int) == ".bat"@ {
                    assert(v@.subrange(n - 4, n as int)[0] == '.');
                    assert(v@.subrange(n - 4, n as int)[1] == 'b');
                    assert(v@.subrange(n - 4, n as int)[2] == 'a');
                    assert(v@.subrange(n - 4, n as int)[3] == 't');
                }
            }
            string_from_chars(&v)
        }
    }

    /// The arguments with which a shortcut applies the suite `base_name`.
    pub fn apply_suite_args(base_name: &str) -> (s: String)
        ensures
            s@ == apply_suite_args_spec(base_name@),
    {
        let mut v: Vec<char> = Vec::new();
        push_str(&mut v, "--apply-suite \"");
        push_str(&mut v, base_name);
        push_str(&mut v, "\"");
        assert(v@ =~= apply_suite_args_spec(base_name@));
        string_from_chars(&v)
    }

    /// The PowerShell command that creates the desktop shortcut for a suite.
    pub fn shortcut_script(name: &str, exe: &str, args: &str, icon: &str, hotkey: &str) -> (s: String)
        ensures
            s@ == shortcut_script_spec(name@, exe@, args@, icon@, hotkey@),
    {
        let mut v: Vec<char> = Vec::new();
        push_str(&mut v, "$ws = New-Object -ComObject WScript.Shell; $lnk = $ws.CreateShortcut((Join-Path ([Environment]::GetFolderPath('Desktop')) 'df_");
        push_str(&mut v, name);
        push_str(&mut v, ".lnk')); $lnk.TargetPath = '");
        push_str(&mut v, exe);
        push_str(&mut v, "'; $lnk.Arguments = '");
        push_str(&mut v, args);
        push_str(&mut v, "'; $lnk.Hotkey = '");
        push_str(&mut v, hotkey);
        push_str(&mut v, "'; if (Test-Path '");
        push_str(&mut v, icon);
        push_str(&mut v, "') { $lnk.IconLocation = '");
        push_str(&mut v, icon);
        push_str(&mut v, "' }; $lnk.Save();");
        assert(v@ =~= shortcut_script_spec(name@, exe@, args@, icon@, hotkey@));
        string_from_chars(&v)
    }

    /// The hotkey given to the shortcut.
    pub fn shortcut_hotkey(hotkey: &Option<String>, link_with_hotkey: bool) -> (s: String)
        ensures
            s@ == shortcut_hotkey_spec(opt_chars(*hotkey), link_with_hotkey),
    {
        let v: Vec<char> = if link_with_hotkey {
            match hotkey {
                Some(h) => chars_of(h.as_str()),
                None => Vec::new(),
            }
        } else {
            Vec::new()
        };
        assert(v@ =~= shortcut_hotkey_spec(opt_chars(*hotkey), link_with_hotkey));
        string_from_chars(&v)
    }
}

/// The modifiers recorded after one more poll of the keyboard: each held
/// modifier not yet recorded is appended, checked in the order `Ctrl`,
/// `Alt`, `Shift`.
pub open spec fn with_held_modifiers(combo: Seq<Seq<char>>, ctrl: bool, alt: bool, shift: bool) -> Seq<Seq<char>> {
    let c1 = if ctrl && !combo.contains("Ctrl"@) { combo.push("Ctrl"@) } else { combo };
    let c2 = if alt && !c1.contains("Alt"@) { c1.push("Alt"@) } else { c1 };
    if shift && !c2.contains("Shift"@) { c2.push("Shift"@) } else { c2 }
}

fn contains_name(combo: &Vec<String>, name: &str) -> (r: bool)
    ensures
        r == combo.deep_view().contains(name@),
{
    let target = chars_of(name);
    let mut i: usize = 0;
    while i < combo.len()
        invariant
            i <= combo.len(),
            target@ == name@,
            forall|j: int| 0 <= j < i ==> combo.deep_view()[j] != name@,
        decreases combo.len() - i,
    {
        let v = chars_of(combo[i].as_str());
        if crate::text::chars_eq(&v, &target) {
            assert(combo.deep_view()[i as int] == name@);
            return true;
        }
        i = i + 1;
    }
    false
}

fn push_modifier_if(combo: &mut Vec<String>, held: bool, name: &str)
    ensures
        final(combo).deep_view() == (if held && !old(combo).deep_view().contains(name@) {
            old(combo).deep_view().push(name@)
        } else {
            old(combo).deep_view()
        }),
{
    if held && !contains_name(combo, name) {
        let ghost before = combo.deep_view();
        combo.push(string_from_chars(&chars_of(name)));
        assert(combo.deep_view() =~= before.push(name@));
    }
}

/// The text of a hotkey recorded as `combo` and then `letter`, joined with `+`.
pub open spec fn finished_hotkey_spec(combo: Seq<Seq<char>>, letter: char) -> Seq<char> {
    join_with(combo.push(seq![letter]), '+')
}

impl DeploymentManager {
    /// Records the modifiers held at one poll of the keyboard.
    pub fn add_held_modifiers(combo: &mut Vec<String>, ctrl: bool, alt: bool, shift: bool)
        ensures
            final(combo).deep_view() == with_held_modifiers(old(combo).deep_view(), ctrl, alt, shift),
    {
        push_modifier_if(combo, ctrl, "Ctrl");
        push_modifier_if(combo, alt, "Alt");
        push_modifier_if(combo, shift, "Shift");
    }

    /// The hotkey text once the letter key is pressed.
    pub fn finish_hotkey(combo: &Vec<String>, letter: u8) -> (r: String)
        requires
            0x41 <= letter <= 0x5a,
        ensures
            r@ == finished_hotkey_spec(combo.deep_view(), letter as char),
    {
        let mut parts: Vec<Vec<char>> = Vec::new();
        let mut i: usize = 0;
        while i < combo.len()
            invariant
                i <= combo.len(),
                parts.deep_view() == combo.deep_view().take(i as int),
            decreases combo.len() - i,
        {
            let ghost before = parts.deep_view();
            parts.push(chars_of(combo[i].as_str()));
            assert(parts.deep_view() =~~= before.push(combo.deep_view()[i as int]));
            assert(combo.deep_view().take(i + 1) =~= combo.deep_view().take(i as int).push(combo.deep_view()[i as int]));
            i = i + 1;
        }
        let ghost before = parts.deep_view();
        let mut l: Vec<char> = Vec::new();
        l.push(letter as char);
        parts.push(l);
        assert(combo.deep_view().take(i as int) =~= combo.deep_view());
        assert(parts.deep_view() =~~= combo.deep_view().push(seq![letter as char]));
        string_from_chars(&join_chars(&parts, '+'))
    }
}

} // verus!
