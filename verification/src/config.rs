//! Suites stored as one JSON file per suite: the suite record, the file
//! names, and the hotkey text that recording produces.

use vstd::prelude::*;
use crate::text::{chars_of, join_chars, join_with, push_str, string_from_chars};
use crate::scraper::{DisplayTask, opt_chars, task_models};
use crate::deployer::{DeploymentManager, suite_base_name};

verus! {

/// A saved suite.
#[derive(Debug, Clone)]
pub struct SuiteConfig {
    pub name: String,
    pub tasks: Vec<DisplayTask>,
    pub hotkey: Option<String>,
    pub post_cmd: Option<String>,
}

impl Default for SuiteConfig {
    fn default() -> (r: Self)
        ensures
            r.name@ == Seq::<char>::empty(),
            r.tasks@.len() == 0,
            r.hotkey is None,
            r.post_cmd is None,
    {
        SuiteConfig { name: String::new(), tasks: Vec::new(), hotkey: None, post_cmd: None }
    }
}

/// Manages the saved suites.
pub struct ProfileManager;

/// The file a suite is stored in, relative to the suites directory.
pub open spec fn suite_file_spec(name: Seq<char>) -> Seq<char> {
    name + ".json"@
}

/// `s` with its one trailing `.json` removed, when it has one.
pub open spec fn trim_json_suffix(s: Seq<char>) -> Seq<char> {
    if ends_with_json(s) {
        s.subrange(0, s.len() - 5)
    } else {
        s
    }
}

/// `s` ends with `.json`.
pub open spec fn ends_with_json(s: Seq<char>) -> bool {
    s.len() >= 5 && s.subrange(s.len() - 5, s.len() as int) == ".json"@
}

/// The suite names among the file names of the suites directory, in order:
/// the names ending in `.json`, with the extension removed.
pub open spec fn suite_names_spec(files: Seq<Seq<char>>) -> Seq<Seq<char>>
    decreases files.len(),
{
    if files.len() == 0 {
        Seq::empty()
    } else {
        let prev = suite_names_spec(files.drop_last());
        if ends_with_json(files.last()) {
            prev.push(trim_json_suffix(files.last()))
        } else {
            prev
        }
    }
}

fn ends_with_json_exec(v: &Vec<char>, n: usize) -> (r: bool)
    requires
        n <= v.len(),
    ensures
        r == ends_with_json(v@.subrange(0, n as int)),
{
    proof {
        reveal_strlit(".json");
    }
    if n < 5 {
        return false;
    }
    let r = v[n - 5] == '.' && v[n - 4] == 'j' && v[n - 3] == 's' && v[n - 2] == 'o' && v[n - 1] == 'n';
    proof {
        let s = v@.subrange(0, n as int);
        let tail = s.subrange(s.len() - 5, s.len() as int);
        if r {
            assert(tail =~= ".json"@);
        } else if tail == ".json"@ {
            assert(tail[0] == '.' && tail[1] == 'j' && tail[2] == 's' && tail[3] == 'o' && tail[4] == 'n');
        }
    }
    r
}

/// `s` with its one trailing `.json` removed, when it has one.
pub fn trim_json(s: &str) -> (r: String)
    ensures
        r@ == trim_json_suffix(s@),
{
    let v = chars_of(s);
    assert(v@.subrange(0, v.len() as int) =~= v@);
    let n: usize = if ends_with_json_exec(&v, v.len()) { v.len() - 5 } else { v.len() };
    let mut out: Vec<char> = Vec::new();
    let mut i: usize = 0;
    while i < n
        invariant
            i <= n,
            n <= v.len(),
            out@ == v@.subrange(0, i as int),
        decreases n - i,
    {
        out.push(v[i]);
        i = i + 1;
        assert(out@ =~= v@.subrange(0, i as int));
    }
    string_from_chars(&out)
}

impl ProfileManager {
    /// The file a suite is stored in: its name with `.json` appended.
    pub fn suite_file_name(name: &str) -> (r: String)
        ensures
            r@ == suite_file_spec(name@),
    {
        let mut v = chars_of(name);
        push_str(&mut v, ".json");
        string_from_chars(&v)
    }

    /// The suite record that saving writes: the name without `.bat`, the
    /// tasks, the hotkey and the post command.
    pub fn new_suite(
        name: &str,
        tasks: &Vec<DisplayTask>,
        hotkey: Option<String>,
        post_cmd: Option<String>,
    ) -> (r: SuiteConfig)
        ensures
            r.name@ == suite_base_name(name@),
            task_models(r.tasks@) == task_models(tasks@),
            opt_chars(r.hotkey) == opt_chars(hotkey),
            opt_chars(r.post_cmd) == opt_chars(post_cmd),
    {
        let mut copies: Vec<DisplayTask> = Vec::new();
        let mut i: usize = 0;
        while i < tasks.len()
            invariant
                i <= tasks.len(),
                task_models(copies@) == task_models(tasks@.take(i as int)),
            decreases tasks.len() - i,
        {
            let ghost before = copies@;
            let d = tasks[i].duplicate();
            copies.push(d);
            assert(task_models(copies@) =~= task_models(before).push(tasks@[i as int]@));
            assert(task_models(tasks@.take(i + 1)) =~= task_models(tasks@.take(i as int)).push(tasks@[i as int]@));
            i = i + 1;
        }
        assert(tasks@.take(i as int) =~= tasks@);
        SuiteConfig { name: DeploymentManager::base_name(name), tasks: copies, hotkey, post_cmd }
    }

    /// The suite names among the file names of the suites directory.
    pub fn suite_names_from_files(files: &Vec<String>) -> (r: Vec<String>)
        ensures
            r.deep_view() == suite_names_spec(files.deep_view()),
    {
        let mut out: Vec<String> = Vec::new();
        let mut i: usize = 0;
        assert(out.deep_view() =~= Seq::<Seq<char>>::empty());
        while i < files.len()
            invariant
                i <= files.len(),
                out.deep_view() == suite_names_spec(files.deep_view().take(i as int)),
            decreases files.len() - i,
        {
            let ghost pre1 = files.deep_view().take(i + 1);
            proof {
                assert(pre1.drop_last() =~= files.deep_view().take(i as int));
                assert(pre1.last() == files@[i as int]@);
            }
            let v = chars_of(files[i].as_str());
            assert(v@.subrange(0, v.len() as int) =~= v@);
            if ends_with_json_exec(&v, v.len()) {
                let ghost before = out.deep_view();
                let name = trim_json(files[i].as_str());
                out.push(name);
                assert(out.deep_view() =~= before.push(trim_json_suffix(files@[i as int]@)));
            }
            i = i + 1;
        }
        assert(files.deep_view().take(i as int) =~= files.deep_view());
        out
    }

    /// The hotkey text for the keys held when a letter key was pressed:
    /// the held modifiers among `Ctrl`, `Alt`, `Shift`, in that order, then
    /// the letter, joined with `+`.
    pub fn hotkey_combo(ctrl: bool, alt: bool, shift: bool, letter: u8) -> (r: String)
        requires
            0x41 <= letter <= 0x5a,
        ensures
            r@ == hotkey_combo_spec(ctrl, alt, shift, letter as char),
    {
        let mut parts: Vec<Vec<char>> = Vec::new();
        let ghost mut model: Seq<Seq<char>> = Seq::empty();
        assert(parts.deep_view() =~= model);
        if ctrl {
            parts.push(chars_of("Ctrl"));
            proof { model = model.push("Ctrl"@); }
            assert(parts.deep_view() =~~= model);
        }
        if alt {
            parts.push(chars_of("Alt"));
            proof { model = model.push("Alt"@); }
            assert(parts.deep_view() =~~= model);
        }
        if shift {
            parts.push(chars_of("Shift"));
            proof { model = model.push("Shift"@); }
            assert(parts.deep_view() =~~= model);
        }
        let mut key: Vec<char> = Vec::new();
        key.push(letter as char);
        parts.push(key);
        proof { model = model.push(seq![letter as char]); }
        assert(parts.deep_view() =~~= model);
        assert(model == hotkey_parts_spec(ctrl, alt, shift, letter as char));
        let joined = join_chars(&parts, '+');
        string_from_chars(&joined)
    }
}

/// The parts of a recorded hotkey.
pub open spec fn hotkey_parts_spec(ctrl: bool, alt: bool, shift: bool, letter: char) -> Seq<Seq<char>> {
    let a: Seq<Seq<char>> = if ctrl { seq!["Ctrl"@] } else { Seq::empty() };
    let b: Seq<Seq<char>> = if alt { a.push("Alt"@) } else { a };
    let c: Seq<Seq<char>> = if shift { b.push("Shift"@) } else { b };
    c.push(seq![letter])
}

/// A recorded hotkey as text, such as `Ctrl+Alt+D`.
pub open spec fn hotkey_combo_spec(ctrl: bool, alt: bool, shift: bool, letter: char) -> Seq<char> {
    join_with(hotkey_parts_spec(ctrl, alt, shift, letter), '+')
}

} // verus!
