//! Command-line arguments, the task string format
//! `ID:W:H:X:Y:Primary:Rot:Freq:Bright:Cont:Animation`, and the choice of
//! what a run does.

use vstd::prelude::*;
use crate::text::{
    chars_of, chars_eq_str, parse_i32, parse_i32_spec, parse_u32, parse_u32_spec, split_chars,
    split_on, string_from_chars, lemma_split_len,
};
use crate::scraper::{DisplayTask, TaskModel, opt_task, task_models};

verus! {

/// The program's arguments.
#[derive(Debug, Clone, Default)]
pub struct Cli {
    /// Suppress console output.
    pub silent: bool,
    /// Record a hotkey when saving a suite.
    pub hotkey: bool,
    /// Scan and list the connected displays.
    pub scan: bool,
    /// Run the background hotkey listener.
    pub daemon: bool,
    /// Create a desktop shortcut for the suite.
    pub linkdesktop: Option<String>,
    /// Displays to clone settings between.
    pub clone: Vec<String>,
    /// Save the current or given setup under this suite name.
    pub save: Option<String>,
    /// Command to run after applying a suite.
    pub post: Option<String>,
    /// Apply the saved suite with this name.
    pub apply_suite: Option<String>,
    /// Task strings.
    pub tasks: Vec<String>,
    /// Animation direction for every task.
    pub animation: Option<String>,
}

/// The `i`-th field, if there is one (`slice::get`).
pub open spec fn field_at(p: Seq<Seq<char>>, i: int) -> Option<Seq<char>> {
    if 0 <= i < p.len() {
        Some(p[i])
    } else {
        None
    }
}

/// A text field where `0` stands for "none".
pub open spec fn unless_zero(o: Option<Seq<char>>) -> Option<Seq<char>> {
    match o {
        Some(s) => if s == seq!['0'] { None } else { Some(s) },
        None => None,
    }
}

/// A percentage field: its value when it parses to at most 100, else none
/// (text that does not parse counts as 999).
pub open spec fn percent_of(o: Option<Seq<char>>) -> Option<u32> {
    match o {
        Some(s) => {
            let v: u32 = match parse_u32_spec(s) {
                Some(v) => v,
                None => 999,
            };
            if v <= 100 { Some(v) } else { None }
        },
        None => None,
    }
}

/// A refresh-rate field: its value when it parses, else 0.
pub open spec fn freq_of(o: Option<Seq<char>>) -> u32 {
    match o {
        Some(s) => match parse_u32_spec(s) {
            Some(v) => v,
            None => 0,
        },
        None => 0,
    }
}

/// The task that a task string describes: at least five `:`-separated
/// fields, of which the second to fifth are `i32` numbers; the rest are
/// optional.
pub open spec fn parse_task_spec(raw: Seq<char>) -> Option<TaskModel> {
    let p = split_on(raw, ':');
    if p.len() < 5 {
        None
    } else {
        match (parse_i32_spec(p[1]), parse_i32_spec(p[2]), parse_i32_spec(p[3]), parse_i32_spec(p[4])) {
            (Some(w), Some(h), Some(x), Some(y)) => Some(TaskModel {
                query: p[0],
                width: w,
                height: h,
                x: x,
                y: y,
                is_primary: field_at(p, 5) == Some(seq!['1']),
                direction: unless_zero(field_at(p, 6)),
                freq: freq_of(field_at(p, 7)),
                brightness: percent_of(field_at(p, 8)),
                contrast: percent_of(field_at(p, 9)),
                animation: unless_zero(field_at(p, 10)),
            }),
            _ => None,
        }
    }
}

fn field_text_unless_zero(p: &Vec<Vec<char>>, i: usize) -> (r: Option<String>)
    ensures
        match r {
            Some(s) => unless_zero(field_at(p.deep_view(), i as int)) == Some(s@),
            None => unless_zero(field_at(p.deep_view(), i as int)) is None,
        },
{
    if i < p.len() {
        assert(p.deep_view()[i as int] =~= p@[i as int]@);
        let f = &p[i];
        if f.len() == 1 && f[0] == '0' {
            assert(f@ =~= seq!['0']);
            None
        } else {
            assert(f@ != seq!['0']) by {
                if f@ == seq!['0'] {
                    assert(f@.len() == 1);
                    assert(f@[0] == '0');
                }
            }
            Some(string_from_chars(f))
        }
    } else {
        None
    }
}

fn field_percent(p: &Vec<Vec<char>>, i: usize) -> (r: Option<u32>)
    ensures
        r == percent_of(field_at(p.deep_view(), i as int)),
{
    if i < p.len() {
        assert(p.deep_view()[i as int] =~= p@[i as int]@);
        let v: u32 = match parse_u32(&p[i]) {
            Some(v) => v,
            None => 999,
        };
        if v <= 100 { Some(v) } else { None }
    } else {
        None
    }
}

/// Parses a task string `ID:W:H:X:Y[:Primary[:Rot[:Freq[:Bright[:Cont[:Animation]]]]]]`.
pub fn parse_task(raw: &str) -> (r: Option<DisplayTask>)
    ensures
        opt_task(r) == parse_task_spec(raw@),
{
    let chars = chars_of(raw);
    let p = split_chars(&chars, ':');
    let ghost pv = p.deep_view();
    assert(pv == split_on(raw@, ':'));
    if p.len() < 5 {
        return None;
    }
    proof {
        assert(pv[0] =~= p@[0]@);
        assert(pv[1] =~= p@[1]@);
        assert(pv[2] =~= p@[2]@);
        assert(pv[3] =~= p@[3]@);
        assert(pv[4] =~= p@[4]@);
    }
    let width = match parse_i32(&p[1]) {
        Some(v) => v,
        None => return None,
    };
    let height = match parse_i32(&p[2]) {
        Some(v) => v,
        None => return None,
    };
    let x = match parse_i32(&p[3]) {
        Some(v) => v,
        None => return None,
    };
    let y = match parse_i32(&p[4]) {
        Some(v) => v,
        None => return None,
    };
    let is_primary = if p.len() > 5 {
        assert(pv[5] =~= p@[5]@);
        let f = &p[5];
        let one = f.len() == 1 && f[0] == '1';
        proof {
            if one {
                assert(f@ =~= seq!['1']);
            } else if f@ == seq!['1'] {
                assert(f@.len() == 1 && f@[0] == '1');
            }
        }
        one
    } else {
        false
    };
    let freq: u32 = if p.len() > 7 {
        assert(pv[7] =~= p@[7]@);
        match parse_u32(&p[7]) {
            Some(v) => v,
            None => 0,
        }
    } else {
        0
    };
    Some(DisplayTask {
        query: string_from_chars(&p[0]),
        width,
        height,
        x,
        y,
        is_primary,
        direction: field_text_unless_zero(&p, 6),
        freq,
        brightness: field_percent(&p, 8),
        contrast: field_percent(&p, 9),
        animation: field_text_unless_zero(&p, 10),
    })
}

/// A task with its animation replaced by `animation`, when one is given.
pub open spec fn with_animation(t: TaskModel, animation: Option<Seq<char>>) -> TaskModel {
    match animation {
        Some(a) => TaskModel { animation: Some(a), ..t },
        None => t,
    }
}

/// The tasks that the task strings describe, in order, skipping the strings
/// that do not parse, each with the global animation applied.
pub open spec fn tasks_from_args_spec(args: Seq<Seq<char>>, animation: Option<Seq<char>>) -> Seq<TaskModel>
    decreases args.len(),
{
    if args.len() == 0 {
        Seq::empty()
    } else {
        let prev = tasks_from_args_spec(args.drop_last(), animation);
        match parse_task_spec(args.last()) {
            Some(t) => prev.push(with_animation(t, animation)),
            None => prev,
        }
    }
}

/// The tasks given on the command line, with the global animation applied.
pub fn tasks_from_args(args: &Vec<String>, animation: &Option<String>) -> (r: Vec<DisplayTask>)
    ensures
        task_models(r@) == tasks_from_args_spec(args.deep_view(), crate::scraper::opt_chars(*animation)),
{
    let ghost anim = crate::scraper::opt_chars(*animation);
    let mut out: Vec<DisplayTask> = Vec::new();
    let mut i: usize = 0;
    while i < args.len()
        invariant
            i <= args.len(),
            anim == crate::scraper::opt_chars(*animation),
            task_models(out@) == tasks_from_args_spec(args.deep_view().take(i as int), anim),
        decreases args.len() - i,
    {
        let ghost pre = args.deep_view().take(i as int);
        let ghost pre1 = args.deep_view().take(i + 1);
        proof {
            assert(pre1.drop_last() =~= pre);
            assert(pre1.last() == args@[i as int]@);
        }
        let parsed = parse_task(args[i].as_str());
        let ghost before = out@;
        match parsed {
            Some(t) => {
                let mut t = t;
                match animation {
                    Some(a) => {
                        t.animation = Some(a.clone());
                    },
                    None => {},
                }
                out.push(t);
                proof {
                    assert(task_models(out@) =~= task_models(before).push(t@));
                }
            },
            None => {},
        }
        i = i + 1;
    }
    assert(args.deep_view().take(i as int) =~= args.deep_view());
    out
}

/// What a run of the program does, decided from its arguments.
pub enum RunPlan {
    /// List the displays and the saved suites.
    Scan,
    /// Run the background hotkey listener.
    Daemon,
    /// Apply the saved suite of this name.
    ApplySuite { name: String, silent: bool },
    /// Save the tasks (or, when there are none, the scanned layout) as a suite.
    Save {
        name: String,
        tasks: Vec<DisplayTask>,
        from_inventory: bool,
        record_hotkey: bool,
        post: Option<String>,
        create_link: bool,
    },
    /// Apply the given tasks at once.
    Apply { tasks: Vec<DisplayTask> },
    /// Nothing to do.
    Nothing,
}

/// The run that the arguments ask for: a scan first, then the daemon, then
/// applying a suite, then saving, then applying the given tasks.
pub fn plan_run(cli: &Cli) -> (r: RunPlan)
    ensures
        cli.scan ==> r is Scan,
        !cli.scan && cli.daemon ==> r is Daemon,
        !cli.scan && !cli.daemon && cli.apply_suite is Some ==> (r matches RunPlan::ApplySuite { name, silent }
            && name@ == cli.apply_suite->0@ && silent == cli.silent),
        !cli.scan && !cli.daemon && cli.apply_suite is None && cli.save is Some ==> (r matches RunPlan::Save {
            name, tasks, from_inventory, record_hotkey, post, create_link }
            && name@ == cli.save->0@
            && task_models(tasks@) == tasks_from_args_spec(cli.tasks.deep_view(), crate::scraper::opt_chars(cli.animation))
            && from_inventory == (tasks@.len() == 0)
            && record_hotkey == cli.hotkey
            && crate::scraper::opt_chars(post) == crate::scraper::opt_chars(cli.post)
            && create_link == (cli.linkdesktop is Some)),
        !cli.scan && !cli.daemon && cli.apply_suite is None && cli.save is None ==> ({
            let tasks = tasks_from_args_spec(cli.tasks.deep_view(), crate::scraper::opt_chars(cli.animation));
            if tasks.len() > 0 {
                r matches RunPlan::Apply { tasks: t } && task_models(t@) == tasks
            } else {
                r is Nothing
            }
        }),
{
    if cli.scan {
        return RunPlan::Scan;
    }
    if cli.daemon {
        return RunPlan::Daemon;
    }
    match &cli.apply_suite {
        Some(name) => {
            return RunPlan::ApplySuite { name: name.clone(), silent: cli.silent };
        },
        None => {},
    }
    let tasks = tasks_from_args(&cli.tasks, &cli.animation);
    match &cli.save {
        Some(name) => {
            let from_inventory = tasks.len() == 0;
            let post = match &cli.post {
                Some(p) => Some(p.clone()),
                None => None,
            };
            RunPlan::Save {
                name: name.clone(),
                tasks,
                from_inventory,
                record_hotkey: cli.hotkey,
                post,
                create_link: cli.linkdesktop.is_some(),
            }
        },
        None => {
            if tasks.len() > 0 {
                RunPlan::Apply { tasks }
            } else {
                RunPlan::Nothing
            }
        },
    }
}

} // verus!
