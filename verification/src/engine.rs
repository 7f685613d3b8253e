//! Reading suites back from their registry text form and deciding how each
//! task is staged as a display mode.

use vstd::prelude::*;
use crate::text::{
    chars_of, chars_eq_str, split_chars, split_on, string_from_chars, lemma_split_len,
};
use crate::scraper::{DisplayTask, TaskModel, opt_chars, task_models};
use crate::cli::{parse_task, parse_task_spec};
use crate::text::{trim_char, trim_char_spec};
use crate::display_apply::{
    Rotation, map_rotation, rotation_spec, find_row, first_row_matching, animation_directions,
    animation_directions_spec,
};
use crate::text::chars_eq;
use crate::scraper::DisplayRow;

verus! {

/// The tasks that the task strings describe, skipping those that do not parse.
pub open spec fn parsed_tasks(items: Seq<Seq<char>>) -> Seq<TaskModel>
    decreases items.len(),
{
    if items.len() == 0 {
        Seq::empty()
    } else {
        let prev = parsed_tasks(items.drop_last());
        match parse_task_spec(items.last()) {
            Some(t) => prev.push(t),
            None => prev,
        }
    }
}

/// What the `;`-separated parts of a suite's text say: every `tasks|...`
/// part adds its comma-separated tasks, every `post|...` part sets the post
/// command (the last one counts); other parts, and parts without `|`, are
/// ignored.
pub open spec fn suite_parts_spec(parts: Seq<Seq<char>>) -> (Seq<TaskModel>, Option<Seq<char>>)
    decreases parts.len(),
{
    if parts.len() == 0 {
        (Seq::empty(), None)
    } else {
        let prev = suite_parts_spec(parts.drop_last());
        let kv = split_on(parts.last(), '|');
        if kv.len() < 2 {
            prev
        } else if kv[0] == "tasks"@ {
            (prev.0 + parsed_tasks(split_on(kv[1], ',')), prev.1)
        } else if kv[0] == "post"@ {
            (prev.0, Some(kv[1]))
        } else {
            prev
        }
    }
}

/// The tasks and the post command of a suite's registry text.
pub open spec fn parse_suite_config_spec(config: Seq<char>) -> (Seq<TaskModel>, Option<Seq<char>>) {
    suite_parts_spec(split_on(config, ';'))
}

/// Parses each task string, keeping those that parse.
pub fn parse_task_list(items: &Vec<Vec<char>>, out: &mut Vec<DisplayTask>)
    ensures
        task_models(final(out)@) == task_models(old(out)@) + parsed_tasks(items.deep_view()),
{
    let ghost start = task_models(out@);
    let mut i: usize = 0;
    while i < items.len()
        invariant
            i <= items.len(),
            task_models(out@) == start + parsed_tasks(items.deep_view().take(i as int)),
        decreases items.len() - i,
    {
        let ghost pre = items.deep_view().take(i as int);
        let ghost pre1 = items.deep_view().take(i + 1);
        proof {
            assert(pre1.drop_last() =~= pre);
            assert(pre1.last() =~= items@[i as int]@);
        }
        let text = string_from_chars(&items[i]);
        let ghost before = out@;
        match parse_task(text.as_str()) {
            Some(t) => {
                out.push(t);
                assert(task_models(out@) =~= task_models(before).push(t@));
            },
            None => {},
        }
        assert(task_models(out@) =~= start + parsed_tasks(pre1));
        i = i + 1;
    }
    assert(items.deep_view().take(i as int) =~= items.deep_view());
}

/// The tasks and post command of a suite, read from its registry text.
pub fn parse_suite_config(config: &str) -> (r: (Vec<DisplayTask>, Option<String>))
    ensures
        task_models(r.0@) == parse_suite_config_spec(config@).0,
        opt_chars(r.1) == parse_suite_config_spec(config@).1,
{
    let chars = chars_of(config);
    let parts = split_chars(&chars, ';');
    let ghost pv = parts.deep_view();
    let mut tasks: Vec<DisplayTask> = Vec::new();
    let mut post: Option<String> = None;
    let mut i: usize = 0;
    assert(task_models(tasks@) =~= Seq::<TaskModel>::empty());
    while i < parts.len()
        invariant
            i <= parts.len(),
            pv == parts.deep_view(),
            pv == split_on(config@, ';'),
            (task_models(tasks@), opt_chars(post)) == suite_parts_spec(pv.take(i as int)),
        decreases parts.len() - i,
    {
        let ghost pre = pv.take(i as int);
        let ghost pre1 = pv.take(i + 1);
        proof {
            assert(pre1.drop_last() =~= pre);
            assert(pre1.last() =~= parts@[i as int]@);
        }
        let kv = split_chars(&parts[i], '|');
        let ghost kvv = kv.deep_view();
        if kv.len() >= 2 {
            proof {
                assert(kvv[0] =~= kv@[0]@);
                assert(kvv[1] =~= kv@[1]@);
            }
            if chars_eq_str(&kv[0], "tasks") {
                let items = split_chars(&kv[1], ',');
                parse_task_list(&items, &mut tasks);
            } else if chars_eq_str(&kv[0], "post") {
                post = Some(string_from_chars(&kv[1]));
            }
        }
        i = i + 1;
    }
    assert(pv.take(i as int) =~= pv);
    (tasks, post)
}

/// What applying a saved suite does: the tasks to apply, and the command to
/// run afterwards (only when there are tasks).
pub struct SuiteRun {
    pub tasks: Vec<DisplayTask>,
    pub post_cmd: Option<String>,
}

/// The run of a suite read from its registry text.
pub fn suite_run_from_config(config: &str) -> (r: SuiteRun)
    ensures
        task_models(r.tasks@) == parse_suite_config_spec(config@).0,
        opt_chars(r.post_cmd) == (if parse_suite_config_spec(config@).0.len() > 0 {
            parse_suite_config_spec(config@).1
        } else {
            None
        }),
{
    let (tasks, post) = parse_suite_config(config);
    let post_cmd = if tasks.len() > 0 { post } else { None };
    SuiteRun { tasks, post_cmd }
}


// ---------------------------------------------------------------------------
// Staging display modes
// ---------------------------------------------------------------------------

/// The orientation written into a display mode.
#[derive(Debug, Clone, Copy, PartialEq, Eq)]
pub enum Orientation {
    Default,
    Rotate90,
    Rotate180,
    Rotate270,
}

/// The orientation for a rotation.
pub open spec fn orientation_spec(r: Option<Rotation>) -> Orientation {
    match r {
        Some(Rotation::Rotate90) => Orientation::Rotate90,
        Some(Rotation::Rotate180) => Orientation::Rotate180,
        Some(Rotation::Rotate270) => Orientation::Rotate270,
        None => Orientation::Default,
    }
}

/// The display mode staged for a task.
///
/// When `detach` is set the display is switched off: only the zero size and
/// the position are written, and orientation and frequency are left out.
#[derive(Debug, Clone, Copy, PartialEq, Eq)]
pub struct StagedMode {
    pub width: u32,
    pub height: u32,
    pub x: i32,
    pub y: i32,
    pub orientation: Orientation,
    pub frequency: Option<u32>,
    pub set_primary: bool,
    pub detach: bool,
}

/// The mode staged for a task: width and height swapped for a quarter turn,
/// the frequency only when it is positive, and a detach for a 0x0 size.
pub open spec fn stage_mode_spec(t: TaskModel) -> StagedMode {
    let o = orientation_spec(rotation_spec(t.direction));
    let turned = o == Orientation::Rotate90 || o == Orientation::Rotate270;
    let detach = t.width == 0 && t.height == 0;
    StagedMode {
        width: if detach { 0 } else if turned { t.height as u32 } else { t.width as u32 },
        height: if detach { 0 } else if turned { t.width as u32 } else { t.height as u32 },
        x: t.x,
        y: t.y,
        orientation: o,
        frequency: if t.freq > 0 { Some(t.freq) } else { None },
        set_primary: t.is_primary,
        detach: detach,
    }
}

/// The mode staged for a task.
pub fn stage_mode(t: &DisplayTask) -> (m: StagedMode)
    ensures
        m == stage_mode_spec(t@),
{
    let o = match map_rotation(&t.direction) {
        Some(Rotation::Rotate90) => Orientation::Rotate90,
        Some(Rotation::Rotate180) => Orientation::Rotate180,
        Some(Rotation::Rotate270) => Orientation::Rotate270,
        None => Orientation::Default,
    };
    let turned = match o {
        Orientation::Rotate90 => true,
        Orientation::Rotate270 => true,
        _ => false,
    };
    let (w, h) = if turned { (t.height, t.width) } else { (t.width, t.height) };
    let detach = t.width == 0 && t.height == 0;
    StagedMode {
        width: if detach { 0 } else { w as u32 },
        height: if detach { 0 } else { h as u32 },
        x: t.x,
        y: t.y,
        orientation: o,
        frequency: if t.freq > 0 { Some(t.freq) } else { None },
        set_primary: t.is_primary,
        detach,
    }
}

/// The sizes tried, in order, to wake an inactive display for scanning.
pub fn fallback_modes() -> (r: Vec<(u32, u32)>)
    ensures
        r@ == seq![(1920u32, 1080u32), (1280u32, 720u32)],
{
    let mut v: Vec<(u32, u32)> = Vec::new();
    v.push((1920, 1080));
    v.push((1280, 720));
    assert(v@ =~= seq![(1920u32, 1080u32), (1280u32, 720u32)]);
    v
}

// ---------------------------------------------------------------------------
// Ordering and planning an engine run
// ---------------------------------------------------------------------------

/// The tasks with `is_primary` set, in order.
pub open spec fn primary_tasks(tasks: Seq<TaskModel>) -> Seq<TaskModel>
    decreases tasks.len(),
{
    if tasks.len() == 0 {
        Seq::empty()
    } else if tasks.last().is_primary {
        primary_tasks(tasks.drop_last()).push(tasks.last())
    } else {
        primary_tasks(tasks.drop_last())
    }
}

/// The tasks without `is_primary`, in order.
pub open spec fn secondary_tasks(tasks: Seq<TaskModel>) -> Seq<TaskModel>
    decreases tasks.len(),
{
    if tasks.len() == 0 {
        Seq::empty()
    } else if !tasks.last().is_primary {
        secondary_tasks(tasks.drop_last()).push(tasks.last())
    } else {
        secondary_tasks(tasks.drop_last())
    }
}

impl DisplayTask {
    /// The same task as a separate value.
    pub fn duplicate(&self) -> (r: DisplayTask)
        ensures
            r@ == self@,
    {
        DisplayTask {
            query: self.query.clone(),
            width: self.width,
            height: self.height,
            x: self.x,
            y: self.y,
            is_primary: self.is_primary,
            direction: match &self.direction {
                Some(d) => Some(d.clone()),
                None => None,
            },
            freq: self.freq,
            brightness: self.brightness,
            contrast: self.contrast,
            animation: match &self.animation {
                Some(a) => Some(a.clone()),
                None => None,
            },
        }
    }
}

/// The tasks with the primary display's first, each group in its given
/// order (a stable sort on "not primary").
pub fn primary_first(tasks: &Vec<DisplayTask>) -> (r: Vec<DisplayTask>)
    ensures
        task_models(r@) == primary_tasks(task_models(tasks@)) + secondary_tasks(task_models(tasks@)),
{
    let ghost all = task_models(tasks@);
    let mut firsts: Vec<DisplayTask> = Vec::new();
    let mut rest: Vec<DisplayTask> = Vec::new();
    let mut i: usize = 0;
    assert(task_models(firsts@) =~= Seq::<TaskModel>::empty());
    assert(task_models(rest@) =~= Seq::<TaskModel>::empty());
    while i < tasks.len()
        invariant
            i <= tasks.len(),
            all == task_models(tasks@),
            task_models(firsts@) == primary_tasks(all.take(i as int)),
            task_models(rest@) == secondary_tasks(all.take(i as int)),
        decreases tasks.len() - i,
    {
        proof {
            assert(all.take(i + 1).drop_last() =~= all.take(i as int));
            assert(all.take(i + 1).last() == tasks@[i as int]@);
        }
        let t = tasks[i].duplicate();
        if t.is_primary {
            let ghost before = firsts@;
            firsts.push(t);
            assert(task_models(firsts@) =~= task_models(before).push(tasks@[i as int]@));
        } else {
            let ghost before = rest@;
            rest.push(t);
            assert(task_models(rest@) =~= task_models(before).push(tasks@[i as int]@));
        }
        i = i + 1;
    }
    assert(all.take(i as int) =~= all);
    let ghost f = task_models(firsts@);
    let ghost r = task_models(rest@);
    let mut j: usize = 0;
    assert(f + r.take(0) =~= f);
    while j < rest.len()
        invariant
            j <= rest.len(),
            r == task_models(rest@),
            task_models(firsts@) == f + r.take(j as int),
        decreases rest.len() - j,
    {
        let t = rest[j].duplicate();
        let ghost before = task_models(firsts@);
        firsts.push(t);
        assert(task_models(firsts@) =~= before.push(r[j as int]));
        j = j + 1;
        assert(f + r.take(j as int) =~= (f + r.take(j - 1)).push(r[j - 1]));
    }
    assert(r.take(j as int) =~= r);
    firsts
}


/// One display device as the snapshot saw it: its name as decoded from the
/// system (possibly padded with NULs) and whether it was on the desktop.
#[derive(Debug, Clone)]
pub struct SnapshotEntry {
    pub name: String,
    pub active: bool,
}

/// Whether the display named `name` was off when the snapshot was taken:
/// the first entry whose name, without NUL padding, is `name` decides;
/// a display the snapshot does not know counts as on.
pub open spec fn was_inactive_spec(snapshot: Seq<SnapshotEntry>, name: Seq<char>) -> bool
    decreases snapshot.len(),
{
    if snapshot.len() == 0 {
        false
    } else if trim_char_spec(snapshot[0].name@, '\0') == name {
        !snapshot[0].active
    } else {
        was_inactive_spec(snapshot.drop_first(), name)
    }
}

/// Whether the display named `name` was off when the snapshot was taken.
pub fn was_inactive(snapshot: &Vec<SnapshotEntry>, name: &str) -> (r: bool)
    ensures
        r == was_inactive_spec(snapshot@, name@),
{
    let target = chars_of(name);
    let mut i: usize = 0;
    assert(snapshot@.skip(0) =~= snapshot@);
    while i < snapshot.len()
        invariant
            i <= snapshot.len(),
            target@ == name@,
            was_inactive_spec(snapshot@, name@) == was_inactive_spec(snapshot@.skip(i as int), name@),
        decreases snapshot.len() - i,
    {
        let ghost rest = snapshot@.skip(i as int);
        proof {
            assert(rest[0] == snapshot@[i as int]);
            assert(rest.drop_first() =~= snapshot@.skip(i + 1));
        }
        let raw = chars_of(snapshot[i].name.as_str());
        let trimmed = trim_char(&raw, '\0');
        if chars_eq(&trimmed, &target) {
            return !snapshot[i].active;
        }
        i = i + 1;
    }
    false
}

/// The DDC request that follows staging a mode: after a pause when the
/// display was off.
#[derive(Debug, Clone, Copy, PartialEq, Eq)]
pub struct EngineDdc {
    pub brightness: Option<u32>,
    pub contrast: Option<u32>,
    pub delay: bool,
}

/// Staging one task: the device to change, the mode, and the DDC request
/// to send once the mode is staged.
pub struct EngineStep {
    pub name_id: String,
    pub mode: StagedMode,
    pub ddc: Option<EngineDdc>,
}

/// The content of an [`EngineStep`].
pub struct EngineStepModel {
    pub name_id: Seq<char>,
    pub mode: StagedMode,
    pub ddc: Option<EngineDdc>,
}

impl View for EngineStep {
    type V = EngineStepModel;

    open spec fn view(&self) -> EngineStepModel {
        EngineStepModel { name_id: self.name_id@, mode: self.mode, ddc: self.ddc }
    }
}

/// The step for a task, when an inventory row answers its query.
pub open spec fn engine_step_spec(t: TaskModel, inv: Seq<DisplayRow>, snapshot: Seq<SnapshotEntry>) -> Option<EngineStepModel> {
    match first_row_matching(inv, t.query) {
        None => None,
        Some(i) => Some(EngineStepModel {
            name_id: inv[i].name_id@,
            mode: stage_mode_spec(t),
            ddc: if t.brightness is Some || t.contrast is Some {
                Some(EngineDdc {
                    brightness: t.brightness,
                    contrast: t.contrast,
                    delay: was_inactive_spec(snapshot, inv[i].name_id@),
                })
            } else {
                None
            },
        }),
    }
}

/// The steps for the tasks, in order, leaving out tasks that no row answers.
pub open spec fn engine_steps_spec(tasks: Seq<TaskModel>, inv: Seq<DisplayRow>, snapshot: Seq<SnapshotEntry>) -> Seq<EngineStepModel>
    decreases tasks.len(),
{
    if tasks.len() == 0 {
        Seq::empty()
    } else {
        let prev = engine_steps_spec(tasks.drop_last(), inv, snapshot);
        match engine_step_spec(tasks.last(), inv, snapshot) {
            Some(s) => prev.push(s),
            None => prev,
        }
    }
}

/// An engine run: the animation to start first, then the steps.
pub struct EnginePlan {
    pub directions: Vec<String>,
    pub steps: Vec<EngineStep>,
}

/// The models of a list of steps.
pub open spec fn step_models(steps: Seq<EngineStep>) -> Seq<EngineStepModel> {
    steps.map_values(|s: EngineStep| s@)
}

/// The run for the tasks against the inventory and snapshot: the primary
/// display's tasks first, each staged with its mode and DDC request.
pub fn plan_engine_apply(
    tasks: &Vec<DisplayTask>,
    inv: &Vec<DisplayRow>,
    snapshot: &Vec<SnapshotEntry>,
) -> (r: EnginePlan)
    ensures
        r.directions.deep_view() == crate::display_apply::animation_directions_spec(tasks@),
        step_models(r.steps@) == engine_steps_spec(
            primary_tasks(task_models(tasks@)) + secondary_tasks(task_models(tasks@)),
            inv@,
            snapshot@,
        ),
{
    let directions = animation_directions(tasks);
    let sorted = primary_first(tasks);
    let ghost order = task_models(sorted@);
    let mut steps: Vec<EngineStep> = Vec::new();
    let mut i: usize = 0;
    assert(step_models(steps@) =~= Seq::<EngineStepModel>::empty());
    while i < sorted.len()
        invariant
            i <= sorted.len(),
            order == task_models(sorted@),
            step_models(steps@) == engine_steps_spec(order.take(i as int), inv@, snapshot@),
        decreases sorted.len() - i,
    {
        let t = &sorted[i];
        proof {
            assert(order.take(i + 1).drop_last() =~= order.take(i as int));
            assert(order.take(i + 1).last() == t@);
        }
        match find_row(inv, t.query.as_str()) {
            Some(k) => {
                proof {
                    crate::display_apply::lemma_first_row_bound(inv@, t.query@);
                }
                let row = &inv[k];
                let ddc = if t.brightness.is_some() || t.contrast.is_some() {
                    Some(EngineDdc {
                        brightness: t.brightness,
                        contrast: t.contrast,
                        delay: was_inactive(snapshot, row.name_id.as_str()),
                    })
                } else {
                    None
                };
                let step = EngineStep { name_id: row.name_id.clone(), mode: stage_mode(t), ddc };
                let ghost before = step_models(steps@);
                steps.push(step);
                assert(step_models(steps@) =~= before.push(step@));
            },
            None => {},
        }
        i = i + 1;
    }
    assert(order.take(i as int) =~= order);
    EnginePlan { directions, steps }
}

/// A DDC request for the monitor with handle `h_monitor`, after a pause when
/// `delay` is set.
#[derive(Debug, Clone, Copy, PartialEq, Eq)]
pub struct MonitorDdc {
    pub h_monitor: isize,
    pub brightness: Option<u32>,
    pub contrast: Option<u32>,
    pub delay: bool,
}

/// The handle of the first monitor whose device name is `name`.
pub open spec fn monitor_named(monitors: Seq<(isize, Seq<char>)>, name: Seq<char>) -> Option<isize>
    decreases monitors.len(),
{
    if monitors.len() == 0 {
        None
    } else if monitors[0].1 == name {
        Some(monitors[0].0)
    } else {
        monitor_named(monitors.drop_first(), name)
    }
}

/// Monitors as handles with their device names as text.
pub open spec fn monitor_view(monitors: Seq<(isize, String)>) -> Seq<(isize, Seq<char>)> {
    monitors.map_values(|m: (isize, String)| (m.0, m.1@))
}

/// The DDC request sent after staging a step: only when the stage succeeded,
/// the step carries a DDC request, and a monitor whose device name is the
/// display's name exists; it goes to that monitor.
pub open spec fn engine_followup_spec(step: EngineStepModel, staged: bool, monitors: Seq<(isize, Seq<char>)>) -> Option<MonitorDdc> {
    if staged {
        match step.ddc {
            Some(d) => match monitor_named(monitors, step.name_id) {
                Some(h) => Some(MonitorDdc { h_monitor: h, brightness: d.brightness, contrast: d.contrast, delay: d.delay }),
                None => None,
            },
            None => None,
        }
    } else {
        None
    }
}

/// The handle of the first monitor whose device name is `name`.
pub fn find_monitor_by_name(monitors: &Vec<(isize, String)>, name: &str) -> (r: Option<isize>)
    ensures
        r == monitor_named(monitor_view(monitors@), name@),
{
    let ghost v = monitor_view(monitors@);
    let target = chars_of(name);
    let mut j: usize = 0;
    assert(v.skip(0) =~= v);
    while j < monitors.len()
        invariant
            j <= monitors.len(),
            v == monitor_view(monitors@),
            target@ == name@,
            monitor_named(v, name@) == monitor_named(v.skip(j as int), name@),
        decreases monitors.len() - j,
    {
        let ghost rest = v.skip(j as int);
        proof {
            assert(rest[0] == (monitors@[j as int].0, monitors@[j as int].1@));
            assert(rest.drop_first() =~= v.skip(j + 1));
        }
        let n = chars_of(monitors[j].1.as_str());
        if chars_eq(&n, &target) {
            return Some(monitors[j].0);
        }
        j = j + 1;
    }
    None
}

/// The DDC request to send after staging a step.
pub fn engine_followup(step: &EngineStep, staged: bool, monitors: &Vec<(isize, String)>) -> (r: Option<MonitorDdc>)
    ensures
        r == engine_followup_spec(step@, staged, monitor_view(monitors@)),
{
    if !staged {
        return None;
    }
    match step.ddc {
        Some(d) => match find_monitor_by_name(monitors, step.name_id.as_str()) {
            Some(h) => Some(MonitorDdc { h_monitor: h, brightness: d.brightness, contrast: d.contrast, delay: d.delay }),
            None => None,
        },
        None => None,
    }
}

/// Whether the staged modes are committed: exactly when some stage succeeded.
pub fn should_commit(staged: &Vec<bool>) -> (r: bool)
    ensures
        r == (exists|i: int| 0 <= i < staged@.len() && #[trigger] staged@[i]),
{
    let mut i: usize = 0;
    while i < staged.len()
        invariant
            i <= staged.len(),
            forall|j: int| 0 <= j < i ==> !#[trigger] staged@[j],
        decreases staged.len() - i,
    {
        if staged[i] {
            return true;
        }
        i = i + 1;
    }
    false
}

/// How a saved display mode is written back.
#[derive(Debug, Clone, Copy, PartialEq, Eq)]
pub struct RestoreMode {
    /// Write a zero size (with size and position flagged), switching the display off.
    pub detach: bool,
    /// Flag the orientation as well as size and position.
    pub orientation: bool,
}

/// A display that was off is detached again; one that was on gets its size,
/// position and orientation back.
pub fn restore_mode(was_active: bool) -> (r: RestoreMode)
    ensures
        r.detach == !was_active,
        r.orientation == was_active,
{
    RestoreMode { detach: !was_active, orientation: was_active }
}

/// How each device of a snapshot is written back, in the snapshot's order:
/// the displays that were off (and were switched on only for scanning) are
/// detached again, the others get their size, position and orientation back.
/// All writes are staged and then committed once.
pub fn restore_modes(was_active: &Vec<bool>) -> (r: Vec<RestoreMode>)
    ensures
        r@.len() == was_active@.len(),
        forall|i: int| 0 <= i < was_active@.len() ==> (#[trigger] r@[i]).detach == !was_active@[i]
            && r@[i].orientation == was_active@[i],
{
    let mut out: Vec<RestoreMode> = Vec::new();
    let mut i: usize = 0;
    while i < was_active.len()
        invariant
            i <= was_active.len(),
            out@.len() == i,
            forall|j: int| 0 <= j < i ==> (#[trigger] out@[j]).detach == !was_active@[j]
                && out@[j].orientation == was_active@[j],
        decreases was_active.len() - i,
    {
        out.push(restore_mode(was_active[i]));
        i = i + 1;
    }
    out
}

} // verus!
