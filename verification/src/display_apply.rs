//! Planning how a list of tasks is applied: which inventory row each task
//! addresses, which topology target that row is, the position, resolution
//! and rotation to activate, and the DDC request that follows.

use vstd::prelude::*;
use crate::text::{
    chars_eq, chars_of, chars_eq_str, parse_u32, parse_u32_spec, trim_chars, trim_spec,
};
use crate::scraper::{DisplayRow, DisplayTask, opt_chars};
use crate::display_snapshot::{match_display, match_display_spec};
use crate::ddc_control::{find_matching_device, first_matching_device};

verus! {

/// A quarter-turn rotation of a display.
#[derive(Debug, Clone, Copy, PartialEq, Eq)]
pub enum Rotation {
    Rotate90,
    Rotate180,
    Rotate270,
}

/// The rotation a direction names: `1`/`90`/`right`, `2`/`180`/`inverted`,
/// `3`/`270`/`left` (the task format documents the digits `1` to `3` for
/// quarter turns); anything else is no rotation.
pub open spec fn rotation_spec(direction: Option<Seq<char>>) -> Option<Rotation> {
    match direction {
        Some(d) => if d == "1"@ || d == "90"@ || d == "right"@ {
            Some(Rotation::Rotate90)
        } else if d == "2"@ || d == "180"@ || d == "inverted"@ {
            Some(Rotation::Rotate180)
        } else if d == "3"@ || d == "270"@ || d == "left"@ {
            Some(Rotation::Rotate270)
        } else {
            None
        },
        None => None,
    }
}

/// The rotation a direction names.
pub fn map_rotation(direction: &Option<String>) -> (r: Option<Rotation>)
    ensures
        r == rotation_spec(opt_chars(*direction)),
{
    match direction {
        Some(d) => {
            let v = chars_of(d.as_str());
            if chars_eq_str(&v, "1") || chars_eq_str(&v, "90") || chars_eq_str(&v, "right") {
                Some(Rotation::Rotate90)
            } else if chars_eq_str(&v, "2") || chars_eq_str(&v, "180") || chars_eq_str(&v, "inverted") {
                Some(Rotation::Rotate180)
            } else if chars_eq_str(&v, "3") || chars_eq_str(&v, "270") || chars_eq_str(&v, "left") {
                Some(Rotation::Rotate270)
            } else {
                None
            }
        },
        None => None,
    }
}

/// The identity of one output of the display topology.
#[derive(Debug, Clone)]
pub struct OutputIdentity {
    pub monitor_name: String,
    pub id: String,
    pub connector_id: String,
    pub hardware_uuid: Option<String>,
}

/// The target id of an output for a row: when the output's trimmed monitor
/// name is the row's device name, its numeric id, else its numeric connector
/// id; otherwise, when its hardware id is the row's (non-empty) serial, its
/// numeric id.
pub open spec fn output_target_spec(o: OutputIdentity, name_id: Seq<char>, serial: Seq<char>) -> Option<u32> {
    let name = trim_spec(o.monitor_name@);
    let by_name = if name.len() > 0 && name == name_id {
        match parse_u32_spec(o.id@) {
            Some(n) => Some(n),
            None => parse_u32_spec(o.connector_id@),
        }
    } else {
        None
    };
    match by_name {
        Some(n) => Some(n),
        None => match o.hardware_uuid {
            Some(h) => if h@ == serial && h@.len() > 0 {
                parse_u32_spec(o.id@)
            } else {
                None
            },
            None => None,
        },
    }
}

/// The target id of the first output that yields one for the row.
pub open spec fn resolve_target_spec(outputs: Seq<OutputIdentity>, name_id: Seq<char>, serial: Seq<char>) -> Option<u32>
    decreases outputs.len(),
{
    if outputs.len() == 0 {
        None
    } else {
        match output_target_spec(outputs[0], name_id, serial) {
            Some(n) => Some(n),
            None => resolve_target_spec(outputs.drop_first(), name_id, serial),
        }
    }
}

fn output_target(o: &OutputIdentity, name_id: &Vec<char>, serial: &Vec<char>) -> (r: Option<u32>)
    ensures
        r == output_target_spec(*o, name_id@, serial@),
{
    let raw = chars_of(o.monitor_name.as_str());
    let name = trim_chars(&raw);
    if name.len() > 0 && chars_eq(&name, name_id) {
        let id = chars_of(o.id.as_str());
        match parse_u32(&id) {
            Some(n) => {
                return Some(n);
            },
            None => {},
        }
        let conn = chars_of(o.connector_id.as_str());
        match parse_u32(&conn) {
            Some(n) => {
                return Some(n);
            },
            None => {},
        }
    }
    match &o.hardware_uuid {
        Some(h) => {
            let hw = chars_of(h.as_str());
            if chars_eq(&hw, serial) && hw.len() > 0 {
                let id = chars_of(o.id.as_str());
                parse_u32(&id)
            } else {
                None
            }
        },
        None => None,
    }
}

/// The topology target of a row: the first output that yields an id for it.
pub fn resolve_target_id(outputs: &Vec<OutputIdentity>, row: &DisplayRow) -> (r: Option<u32>)
    ensures
        r == resolve_target_spec(outputs@, row.name_id@, row.serial@),
{
    let name_id = chars_of(row.name_id.as_str());
    let serial = chars_of(row.serial.as_str());
    let mut i: usize = 0;
    assert(outputs@.skip(0) =~= outputs@);
    while i < outputs.len()
        invariant
            i <= outputs.len(),
            name_id@ == row.name_id@,
            serial@ == row.serial@,
            resolve_target_spec(outputs@, row.name_id@, row.serial@)
                == resolve_target_spec(outputs@.skip(i as int), row.name_id@, row.serial@),
        decreases outputs.len() - i,
    {
        let ghost rest = outputs@.skip(i as int);
        proof {
            assert(rest[0] == outputs@[i as int]);
            assert(rest.drop_first() =~= outputs@.skip(i + 1));
        }
        match output_target(&outputs[i], &name_id, &serial) {
            Some(n) => {
                return Some(n);
            },
            None => {},
        }
        i = i + 1;
    }
    None
}

/// The index of the first inventory row that answers a query.
pub open spec fn first_row_matching(inv: Seq<DisplayRow>, query: Seq<char>) -> Option<int>
    decreases inv.len(),
{
    if inv.len() == 0 {
        None
    } else {
        match first_row_matching(inv.drop_last(), query) {
            Some(i) => Some(i),
            None => if match_display_spec(inv.last(), query) {
                Some(inv.len() - 1)
            } else {
                None
            },
        }
    }
}

proof fn lemma_first_row_prefix(inv: Seq<DisplayRow>, query: Seq<char>, k: int)
    requires
        0 < k <= inv.len(),
        first_row_matching(inv.take(k), query) is Some,
    ensures
        first_row_matching(inv, query) == first_row_matching(inv.take(k), query),
    decreases inv.len() - k,
{
    if k == inv.len() {
        assert(inv.take(k) =~= inv);
    } else {
        assert(inv.drop_last().take(k) =~= inv.take(k));
        lemma_first_row_prefix(inv.drop_last(), query, k);
    }
}

pub proof fn lemma_first_row_bound(inv: Seq<DisplayRow>, query: Seq<char>)
    ensures
        first_row_matching(inv, query) matches Some(i) ==> 0 <= i < inv.len()
            && match_display_spec(inv[i], query),
    decreases inv.len(),
{
    if inv.len() > 0 {
        lemma_first_row_bound(inv.drop_last(), query);
        match first_row_matching(inv.drop_last(), query) {
            Some(i) => {
                assert(inv.drop_last()[i] == inv[i]);
            },
            None => {},
        }
    }
}

/// The first inventory row that answers a query (`Iterator::find`).
pub fn find_row(inv: &Vec<DisplayRow>, query: &str) -> (r: Option<usize>)
    ensures
        r matches Some(i) ==> first_row_matching(inv@, query@) == Some(i as int),
        r is None ==> first_row_matching(inv@, query@) is None,
{
    let mut i: usize = 0;
    while i < inv.len()
        invariant
            i <= inv.len(),
            first_row_matching(inv@.take(i as int), query@) is None,
        decreases inv.len() - i,
    {
        let ghost pre = inv@.take(i as int);
        let ghost pre1 = inv@.take(i + 1);
        proof {
            assert(pre1.drop_last() =~= pre);
            assert(pre1.last() == inv@[i as int]);
        }
        if match_display(&inv[i], query) {
            proof {
                assert(first_row_matching(pre1, query@) == Some(i as int));
                lemma_first_row_prefix(inv@, query@, i + 1);
            }
            return Some(i);
        }
        i = i + 1;
    }
    assert(inv@.take(i as int) =~= inv@);
    None
}

/// The animation directions that the tasks ask for, in order, leaving out `0`.
pub open spec fn animation_directions_spec(tasks: Seq<DisplayTask>) -> Seq<Seq<char>>
    decreases tasks.len(),
{
    if tasks.len() == 0 {
        Seq::empty()
    } else {
        let prev = animation_directions_spec(tasks.drop_last());
        match tasks.last().animation {
            Some(a) => if a@ != seq!['0'] { prev.push(a@) } else { prev },
            None => prev,
        }
    }
}

/// The animation directions that the tasks ask for.
pub fn animation_directions(tasks: &Vec<DisplayTask>) -> (r: Vec<String>)
    ensures
        r.deep_view() == animation_directions_spec(tasks@),
{
    let mut out: Vec<String> = Vec::new();
    let mut i: usize = 0;
    assert(out.deep_view() =~= Seq::<Seq<char>>::empty());
    while i < tasks.len()
        invariant
            i <= tasks.len(),
            out.deep_view() == animation_directions_spec(tasks@.take(i as int)),
        decreases tasks.len() - i,
    {
        let ghost pre = tasks@.take(i as int);
        let ghost pre1 = tasks@.take(i + 1);
        proof {
            assert(pre1.drop_last() =~= pre);
            assert(pre1.last() == tasks@[i as int]);
        }
        match &tasks[i].animation {
            Some(a) => {
                let v = chars_of(a.as_str());
                let zero = v.len() == 1 && v[0] == '0';
                proof {
                    if zero {
                        assert(a@ =~= seq!['0']);
                    } else if a@ == seq!['0'] {
                        assert(a@[0] == '0');
                    }
                }
                if !zero {
                    let ghost before = out.deep_view();
                    out.push(a.clone());
                    assert(out.deep_view() =~= before.push(a@));
                }
            },
            None => {},
        }
        i = i + 1;
    }
    assert(tasks@.take(i as int) =~= tasks@);
    out
}

/// A brightness/contrast request for the DDC device at `index`.
#[derive(Debug, Clone, Copy, PartialEq, Eq)]
pub struct DdcRequest {
    pub index: usize,
    pub brightness: Option<u32>,
    pub contrast: Option<u32>,
}

/// What applying one task does.
pub enum ApplyStep {
    /// Activate the target with this geometry, make it primary when asked,
    /// set its refresh rate when one is given, then send the DDC request.
    Activate {
        name_id: String,
        target_id: u32,
        x: i32,
        y: i32,
        width: u32,
        height: u32,
        rotation: Option<Rotation>,
        primary: bool,
        frequency: Option<u32>,
        ddc: Option<DdcRequest>,
    },
    /// The matching row has no topology target.
    NoTarget { name_id: String },
    /// No inventory row answers the task's query.
    NoMatch,
}

/// The DDC request for a task applied to a row: only when the task sets
/// brightness or contrast, and only when a device matches the row's name.
pub open spec fn ddc_request_spec(t: DisplayTask, row: DisplayRow, devices: Seq<Seq<char>>) -> Option<DdcRequest> {
    if t.brightness is Some || t.contrast is Some {
        match first_matching_device(devices, row.name_id@) {
            Some(idx) => Some(DdcRequest { index: idx, brightness: t.brightness, contrast: t.contrast }),
            None => None,
        }
    } else {
        None
    }
}

/// The step for a task: no match, no target, or an activation of the first
/// matching row's target at the task's position, size (as `u32`) and
/// rotation, primary when the task asks for it, at the task's refresh rate
/// when it is positive.
pub open spec fn step_spec(
    step: ApplyStep,
    t: DisplayTask,
    inv: Seq<DisplayRow>,
    outputs: Seq<OutputIdentity>,
    devices: Seq<Seq<char>>,
) -> bool {
    match first_row_matching(inv, t.query@) {
        None => step is NoMatch,
        Some(i) => {
            let row = inv[i];
            match resolve_target_spec(outputs, row.name_id@, row.serial@) {
                None => step matches ApplyStep::NoTarget { name_id } && name_id@ == row.name_id@,
                Some(id) => step matches ApplyStep::Activate {
                        name_id, target_id, x, y, width, height, rotation, primary, frequency, ddc }
                    && name_id@ == row.name_id@ && target_id == id && x == t.x && y == t.y
                    && width == t.width as u32 && height == t.height as u32
                    && rotation == rotation_spec(opt_chars(t.direction))
                    && primary == t.is_primary
                    && frequency == (if t.freq > 0 { Some(t.freq) } else { None })
                    && ddc == ddc_request_spec(t, row, devices),
            }
        },
    }
}

/// The plan for applying a list of tasks: the animation to start first, then
/// one step per task in order.
pub struct ApplyPlan {
    pub directions: Vec<String>,
    pub steps: Vec<ApplyStep>,
}

/// The step for one task.
pub fn plan_step(
    t: &DisplayTask,
    inv: &Vec<DisplayRow>,
    outputs: &Vec<OutputIdentity>,
    devices: &Vec<String>,
) -> (r: ApplyStep)
    ensures
        step_spec(r, *t, inv@, outputs@, devices.deep_view()),
{
    match find_row(inv, t.query.as_str()) {
        None => ApplyStep::NoMatch,
        Some(i) => {
            proof {
                lemma_first_row_bound(inv@, t.query@);
            }
            let row = &inv[i];
            match resolve_target_id(outputs, row) {
                None => ApplyStep::NoTarget { name_id: row.name_id.clone() },
                Some(id) => {
                    let ddc = if t.brightness.is_some() || t.contrast.is_some() {
                        match find_matching_device(devices, row.name_id.as_str()) {
                            Some(idx) => Some(DdcRequest { index: idx, brightness: t.brightness, contrast: t.contrast }),
                            None => None,
                        }
                    } else {
                        None
                    };
                    ApplyStep::Activate {
                        name_id: row.name_id.clone(),
                        target_id: id,
                        x: t.x,
                        y: t.y,
                        width: t.width as u32,
                        height: t.height as u32,
                        rotation: map_rotation(&t.direction),
                        primary: t.is_primary,
                        frequency: if t.freq > 0 { Some(t.freq) } else { None },
                        ddc,
                    }
                },
            }
        },
    }
}

/// The plan for applying the tasks against the given inventory, topology
/// outputs and DDC devices.
pub fn plan_apply(
    tasks: &Vec<DisplayTask>,
    inv: &Vec<DisplayRow>,
    outputs: &Vec<OutputIdentity>,
    devices: &Vec<String>,
) -> (r: ApplyPlan)
    ensures
        r.directions.deep_view() == animation_directions_spec(tasks@),
        r.steps@.len() == tasks@.len(),
        forall|i: int| 0 <= i < tasks@.len() ==> step_spec(#[trigger] r.steps@[i], tasks@[i], inv@, outputs@, devices.deep_view()),
{
    let directions = animation_directions(tasks);
    let mut steps: Vec<ApplyStep> = Vec::new();
    let mut i: usize = 0;
    while i < tasks.len()
        invariant
            i <= tasks.len(),
            steps@.len() == i,
            forall|j: int| 0 <= j < i ==> step_spec(#[trigger] steps@[j], tasks@[j], inv@, outputs@, devices.deep_view()),
        decreases tasks.len() - i,
    {
        let s = plan_step(&tasks[i], inv, outputs, devices);
        steps.push(s);
        i = i + 1;
    }
    ApplyPlan { directions, steps }
}

} // verus!
