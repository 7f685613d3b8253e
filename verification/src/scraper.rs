//! The display inventory row and the display task, the two records that the
//! scanner produces and the appliers consume.

pub mod ddc;
pub mod scan;
pub mod synth;

use vstd::prelude::*;
use crate::text::{
    chars_of, nat_decimal, nth_field, parse_i32, parse_i32_spec, parse_u32, parse_u32_spec,
    push_decimal, remove_pair, remove_pair_chars, split_chars, split_on, string_from_chars,
    trim_chars, trim_spec, lemma_split_len,
};
use crate::scraper::ddc::DdcCaps;

verus! {

/// One monitor as the inventory reports it.
///
/// The DPI scale is held as a whole percentage (`100` for 96 DPI).
#[derive(Debug, Clone, Default)]
pub struct DisplayRow {
    pub source: String,
    pub name_id: String,
    pub resolution: String,
    pub freq: String,
    pub dpi: String,
    pub scale_percent: u32,
    pub position_instance: String,
    pub active: String,
    pub primary: String,
    pub serial: String,
    pub size_mm: String,
    pub persistent_id: u32,
    pub x: i32,
    pub y: i32,
    pub is_primary: bool,
    pub ddc: Option<DdcCaps>,
}

/// A requested configuration for one monitor.
#[derive(Debug, Clone)]
pub struct DisplayTask {
    pub query: String,
    pub width: i32,
    pub height: i32,
    pub x: i32,
    pub y: i32,
    pub is_primary: bool,
    pub direction: Option<String>,
    pub freq: u32,
    pub brightness: Option<u32>,
    pub contrast: Option<u32>,
    pub animation: Option<String>,
}

/// The mathematical content of a [`DisplayTask`].
pub struct TaskModel {
    pub query: Seq<char>,
    pub width: i32,
    pub height: i32,
    pub x: i32,
    pub y: i32,
    pub is_primary: bool,
    pub direction: Option<Seq<char>>,
    pub freq: u32,
    pub brightness: Option<u32>,
    pub contrast: Option<u32>,
    pub animation: Option<Seq<char>>,
}

/// The characters of an optional string.
pub open spec fn opt_chars(o: Option<String>) -> Option<Seq<char>> {
    match o {
        Some(s) => Some(s@),
        None => None,
    }
}

impl View for DisplayTask {
    type V = TaskModel;

    open spec fn view(&self) -> TaskModel {
        TaskModel {
            query: self.query@,
            width: self.width,
            height: self.height,
            x: self.x,
            y: self.y,
            is_primary: self.is_primary,
            direction: opt_chars(self.direction),
            freq: self.freq,
            brightness: self.brightness,
            contrast: self.contrast,
            animation: opt_chars(self.animation),
        }
    }
}

/// The model of an optional task.
pub open spec fn opt_task(o: Option<DisplayTask>) -> Option<TaskModel> {
    match o {
        Some(t) => Some(t@),
        None => None,
    }
}

/// The models of a list of tasks.
pub open spec fn task_models(tasks: Seq<DisplayTask>) -> Seq<TaskModel> {
    tasks.map_values(|t: DisplayTask| t@)
}

/// A number parsed as `i32`, or `0` when it does not parse.
pub open spec fn i32_or_zero(s: Seq<char>) -> i32 {
    match parse_i32_spec(s) {
        Some(v) => v,
        None => 0,
    }
}

/// A number parsed as `u32`, or `0` when it does not parse.
pub open spec fn u32_or_zero(s: Seq<char>) -> u32 {
    match parse_u32_spec(s) {
        Some(v) => v,
        None => 0,
    }
}

/// The task that reproduces a scanned row: its id as query, the width and
/// height of a `WxH` resolution, its position and primary flag, the refresh
/// rate with `Hz` removed, and the DDC brightness and contrast it reported.
pub open spec fn row_task_spec(row: DisplayRow) -> TaskModel {
    let res = split_on(row.resolution@, 'x');
    TaskModel {
        query: nat_decimal(row.persistent_id as nat),
        width: i32_or_zero(res[0]),
        height: match nth_field(row.resolution@, 'x', 1) {
            Some(f) => i32_or_zero(f),
            None => 0,
        },
        x: row.x,
        y: row.y,
        is_primary: row.is_primary,
        direction: None,
        freq: u32_or_zero(trim_spec(remove_pair(row.freq@, 'H', 'z'))),
        brightness: match row.ddc {
            Some(d) => Some(d.brightness),
            None => None,
        },
        contrast: match row.ddc {
            Some(d) => Some(d.contrast),
            None => None,
        },
        animation: None,
    }
}

/// Parses a number as `i32`, giving `0` when it does not parse.
pub fn parse_i32_or_zero(s: &Vec<char>) -> (r: i32)
    ensures
        r == i32_or_zero(s@),
{
    match parse_i32(s) {
        Some(v) => v,
        None => 0,
    }
}

/// Parses a number as `u32`, giving `0` when it does not parse.
pub fn parse_u32_or_zero(s: &Vec<char>) -> (r: u32)
    ensures
        r == u32_or_zero(s@),
{
    match parse_u32(s) {
        Some(v) => v,
        None => 0,
    }
}

/// The decimal text of a `u32`.
pub fn u32_to_string(n: u32) -> (s: String)
    ensures
        s@ == nat_decimal(n as nat),
{
    let mut v: Vec<char> = Vec::new();
    push_decimal(&mut v, n as u64);
    assert(v@ =~= nat_decimal(n as nat));
    string_from_chars(&v)
}

impl DisplayRow {
    /// The task that would put this monitor back as it was scanned.
    pub fn to_task(&self) -> (t: DisplayTask)
        ensures
            t@ == row_task_spec(*self),
    {
        let res = chars_of(self.resolution.as_str());
        let parts = split_chars(&res, 'x');
        proof {
            lemma_split_len(res@, 'x');
        }
        let width = parse_i32_or_zero(&parts[0]);
        let height = if parts.len() > 1 {
            parse_i32_or_zero(&parts[1])
        } else {
            0
        };
        let freq_text = chars_of(self.freq.as_str());
        let no_unit = remove_pair_chars(&freq_text, 'H', 'z');
        let trimmed = trim_chars(&no_unit);
        let freq = parse_u32_or_zero(&trimmed);
        let (brightness, contrast) = match &self.ddc {
            Some(d) => (Some(d.brightness), Some(d.contrast)),
            None => (None, None),
        };
        proof {
            assert(parts.deep_view()[0] =~= parts@[0]@);
            if parts.len() > 1 {
                assert(parts.deep_view()[1] =~= parts@[1]@);
            }
        }
        DisplayTask {
            query: u32_to_string(self.persistent_id),
            width,
            height,
            x: self.x,
            y: self.y,
            is_primary: self.is_primary,
            direction: None,
            freq,
            brightness,
            contrast,
            animation: None,
        }
    }
}

} // verus!
