//! The saved topology that a restore puts back, and matching a display
//! query against an inventory row.

use vstd::prelude::*;
use crate::text::{
    chars_eq, chars_of, nat_decimal, nth_field, split_chars, split_on, string_from_chars, to_upper,
    upper, lemma_split_len,
};
use crate::scraper::{DisplayRow, u32_to_string};

verus! {

/// One output of the topology as it was when the snapshot was taken.
#[derive(Debug, Clone)]
pub struct SavedOutput {
    pub id: String,
    pub enabled: bool,
    pub x: i32,
    pub y: i32,
    pub width: u32,
    pub height: u32,
}

/// A snapshot of the display topology, to be put back later.
pub struct DisplayRestorer {
    pub snapshot: Vec<SavedOutput>,
}

impl DisplayRestorer {
    /// A restorer that puts back the given outputs.
    pub fn new(snapshot: Vec<SavedOutput>) -> (r: Self)
        ensures
            r.snapshot@ == snapshot@,
    {
        DisplayRestorer { snapshot }
    }

    /// The number of outputs that a restore puts back.
    pub fn len(&self) -> (n: usize)
        ensures
            n == self.snapshot@.len(),
    {
        self.snapshot.len()
    }
}

/// The second `\`-separated component of a hardware path
/// (the vendor-and-product part of `DISPLAY\ABC1234\...`).
pub open spec fn hardware_component(position_instance: Seq<char>) -> Option<Seq<char>> {
    nth_field(position_instance, '\\', 1)
}

/// A display row answers a query when, compared in upper case, the query is
/// its numeric id, its device name, its serial, or the second component of
/// its hardware path.
pub open spec fn match_display_spec(row: DisplayRow, query: Seq<char>) -> bool {
    let q = upper(query);
    ||| nat_decimal(row.persistent_id as nat) == q
    ||| upper(row.name_id@) == q
    ||| upper(row.serial@) == q
    ||| (match hardware_component(row.position_instance@) {
        Some(s) => upper(s) == q,
        None => false,
    })
}

fn upper_chars(s: &str) -> (r: Vec<char>)
    ensures
        r@ == upper(s@),
{
    let u = to_upper(s);
    chars_of(u.as_str())
}

/// Whether a display row answers a query.
pub fn match_display(row: &DisplayRow, query: &str) -> (r: bool)
    ensures
        r == match_display_spec(*row, query@),
{
    let q = upper_chars(query);
    let id_text = u32_to_string(row.persistent_id);
    let id_chars = chars_of(id_text.as_str());
    if chars_eq(&id_chars, &q) {
        return true;
    }
    let name = upper_chars(row.name_id.as_str());
    if chars_eq(&name, &q) {
        return true;
    }
    let serial = upper_chars(row.serial.as_str());
    if chars_eq(&serial, &q) {
        return true;
    }
    let path = chars_of(row.position_instance.as_str());
    let parts = split_chars(&path, '\\');
    if parts.len() > 1 {
        assert(parts.deep_view()[1] =~= parts@[1]@);
        let comp = string_from_chars(&parts[1]);
        let comp_upper = upper_chars(comp.as_str());
        chars_eq(&comp_upper, &q)
    } else {
        false
    }
}

} // verus!
