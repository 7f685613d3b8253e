//! The discovery run that wakes inactive displays before scanning.

use vstd::prelude::*;
use crate::text::{chars_of, chars_eq_str, to_upper, upper};
use crate::scraper::DisplayRow;

verus! {

/// A row counts as active when its `active` text is `YES` in upper case.
pub open spec fn row_is_active(row: DisplayRow) -> bool {
    upper(row.active@) == "YES"@
}

/// Whether a row counts as active.
pub fn is_active_row(row: &DisplayRow) -> (r: bool)
    ensures
        r == row_is_active(*row),
{
    let up = to_upper(row.active.as_str());
    let v = chars_of(up.as_str());
    chars_eq_str(&v, "YES")
}

/// The device names of the inactive rows, in order.
pub open spec fn inactive_names_spec(rows: Seq<DisplayRow>) -> Seq<Seq<char>>
    decreases rows.len(),
{
    if rows.len() == 0 {
        Seq::empty()
    } else {
        let prev = inactive_names_spec(rows.drop_last());
        if row_is_active(rows.last()) { prev } else { prev.push(rows.last().name_id@) }
    }
}

/// The device names of the inactive rows: the displays to wake.
pub fn inactive_names(rows: &Vec<DisplayRow>) -> (r: Vec<String>)
    ensures
        r.deep_view() == inactive_names_spec(rows@),
{
    let mut out: Vec<String> = Vec::new();
    let mut i: usize = 0;
    assert(out.deep_view() =~= Seq::<Seq<char>>::empty());
    while i < rows.len()
        invariant
            i <= rows.len(),
            out.deep_view() == inactive_names_spec(rows@.take(i as int)),
        decreases rows.len() - i,
    {
        proof {
            assert(rows@.take(i + 1).drop_last() =~= rows@.take(i as int));
            assert(rows@.take(i + 1).last() == rows@[i as int]);
        }
        if !is_active_row(&rows[i]) {
            let ghost before = out.deep_view();
            out.push(rows[i].name_id.clone());
            assert(out.deep_view() =~= before.push(rows@[i as int].name_id@));
        }
        i = i + 1;
    }
    assert(rows@.take(i as int) =~= rows@);
    out
}

} // verus!
