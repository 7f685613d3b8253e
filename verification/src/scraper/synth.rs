//! Building the inventory: merging each live display row with what the
//! registry and DDC/CI report about the same monitor, and giving it its
//! persistent id.

use vstd::prelude::*;
use crate::text::{
    chars_eq, chars_of, contains_chars, contains_seq, nth_field, push_chars, push_str, split_chars, string_from_chars,
};
use crate::scraper::DisplayRow;
use crate::scraper::ddc::DdcCaps;

verus! {

/// Live rows without a hardware path are left out of the inventory.
pub open spec fn is_candidate_spec(row: DisplayRow) -> bool {
    row.position_instance@.len() > 0
}

/// Whether a live row goes into the inventory.
pub fn is_candidate(row: &DisplayRow) -> (r: bool)
    ensures
        r == is_candidate_spec(*row),
{
    !row.position_instance.as_str().is_empty()
}

/// A DDC device description refers to a row when the row's device name,
/// hardware path or serial contains it.
pub open spec fn ddc_refers_to(info: Seq<char>, name_id: Seq<char>, position_instance: Seq<char>, serial: Seq<char>) -> bool {
    contains_seq(name_id, info) || contains_seq(position_instance, info) || contains_seq(serial, info)
}

/// The capabilities of the first DDC device that refers to the row.
pub open spec fn ddc_for_row(
    list: Seq<(Seq<char>, DdcCaps)>,
    name_id: Seq<char>,
    position_instance: Seq<char>,
    serial: Seq<char>,
) -> Option<DdcCaps>
    decreases list.len(),
{
    if list.len() == 0 {
        None
    } else if ddc_refers_to(list[0].0, name_id, position_instance, serial) {
        Some(list[0].1)
    } else {
        ddc_for_row(list.drop_first(), name_id, position_instance, serial)
    }
}

/// The DDC list with descriptions as character sequences.
pub open spec fn ddc_list_view(list: Seq<(String, DdcCaps)>) -> Seq<(Seq<char>, DdcCaps)> {
    list.map_values(|e: (String, DdcCaps)| (e.0@, e.1))
}

fn find_ddc(list: &Vec<(String, DdcCaps)>, name_id: &Vec<char>, pos: &Vec<char>, serial: &Vec<char>) -> (r: Option<DdcCaps>)
    ensures
        r == ddc_for_row(ddc_list_view(list@), name_id@, pos@, serial@),
{
    let ghost lv = ddc_list_view(list@);
    let mut i: usize = 0;
    assert(lv.skip(0) =~= lv);
    while i < list.len()
        invariant
            i <= list.len(),
            lv == ddc_list_view(list@),
            ddc_for_row(lv, name_id@, pos@, serial@) == ddc_for_row(lv.skip(i as int), name_id@, pos@, serial@),
        decreases list.len() - i,
    {
        let ghost rest = lv.skip(i as int);
        proof {
            assert(rest[0] == (list@[i as int].0@, list@[i as int].1));
            assert(rest.drop_first() =~= lv.skip(i + 1));
        }
        let info = chars_of(list[i].0.as_str());
        if contains_chars(name_id, &info) || contains_chars(pos, &info) || contains_chars(serial, &info) {
            return Some(list[i].1);
        }
        i = i + 1;
    }
    None
}

/// A serial that says nothing: `N/A` or empty.
pub open spec fn missing_serial(s: Seq<char>) -> bool {
    s == "N/A"@ || s.len() == 0
}

/// The inventory row for a live row: marked as merged, with the serial and
/// physical size of its registry entry when it has one, the fallback
/// identifier in place of a missing serial, the capabilities of the first
/// DDC device that refers to it, and its persistent id.
pub open spec fn merged_row_spec(
    r: DisplayRow,
    live: DisplayRow,
    registry: Option<DisplayRow>,
    fallback_serial: Seq<char>,
    ddc_list: Seq<(Seq<char>, DdcCaps)>,
    persistent_id: u32,
) -> bool {
    let serial1 = match registry { Some(g) => g.serial@, None => live.serial@ };
    let serial = if missing_serial(serial1) { fallback_serial } else { serial1 };
    &&& r.source@ == "synth_data"@
    &&& r.name_id@ == live.name_id@
    &&& r.resolution@ == live.resolution@
    &&& r.freq@ == live.freq@
    &&& r.dpi@ == live.dpi@
    &&& r.scale_percent == live.scale_percent
    &&& r.position_instance@ == live.position_instance@
    &&& r.active@ == live.active@
    &&& r.primary@ == live.primary@
    &&& r.serial@ == serial
    &&& r.size_mm@ == (match registry { Some(g) => g.size_mm@, None => live.size_mm@ })
    &&& r.persistent_id == persistent_id
    &&& r.x == live.x
    &&& r.y == live.y
    &&& r.is_primary == live.is_primary
    &&& r.ddc == (match ddc_for_row(ddc_list, live.name_id@, live.position_instance@, serial) {
        Some(c) => Some(c),
        None => live.ddc,
    })
}

/// The inventory row for a live row.
pub fn merge_live_row(
    live: DisplayRow,
    registry: Option<&DisplayRow>,
    fallback_serial: &str,
    ddc_list: &Vec<(String, DdcCaps)>,
    persistent_id: u32,
) -> (r: DisplayRow)
    ensures
        merged_row_spec(
            r,
            live,
            match registry { Some(g) => Some(*g), None => None },
            fallback_serial@,
            ddc_list_view(ddc_list@),
            persistent_id,
        ),
{
    let mut row = live;
    row.source = string_from_chars(&chars_of("synth_data"));
    match registry {
        Some(g) => {
            row.serial = g.serial.clone();
            row.size_mm = g.size_mm.clone();
        },
        None => {},
    }
    let serial_chars = chars_of(row.serial.as_str());
    let na = chars_of("N/A");
    if crate::text::chars_eq(&serial_chars, &na) || serial_chars.len() == 0 {
        row.serial = string_from_chars(&chars_of(fallback_serial));
    }
    let name = chars_of(row.name_id.as_str());
    let pos = chars_of(row.position_instance.as_str());
    let serial = chars_of(row.serial.as_str());
    match find_ddc(ddc_list, &name, &pos, &serial) {
        Some(c) => {
            row.ddc = Some(c);
        },
        None => {},
    }
    row.persistent_id = persistent_id;
    row
}

// ---------------------------------------------------------------------------
// The inventory
// ---------------------------------------------------------------------------

/// The stored id of `key`: that of the first entry with this key.
pub open spec fn lookup_id(ids: Seq<(Seq<char>, u32)>, key: Seq<char>) -> Option<u32>
    decreases ids.len(),
{
    if ids.len() == 0 {
        None
    } else if ids[0].0 == key {
        Some(ids[0].1)
    } else {
        lookup_id(ids.drop_first(), key)
    }
}

/// The largest stored id (0 when there is none).
pub open spec fn max_id(ids: Seq<(Seq<char>, u32)>) -> nat
    decreases ids.len(),
{
    if ids.len() == 0 {
        0
    } else {
        let m = max_id(ids.drop_first());
        if ids[0].1 > m { ids[0].1 as nat } else { m }
    }
}

/// The key of a monitor's hardware path together with its serial.
pub open spec fn precise_key(path: Seq<char>, serial: Seq<char>) -> Seq<char> {
    path + "|"@ + serial
}

/// The persistent id of a monitor with this path and serial, and the entries
/// to add to the stored ids: the id stored for path and serial; else the id
/// stored for the path, also stored for path and serial from now on; else a
/// new id one above the largest, stored for both keys.
pub open spec fn assign_id(ids: Seq<(Seq<char>, u32)>, path: Seq<char>, serial: Seq<char>) -> (u32, Seq<(Seq<char>, u32)>) {
    let precise = precise_key(path, serial);
    match lookup_id(ids, precise) {
        Some(id) => (id, Seq::empty()),
        None => match lookup_id(ids, path) {
            Some(id) => (id, seq![(precise, id)]),
            None => {
                let n = (max_id(ids) + 1) as u32;
                (n, seq![(path, n), (precise, n)])
            },
        },
    }
}

/// The first registry row with this device name.
pub open spec fn first_row_named(registry: Seq<DisplayRow>, name: Seq<char>) -> Option<DisplayRow>
    decreases registry.len(),
{
    if registry.len() == 0 {
        None
    } else if registry[0].name_id@ == name {
        Some(registry[0])
    } else {
        first_row_named(registry.drop_first(), name)
    }
}

/// The registry row for a live device: the first whose hardware id is the
/// second `\`-separated component of the device's path.
pub open spec fn registry_match_spec(registry: Seq<DisplayRow>, path: Seq<char>) -> Option<DisplayRow> {
    match nth_field(path, '\\', 1) {
        Some(c) => first_row_named(registry, c),
        None => None,
    }
}

/// The identifier that stands in for a missing serial: `NAME#PATH`.
pub open spec fn fallback_id_spec(row: DisplayRow) -> Seq<char> {
    row.name_id@ + "#"@ + row.position_instance@
}

/// The serial a live row has once merged.
pub open spec fn merged_serial(live: DisplayRow, registry: Option<DisplayRow>) -> Seq<char> {
    let serial1 = match registry { Some(g) => g.serial@, None => live.serial@ };
    if missing_serial(serial1) { fallback_id_spec(live) } else { serial1 }
}

/// The live rows that go into the inventory, in order.
pub open spec fn candidates(live: Seq<DisplayRow>) -> Seq<DisplayRow>
    decreases live.len(),
{
    if live.len() == 0 {
        Seq::empty()
    } else {
        let prev = candidates(live.drop_last());
        if is_candidate_spec(live.last()) { prev.push(live.last()) } else { prev }
    }
}

/// The id assignment of the `k`-th inventory row, given the ids stored so far.
pub open spec fn row_assignment(cands: Seq<DisplayRow>, k: int, registry: Seq<DisplayRow>, ids: Seq<(Seq<char>, u32)>) -> (u32, Seq<(Seq<char>, u32)>) {
    let c = cands[k];
    assign_id(
        ids + new_id_entries(cands.take(k), registry, ids),
        c.position_instance@,
        merged_serial(c, registry_match_spec(registry, c.position_instance@)),
    )
}

/// The id entries that building the inventory adds, in order.
pub open spec fn new_id_entries(cands: Seq<DisplayRow>, registry: Seq<DisplayRow>, ids: Seq<(Seq<char>, u32)>) -> Seq<(Seq<char>, u32)>
    decreases cands.len(),
{
    if cands.len() == 0 {
        Seq::empty()
    } else {
        let prev = new_id_entries(cands.drop_last(), registry, ids);
        let c = cands.last();
        prev + assign_id(
            ids + prev,
            c.position_instance@,
            merged_serial(c, registry_match_spec(registry, c.position_instance@)),
        ).1
    }
}

/// The persistent id of the `k`-th inventory row.
pub open spec fn inventory_id(cands: Seq<DisplayRow>, k: int, registry: Seq<DisplayRow>, ids: Seq<(Seq<char>, u32)>) -> u32 {
    row_assignment(cands, k, registry, ids).0
}

/// Stored ids as text keys.
pub open spec fn id_view(ids: Seq<(String, u32)>) -> Seq<(Seq<char>, u32)> {
    ids.map_values(|e: (String, u32)| (e.0@, e.1))
}

proof fn lemma_max_append(s: Seq<(Seq<char>, u32)>, t: Seq<(Seq<char>, u32)>)
    ensures
        max_id(s + t) == (if max_id(s) > max_id(t) { max_id(s) } else { max_id(t) }),
    decreases s.len(),
{
    if s.len() == 0 {
        assert(s + t =~= t);
    } else {
        assert((s + t).drop_first() =~= s.drop_first() + t);
        assert((s + t)[0] == s[0]);
        lemma_max_append(s.drop_first(), t);
    }
}

proof fn lemma_lookup_append(s: Seq<(Seq<char>, u32)>, t: Seq<(Seq<char>, u32)>, key: Seq<char>)
    ensures
        lookup_id(s + t, key) == (match lookup_id(s, key) {
            Some(v) => Some(v),
            None => lookup_id(t, key),
        }),
    decreases s.len(),
{
    if s.len() == 0 {
        assert(s + t =~= t);
    } else {
        assert((s + t).drop_first() =~= s.drop_first() + t);
        assert((s + t)[0] == s[0]);
        lemma_lookup_append(s.drop_first(), t, key);
    }
}

proof fn lemma_lookup_bound(s: Seq<(Seq<char>, u32)>, key: Seq<char>)
    ensures
        lookup_id(s, key) matches Some(v) ==> v <= max_id(s),
    decreases s.len(),
{
    if s.len() > 0 {
        lemma_lookup_bound(s.drop_first(), key);
    }
}

proof fn lemma_max_small(a: (Seq<char>, u32), b: (Seq<char>, u32))
    ensures
        max_id(Seq::<(Seq<char>, u32)>::empty()) == 0,
        max_id(seq![a]) == a.1,
        max_id(seq![a, b]) == (if a.1 > b.1 { a.1 } else { b.1 }),
{
    assert(seq![a].drop_first() =~= Seq::<(Seq<char>, u32)>::empty());
    assert(seq![a, b].drop_first() =~= seq![b]);
    assert(seq![b].drop_first() =~= Seq::<(Seq<char>, u32)>::empty());
    assert(seq![b][0] == b);
    assert(max_id(seq![b].drop_first()) == 0);
    assert(max_id(seq![b]) == b.1);
    assert(seq![a, b][0] == a);
}

/// Assigning an id keeps every id at most one above the largest so far.
proof fn lemma_assign_bound(ids: Seq<(Seq<char>, u32)>, path: Seq<char>, serial: Seq<char>)
    requires
        max_id(ids) + 1 <= u32::MAX,
    ensures
        max_id(assign_id(ids, path, serial).1) <= max_id(ids) + 1,
{
    let precise = precise_key(path, serial);
    lemma_lookup_bound(ids, precise);
    lemma_lookup_bound(ids, path);
    let n = (max_id(ids) + 1) as u32;
    lemma_max_small((precise, n), (precise, n));
    lemma_max_small((path, n), (precise, n));
    match lookup_id(ids, precise) {
        Some(id) => {},
        None => match lookup_id(ids, path) {
            Some(id) => { lemma_max_small((precise, id), (precise, id)); },
            None => {},
        },
    }
}

/// The stored id of `key` among `ids` followed by `added`.
fn lookup_in(ids: &Vec<(String, u32)>, added: &Vec<(String, u32)>, key: &Vec<char>) -> (r: Option<u32>)
    ensures
        r == lookup_id(id_view(ids@) + id_view(added@), key@),
{
    proof {
        lemma_lookup_append(id_view(ids@), id_view(added@), key@);
    }
    match lookup_one(ids, key) {
        Some(v) => Some(v),
        None => lookup_one(added, key),
    }
}

fn lookup_one(ids: &Vec<(String, u32)>, key: &Vec<char>) -> (r: Option<u32>)
    ensures
        r == lookup_id(id_view(ids@), key@),
{
    let ghost v = id_view(ids@);
    let mut j: usize = 0;
    assert(v.skip(0) =~= v);
    while j < ids.len()
        invariant
            j <= ids.len(),
            v == id_view(ids@),
            lookup_id(v, key@) == lookup_id(v.skip(j as int), key@),
        decreases ids.len() - j,
    {
        let ghost rest = v.skip(j as int);
        proof {
            assert(rest[0] == (ids@[j as int].0@, ids@[j as int].1));
            assert(rest.drop_first() =~= v.skip(j + 1));
        }
        let k = chars_of(ids[j].0.as_str());
        if chars_eq(&k, key) {
            return Some(ids[j].1);
        }
        j = j + 1;
    }
    None
}

fn max_one(ids: &Vec<(String, u32)>) -> (m: u32)
    ensures
        m == max_id(id_view(ids@)),
{
    let ghost v = id_view(ids@);
    let mut m: u32 = 0;
    let mut j: usize = 0;
    assert(v.skip(0) =~= v);
    while j < ids.len()
        invariant
            j <= ids.len(),
            v == id_view(ids@),
            max_id(v) == (if m > max_id(v.skip(j as int)) { m as nat } else { max_id(v.skip(j as int)) }),
        decreases ids.len() - j,
    {
        let ghost rest = v.skip(j as int);
        proof {
            assert(rest[0] == (ids@[j as int].0@, ids@[j as int].1));
            assert(rest.drop_first() =~= v.skip(j + 1));
        }
        if ids[j].1 > m {
            m = ids[j].1;
        }
        j = j + 1;
    }
    m
}

/// Assigns the persistent id for a path and serial against `ids` followed by
/// `added`, appending the new entries to `added`.
fn assign_in(ids: &Vec<(String, u32)>, added: &mut Vec<(String, u32)>, path: &Vec<char>, serial: &Vec<char>) -> (id: u32)
    requires
        max_id(id_view(ids@) + id_view(old(added)@)) + 1 <= u32::MAX,
    ensures
        id == assign_id(id_view(ids@) + id_view(old(added)@), path@, serial@).0,
        id_view(final(added)@) == id_view(old(added)@) + assign_id(id_view(ids@) + id_view(old(added)@), path@, serial@).1,
{
    let ghost all = id_view(ids@) + id_view(added@);
    let ghost before = id_view(added@);
    let mut precise: Vec<char> = Vec::new();
    push_chars(&mut precise, path);
    push_str(&mut precise, "|");
    push_chars(&mut precise, serial);
    assert(precise@ =~= precise_key(path@, serial@));
    match lookup_in(ids, added, &precise) {
        Some(id) => {
            assert(before + Seq::<(Seq<char>, u32)>::empty() =~= before);
            id
        },
        None => match lookup_in(ids, added, path) {
            Some(id) => {
                added.push((string_from_chars(&precise), id));
                assert(id_view(added@) =~= before + seq![(precise@, id)]);
                id
            },
            None => {
                proof {
                    lemma_max_append(id_view(ids@), before);
                }
                let a = max_one(ids);
                let b = max_one(added);
                let n = if a > b { a + 1 } else { b + 1 };
                added.push((string_from_chars(path), n));
                added.push((string_from_chars(&precise), n));
                assert(id_view(added@) =~= before + seq![(path@, n), (precise@, n)]);
                n
            },
        },
    }
}

/// The registry row for a live device's path, by index.
fn find_registry_row(registry: &Vec<DisplayRow>, path: &str) -> (r: Option<usize>)
    ensures
        match r {
            Some(j) => j < registry@.len() && registry_match_spec(registry@, path@) == Some(registry@[j as int]),
            None => registry_match_spec(registry@, path@) is None,
        },
{
    let pv = chars_of(path);
    let parts = split_chars(&pv, '\\');
    if parts.len() <= 1 {
        return None;
    }
    assert(parts.deep_view()[1] =~= parts@[1]@);
    let comp = &parts[1];
    let ghost name = comp@;
    assert(nth_field(path@, '\\', 1) == Some(name));
    let mut j: usize = 0;
    assert(registry@.skip(0) =~= registry@);
    while j < registry.len()
        invariant
            j <= registry.len(),
            name == comp@,
            nth_field(path@, '\\', 1) == Some(name),
            first_row_named(registry@, name) == first_row_named(registry@.skip(j as int), name),
        decreases registry.len() - j,
    {
        let ghost rest = registry@.skip(j as int);
        proof {
            assert(rest[0] == registry@[j as int]);
            assert(rest.drop_first() =~= registry@.skip(j + 1));
        }
        let n = chars_of(registry[j].name_id.as_str());
        if chars_eq(&n, comp) {
            assert(rest.len() > 0 && rest[0].name_id@ == name);
            assert(first_row_named(rest, name) == Some(rest[0]));
            return Some(j);
        }
        j = j + 1;
    }
    None
}

/// The identifier that stands in for a missing serial.
fn fallback_id(row: &DisplayRow) -> (r: String)
    ensures
        r@ == fallback_id_spec(*row),
{
    let mut v = chars_of(row.name_id.as_str());
    push_str(&mut v, "#");
    push_str(&mut v, row.position_instance.as_str());
    string_from_chars(&v)
}

/// Two rows with the same fields, strings compared by their text.
pub open spec fn same_row(a: DisplayRow, b: DisplayRow) -> bool {
    &&& a.source@ == b.source@
    &&& a.name_id@ == b.name_id@
    &&& a.resolution@ == b.resolution@
    &&& a.freq@ == b.freq@
    &&& a.dpi@ == b.dpi@
    &&& a.scale_percent == b.scale_percent
    &&& a.position_instance@ == b.position_instance@
    &&& a.active@ == b.active@
    &&& a.primary@ == b.primary@
    &&& a.serial@ == b.serial@
    &&& a.size_mm@ == b.size_mm@
    &&& a.persistent_id == b.persistent_id
    &&& a.x == b.x
    &&& a.y == b.y
    &&& a.is_primary == b.is_primary
    &&& a.ddc == b.ddc
}

fn copy_row(r: &DisplayRow) -> (c: DisplayRow)
    ensures
        same_row(c, *r),
{
    DisplayRow {
        source: r.source.clone(),
        name_id: r.name_id.clone(),
        resolution: r.resolution.clone(),
        freq: r.freq.clone(),
        dpi: r.dpi.clone(),
        scale_percent: r.scale_percent,
        position_instance: r.position_instance.clone(),
        active: r.active.clone(),
        primary: r.primary.clone(),
        serial: r.serial.clone(),
        size_mm: r.size_mm.clone(),
        persistent_id: r.persistent_id,
        x: r.x,
        y: r.y,
        is_primary: r.is_primary,
        ddc: r.ddc,
    }
}

/// The inventory: the live rows with a hardware path, in order, each merged
/// with the registry row whose hardware id is the second component of its
/// path, with `NAME#PATH` for a missing serial, the capabilities of the first
/// DDC device that refers to it, and its persistent id: the one stored for
/// its path and serial, else the one stored for its path, else one above the
/// largest stored. The second result holds the id entries to store.
pub fn synthesize_inventory(
    live: &Vec<DisplayRow>,
    registry: &Vec<DisplayRow>,
    ddc: &Vec<(String, DdcCaps)>,
    ids: &Vec<(String, u32)>,
) -> (r: (Vec<DisplayRow>, Vec<(String, u32)>))
    requires
        max_id(id_view(ids@)) + live@.len() < u32::MAX,
    ensures
        r.0@.len() == candidates(live@).len(),
        forall|k: int| 0 <= k < candidates(live@).len() ==> merged_row_spec(
            #[trigger] r.0@[k],
            candidates(live@)[k],
            registry_match_spec(registry@, candidates(live@)[k].position_instance@),
            fallback_id_spec(candidates(live@)[k]),
            ddc_list_view(ddc@),
            inventory_id(candidates(live@), k, registry@, id_view(ids@)),
        ),
        id_view(r.1@) == new_id_entries(candidates(live@), registry@, id_view(ids@)),
        forall|k: int| 0 <= k < candidates(live@).len()
            ==> #[trigger] id_is_fresh_or_known(candidates(live@), registry@, id_view(ids@), k),
{
    let ghost ids0 = id_view(ids@);
    let mut out: Vec<DisplayRow> = Vec::new();
    let mut added: Vec<(String, u32)> = Vec::new();
    let mut i: usize = 0;
    assert(live@.take(0) =~= Seq::<DisplayRow>::empty());
    assert(ids0 + id_view(added@) =~= ids0);
    while i < live.len()
        invariant
            i <= live.len(),
            ids0 == id_view(ids@),
            max_id(ids0) + live@.len() < u32::MAX,
            out@.len() == candidates(live@.take(i as int)).len(),
            candidates(live@.take(i as int)).len() <= i,
            forall|k: int| 0 <= k < candidates(live@.take(i as int)).len() ==> merged_row_spec(
                #[trigger] out@[k],
                candidates(live@.take(i as int))[k],
                registry_match_spec(registry@, candidates(live@.take(i as int))[k].position_instance@),
                fallback_id_spec(candidates(live@.take(i as int))[k]),
                ddc_list_view(ddc@),
                inventory_id(candidates(live@.take(i as int)), k, registry@, ids0),
            ),
            id_view(added@) == new_id_entries(candidates(live@.take(i as int)), registry@, ids0),
            max_id(ids0 + id_view(added@)) <= max_id(ids0) + candidates(live@.take(i as int)).len(),
        decreases live.len() - i,
    {
        let ghost ci = candidates(live@.take(i as int));
        let ghost lv = live@[i as int];
        proof {
            assert(live@.take(i + 1).drop_last() =~= live@.take(i as int));
            assert(live@.take(i + 1).last() == lv);
        }
        if is_candidate(&live[i]) {
            let ghost ci1 = ci.push(lv);
            assert(candidates(live@.take(i + 1)) == ci1);
            let reg = find_registry_row(registry, live[i].position_instance.as_str());
            let fb = fallback_id(&live[i]);
            let regref: Option<&DisplayRow> = match reg {
                Some(j) => Some(&registry[j]),
                None => None,
            };
            let ghost regm = registry_match_spec(registry@, lv.position_instance@);
            assert((match regref { Some(g) => Some(*g), None => None }) == regm);
            let copy = copy_row(&live[i]);
            let mut row = merge_live_row(copy, regref, fb.as_str(), ddc, 0);
            let serial = chars_of(row.serial.as_str());
            let pos = chars_of(row.position_instance.as_str());
            assert(serial@ == merged_serial(lv, regm));
            let ghost before = id_view(added@);
            proof {
                lemma_assign_bound(ids0 + before, pos@, serial@);
            }
            let id = assign_in(ids, &mut added, &pos, &serial);
            row.persistent_id = id;
            assert(merged_row_spec(row, lv, regm, fallback_id_spec(lv), ddc_list_view(ddc@), id));
            let ghost a = assign_id(ids0 + before, pos@, serial@);
            proof {
                assert(ci1.drop_last() =~= ci);
                assert(ci1.last() == lv);
                assert(ci1.take(ci.len() as int) =~= ci);
                assert(new_id_entries(ci1, registry@, ids0) == before + a.1);
                assert(inventory_id(ci1, ci.len() as int, registry@, ids0) == id);
                assert forall|k: int| 0 <= k < ci.len() implies inventory_id(ci1, k, registry@, ids0)
                    == inventory_id(ci, k, registry@, ids0) by {
                    assert(ci1.take(k) =~= ci.take(k));
                    assert(ci1[k] == ci[k]);
                }
                lemma_max_append(ids0 + before, a.1);
                assert(ids0 + (before + a.1) =~= (ids0 + before) + a.1);
            }
            out.push(row);
            assert forall|k: int| 0 <= k < ci1.len() implies merged_row_spec(
                #[trigger] out@[k],
                ci1[k],
                registry_match_spec(registry@, ci1[k].position_instance@),
                fallback_id_spec(ci1[k]),
                ddc_list_view(ddc@),
                inventory_id(ci1, k, registry@, ids0),
            ) by {
                if k < ci.len() {
                    assert(ci1[k] == ci[k]);
                }
            }
        } else {
            assert(candidates(live@.take(i + 1)) == ci);
        }
        i = i + 1;
    }
    assert(live@.take(i as int) =~= live@);
    proof {
        law_inventory_ids_fresh(candidates(live@), registry@, ids0);
    }
    (out, added)
}

// ---------------------------------------------------------------------------
// Persistent ids are fresh
// ---------------------------------------------------------------------------

/// The hardware path of the `j`-th inventory row.
pub open spec fn row_path(cands: Seq<DisplayRow>, j: int) -> Seq<char> {
    cands[j].position_instance@
}

/// The path-and-serial key of the `j`-th inventory row.
pub open spec fn row_precise(cands: Seq<DisplayRow>, j: int, registry: Seq<DisplayRow>) -> Seq<char> {
    precise_key(
        cands[j].position_instance@,
        merged_serial(cands[j], registry_match_spec(registry, cands[j].position_instance@)),
    )
}

/// A key of row `k` (its path, or its path and serial) is a key of row `j`.
pub open spec fn shares_key(cands: Seq<DisplayRow>, registry: Seq<DisplayRow>, j: int, k: int) -> bool {
    let kj = seq![row_path(cands, j), row_precise(cands, j, registry)];
    kj.contains(row_path(cands, k)) || kj.contains(row_precise(cands, k, registry))
}

/// Some stored entry has the id `v`.
pub open spec fn stored_id(ids: Seq<(Seq<char>, u32)>, v: u32) -> bool {
    exists|i: int| 0 <= i < ids.len() && #[trigger] ids[i].1 == v
}

/// The id of the `k`-th row was stored before the run, or is that of an
/// earlier row of this run that shares a key with it, or is new: larger than
/// every stored id and every id given to an earlier row.
pub open spec fn id_is_fresh_or_known(cands: Seq<DisplayRow>, registry: Seq<DisplayRow>, ids: Seq<(Seq<char>, u32)>, k: int) -> bool {
    let v = inventory_id(cands, k, registry, ids);
    ||| stored_id(ids, v)
    ||| exists|j: int| 0 <= j < k && #[trigger] inventory_id(cands, j, registry, ids) == v && shares_key(cands, registry, j, k)
    ||| ((forall|i: int| 0 <= i < ids.len() ==> #[trigger] ids[i].1 < v)
        && (forall|j: int| 0 <= j < k ==> #[trigger] inventory_id(cands, j, registry, ids) < v))
}

/// An id entry added for the `j`-th row: the row's id under one of its keys.
pub open spec fn entry_of_row(cands: Seq<DisplayRow>, registry: Seq<DisplayRow>, ids: Seq<(Seq<char>, u32)>, e: (Seq<char>, u32), j: int) -> bool {
    e.1 == inventory_id(cands, j, registry, ids) && (e.0 == row_path(cands, j) || e.0 == row_precise(cands, j, registry))
}

/// An id entry added for some row before the `k`-th.
pub open spec fn added_by_earlier(cands: Seq<DisplayRow>, registry: Seq<DisplayRow>, ids: Seq<(Seq<char>, u32)>, e: (Seq<char>, u32), k: int) -> bool {
    exists|j: int| 0 <= j < k && #[trigger] entry_of_row(cands, registry, ids, e, j)
}

proof fn lemma_lookup_found(s: Seq<(Seq<char>, u32)>, key: Seq<char>)
    ensures
        lookup_id(s, key) matches Some(v) ==> exists|i: int| 0 <= i < s.len() && (#[trigger] s[i]).0 == key && s[i].1 == v,
    decreases s.len(),
{
    if s.len() > 0 && s[0].0 != key {
        lemma_lookup_found(s.drop_first(), key);
        if let Some(v) = lookup_id(s, key) {
            let i = choose|i: int| 0 <= i < s.drop_first().len() && (#[trigger] s.drop_first()[i]).0 == key
                && s.drop_first()[i].1 == v;
            assert(s[i + 1] == s.drop_first()[i]);
        }
    } else if s.len() > 0 {
        assert(s[0].0 == key);
    }
}

proof fn lemma_le_max(s: Seq<(Seq<char>, u32)>, i: int)
    requires
        0 <= i < s.len(),
    ensures
        s[i].1 <= max_id(s),
    decreases s.len(),
{
    if i > 0 {
        lemma_le_max(s.drop_first(), i - 1);
        assert(s.drop_first()[i - 1] == s[i]);
    }
}

proof fn lemma_ids_prefix(cands: Seq<DisplayRow>, registry: Seq<DisplayRow>, ids: Seq<(Seq<char>, u32)>, k: int)
    requires
        0 <= k <= cands.len(),
        max_id(ids) + cands.len() < u32::MAX,
    ensures
        max_id(ids + new_id_entries(cands.take(k), registry, ids)) <= max_id(ids) + k,
        forall|m: int| 0 <= m < new_id_entries(cands.take(k), registry, ids).len() ==> #[trigger] added_by_earlier(
            cands, registry, ids, new_id_entries(cands.take(k), registry, ids)[m], k),
        forall|j: int| 0 <= j < k ==> #[trigger] inventory_id(cands, j, registry, ids)
            <= max_id(ids + new_id_entries(cands.take(k), registry, ids)),
        forall|j: int| 0 <= j < k ==> #[trigger] id_is_fresh_or_known(cands, registry, ids, j),
    decreases k,
{
    if k == 0 {
        assert(cands.take(0) =~= Seq::<DisplayRow>::empty());
        assert(ids + Seq::<(Seq<char>, u32)>::empty() =~= ids);
        return;
    }
    let k0 = k - 1;
    lemma_ids_prefix(cands, registry, ids, k0);
    let t = cands.take(k);
    assert(t.drop_last() =~= cands.take(k0));
    assert(t.last() == cands[k0]);
    let p_entries = new_id_entries(cands.take(k0), registry, ids);
    let s = ids + p_entries;
    let path = row_path(cands, k0);
    let serial = merged_serial(cands[k0], registry_match_spec(registry, cands[k0].position_instance@));
    let pk = precise_key(path, serial);
    assert(pk == row_precise(cands, k0, registry));
    let a = assign_id(s, path, serial);
    assert(new_id_entries(t, registry, ids) == p_entries + a.1);
    assert(inventory_id(cands, k0, registry, ids) == a.0);
    let v = a.0;
    let s2 = ids + (p_entries + a.1);
    assert(s2 =~= s + a.1);
    lemma_max_append(s, a.1);
    lemma_max_append(ids, p_entries);
    lemma_assign_bound(s, path, serial);
    lemma_lookup_bound(s, pk);
    lemma_lookup_bound(s, path);
    lemma_max_small((path, v), (pk, v));
    lemma_max_small((pk, v), (pk, v));

    // The law for row k0.
    assert(id_is_fresh_or_known(cands, registry, ids, k0)) by {
        let kj_self = seq![path, pk];
        match lookup_id(s, pk) {
            Some(w) => {
                lemma_lookup_append(ids, p_entries, pk);
                match lookup_id(ids, pk) {
                    Some(_) => {
                        lemma_lookup_found(ids, pk);
                    },
                    None => {
                        lemma_lookup_found(p_entries, pk);
                        let m = choose|m: int| 0 <= m < p_entries.len() && (#[trigger] p_entries[m]).0 == pk
                            && p_entries[m].1 == w;
                        assert(added_by_earlier(cands, registry, ids, p_entries[m], k0));
                        let j = choose|j: int| 0 <= j < k0 && #[trigger] entry_of_row(cands, registry, ids, p_entries[m], j);
                        assert(seq![row_path(cands, j), row_precise(cands, j, registry)][0] == row_path(cands, j));
                        assert(seq![row_path(cands, j), row_precise(cands, j, registry)][1] == row_precise(cands, j, registry));
                        assert(shares_key(cands, registry, j, k0));
                        assert(inventory_id(cands, j, registry, ids) == v);
                    },
                }
            },
            None => match lookup_id(s, path) {
                Some(w) => {
                    lemma_lookup_append(ids, p_entries, path);
                    match lookup_id(ids, path) {
                        Some(_) => {
                            lemma_lookup_found(ids, path);
                        },
                        None => {
                            lemma_lookup_found(p_entries, path);
                            let m = choose|m: int| 0 <= m < p_entries.len() && (#[trigger] p_entries[m]).0 == path
                                && p_entries[m].1 == w;
                            assert(added_by_earlier(cands, registry, ids, p_entries[m], k0));
                            let j = choose|j: int| 0 <= j < k0 && #[trigger] entry_of_row(cands, registry, ids, p_entries[m], j);
                            assert(seq![row_path(cands, j), row_precise(cands, j, registry)][0] == row_path(cands, j));
                            assert(seq![row_path(cands, j), row_precise(cands, j, registry)][1] == row_precise(cands, j, registry));
                            assert(shares_key(cands, registry, j, k0));
                            assert(inventory_id(cands, j, registry, ids) == v);
                        },
                    }
                },
                None => {
                    assert(v == max_id(s) + 1);
                    assert forall|i: int| 0 <= i < ids.len() implies #[trigger] ids[i].1 < v by {
                        lemma_le_max(ids, i);
                    }
                }
            },
        }
    }

    // The entries added so far are those of rows up to k0.
    let pn = new_id_entries(t, registry, ids);
    assert forall|m: int| 0 <= m < pn.len() implies #[trigger] added_by_earlier(cands, registry, ids, pn[m], k) by {
        if m < p_entries.len() {
            assert(pn[m] == p_entries[m]);
            assert(added_by_earlier(cands, registry, ids, p_entries[m], k0));
            let j = choose|j: int| 0 <= j < k0 && #[trigger] entry_of_row(cands, registry, ids, p_entries[m], j);
            assert(entry_of_row(cands, registry, ids, pn[m], j));
        } else {
            assert(pn[m] == a.1[m - p_entries.len()]);
            assert(entry_of_row(cands, registry, ids, pn[m], k0));
        }
    }
    assert forall|j: int| 0 <= j < k implies #[trigger] inventory_id(cands, j, registry, ids)
        <= max_id(ids + pn) by {
        assert(ids + pn =~= s2);
    }
}

/// Persistent ids are fresh: the id of each inventory row was stored before
/// the scan, or is that of an earlier row of the same scan that shares its
/// path or its path and serial, or is new, and then larger than every stored
/// id and every id given to an earlier row of the scan. So monitors with
/// keys of their own get ids of their own.
pub proof fn law_inventory_ids_fresh(cands: Seq<DisplayRow>, registry: Seq<DisplayRow>, ids: Seq<(Seq<char>, u32)>)
    requires
        max_id(ids) + cands.len() < u32::MAX,
    ensures
        forall|k: int| 0 <= k < cands.len() ==> #[trigger] id_is_fresh_or_known(cands, registry, ids, k),
{
    lemma_ids_prefix(cands, registry, ids, cands.len() as int);
}

} // verus!
