//! Console output: the one-line summary of a scanned display, the table of
//! saved suites, and the tagged lines written to a pipe.

use vstd::prelude::*;
use crate::text::{
    byte_prefix, byte_prefix_exec, chars_of, contains_chars, contains_seq, nat_decimal, nth_field,
    pad_left, pad_right, push_chars, push_decimal, push_padded_left, push_padded_right, push_str,
    split_chars, split_on, starts_with, starts_with_chars, string_from_chars, utf8_len,
    lemma_split_len,
};
use crate::scraper::DisplayRow;

verus! {

/// Where output goes.
#[derive(Debug, Clone, Copy, PartialEq, Eq)]
pub enum OutMode {
    /// Human-readable tables on the console.
    Console,
    /// One tagged JSON line per record, for a parent process.
    Pipe,
}

/// Formats the program's records for its output mode.
pub struct OutputManager {
    pub mode: OutMode,
}

impl OutputManager {
    /// Pipe output for the daemon, console output otherwise.
    pub fn new(is_daemon: bool) -> (r: Self)
        ensures
            r.mode == (if is_daemon { OutMode::Pipe } else { OutMode::Console }),
    {
        OutputManager { mode: if is_daemon { OutMode::Pipe } else { OutMode::Console } }
    }
}

/// The vendor shown for a hardware path: for a `DISPLAY\...` path, the first
/// three bytes of its second component (`UNK` when there are none), and
/// `GEN` for any other path.
pub open spec fn vendor_spec(position_instance: Seq<char>) -> Seq<char> {
    if contains_seq(position_instance, "DISPLAY"@) {
        match nth_field(position_instance, '\\', 1) {
            Some(f) => match byte_prefix(f, 3) {
                Some(p) => p,
                None => "UNK"@,
            },
            None => "UNK"@,
        }
    } else {
        "GEN"@
    }
}

/// A DDC value as shown: its number, or `--` when unknown.
pub open spec fn ddc_text(v: Option<u32>) -> Seq<char> {
    match v {
        Some(x) => nat_decimal(x as nat),
        None => "--"@,
    }
}

/// The console line for a scanned display:
/// `ID  | VENDOR | RESOLUTION   | FREQ   | ACTIVE   | SERIAL         | B:BBB C:CCC`.
pub open spec fn scan_line_spec(row: DisplayRow) -> Seq<char> {
    let b = match row.ddc { Some(d) => Some(d.brightness), None => None };
    let c = match row.ddc { Some(d) => Some(d.contrast), None => None };
    pad_right(nat_decimal(row.persistent_id as nat), 3) + " | "@
        + pad_right(vendor_spec(row.position_instance@), 6) + " | "@
        + pad_right(row.resolution@, 12) + " | "@
        + pad_right(row.freq@, 6) + " | "@
        + pad_right(row.active@, 8) + " | "@
        + pad_right(row.serial@, 14) + " | B:"@
        + pad_left(ddc_text(b), 3) + " C:"@
        + pad_left(ddc_text(c), 3)
}

/// The vendor shown for a hardware path.
pub fn vendor_of(position_instance: &str) -> (r: Vec<char>)
    ensures
        r@ == vendor_spec(position_instance@),
{
    let path = chars_of(position_instance);
    let display = chars_of("DISPLAY");
    if contains_chars(&path, &display) {
        let parts = split_chars(&path, '\\');
        if parts.len() > 1 {
            assert(parts.deep_view()[1] =~= parts@[1]@);
            match byte_prefix_exec(&parts[1], 3) {
                Some(p) => p,
                None => chars_of("UNK"),
            }
        } else {
            chars_of("UNK")
        }
    } else {
        chars_of("GEN")
    }
}

fn ddc_chars(v: Option<u32>) -> (r: Vec<char>)
    ensures
        r@ == ddc_text(v),
{
    match v {
        Some(x) => {
            let mut out: Vec<char> = Vec::new();
            push_decimal(&mut out, x as u64);
            assert(out@ =~= nat_decimal(x as nat));
            out
        },
        None => chars_of("--"),
    }
}

/// The console line for a scanned display.
pub fn scan_line(row: &DisplayRow) -> (r: String)
    ensures
        r@ == scan_line_spec(*row),
{
    let mut out: Vec<char> = Vec::new();
    let mut id: Vec<char> = Vec::new();
    push_decimal(&mut id, row.persistent_id as u64);
    assert(id@ =~= nat_decimal(row.persistent_id as nat));
    push_padded_right(&mut out, &id, 3);
    push_str(&mut out, " | ");
    let vendor = vendor_of(row.position_instance.as_str());
    push_padded_right(&mut out, &vendor, 6);
    push_str(&mut out, " | ");
    push_padded_right(&mut out, &chars_of(row.resolution.as_str()), 12);
    push_str(&mut out, " | ");
    push_padded_right(&mut out, &chars_of(row.freq.as_str()), 6);
    push_str(&mut out, " | ");
    push_padded_right(&mut out, &chars_of(row.active.as_str()), 8);
    push_str(&mut out, " | ");
    push_padded_right(&mut out, &chars_of(row.serial.as_str()), 14);
    push_str(&mut out, " | B:");
    let (b, c) = match &row.ddc {
        Some(d) => (Some(d.brightness), Some(d.contrast)),
        None => (None, None),
    };
    push_padded_left(&mut out, &ddc_chars(b), 3);
    push_str(&mut out, " C:");
    push_padded_left(&mut out, &ddc_chars(c), 3);
    assert(out@ =~= scan_line_spec(*row));
    string_from_chars(&out)
}

/// The task list and hotkey that a suite's registry text shows: the text
/// after the last `tasks|` and the last `hotkey|` part (`-` and `Keiner`
/// when there is none).
pub open spec fn suite_fields_spec(parts: Seq<Seq<char>>) -> (Seq<char>, Seq<char>)
    decreases parts.len(),
{
    if parts.len() == 0 {
        ("-"@, "Keiner"@)
    } else {
        let prev = suite_fields_spec(parts.drop_last());
        let p = parts.last();
        if starts_with(p, "tasks|"@) {
            (p.subrange(6, p.len() as int), prev.1)
        } else if starts_with(p, "hotkey|"@) {
            (prev.0, p.subrange(7, p.len() as int))
        } else {
            prev
        }
    }
}

/// The task list a suite's registry text shows.
pub open spec fn suite_tasks_text(config: Seq<char>) -> Seq<char> {
    suite_fields_spec(split_on(config, ';')).0
}

/// The task list as shown in the table: cut to its first 37 bytes and
/// `...` when it is longer than 40 bytes.
pub open spec fn shown_tasks(tasks: Seq<char>) -> Seq<char> {
    if utf8_len(tasks) > 40 {
        match byte_prefix(tasks, 37) {
            Some(p) => p + "..."@,
            None => tasks,
        }
    } else {
        tasks
    }
}

/// The table line for a saved suite.
pub open spec fn suite_line_spec(name: Seq<char>, config: Seq<char>) -> Seq<char> {
    let f = suite_fields_spec(split_on(config, ';'));
    "Suite: "@ + pad_right(name, 18) + " | Hotkey: "@ + pad_right(f.1, 12) + " | Konfig: "@
        + shown_tasks(f.0)
}

fn suite_fields(config: &str) -> (r: (Vec<char>, Vec<char>))
    ensures
        (r.0@, r.1@) == suite_fields_spec(split_on(config@, ';')),
{
    let chars = chars_of(config);
    let parts = split_chars(&chars, ';');
    let ghost pv = parts.deep_view();
    let tasks_prefix = chars_of("tasks|");
    let hotkey_prefix = chars_of("hotkey|");
    let mut tasks = chars_of("-");
    let mut hotkey = chars_of("Keiner");
    let mut i: usize = 0;
    while i < parts.len()
        invariant
            i <= parts.len(),
            pv == parts.deep_view(),
            tasks_prefix@ == "tasks|"@,
            hotkey_prefix@ == "hotkey|"@,
            (tasks@, hotkey@) == suite_fields_spec(pv.take(i as int)),
        decreases parts.len() - i,
    {
        proof {
            reveal_strlit("tasks|");
            reveal_strlit("hotkey|");
            assert(pv.take(i + 1).drop_last() =~= pv.take(i as int));
            assert(pv.take(i + 1).last() =~= parts@[i as int]@);
        }
        let p = &parts[i];
        if starts_with_chars(p, &tasks_prefix) {
            let mut t: Vec<char> = Vec::new();
            let mut k: usize = 6;
            while k < p.len()
                invariant
                    6 <= k <= p.len(),
                    t@ == p@.subrange(6, k as int),
                decreases p.len() - k,
            {
                t.push(p[k]);
                k = k + 1;
                assert(t@ =~= p@.subrange(6, k as int));
            }
            tasks = t;
        } else if starts_with_chars(p, &hotkey_prefix) {
            let mut h: Vec<char> = Vec::new();
            let mut k: usize = 7;
            while k < p.len()
                invariant
                    7 <= k <= p.len(),
                    h@ == p@.subrange(7, k as int),
                decreases p.len() - k,
            {
                h.push(p[k]);
                k = k + 1;
                assert(h@ =~= p@.subrange(7, k as int));
            }
            hotkey = h;
        }
        i = i + 1;
    }
    assert(pv.take(i as int) =~= pv);
    assert(pv == split_on(config@, ';'));
    (tasks, hotkey)
}

proof fn lemma_utf8_len_suffix(s: Seq<char>, j: int, i: int)
    requires
        0 <= j <= i <= s.len(),
    ensures
        utf8_len(s.subrange(i, s.len() as int)) <= utf8_len(s.subrange(j, s.len() as int)),
    decreases i - j,
{
    if j < i {
        let t = s.subrange(j, s.len() as int);
        assert(t.drop_first() =~= s.subrange(j + 1, s.len() as int));
        lemma_utf8_len_suffix(s, j + 1, i);
    }
}

/// Whether `s` takes more than `limit` bytes in UTF-8.
fn utf8_len_exceeds(s: &Vec<char>, limit: u64) -> (r: bool)
    requires
        limit < 0x1_0000_0000,
    ensures
        r == (utf8_len(s@) > limit),
{
    let mut total: u64 = 0;
    let mut i: usize = s.len();
    assert(s@.subrange(s.len() as int, s.len() as int) =~= Seq::<char>::empty());
    while i > 0
        invariant
            i <= s.len(),
            limit < 0x1_0000_0000,
            total == utf8_len(s@.subrange(i as int, s.len() as int)),
            total <= limit,
        decreases i,
    {
        let w = crate::text::utf8_width_exec(s[i - 1]);
        proof {
            let t = s@.subrange(i - 1, s.len() as int);
            assert(t.drop_first() =~= s@.subrange(i as int, s.len() as int));
            assert(t[0] == s@[i - 1]);
        }
        total = total + w as u64;
        i = i - 1;
        if total > limit {
            proof {
                lemma_utf8_len_suffix(s@, 0, i as int);
                assert(s@.subrange(0, s.len() as int) =~= s@);
            }
            return true;
        }
    }
    assert(s@.subrange(0, s.len() as int) =~= s@);
    false
}

/// The table line for a saved suite, from its name and registry text.
pub fn suite_line(name: &str, config: &str) -> (r: String)
    requires
        utf8_len(suite_tasks_text(config@)) > 40 ==> byte_prefix(suite_tasks_text(config@), 37) is Some,
    ensures
        r@ == suite_line_spec(name@, config@),
{
    let (tasks, hotkey) = suite_fields(config);
    let mut out: Vec<char> = Vec::new();
    push_str(&mut out, "Suite: ");
    push_padded_right(&mut out, &chars_of(name), 18);
    push_str(&mut out, " | Hotkey: ");
    push_padded_right(&mut out, &hotkey, 12);
    push_str(&mut out, " | Konfig: ");
    if utf8_len_exceeds(&tasks, 40) {
        match byte_prefix_exec(&tasks, 37) {
            Some(p) => {
                push_chars(&mut out, &p);
                push_str(&mut out, "...");
            },
            None => {
                push_chars(&mut out, &tasks);
            },
        }
    } else {
        push_chars(&mut out, &tasks);
    }
    assert(out@ =~= suite_line_spec(name@, config@));
    string_from_chars(&out)
}

/// The lines of the saved-suites table: a blank line, the title, a rule of
/// 85 dashes, one line per suite (listed by name, with no stored text), the
/// rule again and a blank line.
pub open spec fn suites_table_spec(names: Seq<Seq<char>>) -> Seq<Seq<char>> {
    let rule = Seq::new(85, |i: int| '-');
    seq![Seq::<char>::empty(), "[ KONFIGURIERTE SUITES ]"@, rule]
        + names.map_values(|n: Seq<char>| suite_line_spec(n, Seq::<char>::empty()))
        + seq![rule, Seq::<char>::empty()]
}

/// A tagged line for the pipe: `TAG:JSON`.
pub open spec fn pipe_line_spec(tag: Seq<char>, json: Seq<char>) -> Seq<char> {
    tag + seq![':'] + json
}

/// A tagged line for the pipe.
pub fn pipe_line(tag: &str, json: &str) -> (r: String)
    ensures
        r@ == pipe_line_spec(tag@, json@),
{
    let mut out = chars_of(tag);
    out.push(':');
    push_str(&mut out, json);
    assert(out@ =~= pipe_line_spec(tag@, json@));
    string_from_chars(&out)
}

/// The lines of the saved-suites table for the given suite names.
pub fn suites_table(names: &Vec<String>) -> (r: Vec<String>)
    ensures
        r.deep_view() == suites_table_spec(names.deep_view()),
{
    let mut rule: Vec<char> = Vec::new();
    let mut k: usize = 0;
    while k < 85
        invariant
            k <= 85,
            rule@ == Seq::new(k as nat, |i: int| '-'),
        decreases 85 - k,
    {
        rule.push('-');
        k = k + 1;
        assert(rule@ =~= Seq::new(k as nat, |i: int| '-'));
    }
    let mut out: Vec<String> = Vec::new();
    out.push(String::new());
    out.push(string_from_chars(&chars_of("[ KONFIGURIERTE SUITES ]")));
    out.push(string_from_chars(&rule));
    let ghost head = out.deep_view();
    let empty = "";
    proof {
        reveal_strlit("");
        reveal_strlit("tasks|");
        reveal_strlit("-");
        reveal_strlit("hotkey|");
        let e = Seq::<char>::empty();
        assert(empty@ =~= e);
        assert(split_on(e, ';') =~= seq![e]);
        assert(seq![e].drop_last() =~= Seq::<Seq<char>>::empty());
        assert(!starts_with(e, "tasks|"@));
        assert(!starts_with(e, "hotkey|"@));
        assert(seq![e].last() == e);
        assert(suite_fields_spec(seq![e]) == suite_fields_spec(Seq::<Seq<char>>::empty()));
        let sp = split_on(e, ';');
        assert(sp == seq![e]);
        assert(suite_fields_spec(sp).0 == "-"@);
        assert(suite_tasks_text(e) == "-"@);
        assert(utf8_len("-"@) == 1) by {
            let d = "-"@;
            assert(d.len() == 1);
            assert(d[0] == '-');
            assert(d.drop_first() =~= Seq::<char>::empty());
            assert(utf8_len(d.drop_first()) == 0);
            assert(crate::text::utf8_width('-') == 1);
        }
    }
    let mut i: usize = 0;
    while i < names.len()
        invariant
            i <= names.len(),
            empty@ == Seq::<char>::empty(),
            utf8_len(suite_tasks_text(empty@)) <= 40,
            out.deep_view() == head + names.deep_view().take(i as int).map_values(
                |n: Seq<char>| suite_line_spec(n, Seq::<char>::empty()),
            ),
        decreases names.len() - i,
    {
        let line = suite_line(names[i].as_str(), empty);
        let ghost before = out.deep_view();
        out.push(line);
        assert(out.deep_view() =~= before.push(line@));
        i = i + 1;
        assert(names.deep_view().take(i as int).map_values(|n: Seq<char>| suite_line_spec(n, Seq::<char>::empty()))
            =~= names.deep_view().take(i - 1).map_values(|n: Seq<char>| suite_line_spec(n, Seq::<char>::empty()))
                .push(suite_line_spec(names@[i - 1]@, Seq::<char>::empty())));
    }
    let ghost body = out.deep_view();
    out.push(string_from_chars(&rule));
    out.push(String::new());
    proof {
        assert(names.deep_view().take(i as int) =~= names.deep_view());
        let rv = Seq::new(85, |i: int| '-');
        assert(rule@ =~= rv);
        let mid = names.deep_view().map_values(|n: Seq<char>| suite_line_spec(n, Seq::<char>::empty()));
        assert(body == head + mid);
        assert(head =~= seq![Seq::<char>::empty(), "[ KONFIGURIERTE SUITES ]"@, rv]);
        assert(out.deep_view() =~= body + seq![rv, Seq::<char>::empty()]);
        assert(out.deep_view() =~= suites_table_spec(names.deep_view()));
    }
    out
}

/// Whether a suite's task list can be shown in the table: it is at most 40
/// bytes long, or its first 37 bytes end on a character boundary.
pub open spec fn suite_line_fits_spec(config: Seq<char>) -> bool {
    utf8_len(suite_tasks_text(config)) > 40 ==> byte_prefix(suite_tasks_text(config), 37) is Some
}

/// Whether a suite's task list can be shown in the table.
pub fn suite_line_fits(config: &str) -> (r: bool)
    ensures
        r == suite_line_fits_spec(config@),
{
    let (tasks, _hotkey) = suite_fields(config);
    if utf8_len_exceeds(&tasks, 40) {
        match byte_prefix_exec(&tasks, 37) {
            Some(_) => true,
            None => false,
        }
    } else {
        true
    }
}

/// The lines of the saved-suites table for suites given with their stored
/// text: a blank line, the title, a rule of 85 dashes, one line per suite,
/// the rule again and a blank line.
pub open spec fn suites_config_table_spec(suites: Seq<(Seq<char>, Seq<char>)>) -> Seq<Seq<char>> {
    let rule = Seq::new(85, |i: int| '-');
    seq![Seq::<char>::empty(), "[ KONFIGURIERTE SUITES ]"@, rule]
        + suites.map_values(|e: (Seq<char>, Seq<char>)| suite_line_spec(e.0, e.1))
        + seq![rule, Seq::<char>::empty()]
}

/// The suites with their stored texts.
pub open spec fn suite_texts(suites: Seq<(String, String)>) -> Seq<(Seq<char>, Seq<char>)> {
    suites.map_values(|e: (String, String)| (e.0@, e.1@))
}

/// The lines of the saved-suites table for suites with their stored text.
pub fn suites_config_table(suites: &Vec<(String, String)>) -> (r: Vec<String>)
    requires
        forall|i: int| 0 <= i < suites@.len() ==> suite_line_fits_spec(#[trigger] suites@[i].1@),
    ensures
        r.deep_view() == suites_config_table_spec(suite_texts(suites@)),
{
    let ghost sv = suite_texts(suites@);
    let mut rule: Vec<char> = Vec::new();
    let mut k: usize = 0;
    while k < 85
        invariant
            k <= 85,
            rule@ == Seq::new(k as nat, |i: int| '-'),
        decreases 85 - k,
    {
        rule.push('-');
        k = k + 1;
        assert(rule@ =~= Seq::new(k as nat, |i: int| '-'));
    }
    let mut out: Vec<String> = Vec::new();
    out.push(String::new());
    out.push(string_from_chars(&chars_of("[ KONFIGURIERTE SUITES ]")));
    out.push(string_from_chars(&rule));
    let ghost head = out.deep_view();
    let mut i: usize = 0;
    while i < suites.len()
        invariant
            i <= suites.len(),
            sv == suite_texts(suites@),
            forall|j: int| 0 <= j < suites@.len() ==> suite_line_fits_spec(#[trigger] suites@[j].1@),
            out.deep_view() == head + sv.take(i as int).map_values(
                |e: (Seq<char>, Seq<char>)| suite_line_spec(e.0, e.1),
            ),
        decreases suites.len() - i,
    {
        assert(suite_line_fits_spec(suites@[i as int].1@));
        let line = suite_line(suites[i].0.as_str(), suites[i].1.as_str());
        let ghost before = out.deep_view();
        out.push(line);
        assert(out.deep_view() =~= before.push(line@));
        i = i + 1;
        assert(sv.take(i as int).map_values(|e: (Seq<char>, Seq<char>)| suite_line_spec(e.0, e.1))
            =~= sv.take(i - 1).map_values(|e: (Seq<char>, Seq<char>)| suite_line_spec(e.0, e.1))
                .push(suite_line_spec(suites@[i - 1].0@, suites@[i - 1].1@)));
    }
    let ghost body = out.deep_view();
    out.push(string_from_chars(&rule));
    out.push(String::new());
    proof {
        assert(sv.take(i as int) =~= sv);
        let rv = Seq::new(85, |i: int| '-');
        assert(rule@ =~= rv);
        let mid = sv.map_values(|e: (Seq<char>, Seq<char>)| suite_line_spec(e.0, e.1));
        assert(body == head + mid);
        assert(head =~= seq![Seq::<char>::empty(), "[ KONFIGURIERTE SUITES ]"@, rv]);
        assert(out.deep_view() =~= body + seq![rv, Seq::<char>::empty()]);
        assert(out.deep_view() =~= suites_config_table_spec(sv));
    }
    out
}

} // verus!
