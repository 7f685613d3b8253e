//! Properties that tie the writers of the text formats to their readers.

use vstd::prelude::*;
use crate::text::{
    all_digits, free_of, int_decimal, is_digit, join_with, nat_decimal, parse_i32_spec,
    parse_u32_spec, split_on, lemma_nat_decimal, lemma_parse_i32_decimal,
    lemma_parse_u32_decimal, lemma_split_join,
};
use crate::scraper::TaskModel;
use crate::cli::{parse_task_spec, field_at, unless_zero, percent_of, freq_of};
use crate::deployer::{
    format_task_spec, formatted_tasks, format_task_args_spec, suite_config_spec, task_fields,
    or_zero, or_999,
};
use crate::engine::{parsed_tasks, parse_suite_config_spec, suite_parts_spec};
use crate::daemon::{
    first_hotkey_part, hotkey_of_config_spec, hotkey_binding_spec, registrations_spec, suite_entries_spec,
};
use crate::config::SuiteConfig;
use crate::display_snapshot::match_display_spec;
use crate::text::upper;
use crate::scraper::{opt_chars, task_models};
use crate::text::{starts_with, remove_pair, trim_spec, trim_start_spec, trim_end_spec, is_whitespace};
use crate::scraper::{DisplayRow, row_task_spec, i32_or_zero, u32_or_zero};
use crate::config::{suite_file_spec, suite_names_spec, trim_json_suffix, ends_with_json};
use crate::config::hotkey_combo_spec;
use crate::engine::{stage_mode_spec, Orientation, engine_step_spec, engine_followup_spec};
use crate::display_apply::{ApplyStep, OutputIdentity, step_spec};
use crate::scraper::DisplayTask;
use crate::scraper::scan::{is_serial_block, parse_edid_spec, serial_from, utf8_lossy};
use crate::text::trim_char_spec;

verus! {

/// A task whose text fields can be written in the task string format and read
/// back: the query, direction and animation hold no `:`, a direction or
/// animation is not the placeholder `0`, and brightness and contrast are
/// percentages.
pub open spec fn task_text_ok(t: TaskModel) -> bool {
    &&& free_of(t.query, ':')
    &&& (t.direction matches Some(d) ==> free_of(d, ':') && d != seq!['0'])
    &&& (t.animation matches Some(a) ==> free_of(a, ':') && a != seq!['0'])
    &&& (t.brightness matches Some(b) ==> b <= 100)
    &&& (t.contrast matches Some(c) ==> c <= 100)
}

/// The text of a field holds none of the separators of the suite text.
pub open spec fn suite_text_free(s: Seq<char>) -> bool {
    free_of(s, ',') && free_of(s, ';') && free_of(s, '|')
}

/// A task that can be stored in a suite's registry text and read back.
pub open spec fn task_suite_ok(t: TaskModel) -> bool {
    &&& task_text_ok(t)
    &&& suite_text_free(t.query)
    &&& (t.direction matches Some(d) ==> suite_text_free(d))
    &&& (t.animation matches Some(a) ==> suite_text_free(a))
}

proof fn lemma_decimal_free(n: nat, c: char)
    requires
        !is_digit(c),
    ensures
        free_of(nat_decimal(n), c),
{
    lemma_nat_decimal(n);
    let s = nat_decimal(n);
    assert forall|i: int| 0 <= i < s.len() implies #[trigger] s[i] != c by {
        assert(is_digit(s[i]));
    }
}

proof fn lemma_int_decimal_free(n: int, c: char)
    requires
        !is_digit(c),
        c != '-',
    ensures
        free_of(int_decimal(n), c),
{
    if n < 0 {
        lemma_decimal_free((-n) as nat, c);
        let s = int_decimal(n);
        let d = nat_decimal((-n) as nat);
        assert forall|i: int| 0 <= i < s.len() implies #[trigger] s[i] != c by {
            if i > 0 {
                assert(s[i] == d[i - 1]);
            }
        }
    } else {
        lemma_decimal_free(n as nat, c);
    }
}

proof fn lemma_fields_free(t: TaskModel, c: char)
    requires
        !is_digit(c),
        c != '-',
        free_of(t.query, c),
        t.direction matches Some(d) ==> free_of(d, c),
        t.animation matches Some(a) ==> free_of(a, c),
    ensures
        forall|i: int| 0 <= i < task_fields(t).len() ==> free_of(#[trigger] task_fields(t)[i], c),
{
    let f = task_fields(t);
    lemma_int_decimal_free(t.width as int, c);
    lemma_int_decimal_free(t.height as int, c);
    lemma_int_decimal_free(t.x as int, c);
    lemma_int_decimal_free(t.y as int, c);
    lemma_decimal_free(t.freq as nat, c);
    lemma_decimal_free(or_999(t.brightness), c);
    lemma_decimal_free(or_999(t.contrast), c);
    assert(free_of(f[5], c)) by {
        assert(f[5].len() == 1);
    }
    assert(free_of(f[6], c)) by {
        if t.direction is None {
            assert(f[6] =~= seq!['0']);
        }
    }
    assert(free_of(f[10], c)) by {
        if t.animation is None {
            assert(f[10] =~= seq!['0']);
        }
    }
}

/// Joining fields that hold no `c` with a separator other than `c` gives
/// text that holds no `c`.
proof fn lemma_join_free(fields: Seq<Seq<char>>, sep: char, c: char)
    requires
        sep != c,
        forall|i: int| 0 <= i < fields.len() ==> free_of(#[trigger] fields[i], c),
    ensures
        free_of(join_with(fields, sep), c),
    decreases fields.len(),
{
    if fields.len() == 0 {
    } else if fields.len() == 1 {
        assert(free_of(fields[0], c));
    } else {
        let init = fields.drop_last();
        assert forall|i: int| 0 <= i < init.len() implies free_of(#[trigger] init[i], c) by {
            assert(init[i] == fields[i]);
        }
        lemma_join_free(init, sep, c);
        let a = join_with(init, sep);
        let b = fields.last();
        assert(free_of(fields[fields.len() - 1], c));
        let j = a + seq![sep] + b;
        assert forall|i: int| 0 <= i < j.len() implies #[trigger] j[i] != c by {
            if i < a.len() {
                assert(j[i] == a[i]);
            } else if i == a.len() {
                assert(j[i] == sep);
            } else {
                assert(j[i] == b[i - a.len() - 1]);
            }
        }
    }
}

proof fn lemma_ne_one_zero()
    ensures
        seq!['0'] != seq!['1'],
{
    assert(seq!['0'][0] != seq!['1'][0]);
}

/// Reading a task string gives back the task that was written, for every task
/// whose text fields fit the format.
pub proof fn law_task_text_roundtrip(t: TaskModel)
    requires
        task_text_ok(t),
    ensures
        parse_task_spec(format_task_spec(t)) == Some(t),
{
    let f = task_fields(t);
    lemma_fields_free(t, ':');
    lemma_split_join(f, ':');
    let p = split_on(format_task_spec(t), ':');
    assert(p == f);
    lemma_parse_i32_decimal(t.width);
    lemma_parse_i32_decimal(t.height);
    lemma_parse_i32_decimal(t.x);
    lemma_parse_i32_decimal(t.y);
    lemma_parse_u32_decimal(t.freq);
    lemma_ne_one_zero();
    assert(field_at(p, 5) == Some(seq!['1']) <==> t.is_primary);
    assert(unless_zero(field_at(p, 6)) == t.direction);
    assert(unless_zero(field_at(p, 10)) == t.animation);
    assert(freq_of(field_at(p, 7)) == t.freq);
    assert(percent_of(field_at(p, 8)) == t.brightness) by {
        match t.brightness {
            Some(b) => {
                lemma_parse_u32_decimal(b);
            },
            None => {
                lemma_parse_u32_decimal(999);
            },
        }
    }
    assert(percent_of(field_at(p, 9)) == t.contrast) by {
        match t.contrast {
            Some(c) => {
                lemma_parse_u32_decimal(c);
            },
            None => {
                lemma_parse_u32_decimal(999);
            },
        }
    }
}

proof fn lemma_parsed_formatted(tasks: Seq<TaskModel>)
    requires
        forall|i: int| 0 <= i < tasks.len() ==> task_text_ok(#[trigger] tasks[i]),
    ensures
        parsed_tasks(formatted_tasks(tasks)) == tasks,
    decreases tasks.len(),
{
    if tasks.len() > 0 {
        let init = tasks.drop_last();
        assert forall|i: int| 0 <= i < init.len() implies task_text_ok(#[trigger] init[i]) by {
            assert(init[i] == tasks[i]);
        }
        lemma_parsed_formatted(init);
        assert(formatted_tasks(tasks).drop_last() =~= formatted_tasks(init));
        assert(task_text_ok(tasks[tasks.len() - 1]));
        law_task_text_roundtrip(tasks.last());
        assert(init.push(tasks.last()) =~= tasks);
    }
}

proof fn lemma_task_text_free(t: TaskModel, c: char)
    requires
        task_suite_ok(t),
        c == ',' || c == ';' || c == '|',
    ensures
        free_of(format_task_spec(t), c),
{
    lemma_fields_free(t, c);
    lemma_join_free(task_fields(t), ':', c);
}

proof fn lemma_task_args_free(tasks: Seq<TaskModel>, c: char)
    requires
        forall|i: int| 0 <= i < tasks.len() ==> task_suite_ok(#[trigger] tasks[i]),
        c == ';' || c == '|',
    ensures
        free_of(format_task_args_spec(tasks), c),
{
    let ft = formatted_tasks(tasks);
    assert forall|i: int| 0 <= i < ft.len() implies free_of(#[trigger] ft[i], c) by {
        assert(task_suite_ok(tasks[i]));
        lemma_task_text_free(tasks[i], c);
    }
    lemma_join_free(ft, ',', c);
}

proof fn lemma_tasks_part(tasks: Seq<TaskModel>)
    requires
        forall|i: int| 0 <= i < tasks.len() ==> task_suite_ok(#[trigger] tasks[i]),
    ensures
        parsed_tasks(split_on(format_task_args_spec(tasks), ',')) == tasks,
{
    let data = format_task_args_spec(tasks);
    if tasks.len() == 0 {
        assert(formatted_tasks(tasks) =~= Seq::<Seq<char>>::empty());
        assert(data =~= Seq::<char>::empty());
        let e = Seq::<char>::empty();
        assert(e.len() == 0);
        assert(split_on(e, ',') =~= seq![e]);
        assert(split_on(e, ':') =~= seq![e]);
        assert(parse_task_spec(e) is None);
        assert(seq![e].drop_last() =~= Seq::<Seq<char>>::empty());
        assert(seq![e].last() == e);
        assert(parsed_tasks(Seq::<Seq<char>>::empty()) =~= Seq::<TaskModel>::empty());
        assert(parsed_tasks(seq![e]) =~= Seq::<TaskModel>::empty());
        assert(tasks =~= Seq::<TaskModel>::empty());
    } else {
        let ft = formatted_tasks(tasks);
        assert forall|i: int| 0 <= i < ft.len() implies free_of(#[trigger] ft[i], ',') by {
            assert(task_suite_ok(tasks[i]));
            lemma_task_text_free(tasks[i], ',');
        }
        lemma_split_join(ft, ',');
        assert forall|i: int| 0 <= i < tasks.len() implies task_text_ok(#[trigger] tasks[i]) by {
            assert(task_suite_ok(tasks[i]));
        }
        lemma_parsed_formatted(tasks);
    }
}

proof fn lemma_key_value(key: Seq<char>, value: Seq<char>)
    requires
        free_of(key, '|'),
        free_of(value, '|'),
    ensures
        split_on(key + seq!['|'] + value, '|') == seq![key, value],
{
    let fields = seq![key, value];
    assert(fields.drop_last() =~= seq![key]);
    assert(join_with(seq![key], '|') == key);
    assert(fields.last() == value);
    assert(join_with(fields, '|') =~= key + seq!['|'] + value);
    lemma_split_join(fields, '|');
}

/// The `;`-separated parts of a suite's registry text.
pub open spec fn suite_parts(
    tasks: Seq<TaskModel>,
    post: Option<Seq<char>>,
    hotkey: Option<Seq<char>>,
) -> Seq<Seq<char>> {
    let a = "tasks"@ + seq!['|'] + format_task_args_spec(tasks);
    let with_post: Seq<Seq<char>> = match post {
        Some(cmd) => seq![a].push("post"@ + seq!['|'] + cmd),
        None => seq![a],
    };
    match hotkey {
        Some(hk) => with_post.push("hotkey"@ + seq!['|'] + hk),
        None => with_post,
    }
}

proof fn lemma_suite_text(
    tasks: Seq<TaskModel>,
    post: Option<Seq<char>>,
    hotkey: Option<Seq<char>>,
)
    requires
        forall|i: int| 0 <= i < tasks.len() ==> task_suite_ok(#[trigger] tasks[i]),
        post matches Some(p) ==> free_of(p, ';') && free_of(p, '|'),
        hotkey matches Some(h) ==> free_of(h, ';') && free_of(h, '|'),
    ensures
        parse_suite_config_spec(suite_config_spec(tasks, post, hotkey)) == (tasks, post),
        split_on(suite_config_spec(tasks, post, hotkey), ';') == suite_parts(tasks, post, hotkey),
{
    reveal_strlit("tasks|");
    reveal_strlit(";post|");
    reveal_strlit(";hotkey|");
    reveal_strlit("tasks");
    reveal_strlit("post");
    reveal_strlit("hotkey");
    let data = format_task_args_spec(tasks);
    lemma_task_args_free(tasks, ';');
    lemma_task_args_free(tasks, '|');
    let tasks_key = "tasks"@;
    let post_key = "post"@;
    let hotkey_key = "hotkey"@;
    assert(free_of(tasks_key, '|') && free_of(tasks_key, ';'));
    assert(free_of(post_key, '|') && free_of(post_key, ';'));
    assert(free_of(hotkey_key, '|') && free_of(hotkey_key, ';'));
    let a = tasks_key + seq!['|'] + data;
    assert("tasks|"@ + data =~= a);
    assert(free_of(a, ';')) by {
        assert forall|i: int| 0 <= i < a.len() implies #[trigger] a[i] != ';' by {
            if i >= 6 {
                assert(a[i] == data[i - 6]);
            }
        }
    }
    lemma_key_value(tasks_key, data);
    assert(tasks_key != post_key) by {
        assert(tasks_key[0] != post_key[0]);
    }
    assert(hotkey_key != post_key) by {
        assert(hotkey_key[0] != post_key[0]);
    }
    assert(hotkey_key != tasks_key) by {
        assert(hotkey_key[0] != tasks_key[0]);
    }
    // The tasks part alone.
    lemma_tasks_part(tasks);
    let s1 = suite_parts_spec(seq![a]);
    assert(seq![a].drop_last() =~= Seq::<Seq<char>>::empty());
    assert(Seq::<TaskModel>::empty() + tasks =~= tasks);
    assert(seq![a].last() == a);
    assert(split_on(a, '|')[0] == tasks_key);
    assert(split_on(a, '|')[1] == data);
    assert(split_on(a, '|').len() == 2);
    assert(suite_parts_spec(seq![a].drop_last()) == (Seq::<TaskModel>::empty(), None::<Seq<char>>));
    assert(s1.0 =~= tasks);
    assert(s1.1 == None::<Seq<char>>);
    let base_parts: Seq<Seq<char>> = seq![a];
    let with_post: Seq<Seq<char>> = match post {
        Some(cmd) => base_parts.push(post_key + seq!['|'] + cmd),
        None => base_parts,
    };
    let parts: Seq<Seq<char>> = match hotkey {
        Some(hk) => with_post.push(hotkey_key + seq!['|'] + hk),
        None => with_post,
    };
    // The text is the parts joined with `;`.
    let config = suite_config_spec(tasks, post, hotkey);
    assert(join_with(base_parts, ';') == a);
    assert(suite_parts_spec(with_post) == (tasks, post)) by {
        match post {
            Some(cmd) => {
                let pp = post_key + seq!['|'] + cmd;
                lemma_key_value(post_key, cmd);
                assert(with_post.drop_last() =~= base_parts);
                assert(with_post.last() == pp);
            },
            None => {},
        }
    }
    let post_text = match post {
        Some(cmd) => a + ";post|"@ + cmd,
        None => a,
    };
    assert(join_with(with_post, ';') == post_text) by {
        match post {
            Some(cmd) => {
                assert(with_post.drop_last() =~= base_parts);
                assert(a + seq![';'] + (post_key + seq!['|'] + cmd) =~= a + ";post|"@ + cmd);
            },
            None => {},
        }
    }
    assert(join_with(parts, ';') =~= config) by {
        match hotkey {
            Some(hk) => {
                assert(parts.drop_last() =~= with_post);
                assert(post_text + seq![';'] + (hotkey_key + seq!['|'] + hk) =~= post_text
                    + ";hotkey|"@ + hk);
            },
            None => {},
        }
    }
    assert(suite_parts_spec(parts) == (tasks, post)) by {
        match hotkey {
            Some(hk) => {
                lemma_key_value(hotkey_key, hk);
                assert(parts.drop_last() =~= with_post);
            },
            None => {},
        }
    }
    assert forall|i: int| 0 <= i < parts.len() implies free_of(#[trigger] parts[i], ';') by {
        if i == 0 {
            assert(parts[0] == a);
        } else {
            let q = parts[i];
            if i == 1 && post is Some {
                let cmd = post->0;
                assert(q == post_key + seq!['|'] + cmd);
                assert forall|k: int| 0 <= k < q.len() implies #[trigger] q[k] != ';' by {
                    if k >= 5 {
                        assert(q[k] == cmd[k - 5]);
                    }
                }
            } else {
                let hk = hotkey->0;
                assert(q == hotkey_key + seq!['|'] + hk);
                assert forall|k: int| 0 <= k < q.len() implies #[trigger] q[k] != ';' by {
                    if k >= 7 {
                        assert(q[k] == hk[k - 7]);
                    }
                }
            }
        }
    }
    lemma_split_join(parts, ';');
    assert(parts == suite_parts(tasks, post, hotkey));
}

/// Reading a suite's registry text gives back the tasks and the post command
/// it was written with, when the task texts, the post command and the hotkey
/// hold none of the separators of the format.
pub proof fn law_suite_config_roundtrip(
    tasks: Seq<TaskModel>,
    post: Option<Seq<char>>,
    hotkey: Option<Seq<char>>,
)
    requires
        forall|i: int| 0 <= i < tasks.len() ==> task_suite_ok(#[trigger] tasks[i]),
        post matches Some(p) ==> free_of(p, ';') && free_of(p, '|'),
        hotkey matches Some(h) ==> free_of(h, ';') && free_of(h, '|'),
    ensures
        parse_suite_config_spec(suite_config_spec(tasks, post, hotkey)) == (tasks, post),
{
    lemma_suite_text(tasks, post, hotkey);
}

/// The listener reads back the hotkey that a suite's registry text was
/// written with, under the same conditions.
pub proof fn law_suite_hotkey_roundtrip(
    tasks: Seq<TaskModel>,
    post: Option<Seq<char>>,
    hotkey: Seq<char>,
)
    requires
        forall|i: int| 0 <= i < tasks.len() ==> task_suite_ok(#[trigger] tasks[i]),
        post matches Some(p) ==> free_of(p, ';') && free_of(p, '|'),
        free_of(hotkey, ';') && free_of(hotkey, '|'),
    ensures
        hotkey_of_config_spec(suite_config_spec(tasks, post, Some(hotkey))) == Some(hotkey),
{
    lemma_suite_text(tasks, post, Some(hotkey));
    reveal_strlit("tasks");
    reveal_strlit("post");
    reveal_strlit("hotkey");
    reveal_strlit("hotkey|");
    let parts = suite_parts(tasks, post, Some(hotkey));
    let h = "hotkey"@ + seq!['|'] + hotkey;
    assert(h.subrange(0, 7) =~= "hotkey|"@);
    assert(starts_with(h, "hotkey|"@));
    let a = parts[0];
    assert(a[0] == 't');
    assert(!starts_with(a, "hotkey|"@)) by {
        if starts_with(a, "hotkey|"@) {
            assert(a.subrange(0, 7)[0] == 'h');
        }
    }
    let rest = parts.drop_first();
    match post {
        Some(cmd) => {
            let p = rest[0];
            assert(p == "post"@ + seq!['|'] + cmd);
            assert(p[0] == 'p');
            assert(!starts_with(p, "hotkey|"@)) by {
                if starts_with(p, "hotkey|"@) {
                    assert(p.subrange(0, 7)[0] == 'h');
                }
            }
            assert(rest.drop_first() =~= seq![h]);
            assert(first_hotkey_part(seq![h]) == Some(h));
            assert(first_hotkey_part(rest) == Some(h));
        },
        None => {
            assert(rest =~= seq![h]);
        },
    }
    assert(first_hotkey_part(parts) == Some(h));
    lemma_key_value("hotkey"@, hotkey);
    assert(free_of("hotkey"@, '|'));
}


proof fn lemma_remove_pair_free_prefix(p: Seq<char>, t: Seq<char>)
    requires
        free_of(p, 'H'),
    ensures
        remove_pair(p + t, 'H', 'z') == p + remove_pair(t, 'H', 'z'),
    decreases p.len(),
{
    if p.len() == 0 {
        assert(p + t =~= t);
        assert(p + remove_pair(t, 'H', 'z') =~= remove_pair(t, 'H', 'z'));
    } else {
        let q = p.drop_first();
        assert forall|i: int| 0 <= i < q.len() implies #[trigger] q[i] != 'H' by {
            assert(q[i] == p[i + 1]);
        }
        lemma_remove_pair_free_prefix(q, t);
        let s = p + t;
        assert(s[0] == p[0]);
        assert(p[0] != 'H');
        assert(s.drop_first() =~= q + t);
        assert(p + remove_pair(t, 'H', 'z') =~= seq![p[0]] + (q + remove_pair(t, 'H', 'z')));
    }
}

proof fn lemma_digits_untrimmed(n: nat)
    ensures
        trim_spec(nat_decimal(n)) == nat_decimal(n),
{
    lemma_nat_decimal(n);
    let s = nat_decimal(n);
    assert(is_digit(s[0]));
    assert(!is_whitespace(s[0]));
    assert(trim_start_spec(s) == s);
    assert(is_digit(s[s.len() - 1]));
    assert(!is_whitespace(s.last()));
    assert(trim_end_spec(s) == s);
}

/// Saving the scanned layout keeps each display's mode: the task made from
/// a row whose resolution reads `WxH` and whose refresh rate reads `FHz`
/// asks for width `W`, height `H` and frequency `F` at the row's position,
/// whenever `W` and `H` fit in an `i32`.
pub proof fn law_row_task_keeps_mode(row: DisplayRow, w: u32, h: u32, f: u32)
    requires
        row.resolution@ == nat_decimal(w as nat) + "x"@ + nat_decimal(h as nat),
        row.freq@ == nat_decimal(f as nat) + "Hz"@,
        w <= i32::MAX,
        h <= i32::MAX,
    ensures
        row_task_spec(row).width == w as i32,
        row_task_spec(row).height == h as i32,
        row_task_spec(row).freq == f,
        row_task_spec(row).x == row.x,
        row_task_spec(row).y == row.y,
        row_task_spec(row).is_primary == row.is_primary,
{
    reveal_strlit("x");
    reveal_strlit("Hz");
    let a = nat_decimal(w as nat);
    let b = nat_decimal(h as nat);
    lemma_decimal_free(w as nat, 'x');
    lemma_decimal_free(h as nat, 'x');
    let fields = seq![a, b];
    assert(fields.drop_last() =~= seq![a]);
    assert(join_with(seq![a], 'x') == a);
    assert(join_with(fields, 'x') =~= row.resolution@);
    lemma_split_join(fields, 'x');
    assert(split_on(row.resolution@, 'x') == fields);
    lemma_parse_i32_decimal(w as i32);
    lemma_parse_i32_decimal(h as i32);
    assert(int_decimal((w as i32) as int) == a);
    assert(int_decimal((h as i32) as int) == b);
    assert(i32_or_zero(a) == w as i32);
    assert(i32_or_zero(b) == h as i32);
    assert(crate::text::nth_field(row.resolution@, 'x', 1) == Some(b));
    let d = nat_decimal(f as nat);
    lemma_decimal_free(f as nat, 'H');
    lemma_remove_pair_free_prefix(d, "Hz"@);
    let hz = "Hz"@;
    assert(hz.subrange(2, hz.len() as int) =~= Seq::<char>::empty());
    assert(remove_pair(hz, 'H', 'z') == remove_pair(Seq::<char>::empty(), 'H', 'z'));
    assert(d + Seq::<char>::empty() =~= d);
    assert(remove_pair(row.freq@, 'H', 'z') == d);
    lemma_digits_untrimmed(f as nat);
    lemma_parse_u32_decimal(f);
    assert(u32_or_zero(trim_spec(d)) == f);
}

/// A saved suite is listed under the name it was saved with, for every name.
pub proof fn law_suite_file_listed(name: Seq<char>)
    ensures
        suite_names_spec(seq![suite_file_spec(name)]) == seq![name],
{
    reveal_strlit(".json");
    let file = suite_file_spec(name);
    assert(file.subrange(file.len() - 5, file.len() as int) =~= ".json"@);
    assert(file.subrange(0, file.len() - 5) =~= name);
    assert(ends_with_json(file));
    assert(trim_json_suffix(file) == name);
    assert(seq![file].drop_last() =~= Seq::<Seq<char>>::empty());
    assert(seq![file].last() == file);
    assert(suite_names_spec(Seq::<Seq<char>>::empty()) == Seq::<Seq<char>>::empty());
    assert(suite_names_spec(seq![file]) == suite_names_spec(seq![file].drop_last()).push(trim_json_suffix(file)));
    assert(suite_names_spec(seq![file]) =~= seq![name]);
}

/// Every hotkey the listener registers for its entries carries the index of
/// an entry, and applying the suite at that index applies the suite the
/// hotkey was registered for.
pub proof fn law_registered_hotkey_names_its_suite(entries: Seq<(Seq<char>, Seq<char>)>)
    requires
        entries.len() <= i32::MAX,
    ensures
        forall|k: int| 0 <= k < registrations_spec(entries).len() ==> {
            let r = #[trigger] registrations_spec(entries)[k];
            &&& 0 <= r.id < entries.len()
            &&& r.name == entries[r.id as int].0
        },
    decreases entries.len(),
{
    if entries.len() > 0 {
        let prev = entries.drop_last();
        law_registered_hotkey_names_its_suite(prev);
        assert forall|k: int| 0 <= k < registrations_spec(entries).len() implies {
            let r = #[trigger] registrations_spec(entries)[k];
            &&& 0 <= r.id < entries.len()
            &&& r.name == entries[r.id as int].0
        } by {
            if k < registrations_spec(prev).len() {
                let r = registrations_spec(prev)[k];
                assert(registrations_spec(entries)[k] == r);
                assert(entries[r.id as int] == prev[r.id as int]);
            }
        }
    }
}

proof fn lemma_registration_present(entries: Seq<(Seq<char>, Seq<char>)>, k: int, combo: Seq<char>)
    requires
        entries.len() <= i32::MAX,
        0 <= k < entries.len(),
        hotkey_of_config_spec(entries[k].1) == Some(combo),
        hotkey_binding_spec(combo).1 != 0,
    ensures
        exists|j: int| 0 <= j < registrations_spec(entries).len() && {
            let r = #[trigger] registrations_spec(entries)[j];
            &&& r.id == k
            &&& r.name == entries[k].0
            &&& r.combo == combo
            &&& r.modifiers == hotkey_binding_spec(combo).0
            &&& r.key_code == hotkey_binding_spec(combo).1
        },
    decreases entries.len(),
{
    let prev = entries.drop_last();
    if k == entries.len() - 1 {
        let j = registrations_spec(prev).len() as int;
        assert(registrations_spec(entries)[j].id == k);
    } else {
        assert(prev[k] == entries[k]);
        lemma_registration_present(prev, k, combo);
        let j = choose|j: int| 0 <= j < registrations_spec(prev).len() && {
            let r = #[trigger] registrations_spec(prev)[j];
            &&& r.id == k
            &&& r.name == prev[k].0
            &&& r.combo == combo
            &&& r.modifiers == hotkey_binding_spec(combo).0
            &&& r.key_code == hotkey_binding_spec(combo).1
        };
        assert(registrations_spec(entries)[j] == registrations_spec(prev)[j]);
    }
}

/// A suite saved with a hotkey gets that hotkey registered by the listener,
/// under the suite's name and index, when its texts hold none of the
/// separators of the suite text and the hotkey names a key.
pub proof fn law_saved_hotkey_registered(configs: Seq<SuiteConfig>, k: int, hotkey: Seq<char>)
    requires
        configs.len() <= i32::MAX,
        0 <= k < configs.len(),
        opt_chars(configs[k].hotkey) == Some(hotkey),
        forall|i: int| 0 <= i < task_models(configs[k].tasks@).len()
            ==> task_suite_ok(#[trigger] task_models(configs[k].tasks@)[i]),
        opt_chars(configs[k].post_cmd) matches Some(p) ==> free_of(p, ';') && free_of(p, '|'),
        free_of(hotkey, ';') && free_of(hotkey, '|'),
        hotkey_binding_spec(hotkey).1 != 0,
    ensures
        exists|j: int| 0 <= j < registrations_spec(suite_entries_spec(configs)).len() && {
            let r = #[trigger] registrations_spec(suite_entries_spec(configs))[j];
            &&& r.id == k
            &&& r.name == configs[k].name@
            &&& r.combo == hotkey
            &&& r.modifiers == hotkey_binding_spec(hotkey).0
            &&& r.key_code == hotkey_binding_spec(hotkey).1
        },
{
    let c = configs[k];
    law_suite_hotkey_roundtrip(task_models(c.tasks@), opt_chars(c.post_cmd), hotkey);
    let e = suite_entries_spec(configs);
    assert(e[k].1 == suite_config_spec(task_models(c.tasks@), opt_chars(c.post_cmd), Some(hotkey)));
    lemma_registration_present(e, k, hotkey);
}

proof fn lemma_join_append(a: Seq<Seq<char>>, b: Seq<Seq<char>>, sep: char)
    requires
        a.len() >= 1,
        b.len() >= 1,
    ensures
        join_with(a + b, sep) == join_with(a, sep) + seq![sep] + join_with(b, sep),
    decreases b.len(),
{
    if b.len() == 1 {
        assert((a + b).drop_last() =~= a);
        assert((a + b).last() == b[0]);
    } else {
        assert((a + b).drop_last() =~= a + b.drop_last());
        assert((a + b).last() == b.last());
        lemma_join_append(a, b.drop_last(), sep);
        assert(join_with(a, sep) + seq![sep] + join_with(b.drop_last(), sep) + seq![sep] + b.last()
            =~= join_with(a, sep) + seq![sep] + (join_with(b.drop_last(), sep) + seq![sep] + b.last()));
    }
}

/// The task list text of no tasks is empty, and that of two non-empty lists
/// one after the other is their texts joined with a comma.
pub proof fn law_format_task_args_concat(xs: Seq<TaskModel>, ys: Seq<TaskModel>)
    requires
        xs.len() >= 1,
        ys.len() >= 1,
    ensures
        format_task_args_spec(Seq::<TaskModel>::empty()) == Seq::<char>::empty(),
        format_task_args_spec(xs + ys) == format_task_args_spec(xs) + seq![','] + format_task_args_spec(ys),
{
    assert(formatted_tasks(Seq::<TaskModel>::empty()) =~= Seq::<Seq<char>>::empty());
    assert(formatted_tasks(xs + ys) =~= formatted_tasks(xs) + formatted_tasks(ys));
    lemma_join_append(formatted_tasks(xs), formatted_tasks(ys), ',');
}

/// Display queries are compared without regard to case: two queries with
/// the same upper-case form match the same rows.
pub proof fn law_match_ignores_case(row: DisplayRow, q1: Seq<char>, q2: Seq<char>)
    requires
        upper(q1) == upper(q2),
    ensures
        match_display_spec(row, q1) == match_display_spec(row, q2),
{
}

/// A staged mode for a quarter turn (90 or 270 degrees) swaps width and
/// height, and one without a quarter turn keeps them, unless the task
/// detaches the display (0x0), which stages a zero size; the orientation is
/// the task's.
pub proof fn law_stage_mode_quarter_turn_swaps(t: TaskModel)
    ensures
        (t.direction == Some("270"@) || t.direction == Some("left"@) || t.direction == Some("3"@))
            ==> stage_mode_spec(t).orientation == Orientation::Rotate270,
        (t.direction == Some("90"@) || t.direction == Some("right"@) || t.direction == Some("1"@))
            ==> stage_mode_spec(t).orientation == Orientation::Rotate90,
        (t.direction == Some("180"@) || t.direction == Some("inverted"@) || t.direction == Some("2"@))
            ==> stage_mode_spec(t).orientation == Orientation::Rotate180,
        t.direction is None ==> stage_mode_spec(t).orientation == Orientation::Default,
        (!(t.width == 0 && t.height == 0) && (stage_mode_spec(t).orientation == Orientation::Rotate90
            || stage_mode_spec(t).orientation == Orientation::Rotate270))
            ==> stage_mode_spec(t).width == t.height as u32 && stage_mode_spec(t).height == t.width as u32,
        (!(t.width == 0 && t.height == 0) && (stage_mode_spec(t).orientation == Orientation::Default
            || stage_mode_spec(t).orientation == Orientation::Rotate180))
            ==> stage_mode_spec(t).width == t.width as u32 && stage_mode_spec(t).height == t.height as u32,
        (t.width == 0 && t.height == 0) ==> stage_mode_spec(t).width == 0 && stage_mode_spec(t).height == 0
            && stage_mode_spec(t).detach,
        !(t.width == 0 && t.height == 0) ==> !stage_mode_spec(t).detach,
        stage_mode_spec(t).x == t.x && stage_mode_spec(t).y == t.y,
        stage_mode_spec(t).set_primary == t.is_primary,
        t.freq > 0 ==> stage_mode_spec(t).frequency == Some(t.freq),
        t.freq == 0 ==> stage_mode_spec(t).frequency is None,
{
    reveal_strlit("90");
    reveal_strlit("right");
    reveal_strlit("1");
    reveal_strlit("180");
    reveal_strlit("inverted");
    reveal_strlit("2");
    reveal_strlit("270");
    reveal_strlit("left");
    reveal_strlit("3");
    assert("90"@ != "1"@) by { assert("90"@.len() != "1"@.len()); }
    assert("right"@ != "1"@) by { assert("right"@.len() != "1"@.len()); }
    assert("right"@ != "90"@) by { assert("right"@.len() != "90"@.len()); }
    assert("2"@ != "1"@) by { assert("2"@[0] != "1"@[0]); }
    assert("2"@ != "90"@) by { assert("2"@.len() != "90"@.len()); }
    assert("2"@ != "right"@) by { assert("2"@.len() != "right"@.len()); }
    assert("180"@ != "1"@) by { assert("180"@.len() != "1"@.len()); }
    assert("180"@ != "90"@) by { assert("180"@.len() != "90"@.len()); }
    assert("180"@ != "right"@) by { assert("180"@.len() != "right"@.len()); }
    assert("180"@ != "2"@) by { assert("180"@.len() != "2"@.len()); }
    assert("inverted"@ != "1"@) by { assert("inverted"@.len() != "1"@.len()); }
    assert("inverted"@ != "90"@) by { assert("inverted"@.len() != "90"@.len()); }
    assert("inverted"@ != "right"@) by { assert("inverted"@.len() != "right"@.len()); }
    assert("inverted"@ != "2"@) by { assert("inverted"@.len() != "2"@.len()); }
    assert("inverted"@ != "180"@) by { assert("inverted"@.len() != "180"@.len()); }
    assert("3"@ != "1"@) by { assert("3"@[0] != "1"@[0]); }
    assert("3"@ != "90"@) by { assert("3"@.len() != "90"@.len()); }
    assert("3"@ != "right"@) by { assert("3"@.len() != "right"@.len()); }
    assert("3"@ != "2"@) by { assert("3"@[0] != "2"@[0]); }
    assert("3"@ != "180"@) by { assert("3"@.len() != "180"@.len()); }
    assert("3"@ != "inverted"@) by { assert("3"@.len() != "inverted"@.len()); }
    assert("270"@ != "1"@) by { assert("270"@.len() != "1"@.len()); }
    assert("270"@ != "90"@) by { assert("270"@.len() != "90"@.len()); }
    assert("270"@ != "right"@) by { assert("270"@.len() != "right"@.len()); }
    assert("270"@ != "2"@) by { assert("270"@.len() != "2"@.len()); }
    assert("270"@ != "180"@) by { assert("270"@[0] != "180"@[0]); }
    assert("270"@ != "inverted"@) by { assert("270"@.len() != "inverted"@.len()); }
    assert("270"@ != "3"@) by { assert("270"@.len() != "3"@.len()); }
    assert("left"@ != "1"@) by { assert("left"@.len() != "1"@.len()); }
    assert("left"@ != "90"@) by { assert("left"@.len() != "90"@.len()); }
    assert("left"@ != "right"@) by { assert("left"@.len() != "right"@.len()); }
    assert("left"@ != "2"@) by { assert("left"@.len() != "2"@.len()); }
    assert("left"@ != "180"@) by { assert("left"@.len() != "180"@.len()); }
    assert("left"@ != "inverted"@) by { assert("left"@.len() != "inverted"@.len()); }
    assert("left"@ != "3"@) by { assert("left"@.len() != "3"@.len()); }
    assert("left"@ != "270"@) by { assert("left"@.len() != "270"@.len()); }
}

/// When applying a task sends a DDC request, the request carries the task's
/// brightness and its contrast; and a task that sets neither sends none.
pub proof fn law_ddc_request_carries_task_values(
    step: ApplyStep,
    t: DisplayTask,
    inv: Seq<DisplayRow>,
    outputs: Seq<OutputIdentity>,
    devices: Seq<Seq<char>>,
)
    requires
        step_spec(step, t, inv, outputs, devices),
    ensures
        step matches ApplyStep::Activate { ddc: Some(d), .. } ==> d.brightness == t.brightness
            && d.contrast == t.contrast,
        (t.brightness is None && t.contrast is None) ==> !(step matches ApplyStep::Activate { ddc: Some(_), .. }),
{
}

/// The parts of a recorded hotkey: each held modifier, and the letter last.
pub proof fn law_hotkey_combo_holds_each_modifier(ctrl: bool, alt: bool, shift: bool, letter: u8)
    requires
        0x41 <= letter <= 0x5a,
    ensures
        ({
            let parts = split_on(hotkey_combo_spec(ctrl, alt, shift, letter as char), '+');
            &&& parts.contains("Ctrl"@) <==> ctrl
            &&& parts.contains("Alt"@) <==> alt
            &&& parts.contains("Shift"@) <==> shift
            &&& parts.last() == seq![letter as char]
            &&& parts.len() == 1 + (if ctrl { 1int } else { 0 }) + (if alt { 1int } else { 0 })
                + (if shift { 1int } else { 0 })
        }),
{
    reveal_strlit("Ctrl");
    reveal_strlit("Alt");
    reveal_strlit("Shift");
    let c = "Ctrl"@;
    let a = "Alt"@;
    let sh = "Shift"@;
    let l = seq![letter as char];
    let p0: Seq<Seq<char>> = if ctrl { seq![c] } else { Seq::empty() };
    let p1: Seq<Seq<char>> = if alt { p0.push(a) } else { p0 };
    let p2: Seq<Seq<char>> = if shift { p1.push(sh) } else { p1 };
    let parts = p2.push(l);
    assert(parts == crate::config::hotkey_parts_spec(ctrl, alt, shift, letter as char));
    assert forall|i: int| 0 <= i < parts.len() implies free_of(#[trigger] parts[i], '+') by {
        let x = parts[i];
        assert(x == c || x == a || x == sh || x == l);
        if x == c { assert(c =~= seq!['C', 't', 'r', 'l']); }
        if x == a { assert(a =~= seq!['A', 'l', 't']); }
        if x == sh { assert(sh =~= seq!['S', 'h', 'i', 'f', 't']); }
    }
    lemma_split_join(parts, '+');
    assert(c.len() == 4 && a.len() == 3 && sh.len() == 5 && l.len() == 1);
    assert(c != a && c != sh && a != sh);
    assert(forall|i: int| 0 <= i < parts.len() ==> (#[trigger] parts[i]) == c || parts[i] == a || parts[i] == sh
        || parts[i] == l);
    if ctrl {
        assert(parts[0] == c);
    } else {
        assert(forall|i: int| 0 <= i < parts.len() ==> #[trigger] parts[i] != c);
    }
    if alt {
        assert(parts[p1.len() - 1] == a);
    } else {
        assert(forall|i: int| 0 <= i < parts.len() ==> #[trigger] parts[i] != a);
    }
    if shift {
        assert(parts[p2.len() - 1] == sh);
    } else {
        assert(forall|i: int| 0 <= i < parts.len() ==> #[trigger] parts[i] != sh);
    }
}

/// The text of the serial-number descriptor at `off`: its 14 data bytes,
/// trimmed of whitespace and then of NULs.
pub open spec fn descriptor_text(bytes: Seq<u8>, off: int) -> Seq<char> {
    trim_char_spec(trim_spec(utf8_lossy(bytes.subrange(off + 4, off + 18))), '\0')
}

/// The serial read from a full EDID block is the text of the first of the
/// descriptor blocks at offsets 54, 72, 90 and 108 that holds a serial
/// number, and `N/A` only when none of the four does.
pub proof fn law_edid_serial_first_descriptor(bytes: Seq<u8>)
    requires
        bytes.len() >= 128,
    ensures
        ({
            let sn = parse_edid_spec(bytes).0;
            &&& is_serial_block(bytes, 54) ==> sn == descriptor_text(bytes, 54)
            &&& (!is_serial_block(bytes, 54) && is_serial_block(bytes, 72)) ==> sn == descriptor_text(bytes, 72)
            &&& (!is_serial_block(bytes, 54) && !is_serial_block(bytes, 72) && is_serial_block(bytes, 90))
                ==> sn == descriptor_text(bytes, 90)
            &&& (!is_serial_block(bytes, 54) && !is_serial_block(bytes, 72) && !is_serial_block(bytes, 90)
                && is_serial_block(bytes, 108)) ==> sn == descriptor_text(bytes, 108)
            &&& (!is_serial_block(bytes, 54) && !is_serial_block(bytes, 72) && !is_serial_block(bytes, 90)
                && !is_serial_block(bytes, 108)) ==> sn == "N/A"@
        }),
{
    reveal_with_fuel(serial_from, 5);
}

/// When the engine stages a task, its DDC request carries the task's
/// brightness and contrast, and there is one exactly when the task sets
/// either; the request sent after staging carries the same values.
pub proof fn law_engine_ddc_carries_task_values(
    t: TaskModel,
    inv: Seq<DisplayRow>,
    snapshot: Seq<crate::engine::SnapshotEntry>,
    staged: bool,
    monitors: Seq<(isize, Seq<char>)>,
)
    ensures
        engine_step_spec(t, inv, snapshot) matches Some(st) ==> ({
            &&& (st.ddc is Some <==> (t.brightness is Some || t.contrast is Some))
            &&& (st.ddc matches Some(d) ==> d.brightness == t.brightness && d.contrast == t.contrast)
            &&& (engine_followup_spec(st, staged, monitors) matches Some(c) ==> staged
                && c.brightness == t.brightness && c.contrast == t.contrast)
            &&& !staged ==> engine_followup_spec(st, staged, monitors) is None
        }),
{
}

} // verus!
