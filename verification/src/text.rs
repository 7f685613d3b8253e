//! Character-sequence helpers shared by the parsers and formatters:
//! decimal numbers, field splitting and joining, and conversions between
//! `str`/`String` and `Vec<char>`.

use vstd::prelude::*;

verus! {

// ---------------------------------------------------------------------------
// Decimal digits
// ---------------------------------------------------------------------------

/// An ASCII decimal digit.
pub open spec fn is_digit(c: char) -> bool {
    '0' <= c && c <= '9'
}

/// The value of an ASCII decimal digit.
pub open spec fn digit_value(c: char) -> int {
    c as int - '0' as int
}

/// The ASCII digit for `d` (for `d < 10`).
pub open spec fn digit_char(d: int) -> char {
    if d == 0 { '0' }
    else if d == 1 { '1' }
    else if d == 2 { '2' }
    else if d == 3 { '3' }
    else if d == 4 { '4' }
    else if d == 5 { '5' }
    else if d == 6 { '6' }
    else if d == 7 { '7' }
    else if d == 8 { '8' }
    else { '9' }
}

/// A non-empty run of ASCII digits.
pub open spec fn all_digits(s: Seq<char>) -> bool {
    s.len() > 0 && forall|i: int| 0 <= i < s.len() ==> is_digit(#[trigger] s[i])
}

/// The number that a run of digits denotes (most significant digit first).
pub open spec fn digits_value(s: Seq<char>) -> nat
    decreases s.len(),
{
    if s.len() == 0 {
        0
    } else {
        (digits_value(s.drop_last()) * 10 + digit_value(s.last())) as nat
    }
}

/// The shortest decimal representation of a natural number.
pub open spec fn nat_decimal(n: nat) -> Seq<char>
    decreases n,
{
    if n < 10 {
        seq![digit_char(n as int)]
    } else {
        nat_decimal(n / 10).push(digit_char((n % 10) as int))
    }
}

/// The decimal representation of an integer, with a leading `-` when negative
/// (what `Display` prints for Rust integers).
pub open spec fn int_decimal(i: int) -> Seq<char> {
    if i < 0 {
        seq!['-'] + nat_decimal((-i) as nat)
    } else {
        nat_decimal(i as nat)
    }
}

/// The digits that follow an optional leading `+`.
pub open spec fn unsigned_body(s: Seq<char>) -> Seq<char> {
    if s.len() > 0 && s[0] == '+' {
        s.drop_first()
    } else {
        s
    }
}

/// What `str::parse::<u32>` accepts and returns: an optional `+`, then one or
/// more ASCII digits whose value fits in a `u32`.
pub open spec fn parse_u32_spec(s: Seq<char>) -> Option<u32> {
    let d = unsigned_body(s);
    if all_digits(d) && digits_value(d) <= u32::MAX {
        Some(digits_value(d) as u32)
    } else {
        None
    }
}

/// What `str::parse::<i32>` accepts and returns: an optional sign, then one or
/// more ASCII digits whose signed value fits in an `i32`.
pub open spec fn parse_i32_spec(s: Seq<char>) -> Option<i32> {
    if s.len() > 0 && s[0] == '-' {
        let d = s.drop_first();
        if all_digits(d) && digits_value(d) <= 0x8000_0000 {
            Some((0 - digits_value(d)) as i32)
        } else {
            None
        }
    } else {
        let d = unsigned_body(s);
        if all_digits(d) && digits_value(d) <= i32::MAX {
            Some(digits_value(d) as i32)
        } else {
            None
        }
    }
}

proof fn lemma_digit_char(d: int)
    requires
        0 <= d < 10,
    ensures
        is_digit(digit_char(d)),
        digit_value(digit_char(d)) == d,
{
}

/// The decimal representation of `n` is a run of digits denoting `n`.
pub proof fn lemma_nat_decimal(n: nat)
    ensures
        all_digits(nat_decimal(n)),
        digits_value(nat_decimal(n)) == n,
    decreases n,
{
    if n < 10 {
        lemma_digit_char(n as int);
        let s = nat_decimal(n);
        assert(s.drop_last() =~= Seq::<char>::empty());
        assert(digits_value(s.drop_last()) == 0);
        assert(digits_value(s) == digits_value(s.drop_last()) * 10 + digit_value(s.last()));
    } else {
        lemma_nat_decimal(n / 10);
        lemma_digit_char((n % 10) as int);
        let s = nat_decimal(n);
        let p = nat_decimal(n / 10);
        assert(s.drop_last() =~= p);
        assert(s.last() == digit_char((n % 10) as int));
        assert(digits_value(s) == digits_value(p) * 10 + digit_value(s.last()));
        assert(n == (n / 10) * 10 + n % 10);
        assert forall|i: int| 0 <= i < s.len() implies is_digit(#[trigger] s[i]) by {
            if i < p.len() {
                assert(s[i] == p[i]);
            }
        }
    }
}

/// Parsing the decimal representation of a `u32` gives the number back.
pub proof fn lemma_parse_u32_decimal(n: u32)
    ensures
        parse_u32_spec(nat_decimal(n as nat)) == Some(n),
{
    lemma_nat_decimal(n as nat);
    let s = nat_decimal(n as nat);
    assert(is_digit(s[0]));
}

/// Parsing the decimal representation of an `i32` gives the number back.
pub proof fn lemma_parse_i32_decimal(n: i32)
    ensures
        parse_i32_spec(int_decimal(n as int)) == Some(n),
{
    if n < 0 {
        let m = (-(n as int)) as nat;
        lemma_nat_decimal(m);
        let s = int_decimal(n as int);
        assert(s.drop_first() =~= nat_decimal(m));
    } else {
        lemma_nat_decimal(n as nat);
        let s = nat_decimal(n as nat);
        assert(is_digit(s[0]));
    }
}

proof fn lemma_digits_value_prefix(s: Seq<char>, k: int)
    requires
        0 <= k <= s.len(),
        forall|i: int| 0 <= i < s.len() ==> is_digit(#[trigger] s[i]),
    ensures
        digits_value(s.take(k)) <= digits_value(s),
    decreases s.len(),
{
    if k < s.len() {
        assert(s.drop_last().take(k) =~= s.take(k));
        let t = s.drop_last();
        assert forall|i: int| 0 <= i < t.len() implies is_digit(#[trigger] t[i]) by {
            assert(t[i] == s[i]);
        }
        lemma_digits_value_prefix(t, k);
        assert(is_digit(s[s.len() - 1]));
        assert(digits_value(s) == digits_value(t) * 10 + digit_value(s.last()));
    } else {
        assert(s.take(k) =~= s);
    }
}

/// Appends the decimal representation of `n` to `out`.
pub fn push_decimal(out: &mut Vec<char>, n: u64)
    ensures
        final(out)@ == old(out)@ + nat_decimal(n as nat),
    decreases n,
{
    if n >= 10 {
        push_decimal(out, n / 10);
    }
    let d = n % 10;
    let c = if d == 0 { '0' }
        else if d == 1 { '1' }
        else if d == 2 { '2' }
        else if d == 3 { '3' }
        else if d == 4 { '4' }
        else if d == 5 { '5' }
        else if d == 6 { '6' }
        else if d == 7 { '7' }
        else if d == 8 { '8' }
        else { '9' };
    out.push(c);
    proof {
        if n >= 10 {
            assert(final(out)@ =~= old(out)@ + nat_decimal(n as nat));
        } else {
            assert(final(out)@ =~= old(out)@ + nat_decimal(n as nat));
        }
    }
}

/// Appends the decimal representation of `n` (with `-` when negative).
pub fn push_decimal_i64(out: &mut Vec<char>, n: i64)
    requires
        n > i64::MIN,
    ensures
        final(out)@ == old(out)@ + int_decimal(n as int),
{
    if n < 0 {
        out.push('-');
        let m: i64 = 0 - n;
        push_decimal(out, m as u64);
        assert(final(out)@ =~= old(out)@ + int_decimal(n as int));
    } else {
        push_decimal(out, n as u64);
    }
}

/// Parses the digits `s[start..]` as a decimal number no larger than `limit`.
fn parse_digits_upto(s: &Vec<char>, start: usize, limit: u64) -> (r: Option<u64>)
    requires
        start <= s.len(),
        limit <= 0x1_0000_0000,
    ensures
        r == (if all_digits(s@.subrange(start as int, s.len() as int))
            && digits_value(s@.subrange(start as int, s.len() as int)) <= limit {
            Some(digits_value(s@.subrange(start as int, s.len() as int)) as u64)
        } else {
            None::<u64>
        }),
{
    let ghost full = s@.subrange(start as int, s.len() as int);
    if start == s.len() {
        return None;
    }
    let mut acc: u64 = 0;
    let mut i: usize = start;
    while i < s.len()
        invariant
            start <= i <= s.len(),
            start < s.len(),
            full == s@.subrange(start as int, s.len() as int),
            acc as int == digits_value(s@.subrange(start as int, i as int)),
            acc <= limit,
            limit <= 0x1_0000_0000,
            forall|j: int| start <= j < i ==> is_digit(#[trigger] s@[j]),
        decreases s.len() - i,
    {
        let c = s[i];
        if !('0' <= c && c <= '9') {
            assert(full[i - start] == c);
            return None;
        }
        let d: u64 = (c as u32 - '0' as u32) as u64;
        let next: u64 = acc * 10 + d;
        let ghost pre = s@.subrange(start as int, i as int);
        let ghost pre1 = s@.subrange(start as int, i + 1);
        assert(pre1.drop_last() =~= pre);
        assert(pre1.last() == c);
        if next > limit {
            proof {
                assert(full.take(i + 1 - start) =~= pre1);
                if all_digits(full) {
                    lemma_digits_value_prefix(full, i + 1 - start);
                }
            }
            return None;
        }
        acc = next;
        i = i + 1;
    }
    proof {
        assert(s@.subrange(start as int, i as int) =~= full);
        assert forall|k: int| 0 <= k < full.len() implies is_digit(#[trigger] full[k]) by {
            assert(full[k] == s@[start + k]);
        }
    }
    Some(acc)
}

/// Parses a string as `str::parse::<u32>` does.
pub fn parse_u32(s: &Vec<char>) -> (r: Option<u32>)
    ensures
        r == parse_u32_spec(s@),
{
    let start: usize = if s.len() > 0 && s[0] == '+' { 1 } else { 0 };
    assert(unsigned_body(s@) =~= s@.subrange(start as int, s.len() as int));
    match parse_digits_upto(s, start, 0xffff_ffff) {
        Some(v) => Some(v as u32),
        None => None,
    }
}

/// Parses a string as `str::parse::<i32>` does.
pub fn parse_i32(s: &Vec<char>) -> (r: Option<i32>)
    ensures
        r == parse_i32_spec(s@),
{
    if s.len() > 0 && s[0] == '-' {
        assert(s@.drop_first() =~= s@.subrange(1, s.len() as int));
        match parse_digits_upto(s, 1, 0x8000_0000) {
            Some(v) => {
                let neg: i64 = 0 - (v as i64);
                Some(neg as i32)
            },
            None => None,
        }
    } else {
        let start: usize = if s.len() > 0 && s[0] == '+' { 1 } else { 0 };
        assert(unsigned_body(s@) =~= s@.subrange(start as int, s.len() as int));
        match parse_digits_upto(s, start, 0x7fff_ffff) {
            Some(v) => Some(v as i32),
            None => None,
        }
    }
}


// ---------------------------------------------------------------------------
// Splitting and joining on a separator
// ---------------------------------------------------------------------------

/// The fields of `s` between occurrences of `sep`, as `str::split(sep)`
/// yields them: there is always at least one field, and empty fields are kept.
pub open spec fn split_on(s: Seq<char>, sep: char) -> Seq<Seq<char>>
    decreases s.len(),
{
    if s.len() == 0 {
        seq![Seq::<char>::empty()]
    } else {
        let prev = split_on(s.drop_last(), sep);
        if s.last() == sep {
            prev.push(Seq::<char>::empty())
        } else {
            prev.update(prev.len() - 1, prev.last().push(s.last()))
        }
    }
}

/// The fields joined with `sep` between them (`[..].join(sep)`).
pub open spec fn join_with(fields: Seq<Seq<char>>, sep: char) -> Seq<char>
    decreases fields.len(),
{
    if fields.len() == 0 {
        Seq::<char>::empty()
    } else if fields.len() == 1 {
        fields[0]
    } else {
        join_with(fields.drop_last(), sep) + seq![sep] + fields.last()
    }
}

/// `s` does not contain `c`.
pub open spec fn free_of(s: Seq<char>, c: char) -> bool {
    forall|i: int| 0 <= i < s.len() ==> #[trigger] s[i] != c
}

/// The `n`-th field of `s` split on `sep`, if there is one (`split(sep).nth(n)`).
pub open spec fn nth_field(s: Seq<char>, sep: char, n: int) -> Option<Seq<char>> {
    if 0 <= n < split_on(s, sep).len() {
        Some(split_on(s, sep)[n])
    } else {
        None
    }
}

pub proof fn lemma_split_len(s: Seq<char>, sep: char)
    ensures
        split_on(s, sep).len() >= 1,
    decreases s.len(),
{
    if s.len() > 0 {
        lemma_split_len(s.drop_last(), sep);
    }
}

proof fn lemma_split_append(s: Seq<char>, f: Seq<char>, sep: char)
    requires
        free_of(f, sep),
    ensures
        split_on(s + seq![sep] + f, sep) == split_on(s, sep).push(f),
    decreases f.len(),
{
    let t = s + seq![sep] + f;
    if f.len() == 0 {
        assert(f =~= Seq::<char>::empty());
        assert(t.drop_last() =~= s);
        assert(t.last() == sep);
        assert(split_on(t, sep) =~= split_on(s, sep).push(f));
    } else {
        let g = f.drop_last();
        assert forall|i: int| 0 <= i < g.len() implies #[trigger] g[i] != sep by {
            assert(g[i] == f[i]);
        }
        lemma_split_append(s, g, sep);
        assert(t.drop_last() =~= s + seq![sep] + g);
        assert(t.last() == f.last());
        assert(f.last() != sep);
        let prev = split_on(t.drop_last(), sep);
        assert(prev == split_on(s, sep).push(g));
        assert(split_on(t, sep) == prev.update(prev.len() - 1, prev.last().push(t.last())));
        assert(g.push(f.last()) =~= f);
        assert(split_on(t, sep) =~= split_on(s, sep).push(f));
    }
}

proof fn lemma_split_single(f: Seq<char>, sep: char)
    requires
        free_of(f, sep),
    ensures
        split_on(f, sep) == seq![f],
    decreases f.len(),
{
    if f.len() == 0 {
        assert(f =~= Seq::<char>::empty());
        assert(split_on(f, sep) =~= seq![f]);
    } else {
        let g = f.drop_last();
        assert forall|i: int| 0 <= i < g.len() implies #[trigger] g[i] != sep by {
            assert(g[i] == f[i]);
        }
        lemma_split_single(g, sep);
        assert(f.last() != sep);
        let prev = split_on(f.drop_last(), sep);
        assert(prev == seq![g]);
        assert(split_on(f, sep) == prev.update(prev.len() - 1, prev.last().push(f.last())));
        assert(g.push(f.last()) =~= f);
        assert(split_on(f, sep) =~= seq![f]);
    }
}

/// Splitting a join gives back the fields, when no field holds the separator.
pub proof fn lemma_split_join(fields: Seq<Seq<char>>, sep: char)
    requires
        fields.len() >= 1,
        forall|i: int| 0 <= i < fields.len() ==> free_of(#[trigger] fields[i], sep),
    ensures
        split_on(join_with(fields, sep), sep) == fields,
    decreases fields.len(),
{
    if fields.len() == 1 {
        lemma_split_single(fields[0], sep);
        assert(split_on(join_with(fields, sep), sep) =~= fields);
    } else {
        let init = fields.drop_last();
        assert forall|i: int| 0 <= i < init.len() implies free_of(#[trigger] init[i], sep) by {
            assert(init[i] == fields[i]);
        }
        lemma_split_join(init, sep);
        assert(free_of(fields[fields.len() - 1], sep));
        lemma_split_append(join_with(init, sep), fields.last(), sep);
        assert(init.push(fields.last()) =~= fields);
    }
}

// ---------------------------------------------------------------------------
// Executable helpers
// ---------------------------------------------------------------------------

/// The characters of a string slice.
pub fn chars_of(s: &str) -> (v: Vec<char>)
    ensures
        v@ == s@,
{
    let mut v: Vec<char> = Vec::new();
    for c in it: s.chars()
        invariant
            v@ == it.seq().take(it.index() as int),
            it.seq() == s@,
    {
        v.push(c);
    }
    v
}

/// Appends the characters of `s` to `out`.
pub fn push_str(out: &mut Vec<char>, s: &str)
    ensures
        final(out)@ == old(out)@ + s@,
{
    let ghost start = out@;
    for c in it: s.chars()
        invariant
            out@ == start + it.seq().take(it.index() as int),
            it.seq() == s@,
    {
        out.push(c);
        proof {
            assert(it.seq().take(it.index() + 1) =~= it.seq().take(it.index() as int).push(c));
        }
    }
}

/// Appends the characters of `s` to `out`.
pub fn push_chars(out: &mut Vec<char>, s: &Vec<char>)
    ensures
        final(out)@ == old(out)@ + s@,
{
    let ghost start = out@;
    let mut i: usize = 0;
    while i < s.len()
        invariant
            i <= s.len(),
            out@ == start + s@.take(i as int),
        decreases s.len() - i,
    {
        out.push(s[i]);
        i = i + 1;
        proof {
            assert(s@.take(i as int) =~= s@.take(i - 1).push(s@[i - 1]));
        }
    }
    proof {
        assert(s@.take(i as int) =~= s@);
    }
}

/// A `String` holding the given characters (`Iterator::collect`).
#[verifier::external_body]
pub(crate) fn string_from_chars(v: &Vec<char>) -> (s: String)
    ensures
        s@ == v@,
{
    v.iter().collect::<String>()
}

/// Whether two character sequences are equal.
pub fn chars_eq(a: &Vec<char>, b: &Vec<char>) -> (r: bool)
    ensures
        r == (a@ == b@),
{
    if a.len() != b.len() {
        return false;
    }
    let mut i: usize = 0;
    while i < a.len()
        invariant
            i <= a.len(),
            a.len() == b.len(),
            forall|j: int| 0 <= j < i ==> a@[j] == b@[j],
        decreases a.len() - i,
    {
        if a[i] != b[i] {
            return false;
        }
        i = i + 1;
    }
    assert(a@ =~= b@);
    true
}

/// Whether `a` equals the string `b`.
pub fn chars_eq_str(a: &Vec<char>, b: &str) -> (r: bool)
    ensures
        r == (a@ == b@),
{
    let bv = chars_of(b);
    chars_eq(a, &bv)
}

/// Splits `s` on `sep` (`str::split`).
pub fn split_chars(s: &Vec<char>, sep: char) -> (r: Vec<Vec<char>>)
    ensures
        r.deep_view() == split_on(s@, sep),
{
    let mut out: Vec<Vec<char>> = Vec::new();
    let mut cur: Vec<char> = Vec::new();
    let mut i: usize = 0;
    let ghost mut done_fields: Seq<Seq<char>> = Seq::empty();
    assert(out.deep_view() =~= done_fields);
    while i < s.len()
        invariant
            i <= s.len(),
            out.deep_view() == done_fields,
            done_fields.push(cur@) == split_on(s@.take(i as int), sep),
        decreases s.len() - i,
    {
        let c = s[i];
        let ghost pre = s@.take(i as int);
        let ghost pre1 = s@.take(i + 1);
        proof {
            assert(pre1.drop_last() =~= pre);
            assert(pre1.last() == c);
        }
        let ghost prev = split_on(pre, sep);
        if c == sep {
            let ghost old_dv = out.deep_view();
            let ghost cur_v = cur@;
            let done = cur;
            out.push(done);
            cur = Vec::new();
            proof {
                assert(out.deep_view() =~~= old_dv.push(cur_v));
                done_fields = done_fields.push(cur_v);
                assert(split_on(pre1, sep) == prev.push(Seq::<char>::empty()));
                assert(done_fields.push(cur@) =~= split_on(pre1, sep));
            }
        } else {
            let ghost cur_v = cur@;
            cur.push(c);
            proof {
                assert(split_on(pre1, sep) == prev.update(prev.len() - 1, prev.last().push(c)));
                assert(prev.last() == cur_v);
                assert(done_fields.push(cur@) =~= split_on(pre1, sep));
            }
        }
        i = i + 1;
    }
    assert(s@.take(i as int) =~= s@);
    let ghost old_dv = out.deep_view();
    let ghost cur_v = cur@;
    out.push(cur);
    assert(out.deep_view() =~~= old_dv.push(cur_v));
    out
}

/// Joins `fields` with `sep` between them.
pub fn join_chars(fields: &Vec<Vec<char>>, sep: char) -> (r: Vec<char>)
    ensures
        r@ == join_with(fields.deep_view(), sep),
{
    let mut out: Vec<char> = Vec::new();
    let mut i: usize = 0;
    while i < fields.len()
        invariant
            i <= fields.len(),
            out@ == join_with(fields.deep_view().take(i as int), sep),
        decreases fields.len() - i,
    {
        let ghost pre = fields.deep_view().take(i as int);
        let ghost pre1 = fields.deep_view().take(i + 1);
        proof {
            assert(pre1.drop_last() =~= pre);
            assert(pre1.last() == fields[i as int]@);
        }
        if i > 0 {
            out.push(sep);
        }
        push_chars(&mut out, &fields[i]);
        proof {
            if i == 0 {
                assert(out@ =~= join_with(pre1, sep));
            } else {
                assert(out@ =~= join_with(pre1, sep));
            }
        }
        i = i + 1;
    }
    assert(fields.deep_view().take(i as int) =~= fields.deep_view());
    out
}


// ---------------------------------------------------------------------------
// Whitespace, trimming and pattern removal
// ---------------------------------------------------------------------------

/// The characters with the Unicode `White_Space` property (`char::is_whitespace`).
pub open spec fn is_whitespace(c: char) -> bool {
    ('\u{9}' <= c && c <= '\u{d}') || c == ' ' || c == '\u{85}' || c == '\u{a0}'
        || c == '\u{1680}' || ('\u{2000}' <= c && c <= '\u{200a}') || c == '\u{2028}'
        || c == '\u{2029}' || c == '\u{202f}' || c == '\u{205f}' || c == '\u{3000}'
}

/// `s` without leading whitespace (`str::trim_start`).
pub open spec fn trim_start_spec(s: Seq<char>) -> Seq<char>
    decreases s.len(),
{
    if s.len() > 0 && is_whitespace(s[0]) {
        trim_start_spec(s.drop_first())
    } else {
        s
    }
}

/// `s` without trailing whitespace (`str::trim_end`).
pub open spec fn trim_end_spec(s: Seq<char>) -> Seq<char>
    decreases s.len(),
{
    if s.len() > 0 && is_whitespace(s.last()) {
        trim_end_spec(s.drop_last())
    } else {
        s
    }
}

/// `s` without leading and trailing whitespace (`str::trim`).
pub open spec fn trim_spec(s: Seq<char>) -> Seq<char> {
    trim_end_spec(trim_start_spec(s))
}

/// `s` without leading and trailing occurrences of `c` (`str::trim_matches(c)`).
pub open spec fn trim_char_spec(s: Seq<char>, c: char) -> Seq<char> {
    trim_char_end(trim_char_start(s, c), c)
}

pub open spec fn trim_char_start(s: Seq<char>, c: char) -> Seq<char>
    decreases s.len(),
{
    if s.len() > 0 && s[0] == c {
        trim_char_start(s.drop_first(), c)
    } else {
        s
    }
}

pub open spec fn trim_char_end(s: Seq<char>, c: char) -> Seq<char>
    decreases s.len(),
{
    if s.len() > 0 && s.last() == c {
        trim_char_end(s.drop_last(), c)
    } else {
        s
    }
}

/// `s` with every occurrence of the two-character pattern `a b` removed,
/// scanning from the left as `str::replace(pat, "")` does.
pub open spec fn remove_pair(s: Seq<char>, a: char, b: char) -> Seq<char>
    decreases s.len(),
{
    if s.len() >= 2 && s[0] == a && s[1] == b {
        remove_pair(s.subrange(2, s.len() as int), a, b)
    } else if s.len() > 0 {
        seq![s[0]] + remove_pair(s.drop_first(), a, b)
    } else {
        s
    }
}

/// Whether `c` has the `White_Space` property.
pub fn is_whitespace_char(c: char) -> (r: bool)
    ensures
        r == is_whitespace(c),
{
    ('\u{9}' <= c && c <= '\u{d}') || c == ' ' || c == '\u{85}' || c == '\u{a0}'
        || c == '\u{1680}' || ('\u{2000}' <= c && c <= '\u{200a}') || c == '\u{2028}'
        || c == '\u{2029}' || c == '\u{202f}' || c == '\u{205f}' || c == '\u{3000}'
}

proof fn lemma_trim_start_skip(s: Seq<char>, i: int)
    requires
        0 <= i <= s.len(),
        forall|j: int| 0 <= j < i ==> is_whitespace(#[trigger] s[j]),
    ensures
        trim_start_spec(s) == trim_start_spec(s.subrange(i, s.len() as int)),
    decreases i,
{
    if i == 0 {
        assert(s.subrange(0, s.len() as int) =~= s);
    } else {
        let t = s.drop_first();
        assert forall|j: int| 0 <= j < i - 1 implies is_whitespace(#[trigger] t[j]) by {
            assert(t[j] == s[j + 1]);
        }
        lemma_trim_start_skip(t, i - 1);
        assert(t.subrange(i - 1, t.len() as int) =~= s.subrange(i, s.len() as int));
    }
}

proof fn lemma_trim_end_drop(s: Seq<char>, k: int)
    requires
        0 <= k <= s.len(),
        forall|j: int| k <= j < s.len() ==> is_whitespace(#[trigger] s[j]),
    ensures
        trim_end_spec(s) == trim_end_spec(s.subrange(0, k)),
    decreases s.len() - k,
{
    if k == s.len() {
        assert(s.subrange(0, k) =~= s);
    } else {
        let t = s.drop_last();
        assert forall|j: int| k <= j < t.len() implies is_whitespace(#[trigger] t[j]) by {
            assert(t[j] == s[j]);
        }
        assert(is_whitespace(s[s.len() - 1]));
        lemma_trim_end_drop(t, k);
        assert(t.subrange(0, k) =~= s.subrange(0, k));
    }
}

/// Removes leading and trailing whitespace (`str::trim`).
pub fn trim_chars(s: &Vec<char>) -> (r: Vec<char>)
    ensures
        r@ == trim_spec(s@),
{
    let mut lo: usize = 0;
    while lo < s.len() && is_whitespace_char(s[lo])
        invariant
            lo <= s.len(),
            forall|j: int| 0 <= j < lo ==> is_whitespace(#[trigger] s@[j]),
        decreases s.len() - lo,
    {
        lo = lo + 1;
    }
    proof {
        lemma_trim_start_skip(s@, lo as int);
    }
    let ghost rest = s@.subrange(lo as int, s.len() as int);
    assert(trim_start_spec(rest) == rest);
    let mut hi: usize = s.len();
    while hi > lo && is_whitespace_char(s[hi - 1])
        invariant
            lo <= hi <= s.len(),
            rest == s@.subrange(lo as int, s.len() as int),
            forall|j: int| hi <= j < s.len() ==> is_whitespace(#[trigger] s@[j]),
        decreases hi,
    {
        hi = hi - 1;
    }
    proof {
        assert forall|j: int| hi - lo <= j < rest.len() implies is_whitespace(#[trigger] rest[j]) by {
            assert(rest[j] == s@[lo + j]);
        }
        lemma_trim_end_drop(rest, hi - lo);
        assert(rest.subrange(0, hi - lo) =~= s@.subrange(lo as int, hi as int));
    }
    let mut out: Vec<char> = Vec::new();
    let mut i: usize = lo;
    while i < hi
        invariant
            lo <= i <= hi,
            hi <= s.len(),
            out@ == s@.subrange(lo as int, i as int),
        decreases hi - i,
    {
        out.push(s[i]);
        i = i + 1;
        assert(out@ =~= s@.subrange(lo as int, i as int));
    }
    out
}

proof fn lemma_trim_char_start_skip(s: Seq<char>, c: char, i: int)
    requires
        0 <= i <= s.len(),
        forall|j: int| 0 <= j < i ==> #[trigger] s[j] == c,
    ensures
        trim_char_start(s, c) == trim_char_start(s.subrange(i, s.len() as int), c),
    decreases i,
{
    if i == 0 {
        assert(s.subrange(0, s.len() as int) =~= s);
    } else {
        let t = s.drop_first();
        assert forall|j: int| 0 <= j < i - 1 implies #[trigger] t[j] == c by {
            assert(t[j] == s[j + 1]);
        }
        lemma_trim_char_start_skip(t, c, i - 1);
        assert(t.subrange(i - 1, t.len() as int) =~= s.subrange(i, s.len() as int));
    }
}

proof fn lemma_trim_char_end_drop(s: Seq<char>, c: char, k: int)
    requires
        0 <= k <= s.len(),
        forall|j: int| k <= j < s.len() ==> #[trigger] s[j] == c,
    ensures
        trim_char_end(s, c) == trim_char_end(s.subrange(0, k), c),
    decreases s.len() - k,
{
    if k == s.len() {
        assert(s.subrange(0, k) =~= s);
    } else {
        let t = s.drop_last();
        assert forall|j: int| k <= j < t.len() implies #[trigger] t[j] == c by {
            assert(t[j] == s[j]);
        }
        assert(s[s.len() - 1] == c);
        lemma_trim_char_end_drop(t, c, k);
        assert(t.subrange(0, k) =~= s.subrange(0, k));
    }
}

/// Removes leading and trailing occurrences of `c` (`str::trim_matches(c)`).
pub fn trim_char(s: &Vec<char>, c: char) -> (r: Vec<char>)
    ensures
        r@ == trim_char_spec(s@, c),
{
    let mut lo: usize = 0;
    while lo < s.len() && s[lo] == c
        invariant
            lo <= s.len(),
            forall|j: int| 0 <= j < lo ==> #[trigger] s@[j] == c,
        decreases s.len() - lo,
    {
        lo = lo + 1;
    }
    proof {
        lemma_trim_char_start_skip(s@, c, lo as int);
    }
    let ghost rest = s@.subrange(lo as int, s.len() as int);
    assert(trim_char_start(rest, c) == rest);
    let mut hi: usize = s.len();
    while hi > lo && s[hi - 1] == c
        invariant
            lo <= hi <= s.len(),
            rest == s@.subrange(lo as int, s.len() as int),
            forall|j: int| hi <= j < s.len() ==> #[trigger] s@[j] == c,
        decreases hi,
    {
        hi = hi - 1;
    }
    proof {
        assert forall|j: int| hi - lo <= j < rest.len() implies #[trigger] rest[j] == c by {
            assert(rest[j] == s@[lo + j]);
        }
        lemma_trim_char_end_drop(rest, c, hi - lo);
        assert(rest.subrange(0, hi - lo) =~= s@.subrange(lo as int, hi as int));
    }
    let mut out: Vec<char> = Vec::new();
    let mut i: usize = lo;
    while i < hi
        invariant
            lo <= i <= hi,
            hi <= s.len(),
            out@ == s@.subrange(lo as int, i as int),
        decreases hi - i,
    {
        out.push(s[i]);
        i = i + 1;
        assert(out@ =~= s@.subrange(lo as int, i as int));
    }
    out
}

proof fn lemma_remove_pair_step(s: Seq<char>, a: char, b: char, i: int)
    requires
        0 <= i <= s.len(),
    ensures
        (i + 2 <= s.len() && s[i] == a && s[i + 1] == b) ==>
            remove_pair(s.subrange(i, s.len() as int), a, b)
                == remove_pair(s.subrange(i + 2, s.len() as int), a, b),
        (i < s.len() && !(i + 2 <= s.len() && s[i] == a && s[i + 1] == b)) ==>
            remove_pair(s.subrange(i, s.len() as int), a, b)
                == seq![s[i]] + remove_pair(s.subrange(i + 1, s.len() as int), a, b),
{
    let t = s.subrange(i, s.len() as int);
    if i + 2 <= s.len() && s[i] == a && s[i + 1] == b {
        assert(t.subrange(2, t.len() as int) =~= s.subrange(i + 2, s.len() as int));
    }
    if i < s.len() {
        assert(t.drop_first() =~= s.subrange(i + 1, s.len() as int));
    }
}

/// Removes every occurrence of the pattern `a b`, left to right
/// (`str::replace` with an empty replacement).
pub fn remove_pair_chars(s: &Vec<char>, a: char, b: char) -> (r: Vec<char>)
    ensures
        r@ == remove_pair(s@, a, b),
{
    let mut out: Vec<char> = Vec::new();
    let mut i: usize = 0;
    assert(s@.subrange(0, s.len() as int) =~= s@);
    assert(out@ + remove_pair(s@, a, b) =~= remove_pair(s@, a, b));
    while i < s.len()
        invariant
            i <= s.len(),
            out@ + remove_pair(s@.subrange(i as int, s.len() as int), a, b) == remove_pair(s@, a, b),
        decreases s.len() - i,
    {
        proof {
            lemma_remove_pair_step(s@, a, b, i as int);
        }
        if i + 1 < s.len() && s[i] == a && s[i + 1] == b {
            i = i + 2;
        } else {
            let ghost rest = remove_pair(s@.subrange(i + 1, s.len() as int), a, b);
            let ghost before = out@;
            out.push(s[i]);
            assert(out@ + rest =~= before + (seq![s@[i as int]] + rest));
            i = i + 1;
        }
    }
    proof {
        assert(s@.subrange(i as int, s.len() as int) =~= Seq::<char>::empty());
        assert(out@ + Seq::<char>::empty() =~= out@);
    }
    out
}


// ---------------------------------------------------------------------------
// Substrings, prefixes and case
// ---------------------------------------------------------------------------

/// `needle` occurs in `hay` starting at position `i`.
pub open spec fn occurs_at(hay: Seq<char>, needle: Seq<char>, i: int) -> bool {
    0 <= i && i + needle.len() <= hay.len() && hay.subrange(i, i + needle.len()) == needle
}

/// `needle` occurs somewhere in `hay` (`str::contains`).
pub open spec fn contains_seq(hay: Seq<char>, needle: Seq<char>) -> bool {
    exists|i: int| occurs_at(hay, needle, i)
}

/// `s` begins with `p` (`str::starts_with`).
pub open spec fn starts_with(s: Seq<char>, p: Seq<char>) -> bool {
    p.len() <= s.len() && s.subrange(0, p.len() as int) == p
}

/// Whether `needle` occurs in `hay` at position `i`.
pub fn occurs_at_exec(hay: &Vec<char>, needle: &Vec<char>, i: usize) -> (r: bool)
    ensures
        r == occurs_at(hay@, needle@, i as int),
{
    if needle.len() > hay.len() || i > hay.len() - needle.len() {
        return false;
    }
    let mut k: usize = 0;
    while k < needle.len()
        invariant
            k <= needle.len(),
            i + needle.len() <= hay.len(),
            forall|j: int| 0 <= j < k ==> hay@[i + j] == needle@[j],
        decreases needle.len() - k,
    {
        if hay[i + k] != needle[k] {
            assert(hay@.subrange(i as int, i + needle.len())[k as int] != needle@[k as int]);
            return false;
        }
        k = k + 1;
    }
    assert(hay@.subrange(i as int, i + needle.len()) =~= needle@);
    true
}

/// Whether `needle` occurs in `hay` (`str::contains`).
pub fn contains_chars(hay: &Vec<char>, needle: &Vec<char>) -> (r: bool)
    ensures
        r == contains_seq(hay@, needle@),
{
    if needle.len() > hay.len() {
        assert(!contains_seq(hay@, needle@));
        return false;
    }
    let last: usize = hay.len() - needle.len();
    let mut i: usize = 0;
    while i < last
        invariant
            needle.len() <= hay.len(),
            last == hay.len() - needle.len(),
            i <= last,
            forall|j: int| 0 <= j < i ==> !occurs_at(hay@, needle@, j),
        decreases last - i,
    {
        if occurs_at_exec(hay, needle, i) {
            return true;
        }
        i = i + 1;
    }
    if occurs_at_exec(hay, needle, last) {
        return true;
    }
    assert forall|j: int| !occurs_at(hay@, needle@, j) by {
        if 0 <= j <= last {
        }
    }
    false
}

/// Whether `s` begins with `p` (`str::starts_with`).
pub fn starts_with_chars(s: &Vec<char>, p: &Vec<char>) -> (r: bool)
    ensures
        r == starts_with(s@, p@),
{
    let r = occurs_at_exec(s, p, 0);
    proof {
        if r {
            assert(s@.subrange(0, p@.len() as int) == p@);
        }
    }
    r
}

/// What `str::to_uppercase` returns for a string (Unicode upper-case mapping).
pub uninterp spec fn upper(s: Seq<char>) -> Seq<char>;

/// The upper-case form of a string (`str::to_uppercase`).
#[verifier::external_body]
pub(crate) fn to_upper(s: &str) -> (r: String)
    ensures
        r@ == upper(s@),
{
    s.to_uppercase()
}


// ---------------------------------------------------------------------------
// UTF-8 lengths and padding
// ---------------------------------------------------------------------------

/// The number of bytes that UTF-8 takes for `c`.
pub open spec fn utf8_width(c: char) -> nat {
    if (c as u32) < 0x80 {
        1
    } else if (c as u32) < 0x800 {
        2
    } else if (c as u32) < 0x10000 {
        3
    } else {
        4
    }
}

/// The number of bytes that UTF-8 takes for `s` (`str::len`).
pub open spec fn utf8_len(s: Seq<char>) -> nat
    decreases s.len(),
{
    if s.len() == 0 {
        0
    } else {
        utf8_width(s[0]) + utf8_len(s.drop_first())
    }
}

/// The characters that make up exactly the first `n` bytes of `s`, when `n`
/// falls on a character boundary within `s` (`str::get(0..n)`).
pub open spec fn byte_prefix(s: Seq<char>, n: int) -> Option<Seq<char>>
    decreases s.len(),
{
    if n == 0 {
        Some(Seq::empty())
    } else if n < 0 || s.len() == 0 {
        None
    } else {
        match byte_prefix(s.drop_first(), n - utf8_width(s[0])) {
            Some(p) => Some(seq![s[0]] + p),
            None => None,
        }
    }
}

/// `n` spaces.
pub open spec fn spaces(n: nat) -> Seq<char> {
    Seq::new(n, |i: int| ' ')
}

/// `s` padded with spaces on the right to `w` characters (`{:<w}`).
pub open spec fn pad_right(s: Seq<char>, w: nat) -> Seq<char> {
    if s.len() >= w { s } else { s + spaces((w - s.len()) as nat) }
}

/// `s` padded with spaces on the left to `w` characters (`{:>w}`).
pub open spec fn pad_left(s: Seq<char>, w: nat) -> Seq<char> {
    if s.len() >= w { s } else { spaces((w - s.len()) as nat) + s }
}

/// The number of bytes that UTF-8 takes for `c` (`char::len_utf8`).
pub fn utf8_width_exec(c: char) -> (r: usize)
    ensures
        r == utf8_width(c),
{
    let v = c as u32;
    if v < 0x80 {
        1
    } else if v < 0x800 {
        2
    } else if v < 0x10000 {
        3
    } else {
        4
    }
}

proof fn lemma_byte_prefix_step(s: Seq<char>, i: int, n: int, acc: int)
    requires
        0 <= i < s.len(),
        0 <= acc < n,
    ensures
        byte_prefix(s.subrange(i, s.len() as int), n - acc) == (match byte_prefix(
            s.subrange(i + 1, s.len() as int),
            n - acc - utf8_width(s[i]),
        ) {
            Some(p) => Some(seq![s[i]] + p),
            None => None,
        }),
{
    let t = s.subrange(i, s.len() as int);
    assert(t.drop_first() =~= s.subrange(i + 1, s.len() as int));
    assert(t[0] == s[i]);
}

/// The characters that make up exactly the first `n` bytes of `s`, if `n`
/// falls on a character boundary (`str::get(0..n)`).
pub fn byte_prefix_exec(s: &Vec<char>, n: usize) -> (r: Option<Vec<char>>)
    ensures
        match r {
            Some(p) => byte_prefix(s@, n as int) == Some(p@),
            None => byte_prefix(s@, n as int) is None,
        },
{
    let mut acc: usize = 0;
    let mut i: usize = 0;
    assert(s@.subrange(0, s.len() as int) =~= s@);
    // byte_prefix(s, n) == s[..i] ++ byte_prefix(s[i..], n - acc)
    while acc < n && i < s.len()
        invariant
            i <= s.len(),
            acc <= n,
            match byte_prefix(s@, n as int) {
                Some(p) => byte_prefix(s@.subrange(i as int, s.len() as int), n - acc) matches Some(q)
                    && p == s@.subrange(0, i as int) + q,
                None => byte_prefix(s@.subrange(i as int, s.len() as int), n - acc) is None,
            },
        decreases s.len() - i,
    {
        proof {
            lemma_byte_prefix_step(s@, i as int, n as int, acc as int);
            assert(s@.subrange(0, i + 1) =~= s@.subrange(0, i as int) + seq![s@[i as int]]);
            match byte_prefix(s@.subrange(i + 1, s.len() as int), n - acc - utf8_width(s@[i as int])) {
                Some(q) => {
                    assert(s@.subrange(0, i as int) + (seq![s@[i as int]] + q)
                        =~= s@.subrange(0, i + 1) + q);
                },
                None => {},
            }
        }
        let w = utf8_width_exec(s[i]);
        if w > n - acc {
            proof {
                assert(byte_prefix(s@.subrange(i + 1, s.len() as int), n - acc - w) is None);
            }
            return None;
        }
        acc = acc + w;
        i = i + 1;
    }
    if acc < n {
        proof {
            assert(s@.subrange(i as int, s.len() as int) =~= Seq::<char>::empty());
        }
        return None;
    }
    proof {
        assert(s@.subrange(0, i as int) + Seq::<char>::empty() =~= s@.subrange(0, i as int));
    }
    let mut out: Vec<char> = Vec::new();
    let mut k: usize = 0;
    while k < i
        invariant
            k <= i,
            i <= s.len(),
            out@ == s@.subrange(0, k as int),
        decreases i - k,
    {
        out.push(s[k]);
        k = k + 1;
        assert(out@ =~= s@.subrange(0, k as int));
    }
    Some(out)
}

/// Appends `s` padded with spaces on the right to `w` characters.
pub fn push_padded_right(out: &mut Vec<char>, s: &Vec<char>, w: usize)
    ensures
        final(out)@ == old(out)@ + pad_right(s@, w as nat),
{
    push_chars(out, s);
    let mut k: usize = s.len();
    let ghost base = out@;
    while k < w
        invariant
            s.len() <= k,
            k <= w || k == s.len(),
            out@ == base + spaces((k - s.len()) as nat),
        decreases w - k,
    {
        out.push(' ');
        k = k + 1;
        assert(out@ =~= base + spaces((k - s.len()) as nat));
    }
    proof {
        if s.len() >= w {
            assert(k == s.len());
            assert(spaces(0) =~= Seq::<char>::empty());
            assert(out@ =~= old(out)@ + s@);
        } else {
            assert(k == w);
            assert(out@ =~= old(out)@ + (s@ + spaces((w - s.len()) as nat)));
        }
    }
}

/// Appends `s` padded with spaces on the left to `w` characters.
pub fn push_padded_left(out: &mut Vec<char>, s: &Vec<char>, w: usize)
    ensures
        final(out)@ == old(out)@ + pad_left(s@, w as nat),
{
    let ghost base = out@;
    let mut k: usize = s.len();
    while k < w
        invariant
            s.len() <= k,
            k <= w || k == s.len(),
            out@ == base + spaces((k - s.len()) as nat),
        decreases w - k,
    {
        out.push(' ');
        k = k + 1;
        assert(out@ =~= base + spaces((k - s.len()) as nat));
    }
    let ghost pad = out@;
    proof {
        if s.len() >= w {
            assert(k == s.len());
        } else {
            assert(k == w);
        }
    }
    push_chars(out, s);
    proof {
        if s.len() >= w {
            assert(spaces(0) =~= Seq::<char>::empty());
            assert(out@ =~= old(out)@ + s@);
        } else {
            assert(out@ =~= old(out)@ + (spaces((w - s.len()) as nat) + s@));
        }
    }
}

} // verus!
