//! Which diff texts `unidiff`'s parser reads without panicking, and a test
//! of it that callers can run before they hand a text to the parser.
use vstd::prelude::*;
use crate::text::{chars_of, has_prefix, lines_of, split_lines, starts_with, views_of};

verus! {

/// A line that `unidiff` reads as a source-file header (`--- name`).
pub open spec fn is_source_header(l: Seq<char>) -> bool {
    starts_with(l, "--- "@) && l.len() > 4 && l[4] != '\t'
}

/// A line that `unidiff` reads as a target-file header (`+++ name`).
pub open spec fn is_target_header(l: Seq<char>) -> bool {
    starts_with(l, "+++ "@) && l.len() > 4 && l[4] != '\t'
}

pub open spec fn is_ascii_digit(c: char) -> bool {
    '0' <= c <= '9'
}

/// A character that the `regex` crate's `\d` matches: Unicode's
/// `Decimal_Number` class, as regex-syntax's tables give it (Unicode 16).
pub open spec fn is_decimal(c: char) -> bool {
    let u = c as u32;
    ||| 0x30 <= u <= 0x39
    ||| 0x660 <= u <= 0x669
    ||| 0x6F0 <= u <= 0x6F9
    ||| 0x7C0 <= u <= 0x7C9
    ||| 0x966 <= u <= 0x96F
    ||| 0x9E6 <= u <= 0x9EF
    ||| 0xA66 <= u <= 0xA6F
    ||| 0xAE6 <= u <= 0xAEF
    ||| 0xB66 <= u <= 0xB6F
    ||| 0xBE6 <= u <= 0xBEF
    ||| 0xC66 <= u <= 0xC6F
    ||| 0xCE6 <= u <= 0xCEF
    ||| 0xD66 <= u <= 0xD6F
    ||| 0xDE6 <= u <= 0xDEF
    ||| 0xE50 <= u <= 0xE59
    ||| 0xED0 <= u <= 0xED9
    ||| 0xF20 <= u <= 0xF29
    ||| 0x1040 <= u <= 0x1049
    ||| 0x1090 <= u <= 0x1099
    ||| 0x17E0 <= u <= 0x17E9
    ||| 0x1810 <= u <= 0x1819
    ||| 0x1946 <= u <= 0x194F
    ||| 0x19D0 <= u <= 0x19D9
    ||| 0x1A80 <= u <= 0x1A89
    ||| 0x1A90 <= u <= 0x1A99
    ||| 0x1B50 <= u <= 0x1B59
    ||| 0x1BB0 <= u <= 0x1BB9
    ||| 0x1C40 <= u <= 0x1C49
    ||| 0x1C50 <= u <= 0x1C59
    ||| 0xA620 <= u <= 0xA629
    ||| 0xA8D0 <= u <= 0xA8D9
    ||| 0xA900 <= u <= 0xA909
    ||| 0xA9D0 <= u <= 0xA9D9
    ||| 0xA9F0 <= u <= 0xA9F9
    ||| 0xAA50 <= u <= 0xAA59
    ||| 0xABF0 <= u <= 0xABF9
    ||| 0xFF10 <= u <= 0xFF19
    ||| 0x104A0 <= u <= 0x104A9
    ||| 0x10D30 <= u <= 0x10D39
    ||| 0x10D40 <= u <= 0x10D49
    ||| 0x11066 <= u <= 0x1106F
    ||| 0x110F0 <= u <= 0x110F9
    ||| 0x11136 <= u <= 0x1113F
    ||| 0x111D0 <= u <= 0x111D9
    ||| 0x112F0 <= u <= 0x112F9
    ||| 0x11450 <= u <= 0x11459
    ||| 0x114D0 <= u <= 0x114D9
    ||| 0x11650 <= u <= 0x11659
    ||| 0x116C0 <= u <= 0x116C9
    ||| 0x116D0 <= u <= 0x116E3
    ||| 0x11730 <= u <= 0x11739
    ||| 0x118E0 <= u <= 0x118E9
    ||| 0x11950 <= u <= 0x11959
    ||| 0x11BF0 <= u <= 0x11BF9
    ||| 0x11C50 <= u <= 0x11C59
    ||| 0x11D50 <= u <= 0x11D59
    ||| 0x11DA0 <= u <= 0x11DA9
    ||| 0x11F50 <= u <= 0x11F59
    ||| 0x16130 <= u <= 0x16139
    ||| 0x16A60 <= u <= 0x16A69
    ||| 0x16AC0 <= u <= 0x16AC9
    ||| 0x16B50 <= u <= 0x16B59
    ||| 0x16D70 <= u <= 0x16D79
    ||| 0x1CCF0 <= u <= 0x1CCF9
    ||| 0x1D7CE <= u <= 0x1D7FF
    ||| 0x1E140 <= u <= 0x1E149
    ||| 0x1E2F0 <= u <= 0x1E2F9
    ||| 0x1E4F0 <= u <= 0x1E4F9
    ||| 0x1E5F1 <= u <= 0x1E5FA
    ||| 0x1E950 <= u <= 0x1E959
    ||| 0x1FBF0 <= u <= 0x1FBF9
}

fn is_decimal_exec(c: char) -> (r: bool)
    ensures
        r == is_decimal(c),
{
    let u = c as u32;
    (0x30 <= u && u <= 0x39) ||
        (0x660 <= u && u <= 0x669) ||
        (0x6F0 <= u && u <= 0x6F9) ||
        (0x7C0 <= u && u <= 0x7C9) ||
        (0x966 <= u && u <= 0x96F) ||
        (0x9E6 <= u && u <= 0x9EF) ||
        (0xA66 <= u && u <= 0xA6F) ||
        (0xAE6 <= u && u <= 0xAEF) ||
        (0xB66 <= u && u <= 0xB6F) ||
        (0xBE6 <= u && u <= 0xBEF) ||
        (0xC66 <= u && u <= 0xC6F) ||
        (0xCE6 <= u && u <= 0xCEF) ||
        (0xD66 <= u && u <= 0xD6F) ||
        (0xDE6 <= u && u <= 0xDEF) ||
        (0xE50 <= u && u <= 0xE59) ||
        (0xED0 <= u && u <= 0xED9) ||
        (0xF20 <= u && u <= 0xF29) ||
        (0x1040 <= u && u <= 0x1049) ||
        (0x1090 <= u && u <= 0x1099) ||
        (0x17E0 <= u && u <= 0x17E9) ||
        (0x1810 <= u && u <= 0x1819) ||
        (0x1946 <= u && u <= 0x194F) ||
        (0x19D0 <= u && u <= 0x19D9) ||
        (0x1A80 <= u && u <= 0x1A89) ||
        (0x1A90 <= u && u <= 0x1A99) ||
        (0x1B50 <= u && u <= 0x1B59) ||
        (0x1BB0 <= u && u <= 0x1BB9) ||
        (0x1C40 <= u && u <= 0x1C49) ||
        (0x1C50 <= u && u <= 0x1C59) ||
        (0xA620 <= u && u <= 0xA629) ||
        (0xA8D0 <= u && u <= 0xA8D9) ||
        (0xA900 <= u && u <= 0xA909) ||
        (0xA9D0 <= u && u <= 0xA9D9) ||
        (0xA9F0 <= u && u <= 0xA9F9) ||
        (0xAA50 <= u && u <= 0xAA59) ||
        (0xABF0 <= u && u <= 0xABF9) ||
        (0xFF10 <= u && u <= 0xFF19) ||
        (0x104A0 <= u && u <= 0x104A9) ||
        (0x10D30 <= u && u <= 0x10D39) ||
        (0x10D40 <= u && u <= 0x10D49) ||
        (0x11066 <= u && u <= 0x1106F) ||
        (0x110F0 <= u && u <= 0x110F9) ||
        (0x11136 <= u && u <= 0x1113F) ||
        (0x111D0 <= u && u <= 0x111D9) ||
        (0x112F0 <= u && u <= 0x112F9) ||
        (0x11450 <= u && u <= 0x11459) ||
        (0x114D0 <= u && u <= 0x114D9) ||
        (0x11650 <= u && u <= 0x11659) ||
        (0x116C0 <= u && u <= 0x116C9) ||
        (0x116D0 <= u && u <= 0x116E3) ||
        (0x11730 <= u && u <= 0x11739) ||
        (0x118E0 <= u && u <= 0x118E9) ||
        (0x11950 <= u && u <= 0x11959) ||
        (0x11BF0 <= u && u <= 0x11BF9) ||
        (0x11C50 <= u && u <= 0x11C59) ||
        (0x11D50 <= u && u <= 0x11D59) ||
        (0x11DA0 <= u && u <= 0x11DA9) ||
        (0x11F50 <= u && u <= 0x11F59) ||
        (0x16130 <= u && u <= 0x16139) ||
        (0x16A60 <= u && u <= 0x16A69) ||
        (0x16AC0 <= u && u <= 0x16AC9) ||
        (0x16B50 <= u && u <= 0x16B59) ||
        (0x16D70 <= u && u <= 0x16D79) ||
        (0x1CCF0 <= u && u <= 0x1CCF9) ||
        (0x1D7CE <= u && u <= 0x1D7FF) ||
        (0x1E140 <= u && u <= 0x1E149) ||
        (0x1E2F0 <= u && u <= 0x1E2F9) ||
        (0x1E4F0 <= u && u <= 0x1E4F9) ||
        (0x1E5F1 <= u && u <= 0x1E5FA) ||
        (0x1E950 <= u && u <= 0x1E959) ||
        (0x1FBF0 <= u && u <= 0x1FBF9)
}

/// `l[i]` is `c`.
pub open spec fn char_is(l: Seq<char>, i: int, c: char) -> bool {
    0 <= i < l.len() && l[i] == c
}

/// The end of the run of `\d` characters that starts at `i`.
pub open spec fn run_end(l: Seq<char>, i: int) -> int
    decreases l.len() - i,
{
    if 0 <= i < l.len() && is_decimal(l[i]) {
        run_end(l, i + 1)
    } else {
        i
    }
}

/// The number that the ASCII digits `s` write.
pub open spec fn digits_value(s: Seq<char>) -> nat
    decreases s.len(),
{
    if s.len() == 0 {
        0
    } else {
        digits_value(s.drop_last()) * 10 + (s.last() as int - '0' as int) as nat
    }
}

// The parts of a hunk header `@@ -A[,B] +C[,D] @@`: A ends at `e1`, B (if
// any) at `p`, C at `e3` and D (if any) at `q`.
pub open spec fn e1_of(l: Seq<char>) -> int {
    run_end(l, 4)
}

pub open spec fn p_of(l: Seq<char>) -> int {
    if char_is(l, e1_of(l), ',') {
        run_end(l, e1_of(l) + 1)
    } else {
        e1_of(l)
    }
}

pub open spec fn e3_of(l: Seq<char>) -> int {
    run_end(l, p_of(l) + 2)
}

pub open spec fn q_of(l: Seq<char>) -> int {
    if char_is(l, e3_of(l), ',') {
        run_end(l, e3_of(l) + 1)
    } else {
        e3_of(l)
    }
}

/// A line that `unidiff`'s hunk-header pattern
/// `^@@ -(\d+)(?:,(\d+))? \+(\d+)(?:,(\d+))? @@` matches. Each `\d+` takes
/// its whole run, since what must follow it (`,`, ` `) is no digit.
pub open spec fn hunk_header(l: Seq<char>) -> bool {
    &&& starts_with(l, "@@ -"@)
    &&& e1_of(l) > 4
    &&& char_is(l, e1_of(l), ',') ==> p_of(l) > e1_of(l) + 1
    &&& char_is(l, p_of(l), ' ')
    &&& char_is(l, p_of(l) + 1, '+')
    &&& e3_of(l) > p_of(l) + 2
    &&& char_is(l, e3_of(l), ',') ==> q_of(l) > e3_of(l) + 1
    &&& char_is(l, q_of(l), ' ')
    &&& char_is(l, q_of(l) + 1, '@')
    &&& char_is(l, q_of(l) + 2, '@')
}

pub open spec fn ascii_digits(l: Seq<char>, a: int, b: int) -> bool {
    forall|j: int| a <= j < b ==> is_ascii_digit(#[trigger] l[j])
}

pub open spec fn source_start(l: Seq<char>) -> nat {
    digits_value(l.subrange(4, e1_of(l)))
}

pub open spec fn source_length(l: Seq<char>) -> nat {
    if char_is(l, e1_of(l), ',') {
        digits_value(l.subrange(e1_of(l) + 1, p_of(l)))
    } else {
        1
    }
}

pub open spec fn target_start(l: Seq<char>) -> nat {
    digits_value(l.subrange(p_of(l) + 2, e3_of(l)))
}

pub open spec fn target_length(l: Seq<char>) -> nat {
    if char_is(l, e3_of(l), ',') {
        digits_value(l.subrange(e3_of(l) + 1, q_of(l)))
    } else {
        1
    }
}

/// `parse_hunk` reads the numbers of hunk header `l`, followed by `rest`
/// lines, without panicking: each is ASCII digits (`usize::from_str` takes
/// no other digits) and fits in `usize`; so do each start plus its length,
/// and each start plus `rest`, which bounds the line counters.
pub open spec fn hunk_numbers_ok(l: Seq<char>, rest: int) -> bool {
    &&& ascii_digits(l, 4, e1_of(l))
    &&& char_is(l, e1_of(l), ',') ==> ascii_digits(l, e1_of(l) + 1, p_of(l))
    &&& ascii_digits(l, p_of(l) + 2, e3_of(l))
    &&& char_is(l, e3_of(l), ',') ==> ascii_digits(l, e3_of(l) + 1, q_of(l))
    &&& source_start(l) + source_length(l) <= usize::MAX
    &&& target_start(l) + target_length(l) <= usize::MAX
    &&& source_start(l) + rest <= usize::MAX
    &&& target_start(l) + rest <= usize::MAX
}

/// `PatchSet::parse` reads lines `ls[i..]` without panicking, having seen a
/// source-file header (`source_seen`) and holding an open file
/// (`file_open`). A source header closes the open file; a target header
/// panics where no source header came before, stops the parse with an error
/// where a file is open, and opens one otherwise; a hunk header stops the
/// parse with an error where no file is open, and is read otherwise.
pub open spec fn reads_from(ls: Seq<Seq<char>>, i: int, source_seen: bool, file_open: bool) -> bool
    decreases ls.len() - i,
{
    if i < 0 || i >= ls.len() {
        true
    } else if is_source_header(ls[i]) {
        reads_from(ls, i + 1, true, false)
    } else if is_target_header(ls[i]) {
        if file_open {
            true
        } else if !source_seen {
            false
        } else {
            reads_from(ls, i + 1, source_seen, true)
        }
    } else if hunk_header(ls[i]) {
        if file_open {
            hunk_numbers_ok(ls[i], ls.len() - i - 1) && reads_from(ls, i + 1, source_seen, file_open)
        } else {
            true
        }
    } else {
        reads_from(ls, i + 1, source_seen, file_open)
    }
}

/// Diff text that `unidiff`'s parser reads without panicking (with overflow
/// checks on). What is left unsaid: the line counters of a hunk are bounded
/// by the number of lines after its header, not by where the hunk ends.
pub open spec fn unidiff_reads_safely(text: Seq<char>) -> bool {
    reads_from(lines_of(text), 0, false, false)
}

fn char_is_exec(l: &Vec<char>, i: usize, c: char) -> (r: bool)
    ensures
        r == char_is(l@, i as int, c),
{
    i < l.len() && l[i] == c
}

fn run_end_exec(l: &Vec<char>, i: usize) -> (r: usize)
    requires
        i <= l.len(),
    ensures
        r == run_end(l@, i as int),
        i <= r <= l.len(),
{
    let mut k = i;
    while k < l.len() && is_decimal_exec(l[k])
        invariant
            i <= k <= l.len(),
            run_end(l@, i as int) == run_end(l@, k as int),
        decreases l.len() - k,
    {
        k = k + 1;
    }
    k
}

fn ascii_digits_exec(l: &Vec<char>, a: usize, b: usize) -> (r: bool)
    requires
        a <= b <= l.len(),
    ensures
        r == ascii_digits(l@, a as int, b as int),
{
    let mut k = a;
    while k < b
        invariant
            a <= k <= b <= l.len(),
            forall|j: int| a <= j < k ==> is_ascii_digit(#[trigger] l@[j]),
        decreases b - k,
    {
        if !('0' <= l[k] && l[k] <= '9') {
            return false;
        }
        k = k + 1;
    }
    true
}

/// The number that `l[a..b]` writes, where it fits in `usize`.
fn digits_value_exec(l: &Vec<char>, a: usize, b: usize) -> (r: Option<usize>)
    requires
        a <= b <= l.len(),
        ascii_digits(l@, a as int, b as int),
    ensures
        match r {
            Some(v) => v == digits_value(l@.subrange(a as int, b as int)),
            None => digits_value(l@.subrange(a as int, b as int)) > usize::MAX,
        },
{
    let mut acc: usize = 0;
    let mut over = false;
    let mut k = a;
    while k < b
        invariant
            a <= k <= b <= l.len(),
            ascii_digits(l@, a as int, b as int),
            !over ==> acc == digits_value(l@.subrange(a as int, k as int)),
            over ==> digits_value(l@.subrange(a as int, k as int)) > usize::MAX,
        decreases b - k,
    {
        let ghost s = l@.subrange(a as int, k + 1);
        assert(s.drop_last() == l@.subrange(a as int, k as int));
        assert(s.last() == l@[k as int]);
        assert(is_ascii_digit(l@[k as int]));
        let d = (l[k] as u32 - '0' as u32) as usize;
        if !over {
            match acc.checked_mul(10) {
                Some(m) => match m.checked_add(d) {
                    Some(v) => {
                        acc = v;
                    },
                    None => {
                        over = true;
                    },
                },
                None => {
                    over = true;
                },
            }
        }
        k = k + 1;
    }
    if over {
        None
    } else {
        Some(acc)
    }
}

/// Whether `l` is a hunk header, and (for a header) whether its numbers are
/// read without panicking with `rest` lines after it.
fn scan_hunk_line(l: &Vec<char>, rest: usize) -> (r: (bool, bool))
    ensures
        r.0 == hunk_header(l@),
        r.0 ==> r.1 == hunk_numbers_ok(l@, rest as int),
{
    proof {
        reveal_strlit("@@ -");
    }
    if !has_prefix(l, &chars_of("@@ -")) {
        return (false, false);
    }
    let e1 = run_end_exec(l, 4);
    if e1 == 4 {
        return (false, false);
    }
    let comma1 = char_is_exec(l, e1, ',');
    let p = if comma1 {
        run_end_exec(l, e1 + 1)
    } else {
        e1
    };
    if comma1 && p == e1 + 1 {
        return (false, false);
    }
    if !(char_is_exec(l, p, ' ') && char_is_exec(l, p + 1, '+')) {
        return (false, false);
    }
    let e3 = run_end_exec(l, p + 2);
    if e3 == p + 2 {
        return (false, false);
    }
    let comma3 = char_is_exec(l, e3, ',');
    let q = if comma3 {
        run_end_exec(l, e3 + 1)
    } else {
        e3
    };
    if comma3 && q == e3 + 1 {
        return (false, false);
    }
    if !(char_is_exec(l, q, ' ') && char_is_exec(l, q + 1, '@') && char_is_exec(l, q + 2, '@')) {
        return (false, false);
    }
    let ascii = ascii_digits_exec(l, 4, e1) && (!comma1 || ascii_digits_exec(l, e1 + 1, p))
        && ascii_digits_exec(l, p + 2, e3) && (!comma3 || ascii_digits_exec(l, e3 + 1, q));
    if !ascii {
        return (true, false);
    }
    let ss = digits_value_exec(l, 4, e1);
    let sl = if comma1 {
        digits_value_exec(l, e1 + 1, p)
    } else {
        Some(1)
    };
    let ts = digits_value_exec(l, p + 2, e3);
    let tl = if comma3 {
        digits_value_exec(l, e3 + 1, q)
    } else {
        Some(1)
    };
    let fits = match (ss, sl, ts, tl) {
        (Some(a), Some(b), Some(c), Some(d)) => a.checked_add(b).is_some() && c.checked_add(
            d,
        ).is_some() && a.checked_add(rest).is_some() && c.checked_add(rest).is_some(),
        _ => false,
    };
    (true, fits)
}

/// Tests `unidiff_reads_safely`: callers that hold diff text of unknown
/// shape test it before they ask for a snippet.
pub fn reads_safely(text: &str) -> (r: bool)
    ensures
        r == unidiff_reads_safely(text@),
{
    let ls = split_lines(&chars_of(text));
    let ghost lv = views_of(ls@);
    assert(lv == lines_of(text@));
    let n = ls.len();
    let mut source_seen = false;
    let mut file_open = false;
    let mut i: usize = 0;
    while i < n
        invariant
            i <= n,
            n == ls.len(),
            lv == views_of(ls@),
            lv == lines_of(text@),
            reads_from(lv, 0, false, false) == reads_from(lv, i as int, source_seen, file_open),
        decreases n - i,
    {
        let line = &ls[i];
        assert(lv[i as int] == line@);
        proof {
            reveal_strlit("--- ");
            reveal_strlit("+++ ");
        }
        let source = has_prefix(line, &chars_of("--- ")) && line.len() > 4 && line[4] != '\t';
        let target = has_prefix(line, &chars_of("+++ ")) && line.len() > 4 && line[4] != '\t';
        if source {
            source_seen = true;
            file_open = false;
        } else if target {
            if file_open {
                return true;
            }
            if !source_seen {
                return false;
            }
            file_open = true;
        } else {
            let (header, ok) = scan_hunk_line(line, n - i - 1);
            if header {
                if !file_open {
                    return true;
                }
                if !ok {
                    return false;
                }
            }
        }
        i = i + 1;
    }
    true
}

} // verus!
