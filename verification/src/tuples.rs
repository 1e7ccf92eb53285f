//! Counting `INSERT ... VALUES (...), (...), ...` tuples in one line of a
//! dump, byte by byte.
//!
//! The scan tracks whether it stands inside a single- or double-quoted
//! string and whether the next byte is escaped by a backslash, so that a
//! parenthesis or a semicolon inside a string literal counts for nothing.
//! Tuples are only counted once the keyword `values` (case-insensitive,
//! on a word boundary) has been seen; that flag is carried across the
//! lines of a multi-line statement.

use vstd::prelude::*;
use crate::ascii::alpha_byte;
use crate::ascii::byte_lower;
use crate::ascii::is_alpha_byte;
use crate::ascii::lower_byte;

verus! {

/// The state of the byte scan: quote and escape tracking, whether the
/// `VALUES` keyword has been passed, the tuples opened so far, and whether
/// the statement's terminating `;` has been seen.
pub ghost struct TupleScan {
    pub in_single: bool,
    pub in_double: bool,
    pub escape: bool,
    pub values_seen: bool,
    pub count: nat,
    pub ended: bool,
}

/// The six bytes of the keyword `values` stand at `i`, case-insensitively.
pub open spec fn values_kw_bytes_at(s: Seq<u8>, i: int) -> bool {
    &&& 0 <= i
    &&& i + 6 <= s.len()
    &&& byte_lower(s[i]) == ('v' as u8)
    &&& byte_lower(s[i + 1]) == ('a' as u8)
    &&& byte_lower(s[i + 2]) == ('l' as u8)
    &&& byte_lower(s[i + 3]) == ('u' as u8)
    &&& byte_lower(s[i + 4]) == ('e' as u8)
    &&& byte_lower(s[i + 5]) == ('s' as u8)
}

/// The keyword `values` stands at `i` on a word boundary: no ASCII letter
/// immediately before it or after it.
pub open spec fn values_kw_at(s: Seq<u8>, i: int) -> bool {
    &&& values_kw_bytes_at(s, i)
    &&& (i == 0 || !is_alpha_byte(s[i - 1]))
    &&& (i + 6 >= s.len() || !is_alpha_byte(s[i + 6]))
}

/// One step of the scan at position `i`: the position after the step and
/// the state it leaves behind.
pub open spec fn tuple_scan_step(s: Seq<u8>, i: int, st: TupleScan) -> (int, TupleScan) {
    let c = s[i];
    if st.escape {
        (i + 1, TupleScan { escape: false, ..st })
    } else if c == ('\\' as u8) {
        (i + 1, TupleScan { escape: true, ..st })
    } else if !st.in_double && c == ('\'' as u8) {
        (i + 1, TupleScan { in_single: !st.in_single, ..st })
    } else if !st.in_single && c == ('"' as u8) {
        (i + 1, TupleScan { in_double: !st.in_double, ..st })
    } else if !st.in_single && !st.in_double && !st.values_seen && values_kw_at(s, i) {
        (i + 6, TupleScan { values_seen: true, ..st })
    } else if !st.in_single && !st.in_double && st.values_seen && c == ('(' as u8) {
        (i + 1, TupleScan { count: st.count + 1, ..st })
    } else if !st.in_single && !st.in_double && st.values_seen && c == (';' as u8) {
        (i + 1, TupleScan { ended: true, ..st })
    } else {
        (i + 1, st)
    }
}

/// The scan carried from position `i` to the end of the line.
pub open spec fn tuple_scan_from(s: Seq<u8>, i: int, st: TupleScan) -> TupleScan
    decreases s.len() - i,
{
    if i < 0 || i >= s.len() {
        st
    } else {
        let (i2, st2) = tuple_scan_step(s, i, st);
        tuple_scan_from(s, i2, st2)
    }
}

/// The scan state a fresh line starts from: outside any quotes, nothing
/// escaped, with the carried-over VALUES flag.
pub open spec fn tuple_scan_init(values_seen: bool) -> TupleScan {
    TupleScan {
        in_single: false,
        in_double: false,
        escape: false,
        values_seen,
        count: 0,
        ended: false,
    }
}

/// The result of scanning one whole line with the carried-over flag.
pub open spec fn spec_count_line(line: Seq<u8>, values_seen: bool) -> TupleScan {
    tuple_scan_from(line, 0, tuple_scan_init(values_seen))
}

/// Case-insensitive test for the bytes of `values` at position `i`.
pub fn matches_values_kw(bytes: &[u8], i: usize) -> (r: bool)
    ensures
        r == values_kw_bytes_at(bytes@, i as int),
{
    if bytes.len() < 6 || i > bytes.len() - 6 {
        return false;
    }
    lower_byte(bytes[i]) == ('v' as u8) && lower_byte(bytes[i + 1]) == ('a' as u8) && lower_byte(
        bytes[i + 2],
    ) == ('l' as u8) && lower_byte(bytes[i + 3]) == ('u' as u8) && lower_byte(bytes[i + 4]) == ('e'
        as u8) && lower_byte(bytes[i + 5]) == ('s' as u8)
}

/// Count how many tuple groups appear in an `INSERT ... VALUES` statement
/// line. Parentheses inside quoted strings are ignored, and counting only
/// starts once the `VALUES` keyword has been seen — on this line, or on an
/// earlier line of the same statement when `values_seen` is carried in.
/// Returns the tuples counted on this line, the updated VALUES-seen flag,
/// and whether the statement's terminating `;` was reached.
pub fn count_insert_values_tuples_line(line: &[u8], values_seen: bool) -> (r: (usize, bool, bool))
    ensures
        ({
            let st = spec_count_line(line@, values_seen);
            r.0 as nat == st.count && r.1 == st.values_seen && r.2 == st.ended
        }),
{
    let n: usize = line.len();
    let mut in_single = false;
    let mut in_double = false;
    let mut escape = false;
    let mut vs = values_seen;
    let mut count: usize = 0;
    let mut ended = false;
    let mut i: usize = 0;

    while i < n
        invariant
            0 <= i <= n,
            n == line@.len(),
            count <= i,
            spec_count_line(line@, values_seen) == tuple_scan_from(
                line@,
                i as int,
                (TupleScan {
                    in_single,
                    in_double,
                    escape,
                    values_seen: vs,
                    count: count as nat,
                    ended,
                }),
            ),
        decreases n - i,
    {
        let ghost i0 = i as int;
        let ghost pre = TupleScan {
            in_single,
            in_double,
            escape,
            values_seen: vs,
            count: count as nat,
            ended,
        };
        let c = line[i];
        if escape {
            escape = false;
            i = i + 1;
        } else if c == ('\\' as u8) {
            escape = true;
            i = i + 1;
        } else if !in_double && c == ('\'' as u8) {
            in_single = !in_single;
            i = i + 1;
        } else if !in_single && c == ('"' as u8) {
            in_double = !in_double;
            i = i + 1;
        } else if !in_single && !in_double && !vs && matches_values_kw(line, i) && (i == 0
            || !alpha_byte(line[i - 1])) && (i + 6 >= n || !alpha_byte(line[i + 6])) {
            vs = true;
            i = i + 6;
        } else if !in_single && !in_double && vs && c == ('(' as u8) {
            count = count + 1;
            i = i + 1;
        } else if !in_single && !in_double && vs && c == (';' as u8) {
            ended = true;
            i = i + 1;
        } else {
            i = i + 1;
        }
        proof {
            let post = TupleScan {
                in_single,
                in_double,
                escape,
                values_seen: vs,
                count: count as nat,
                ended,
            };
            assert(tuple_scan_step(line@, i0, pre) == (i as int, post));
            assert(tuple_scan_from(line@, i0, pre) == tuple_scan_from(line@, i as int, post));
        }
    }
    (count, vs, ended)
}

/// The VALUES-seen flag handed to line `k` of a statement whose lines run
/// from `a`, threaded from flag `vs` at `a`: each line is scanned with the
/// flag the line before handed back.
pub open spec fn threaded_flag_from(lines: Seq<Seq<u8>>, a: int, k: int, vs: bool) -> bool
    decreases k - a,
{
    if k <= a {
        vs
    } else {
        spec_count_line(lines[k - 1], threaded_flag_from(lines, a, k - 1, vs)).values_seen
    }
}

/// The tuple total of lines `a .. k` of a statement, each line scanned
/// with its threaded flag.
pub open spec fn threaded_total_from(lines: Seq<Seq<u8>>, a: int, k: int, vs: bool) -> nat
    decreases k - a,
{
    if k <= a {
        0
    } else {
        threaded_total_from(lines, a, k - 1, vs) + spec_count_line(
            lines[k - 1],
            threaded_flag_from(lines, a, k - 1, vs),
        ).count
    }
}

/// Inside a quoted string nothing counts: a step taken while either quote
/// flag is set never changes the tuple count and never reports the
/// statement as ended, whatever the byte — a literal `(` or `;` in a
/// string is spurious neither way.
pub proof fn lemma_tuple_scan_quote_safe(s: Seq<u8>, i: int, st: TupleScan)
    requires
        0 <= i < s.len(),
        st.in_single || st.in_double,
    ensures
        tuple_scan_step(s, i, st).1.count == st.count,
        tuple_scan_step(s, i, st).1.ended == st.ended,
        tuple_scan_step(s, i, st).1.values_seen == st.values_seen,
{
}

/// An escaped byte never toggles quote state: with an escape pending, the
/// step leaves both quote flags as they were — a backslash-escaped quote
/// character inside a string does not end the string.
pub proof fn lemma_tuple_scan_escape_safe(s: Seq<u8>, i: int, st: TupleScan)
    requires
        0 <= i < s.len(),
        st.escape,
    ensures
        tuple_scan_step(s, i, st).1.in_single == st.in_single,
        tuple_scan_step(s, i, st).1.in_double == st.in_double,
        !tuple_scan_step(s, i, st).1.escape,
{
}

} // verus!
