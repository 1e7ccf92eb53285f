//! Recognition of table-definition lines and extraction of the table
//! identifier they introduce.
//!
//! A definition line begins with one of the literal prefixes
//! `DROP TABLE IF EXISTS `, `DROP TABLE `, `CREATE TABLE IF NOT EXISTS `
//! or `CREATE TABLE ` (the more specific prefix is recognized first).
//! After the prefix comes optional whitespace and an identifier of one or
//! more ASCII letters, digits or underscores, optionally wrapped in
//! backticks. The whole scan works on raw bytes and never decodes
//! multi-byte sequences, so the whitespace permitted before the
//! identifier is deliberately the six ASCII whitespace bytes and nothing
//! wider.

use vstd::prelude::*;
use vstd::string::StringSliceAdditionalSpecFns;
use crate::ascii::ascii_bytes;
use crate::ascii::ascii_chars;
use crate::ascii::ascii_bytes_to_string;
use crate::ascii::bytes_start_with;
use crate::ascii::is_space_byte;
use crate::ascii::is_word_byte;
use crate::ascii::space_byte;
use crate::ascii::starts_with_ascii;
use crate::ascii::word_byte;

verus! {

/// A line counts as the start of a table definition when it begins with
/// the bytes of `DROP TABLE ` or `CREATE TABLE `. This covers all four
/// definition prefixes: `DROP TABLE IF EXISTS ` and
/// `CREATE TABLE IF NOT EXISTS ` begin with these two.
pub open spec fn spec_is_table_ddl_line(line: Seq<u8>) -> bool {
    ||| bytes_start_with(line, ascii_bytes("DROP TABLE "@))
    ||| bytes_start_with(line, ascii_bytes("CREATE TABLE "@))
}

/// The line with its definition prefix removed; the most specific prefix
/// wins, and a line with no recognized prefix is left whole.
pub open spec fn spec_strip_ddl_prefix(line: Seq<u8>) -> Seq<u8> {
    if bytes_start_with(line, ascii_bytes("DROP TABLE IF EXISTS "@)) {
        line.skip(ascii_bytes("DROP TABLE IF EXISTS "@).len() as int)
    } else if bytes_start_with(line, ascii_bytes("DROP TABLE "@)) {
        line.skip(ascii_bytes("DROP TABLE "@).len() as int)
    } else if bytes_start_with(line, ascii_bytes("CREATE TABLE IF NOT EXISTS "@)) {
        line.skip(ascii_bytes("CREATE TABLE IF NOT EXISTS "@).len() as int)
    } else if bytes_start_with(line, ascii_bytes("CREATE TABLE "@)) {
        line.skip(ascii_bytes("CREATE TABLE "@).len() as int)
    } else {
        line
    }
}

/// Index of the first byte at or after `i` that is not ASCII whitespace.
pub open spec fn space_run_end(s: Seq<u8>, i: int) -> int
    decreases s.len() - i,
{
    if i < 0 || i >= s.len() {
        i
    } else if is_space_byte(s[i]) {
        space_run_end(s, i + 1)
    } else {
        i
    }
}

/// Index of the first byte at or after `i` that is not an identifier byte.
pub open spec fn word_run_end(s: Seq<u8>, i: int) -> int
    decreases s.len() - i,
{
    if i < 0 || i >= s.len() {
        i
    } else if is_word_byte(s[i]) {
        word_run_end(s, i + 1)
    } else {
        i
    }
}

/// The identifier at the start of `s`: optional whitespace, an optional
/// opening backtick, then one or more identifier bytes. A trailing
/// backtick, and anything after the identifier, is ignored. `None` when no
/// identifier byte follows the optional backtick.
pub open spec fn spec_ident_at(s: Seq<u8>) -> Option<Seq<u8>> {
    let i = space_run_end(s, 0);
    let j = if i < s.len() && s[i] == ('`' as u8) {
        i + 1
    } else {
        i
    };
    let k = word_run_end(s, j);
    if k > j {
        Some(s.subrange(j, k))
    } else {
        None
    }
}

/// The table name of a definition line: the identifier found after the
/// recognized prefix, if any.
pub open spec fn spec_table_name(line: Seq<u8>) -> Option<Seq<u8>> {
    spec_ident_at(spec_strip_ddl_prefix(line))
}

/// Returns true if the line looks like the start of a table DDL statement,
/// e.g. `DROP TABLE IF EXISTS ...` or `CREATE TABLE ...`.
pub fn is_table_ddl_line(line: &[u8]) -> (r: bool)
    ensures
        r == spec_is_table_ddl_line(line@),
{
    proof {
        reveal_strlit("DROP TABLE ");
        reveal_strlit("CREATE TABLE ");
    }
    starts_with_ascii(line, "DROP TABLE ") || starts_with_ascii(line, "CREATE TABLE ")
}

/// Strip one recognized ASCII prefix, handing back the remainder.
fn strip_prefix<'a>(line: &'a [u8], prefix: &str) -> (r: Option<&'a [u8]>)
    requires
        prefix.is_ascii(),
    ensures
        bytes_start_with(line@, ascii_bytes(prefix@)) ==> (r matches Some(rest) && rest@
            == line@.skip(ascii_bytes(prefix@).len() as int)),
        !bytes_start_with(line@, ascii_bytes(prefix@)) ==> r is None,
{
    broadcast use vstd::string::is_ascii_spec_bytes;

    if starts_with_ascii(line, prefix) {
        let ln: usize = line.len();
        let n: usize = prefix.len();
        proof {
            vstd::string::is_ascii_spec_bytes(prefix);
            assert(prefix.spec_bytes() =~= ascii_bytes(prefix@));
            assert(ln == line@.len());
            assert(ascii_bytes(prefix@).len() <= line@.len());
            assert(n == ascii_bytes(prefix@).len());
        }
        Some(&line[n..ln])
    } else {
        None
    }
}

/// Extract the table name from a DDL line. Accepts backticked or bare
/// identifiers; returns `None` if a name cannot be parsed.
pub fn table_name_from_ddl_line(line: &[u8]) -> (r: Option<String>)
    ensures
        match spec_table_name(line@) {
            Some(name) => r matches Some(s) && s@ == ascii_chars(name),
            None => r is None,
        },
{
    proof {
        reveal_strlit("DROP TABLE IF EXISTS ");
        reveal_strlit("DROP TABLE ");
        reveal_strlit("CREATE TABLE IF NOT EXISTS ");
        reveal_strlit("CREATE TABLE ");
    }
    let rest: &[u8] = if let Some(x) = strip_prefix(line, "DROP TABLE IF EXISTS ") {
        x
    } else if let Some(x) = strip_prefix(line, "DROP TABLE ") {
        x
    } else if let Some(x) = strip_prefix(line, "CREATE TABLE IF NOT EXISTS ") {
        x
    } else if let Some(x) = strip_prefix(line, "CREATE TABLE ") {
        x
    } else {
        line
    };
    proof {
        assert(rest@ == spec_strip_ddl_prefix(line@));
    }
    parse_ident(rest)
}

/// Parse the leading identifier of `s`, as `spec_ident_at` describes it.
fn parse_ident(s: &[u8]) -> (r: Option<String>)
    ensures
        match spec_ident_at(s@) {
            Some(name) => r matches Some(out) && out@ == ascii_chars(name),
            None => r is None,
        },
{
    let n: usize = s.len();
    let mut i: usize = 0;
    while i < n && space_byte(s[i])
        invariant
            0 <= i <= n,
            n == s@.len(),
            forall|m: int| 0 <= m < i ==> is_space_byte(s@[m]),
        decreases n - i,
    {
        i = i + 1;
    }
    proof {
        lemma_space_run(s@, 0, i as int);
    }
    let j: usize = if i < n && s[i] == ('`' as u8) {
        i + 1
    } else {
        i
    };
    let mut k: usize = j;
    while k < n && word_byte(s[k])
        invariant
            j <= k <= n,
            n == s@.len(),
            forall|m: int| j <= m < k ==> is_word_byte(s@[m]),
        decreases n - k,
    {
        k = k + 1;
    }
    proof {
        lemma_word_run(s@, j as int, k as int);
    }
    if k > j {
        let name: &[u8] = &s[j..k];
        proof {
            assert(forall|m: int| 0 <= m < name@.len() ==> is_word_byte(#[trigger] name@[m]));
        }
        Some(ascii_bytes_to_string(name))
    } else {
        None
    }
}

/// For every definition line whose remainder after the recognized prefix
/// is optional whitespace, an optionally backticked identifier of one or
/// more identifier bytes, and a continuation that does not extend the
/// identifier, the parsed table name is exactly that identifier, backticks
/// stripped.
pub proof fn lemma_table_name_exact(
    line: Seq<u8>,
    ws: Seq<u8>,
    tick: Seq<u8>,
    name: Seq<u8>,
    rest: Seq<u8>,
)
    requires
        spec_strip_ddl_prefix(line) == ws + tick + name + rest,
        forall|m: int| 0 <= m < ws.len() ==> is_space_byte(#[trigger] ws[m]),
        tick.len() <= 1,
        tick.len() == 1 ==> tick[0] == ('`' as u8),
        name.len() > 0,
        forall|m: int| 0 <= m < name.len() ==> is_word_byte(#[trigger] name[m]),
        rest.len() > 0 ==> !is_word_byte(rest[0]),
    ensures
        spec_table_name(line) == Some(name),
{
    let s = spec_strip_ddl_prefix(line);
    let i = ws.len() as int;
    let j = i + tick.len();
    let k = j + name.len();
    assert(s.len() == ws.len() + tick.len() + name.len() + rest.len());
    assert forall|m: int| 0 <= m < i implies is_space_byte(#[trigger] s[m]) by {
        assert(s[m] == ws[m]);
    }
    assert forall|m: int| j <= m < k implies is_word_byte(#[trigger] s[m]) by {
        assert(s[m] == name[m - j]);
    }
    if tick.len() == 1 {
        assert(s[i] == tick[0]);
        assert(!is_space_byte(s[i]));
    } else {
        assert(s[i] == name[0]);
        assert(!is_space_byte(s[i]));
    }
    lemma_space_run(s, 0, i);
    if tick.len() == 1 {
        assert(s[i] == ('`' as u8));
    } else {
        assert(s[i] == name[0]);
        assert(s[i] != ('`' as u8));
    }
    if rest.len() > 0 {
        assert(s[k] == rest[0]);
        assert(!is_word_byte(s[k]));
    }
    lemma_word_run(s, j, k);
    assert(s.subrange(j, k) =~= name);
}

/// A run of whitespace bytes ending at a non-whitespace byte or at the end
/// of the sequence is exactly what `space_run_end` skips.
proof fn lemma_space_run(s: Seq<u8>, i: int, k: int)
    requires
        0 <= i <= k <= s.len(),
        forall|m: int| i <= m < k ==> is_space_byte(s[m]),
        k == s.len() || !is_space_byte(s[k]),
    ensures
        space_run_end(s, i) == k,
    decreases k - i,
{
    if i < k {
        lemma_space_run(s, i + 1, k);
    }
}

/// A run of identifier bytes ending at a non-identifier byte or at the end
/// of the sequence is exactly what `word_run_end` takes.
proof fn lemma_word_run(s: Seq<u8>, i: int, k: int)
    requires
        0 <= i <= k <= s.len(),
        forall|m: int| i <= m < k ==> is_word_byte(s[m]),
        k == s.len() || !is_word_byte(s[k]),
    ensures
        word_run_end(s, i) == k,
    decreases k - i,
{
    if i < k {
        lemma_word_run(s, i + 1, k);
    }
}

} // verus!
