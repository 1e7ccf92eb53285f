//! Pieces shared by the line-by-line scanners: recognition of `INSERT `
//! statement lines, saturating size arithmetic, and lookup in name-keyed
//! accumulator lists.

use vstd::prelude::*;
use crate::ascii::ascii_bytes;
use crate::ascii::bytes_start_with;
use crate::ascii::starts_with_ascii;

verus! {

/// A line starts or continues a data-insertion statement when its bytes
/// begin with the literal `INSERT `.
pub open spec fn spec_is_insert_line(line: Seq<u8>) -> bool {
    bytes_start_with(line, ascii_bytes("INSERT "@))
}

/// Byte-level test for the `INSERT ` statement prefix.
pub fn is_insert_line(line: &[u8]) -> (r: bool)
    ensures
        r == spec_is_insert_line(line@),
{
    proof {
        reveal_strlit("INSERT ");
    }
    starts_with_ascii(line, "INSERT ")
}

/// Addition that stops at the machine's limit instead of wrapping.
pub open spec fn sat_add(a: nat, b: nat) -> nat {
    if a + b <= usize::MAX as nat {
        a + b
    } else {
        usize::MAX as nat
    }
}

/// Saturating accumulator addition.
pub fn sat_add_usize(a: usize, b: usize) -> (r: usize)
    ensures
        r as nat == sat_add(a as nat, b as nat),
{
    if a <= usize::MAX - b {
        a + b
    } else {
        usize::MAX
    }
}

/// A name joins the encountered set the first time it is met.
pub open spec fn note_encountered(names: Seq<Seq<char>>, name: Seq<char>) -> Seq<Seq<char>> {
    if names.contains(name) {
        names
    } else {
        names.push(name)
    }
}

/// The index of the first accumulator entry keyed by `name`, or `-1` when
/// no entry carries that key.
pub open spec fn spec_key_at<V>(s: Seq<(Seq<char>, V)>, name: Seq<char>) -> int
    decreases s.len(),
{
    if s.len() == 0 {
        -1
    } else if s[0].0 == name {
        0
    } else {
        let r = spec_key_at(s.drop_first(), name);
        if r < 0 {
            -1
        } else {
            r + 1
        }
    }
}

/// What `spec_key_at` finds: a non-negative result is the first entry
/// keyed by `name`, and a negative result means no entry carries the key.
pub proof fn lemma_key_at<V>(s: Seq<(Seq<char>, V)>, name: Seq<char>)
    ensures
        spec_key_at(s, name) >= 0 ==> {
            &&& 0 <= spec_key_at(s, name) < s.len()
            &&& s[spec_key_at(s, name)].0 == name
            &&& forall|j: int| 0 <= j < spec_key_at(s, name) ==> (#[trigger] s[j]).0 != name
        },
        spec_key_at(s, name) < 0 ==> forall|j: int| 0 <= j < s.len() ==> (#[trigger] s[j]).0
            != name,
    decreases s.len(),
{
    if s.len() > 0 && s[0].0 != name {
        lemma_key_at(s.drop_first(), name);
        assert forall|j: int| 1 <= j < s.len() implies (#[trigger] s[j]).0 == s.drop_first()[j
            - 1].0 by {}
    }
}

/// Two accumulator lists with the same keys in the same places agree on
/// where any name stands.
pub proof fn lemma_key_at_same_keys<V>(
    s1: Seq<(Seq<char>, V)>,
    s2: Seq<(Seq<char>, V)>,
    name: Seq<char>,
)
    requires
        s1.len() == s2.len(),
        forall|m: int| 0 <= m < s1.len() ==> (#[trigger] s1[m]).0 == s2[m].0,
    ensures
        spec_key_at(s1, name) == spec_key_at(s2, name),
    decreases s1.len(),
{
    if s1.len() > 0 {
        assert forall|m: int| 0 <= m < s1.drop_first().len() implies (#[trigger] s1.drop_first()[m]).0
            == s2.drop_first()[m].0 by {
            assert(s1.drop_first()[m] == s1[m + 1]);
            assert(s2.drop_first()[m] == s2[m + 1]);
        }
        lemma_key_at_same_keys(s1.drop_first(), s2.drop_first(), name);
    }
}

/// Append one line's bytes to a byte sink.
pub fn append_bytes(out: &mut Vec<u8>, line: &Vec<u8>)
    ensures
        final(out)@ == old(out)@ + line@,
{
    let n: usize = line.len();
    let mut i: usize = 0;
    while i < n
        invariant
            0 <= i <= n,
            n == line@.len(),
            out@ == old(out)@ + line@.take(i as int),
        decreases n - i,
    {
        proof {
            assert(old(out)@ + line@.take(i as int + 1) =~= (old(out)@ + line@.take(i as int)).push(
                line@[i as int],
            ));
        }
        out.push(line[i]);
        i = i + 1;
    }
    proof {
        assert(line@.take(n as int) =~= line@);
    }
}

/// Whether some `String` in `v` spells `name`.
pub fn contains_name(v: &Vec<String>, name: &String) -> (r: bool)
    ensures
        r == v.deep_view().contains(name@),
{
    let n: usize = v.len();
    let mut i: usize = 0;
    while i < n
        invariant
            0 <= i <= n,
            n == v@.len(),
            forall|j: int| 0 <= j < i ==> v.deep_view()[j] != name@,
        decreases n - i,
    {
        if v[i].eq(name) {
            proof {
                assert(v.deep_view()[i as int] == name@);
            }
            return true;
        }
        proof {
            assert(v.deep_view()[i as int] == v@[i as int]@);
        }
        i = i + 1;
    }
    false
}

} // verus!
