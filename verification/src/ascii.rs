//! Byte-level character classes and ASCII decoding used by the line
//! scanners. All matching in this crate is performed on raw bytes; text
//! only appears when a table name is exposed as a `String`.

use vstd::prelude::*;

verus! {

/// The characters of an ASCII string, one per byte.
pub open spec fn ascii_chars(s: Seq<u8>) -> Seq<char> {
    s.map_values(|b: u8| b as char)
}

/// The bytes of an ASCII string, one per character.
pub open spec fn ascii_bytes(s: Seq<char>) -> Seq<u8> {
    s.map_values(|c: char| c as u8)
}

/// Bytes that may form a table identifier: ASCII letters, digits and `_`.
pub open spec fn is_word_byte(b: u8) -> bool {
    ||| ('A' as u8) <= b <= ('Z' as u8)
    ||| ('a' as u8) <= b <= ('z' as u8)
    ||| ('0' as u8) <= b <= ('9' as u8)
    ||| b == ('_' as u8)
}

/// ASCII letters; the word-boundary check around the `VALUES` keyword
/// rejects a keyword glued to one of these.
pub open spec fn is_alpha_byte(b: u8) -> bool {
    ||| ('A' as u8) <= b <= ('Z' as u8)
    ||| ('a' as u8) <= b <= ('z' as u8)
}

/// ASCII whitespace bytes permitted before a table identifier. The byte
/// scan deliberately never decodes multi-byte sequences, so whitespace
/// characters encoded in more than one byte do not count as spacing.
pub open spec fn is_space_byte(b: u8) -> bool {
    ||| b == (' ' as u8)
    ||| b == ('\t' as u8)
    ||| b == ('\n' as u8)
    ||| b == ('\r' as u8)
    ||| b == 11u8
    ||| b == 12u8
}

/// ASCII lowercasing of one byte: `A`..`Z` map to `a`..`z`, all other
/// bytes are unchanged.
pub open spec fn byte_lower(b: u8) -> u8 {
    if ('A' as u8) <= b <= ('Z' as u8) {
        (b + 32) as u8
    } else {
        b
    }
}

pub fn word_byte(b: u8) -> (r: bool)
    ensures
        r == is_word_byte(b),
{
    (('A' as u8) <= b && b <= ('Z' as u8)) || (('a' as u8) <= b && b <= ('z' as u8)) || (('0'
        as u8) <= b && b <= ('9' as u8)) || b == ('_' as u8)
}

pub fn alpha_byte(b: u8) -> (r: bool)
    ensures
        r == is_alpha_byte(b),
{
    (('A' as u8) <= b && b <= ('Z' as u8)) || (('a' as u8) <= b && b <= ('z' as u8))
}

pub fn space_byte(b: u8) -> (r: bool)
    ensures
        r == is_space_byte(b),
{
    b == (' ' as u8) || b == ('\t' as u8) || b == ('\n' as u8) || b == ('\r' as u8) || b == 11u8
        || b == 12u8
}

pub fn lower_byte(b: u8) -> (r: u8)
    ensures
        r == byte_lower(b),
{
    if ('A' as u8) <= b && b <= ('Z' as u8) {
        b + 32
    } else {
        b
    }
}

/// True when `line` begins with the bytes of the ASCII string `prefix`.
pub open spec fn bytes_start_with(line: Seq<u8>, prefix: Seq<u8>) -> bool {
    prefix.len() <= line.len() && line.subrange(0, prefix.len() as int) == prefix
}

/// Byte-wise prefix test of a raw line against an ASCII keyword.
pub fn starts_with_ascii(line: &[u8], prefix: &str) -> (r: bool)
    requires
        prefix.is_ascii(),
    ensures
        r == bytes_start_with(line@, ascii_bytes(prefix@)),
{
    broadcast use vstd::string::is_ascii_spec_bytes;

    let pb: &[u8] = prefix.as_bytes();
    proof {
        assert(pb@ =~= ascii_bytes(prefix@));
    }
    if pb.len() > line.len() {
        proof {
            assert(!bytes_start_with(line@, pb@));
        }
        return false;
    }
    let n: usize = pb.len();
    let mut i: usize = 0;
    while i < n
        invariant
            i <= n,
            n == pb@.len() <= line@.len(),
            pb@ == ascii_bytes(prefix@),
            forall|j: int| 0 <= j < i ==> line@[j] == pb@[j],
        decreases n - i,
    {
        if line[i] != pb[i] {
            proof {
                assert(line@.subrange(0, pb@.len() as int)[i as int] != pb@[i as int]);
            }
            return false;
        }
        i = i + 1;
    }
    proof {
        assert(line@.subrange(0, pb@.len() as int) =~= pb@);
    }
    true
}

/// Relies on `String::from_utf8_lossy`: bytes below 128 are valid ASCII
/// UTF-8 and decode losslessly, one character per byte.
#[verifier::external_body]
pub(crate) fn ascii_bytes_to_string(bytes: &[u8]) -> (r: String)
    requires
        forall|i: int| 0 <= i < bytes@.len() ==> bytes@[i] < 128,
    ensures
        r@ == ascii_chars(bytes@),
{
    String::from_utf8_lossy(bytes).into_owned()
}

} // verus!
