//! Formatting a byte count in human-friendly binary units (`B`, `KiB`,
//! `MiB`, `GiB`, `TiB`): the count is scaled into the largest unit that
//! keeps it at least 1, rounded to the nearest representable value (ties
//! to the even one), and printed with two, one or no decimal places as
//! the scaled value grows.

use vstd::prelude::*;
use vstd::string::StringExecFns;
use crate::ascii::ascii_chars;
use crate::ascii::ascii_bytes_to_string;

verus! {

/// The decimal digit bytes of `n`, most significant first.
pub open spec fn spec_digit_bytes(n: nat) -> Seq<u8>
    decreases n,
{
    if n < 10 {
        seq![(48 + n) as u8]
    } else {
        spec_digit_bytes(n / 10).push((48 + n % 10) as u8)
    }
}

/// 1024 raised to `u`.
pub open spec fn pow1024(u: nat) -> nat
    decreases u,
{
    if u == 0 {
        1
    } else {
        1024 * pow1024((u - 1) as nat)
    }
}

/// The unit a count of at least 1024 bytes is shown in: the largest of
/// KiB, MiB, GiB and TiB that keeps the scaled value at least 1.
pub open spec fn spec_unit_of(n: nat) -> nat {
    if n < 1048576 {
        1
    } else if n < 1073741824 {
        2
    } else if n < 1099511627776 {
        3
    } else {
        4
    }
}

/// The unit's display suffix.
pub open spec fn spec_unit_suffix(u: nat) -> Seq<char> {
    if u == 0 {
        " B"@
    } else if u == 1 {
        " KiB"@
    } else if u == 2 {
        " MiB"@
    } else if u == 3 {
        " GiB"@
    } else {
        " TiB"@
    }
}

/// `num / den` rounded to the nearest integer, ties to the even one.
pub open spec fn round_div_half_even(num: nat, den: nat) -> nat
    recommends
        den > 0,
{
    let q = num / den;
    let r = num % den;
    if 2 * r < den {
        q
    } else if 2 * r > den {
        q + 1
    } else if q % 2 == 0 {
        q
    } else {
        q + 1
    }
}

/// The number part of the display: below 1024 the plain count; above it
/// the count scaled into its unit, with two decimals below 10, one below
/// 100, none from there on.
pub open spec fn spec_number_bytes(n: nat) -> Seq<u8> {
    if n < 1024 {
        spec_digit_bytes(n)
    } else {
        let u = spec_unit_of(n);
        let p = pow1024(u);
        if n >= 100 * p {
            spec_digit_bytes(round_div_half_even(n, p))
        } else if n >= 10 * p {
            let s = round_div_half_even(10 * n, p);
            spec_digit_bytes(s / 10) + seq![46u8, (48 + s % 10) as u8]
        } else {
            let s = round_div_half_even(100 * n, p);
            spec_digit_bytes(s / 100) + seq![46u8, (48 + (s / 10) % 10) as u8, (48 + s % 10) as u8]
        }
    }
}

/// What `human_bytes` prints for a count of `n` bytes.
pub open spec fn spec_human_bytes(n: nat) -> Seq<char> {
    ascii_chars(spec_number_bytes(n)) + spec_unit_suffix(
        if n < 1024 {
            0
        } else {
            spec_unit_of(n)
        },
    )
}

/// Append the decimal digits of `m` to a byte buffer.
fn push_digits(out: &mut Vec<u8>, m: u128)
    ensures
        final(out)@ == old(out)@ + spec_digit_bytes(m as nat),
    decreases m,
{
    if m >= 10 {
        assert(m / 10 < m);
        push_digits(out, m / 10);
    }
    out.push(48 + (m % 10) as u8);
    proof {
        if m >= 10 {
            assert(out@ =~= old(out)@ + spec_digit_bytes((m / 10) as nat).push(
                (48 + (m as nat) % 10) as u8,
            ));
        } else {
            assert(out@ =~= old(out)@ + spec_digit_bytes(m as nat));
        }
    }
}

/// Decimal digit bytes stay in the ASCII digit range.
proof fn lemma_digit_bytes_ascii(n: nat)
    ensures
        forall|i: int|
            0 <= i < spec_digit_bytes(n).len() ==> 48 <= #[trigger] spec_digit_bytes(n)[i] < 58,
    decreases n,
{
    if n >= 10 {
        lemma_digit_bytes_ascii(n / 10);
        let s = spec_digit_bytes(n / 10);
        let b = (48 + n % 10) as u8;
        assert forall|i: int| 0 <= i < s.push(b).len() implies 48 <= #[trigger] s.push(b)[i]
            < 58 by {
            if i < s.len() {
                assert(s.push(b)[i] == s[i]);
            } else {
                assert(s.push(b)[i] == b);
            }
        }
    }
}

/// Round to the nearest integer on machine words, ties to the even one.
fn round_half_even_u128(num: u128, den: u128) -> (r: u128)
    requires
        0 < den,
        den <= u128::MAX / 2,
        num < u128::MAX,
    ensures
        r as nat == round_div_half_even(num as nat, den as nat),
{
    let q = num / den;
    let rem = num % den;
    if 2 * rem < den {
        q
    } else if 2 * rem > den {
        q + 1
    } else if q % 2 == 0 {
        q
    } else {
        q + 1
    }
}

/// Format a byte size in human-friendly units (`KiB`, `MiB`, ...).
pub fn human_bytes(n: usize) -> (r: String)
    ensures
        r@ == spec_human_bytes(n as nat),
{
    let mut out: Vec<u8> = Vec::new();
    if n < 1024 {
        push_digits(&mut out, n as u128);
        proof {
            lemma_digit_bytes_ascii(n as nat);
            assert(out@ =~= spec_number_bytes(n as nat));
        }
        let mut s = ascii_bytes_to_string(out.as_slice());
        s.append(" B");
        proof {
            assert(s@ =~= spec_human_bytes(n as nat));
        }
        return s;
    }
    let nn: u128 = n as u128;
    let (p, u): (u128, u8) = if nn < 1048576 {
        (1024, 1)
    } else if nn < 1073741824 {
        (1048576, 2)
    } else if nn < 1099511627776 {
        (1073741824, 3)
    } else {
        (1099511627776, 4)
    };
    proof {
        assert(pow1024(0) == 1);
        assert(pow1024(1) == 1024);
        assert(pow1024(2) == 1048576);
        assert(pow1024(3) == 1073741824);
        assert(pow1024(4) == 1099511627776);
        assert(u as nat == spec_unit_of(n as nat));
        assert(p as nat == pow1024(u as nat));
    }
    if nn >= 100 * p {
        let q = round_half_even_u128(nn, p);
        push_digits(&mut out, q);
        proof {
            lemma_digit_bytes_ascii(q as nat);
            assert(out@ =~= spec_number_bytes(n as nat));
        }
    } else if nn >= 10 * p {
        let s10 = round_half_even_u128(10 * nn, p);
        push_digits(&mut out, s10 / 10);
        out.push(46);
        out.push(48 + (s10 % 10) as u8);
        proof {
            lemma_digit_bytes_ascii((s10 / 10) as nat);
            assert(out@ =~= spec_number_bytes(n as nat));
        }
    } else {
        let s100 = round_half_even_u128(100 * nn, p);
        push_digits(&mut out, s100 / 100);
        out.push(46);
        out.push(48 + ((s100 / 10) % 10) as u8);
        out.push(48 + (s100 % 10) as u8);
        proof {
            lemma_digit_bytes_ascii((s100 / 100) as nat);
            assert(out@ =~= spec_number_bytes(n as nat));
        }
    }
    proof {
        assert(forall|i: int| 0 <= i < out@.len() ==> #[trigger] out@[i] < 128);
    }
    let mut s = ascii_bytes_to_string(out.as_slice());
    if u == 1 {
        s.append(" KiB");
    } else if u == 2 {
        s.append(" MiB");
    } else if u == 3 {
        s.append(" GiB");
    } else {
        s.append(" TiB");
    }
    proof {
        assert(s@ =~= spec_human_bytes(n as nat));
    }
    s
}

} // verus!
