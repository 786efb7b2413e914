//! Sizes in bytes, written for people.

use vstd::prelude::*;
use crate::decimal::{decimal, decimal_chars, digit, digit_char};
use crate::text::{from_chars, push_all};

verus! {

/// The least of `pow`, `2 * pow`, `4 * pow`, ... by which `n` can be divided
/// so that the quotient has no more than 53 binary digits.
pub open spec fn scale_from(n: nat, pow: nat) -> nat
    decreases n + 1 - pow,
{
    if pow > 0 && n >= pow * 9007199254740992 {
        scale_from(n, 2 * pow)
    } else {
        pow
    }
}

/// `num / den`, rounded to the nearest whole number; of two that are equally
/// near the even one is taken.
pub open spec fn round_half_even(num: nat, den: nat) -> nat {
    let q = num / den;
    let r = num % den;
    if 2 * r > den || (2 * r == den && q % 2 == 1) {
        q + 1
    } else {
        q
    }
}

/// A size as it is held for display: with its first 53 binary digits, the
/// rest rounded away.
pub open spec fn held(bytes: nat) -> nat {
    let pow = scale_from(bytes, 1);
    round_half_even(bytes, pow) * pow
}

/// The number of bytes in the unit with the given index.
pub open spec fn unit_bytes(index: nat) -> nat {
    if index == 0 {
        1
    } else if index == 1 {
        1024
    } else if index == 2 {
        1048576
    } else if index == 3 {
        1073741824
    } else {
        1099511627776
    }
}

/// The letter of the unit with the given index.
pub open spec fn unit_letter(index: nat) -> char {
    if index == 0 {
        'B'
    } else if index == 1 {
        'K'
    } else if index == 2 {
        'M'
    } else if index == 3 {
        'G'
    } else {
        'T'
    }
}

/// The index of the largest unit, up to the fifth, that the size reaches.
pub open spec fn unit_index(size: nat) -> nat {
    if size >= 1099511627776 {
        4
    } else if size >= 1073741824 {
        3
    } else if size >= 1048576 {
        2
    } else if size >= 1024 {
        1
    } else {
        0
    }
}

/// A size in the largest unit that it reaches: in bytes as a whole number,
/// in any larger unit with one decimal, rounded to the nearest tenth.
pub open spec fn size_text(bytes: nat) -> Seq<char> {
    let size = held(bytes);
    let index = unit_index(size);
    if index == 0 {
        decimal(size) + seq![' ', 'B']
    } else {
        let tenths = round_half_even(size * 10, unit_bytes(index));
        decimal(tenths / 10) + seq!['.', digit((tenths % 10) as int), ' ', unit_letter(index)]
    }
}

/// `num / den`, rounded to the nearest whole number, ties to the even one.
pub fn rounded_quotient(num: u128, den: u128) -> (q: u128)
    requires
        den > 0,
        num / den < u128::MAX,
    ensures
        q == round_half_even(num as nat, den as nat),
{
    let q = num / den;
    let r = num % den;
    if r > den - r || (r == den - r && q % 2 == 1) {
        q + 1
    } else {
        q
    }
}

/// Human readable size rendering shared across commands.
pub fn print_size(bytes: u64) -> (text: String)
    ensures
        text@ == size_text(bytes as nat),
{
    let n: u128 = bytes as u128;
    let mut pow: u128 = 1;
    while n >= pow * 9007199254740992
        invariant
            0 < pow <= 4096,
            n == bytes,
            scale_from(n as nat, 1) == scale_from(n as nat, pow as nat),
        decreases 4096 - pow,
    {
        pow = pow * 2;
    }
    let quotient = rounded_quotient(n, pow);
    assert(quotient * pow <= n + pow) by (nonlinear_arith)
        requires
            quotient <= n / pow + 1,
            pow > 0,
    ;
    let size: u128 = quotient * pow;
    assert(size == held(bytes as nat));
    let mut out: Vec<char> = Vec::new();
    if size < 1024 {
        push_all(&mut out, &decimal_chars(size as u64));
        out.push(' ');
        out.push('B');
        assert(out@ =~= size_text(bytes as nat));
    } else {
        let (den, letter): (u128, char) = if size >= 1099511627776 {
            (1099511627776, 'T')
        } else if size >= 1073741824 {
            (1073741824, 'G')
        } else if size >= 1048576 {
            (1048576, 'M')
        } else {
            (1024, 'K')
        };
        assert(den == unit_bytes(unit_index(size as nat)));
        assert(letter == unit_letter(unit_index(size as nat)));
        let tenths = rounded_quotient(size * 10, den);
        push_all(&mut out, &decimal_chars((tenths / 10) as u64));
        out.push('.');
        out.push(digit_char((tenths % 10) as u8));
        out.push(' ');
        out.push(letter);
        assert(out@ =~= size_text(bytes as nat));
    }
    from_chars(&out)
}

} // verus!
