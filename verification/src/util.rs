//! Sizes in a form that people read.

use vstd::prelude::*;

use crate::text::{decimal, digit, push_decimal, push_digit};

verus! {

/// The distance between neighbouring numbers that have 24 significant bits,
/// at the magnitude of `n`: 1 below 2^24, and twice as much with every
/// doubling from there.
pub open spec fn spacing(n: nat) -> nat
    decreases n,
{
    if n < 0x100_0000 {
        1
    } else {
        2 * spacing(n / 2)
    }
}

/// `n / unit` rounded to the nearest integer; where `n` lies midway between
/// two, the even one is taken.
pub open spec fn nearest(n: nat, unit: nat) -> nat {
    let below = n / unit;
    let rest = n % unit;
    if 2 * rest < unit || (2 * rest == unit && below % 2 == 0) {
        below
    } else {
        below + 1
    }
}

/// `n` rounded to 24 significant bits, the precision of a single-precision
/// floating-point number.
pub open spec fn single(n: nat) -> nat {
    nearest(n, spacing(n)) * spacing(n)
}

/// Which unit a size of `rounded` bytes is shown in: 0 for kilobytes, 1 for
/// megabytes, 2 for gigabytes. A unit is left for the next one only when the
/// size exceeds 1024 of it.
pub open spec fn degree(rounded: nat) -> nat {
    if rounded <= 0x10_0000 {
        0
    } else if rounded <= 0x4000_0000 {
        1
    } else {
        2
    }
}

/// The number of bytes in the unit of the given degree.
pub open spec fn unit_bytes(degree: nat) -> nat {
    if degree == 0 {
        0x400
    } else if degree == 1 {
        0x10_0000
    } else {
        0x4000_0000
    }
}

/// The name of the unit of the given degree.
pub open spec fn unit_name(degree: nat) -> Seq<char> {
    if degree == 0 {
        seq!['K', 'B']
    } else if degree == 1 {
        seq!['M', 'B']
    } else {
        seq!['G', 'B']
    }
}

/// The size of `bytes` bytes in hundredths of its unit.
pub open spec fn hundredths(bytes: nat) -> nat {
    nearest(single(bytes) * 100, unit_bytes(degree(single(bytes))))
}

/// How a size of `bytes` bytes is shown: the size in its unit with two
/// decimal places, a space, and the unit's name.
pub open spec fn size_text(bytes: nat) -> Seq<char> {
    let h = hundredths(bytes);
    decimal(h / 100) + seq!['.', digit((h / 10 % 10) as int), digit((h % 10) as int), ' ']
        + unit_name(degree(single(bytes)))
}

/// Computes `spacing`.
fn spacing_of(n: u32) -> (unit: u32)
    ensures
        unit == spacing(n as nat),
        1 <= unit <= 511,
    decreases n,
{
    if n < 0x100_0000 {
        1
    } else {
        let half: u32 = spacing_of(n / 2);
        assert(half <= 255) by {
            lemma_spacing_is_small((n / 2) as nat);
        }
        2 * half
    }
}

/// Numbers with 24 significant bits lie no further apart than a
/// 2^23rd of their size.
proof fn lemma_spacing_is_small(n: nat)
    ensures
        spacing(n) == 1 || spacing(n) * 0x80_0000 <= n,
    decreases n,
{
    if n >= 0x100_0000 {
        lemma_spacing_is_small(n / 2);
    }
}

/// Computes `nearest`.
fn nearest_of(n: u64, unit: u64) -> (q: u64)
    requires
        0 < unit <= 0x4000_0000,
        n < 0x1_0000_0000_0000,
    ensures
        q == nearest(n as nat, unit as nat),
        q * unit <= n + unit,
{
    let below: u64 = n / unit;
    let rest: u64 = n % unit;
    assert(below * unit + rest == n && (below + 1) * unit == below * unit + unit)
        by (nonlinear_arith)
        requires
            below == n / unit,
            rest == n % unit,
            unit > 0,
    ;
    if 2 * rest < unit || (2 * rest == unit && below % 2 == 0) {
        below
    } else {
        below + 1
    }
}

/// Computes `degree`.
fn degree_of(rounded: u64) -> (d: u8)
    ensures
        d == degree(rounded as nat),
        d <= 2,
{
    if rounded <= 0x10_0000 {
        0
    } else if rounded <= 0x4000_0000 {
        1
    } else {
        2
    }
}

/// Computes `unit_bytes`.
fn unit_bytes_of(degree: u8) -> (bytes: u64)
    ensures
        bytes == unit_bytes(degree as nat),
        0 < bytes <= 0x4000_0000,
{
    if degree == 0 {
        0x400
    } else if degree == 1 {
        0x10_0000
    } else {
        0x4000_0000
    }
}

/// Appends `unit_name`.
fn push_unit_name(text: &mut String, degree: u8)
    ensures
        final(text)@ == old(text)@ + unit_name(degree as nat),
{
    if degree == 0 {
        text.push('K');
    } else if degree == 1 {
        text.push('M');
    } else {
        text.push('G');
    }
    text.push('B');
    assert(text@ =~= old(text)@ + unit_name(degree as nat));
}

/// Converts a size in bytes into a text for people: the size in kilobytes,
/// megabytes or gigabytes with two decimal places, then the unit's name.
///
/// The size is taken with the precision of a single-precision
/// floating-point number, that is rounded to 24 significant bits, before it
/// is scaled; the scaled size is then rounded to hundredths. Both roundings
/// go to the nearest value and, midway between two, to the even one.
pub fn display_size(bytes: u32) -> (text: String)
    ensures
        text@ == size_text(bytes as nat),
{
    let unit: u32 = spacing_of(bytes);
    let rounded: u64 = nearest_of(bytes as u64, unit as u64) * (unit as u64);
    let degree: u8 = degree_of(rounded);
    let h: u64 = nearest_of(rounded * 100, unit_bytes_of(degree));

    let mut text = String::new();
    push_decimal(&mut text, h / 100);
    text.push('.');
    push_digit(&mut text, (h / 10 % 10) as u8);
    push_digit(&mut text, (h % 10) as u8);
    text.push(' ');
    push_unit_name(&mut text, degree);
    assert(text@ =~= size_text(bytes as nat));
    text
}

} // verus!
