//! Sizes as people read them.
use crate::text::{decimal, decimal_text};
use vstd::prelude::*;
use vstd::string::*;

verus! {

/// The integer nearest to `n / d`; of two equally near ones, the even one.
pub open spec fn half_even(n: nat, d: nat) -> nat
    recommends
        d > 0,
{
    let q = n / d;
    let r = n % d;
    if 2 * r > d || (2 * r == d && q % 2 == 1) {
        q + 1
    } else {
        q
    }
}

/// How far apart double-precision numbers are around a 64-bit `n`, as far as that is more
/// than one.
pub open spec fn spacing(n: nat) -> nat {
    if n < 0x20_0000_0000_0000 {
        1
    } else if n < 0x40_0000_0000_0000 {
        2
    } else if n < 0x80_0000_0000_0000 {
        4
    } else if n < 0x100_0000_0000_0000 {
        8
    } else if n < 0x200_0000_0000_0000 {
        16
    } else if n < 0x400_0000_0000_0000 {
        32
    } else if n < 0x800_0000_0000_0000 {
        64
    } else if n < 0x1000_0000_0000_0000 {
        128
    } else if n < 0x2000_0000_0000_0000 {
        256
    } else if n < 0x4000_0000_0000_0000 {
        512
    } else if n < 0x8000_0000_0000_0000 {
        1024
    } else {
        2048
    }
}

/// The double-precision number nearest to `n`.
pub open spec fn double(n: nat) -> nat {
    half_even(n, spacing(n)) * spacing(n)
}

/// `n / d` with one decimal place.
pub open spec fn one_place(n: nat, d: nat) -> Seq<char> {
    let t = half_even(10 * n, d);
    decimal(t / 10) + "."@ + decimal(t % 10)
}

/// A number of bytes in the largest unit that it fills, as far as gigabytes.
pub open spec fn human(bytes: nat) -> Seq<char> {
    if bytes < 1024 {
        decimal(bytes) + " B"@
    } else if bytes < 0x10_0000 {
        one_place(double(bytes), 1024) + " KB"@
    } else if bytes < 0x4000_0000 {
        one_place(double(bytes), 0x10_0000) + " MB"@
    } else {
        one_place(double(bytes), 0x4000_0000) + " GB"@
    }
}

fn rounded(n: u128, d: u128) -> (r: u128)
    requires
        0 < d <= 0x4000_0000,
        n <= 0xFFFF_FFFF_FFFF_FFFF_FFFF,
    ensures
        r == half_even(n as nat, d as nat),
        r <= n + 1,
        d >= 1024 ==> r <= n / 1024 + 1,
{
    let q: u128 = n / d;
    let r: u128 = n % d;
    assert(q <= n) by (nonlinear_arith)
        requires
            q == n / d,
            d > 0,
    ;
    assert(d >= 1024 ==> q <= n / 1024) by (nonlinear_arith)
        requires
            q == n / d,
            d > 0,
    ;
    if 2 * r > d || (2 * r == d && q % 2 == 1) {
        q + 1
    } else {
        q
    }
}

fn space(n: u64) -> (u: u128)
    ensures
        u == spacing(n as nat),
        1 <= u <= 2048,
{
    if n < 0x20_0000_0000_0000 {
        1
    } else if n < 0x40_0000_0000_0000 {
        2
    } else if n < 0x80_0000_0000_0000 {
        4
    } else if n < 0x100_0000_0000_0000 {
        8
    } else if n < 0x200_0000_0000_0000 {
        16
    } else if n < 0x400_0000_0000_0000 {
        32
    } else if n < 0x800_0000_0000_0000 {
        64
    } else if n < 0x1000_0000_0000_0000 {
        128
    } else if n < 0x2000_0000_0000_0000 {
        256
    } else if n < 0x4000_0000_0000_0000 {
        512
    } else if n < 0x8000_0000_0000_0000 {
        1024
    } else {
        2048
    }
}

fn nearest_double(n: u64) -> (r: u128)
    ensures
        r == double(n as nat),
        r <= 0x1_0000_0000_0000_0FFF,
{
    let u: u128 = space(n);
    let q: u128 = rounded(n as u128, u);
    assert(q * u <= n + u) by (nonlinear_arith)
        requires
            q == half_even(n as nat, u as nat),
            u > 0,
    ;
    q * u
}

/// `n / d` with one decimal place, `n` taken as a double-precision number.
pub fn one_place_text(n: u64, d: u64) -> (r: String)
    requires
        1024 <= d <= 0x4000_0000,
    ensures
        r@ == one_place(double(n as nat), d as nat),
{
    let x: u128 = nearest_double(n);
    let t: u128 = rounded(10 * x, d as u128);
    assert(t / 10 <= 0xFFFF_FFFF_FFFF_FFFF);
    decimal_text((t / 10) as u64).concat(".").concat(decimal_text((t % 10) as u64).as_str())
}

pub fn human_size(bytes: u64) -> (r: String)
    ensures
        r@ == human(bytes as nat),
{
    if bytes < 1024 {
        decimal_text(bytes).concat(" B")
    } else if bytes < 0x10_0000 {
        one_place_text(bytes, 1024).concat(" KB")
    } else if bytes < 0x4000_0000 {
        one_place_text(bytes, 0x10_0000).concat(" MB")
    } else {
        one_place_text(bytes, 0x4000_0000).concat(" GB")
    }
}

} // verus!
