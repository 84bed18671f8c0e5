//! Rounding a number to the nearest multiple of another.

use vstd::prelude::*;

verus! {

/// The multiple of `m` that lies nearest to `n`: `n / m` rounded to the
/// nearest whole number, a half rounded up, times `m`. The only multiple of
/// zero is zero.
pub open spec fn nearest_multiple(n: nat, m: nat) -> nat {
    if m == 0 {
        0
    } else {
        ((n + m / 2) / m) * m
    }
}

/// `nearest_multiple(n, m)` is a multiple of `m`, and no multiple of `m` lies
/// nearer to `n`: it is at most half of `m` away, and of two multiples that
/// are equally near it is the larger one.
pub proof fn lemma_nearest_multiple(n: nat, m: nat)
    requires
        m > 0,
    ensures
        nearest_multiple(n, m) % m == 0,
        2 * nearest_multiple(n, m) <= 2 * n + m,
        2 * n < 2 * nearest_multiple(n, m) + m,
{
    let a = n + m / 2;
    let q = a / m;
    assert(q * m <= a < q * m + m && q >= 0) by (nonlinear_arith)
        requires
            q == a / m,
            m > 0,
            a >= 0,
    ;
    assert((q * m) % m == 0) by (nonlinear_arith)
        requires
            m > 0,
            q >= 0,
    ;
}

/// A number that is a multiple of `m` already is its own nearest multiple.
pub proof fn lemma_multiple_is_nearest(n: nat, m: nat)
    requires
        m > 0,
        n % m == 0,
    ensures
        nearest_multiple(n, m) == n,
{
    lemma_nearest_multiple(n, m);
    let r = nearest_multiple(n, m);
    let a = n / m;
    let b = r / m;
    assert(n == a * m && r == b * m) by (nonlinear_arith)
        requires
            m > 0,
            n % m == 0,
            r % m == 0,
            a == n / m,
            b == r / m,
    ;
    assert(a == b) by (nonlinear_arith)
        requires
            m > 0,
            2 * (b * m) <= 2 * (a * m) + m,
            2 * (a * m) < 2 * (b * m) + m,
    ;
}

/// `nearest_multiple`, held to the range of `u32`.
pub open spec fn closest_multiple_spec(n: u32, m: u32) -> u32 {
    let exact = nearest_multiple(n as nat, m as nat);
    if exact > u32::MAX {
        u32::MAX
    } else {
        exact as u32
    }
}

/// Rounds `n` to the nearest multiple of `m`, a tie to the larger one. The
/// result saturates at `u32::MAX`, and is zero for `m == 0`.
pub fn closest_multiple(n: u32, m: u32) -> (r: u32)
    ensures
        r == closest_multiple_spec(n, m),
{
    if m == 0 {
        return 0;
    }
    let n64: u64 = n as u64;
    let m64: u64 = m as u64;
    let q: u64 = (n64 + m64 / 2) / m64;
    assert(q * m64 <= n64 + m64 / 2) by (nonlinear_arith)
        requires
            q == (n64 + m64 / 2) / (m64 as int),
            m64 > 0,
    ;
    let exact: u64 = q * m64;
    if exact > 0xffff_ffff {
        0xffff_ffff
    } else {
        exact as u32
    }
}

} // verus!
