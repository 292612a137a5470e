//! Shares of a whole, rounded as double precision arithmetic rounds them.

use vstd::prelude::*;
use crate::agent_panel::labels::rounded;
use crate::draw::min;

verus! {

/// 2 to the 65: every number of 64 bits is nearest to a double below that.
pub const LARGEST: u128 = 0x2_0000_0000_0000_0000;

/// 2 to the 84, up to which integers are rounded to doubles here.
pub const ROUNDABLE: u128 = 0x10_0000_0000_0000_0000_0000;

/// 2 to the 52, the smallest significand of a double.
pub const UNIT: u128 = 0x10_0000_0000_0000;

/// `n` and `p` doubled until `n / w` has the 53 bits of a significand.
pub open spec fn scaled_up(n: int, p: int, w: int) -> (int, int)
    decreases
            (if n >= w * UNIT {
                0
            } else {
                w * UNIT - n
            }),
{
    if n <= 0 || n >= w * UNIT {
        (n, p)
    } else {
        scaled_up(2 * n, 2 * p, w)
    }
}

/// The smallest power of two, `c` or larger, by which `n` has 53 bits or fewer.
pub open spec fn scale_of(n: int, c: int) -> int
    decreases
            (if n < c * 2 * UNIT {
                0
            } else {
                n - c * 2 * UNIT + 1
            }),
{
    if c <= 0 || n < c * 2 * UNIT {
        c
    } else {
        scale_of(n, 2 * c)
    }
}

/// The double nearest to the integer `n`.
pub open spec fn as_double(n: int) -> int {
    rounded(n, scale_of(n, 1)) * scale_of(n, 1)
}

/// `t / w * k` for doubles `t` and `w`, both operations rounded to the nearest double,
/// and the result to the nearest integer with halves going up.
pub open spec fn share(t: int, w: int, k: int) -> int {
    if t <= 0 {
        0
    } else {
        let s = scaled_up(t, 1, w);
        let c = scale_of(s.0 / w, 1);
        let m = rounded(s.0, w * c) * c;
        (2 * as_double(m * k) + s.1) / (2 * s.1)
    }
}

/// `n / d` to the nearest integer, halves to the even one.
pub fn nearest(n: u128, d: u128) -> (r: u128)
    requires
        0 < d <= 0x2000_0000_0000_0000_0000_0000_0000_0000u128,
        n <= 0x2000_0000_0000_0000_0000_0000_0000_0000u128,
    ensures
        r == rounded(n as int, d as int),
        r <= n / d + 1,
{
    let q: u128 = n / d;
    let rest: u128 = n % d;
    proof {
        assert(q <= n) by (nonlinear_arith)
            requires
                q == n / d,
                d > 0,
        ;
    }
    if 2 * rest > d || (2 * rest == d && q % 2 == 1) {
        q + 1
    } else {
        q
    }
}

/// The smallest power of two by which `n` has 53 bits or fewer.
fn scaleOf(n: u128) -> (c: u128)
    requires
        n <= ROUNDABLE,
    ensures
        c == scale_of(n as int, 1),
        1 <= c <= 0x2_0000_0000,
        c > 1 ==> c <= n,
{
    let mut c: u128 = 1;
    while n >= c * 2 * UNIT
        invariant
            1 <= c <= 0x2_0000_0000,
            n <= ROUNDABLE,
            c > 1 ==> c <= n,
            scale_of(n as int, 1) == scale_of(n as int, c as int),
        decreases 0x4_0000_0000 - c,
    {
        c = c * 2;
    }
    c
}

/// The double nearest to the integer `n`.
pub fn asDouble(n: u128) -> (r: u128)
    requires
        n <= ROUNDABLE,
    ensures
        r == as_double(n as int),
        r <= 2 * n,
        n > 0 ==> r > 0,
{
    let c: u128 = scaleOf(n);
    let q: u128 = nearest(n, c);
    proof {
        let a = n as int / c as int;
        assert(a * c <= n && n < a * c + c && 0 <= a * c) by (nonlinear_arith)
            requires
                a == n as int / c as int,
                c >= 1,
                n >= 0,
        ;
        assert(q * c == a * c || q * c == a * c + c) by (nonlinear_arith)
            requires
                q == a || q == a + 1,
        ;
        if c == 1 {
            assert(n as int % 1 == 0);
            assert(q == a);
            assert(q * c == q) by (nonlinear_arith)
                requires
                    c == 1,
            ;
        } else {
            assert(a >= 1) by (nonlinear_arith)
                requires
                    a == n as int / c as int,
                    c <= n,
                    c >= 1,
            ;
            assert(q * c >= c) by (nonlinear_arith)
                requires
                    q >= 1,
                    c >= 1,
            ;
        }
    }
    q * c
}

/// `t` of `w`, both doubles, as a share of `k`.
#[verifier::rlimit(60)]
pub fn shareOf(t: u128, w: u128, k: u64) -> (r: u64)
    requires
        t <= LARGEST,
        0 < w <= LARGEST,
        k <= 65536,
    ensures
        r == min(share(t as int, w as int, k as int), u64::MAX as int),
{
    if t == 0 {
        return 0;
    }
    let mut n: u128 = t;
    let mut p: u128 = 1;
    proof {
        assert(w * UNIT <= LARGEST * UNIT) by (nonlinear_arith)
            requires
                w <= LARGEST,
        ;
        assert(LARGEST * UNIT == 0x20_0000_0000_0000_0000_0000_0000_0000u128);
    }
    let limit: u128 = w * UNIT;
    while n < limit
        invariant
            0 < n,
            0 < p <= n,
            limit == w * UNIT,
            limit <= 0x20_0000_0000_0000_0000_0000_0000_0000u128,
            n < 2 * limit || n <= LARGEST,
            scaled_up(t as int, 1, w as int) == scaled_up(n as int, p as int, w as int),
        decreases
                (if n < limit {
                    limit - n
                } else {
                    0
                }),
    {
        n = n * 2;
        p = p * 2;
    }
    let whole: u128 = n / w;
    proof {
        assert(scaled_up(n as int, p as int, w as int) == (n as int, p as int));
        assert(whole <= LARGEST) by (nonlinear_arith)
            requires
                n < 2 * limit || n <= LARGEST,
                limit == w * UNIT,
                whole == n / w,
                w > 0,
                2 * UNIT <= LARGEST,
        ;
    }
    let c: u128 = scaleOf(whole);
    proof {
        assert(0 < w * c <= LARGEST * 0x2_0000_0000) by (nonlinear_arith)
            requires
                0 < w <= LARGEST,
                1 <= c <= 0x2_0000_0000,
        ;
        assert(LARGEST * 0x2_0000_0000 == 0x4_0000_0000_0000_0000_0000_0000u128);
    }
    let q: u128 = nearest(n, w * c);
    proof {
        let a = n as int / (w * c);
        assert(a * c <= whole) by (nonlinear_arith)
            requires
                a == n as int / (w * c),
                whole == n / w,
                w > 0,
                c >= 1,
                n >= 0,
        ;
        assert(0 <= q * c <= a * c + c) by (nonlinear_arith)
            requires
                0 <= q <= a + 1,
                c >= 1,
        ;
        let m = q * c;
        assert(0 <= m * k <= 0x3_0000_0000_0000_0000 * 65536) by (nonlinear_arith)
            requires
                0 <= m <= 0x3_0000_0000_0000_0000,
                0 <= k <= 65536,
        ;
        assert(0x3_0000_0000_0000_0000 * 65536 <= ROUNDABLE as int);
    }
    let m: u128 = q * c;
    let d: u128 = asDouble(m * k as u128);
    let v: u128 = (2 * d + p) / (2 * p);
    if v > 0xFFFF_FFFF_FFFF_FFFF {
        0xFFFF_FFFF_FFFF_FFFF
    } else {
        v as u64
    }
}

/// `t` of `w`, as a share of `k`. Nothing has no shares.
pub open spec fn whole_share(t: int, w: int, k: int) -> int {
    if t <= 0 || w <= 0 {
        0
    } else {
        min(share(as_double(t), as_double(w), k), u64::MAX as int)
    }
}

/// `t` of `w`, as a share of `k`.
pub fn wholeShare(t: u64, w: u64, k: u64) -> (r: u64)
    requires
        k <= 65536,
    ensures
        r == whole_share(t as int, w as int, k as int),
{
    if t == 0 || w == 0 {
        return 0;
    }
    shareOf(asDouble(t as u128), asDouble(w as u128), k)
}

} // verus!
