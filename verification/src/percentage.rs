//! The blocked share in percent, as formatting `(blocked / total) * 100`
//! computed in binary64 shows it with two decimals, worked out exactly with
//! integers.
//!
//! A binary64 value keeps 53 significant bits. Each conversion and each
//! operation rounds its exact result to the nearest such value, ties to an
//! even significand, and formatting with two decimals rounds the exact
//! binary value to the nearest hundredth, ties to an even last digit.

use vstd::prelude::*;
use vstd::arithmetic::power2::{
    lemma2_to64, lemma_pow2_strictly_increases, lemma_pow2_subtracts, lemma_pow2_unfold, pow2,
};

verus! {

/// `x / d` rounded to the nearest integer, ties to the even one.
pub open spec fn div_round_even(x: nat, d: nat) -> nat {
    let q = x / d;
    let r = x % d;
    if r > d - r || (r == d - r && q % 2 == 1) {
        q + 1
    } else {
        q
    }
}

/// How many times `n` must be halved, rounding down, to fall below 2^53:
/// the number of low bits of `n` a binary64 cannot keep.
pub open spec fn excess_bits(n: nat) -> nat
    decreases n,
{
    if n < 0x20_0000_0000_0000 {
        0
    } else {
        1 + excess_bits(n / 2)
    }
}

/// The binary64 value nearest to `n`, ties to an even significand: `n`
/// rounded to a multiple of `2^excess_bits(n)`.
pub open spec fn nearest_double(n: nat) -> nat {
    let k = excess_bits(n);
    div_round_even(n, pow2(k)) * pow2(k)
}

/// How many doublings bring the positive `n` up to at least `lim`.
pub open spec fn doublings(n: nat, lim: nat) -> nat
    decreases (if n < lim {
        (lim - n) as nat
    } else {
        0nat
    }),
    when n > 0
{
    if n >= lim {
        0
    } else {
        1 + doublings(2 * n, lim)
    }
}

/// The hundredths shown by formatting `(blocked / total) * 100` with two
/// decimals, where `blocked` and `total` are first converted to binary64:
/// zero when there is no request or none was blocked.
///
/// `b / t` is `q / 2^s` with `q` the rounded quotient, kept between 2^52 and
/// 2^53 by the choice of `s`; times 100 it is `p * 2^j / 2^s`, with `p`
/// kept between 2^52 and 2^53 by the choice of `j`.
pub open spec fn percent_hundredths(blocked: nat, total: nat) -> nat {
    if total == 0 || blocked == 0 {
        0
    } else {
        let b = nearest_double(blocked);
        let t = nearest_double(total);
        let s = doublings(b, t * 0x10_0000_0000_0000);
        let q = div_round_even(b * pow2(s), t);
        let x = q * 100;
        let j: nat = if x < 0x800_0000_0000_0000 {
            6
        } else {
            7
        };
        let p = div_round_even(x, pow2(j));
        div_round_even(p * 100, pow2((s - j) as nat))
    }
}

/// A rounded quotient stays within the bounds of the exact one.
proof fn lemma_div_round_even_bounds(x: nat, d: nat, lo: nat, hi: nat)
    requires
        d > 0,
        lo * d <= x <= hi * d,
    ensures
        lo <= div_round_even(x, d) <= hi,
{
    let q = x / d;
    let r = x % d;
    assert(x == q * d + r && r < d) by (nonlinear_arith)
        requires
            d > 0,
            q == x / d,
            r == x % d,
    ;
    assert(lo <= q) by (nonlinear_arith)
        requires
            lo * d <= x,
            x == q * d + r,
            r < d,
            d > 0,
    ;
    assert(q <= hi) by (nonlinear_arith)
        requires
            x <= hi * d,
            x == q * d + r,
            d > 0,
    ;
    if q == hi {
        assert(r == 0) by (nonlinear_arith)
            requires
                x <= hi * d,
                x == q * d + r,
                q == hi,
        ;
    }
}

/// `x / d` rounded to the nearest integer, ties to the even one.
fn div_round_even_u128(x: u128, d: u128) -> (r: u128)
    requires
        d > 0,
        x / d < u128::MAX,
    ensures
        r == div_round_even(x as nat, d as nat),
{
    let q = x / d;
    let r = x % d;
    if r > d - r || (r == d - r && q % 2 == 1) {
        q + 1
    } else {
        q
    }
}

/// The binary64 value nearest to `n`.
fn nearest_double_u64(n: u64) -> (r: u128)
    ensures
        r == nearest_double(n as nat),
        r < 0x2_0000_0000_0000_0000,
        n < 0x20_0000_0000_0000 ==> r == n,
        n >= 0x20_0000_0000_0000 ==> r >= 0x20_0000_0000_0000,
        n > 0 ==> r > 0,
{
    let mut x: u64 = n;
    let mut p: u128 = 1;
    let ghost mut k: nat = 0;
    proof {
        lemma2_to64();
    }
    while x >= 0x20_0000_0000_0000
        invariant
            p == pow2(k),
            k + excess_bits(x as nat) == excess_bits(n as nat),
            x * p <= n,
            n < (x + 1) * p,
            1 <= p < 0x1000,
            k > 0 ==> x >= 0x10_0000_0000_0000 && p >= 2,
            k == 0 ==> x == n && p == 1,
        decreases x,
    {
        proof {
            lemma_pow2_unfold(k + 1);
            assert(x * p < 0x1_0000_0000_0000_0000);
            assert(p < 0x800) by (nonlinear_arith)
                requires
                    x >= 0x20_0000_0000_0000,
                    x * p < 0x1_0000_0000_0000_0000,
            ;
            assert((x / 2) * (p * 2) <= x * p && x * p < ((x / 2) + 1) * (p * 2) + p) by (
            nonlinear_arith)
                requires
                    p >= 1,
            ;
            assert(n < ((x / 2) + 1) * (p * 2)) by (nonlinear_arith)
                requires
                    n < (x + 1) * p,
                    p >= 1,
            ;
        }
        x = x / 2;
        p = p * 2;
        proof {
            k = k + 1;
        }
    }
    let q = n as u128 / p;
    assert(q == x) by (nonlinear_arith)
        requires
            x * p <= n,
            n < (x + 1) * p,
            p >= 1,
            q == (n as u128) / p,
    ;
    proof {
        lemma_div_round_even_bounds(n as nat, p as nat, x as nat, (x + 1) as nat);
    }
    let m = div_round_even_u128(n as u128, p);
    proof {
        assert(excess_bits(x as nat) == 0);
        assert(m * p < 0x2_0000_0000_0000_0000) by (nonlinear_arith)
            requires
                m <= x + 1,
                x < 0x20_0000_0000_0000,
                p < 0x1000,
        ;
        if k > 0 {
            assert(x * p >= 0x20_0000_0000_0000) by (nonlinear_arith)
                requires
                    x >= 0x10_0000_0000_0000,
                    p >= 2,
            ;
            assert(m * p >= x * p) by (nonlinear_arith)
                requires
                    m >= x,
            ;
        }
        if n > 0 {
            assert(x >= 1);
            assert(m * p >= 1) by (nonlinear_arith)
                requires
                    m >= x,
                    x >= 1,
                    p >= 1,
            ;
        }
    }
    m * p
}

/// The hundredths shown for the blocked share: `percent_hundredths`.
pub fn percent_hundredths_of(blocked: u64, total: u64) -> (h: u64)
    requires
        blocked <= total,
    ensures
        h == percent_hundredths(blocked as nat, total as nat),
{
    if total == 0 || blocked == 0 {
        return 0;
    }
    let b = nearest_double_u64(blocked);
    let t = nearest_double_u64(total);
    let lim: u128 = t * 0x10_0000_0000_0000;
    proof {
        lemma2_to64();
        if total < 0x20_0000_0000_0000 {
            assert(b <= t);
        } else {
            assert(t * 0x10_0000_0000_0000 >= 0x20_0000_0000_0000 * 0x10_0000_0000_0000) by (
            nonlinear_arith)
                requires
                    t >= 0x20_0000_0000_0000,
            ;
        }
        assert(b <= 2 * lim);
    }
    let mut n: u128 = b;
    let mut ps: u128 = 1;
    let ghost mut s: nat = 0;
    while n < lim
        invariant
            lim == t * 0x10_0000_0000_0000,
            1 <= t < 0x2_0000_0000_0000_0000,
            1 <= b < 0x2_0000_0000_0000_0000,
            n == b * ps,
            ps == pow2(s),
            1 <= ps <= n,
            s + doublings(n as nat, lim as nat) == doublings(b as nat, lim as nat),
            n <= 2 * lim,
        decreases (if n < lim {
            lim - n
        } else {
            0
        }),
    {
        proof {
            lemma_pow2_unfold(s + 1);
            assert(b * (ps * 2) == n * 2) by (nonlinear_arith)
                requires
                    n == b * ps,
            ;
        }
        n = n * 2;
        ps = ps * 2;
        proof {
            s = s + 1;
        }
    }
    proof {
        lemma_div_round_even_bounds(n as nat, t as nat, 0x10_0000_0000_0000, 0x20_0000_0000_0000);
        assert(n / t <= 0x20_0000_0000_0000) by (nonlinear_arith)
            requires
                n <= t * 0x20_0000_0000_0000,
                t >= 1,
        ;
    }
    let q = div_round_even_u128(n, t);
    let x: u128 = q * 100;
    let j: u128 = if x < 0x800_0000_0000_0000 {
        6
    } else {
        7
    };
    let pj: u128 = if x < 0x800_0000_0000_0000 {
        64
    } else {
        128
    };
    proof {
        assert(pj == pow2(j as nat));
        lemma_div_round_even_bounds(x as nat, pj as nat, 0x10_0000_0000_0000, 0x20_0000_0000_0000);
    }
    let p = div_round_even_u128(x, pj);
    proof {
        // The doublings were at least `j`: fewer would leave `b * ps` below `lim`.
        if s < 7 {
            lemma_pow2_strictly_increases(s, 7);
            assert(b * 128 > t * 0x10_0000_0000_0000) by (nonlinear_arith)
                requires
                    b * ps >= t * 0x10_0000_0000_0000,
                    ps < 128,
                    b >= 1,
            ;
            if total < 0x20_0000_0000_0000 {
                assert(b <= t);
                assert(false) by (nonlinear_arith)
                    requires
                        b <= t,
                        t >= 1,
                        b * 128 > t * 0x10_0000_0000_0000,
                ;
            } else {
                assert(false) by (nonlinear_arith)
                    requires
                        t >= 0x20_0000_0000_0000,
                        b < 0x2_0000_0000_0000_0000,
                        b * 128 > t * 0x10_0000_0000_0000,
                ;
            }
        }
        lemma_pow2_subtracts(j as nat, s);
    }
    let d = ps / pj;
    let y: u128 = p * 100;
    assert(y / d <= y) by (nonlinear_arith)
        requires
            d >= 1,
    ;
    let h = div_round_even_u128(y, d);
    proof {
        assert(y <= y * d) by (nonlinear_arith)
            requires
                d >= 1,
        ;
        lemma_div_round_even_bounds(y as nat, d as nat, 0, y as nat);
    }
    h as u64
}

} // verus!
