//! Exact integer arithmetic shared by the codecs: powers of two and ten,
//! and rounding half away from zero of a rational with positive denominator.

use vstd::prelude::*;
use vstd::arithmetic::div_mod::lemma_fundamental_div_mod_converse;
use vstd::arithmetic::div_mod::lemma_fundamental_div_mod;
use vstd::arithmetic::div_mod::lemma_div_nonincreasing;
use vstd::math::abs;

verus! {

/// 2^e for e >= 0; 1 for negative e (callers keep e in range).
pub open spec fn p2(e: int) -> int
    decreases e,
{
    if e <= 0 {
        1
    } else {
        2 * p2(e - 1)
    }
}

/// 10^e for e >= 0; 1 for negative e (callers keep e in range).
pub open spec fn p10(e: int) -> int
    decreases e,
{
    if e <= 0 {
        1
    } else {
        10 * p10(e - 1)
    }
}

/// num/den rounded half away from zero, for den > 0: the nearest integer,
/// with ties going away from zero.
pub open spec fn rhaz(num: int, den: int) -> int {
    if num >= 0 {
        (2 * num + den) / (2 * den)
    } else {
        -((2 * (-num) + den) / (2 * den))
    }
}

/// sig * 2^k rounded half away from zero: exact multiplication when k >= 0,
/// a rounded division by 2^(-k) otherwise.
pub open spec fn dyadic_rhaz(sig: int, k: int) -> int {
    if k >= 0 {
        sig * p2(k)
    } else {
        rhaz(sig, p2(-k))
    }
}

pub proof fn lemma_p2_pos(e: int)
    ensures
        p2(e) >= 1,
    decreases e,
{
    if e > 0 {
        lemma_p2_pos(e - 1);
    }
}

pub proof fn lemma_p2_adds(a: int, b: int)
    requires
        a >= 0,
        b >= 0,
    ensures
        p2(a + b) == p2(a) * p2(b),
    decreases a,
{
    if a == 0 {
    } else {
        lemma_p2_adds(a - 1, b);
        assert(p2(a + b) == 2 * p2(a - 1 + b));
        assert(2 * (p2(a - 1) * p2(b)) == (2 * p2(a - 1)) * p2(b)) by (nonlinear_arith);
    }
}

pub proof fn lemma_p2_mono(a: int, b: int)
    requires
        a <= b,
    ensures
        p2(a) <= p2(b),
    decreases b - a,
{
    if a < b {
        lemma_p2_mono(a, b - 1);
        lemma_p2_pos(b - 1);
    }
}

pub proof fn lemma_p10_pos(e: int)
    ensures
        p10(e) >= 1,
    decreases e,
{
    if e > 0 {
        lemma_p10_pos(e - 1);
    }
}

pub proof fn lemma_p10_mono(a: int, b: int)
    requires
        a <= b,
    ensures
        p10(a) <= p10(b),
    decreases b - a,
{
    if a < b {
        lemma_p10_mono(a, b - 1);
        lemma_p10_pos(b - 1);
    }
}

/// rhaz(num, den) differs from the exact quotient by at most half a step:
/// |2 * (num - rhaz * den)| <= den, with one side strict depending on sign.
pub proof fn lemma_rhaz_bound(num: int, den: int)
    requires
        den > 0,
    ensures
        num >= 0 ==> -den <= 2 * (num - rhaz(num, den) * den) < den,
        num < 0 ==> -den < 2 * (num - rhaz(num, den) * den) <= den,
        num >= 0 ==> rhaz(num, den) >= 0,
        num < 0 ==> rhaz(num, den) <= 0,
{
    if num >= 0 {
        let q = (2 * num + den) / (2 * den);
        lemma_fundamental_div_mod(2 * num + den, 2 * den);
        let m = (2 * num + den) % (2 * den);
        assert(2 * num + den == (2 * den) * q + m);
        assert(0 <= m < 2 * den);
        assert(2 * (num - q * den) == m - den) by (nonlinear_arith)
            requires
                2 * num + den == (2 * den) * q + m,
        ;
        assert(q >= 0) by (nonlinear_arith)
            requires
                2 * num + den == (2 * den) * q + m,
                num >= 0,
                den > 0,
                0 <= m < 2 * den,
        ;
    } else {
        let q = (2 * (-num) + den) / (2 * den);
        lemma_fundamental_div_mod(2 * (-num) + den, 2 * den);
        let m = (2 * (-num) + den) % (2 * den);
        assert(2 * (-num) + den == (2 * den) * q + m);
        assert(0 <= m < 2 * den);
        assert(2 * (num - (-q) * den) == den - m) by (nonlinear_arith)
            requires
                2 * (-num) + den == (2 * den) * q + m,
        ;
        assert(q >= 0) by (nonlinear_arith)
            requires
                2 * (-num) + den == (2 * den) * q + m,
                num < 0,
                den > 0,
                0 <= m < 2 * den,
        ;
    }
}

/// The half-step window around y pins rhaz(num, den) to y.
pub proof fn lemma_rhaz_unique(num: int, den: int, y: int)
    requires
        den > 0,
        num >= 0 ==> y >= 0 && -den <= 2 * (num - y * den) < den,
        num < 0 ==> y <= 0 && -den < 2 * (num - y * den) <= den,
    ensures
        rhaz(num, den) == y,
{
    if num >= 0 {
        let r = 2 * num + den - (2 * den) * y;
        assert(0 <= r < 2 * den) by (nonlinear_arith)
            requires
                den > 0,
                -den <= 2 * (num - y * den) < den,
                r == 2 * num + den - (2 * den) * y,
        ;
        lemma_fundamental_div_mod_converse(2 * num + den, 2 * den, y, r);
    } else {
        let r = 2 * (-num) + den - (2 * den) * (-y);
        assert(0 <= r < 2 * den) by (nonlinear_arith)
            requires
                den > 0,
                -den < 2 * (num - y * den) <= den,
                r == 2 * (-num) + den - (2 * den) * (-y),
        ;
        lemma_fundamental_div_mod_converse(2 * (-num) + den, 2 * den, -y, r);
    }
}

/// A common positive factor of numerator and denominator cancels.
pub proof fn lemma_rhaz_cancel(k: int, num: int, den: int)
    requires
        k > 0,
        den > 0,
    ensures
        rhaz(k * num, k * den) == rhaz(num, den),
{
    let y = rhaz(num, den);
    lemma_rhaz_bound(num, den);
    assert(k * den > 0) by (nonlinear_arith)
        requires
            k > 0,
            den > 0,
    ;
    assert(2 * (k * num - y * (k * den)) == k * (2 * (num - y * den))) by (nonlinear_arith);
    if num >= 0 {
        assert(k * num >= 0) by (nonlinear_arith)
            requires
                k > 0,
                num >= 0,
        ;
        assert(-(k * den) <= k * (2 * (num - y * den)) < k * den) by (nonlinear_arith)
            requires
                k > 0,
                den > 0,
                -den <= 2 * (num - y * den) < den,
        ;
        lemma_rhaz_unique(k * num, k * den, y);
    } else {
        assert(k * num < 0) by (nonlinear_arith)
            requires
                k > 0,
                num < 0,
        ;
        assert(-(k * den) < k * (2 * (num - y * den)) <= k * den) by (nonlinear_arith)
            requires
                k > 0,
                den > 0,
                -den < 2 * (num - y * den) <= den,
        ;
        lemma_rhaz_unique(k * num, k * den, y);
    }
}

/// Concrete powers of two that the executable helpers stay under.
pub proof fn lemma_p2_62()
    ensures
        p2(62) == 0x4000_0000_0000_0000,
{
    assert(p2(62) == 0x4000_0000_0000_0000) by {
        reveal_with_fuel(p2, 64);
    }
}

pub proof fn lemma_p2_126()
    ensures
        p2(126) == 0x4000_0000_0000_0000_0000_0000_0000_0000,
{
    lemma_p2_62();
    lemma_p2_adds(62, 62);
    lemma_p2_adds(124, 2);
    assert(p2(2) == 4) by {
        reveal_with_fuel(p2, 4);
    }
}

/// The largest power of ten that the executable helpers use.
pub proof fn lemma_p10_18()
    ensures
        p10(18) == 1_000_000_000_000_000_000,
{
    assert(p10(18) == 1_000_000_000_000_000_000) by {
        reveal_with_fuel(p10, 20);
    }
}

/// A quotient below one half in magnitude rounds to zero.
pub proof fn lemma_rhaz_zero(num: int, den: int)
    requires
        den > 0,
        2 * num < den,
        -den < 2 * num,
    ensures
        rhaz(num, den) == 0,
{
    lemma_rhaz_unique(num, den, 0);
}

/// 2^e computed by repeated doubling.
pub fn pow2_i64(e: u32) -> (r: i64)
    requires
        e <= 62,
    ensures
        r == p2(e as int),
        r >= 1,
{
    let mut r: i64 = 1;
    let mut i: u32 = 0;
    proof {
        lemma_p2_62();
    }
    while i < e
        invariant
            i <= e,
            e <= 62,
            r == p2(i as int),
            1 <= r,
            r <= p2(62),
        decreases e - i,
    {
        proof {
            lemma_p2_mono(i as int + 1, 62);
            lemma_p2_62();
        }
        r = r * 2;
        i = i + 1;
    }
    proof {
        lemma_p2_mono(e as int, 62);
        lemma_p2_62();
    }
    r
}

/// 2^e computed by repeated doubling, in a wider word.
pub fn pow2_i128(e: u32) -> (r: i128)
    requires
        e <= 126,
    ensures
        r == p2(e as int),
        r >= 1,
{
    let mut r: i128 = 1;
    let mut i: u32 = 0;
    proof {
        lemma_p2_126();
    }
    while i < e
        invariant
            i <= e,
            e <= 126,
            r == p2(i as int),
            1 <= r,
            r <= p2(126),
        decreases e - i,
    {
        proof {
            lemma_p2_mono(i as int + 1, 126);
            lemma_p2_126();
        }
        r = r * 2;
        i = i + 1;
    }
    proof {
        lemma_p2_mono(e as int, 126);
        lemma_p2_126();
    }
    r
}

/// 10^e computed by repeated multiplication.
pub fn pow10_i64(e: u32) -> (r: i64)
    requires
        e <= 18,
    ensures
        r == p10(e as int),
        r >= 1,
{
    let mut r: i64 = 1;
    let mut i: u32 = 0;
    proof {
        lemma_p10_18();
    }
    while i < e
        invariant
            i <= e,
            e <= 18,
            r == p10(i as int),
            1 <= r,
            r <= p10(18),
        decreases e - i,
    {
        proof {
            lemma_p10_mono(i as int + 1, 18);
            lemma_p10_18();
        }
        r = r * 10;
        i = i + 1;
    }
    proof {
        lemma_p10_mono(e as int, 18);
        lemma_p10_18();
    }
    r
}

/// A quotient at or beyond k - 1/2 rounds to at least k.
pub proof fn lemma_rhaz_ge(num: int, den: int, k: int)
    requires
        den > 0,
        k >= 1,
        2 * num >= (2 * k - 1) * den,
    ensures
        rhaz(num, den) >= k,
{
    let y = rhaz(num, den);
    assert(num > 0) by (nonlinear_arith)
        requires
            den > 0,
            k >= 1,
            2 * num >= (2 * k - 1) * den,
    ;
    lemma_rhaz_bound(num, den);
    assert(y >= k) by (nonlinear_arith)
        requires
            den > 0,
            2 * num >= (2 * k - 1) * den,
            2 * (num - y * den) < den,
    ;
}

/// A quotient at or beyond -(k - 1/2) rounds to at most -k.
pub proof fn lemma_rhaz_le(num: int, den: int, k: int)
    requires
        den > 0,
        k >= 1,
        2 * num <= -((2 * k - 1) * den),
    ensures
        rhaz(num, den) <= -k,
{
    let y = rhaz(num, den);
    assert(num < 0) by (nonlinear_arith)
        requires
            den > 0,
            k >= 1,
            2 * num <= -((2 * k - 1) * den),
    ;
    lemma_rhaz_bound(num, den);
    assert(y <= -k) by (nonlinear_arith)
        requires
            den > 0,
            2 * num <= -((2 * k - 1) * den),
            -den < 2 * (num - y * den),
    ;
}

/// Adding a perturbation smaller than half the coarsest step of an/ad moves
/// the rounding by at most one, and only when an/ad sits exactly on a tie:
/// rounding (an/ad + en/ed) reduces to rounding an/ad and a tie test.
pub proof fn lemma_rhaz_perturb(an: int, ad: int, en: int, ed: int)
    requires
        ad > 0,
        ed > 0,
        en != 0,
        2 * abs(en) * ad < ed,
    ensures
        rhaz(an * ed + en * ad, ad * ed) == (if en > 0 {
            if 2 * an == (2 * rhaz(an, ad) + 1) * ad {
                rhaz(an, ad) + 1
            } else {
                rhaz(an, ad)
            }
        } else {
            if 2 * an == (2 * rhaz(an, ad) - 1) * ad {
                rhaz(an, ad) - 1
            } else {
                rhaz(an, ad)
            }
        }),
{
    let y0 = rhaz(an, ad);
    lemma_rhaz_bound(an, ad);
    let w = 2 * (an - y0 * ad);
    let xn = an * ed + en * ad;
    let xd = ad * ed;
    assert(xd > 0) by (nonlinear_arith)
        requires
            ad > 0,
            ed > 0,
            xd == ad * ed,
    ;
    assert(2 * (xn - y0 * xd) == w * ed + 2 * en * ad) by (nonlinear_arith)
        requires
            w == 2 * (an - y0 * ad),
            xn == an * ed + en * ad,
            xd == ad * ed,
    ;
    if en > 0 {
        assert(0 < 2 * en * ad < ed) by (nonlinear_arith)
            requires
                en >= 1,
                ad > 0,
                2 * abs(en) * ad < ed,
        ;
        if 2 * an == (2 * y0 + 1) * ad {
            // an/ad sits exactly on the upper tie, which the plain rounding
            // of an/ad can reach only from the negative side.
            assert(w == ad) by (nonlinear_arith)
                requires
                    w == 2 * (an - y0 * ad),
                    2 * an == (2 * y0 + 1) * ad,
            ;
            assert(an < 0);
            assert(2 * y0 + 1 <= -1) by (nonlinear_arith)
                requires
                    2 * an == (2 * y0 + 1) * ad,
                    an < 0,
                    ad > 0,
            ;
            assert(2 * an <= -ad) by (nonlinear_arith)
                requires
                    2 * an == (2 * y0 + 1) * ad,
                    2 * y0 + 1 <= -1,
                    ad > 0,
            ;
            assert(xn < 0) by (nonlinear_arith)
                requires
                    2 * an <= -ad,
                    ad > 0,
                    ed > 0,
                    2 * en * ad < ed,
                    xn == an * ed + en * ad,
            ;
            let v = 2 * (xn - (y0 + 1) * xd);
            assert(v == w * ed + 2 * en * ad - 2 * xd) by (nonlinear_arith)
                requires
                    2 * (xn - y0 * xd) == w * ed + 2 * en * ad,
                    v == 2 * (xn - (y0 + 1) * xd),
            ;
            assert(-xd < v && v < xd) by (nonlinear_arith)
                requires
                    v == w * ed + 2 * en * ad - 2 * xd,
                    w == ad,
                    xd == ad * ed,
                    0 < 2 * en * ad < ed,
                    ad > 0,
                    ed > 0,
            ;
            lemma_rhaz_unique(xn, xd, y0 + 1);
        } else {
            assert((2 * y0 + 1) * ad == 2 * (y0 * ad) + ad) by (nonlinear_arith);
            assert(w < ad);
            let v = w * ed + 2 * en * ad;
            assert(-xd < v && v < xd) by (nonlinear_arith)
                requires
                    v == w * ed + 2 * en * ad,
                    -ad <= w <= ad - 1,
                    xd == ad * ed,
                    0 < 2 * en * ad < ed,
                    ad > 0,
                    ed > 0,
            ;
            if an >= 0 {
                assert(xn > 0) by (nonlinear_arith)
                    requires
                        an >= 0,
                        en >= 1,
                        ad > 0,
                        ed > 0,
                        xn == an * ed + en * ad,
                ;
            } else {
                assert(xn < 0) by (nonlinear_arith)
                    requires
                        an <= -1,
                        ad > 0,
                        ed > 0,
                        2 * en * ad < ed,
                        en > 0,
                        xn == an * ed + en * ad,
                ;
            }
            lemma_rhaz_unique(xn, xd, y0);
        }
    } else {
        assert(-ed < 2 * en * ad && 2 * en * ad < 0) by (nonlinear_arith)
            requires
                en <= -1,
                ad > 0,
                2 * abs(en) * ad < ed,
        ;
        if 2 * an == (2 * y0 - 1) * ad {
            // Exactly on the lower tie, reachable only from the positive side.
            assert(w == -ad) by (nonlinear_arith)
                requires
                    w == 2 * (an - y0 * ad),
                    2 * an == (2 * y0 - 1) * ad,
            ;
            assert(an >= 0);
            assert(2 * y0 - 1 >= 1) by (nonlinear_arith)
                requires
                    2 * an == (2 * y0 - 1) * ad,
                    an >= 0,
                    ad > 0,
            ;
            assert(2 * an >= ad) by (nonlinear_arith)
                requires
                    2 * an == (2 * y0 - 1) * ad,
                    2 * y0 - 1 >= 1,
                    ad > 0,
            ;
            assert(xn > 0) by (nonlinear_arith)
                requires
                    2 * an >= ad,
                    ad > 0,
                    ed > 0,
                    -ed < 2 * en * ad,
                    xn == an * ed + en * ad,
            ;
            let v = 2 * (xn - (y0 - 1) * xd);
            assert(v == w * ed + 2 * en * ad + 2 * xd) by (nonlinear_arith)
                requires
                    2 * (xn - y0 * xd) == w * ed + 2 * en * ad,
                    v == 2 * (xn - (y0 - 1) * xd),
            ;
            assert(-xd < v && v < xd) by (nonlinear_arith)
                requires
                    v == w * ed + 2 * en * ad + 2 * xd,
                    w == -ad,
                    xd == ad * ed,
                    -ed < 2 * en * ad < 0,
                    ad > 0,
                    ed > 0,
            ;
            lemma_rhaz_unique(xn, xd, y0 - 1);
        } else {
            assert((2 * y0 - 1) * ad == 2 * (y0 * ad) - ad) by (nonlinear_arith);
            assert(w > -ad);
            let v = w * ed + 2 * en * ad;
            assert(-xd < v && v < xd) by (nonlinear_arith)
                requires
                    v == w * ed + 2 * en * ad,
                    -ad + 1 <= w <= ad,
                    xd == ad * ed,
                    -ed < 2 * en * ad < 0,
                    ad > 0,
                    ed > 0,
            ;
            if an <= 0 {
                assert(xn < 0) by (nonlinear_arith)
                    requires
                        an <= 0,
                        en <= -1,
                        ad > 0,
                        ed > 0,
                        xn == an * ed + en * ad,
                ;
            } else {
                assert(xn > 0) by (nonlinear_arith)
                    requires
                        an >= 1,
                        ad > 0,
                        ed > 0,
                        -ed < 2 * en * ad,
                        en < 0,
                        xn == an * ed + en * ad,
                ;
            }
            lemma_rhaz_unique(xn, xd, y0);
        }
    }
}

/// The rounded quotient is no larger in magnitude than the numerator plus
/// one, for any positive denominator.
pub proof fn lemma_rhaz_abs(num: int, den: int)
    requires
        den > 0,
    ensures
        -abs(num) - 1 <= rhaz(num, den) <= abs(num) + 1,
{
    let y = rhaz(num, den);
    lemma_rhaz_bound(num, den);
    if num >= 0 {
        assert(y <= num + 1) by (nonlinear_arith)
            requires
                den > 0,
                num >= 0,
                y >= 0,
                -den <= 2 * (num - y * den),
        ;
    } else {
        assert(y >= num - 1) by (nonlinear_arith)
            requires
                den > 0,
                num < 0,
                y <= 0,
                2 * (num - y * den) <= den,
        ;
    }
}

/// Absolute value into the unsigned word of the same width.
pub fn abs_i128(a: i128) -> (r: u128)
    requires
        a >= -0x7FFF_FFFF_FFFF_FFFF_FFFF_FFFF_FFFF_FFFF,
    ensures
        r == vstd::math::abs(a as int),
{
    if a >= 0 {
        a as u128
    } else {
        (-a) as u128
    }
}

/// Rounding half away from zero, executed over the nonnegative halves.
pub fn rhaz_i128(num: i128, den: i128) -> (r: i128)
    requires
        0 < den <= 0x2000_0000_0000_0000_0000_0000_0000_0000,
        -0x2000_0000_0000_0000_0000_0000_0000_0000 <= num
            <= 0x2000_0000_0000_0000_0000_0000_0000_0000,
    ensures
        r == rhaz(num as int, den as int),
{
    let d: u128 = den as u128;
    if num >= 0 {
        let n: u128 = num as u128;
        proof {
            lemma_div_nonincreasing(2 * n + d, 2 * d);
        }
        let q: u128 = (2 * n + d) / (2 * d);
        q as i128
    } else {
        let n: u128 = (-num) as u128;
        proof {
            lemma_div_nonincreasing(2 * n + d, 2 * d);
        }
        let q: u128 = (2 * n + d) / (2 * d);
        -(q as i128)
    }
}

} // verus!
