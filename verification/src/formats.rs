//! The numeric value formats: a 16-bit word holding a signed mantissa and a
//! signed exponent, a 16-bit unsigned word whose exponent arrives separately,
//! and the coefficient-driven decimal linear transform.
//!
//! Physical values are handled exactly, as a significand times a power of
//! two; a finite binary float decomposes into exactly that shape, so callers
//! working in floating point lose nothing by converting at the boundary.

use vstd::prelude::*;
use vstd::math::abs;
use crate::arith::p2;
use crate::arith::p10;
use crate::arith::rhaz;
use crate::arith::dyadic_rhaz;
use crate::arith::lemma_p2_pos;
use crate::arith::lemma_p2_adds;
use crate::arith::lemma_p2_mono;
use crate::arith::lemma_p2_62;
use crate::arith::lemma_p10_pos;
use crate::arith::lemma_p10_mono;
use crate::arith::lemma_rhaz_bound;
use crate::arith::lemma_rhaz_cancel;
use crate::arith::lemma_rhaz_zero;
use crate::arith::lemma_rhaz_ge;
use crate::arith::lemma_rhaz_le;
use crate::arith::lemma_rhaz_perturb;
use crate::arith::pow2_i64;
use crate::arith::pow2_i128;
use crate::arith::pow10_i64;
use crate::arith::rhaz_i128;

verus! {

/// A handful of concrete powers of two that the codecs reason with.
pub proof fn lemma_p2_small()
    ensures
        p2(10) == 0x400,
        p2(11) == 0x800,
        p2(12) == 0x1000,
        p2(15) == 0x8000,
        p2(16) == 0x10000,
        p2(17) == 0x20000,
        p2(24) == 0x100_0000,
        p2(25) == 0x200_0000,
        p2(26) == 0x400_0000,
        p2(31) == 0x8000_0000,
        p2(32) == 0x1_0000_0000,
{
    assert(p2(10) == 0x400 && p2(11) == 0x800 && p2(12) == 0x1000 && p2(15) == 0x8000 && p2(16)
        == 0x10000 && p2(17) == 0x20000 && p2(24) == 0x100_0000 && p2(25) == 0x200_0000 && p2(26)
        == 0x400_0000 && p2(31) == 0x8000_0000 && p2(32) == 0x1_0000_0000) by {
        reveal_with_fuel(p2, 34);
    }
}

/// The signed 5-bit exponent field of a raw word, bits 15:11, sign-extended.
pub open spec fn l11_exp(raw: u16) -> int {
    if raw >> 11 >= 16 {
        (raw >> 11) - 32
    } else {
        (raw >> 11) as int
    }
}

/// The signed 11-bit mantissa field of a raw word, bits 10:0, sign-extended.
pub open spec fn l11_man(raw: u16) -> int {
    if (raw & 0x7FF) >= 0x400 {
        (raw & 0x7FF) - 0x800
    } else {
        (raw & 0x7FF) as int
    }
}

/// The decoded value of a raw word, scaled by 2^16 so that the smallest
/// exponent still yields an integer: mantissa * 2^(exponent + 16).
pub open spec fn l11_scaled(raw: u16) -> int {
    l11_man(raw) * p2(l11_exp(raw) + 16)
}

pub proof fn lemma_l11_field_ranges(raw: u16)
    ensures
        -16 <= l11_exp(raw) <= 15,
        -1024 <= l11_man(raw) <= 1023,
{
    assert(raw >> 11 < 32) by (bit_vector);
    assert(raw & 0x7FF < 0x800) by (bit_vector);
}

/// The mantissa/exponent word format: value = Y * 2^N with an 11-bit signed
/// mantissa Y and a 5-bit signed exponent N packed into one 16-bit bus word.
#[derive(Debug, Clone, Copy, PartialEq, Eq, Structural)]
pub struct Linear11 {
    raw: u16,
}

impl Linear11 {
    /// The raw 16-bit bus word, as the contracts speak of it.
    pub closed spec fn spec_raw(self) -> u16 {
        self.raw
    }

    /// Construct from a raw 16-bit bus value.
    pub fn from_raw(raw: u16) -> (r: Self)
        ensures
            r.spec_raw() == raw,
    {
        Linear11 { raw }
    }

    /// Return the raw 16-bit value.
    pub fn raw(self) -> (r: u16)
        ensures
            r == self.spec_raw(),
    {
        self.raw
    }

    /// The sign-extended 11-bit mantissa.
    pub fn mantissa(self) -> (y: i16)
        ensures
            y as int == l11_man(self.spec_raw()),
            -1024 <= y <= 1023,
    {
        proof {
            lemma_l11_field_ranges(self.raw);
        }
        let f: u16 = self.raw & 0x7FF;
        if f >= 0x400 {
            ((f as i32) - 0x800) as i16
        } else {
            f as i16
        }
    }

    /// The sign-extended 5-bit exponent.
    pub fn exponent(self) -> (n: i8)
        ensures
            n as int == l11_exp(self.spec_raw()),
            -16 <= n <= 15,
    {
        proof {
            lemma_l11_field_ranges(self.raw);
        }
        let f: u16 = self.raw >> 11;
        if f >= 16 {
            ((f as i32) - 32) as i8
        } else {
            f as i8
        }
    }

    /// Pack a mantissa and exponent into a raw word.
    pub fn from_parts(mantissa: i16, exponent: i8) -> (r: Self)
        requires
            -1024 <= mantissa <= 1023,
            -16 <= exponent <= 15,
        ensures
            l11_man(r.spec_raw()) == mantissa,
            l11_exp(r.spec_raw()) == exponent,
    {
        let e_field: u16 = if exponent >= 0 {
            exponent as u16
        } else {
            ((exponent as i32) + 32) as u16
        };
        let m_field: u16 = if mantissa >= 0 {
            mantissa as u16
        } else {
            ((mantissa as i32) + 0x800) as u16
        };
        let raw: u16 = (e_field << 11u16) | m_field;
        proof {
            assert((((e_field << 11u16) | m_field) >> 11) == e_field && (((e_field << 11u16)
                | m_field) & 0x7FF) == m_field) by (bit_vector)
                requires
                    e_field < 32,
                    m_field < 0x800,
            ;
        }
        Linear11 { raw }
    }

    /// The decoded value, scaled by 2^16: mantissa times 2^(exponent + 16).
    /// Dividing the result by 2^16 (exactly, in any wider format) gives the
    /// physical value Y * 2^N.
    pub fn to_scaled(self) -> (v: i64)
        ensures
            v == l11_scaled(self.spec_raw()),
            -0x8000_0000_0000 <= v <= 0x8000_0000_0000,
    {
        let y = self.mantissa();
        let n = self.exponent();
        let p = pow2_i64(((n as i32) + 16) as u32);
        proof {
            lemma_p2_mono((n as int) + 16, 31);
            lemma_p2_small();
            assert((y as int) * p2((n as int) + 16) <= 1023 * p2((n as int) + 16) && (y as int)
                * p2((n as int) + 16) >= -1024 * p2((n as int) + 16) && 1023 * p2((n as int) + 16)
                <= 1023 * 0x8000_0000 && -1024 * p2((n as int) + 16) >= -1024 * 0x8000_0000)
                by (nonlinear_arith)
                requires
                    -1024 <= y as int <= 1023,
                    1 <= p2((n as int) + 16) <= 0x8000_0000,
            ;
        }
        (y as i64) * p
    }
}

/// The mantissa that exponent n yields for a value sig * 2^exp: the exact
/// quotient value / 2^n, rounded half away from zero.
pub open spec fn l11_y(sig: int, exp: int, n: int) -> int {
    dyadic_rhaz(sig, exp - n)
}

/// Whether exponent n can represent the value: its rounded mantissa fits the
/// signed 11-bit field.
pub open spec fn l11_fits(sig: int, exp: int, n: int) -> bool {
    -1024 <= l11_y(sig, exp, n) <= 1023
}

/// The absolute reconstruction error |value - Y * 2^n| that exponent n
/// leaves, scaled by 2^149 so it is an integer for every admissible exp.
pub open spec fn l11_err(sig: int, exp: int, n: int) -> int {
    abs(sig * p2(exp + 149) - l11_y(sig, exp, n) * p2(n + 149)) as int
}

/// Multiplying both sides by a positive factor keeps their order.
proof fn lemma_mul_le_iff(a: int, b: int, c: int)
    requires
        c >= 1,
    ensures
        (a <= b) <==> (a * c <= b * c),
        (a < b) <==> (a * c < b * c),
{
    assert((a <= b ==> a * c <= b * c) && (a < b ==> a * c < b * c) && (a > b ==> a * c > b * c))
        by (nonlinear_arith)
        requires
            c >= 1,
    ;
}

/// The error term re-expressed at a coarser scale 2^t common to exp and n.
proof fn lemma_l11_err_scale(sig: int, exp: int, n: int, t: int)
    requires
        -149 <= t <= exp,
        t <= n,
    ensures
        l11_err(sig, exp, n) == abs(sig * p2(exp - t) - l11_y(sig, exp, n) * p2(n - t)) * p2(
            t + 149,
        ),
{
    let y = l11_y(sig, exp, n);
    let a = sig * p2(exp - t);
    let b = y * p2(n - t);
    let c = p2(t + 149);
    lemma_p2_pos(t + 149);
    lemma_p2_adds(exp - t, t + 149);
    lemma_p2_adds(n - t, t + 149);
    assert(sig * p2(exp + 149) == (sig * p2(exp - t)) * p2(t + 149)) by (nonlinear_arith)
        requires
            p2(exp + 149) == p2(exp - t) * p2(t + 149),
    ;
    assert(y * p2(n + 149) == (y * p2(n - t)) * p2(t + 149)) by (nonlinear_arith)
        requires
            p2(n + 149) == p2(n - t) * p2(t + 149),
    ;
    assert((a - b) * c == a * c - b * c) by (nonlinear_arith);
    if a - b >= 0 {
        assert((a - b) * c >= 0) by (nonlinear_arith)
            requires
                a - b >= 0,
                c >= 1,
        ;
    } else {
        assert((a - b) * c < 0) by (nonlinear_arith)
            requires
                a - b < 0,
                c >= 1,
        ;
        assert(-((a - b) * c) == (-(a - b)) * c) by (nonlinear_arith);
    }
}

/// No 5-bit exponent fits once the value reaches 2^26: even the largest
/// exponent leaves a mantissa of at least 2^11.
proof fn lemma_l11_too_big(sig: int, exp: int, n: int)
    requires
        sig != 0,
        exp >= 26,
        -16 <= n <= 15,
    ensures
        !l11_fits(sig, exp, n),
{
    let k = exp - n;
    lemma_p2_mono(11, k);
    lemma_p2_small();
    if sig >= 1 {
        assert(sig * p2(k) >= p2(k)) by (nonlinear_arith)
            requires
                sig >= 1,
                p2(k) >= 1,
        ;
    } else {
        assert(sig * p2(k) <= -p2(k)) by (nonlinear_arith)
            requires
                sig <= -1,
                p2(k) >= 1,
        ;
    }
}

impl Linear11 {
    /// Best-fit encoding of the exact value sig * 2^exp, searching the
    /// exponents in ascending order and keeping the first one whose rounded
    /// mantissa fits and whose reconstruction error is smallest.
    ///
    /// Returns the chosen mantissa and exponent, or None when no exponent
    /// can represent the value.
    pub fn encode_parts(sig: i32, exp: i32) -> (r: Option<(i16, i8)>)
        requires
            -0x100_0000 < sig < 0x100_0000,
            sig != 0,
            -149 <= exp <= 104,
        ensures
            r is None ==> forall|m: int| -16 <= m <= 15 ==> !l11_fits(sig as int, exp as int, m),
            (match r {
                Option::None => true,
                Option::Some(p) => {
                    &&& -16 <= p.1 <= 15
                    &&& l11_fits(sig as int, exp as int, p.1 as int)
                    &&& p.0 == l11_y(sig as int, exp as int, p.1 as int)
                    &&& forall|m: int|
                        -16 <= m <= 15 && l11_fits(sig as int, exp as int, m) ==> l11_err(
                            sig as int,
                            exp as int,
                            p.1 as int,
                        ) <= l11_err(sig as int, exp as int, m)
                    &&& forall|m: int|
                        -16 <= m < p.1 as int && l11_fits(sig as int, exp as int, m) ==> l11_err(
                            sig as int,
                            exp as int,
                            p.1 as int,
                        ) < l11_err(sig as int, exp as int, m)
                },
            }),
    {
        if exp >= 26 {
            proof {
                assert forall|m: int| -16 <= m <= 15 implies !l11_fits(
                    sig as int,
                    exp as int,
                    m,
                ) by {
                    lemma_l11_too_big(sig as int, exp as int, m);
                }
            }
            return None;
        }
        let t: i32 = if exp < -16 {
            exp
        } else {
            -16
        };
        let mut n: i32 = -16;
        let mut found: bool = false;
        let mut best_y: i16 = 0;
        let mut best_n: i8 = 0;
        let mut best_err: u128 = 0;
        proof {
            lemma_p2_small();
        }
        while n <= 15
            invariant
                -16 <= n <= 16,
                -0x100_0000 < sig < 0x100_0000,
                sig != 0,
                -149 <= exp <= 25,
                t == if exp < -16 {
                    exp as int
                } else {
                    -16
                },
                !found ==> forall|m: int|
                    -16 <= m < n ==> !l11_fits(sig as int, exp as int, m),
                found ==> {
                    &&& -16 <= best_n < n
                    &&& l11_fits(sig as int, exp as int, best_n as int)
                    &&& best_y == l11_y(sig as int, exp as int, best_n as int)
                    &&& best_err * p2(t + 149) == l11_err(sig as int, exp as int, best_n as int)
                    &&& forall|m: int|
                        -16 <= m < n && l11_fits(sig as int, exp as int, m) ==> l11_err(
                            sig as int,
                            exp as int,
                            best_n as int,
                        ) <= l11_err(sig as int, exp as int, m)
                    &&& forall|m: int|
                        -16 <= m < best_n as int && l11_fits(sig as int, exp as int, m)
                            ==> l11_err(sig as int, exp as int, best_n as int) < l11_err(
                            sig as int,
                            exp as int,
                            m,
                        )
                },
            decreases 16 - n,
        {
            let k: i32 = exp - n;
            let mut cand_fit: bool = false;
            let mut cand_y: i16 = 0;
            let mut cand_err: u128 = 0;
            if k >= 0 {
                if k >= 11 {
                    proof {
                        let kk = exp as int - n;
                        lemma_p2_mono(11, kk);
                        lemma_p2_small();
                        if sig >= 1 {
                            assert(sig * p2(kk) >= p2(kk)) by (nonlinear_arith)
                                requires
                                    sig >= 1,
                                    p2(kk) >= 1,
                            ;
                        } else {
                            assert(sig * p2(kk) <= -p2(kk)) by (nonlinear_arith)
                                requires
                                    sig <= -1,
                                    p2(kk) >= 1,
                            ;
                        }
                        assert(!l11_fits(sig as int, exp as int, n as int));
                    }
                } else {
                    let pk: i64 = pow2_i64(k as u32);
                    proof {
                        lemma_p2_small();
                        lemma_p2_pos(k as int);
                        lemma_p2_mono(k as int, 10);
                        assert((sig as int) * p2(k as int) <= 0x100_0000 * 0x400 && (sig as int)
                            * p2(k as int) >= -0x100_0000 * 0x400) by (nonlinear_arith)
                            requires
                                -0x100_0000 <= sig as int <= 0x100_0000,
                                1 <= p2(k as int) <= 0x400,
                        ;
                    }
                    let y64: i64 = (sig as i64) * pk;
                    if -1024 <= y64 && y64 <= 1023 {
                        cand_fit = true;
                        cand_y = y64 as i16;
                        cand_err = 0;
                        proof {
                            let kk = k as int;
                            let y = l11_y(sig as int, exp as int, n as int);
                            assert(y == y64);
                            lemma_p2_adds(kk, n - t);
                            assert((sig as int) * p2(kk) * p2(n - t) == (sig as int) * (p2(kk)
                                * p2(n - t))) by (nonlinear_arith);
                            assert(y * p2(n - t) == (sig as int) * p2(exp - t));
                            lemma_l11_err_scale(sig as int, exp as int, n as int, t as int);
                            assert(0 * p2(t + 149) == 0) by (nonlinear_arith);
                        }
                    } else {
                        proof {
                            assert(!l11_fits(sig as int, exp as int, n as int));
                        }
                    }
                }
            } else {
                let s: i32 = -k;
                if s >= 26 {
                    cand_fit = true;
                    cand_y = 0;
                    proof {
                        lemma_p2_pos(exp - t);
                        lemma_p2_mono(exp - t, 41);
                        lemma_p2_41();
                        assert((sig as int) * p2(exp - t) < 0x100_0000 * 0x200_0000_0000 && (
                        sig as int) * p2(exp - t) > -0x100_0000 * 0x200_0000_0000)
                            by (nonlinear_arith)
                            requires
                                -0x100_0000 < (sig as int) < 0x100_0000,
                                1 <= p2(exp - t) <= 0x200_0000_0000,
                        ;
                    }
                    let a: i128 = (sig as i128) * pow2_i128((exp - t) as u32);
                    cand_err = crate::arith::abs_i128(a);
                    proof {
                        let ss = s as int;
                        lemma_p2_mono(26, ss);
                        lemma_p2_small();
                        lemma_rhaz_zero(sig as int, p2(ss));
                        assert(l11_y(sig as int, exp as int, n as int) == 0);
                        lemma_l11_err_scale(sig as int, exp as int, n as int, t as int);
                        assert(0 * p2(n - t) == 0) by (nonlinear_arith);
                    }
                } else {
                    let ps: i128 = pow2_i128(s as u32);
                    proof {
                        lemma_p2_mono(s as int, 25);
                        lemma_p2_small();
                    }
                    let y128: i128 = rhaz_i128(sig as i128, ps);
                    proof {
                        assert(y128 == l11_y(sig as int, exp as int, n as int));
                    }
                    if -1024 <= y128 && y128 <= 1023 {
                        cand_fit = true;
                        cand_y = y128 as i16;
                        proof {
                            lemma_p2_pos(exp - t);
                            lemma_p2_pos(n - t);
                            lemma_p2_mono(exp - t, 41);
                            lemma_p2_mono(n - t, 41);
                            lemma_p2_41();
                            assert((sig as int) * p2(exp - t) < 0x100_0000 * 0x200_0000_0000 && (
                            sig as int) * p2(exp - t) > -0x100_0000 * 0x200_0000_0000 && (
                            y128 as int) * p2(n - t) <= 0x400 * 0x200_0000_0000 && (y128 as int)
                                * p2(n - t) >= -0x400 * 0x200_0000_0000) by (nonlinear_arith)
                                requires
                                    -0x100_0000 < (sig as int) < 0x100_0000,
                                    -0x400 <= y128 as int <= 0x400,
                                    1 <= p2(exp - t) <= 0x200_0000_0000,
                                    1 <= p2(n - t) <= 0x200_0000_0000,
                            ;
                        }
                        let a: i128 = (sig as i128) * pow2_i128((exp - t) as u32);
                        let b: i128 = y128 * pow2_i128((n - t) as u32);
                        cand_err = crate::arith::abs_i128(a - b);
                        proof {
                            lemma_l11_err_scale(sig as int, exp as int, n as int, t as int);
                        }
                    } else {
                        proof {
                            assert(!l11_fits(sig as int, exp as int, n as int));
                        }
                    }
                }
            }
            if cand_fit {
                proof {
                    lemma_p2_pos(t + 149);
                }
                if !found || cand_err < best_err {
                    proof {
                        if found {
                            assert forall|m: int|
                                -16 <= m < n + 1 && l11_fits(sig as int, exp as int, m) implies l11_err(
                                sig as int,
                                exp as int,
                                n as int,
                            ) <= l11_err(sig as int, exp as int, m) by {
                                lemma_mul_le_iff(cand_err as int, best_err as int, p2(t + 149));
                            }
                            assert forall|m: int|
                                -16 <= m < n && l11_fits(sig as int, exp as int, m) implies l11_err(
                                sig as int,
                                exp as int,
                                n as int,
                            ) < l11_err(sig as int, exp as int, m) by {
                                lemma_mul_le_iff(cand_err as int, best_err as int, p2(t + 149));
                            }
                        }
                    }
                    found = true;
                    best_y = cand_y;
                    best_n = n as i8;
                    best_err = cand_err;
                } else {
                    proof {
                        lemma_mul_le_iff(best_err as int, cand_err as int, p2(t + 149));
                    }
                }
            }
            n = n + 1;
        }
        if found {
            Some((best_y, best_n))
        } else {
            None
        }
    }
}

/// 2^41, the ceiling for the scaled error arithmetic.
proof fn lemma_p2_41()
    ensures
        p2(41) == 0x200_0000_0000,
{
    assert(p2(41) == 0x200_0000_0000) by {
        reveal_with_fuel(p2, 43);
    }
}

impl Linear11 {
    /// Encode the exact value sig * 2^exp into a bus word. Zero maps to the
    /// all-zero word; otherwise the best-fit exponent search runs, and None
    /// comes back only when no exponent in [-16, 15] can hold the value.
    pub fn encode(sig: i32, exp: i32) -> (r: Option<Linear11>)
        requires
            -0x100_0000 < sig < 0x100_0000,
            -149 <= exp <= 104,
        ensures
            sig == 0 ==> (r matches Some(l) && l.spec_raw() == 0),
            sig != 0 ==> ((r is None) <==> (forall|m: int|
                -16 <= m <= 15 ==> !l11_fits(sig as int, exp as int, m))),
            sig != 0 ==> (r matches Some(l) ==> {
                &&& -16 <= l11_exp(l.spec_raw()) <= 15
                &&& l11_fits(sig as int, exp as int, l11_exp(l.spec_raw()))
                &&& l11_man(l.spec_raw()) == l11_y(sig as int, exp as int, l11_exp(l.spec_raw()))
                &&& forall|m: int|
                    -16 <= m <= 15 && l11_fits(sig as int, exp as int, m) ==> l11_err(
                        sig as int,
                        exp as int,
                        l11_exp(l.spec_raw()),
                    ) <= l11_err(sig as int, exp as int, m)
                &&& forall|m: int|
                    -16 <= m < l11_exp(l.spec_raw()) && l11_fits(sig as int, exp as int, m)
                        ==> l11_err(sig as int, exp as int, l11_exp(l.spec_raw())) < l11_err(
                        sig as int,
                        exp as int,
                        m,
                    )
            }),
    {
        if sig == 0 {
            Some(Linear11::from_raw(0))
        } else {
            match Linear11::encode_parts(sig, exp) {
                Option::None => None,
                Option::Some((y, n)) => Some(Linear11::from_parts(y, n)),
            }
        }
    }
}

/// Rounding a value sig * 2^exp to a mantissa at step 2^n half away from
/// zero leaves an absolute error of at most half the step: the round-trip
/// decode differs from the value by at most 2^(n-1). Both sides carry the
/// integral scale 2^149.
pub proof fn lemma_dyadic_half_step(sig: int, exp: int, n: int)
    requires
        -149 <= exp,
        -149 <= n,
    ensures
        2 * abs(sig * p2(exp + 149) - dyadic_rhaz(sig, exp - n) * p2(n + 149)) <= p2(n + 149),
{
    let k = exp - n;
    let y = dyadic_rhaz(sig, exp - n);
    lemma_p2_pos(n + 149);
    if k >= 0 {
        lemma_p2_adds(k, n + 149);
        assert((sig * p2(k)) * p2(n + 149) == sig * (p2(k) * p2(n + 149))) by (nonlinear_arith);
    } else {
        let s = -k;
        lemma_p2_pos(s);
        lemma_rhaz_bound(sig, p2(s));
        lemma_p2_adds(s, exp + 149);
        assert(y * p2(n + 149) == y * (p2(s) * p2(exp + 149))) by (nonlinear_arith)
            requires
                p2(n + 149) == p2(s) * p2(exp + 149),
        ;
        lemma_p2_pos(exp + 149);
        assert(2 * (sig * p2(exp + 149) - y * (p2(s) * p2(exp + 149))) == (2 * (sig - y * p2(s)))
            * p2(exp + 149)) by (nonlinear_arith);
        assert(-(p2(s) * p2(exp + 149)) <= (2 * (sig - y * p2(s))) * p2(exp + 149) <= p2(s) * p2(
            exp + 149,
        )) by (nonlinear_arith)
            requires
                -p2(s) <= 2 * (sig - y * p2(s)) <= p2(s),
                p2(exp + 149) >= 1,
        ;
    }
}

/// The round-trip law: when the encoder packs mantissa Y and exponent N for
/// a value sig * 2^exp, the decoded word differs from the value by at most
/// half the quantization step 2^N. Both sides are scaled by 2^149; the
/// decoded word's scaled value carries the remaining factor 2^133.
pub proof fn lemma_l11_round_trip(sig: int, exp: int, raw: u16)
    requires
        -149 <= exp,
        l11_man(raw) == l11_y(sig, exp, l11_exp(raw)),
    ensures
        2 * abs(sig * p2(exp + 149) - l11_scaled(raw) * p2(133)) <= p2(l11_exp(raw) + 149),
{
    let nb = l11_exp(raw);
    lemma_l11_field_ranges(raw);
    lemma_dyadic_half_step(sig, exp, nb);
    lemma_p2_adds(nb + 16, 133);
    assert(l11_scaled(raw) * p2(133) == l11_man(raw) * p2(nb + 149)) by (nonlinear_arith)
        requires
            l11_scaled(raw) == l11_man(raw) * p2(nb + 16),
            p2(nb + 16) * p2(133) == p2(nb + 149),
    ;
}

/// The rounded unsigned 16-bit word for a value sig * 2^exp under the
/// externally supplied exponent e: value / 2^e, rounded half away from zero.
pub open spec fn ul16_y(sig: int, exp: int, e: int) -> int {
    dyadic_rhaz(sig, exp - e)
}

/// The unsigned fixed-point word format used for output voltage: value =
/// V * 2^N with V an unsigned 16-bit word and N supplied per call from the
/// decoded VOUT_MODE register.
#[derive(Debug, Clone, Copy, PartialEq, Eq, Structural)]
pub struct ULinear16 {
    raw: u16,
}

impl ULinear16 {
    /// The raw 16-bit bus word, as the contracts speak of it.
    pub closed spec fn spec_raw(self) -> u16 {
        self.raw
    }

    /// Construct from a raw 16-bit bus value.
    pub fn from_raw(raw: u16) -> (r: Self)
        ensures
            r.spec_raw() == raw,
    {
        ULinear16 { raw }
    }

    /// Return the raw 16-bit value.
    pub fn raw(self) -> (r: u16)
        ensures
            r == self.spec_raw(),
    {
        self.raw
    }

    /// The decoded value raw * 2^exponent, scaled by 2^16 so the smallest
    /// five-bit exponent still yields an integer. The exponent comes from a
    /// decoded VOUT_MODE register, whose field is five signed bits; the
    /// scaled word would overflow 63 bits beyond that range.
    pub fn to_scaled(self, exponent: i8) -> (v: i64)
        requires
            -16 <= exponent <= 15,
        ensures
            v == (self.spec_raw() as int) * p2(exponent + 16),
            0 <= v <= 0xFFFF_8000_0000,
    {
        let p = pow2_i64(((exponent as i32) + 16) as u32);
        proof {
            lemma_p2_mono((exponent as int) + 16, 31);
            lemma_p2_small();
            assert((self.spec_raw() as int) * p2(exponent + 16) <= 0xFFFF * 0x8000_0000 && (
            self.spec_raw() as int) * p2(exponent + 16) >= 0) by (nonlinear_arith)
                requires
                    0 <= self.spec_raw() as int <= 0xFFFF,
                    1 <= p2(exponent + 16) <= 0x8000_0000,
            ;
        }
        (self.raw as i64) * p
    }

    /// Encode the exact value sig * 2^exp under exponent e. The format is
    /// unsigned: negative values fail, and so does a rounded word beyond
    /// 16 bits. Zero encodes to the all-zero word.
    pub fn encode(sig: i32, exp: i32, exponent: i8) -> (r: Option<ULinear16>)
        requires
            -0x100_0000 < sig < 0x100_0000,
            -149 <= exp <= 104,
        ensures
            (r is Some) <==> (sig >= 0 && ul16_y(sig as int, exp as int, exponent as int)
                <= 0xFFFF),
            (r matches Some(u) ==> u.spec_raw() == ul16_y(sig as int, exp as int, exponent as int)),
    {
        if sig < 0 {
            proof {
                let k = exp - exponent;
                if k >= 0 {
                    lemma_p2_pos(k);
                    assert((sig as int) * p2(k) <= -1) by (nonlinear_arith)
                        requires
                            sig as int <= -1,
                            p2(k) >= 1,
                    ;
                } else {
                    lemma_p2_pos(-k);
                    lemma_rhaz_bound(sig as int, p2(-k));
                }
            }
            return None;
        }
        if sig == 0 {
            proof {
                let k = exp - exponent;
                if k >= 0 {
                    assert(0 * p2(k) == 0) by (nonlinear_arith);
                } else {
                    lemma_p2_pos(-k);
                    lemma_rhaz_zero(0, p2(-k));
                }
            }
            return Some(ULinear16 { raw: 0 });
        }
        let k: i32 = exp - (exponent as i32);
        if k >= 0 {
            if k >= 17 {
                proof {
                    lemma_p2_mono(17, k as int);
                    lemma_p2_17();
                    assert((sig as int) * p2(k as int) >= p2(k as int)) by (nonlinear_arith)
                        requires
                            sig as int >= 1,
                            p2(k as int) >= 1,
                    ;
                }
                return None;
            }
            proof {
                lemma_p2_pos(k as int);
                lemma_p2_mono(k as int, 16);
                lemma_p2_small();
                assert(0 <= (sig as int) * p2(k as int) <= 0x100_0000 * 0x10000)
                    by (nonlinear_arith)
                    requires
                        0 <= sig as int <= 0x100_0000,
                        1 <= p2(k as int) <= 0x10000,
                ;
            }
            let y64: i64 = (sig as i64) * pow2_i64(k as u32);
            if y64 <= 0xFFFF {
                Some(ULinear16 { raw: y64 as u16 })
            } else {
                None
            }
        } else {
            let s: i32 = -k;
            if s >= 26 {
                proof {
                    lemma_p2_mono(26, s as int);
                    lemma_p2_small();
                    lemma_rhaz_zero(sig as int, p2(s as int));
                }
                return Some(ULinear16 { raw: 0 });
            }
            proof {
                lemma_p2_mono(s as int, 25);
                lemma_p2_small();
            }
            let ps: i128 = pow2_i128(s as u32);
            let y128: i128 = rhaz_i128(sig as i128, ps);
            proof {
                lemma_rhaz_bound(sig as int, p2(s as int));
            }
            if y128 <= 0xFFFF {
                proof {
                    assert(y128 >= 0);
                }
                Some(ULinear16 { raw: y128 as u16 })
            } else {
                None
            }
        }
    }
}

/// 2^17, just over the largest unsigned 16-bit word.
proof fn lemma_p2_17()
    ensures
        p2(17) == 0x20000,
{
    assert(p2(17) == 0x20000) by {
        reveal_with_fuel(p2, 19);
    }
}

/// Zero is exact: the all-zero bus word decodes to exactly zero in both
/// linear formats, at any exponent. The encoders' contracts state the other
/// direction: a zero value encodes to the all-zero word.
pub proof fn lemma_zero_exact(e: int)
    ensures
        l11_scaled(0) == 0,
        0 * p2(e + 16) == 0,
{
    assert(0u16 & 0x7FF == 0) by (bit_vector);
    assert(0 * p2(l11_exp(0) + 16) == 0) by (nonlinear_arith);
    assert(0 * p2(e + 16) == 0) by (nonlinear_arith);
}

/// The round-trip law for the unsigned fixed-point format: an encoded word
/// reconstructs the value to within half the step 2^e. Both sides carry the
/// integral scale 2^149.
pub proof fn lemma_ul16_round_trip(sig: int, exp: int, e: int)
    requires
        -149 <= exp,
        -149 <= e,
    ensures
        2 * abs(sig * p2(exp + 149) - ul16_y(sig, exp, e) * p2(e + 149)) <= p2(e + 149),
{
    lemma_dyadic_half_step(sig, exp, e);
}

/// A byte pair read as a little-endian signed 16-bit value.
pub open spec fn i16_of_word(w: int) -> int {
    if w >= 0x8000 {
        w - 0x10000
    } else {
        w
    }
}

/// A byte read as a signed 8-bit value.
pub open spec fn i8_of_byte(b: int) -> int {
    if b >= 0x80 {
        b - 0x100
    } else {
        b
    }
}

/// Reassemble a little-endian signed 16-bit value from its two bytes.
fn i16_from_le(lo: u8, hi: u8) -> (r: i16)
    ensures
        r as int == i16_of_word(lo as int + 256 * hi as int),
{
    let w: u16 = (lo as u16) + 256 * (hi as u16);
    if w >= 0x8000 {
        ((w as i32) - 0x10000) as i16
    } else {
        w as i16
    }
}

/// Reinterpret a byte as a signed 8-bit value.
fn i8_from_byte(b: u8) -> (r: i8)
    ensures
        r as int == i8_of_byte(b as int),
{
    if b >= 0x80 {
        ((b as i16) - 0x100) as i8
    } else {
        b as i8
    }
}

/// The effective decimal exponent: R itself inside [-8, 8], and 0 outside,
/// where the scale silently falls back to one.
pub open spec fn dc_r_eff(r: int) -> int {
    if -8 <= r <= 8 {
        r
    } else {
        0
    }
}

/// Numerator of the exact encoded quantity (m * sig * 2^exp + b) * 10^R,
/// written over the common denominator dc_den.
pub open spec fn dc_num(m: int, b: int, r: int, sig: int, exp: int) -> int {
    let re = dc_r_eff(r);
    let n10 = if re >= 0 {
        p10(re)
    } else {
        1
    };
    if exp >= 0 {
        (m * sig * p2(exp) + b) * n10
    } else {
        (m * sig + b * p2(-exp)) * n10
    }
}

/// Denominator of the exact encoded quantity: the negative powers of two and
/// ten that the value and the decimal scale contribute.
pub open spec fn dc_den(r: int, exp: int) -> int {
    let re = dc_r_eff(r);
    let d10 = if re >= 0 {
        1
    } else {
        p10(-re)
    };
    if exp >= 0 {
        d10
    } else {
        p2(-exp) * d10
    }
}

/// The encoded register value before the width check: the exact quantity
/// (m * sig * 2^exp + b) * 10^R rounded half away from zero.
pub open spec fn dc_y(m: int, b: int, r: int, sig: int, exp: int) -> int {
    rhaz(dc_num(m, b, r, sig, exp), dc_den(r, exp))
}

proof fn lemma_p10_8()
    ensures
        p10(8) == 100_000_000,
{
    assert(p10(8) == 100_000_000) by {
        reveal_with_fuel(p10, 10);
    }
}

proof fn lemma_p2_43()
    ensures
        p2(43) == 0x800_0000_0000,
{
    assert(p2(43) == 0x800_0000_0000) by {
        reveal_with_fuel(p2, 45);
    }
}

proof fn lemma_p2_67()
    ensures
        p2(67) == 0x8_0000_0000_0000_0000,
{
    lemma_p2_62();
    lemma_p2_adds(62, 5);
    assert(p2(5) == 32) by {
        reveal_with_fuel(p2, 7);
    }
}

/// dc_den is positive.
proof fn lemma_dc_den_pos(r: int, exp: int)
    ensures
        dc_den(r, exp) >= 1,
{
    let re = dc_r_eff(r);
    lemma_p10_pos(-re);
    if exp < 0 {
        lemma_p2_pos(-exp);
        assert(dc_den(r, exp) >= 1) by (nonlinear_arith)
            requires
                p2(-exp) >= 1,
                dc_den(r, exp) == p2(-exp) * (if dc_r_eff(r) >= 0 {
                    1int
                } else {
                    p10(-dc_r_eff(r))
                }),
                (if dc_r_eff(r) >= 0 {
                    1int
                } else {
                    p10(-dc_r_eff(r))
                }) >= 1,
        ;
    }
}

/// Once |m * sig * 2^exp| reaches 2^43, the encoded value overflows the
/// signed 16-bit register no matter what b and R contribute.
proof fn lemma_dc_huge(m: int, b: int, r: int, sig: int, exp: int)
    requires
        -0x8000 <= m <= 0x7FFF,
        m != 0,
        -0x8000 <= b <= 0x7FFF,
        exp >= 0,
        abs(sig * p2(exp)) >= 0x800_0000_0000,
    ensures
        !(-0x8000 <= dc_y(m, b, r, sig, exp) <= 0x7FFF),
{
    let re = dc_r_eff(r);
    let n10 = if re >= 0 {
        p10(re)
    } else {
        1int
    };
    let d10 = if re >= 0 {
        1int
    } else {
        p10(-re)
    };
    lemma_p10_pos(re);
    lemma_p10_pos(-re);
    lemma_p10_mono(-re, 8);
    lemma_p10_8();
    let sv = sig * p2(exp);
    let num = dc_num(m, b, r, sig, exp);
    assert(m * sig * p2(exp) == m * sv) by (nonlinear_arith)
        requires
            sv == sig * p2(exp),
    ;
    assert(num == (m * sv + b) * n10);
    if m * sv >= 0 {
        assert(m * sv >= 0x800_0000_0000) by (nonlinear_arith)
            requires
                m * sv >= 0,
                m != 0,
                abs(sv) >= 0x800_0000_0000,
        ;
        assert(2 * num >= (2 * 32769 - 1) * d10) by (nonlinear_arith)
            requires
                num == (m * sv + b) * n10,
                m * sv >= 0x800_0000_0000,
                b >= -0x8000,
                n10 >= 1,
                1 <= d10 <= 100_000_000,
        ;
        lemma_dc_den_pos(r, exp);
        lemma_rhaz_ge(num, d10, 32769);
    } else {
        assert(m * sv <= -0x800_0000_0000) by (nonlinear_arith)
            requires
                m * sv < 0,
                abs(sv) >= 0x800_0000_0000,
                m != 0,
        ;
        assert(2 * num <= -((2 * 32769 - 1) * d10)) by (nonlinear_arith)
            requires
                num == (m * sv + b) * n10,
                m * sv <= -0x800_0000_0000,
                b <= 0x7FFF,
                n10 >= 1,
                1 <= d10 <= 100_000_000,
        ;
        lemma_dc_den_pos(r, exp);
        lemma_rhaz_le(num, d10, 32769);
    }
}

/// The coefficient set (m, b, R) of the decimal linear transform format:
/// a raw register value Y and a physical value X are related by
/// Y = (m * X + b) * 10^R, with the coefficients supplied by the device.
#[derive(Debug, Clone, Copy, PartialEq, Eq, Structural)]
pub struct DirectCoefficients {
    /// Slope, a signed 16-bit coefficient. Decoding divides by m, so a zero
    /// slope makes the decoded quotient meaningless; callers must not pass
    /// m = 0 to the decode direction.
    pub m: i16,
    /// Offset, a signed 16-bit coefficient.
    pub b: i16,
    /// Decimal exponent. The device promises [-8, 8]; values outside that
    /// range silently scale by one instead.
    pub r: i8,
}

impl DirectCoefficients {
    /// Create new coefficients.
    pub fn new(m: i16, b: i16, r: i8) -> (c: Self)
        ensures
            c.m == m,
            c.b == b,
            c.r == r,
    {
        DirectCoefficients { m, b, r }
    }

    /// Parse a five-byte coefficients response: m and b as little-endian
    /// signed 16-bit words, then R as a signed byte. Shorter buffers fail;
    /// excess bytes are ignored.
    pub fn from_coefficients_response(data: &[u8]) -> (r: Option<Self>)
        ensures
            (r is Some) <==> data@.len() >= 5,
            (r matches Some(c) ==> {
                &&& c.m as int == i16_of_word(data@[0] as int + 256 * data@[1] as int)
                &&& c.b as int == i16_of_word(data@[2] as int + 256 * data@[3] as int)
                &&& c.r as int == i8_of_byte(data@[4] as int)
            }),
    {
        if data.len() < 5 {
            return None;
        }
        let m = i16_from_le(data[0], data[1]);
        let b = i16_from_le(data[2], data[3]);
        let r = i8_from_byte(data[4]);
        Some(DirectCoefficients { m, b, r })
    }

    /// The decoded physical value X = (Y * 10^(-R) - b) / m as an exact
    /// fraction: the numerator and a nonzero denominator. The caller owes a
    /// nonzero slope; the division itself is left to the caller, which keeps
    /// the quotient exact here.
    pub fn decode_fraction(self, raw: i16) -> (f: (i64, i64))
        requires
            self.m != 0,
        ensures
            ({
                let re = dc_r_eff(self.r as int);
                if re <= 0 {
                    f.0 == raw * p10(-re) - self.b && f.1 == self.m
                } else {
                    f.0 == raw - self.b * p10(re) && f.1 == self.m * p10(re)
                }
            }),
            f.1 != 0,
    {
        let re: i32 = if -8 <= self.r && self.r <= 8 {
            self.r as i32
        } else {
            0
        };
        proof {
            lemma_p10_pos(-re as int);
            lemma_p10_pos(re as int);
            lemma_p10_mono(-re as int, 8);
            lemma_p10_mono(re as int, 8);
            lemma_p10_8();
        }
        if re <= 0 {
            let scale: i64 = pow10_i64((-re) as u32);
            proof {
                assert((raw as int) * p10(-re) <= 0x8000 * 100_000_000 && (raw as int) * p10(-re)
                    >= -0x8000 * 100_000_000) by (nonlinear_arith)
                    requires
                        -0x8000 <= raw as int <= 0x7FFF,
                        1 <= p10(-re) <= 100_000_000,
                ;
            }
            ((raw as i64) * scale - (self.b as i64), self.m as i64)
        } else {
            let scale: i64 = pow10_i64(re as u32);
            proof {
                assert((self.b as int) * p10(re as int) <= 0x8000 * 100_000_000 && (self.b as int)
                    * p10(re as int) >= -0x8000 * 100_000_000 && (self.m as int) * p10(re as int)
                    <= 0x8000 * 100_000_000 && (self.m as int) * p10(re as int) >= -0x8000
                    * 100_000_000 && (self.m as int) * p10(re as int) != 0) by (nonlinear_arith)
                    requires
                        -0x8000 <= self.b as int <= 0x7FFF,
                        -0x8000 <= self.m as int <= 0x7FFF,
                        self.m != 0,
                        1 <= p10(re as int) <= 100_000_000,
                ;
            }
            ((raw as i64) - (self.b as i64) * scale, (self.m as i64) * scale)
        }
    }

    /// Encode the exact value sig * 2^exp into a raw register value: round
    /// (m * value + b) * 10^R half away from zero, failing when the result
    /// overflows the signed 16-bit register.
    pub fn encode(self, sig: i32, exp: i32) -> (r: Option<i16>)
        requires
            -0x100_0000 < sig < 0x100_0000,
            -149 <= exp <= 104,
        ensures
            (r is Some) <==> (-0x8000 <= dc_y(self.m as int, self.b as int, self.r as int,
            sig as int, exp as int) <= 0x7FFF),
            (r matches Some(v) ==> v as int == dc_y(
                self.m as int,
                self.b as int,
                self.r as int,
                sig as int,
                exp as int,
            )),
    {
        let ghost gm = self.m as int;
        let ghost gb = self.b as int;
        let ghost gr = self.r as int;
        let re: i32 = if -8 <= self.r && self.r <= 8 {
            self.r as i32
        } else {
            0
        };
        let n10: i64 = if re >= 0 {
            pow10_i64(re as u32)
        } else {
            1
        };
        let d10: i64 = if re < 0 {
            pow10_i64((-re) as u32)
        } else {
            1
        };
        proof {
            lemma_p10_pos(re as int);
            lemma_p10_pos(-re as int);
            lemma_p10_mono(re as int, 8);
            lemma_p10_mono(-re as int, 8);
            lemma_p10_8();
        }
        if self.m == 0 || sig == 0 {
            proof {
                lemma_dc_zero_term(gm, gb, gr, sig as int, exp as int);
            }
            proof {
                assert((self.b as int) * n10 <= 0x8000 * 100_000_000 && (self.b as int) * n10
                    >= -0x8000 * 100_000_000) by (nonlinear_arith)
                    requires
                        -0x8000 <= self.b as int <= 0x7FFF,
                        1 <= n10 <= 100_000_000,
                ;
            }
            let y: i128 = rhaz_i128((self.b as i128) * (n10 as i128), d10 as i128);
            proof {
                assert(y as int == dc_y(gm, gb, gr, sig as int, exp as int));
            }
            if -0x8000 <= y && y <= 0x7FFF {
                Some(y as i16)
            } else {
                None
            }
        } else if exp >= 43 {
            proof {
                lemma_p2_mono(43, exp as int);
                lemma_p2_43();
                if sig >= 1 {
                    assert((sig as int) * p2(exp as int) >= p2(exp as int)) by (nonlinear_arith)
                        requires
                            sig as int >= 1,
                            p2(exp as int) >= 1,
                    ;
                } else {
                    assert((sig as int) * p2(exp as int) <= -p2(exp as int)) by (nonlinear_arith)
                        requires
                            sig as int <= -1,
                            p2(exp as int) >= 1,
                    ;
                }
                lemma_dc_huge(gm, gb, gr, sig as int, exp as int);
            }
            None
        } else if exp >= 0 {
            proof {
                lemma_p2_pos(exp as int);
                lemma_p2_mono(exp as int, 42);
                lemma_p2_42();
                assert((sig as int) * p2(exp as int) <= 0x100_0000 * 0x400_0000_0000 && (sig as int)
                    * p2(exp as int) >= -0x100_0000 * 0x400_0000_0000) by (nonlinear_arith)
                    requires
                        -0x100_0000 <= sig as int <= 0x100_0000,
                        1 <= p2(exp as int) <= 0x400_0000_0000,
                ;
            }
            let sv: i128 = (sig as i128) * pow2_i128(exp as u32);
            if sv >= 0x800_0000_0000 || sv <= -0x800_0000_0000 {
                proof {
                    lemma_dc_huge(gm, gb, gr, sig as int, exp as int);
                }
                None
            } else {
                proof {
                    assert((self.m as int) * (sv as int) < 0x8000 * 0x800_0000_0000 && (
                    self.m as int) * (sv as int) > -0x8000 * 0x800_0000_0000 - 0x800_0000_0000)
                        by (nonlinear_arith)
                        requires
                            -0x8000 <= self.m as int <= 0x7FFF,
                            -0x800_0000_0000 < (sv as int) < 0x800_0000_0000,
                    ;
                }
                let mv: i128 = (self.m as i128) * sv;
                proof {
                    assert(((mv as int) + self.b) * n10 <= 0x8_0000_0800_0000_8000 * 100_000_000
                        && ((mv as int) + self.b) * n10 >= -0x8_0000_0800_0000_8000 * 100_000_000)
                        by (nonlinear_arith)
                        requires
                            -0x8_0000_0800_0000_8000 <= (mv as int) + self.b
                                <= 0x8_0000_0800_0000_8000,
                            1 <= n10 <= 100_000_000,
                    ;
                }
                let n0: i128 = (mv + (self.b as i128)) * (n10 as i128);
                let y: i128 = rhaz_i128(n0, d10 as i128);
                proof {
                    assert(gm * (sig as int) * p2(exp as int) == gm * ((sig as int) * p2(
                        exp as int,
                    ))) by (nonlinear_arith);
                    assert(n0 as int == dc_num(gm, gb, gr, sig as int, exp as int));
                    assert(d10 as int == dc_den(gr, exp as int));
                    assert(y as int == dc_y(gm, gb, gr, sig as int, exp as int));
                }
                if -0x8000 <= y && y <= 0x7FFF {
                    Some(y as i16)
                } else {
                    None
                }
            }
        } else {
            let p: i32 = -exp;
            if p <= 68 {
                proof {
                    lemma_p2_pos(p as int);
                    lemma_p2_mono(p as int, 68);
                    lemma_p2_68();
                    assert((self.m as int) * (sig as int) < 0x8000 * 0x100_0000 && (self.m as int)
                        * (sig as int) > -0x8000 * 0x100_0000 && (self.b as int) * p2(p as int)
                        <= 0x8000 * 0x10_0000_0000_0000_0000 && (self.b as int) * p2(p as int)
                        >= -0x8000 * 0x10_0000_0000_0000_0000) by (nonlinear_arith)
                        requires
                            -0x8000 <= self.m as int <= 0x7FFF,
                            -0x8000 <= self.b as int <= 0x7FFF,
                            -0x100_0000 < (sig as int) < 0x100_0000,
                            1 <= p2(p as int) <= 0x10_0000_0000_0000_0000,
                    ;
                }
                let pp: i128 = pow2_i128(p as u32);
                let ms: i128 = (self.m as i128) * (sig as i128);
                let bp: i128 = (self.b as i128) * pp;
                proof {
                    assert(((ms + bp) as int) * n10 <= 0x8_8000_0000_0000_0000_0000 * 100_000_000
                        && ((ms + bp) as int) * n10 >= -0x8_8000_0000_0000_0000_0000 * 100_000_000)
                        by (nonlinear_arith)
                        requires
                            -0x8_8000_0000_0000_0000_0000 <= (ms + bp) as int
                                <= 0x8_8000_0000_0000_0000_0000,
                            1 <= n10 <= 100_000_000,
                    ;
                    assert((pp as int) * d10 <= 0x10_0000_0000_0000_0000 * 100_000_000 && (
                    pp as int) * d10 >= 1) by (nonlinear_arith)
                        requires
                            1 <= pp as int <= 0x10_0000_0000_0000_0000,
                            1 <= d10 <= 100_000_000,
                    ;
                }
                let n0: i128 = (ms + bp) * (n10 as i128);
                let d0: i128 = pp * (d10 as i128);
                let y: i128 = rhaz_i128(n0, d0);
                proof {
                    assert(n0 as int == dc_num(gm, gb, gr, sig as int, exp as int));
                    assert(d0 as int == dc_den(gr, exp as int));
                    assert(y as int == dc_y(gm, gb, gr, sig as int, exp as int));
                }
                if -0x8000 <= y && y <= 0x7FFF {
                    Some(y as i16)
                } else {
                    None
                }
            } else {
                proof {
                    assert((self.b as int) * n10 <= 0x8000 * 100_000_000 && (self.b as int) * n10
                        >= -0x8000 * 100_000_000 && (self.m as int) * (sig as int) <= 0x8000
                        * 0x100_0000 && (self.m as int) * (sig as int) >= -0x8000 * 0x100_0000
                        && (self.m as int) * (sig as int) * n10 <= 0x8000
                        * 0x100_0000 * 100_000_000 && (self.m as int) * (sig as int) * n10
                        >= -0x8000 * 0x100_0000 * 100_000_000 && (self.m as int) * (sig as int)
                        * n10 != 0) by (nonlinear_arith)
                        requires
                            -0x8000 <= self.b as int <= 0x7FFF,
                            -0x8000 <= self.m as int <= 0x7FFF,
                            -0x100_0000 < (sig as int) < 0x100_0000,
                            self.m != 0,
                            sig != 0,
                            1 <= n10 <= 100_000_000,
                    ;
                }
                let an: i128 = (self.b as i128) * (n10 as i128);
                let ad: i128 = d10 as i128;
                let en: i128 = (self.m as i128) * (sig as i128) * (n10 as i128);
                let y0: i128 = rhaz_i128(an, ad);
                proof {
                    crate::arith::lemma_rhaz_abs(an as int, ad as int);
                    assert(2 * (y0 as int) * (ad as int) <= 2 * 0x33_0000_0000_0001
                        * 100_000_000 && 2 * (y0 as int) * (ad as int) >= -2 * 0x33_0000_0000_0001
                        * 100_000_000) by (nonlinear_arith)
                        requires
                            -0x33_0000_0000_0001 <= y0 as int <= 0x33_0000_0000_0001,
                            1 <= ad as int <= 100_000_000,
                    ;
                }
                let y: i128 = if en > 0 {
                    if 2 * an == 2 * y0 * ad + ad {
                        y0 + 1
                    } else {
                        y0
                    }
                } else {
                    if 2 * an == 2 * y0 * ad - ad {
                        y0 - 1
                    } else {
                        y0
                    }
                };
                proof {
                    lemma_dc_deep(gm, gb, gr, sig as int, exp as int, an as int, ad as int,
                        en as int, y0 as int, y as int);
                }
                if -0x8000 <= y && y <= 0x7FFF {
                    Some(y as i16)
                } else {
                    None
                }
            }
        }
    }
}

proof fn lemma_p2_42()
    ensures
        p2(42) == 0x400_0000_0000,
{
    assert(p2(42) == 0x400_0000_0000) by {
        reveal_with_fuel(p2, 44);
    }
}

proof fn lemma_p2_68()
    ensures
        p2(68) == 0x10_0000_0000_0000_0000,
{
    lemma_p2_62();
    lemma_p2_adds(62, 6);
    assert(p2(6) == 64) by {
        reveal_with_fuel(p2, 8);
    }
}

/// The round-trip law for the decimal linear transform: the encoded
/// register y differs from the exact quantity (m * value + b) * 10^R by at
/// most half a unit. Decoding is an exact fraction, so the decoded value
/// differs from the value encoded by exactly that rounding error divided by
/// m * 10^R: the tolerance scales with the format's step and nothing else.
pub proof fn lemma_direct_round_trip(m: int, b: int, r: int, sig: int, exp: int)
    ensures
        2 * abs(dc_y(m, b, r, sig, exp) * dc_den(r, exp) - dc_num(m, b, r, sig, exp)) <= dc_den(
            r,
            exp,
        ),
{
    lemma_dc_den_pos(r, exp);
    lemma_rhaz_bound(dc_num(m, b, r, sig, exp), dc_den(r, exp));
}

/// With a zero slope or a zero value the whole m * value term vanishes and
/// the encoded quantity is b * 10^R exactly.
proof fn lemma_dc_zero_term(m: int, b: int, r: int, sig: int, exp: int)
    requires
        m == 0 || sig == 0,
    ensures
        ({
            let re = dc_r_eff(r);
            let n10 = if re >= 0 {
                p10(re)
            } else {
                1int
            };
            let d10 = if re >= 0 {
                1int
            } else {
                p10(-re)
            };
            dc_y(m, b, r, sig, exp) == rhaz(b * n10, d10)
        }),
{
    let re = dc_r_eff(r);
    let n10 = if re >= 0 {
        p10(re)
    } else {
        1int
    };
    let d10 = if re >= 0 {
        1int
    } else {
        p10(-re)
    };
    lemma_p10_pos(-re);
    assert(m * sig == 0) by (nonlinear_arith)
        requires
            m == 0 || sig == 0,
    ;
    if exp >= 0 {
        assert(m * sig * p2(exp) == 0) by (nonlinear_arith)
            requires
                m * sig == 0,
        ;
        assert(dc_num(m, b, r, sig, exp) == b * n10);
    } else {
        lemma_p2_pos(-exp);
        assert(dc_num(m, b, r, sig, exp) == (b * p2(-exp)) * n10);
        assert((b * p2(-exp)) * n10 == p2(-exp) * (b * n10)) by (nonlinear_arith);
        assert(dc_den(r, exp) == p2(-exp) * d10);
        lemma_rhaz_cancel(p2(-exp), b * n10, d10);
    }
}

/// In the deep regime (exp at most -69) the m * value term is too small to
/// move the rounding of b * 10^R except exactly on a tie, and the computed
/// nudge matches the exact rounding.
proof fn lemma_dc_deep(
    m: int,
    b: int,
    r: int,
    sig: int,
    exp: int,
    an: int,
    ad: int,
    en: int,
    y0: int,
    y: int,
)
    requires
        -0x8000 <= m <= 0x7FFF,
        m != 0,
        -0x8000 <= b <= 0x7FFF,
        -0x100_0000 < sig < 0x100_0000,
        sig != 0,
        -149 <= exp <= -69,
        ({
            let re = dc_r_eff(r);
            let n10 = if re >= 0 {
                p10(re)
            } else {
                1int
            };
            let d10 = if re >= 0 {
                1int
            } else {
                p10(-re)
            };
            an == b * n10 && ad == d10 && en == m * sig * n10
        }),
        y0 == rhaz(an, ad),
        y == (if en > 0 {
            if 2 * an == 2 * y0 * ad + ad {
                y0 + 1
            } else {
                y0
            }
        } else {
            if 2 * an == 2 * y0 * ad - ad {
                y0 - 1
            } else {
                y0
            }
        }),
    ensures
        y == dc_y(m, b, r, sig, exp),
{
    let re = dc_r_eff(r);
    let n10 = if re >= 0 {
        p10(re)
    } else {
        1int
    };
    let d10 = if re >= 0 {
        1int
    } else {
        p10(-re)
    };
    let p = -exp;
    lemma_p10_pos(re);
    lemma_p10_pos(-re);
    lemma_p10_mono(re, 8);
    lemma_p10_mono(-re, 8);
    lemma_p10_8();
    lemma_p2_pos(p);
    lemma_p2_mono(67, p);
    lemma_p2_67();
    let ed = p2(p) * d10;
    assert(en != 0) by (nonlinear_arith)
        requires
            m != 0,
            sig != 0,
            n10 >= 1,
            en == m * sig * n10,
    ;
    assert(2 * abs(en) * ad < ed) by (nonlinear_arith)
        requires
            en == m * sig * n10,
            -0x8000 <= m <= 0x7FFF,
            -0x100_0000 < sig < 0x100_0000,
            1 <= n10 <= 100_000_000,
            1 <= ad <= 100_000_000,
            ad == d10,
            ed == p2(p) * d10,
            p2(p) >= 0x8_0000_0000_0000_0000,
    ;
    assert(ed > 0) by (nonlinear_arith)
        requires
            ed == p2(p) * d10,
            p2(p) >= 1,
            d10 >= 1,
    ;
    lemma_rhaz_perturb(an, ad, en, ed);
    // The perturbed fraction is the exact encoded quantity, up to the common
    // factor d10.
    let xn = an * ed + en * ad;
    let xd = ad * ed;
    let dn = (m * sig + b * p2(p)) * n10;
    let dd = p2(p) * d10;
    assert(dc_num(m, b, r, sig, exp) == dn);
    assert(dc_den(r, exp) == dd);
    assert(xn == d10 * dn) by (nonlinear_arith)
        requires
            xn == an * ed + en * ad,
            an == b * n10,
            ad == d10,
            en == m * sig * n10,
            ed == p2(p) * d10,
            dn == (m * sig + b * p2(p)) * n10,
    ;
    assert(xd == d10 * dd) by (nonlinear_arith)
        requires
            xd == ad * ed,
            ad == d10,
            ed == p2(p) * d10,
            dd == p2(p) * d10,
    ;
    lemma_dc_den_pos(r, exp);
    lemma_rhaz_cancel(d10, dn, dd);
    assert(2 * an == (2 * y0 + 1) * ad <==> 2 * an == 2 * y0 * ad + ad) by (nonlinear_arith);
    assert(2 * an == (2 * y0 - 1) * ad <==> 2 * an == 2 * y0 * ad - ad) by (nonlinear_arith);
}

} // verus!
