//! Elementary functions on binary64 bit patterns.
//!
//! The exponential, natural logarithm, power and hyperbolic tangent are built
//! here from the primitive operations of [`crate::fp`]: argument reduction by
//! exponent manipulation, a fixed polynomial approximation, and rescaling.
//! Each executable function is verified against a spec function that mirrors
//! its computation step by step, so the result is a deterministic function of
//! the argument bit patterns alone.

use vstd::prelude::*;

use crate::fp::{
    abs_bits, add_bits, cmp_bits, div_bits, fabs, fadd, fcmp, fdiv, filogb, fis_nan, fmul, fneg,
    fscalb, fsign, fsub, gt_bits, ilogb_bits, is_nan_bits, lt_bits, mul_bits, neg_bits, scalb_bits,
    sign_bits, sub_bits, CMP_GT, CMP_LT, N_INF, N_ZERO, ONE, P_INF, P_ZERO, QNAN, TWO,
};

verus! {

/// The encoding of `0.5`.
pub const HALF: u64 = 0x3FE0000000000000;
/// The encoding of `2.0^52 * 1.5`: adding and subtracting it rounds to an integer.
pub const ROUND_MAGIC: u64 = 0x4338000000000000;
/// The encoding of `2.0^52`.
pub const TWO52: u64 = 0x4330000000000000;
/// The encoding of `1/ln 2`.
pub const INV_LN2: u64 = 0x3FF71547652B82FE;
/// The high part of `ln 2`, with zeroed tail bits.
pub const LN2_HI: u64 = 0x3FE62E42FEE00000;
/// The low part of `ln 2`.
pub const LN2_LO: u64 = 0x3DEA39EF35793C76;
/// The largest argument whose exponential is finite.
pub const EXP_HI: u64 = 0x40862E42FEFA39EF;
/// The smallest argument whose exponential is above zero.
pub const EXP_LO: u64 = 0xC0874910D52D3052;
/// The encoding of the square root of two.
pub const SQRT2: u64 = 0x3FF6A09E667F3BCD;
/// The encoding of `2.0^-28`: below it, the hyperbolic tangent is its argument.
pub const TANH_TINY: u64 = 0x3E30000000000000;
/// The encoding of `20.0`: above it, the hyperbolic tangent rounds to one.
pub const TANH_BIG: u64 = 0x4034000000000000;

/// The encodings of `1/n!` for `n` from 2 to 13.
pub const FAC2: u64 = 0x3FE0000000000000;
pub const FAC3: u64 = 0x3FC5555555555555;
pub const FAC4: u64 = 0x3FA5555555555555;
pub const FAC5: u64 = 0x3F81111111111111;
pub const FAC6: u64 = 0x3F56C16C16C16C17;
pub const FAC7: u64 = 0x3F2A01A01A01A01A;
pub const FAC8: u64 = 0x3EFA01A01A01A01A;
pub const FAC9: u64 = 0x3EC71DE3A556C734;
pub const FAC10: u64 = 0x3E927E4FB7789F5C;
pub const FAC11: u64 = 0x3E5AE64567F544E4;
pub const FAC12: u64 = 0x3E21EED8EFF8D898;
pub const FAC13: u64 = 0x3DE6124613A86D09;

/// The encodings of `1/(2k+1)` for `k` from 1 to 9.
pub const LC3: u64 = 0x3FD5555555555555;
pub const LC5: u64 = 0x3FC999999999999A;
pub const LC7: u64 = 0x3FC2492492492492;
pub const LC9: u64 = 0x3FBC71C71C71C71C;
pub const LC11: u64 = 0x3FB745D1745D1746;
pub const LC13: u64 = 0x3FB3B13B13B13B14;
pub const LC15: u64 = 0x3FB1111111111111;
pub const LC17: u64 = 0x3FAE1E1E1E1E1E1E;
pub const LC19: u64 = 0x3FAAF286BCA1AF28;

/// The value truncated toward zero, clamped to `[-2^30, 2^30]`.
pub open spec fn trunc_clamp(x: u64) -> i32 {
    let ef = (x >> 52) & 0x7FF;
    if ef >= 0x41E {
        if x >> 63 == 1 {
            (-0x40000000) as i32
        } else {
            0x40000000 as i32
        }
    } else if ef < 0x3FF {
        0 as i32
    } else {
        let m = (x & 0x000FFFFFFFFFFFFF) | 0x0010000000000000;
        let mag = m >> ((0x433 - ef) as u64);
        if x >> 63 == 1 {
            (0 - mag as i64) as i32
        } else {
            mag as i32
        }
    }
}

/// Truncate toward zero, clamped to `[-2^30, 2^30]`.
pub fn ftrunc_clamp(x: u64) -> (r: i32)
    ensures
        r == trunc_clamp(x),
{
    let ef: u64 = (x >> 52) & 0x7FF;
    if ef >= 0x41E {
        if x >> 63 == 1 {
            -0x40000000
        } else {
            0x40000000
        }
    } else if ef < 0x3FF {
        0
    } else {
        let m: u64 = (x & 0x000FFFFFFFFFFFFF) | 0x0010000000000000;
        let sh: u64 = 0x433 - ef;
        assert(m < 0x20000000000000u64) by (bit_vector)
            requires
                m == (x & 0x000FFFFFFFFFFFFF) | 0x0010000000000000,
        ;
        assert(m >> sh < 0x80000000u64) by (bit_vector)
            requires
                m < 0x20000000000000u64 && 22 <= sh < 64,
        ;
        let mag: u64 = m >> sh;
        if x >> 63 == 1 {
            (0 - mag as i64) as i32
        } else {
            mag as i32
        }
    }
}

/// Whether the value is an integer, and if so whether it is odd.
pub open spec fn int_class(x: u64) -> (bool, bool) {
    let ef = (x >> 52) & 0x7FF;
    if abs_bits(x) == 0 {
        (true, false)
    } else if ef == 0x7FF || ef < 0x3FF {
        (false, false)
    } else {
        let m = (x & 0x000FFFFFFFFFFFFF) | 0x0010000000000000;
        if ef >= 0x434 {
            (true, false)
        } else if ef == 0x433 {
            (true, m & 1 == 1)
        } else {
            let frac = (0x433 - ef) as u64;
            if m & (((1u64 << frac) - 1) as u64) == 0 {
                (true, (m >> frac) & 1 == 1)
            } else {
                (false, false)
            }
        }
    }
}

/// Whether the value is an integer, and if so whether it is odd.
pub fn fint_class(x: u64) -> (r: (bool, bool))
    ensures
        r == int_class(x),
{
    let ef: u64 = (x >> 52) & 0x7FF;
    if x & 0x7FFFFFFFFFFFFFFF == 0 {
        (true, false)
    } else if ef == 0x7FF || ef < 0x3FF {
        (false, false)
    } else {
        let m: u64 = (x & 0x000FFFFFFFFFFFFF) | 0x0010000000000000;
        if ef >= 0x434 {
            (true, false)
        } else if ef == 0x433 {
            (true, m & 1 == 1)
        } else {
            let frac: u64 = 0x433 - ef;
            assert(1u64 << frac >= 1) by (bit_vector)
                requires
                    frac < 53u64,
            ;
            if m & ((1u64 << frac) - 1) == 0 {
                (true, (m >> frac) & 1 == 1)
            } else {
                (false, false)
            }
        }
    }
}

/// The exact encoding of a small integer, for magnitudes up to `2^30`.
pub open spec fn int_to_bits(k: i32) -> u64 {
    if k == 0 {
        P_ZERO
    } else if k > 0 {
        sub_bits(TWO52 | (k as u64), TWO52)
    } else {
        neg_bits(sub_bits(TWO52 | ((0 - k as i64) as u64), TWO52))
    }
}

/// The exact encoding of a small integer, for magnitudes up to `2^30`.
pub fn fint_to_bits(k: i32) -> (r: u64)
    ensures
        r == int_to_bits(k),
{
    if k == 0 {
        P_ZERO
    } else if k > 0 {
        fsub(TWO52 | (k as u64), TWO52)
    } else {
        fneg(fsub(TWO52 | ((0 - k as i64) as u64), TWO52))
    }
}

/// The exponential: reduce by `x = k ln2 + r`, evaluate the Taylor polynomial
/// of degree 13 at `r` by Horner's rule, and rescale by `2^k`.
pub open spec fn exp_bits(x: u64) -> u64 {
    if is_nan_bits(x) {
        QNAN
    } else if gt_bits(x, EXP_HI) {
        P_INF
    } else if lt_bits(x, EXP_LO) {
        P_ZERO
    } else {
        let t = mul_bits(x, INV_LN2);
        let kf = sub_bits(add_bits(t, ROUND_MAGIC), ROUND_MAGIC);
        let k = trunc_clamp(kf);
        let hi = sub_bits(x, mul_bits(kf, LN2_HI));
        let r = sub_bits(hi, mul_bits(kf, LN2_LO));
        let p13 = FAC13;
        let p12 = add_bits(mul_bits(p13, r), FAC12);
        let p11 = add_bits(mul_bits(p12, r), FAC11);
        let p10 = add_bits(mul_bits(p11, r), FAC10);
        let p9 = add_bits(mul_bits(p10, r), FAC9);
        let p8 = add_bits(mul_bits(p9, r), FAC8);
        let p7 = add_bits(mul_bits(p8, r), FAC7);
        let p6 = add_bits(mul_bits(p7, r), FAC6);
        let p5 = add_bits(mul_bits(p6, r), FAC5);
        let p4 = add_bits(mul_bits(p5, r), FAC4);
        let p3 = add_bits(mul_bits(p4, r), FAC3);
        let p2 = add_bits(mul_bits(p3, r), FAC2);
        let p1 = add_bits(mul_bits(p2, r), ONE);
        let p0 = add_bits(mul_bits(p1, r), ONE);
        scalb_bits(p0, k)
    }
}

/// The exponential of a binary64 value.
pub fn fexp(x: u64) -> (r: u64)
    ensures
        r == exp_bits(x),
{
    if fis_nan(x) {
        return QNAN;
    }
    if fcmp(x, EXP_HI) == CMP_GT {
        return P_INF;
    }
    if fcmp(x, EXP_LO) == CMP_LT {
        return P_ZERO;
    }
    let t = fmul(x, INV_LN2);
    let kf = fsub(fadd(t, ROUND_MAGIC), ROUND_MAGIC);
    let k = ftrunc_clamp(kf);
    let hi = fsub(x, fmul(kf, LN2_HI));
    let r = fsub(hi, fmul(kf, LN2_LO));
    let mut p = FAC13;
    p = fadd(fmul(p, r), FAC12);
    p = fadd(fmul(p, r), FAC11);
    p = fadd(fmul(p, r), FAC10);
    p = fadd(fmul(p, r), FAC9);
    p = fadd(fmul(p, r), FAC8);
    p = fadd(fmul(p, r), FAC7);
    p = fadd(fmul(p, r), FAC6);
    p = fadd(fmul(p, r), FAC5);
    p = fadd(fmul(p, r), FAC4);
    p = fadd(fmul(p, r), FAC3);
    p = fadd(fmul(p, r), FAC2);
    p = fadd(fmul(p, r), ONE);
    p = fadd(fmul(p, r), ONE);
    fscalb(p, k)
}

/// The natural logarithm: write `x = m 2^k` with `m` near one, evaluate the
/// series of `artanh((m-1)/(m+1))` at `m`, and add back `k ln 2`.
pub open spec fn ln_bits(x: u64) -> u64 {
    if is_nan_bits(x) {
        QNAN
    } else if abs_bits(x) == 0 {
        N_INF
    } else if sign_bits(x) {
        QNAN
    } else if x == P_INF {
        P_INF
    } else {
        let k0 = ilogb_bits(x);
        let kc: i32 = if k0 < -1074 {
            (-1074) as i32
        } else if k0 > 1023 {
            1023 as i32
        } else {
            k0
        };
        let m0 = scalb_bits(x, (0 - kc as i64) as i32);
        let big = gt_bits(m0, SQRT2);
        let m = if big {
            mul_bits(m0, HALF)
        } else {
            m0
        };
        let k: i32 = if big {
            (kc as i64 + 1) as i32
        } else {
            kc
        };
        let s = div_bits(sub_bits(m, ONE), add_bits(m, ONE));
        let z = mul_bits(s, s);
        let h9 = LC19;
        let h8 = add_bits(mul_bits(h9, z), LC17);
        let h7 = add_bits(mul_bits(h8, z), LC15);
        let h6 = add_bits(mul_bits(h7, z), LC13);
        let h5 = add_bits(mul_bits(h6, z), LC11);
        let h4 = add_bits(mul_bits(h5, z), LC9);
        let h3 = add_bits(mul_bits(h4, z), LC7);
        let h2 = add_bits(mul_bits(h3, z), LC5);
        let h1 = add_bits(mul_bits(h2, z), LC3);
        let h0 = add_bits(mul_bits(h1, z), ONE);
        let lnm = mul_bits(mul_bits(TWO, s), h0);
        let kf = int_to_bits(k);
        add_bits(mul_bits(kf, LN2_HI), add_bits(lnm, mul_bits(kf, LN2_LO)))
    }
}

/// The natural logarithm of a binary64 value.
pub fn fln(x: u64) -> (r: u64)
    ensures
        r == ln_bits(x),
{
    if fis_nan(x) {
        return QNAN;
    }
    if fabs(x) == 0 {
        return N_INF;
    }
    if fsign(x) {
        return QNAN;
    }
    if x == P_INF {
        return P_INF;
    }
    let k0 = filogb(x);
    let kc: i32 = if k0 < -1074 {
        -1074
    } else if k0 > 1023 {
        1023
    } else {
        k0
    };
    let m0 = fscalb(x, (0 - kc as i64) as i32);
    let big = fcmp(m0, SQRT2) == CMP_GT;
    let m = if big {
        fmul(m0, HALF)
    } else {
        m0
    };
    let k: i32 = if big {
        (kc as i64 + 1) as i32
    } else {
        kc
    };
    let s = fdiv(fsub(m, ONE), fadd(m, ONE));
    let z = fmul(s, s);
    let mut h = LC19;
    h = fadd(fmul(h, z), LC17);
    h = fadd(fmul(h, z), LC15);
    h = fadd(fmul(h, z), LC13);
    h = fadd(fmul(h, z), LC11);
    h = fadd(fmul(h, z), LC9);
    h = fadd(fmul(h, z), LC7);
    h = fadd(fmul(h, z), LC5);
    h = fadd(fmul(h, z), LC3);
    h = fadd(fmul(h, z), ONE);
    let lnm = fmul(fmul(TWO, s), h);
    let kf = fint_to_bits(k);
    fadd(fmul(kf, LN2_HI), fadd(lnm, fmul(kf, LN2_LO)))
}

/// The power function, with the IEEE 754 special cases for zero, unit and
/// infinite bases and exponents; a finite negative base is accepted for
/// integer exponents and yields a not-a-number otherwise.
pub open spec fn pow_bits(x: u64, e: u64) -> u64 {
    if e == P_ZERO || e == N_ZERO {
        ONE
    } else if x == ONE {
        ONE
    } else if is_nan_bits(x) || is_nan_bits(e) {
        QNAN
    } else if e == P_INF || e == N_INF {
        let c = cmp_bits(abs_bits(x), ONE);
        if c == CMP_EQ_CODE {
            ONE
        } else if (c == CMP_GT) == (e == P_INF) {
            P_INF
        } else {
            P_ZERO
        }
    } else {
        let cls = int_class(e);
        let eint = cls.0;
        let eodd = cls.1;
        if abs_bits(x) == 0 {
            if sign_bits(e) {
                if eint && eodd && sign_bits(x) {
                    N_INF
                } else {
                    P_INF
                }
            } else {
                if eint && eodd {
                    x
                } else {
                    P_ZERO
                }
            }
        } else if x == P_INF {
            if sign_bits(e) {
                P_ZERO
            } else {
                P_INF
            }
        } else if x == N_INF {
            if sign_bits(e) {
                if eint && eodd {
                    N_ZERO
                } else {
                    P_ZERO
                }
            } else {
                if eint && eodd {
                    N_INF
                } else {
                    P_INF
                }
            }
        } else if sign_bits(x) {
            if !eint {
                QNAN
            } else {
                let r = exp_bits(mul_bits(e, ln_bits(abs_bits(x))));
                if eodd {
                    neg_bits(r)
                } else {
                    r
                }
            }
        } else {
            exp_bits(mul_bits(e, ln_bits(x)))
        }
    }
}

/// `fcmp` equality code, repeated here for use inside spec bodies.
pub const CMP_EQ_CODE: u8 = 1;

/// Raise a binary64 value to a binary64 power.
pub fn fpow(x: u64, e: u64) -> (r: u64)
    ensures
        r == pow_bits(x, e),
{
    if e == P_ZERO || e == N_ZERO {
        return ONE;
    }
    if x == ONE {
        return ONE;
    }
    if fis_nan(x) || fis_nan(e) {
        return QNAN;
    }
    if e == P_INF || e == N_INF {
        let c = fcmp(fabs(x), ONE);
        if c == CMP_EQ_CODE {
            return ONE;
        } else if (c == CMP_GT) == (e == P_INF) {
            return P_INF;
        } else {
            return P_ZERO;
        }
    }
    let cls = fint_class(e);
    let eint = cls.0;
    let eodd = cls.1;
    if fabs(x) == 0 {
        if fsign(e) {
            if eint && eodd && fsign(x) {
                N_INF
            } else {
                P_INF
            }
        } else {
            if eint && eodd {
                x
            } else {
                P_ZERO
            }
        }
    } else if x == P_INF {
        if fsign(e) {
            P_ZERO
        } else {
            P_INF
        }
    } else if x == N_INF {
        if fsign(e) {
            if eint && eodd {
                N_ZERO
            } else {
                P_ZERO
            }
        } else {
            if eint && eodd {
                N_INF
            } else {
                P_INF
            }
        }
    } else if fsign(x) {
        if !eint {
            QNAN
        } else {
            let r = fexp(fmul(e, fln(fabs(x))));
            if eodd {
                fneg(r)
            } else {
                r
            }
        }
    } else {
        fexp(fmul(e, fln(x)))
    }
}

/// The hyperbolic tangent, via `tanh |x| = (E - 1) / (E + 1)` with
/// `E = exp(2 |x|)`, reflected to the sign of the argument.
pub open spec fn tanh_bits(x: u64) -> u64 {
    if is_nan_bits(x) {
        QNAN
    } else {
        let ax = abs_bits(x);
        if gt_bits(ax, TANH_BIG) {
            if sign_bits(x) {
                neg_bits(ONE)
            } else {
                ONE
            }
        } else if lt_bits(ax, TANH_TINY) {
            x
        } else {
            let q = exp_bits(mul_bits(TWO, ax));
            let t = div_bits(sub_bits(q, ONE), add_bits(q, ONE));
            if sign_bits(x) {
                neg_bits(t)
            } else {
                t
            }
        }
    }
}

/// The hyperbolic tangent of a binary64 value.
pub fn ftanh(x: u64) -> (r: u64)
    ensures
        r == tanh_bits(x),
{
    if fis_nan(x) {
        return QNAN;
    }
    let ax = fabs(x);
    if fcmp(ax, TANH_BIG) == CMP_GT {
        if fsign(x) {
            fneg(ONE)
        } else {
            ONE
        }
    } else if fcmp(ax, TANH_TINY) == CMP_LT {
        x
    } else {
        let q = fexp(fmul(TWO, ax));
        let t = fdiv(fsub(q, ONE), fadd(q, ONE));
        if fsign(x) {
            fneg(t)
        } else {
            t
        }
    }
}

} // verus!
