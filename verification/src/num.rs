//! Integer readings of JSON numbers. A float is carried by its IEEE-754 bit pattern; turning it
//! into an integer follows Rust's `as`: truncation toward zero, saturation at the bounds, and
//! 0 for NaN.

use vstd::prelude::*;
use vstd::arithmetic::div_mod::lemma_basic_div;
use vstd::arithmetic::power2::{lemma2_to64, lemma2_to64_rest, lemma_pow2_pos, lemma_pow2_strictly_increases, pow2};
use vstd::bits::{lemma_u64_shl_is_mul, lemma_u64_shr_is_div};

use crate::json::{Json, JsonNumber, JsonV};

verus! {

/// The biased exponent field of a double.
pub open spec fn f64_exponent(bits: u64) -> u64 {
    (bits >> 52u64) & 0x7ffu64
}

/// The fraction field of a double.
pub open spec fn f64_fraction(bits: u64) -> u64 {
    bits & 0xf_ffff_ffff_ffffu64
}

pub open spec fn f64_negative(bits: u64) -> bool {
    (bits >> 63u64) == 1
}

pub open spec fn f64_is_nan(bits: u64) -> bool {
    f64_exponent(bits) == 0x7ff && f64_fraction(bits) != 0
}

pub open spec fn f64_is_infinite(bits: u64) -> bool {
    f64_exponent(bits) == 0x7ff && f64_fraction(bits) == 0
}

/// The integer part of the magnitude of a finite double.
pub open spec fn f64_trunc_magnitude(bits: u64) -> nat {
    let e = f64_exponent(bits) as nat;
    let m: nat = pow2(52) + f64_fraction(bits) as nat;
    if e == 0 {
        0
    } else if e >= 1075 {
        m * pow2((e - 1075) as nat)
    } else {
        m / pow2((1075 - e) as nat)
    }
}

/// `x as u64` for the double `x` with these bits.
pub open spec fn f64_as_u64(bits: u64) -> u64 {
    if f64_is_nan(bits) || f64_negative(bits) {
        0
    } else if f64_is_infinite(bits) || f64_trunc_magnitude(bits) > u64::MAX {
        u64::MAX
    } else {
        f64_trunc_magnitude(bits) as u64
    }
}

/// `x as i64` for the double `x` with these bits.
pub open spec fn f64_as_i64(bits: u64) -> i64 {
    if f64_is_nan(bits) {
        0
    } else if f64_is_infinite(bits) {
        if f64_negative(bits) {
            i64::MIN
        } else {
            i64::MAX
        }
    } else {
        let v: int = if f64_negative(bits) {
            -f64_trunc_magnitude(bits)
        } else {
            f64_trunc_magnitude(bits) as int
        };
        if v > i64::MAX {
            i64::MAX
        } else if v < i64::MIN {
            i64::MIN
        } else {
            v as i64
        }
    }
}

proof fn lemma_fields(bits: u64)
    ensures
        f64_exponent(bits) <= 0x7ff,
        f64_fraction(bits) < 0x10_0000_0000_0000u64,
        (f64_fraction(bits) | 0x10_0000_0000_0000u64) == f64_fraction(bits) + 0x10_0000_0000_0000u64,
        (bits >> 63u64) <= 1,
{
    assert(((bits >> 52u64) & 0x7ffu64) <= 0x7ff) by (bit_vector);
    assert((bits & 0xf_ffff_ffff_ffffu64) < 0x10_0000_0000_0000u64) by (bit_vector);
    let f = bits & 0xf_ffff_ffff_ffffu64;
    assert((f | 0x10_0000_0000_0000u64) == f + 0x10_0000_0000_0000u64) by (bit_vector)
        requires
            f < 0x10_0000_0000_0000u64,
    ;
    assert((bits >> 63u64) <= 1) by (bit_vector);
}

/// The integer part of the magnitude, for exponents from 1023 (magnitude at least 1) to 1086
/// (magnitude below 2^64).
fn trunc_magnitude(bits: u64) -> (r: u64)
    requires
        1023 <= f64_exponent(bits) <= 1086,
    ensures
        r == f64_trunc_magnitude(bits),
        f64_exponent(bits) <= 1085 ==> r < 0x8000_0000_0000_0000u64,
{
    proof {
        lemma_fields(bits);
        lemma2_to64();
        lemma2_to64_rest();
    }
    let e: u64 = (bits >> 52u64) & 0x7ffu64;
    let f: u64 = bits & 0xf_ffff_ffff_ffffu64;
    let m: u64 = f | 0x10_0000_0000_0000u64;
    assert(m == pow2(52) + f64_fraction(bits));
    if e >= 1075 {
        let s: u64 = e - 1075;
        proof {
            if s < 11 {
                lemma_pow2_strictly_increases(s as nat, 11);
            }
            assert(pow2(s as nat) <= 0x800);
            assert(m * pow2(s as nat) <= 0x1f_ffff_ffff_ffffu64 * 0x800) by (nonlinear_arith)
                requires
                    m <= 0x1f_ffff_ffff_ffffu64,
                    pow2(s as nat) <= 0x800,
            ;
            lemma_u64_shl_is_mul(m, s);
            if e <= 1085 {
                if s < 10 {
                    lemma_pow2_strictly_increases(s as nat, 10);
                }
                assert(m * pow2(s as nat) <= 0x1f_ffff_ffff_ffffu64 * 0x400) by (nonlinear_arith)
                    requires
                        m <= 0x1f_ffff_ffff_ffffu64,
                        pow2(s as nat) <= 0x400,
                ;
            }
        }
        m << s
    } else {
        let s: u64 = 1075 - e;
        proof {
            lemma_u64_shr_is_div(m, s);
            lemma_pow2_pos(s as nat);
            assert(m as nat / pow2(s as nat) <= m) by (nonlinear_arith)
                requires
                    pow2(s as nat) > 0,
            ;
        }
        m >> s
    }
}

/// `x as u64` for the double with bits `bits`.
pub fn f64_bits_as_u64(bits: u64) -> (r: u64)
    ensures
        r == f64_as_u64(bits),
{
    proof {
        lemma_fields(bits);
        lemma2_to64();
        lemma2_to64_rest();
    }
    let e: u64 = (bits >> 52u64) & 0x7ffu64;
    let f: u64 = bits & 0xf_ffff_ffff_ffffu64;
    if e == 0x7ff && f != 0 {
        return 0;
    }
    if (bits >> 63u64) == 1 {
        return 0;
    }
    if e == 0x7ff {
        return u64::MAX;
    }
    if e < 1023 {
        proof {
            if e > 0 {
                let k = (1075 - e) as nat;
                if k > 53 {
                    lemma_pow2_strictly_increases(53, k);
                }
                lemma_basic_div((pow2(52) + f) as int, pow2(k) as int);
            }
        }
        return 0;
    }
    if e >= 1087 {
        proof {
            let k = (e - 1075) as nat;
            if k > 12 {
                lemma_pow2_strictly_increases(12, k);
            }
            assert((pow2(52) + f) * pow2(k) >= 0x10_0000_0000_0000nat * 0x1000) by (nonlinear_arith)
                requires
                    pow2(52) + f >= 0x10_0000_0000_0000nat,
                    pow2(k) >= 0x1000,
            ;
        }
        return u64::MAX;
    }
    trunc_magnitude(bits)
}

/// `x as i64` for the double with bits `bits`.
pub fn f64_bits_as_i64(bits: u64) -> (r: i64)
    ensures
        r == f64_as_i64(bits),
{
    proof {
        lemma_fields(bits);
        lemma2_to64();
        lemma2_to64_rest();
    }
    let e: u64 = (bits >> 52u64) & 0x7ffu64;
    let f: u64 = bits & 0xf_ffff_ffff_ffffu64;
    let negative = (bits >> 63u64) == 1;
    if e == 0x7ff {
        if f != 0 {
            return 0;
        }
        return if negative {
            i64::MIN
        } else {
            i64::MAX
        };
    }
    if e < 1023 {
        proof {
            if e > 0 {
                let k = (1075 - e) as nat;
                if k > 53 {
                    lemma_pow2_strictly_increases(53, k);
                }
                lemma_basic_div((pow2(52) + f) as int, pow2(k) as int);
            }
        }
        return 0;
    }
    if e >= 1086 {
        proof {
            let k = (e - 1075) as nat;
            if k > 11 {
                lemma_pow2_strictly_increases(11, k);
            }
            assert((pow2(52) + f) * pow2(k) >= 0x10_0000_0000_0000nat * 0x800) by (nonlinear_arith)
                requires
                    pow2(52) + f >= 0x10_0000_0000_0000nat,
                    pow2(k) >= 0x800,
            ;
        }
        return if negative {
            i64::MIN
        } else {
            i64::MAX
        };
    }
    let u = trunc_magnitude(bits);
    let v: i64 = u as i64;
    if negative {
        -v
    } else {
        v
    }
}

/// `as_u64`, else `as_f64` cast to `u64` (negative integers and floats read as 0).
pub open spec fn number_u64_or_cast(n: JsonNumber) -> u64 {
    match n {
        JsonNumber::PosInt(u) => u,
        JsonNumber::NegInt(i) => if i < 0 {
            0
        } else {
            i as u64
        },
        JsonNumber::Float(b) => f64_as_u64(b),
    }
}

/// `as_i64`, else `as_f64` cast to `i64`.
pub open spec fn number_i64_or_cast(n: JsonNumber) -> i64 {
    match n {
        JsonNumber::PosInt(u) => if u <= i64::MAX {
            u as i64
        } else {
            i64::MAX
        },
        JsonNumber::NegInt(i) => i,
        JsonNumber::Float(b) => f64_as_i64(b),
    }
}

/// A JSON value read as an unsigned integer the lenient way: integers as they are (negative
/// ones as 0), floats cast.
pub open spec fn json_u64_lenient(j: JsonV) -> Option<u64> {
    match j {
        JsonV::Number(n) => Some(number_u64_or_cast(n)),
        _ => None,
    }
}

/// A JSON value read as a signed integer the lenient way: integers as they are (saturating
/// at `i64::MAX`), floats cast.
pub open spec fn json_i64_lenient(j: JsonV) -> Option<i64> {
    match j {
        JsonV::Number(n) => Some(number_i64_or_cast(n)),
        _ => None,
    }
}

impl Json {
    /// The value as an unsigned integer, floats cast with `as`.
    pub fn as_u64_lenient(&self) -> (r: Option<u64>)
        ensures
            r == json_u64_lenient(self@),
    {
        match self {
            Json::Number(JsonNumber::PosInt(u)) => Some(*u),
            Json::Number(JsonNumber::NegInt(i)) => if *i < 0 {
                Some(0)
            } else {
                Some(*i as u64)
            },
            Json::Number(JsonNumber::Float(b)) => Some(f64_bits_as_u64(*b)),
            _ => None,
        }
    }

    /// The value as a signed integer, floats cast with `as`.
    pub fn as_i64_lenient(&self) -> (r: Option<i64>)
        ensures
            r == json_i64_lenient(self@),
    {
        match self {
            Json::Number(JsonNumber::PosInt(u)) => if *u <= 0x7fff_ffff_ffff_ffffu64 {
                Some(*u as i64)
            } else {
                Some(0x7fff_ffff_ffff_ffffi64)
            },
            Json::Number(JsonNumber::NegInt(i)) => Some(*i),
            Json::Number(JsonNumber::Float(b)) => Some(f64_bits_as_i64(*b)),
            _ => None,
        }
    }
}

} // verus!
