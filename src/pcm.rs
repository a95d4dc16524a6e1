use vstd::arithmetic::power2::{lemma2_to64, lemma_pow2_strictly_increases, pow2};
use vstd::prelude::*;

verus! {

/// The fixed-point value of the amplitude 1.0 (24 fractional bits).
pub const FULL_SCALE: i32 = 16777216;

/// The sample `x` limited to the amplitude range [-1, 1].
pub open spec fn clamp_unit(x: int) -> int {
    if x < -(FULL_SCALE as int) {
        -(FULL_SCALE as int)
    } else if x > FULL_SCALE as int {
        FULL_SCALE as int
    } else {
        x
    }
}

/// Limits a sample to the amplitude range [-1, 1].
pub fn clamp_sample(x: i64) -> (r: i32)
    ensures
        r as int == clamp_unit(x as int),
{
    if x < -(FULL_SCALE as i64) {
        -FULL_SCALE
    } else if x > FULL_SCALE as i64 {
        FULL_SCALE
    } else {
        x as i32
    }
}

/// Biased exponent field of a 32-bit float.
pub open spec fn f32_exponent(bits: u32) -> nat {
    ((bits as nat) / 0x80_0000) % 256
}

/// Fraction field of a 32-bit float.
pub open spec fn f32_fraction(bits: u32) -> nat {
    (bits as nat) % 0x80_0000
}

/// `|x| * FULL_SCALE`, rounded toward zero, for a finite float `x` with the
/// bit pattern `bits`: its significand scaled by `2^(exponent - 126)`.
pub open spec fn finite_fixed_magnitude(bits: u32) -> nat {
    let e = f32_exponent(bits);
    let m = f32_fraction(bits);
    let sig = if e == 0 { m } else { m + 0x80_0000 };
    let ee: nat = if e == 0 { 1 } else { e };
    if ee >= 126 {
        sig * pow2((ee - 126) as nat)
    } else {
        sig / pow2((126 - ee) as nat)
    }
}

/// The fixed-point sample of the 32-bit float with the bit pattern `bits`:
/// its value times `FULL_SCALE`, rounded toward zero and held inside the
/// range of `i32`; NaN gives 0.
pub open spec fn fixed_from_f32_bits_spec(bits: u32) -> int {
    let neg = bits >= 0x8000_0000;
    let e = f32_exponent(bits);
    if e == 255 && f32_fraction(bits) != 0 {
        0
    } else {
        let mag: nat = if e == 255 { 0x8000_0000 } else { finite_fixed_magnitude(bits) };
        if neg {
            if mag >= 0x8000_0000 { i32::MIN as int } else { -mag }
        } else {
            if mag > i32::MAX { i32::MAX as int } else { mag as int }
        }
    }
}

fn pow2_u64(k: u32) -> (r: u64)
    requires
        k < 64,
    ensures
        r as nat == pow2(k as nat),
{
    proof {
        lemma2_to64();
    }
    let mut r: u64 = 1;
    let mut i: u32 = 0;
    while i < k
        invariant
            i <= k < 64,
            r as nat == pow2(i as nat),
        decreases k - i,
    {
        proof {
            lemma2_to64();
            vstd::arithmetic::power2::lemma_pow2_unfold((i + 1) as nat);
            lemma_pow2_strictly_increases((i + 1) as nat, 64);
        }
        r = r * 2;
        i = i + 1;
    }
    r
}

/// Converts a 32-bit float, given by its bit pattern, to a fixed-point
/// sample.
pub fn fixed_from_f32_bits(bits: u32) -> (r: i32)
    ensures
        r as int == fixed_from_f32_bits_spec(bits),
{
    let e: u32 = (bits >> 23u32) & 0xffu32;
    let m: u32 = bits & 0x7f_ffffu32;
    proof {
        assert((bits >> 23u32) & 0xffu32 == (bits / 0x80_0000u32) % 256u32) by (bit_vector);
        assert(bits & 0x7f_ffffu32 == bits % 0x80_0000u32) by (bit_vector);
    }
    let neg = bits >= 0x8000_0000u32;
    if e == 255 && m != 0 {
        return 0;
    }
    let mag: u64 = if e == 255 {
        0x8000_0000u64
    } else {
        let sig: u64 = if e == 0 { m as u64 } else { m as u64 + 0x80_0000u64 };
        let ee: u32 = if e == 0 { 1 } else { e };
        if ee >= 126 {
            let k = ee - 126;
            if k >= 8 {
                proof {
                    lemma2_to64();
                    if k > 8 {
                        lemma_pow2_strictly_increases(8, k as nat);
                    }
                    assert(sig * pow2(k as nat) >= 0x80_0000 * 256) by (nonlinear_arith)
                        requires sig >= 0x80_0000, pow2(k as nat) >= 256;
                }
                0x8000_0000u64
            } else {
                proof {
                    lemma2_to64();
                    assert(sig * pow2(k as nat) < 0x100_0000 * 256) by (nonlinear_arith)
                        requires sig < 0x100_0000, pow2(k as nat) <= 128;
                }
                sig * pow2_u64(k)
            }
        } else {
            let k = 126 - ee;
            if k >= 24 {
                proof {
                    lemma2_to64();
                    if k > 24 {
                        lemma_pow2_strictly_increases(24, k as nat);
                    }
                    vstd::arithmetic::div_mod::lemma_basic_div(sig as int, pow2(k as nat) as int);
                }
                0
            } else {
                proof {
                    lemma2_to64();
                }
                sig / pow2_u64(k)
            }
        }
    };
    if neg {
        if mag >= 0x8000_0000u64 {
            i32::MIN
        } else {
            -(mag as i32)
        }
    } else {
        if mag > 0x7fff_ffffu64 {
            i32::MAX
        } else {
            mag as i32
        }
    }
}

/// Division rounded down, for a positive divisor.
pub fn floor_div(a: i64, d: i64) -> (r: i64)
    requires
        d > 0,
    ensures
        r as int == (a as int) / (d as int),
{
    if a >= 0 {
        a / d
    } else {
        let x: i128 = -(a as i128) + (d as i128) - 1;
        let q: i128 = x / (d as i128);
        proof {
            let xi = x as int;
            let di = d as int;
            let k = xi % di;
            vstd::arithmetic::div_mod::lemma_fundamental_div_mod(xi, di);
            assert(q == xi / di);
            assert(a == di * (-(q as int)) + (di - 1 - k)) by (nonlinear_arith)
                requires xi == di * q + k, xi == -a + di - 1;
            vstd::arithmetic::div_mod::lemma_fundamental_div_mod_converse(
                a as int,
                di,
                -(q as int),
                di - 1 - k,
            );
            assert(q >= 0) by (nonlinear_arith)
                requires xi == di * q + k, k < di, xi >= 0, di > 0;
            assert(q <= -(a as int)) by (nonlinear_arith)
                requires xi == di * q + k, 0 <= k < di, xi == -a + di - 1, di > 0, q >= 0, a < 0;
        }
        (-q) as i64
    }
}

/// The fixed-point value of an integer sample of `bits` bits:
/// `s / 2^(bits - 1)`, rounded down and held inside the range of `i32`.
pub open spec fn int_sample_spec(s: i32, bits: nat) -> int {
    let v = (s as int * FULL_SCALE as int) / (pow2((bits - 1) as nat) as int);
    if v < i32::MIN {
        i32::MIN as int
    } else if v > i32::MAX {
        i32::MAX as int
    } else {
        v
    }
}

/// Normalizes an integer sample of `bits` bits to fixed point.
pub fn int_sample_to_fixed(s: i32, bits: u16) -> (r: i32)
    requires
        1 <= bits <= 32,
    ensures
        r as int == int_sample_spec(s, bits as nat),
{
    proof {
        assert((s as int) * (FULL_SCALE as int) <= 0x8000_0000 * 0x100_0000) by (nonlinear_arith)
            requires s <= 0x7fff_ffff;
        assert((s as int) * (FULL_SCALE as int) >= -0x8000_0000 * 0x100_0000) by (nonlinear_arith)
            requires s >= -0x8000_0000;
        vstd::arithmetic::power2::lemma_pow2_pos((bits - 1) as nat);
        lemma2_to64();
        if bits - 1 < 31 {
            lemma_pow2_strictly_increases((bits - 1) as nat, 31);
        }
    }
    let d = pow2_u64((bits - 1) as u32) as i64;
    let v = floor_div(s as i64 * (FULL_SCALE as i64), d);
    if v < i32::MIN as i64 {
        i32::MIN
    } else if v > i32::MAX as i64 {
        i32::MAX
    } else {
        v as i32
    }
}

} // verus!
