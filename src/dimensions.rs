use vstd::prelude::*;
use vstd::arithmetic::power2::{pow2, lemma2_to64, lemma_pow2_adds, lemma_pow2_pos, lemma_pow2_strictly_increases, lemma_pow2_unfold};
use vstd::arithmetic::div_mod::{lemma_basic_div, lemma_div_is_ordered, lemma_div_is_ordered_by_denominator, lemma_div_by_multiple};
use vstd::arithmetic::mul::lemma_mul_inequality;

verus! {

/// Bit pattern of the first IEEE-754 single-precision value that is not
/// finite (positive infinity).
pub const F32_INFINITY_BITS: u32 = 0x7F80_0000;

/// Number of explicit mantissa bits of a single-precision float.
pub const F32_MANTISSA_BITS: u32 = 23;

/// A bit pattern that encodes a strictly positive, finite `f32`.
pub open spec fn is_positive_finite(bits: u32) -> bool {
    0 < bits < F32_INFINITY_BITS
}

/// Integer significand of a positive `f32` bit pattern (the implicit leading
/// one included for normal numbers).
pub open spec fn f32_significand(bits: u32) -> nat {
    let frac = (bits as nat) % pow2(F32_MANTISSA_BITS as nat);
    if (bits as nat) / pow2(F32_MANTISSA_BITS as nat) == 0 {
        frac
    } else {
        frac + pow2(F32_MANTISSA_BITS as nat)
    }
}

/// Binary exponent of a positive `f32` bit pattern: its value is
/// `f32_significand(bits) * 2^f32_exponent(bits)`.
pub open spec fn f32_exponent(bits: u32) -> int {
    let biased = (bits as nat) / pow2(F32_MANTISSA_BITS as nat);
    (if biased == 0 { 1 } else { biased as int }) - 150
}

/// `floor(n * 2^e / d)`, the exact truncated value of a scaled ratio.
pub open spec fn floor_scaled(n: nat, e: int, d: nat) -> nat {
    if e >= 0 {
        (n * pow2(e as nat)) / d
    } else {
        n / (d * pow2((-e) as nat))
    }
}

/// An integer cast to `u32` that saturates at the largest value.
pub open spec fn saturate_u32(x: nat) -> u32 {
    if x > u32::MAX { u32::MAX } else { x as u32 }
}

/// The natural size a vector document declares for itself, held as the bit
/// patterns of its two single-precision lengths.
#[derive(Clone, Copy, Debug, PartialEq, Eq)]
pub struct IntrinsicSize {
    pub width_bits: u32,
    pub height_bits: u32,
}

impl IntrinsicSize {
    /// Both lengths are strictly positive and finite.
    pub open spec fn wf(self) -> bool {
        is_positive_finite(self.width_bits) && is_positive_finite(self.height_bits)
    }

    /// Builds a size from two `f32` bit patterns; `None` unless both encode a
    /// strictly positive, finite length.
    pub fn from_bits(width_bits: u32, height_bits: u32) -> (r: Option<IntrinsicSize>)
        ensures
            r == (if is_positive_finite(width_bits) && is_positive_finite(height_bits) {
                Some(IntrinsicSize { width_bits, height_bits })
            } else {
                None::<IntrinsicSize>
            }),
    {
        if 0 < width_bits && width_bits < F32_INFINITY_BITS && 0 < height_bits && height_bits
            < F32_INFINITY_BITS {
            Some(IntrinsicSize { width_bits, height_bits })
        } else {
            None
        }
    }
}

/// Output pixel dimensions for the requested width and height. Both given:
/// used as they are. One given: the other is `given * other / this`
/// of the intrinsic lengths, truncated. Neither: the intrinsic lengths
/// truncated. Truncation toward zero saturates at `u32::MAX`, like an integer
/// cast of a float.
pub open spec fn resolved_dimensions(width: Option<u32>, height: Option<u32>, size: IntrinsicSize) -> (u32, u32) {
    let (mw, ew) = (f32_significand(size.width_bits), f32_exponent(size.width_bits));
    let (mh, eh) = (f32_significand(size.height_bits), f32_exponent(size.height_bits));
    match (width, height) {
        (Some(w), Some(h)) => (w, h),
        (Some(w), None) => (w, saturate_u32(floor_scaled(w as nat * mh, eh - ew, mw))),
        (None, Some(h)) => (saturate_u32(floor_scaled(h as nat * mw, ew - eh, mh)), h),
        (None, None) => (saturate_u32(floor_scaled(mw, ew, 1)), saturate_u32(floor_scaled(mh, eh, 1))),
    }
}

proof fn lemma_significand_bounds(bits: u32)
    requires
        is_positive_finite(bits),
    ensures
        0 < f32_significand(bits) < pow2(24),
        -149 <= f32_exponent(bits) <= 104,
{
    lemma2_to64();
    let p = pow2(23);
    assert((bits as nat) / p < 255) by {
        lemma_div_is_ordered(bits as int, F32_INFINITY_BITS as int - 1, p as int);
    }
    assert((bits as nat) % p < p);
    if (bits as nat) / p == 0 {
        assert(bits as nat == p * ((bits as nat) / p) + (bits as nat) % p);
    }
}

/// `2^k` for `k <= 64`.
fn pow2_u128(k: u32) -> (r: u128)
    requires
        k <= 64,
    ensures
        r as nat == pow2(k as nat),
{
    proof {
        lemma2_to64();
    }
    let mut r: u128 = 1;
    let mut i: u32 = 0;
    while i < k
        invariant
            i <= k <= 64,
            r as nat == pow2(i as nat),
            pow2(64) == 0x1_0000_0000_0000_0000,
        decreases k - i,
    {
        proof {
            lemma_pow2_unfold((i + 1) as nat);
            if i + 1 < 64 {
                lemma_pow2_strictly_increases((i + 1) as nat, 64);
            }
        }
        r = r * 2;
        i = i + 1;
    }
    r
}

/// `saturate_u32(floor_scaled(n, e, d))`, computed without overflow.
fn floor_scaled_saturating(n: u64, e: i32, d: u32) -> (r: u32)
    requires
        (n as nat) < pow2(56),
        0 < d,
        (d as nat) < pow2(24),
        -300 <= e <= 300,
    ensures
        r == saturate_u32(floor_scaled(n as nat, e as int, d as nat)),
{
    proof {
        lemma2_to64();
    }
    if n == 0 {
        proof {
            if e >= 0 {
                lemma_pow2_pos(e as nat);
                assert(0 * pow2(e as nat) == 0);
            } else {
                lemma_pow2_pos((-e) as nat);
                assert(d as nat * pow2((-e) as nat) > 0) by (nonlinear_arith)
                    requires d > 0, pow2((-e) as nat) > 0;
            }
        }
        return 0;
    }
    if e >= 0 {
        if e >= 64 {
            proof {
                let p = pow2(e as nat);
                if e > 64 {
                    lemma_pow2_strictly_increases(64, e as nat);
                }
                assert(n as nat * p >= p) by (nonlinear_arith)
                    requires n >= 1, p >= 0;
                lemma_div_is_ordered(pow2(64) as int, (n as nat * p) as int, d as int);
                lemma_div_is_ordered_by_denominator(pow2(64) as int, d as int, pow2(24) as int);
                lemma_pow2_adds(40, 24);
                lemma_div_by_multiple(pow2(40) as int, pow2(24) as int);
            }
            return u32::MAX;
        }
        let p = pow2_u128(e as u32);
        proof {
            lemma_mul_inequality(n as int, pow2(56) as int, p as int);
            lemma_pow2_adds(56, e as nat);
            if 56 + e < 120 {
                lemma_pow2_strictly_increases((56 + e) as nat, 120);
            }
            assert(pow2(120) < u128::MAX) by {
                lemma_pow2_adds(32, 24);
                lemma_pow2_adds(64, 56);
            }
        }
        let q = (n as u128 * p) / (d as u128);
        if q > u32::MAX as u128 {
            u32::MAX
        } else {
            q as u32
        }
    } else {
        let k: i32 = -e;
        if k >= 64 {
            proof {
                let p = pow2(k as nat);
                if k > 64 {
                    lemma_pow2_strictly_increases(64, k as nat);
                }
                lemma_pow2_strictly_increases(56, 64);
                assert(d as nat * p >= p) by (nonlinear_arith)
                    requires d >= 1, p >= 0;
                lemma_basic_div(n as int, (d as nat * p) as int);
            }
            return 0;
        }
        let p = pow2_u128(k as u32);
        proof {
            lemma_pow2_pos(k as nat);
            lemma_mul_inequality(d as int, pow2(24) as int, p as int);
            lemma_pow2_adds(24, k as nat);
            if 24 + k < 120 {
                lemma_pow2_strictly_increases((24 + k) as nat, 120);
            }
            assert(pow2(120) < u128::MAX) by {
                lemma_pow2_adds(32, 24);
                lemma_pow2_adds(64, 56);
            }
            assert(d as nat * p > 0) by (nonlinear_arith)
                requires d > 0, p > 0;
        }
        let q = (n as u128) / (d as u128 * p);
        if q > u32::MAX as u128 {
            u32::MAX
        } else {
            q as u32
        }
    }
}

/// Significand and exponent of a positive, finite `f32` bit pattern.
fn decode_f32(bits: u32) -> (r: (u32, i32))
    requires
        is_positive_finite(bits),
    ensures
        r.0 as nat == f32_significand(bits),
        r.1 as int == f32_exponent(bits),
        0 < r.0 < 0x100_0000,
        -149 <= r.1 <= 104,
{
    proof {
        lemma2_to64();
        lemma_significand_bounds(bits);
    }
    let biased: u32 = bits / 0x80_0000;
    let frac: u32 = bits % 0x80_0000;
    if biased == 0 {
        (frac, 1 - 150)
    } else {
        (frac + 0x80_0000, biased as i32 - 150)
    }
}

/// Resolves the output pixel dimensions from the requested ones and the
/// document's intrinsic size.
pub fn resolve_dimensions(width: Option<u32>, height: Option<u32>, size: IntrinsicSize) -> (r: (u32, u32))
    requires
        size.wf(),
    ensures
        r == resolved_dimensions(width, height, size),
{
    let (mw, ew) = decode_f32(size.width_bits);
    let (mh, eh) = decode_f32(size.height_bits);
    proof {
        lemma2_to64();
        lemma_pow2_adds(32, 24);
    }
    match (width, height) {
        (Some(w), Some(h)) => (w, h),
        (Some(w), None) => {
            proof {
                lemma_mul_inequality(w as int, pow2(32) as int, mh as int);
                assert(pow2(32) * mh <= pow2(32) * pow2(24)) by (nonlinear_arith)
                    requires mh < pow2(24);
            }
            (w, floor_scaled_saturating(w as u64 * mh as u64, eh - ew, mw))
        },
        (None, Some(h)) => {
            proof {
                lemma_mul_inequality(h as int, pow2(32) as int, mw as int);
                assert(pow2(32) * mw <= pow2(32) * pow2(24)) by (nonlinear_arith)
                    requires mw < pow2(24);
            }
            (floor_scaled_saturating(h as u64 * mw as u64, ew - eh, mh), h)
        },
        (None, None) => {
            proof {
                lemma_pow2_strictly_increases(24, 56);
            }
            (floor_scaled_saturating(mw as u64, ew, 1), floor_scaled_saturating(mh as u64, eh, 1))
        },
    }
}

} // verus!
