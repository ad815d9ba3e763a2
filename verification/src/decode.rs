//! From the bits of a raw sample to a signed value.
//!
//! A sensor delivers a sample as a non-negative number whose low `width` bits
//! carry the value. `sign_extended` reads those bits as two's complement,
//! `centered_value` reads them as an offset from the middle of the range.

use vstd::prelude::*;
use vstd::arithmetic::power2::{
    pow2,
    lemma2_to64,
    lemma2_to64_rest,
    lemma_pow2_adds,
    lemma_pow2_pos,
    lemma_pow2_strictly_increases,
    lemma_pow2_unfold,
};
use vstd::arithmetic::div_mod::{
    lemma_fundamental_div_mod,
    lemma_fundamental_div_mod_converse,
    lemma_small_mod,
};
use vstd::bits::{lemma_u64_shl_is_mul, lemma_u64_pow2_no_overflow};

verus! {

/// The low `width` bits of `raw`, read as two's complement: at or above half
/// of the range they stand for a negative value.
pub open spec fn sign_extended(raw: nat, width: nat) -> int {
    let low = raw % pow2(width);
    if low >= pow2((width - 1) as nat) {
        low - pow2(width)
    } else {
        low as int
    }
}

/// The low `width` bits of `raw`, read as an offset from the middle of the
/// range: half of the range stands for zero.
pub open spec fn centered_value(raw: nat, width: nat) -> int {
    raw % pow2(width) - pow2((width - 1) as nat)
}

/// Whether `value` can be written in `width` bits as a signed quantity.
pub open spec fn representable(value: int, width: nat) -> bool {
    -pow2((width - 1) as nat) <= value < pow2((width - 1) as nat)
}

/// The `width`-bit two's complement pattern of `value`.
pub open spec fn twos_complement(value: int, width: nat) -> nat {
    (value % (pow2(width) as int)) as nat
}

/// The `width`-bit offset pattern of `value`: the value counted from the
/// lower end of its range.
pub open spec fn offset_pattern(value: int, width: nat) -> nat {
    (value + pow2((width - 1) as nat)) as nat
}

/// Two to the power `width` is twice two to the power `width - 1`, and for
/// widths up to 64 the half fits in 64 bits.
pub proof fn lemma_half_range(width: nat)
    requires
        1 <= width <= 64,
    ensures
        pow2(width) == 2 * pow2((width - 1) as nat),
        0 < pow2((width - 1) as nat) <= 0x8000_0000_0000_0000,
        pow2(64) == 0x1_0000_0000_0000_0000,
{
    lemma_pow2_unfold(width);
    lemma_pow2_pos((width - 1) as nat);
    lemma2_to64();
    if width < 64 {
        lemma_pow2_strictly_increases(width, 64);
    }
}

/// Sign extension gives a value that `width` bits can hold.
pub proof fn lemma_sign_extended_range(raw: nat, width: nat)
    requires
        1 <= width <= 64,
    ensures
        representable(sign_extended(raw, width), width),
        -0x8000_0000_0000_0000 <= sign_extended(raw, width) < 0x8000_0000_0000_0000,
{
    lemma_half_range(width);
}

/// The centered reading gives a value that `width` bits can hold.
pub proof fn lemma_centered_range(raw: nat, width: nat)
    requires
        1 <= width <= 64,
    ensures
        representable(centered_value(raw, width), width),
        -0x8000_0000_0000_0000 <= centered_value(raw, width) < 0x8000_0000_0000_0000,
{
    lemma_half_range(width);
}

/// For each of the widths 8, 16, 32 and 64, the largest positive pattern
/// decodes to a positive value, and the pattern of all ones decodes to -1.
pub proof fn lemma_extremes(width: nat)
    requires
        width == 8 || width == 16 || width == 32 || width == 64,
    ensures
        sign_extended((pow2((width - 1) as nat) - 1) as nat, width) == pow2((width - 1) as nat) - 1,
        sign_extended((pow2((width - 1) as nat) - 1) as nat, width) > 0,
        sign_extended((pow2(width) - 1) as nat, width) == -1,
{
    lemma_half_range(width);
    lemma2_to64();
    lemma2_to64_rest();
    let half = pow2((width - 1) as nat);
    let full = pow2(width);
    lemma_small_mod((half - 1) as nat, full);
    lemma_small_mod((full - 1) as nat, full);
}

/// Sign extension is idempotent: the 64-bit pattern of a sign-extended value,
/// sign-extended once more from the same width, is that value again.
pub proof fn lemma_sign_extended_idempotent(raw: nat, width: nat)
    requires
        1 <= width <= 64,
    ensures
        sign_extended(twos_complement(sign_extended(raw, width), 64), width) == sign_extended(
            raw,
            width,
        ),
{
    let value = sign_extended(raw, width);
    lemma_sign_extended_range(raw, width);
    lemma_twos_complement_low_bits(value, width);
    lemma_sign_extended_of_pattern(value, width);
}

/// The low `width` bits of the 64-bit pattern of `value` are its `width`-bit
/// pattern.
pub proof fn lemma_twos_complement_low_bits(value: int, width: nat)
    requires
        1 <= width <= 64,
    ensures
        twos_complement(value, 64) % pow2(width) == twos_complement(value, width),
{
    lemma_half_range(width);
    let m = pow2(width) as int;
    let big = pow2(64) as int;
    // 2^64 is a multiple of 2^width.
    lemma_pow2_multiple(width);
    let k = big / m;
    assert(big == k * m);
    let q = value / big;
    let r = value % big;
    assert(value == big * q + r) by {
        lemma_fundamental_div_mod(value, big);
    }
    // value = (k * q) * m + r, and r = m * (r / m) + r % m.
    let q2 = r / m;
    let r2 = r % m;
    assert(r == m * q2 + r2) by {
        lemma_fundamental_div_mod(r, m);
    }
    assert(value == (k * q + q2) * m + r2) by (nonlinear_arith)
        requires
            value == big * q + r,
            big == k * m,
            r == m * q2 + r2,
    ;
    lemma_fundamental_div_mod_converse(value, m, k * q + q2, r2);
}

/// Two to the power 64 is a whole multiple of two to the power `width`.
proof fn lemma_pow2_multiple(width: nat)
    requires
        width <= 64,
    ensures
        pow2(64) == (pow2(64) / pow2(width)) * pow2(width),
        pow2(width) > 0,
{
    lemma_pow2_adds(width, (64 - width) as nat);
    lemma_pow2_pos(width);
    let a = pow2(width) as int;
    let b = pow2((64 - width) as nat) as int;
    assert(pow2(64) == a * b);
    assert((a * b) / a == b) by (nonlinear_arith)
        requires
            a > 0,
    ;
    assert(b * a == a * b) by (nonlinear_arith);
}

/// Reading back the `width`-bit pattern of a value that `width` bits can
/// hold gives the value.
pub proof fn lemma_sign_extended_of_pattern(value: int, width: nat)
    requires
        1 <= width <= 64,
        representable(value, width),
    ensures
        twos_complement(value, width) % pow2(width) == twos_complement(value, width),
        sign_extended(twos_complement(value, width), width) == value,
{
    lemma_half_range(width);
    let m = pow2(width) as int;
    if value >= 0 {
        lemma_small_mod(value as nat, m as nat);
    } else {
        lemma_fundamental_div_mod_converse(value, m, -1, value + m);
    }
    lemma_small_mod(twos_complement(value, width), m as nat);
}

/// Reading back the `width`-bit offset pattern of a value that `width` bits
/// can hold gives the value.
pub proof fn lemma_centered_of_pattern(value: int, width: nat)
    requires
        1 <= width <= 64,
        representable(value, width),
    ensures
        offset_pattern(value, width) < pow2(width),
        centered_value(offset_pattern(value, width), width) == value,
{
    lemma_half_range(width);
    lemma_small_mod(offset_pattern(value, width), pow2(width));
}

/// Returns two to the power `exponent`.
pub fn power_of_two(exponent: u8) -> (p: u64)
    requires
        exponent <= 63,
    ensures
        p == pow2(exponent as nat),
        p > 0,
{
    proof {
        lemma_u64_pow2_no_overflow(exponent as nat);
        lemma_u64_shl_is_mul(1, exponent as u64);
    }
    1u64 << (exponent as u64)
}

/// Returns the low `width` bits of `raw`.
pub fn low_bits(raw: u64, width: u8) -> (low: u64)
    requires
        1 <= width <= 64,
    ensures
        low == raw as nat % pow2(width as nat),
{
    if width == 64 {
        proof {
            lemma2_to64_rest();
            lemma_small_mod(raw as nat, pow2(64));
        }
        raw
    } else {
        raw % power_of_two(width)
    }
}

/// Returns the largest number that `width` bits can hold.
pub fn storage_limit(width: u8) -> (limit: u64)
    requires
        1 <= width <= 64,
    ensures
        limit == pow2(width as nat) - 1,
{
    if width == 64 {
        proof {
            lemma2_to64_rest();
        }
        u64::MAX
    } else {
        power_of_two(width) - 1
    }
}

/// Sign-extends the low `width` bits of `raw` by finding the sign bit and
/// filling in what lies above it.
pub fn mask_extend(raw: u64, width: u8) -> (value: i64)
    requires
        1 <= width <= 64,
    ensures
        value == sign_extended(raw as nat, width as nat),
{
    let low: u64 = low_bits(raw, width);
    let half: u64 = power_of_two(width - 1);
    proof {
        lemma_half_range(width as nat);
    }
    if low >= half {
        // low - 2^width, taken in two steps that both stay in range
        ((low - half) as i64) - ((half - 1) as i64) - 1
    } else {
        low as i64
    }
}

/// Sign-extends the low `width` bits of `raw` with the machine's own casts,
/// for the widths that a machine integer has.
pub fn native_cast(raw: u64, width: u8) -> (value: i64)
    requires
        width == 8 || width == 16 || width == 32 || width == 64,
    ensures
        value == sign_extended(raw as nat, width as nat),
{
    proof {
        lemma2_to64();
        lemma2_to64_rest();
    }
    if width == 8 {
        let value: i64 = #[verifier::truncate] (#[verifier::truncate] (raw as u8) as i8) as i64;
        assert(value == if raw % 0x100 >= 0x80 {
            raw % 0x100 - 0x100
        } else {
            (raw % 0x100) as int
        }) by (bit_vector)
            requires
                value == (raw as u8) as i8 as i64,
        ;
        value
    } else if width == 16 {
        let value: i64 = #[verifier::truncate] (#[verifier::truncate] (raw as u16) as i16) as i64;
        assert(value == if raw % 0x1_0000 >= 0x8000 {
            raw % 0x1_0000 - 0x1_0000
        } else {
            (raw % 0x1_0000) as int
        }) by (bit_vector)
            requires
                value == (raw as u16) as i16 as i64,
        ;
        value
    } else if width == 32 {
        let value: i64 = #[verifier::truncate] (#[verifier::truncate] (raw as u32) as i32) as i64;
        assert(value == if raw % 0x1_0000_0000 >= 0x8000_0000 {
            raw % 0x1_0000_0000 - 0x1_0000_0000
        } else {
            (raw % 0x1_0000_0000) as int
        }) by (bit_vector)
            requires
                value == (raw as u32) as i32 as i64,
        ;
        value
    } else {
        let value: i64 = #[verifier::truncate] (raw as i64);
        assert(value == if raw >= 0x8000_0000_0000_0000 {
            raw - 0x1_0000_0000_0000_0000
        } else {
            raw as int
        }) by (bit_vector)
            requires
                value == raw as i64,
        ;
        proof {
            lemma_small_mod(raw as nat, pow2(64));
        }
        value
    }
}

/// Reads the low `width` bits of `raw` as an offset from the middle of the
/// range.
pub fn centered(raw: u64, width: u8) -> (value: i64)
    requires
        1 <= width <= 64,
    ensures
        value == centered_value(raw as nat, width as nat),
{
    let low: u64 = low_bits(raw, width);
    let half: u64 = power_of_two(width - 1);
    proof {
        lemma_half_range(width as nat);
    }
    if low >= half {
        (low - half) as i64
    } else {
        // low - half, taken in two steps that both stay in range
        (low as i64) - ((half - 1) as i64) - 1
    }
}

} // verus!
