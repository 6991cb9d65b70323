//! The blend of the dry sample with the ring-modulated one.
//!
//! With `m = mix / 100` and `c = level / UNIT`, a sample `s` becomes
//! `s * (1 - m) + s * c * m`, cut towards zero to a whole number and kept
//! within the range of a sample.

use crate::params::MAX_MIX;
use crate::sine::UNIT;
use vstd::prelude::*;

verus! {

/// The quotient of `n` by a positive `d`, rounded towards zero.
pub open spec fn truncated_quotient(n: int, d: int) -> int {
    if n >= 0 {
        n / d
    } else {
        -((-n) / d)
    }
}

/// `value` brought into the range of a sample.
pub open spec fn saturated(value: int) -> int {
    if value > i32::MAX {
        i32::MAX as int
    } else if value < i32::MIN {
        i32::MIN as int
    } else {
        value
    }
}

/// The factor that a sample is multiplied by, in units of
/// `1 / (100 * UNIT)`: `100 * UNIT` leaves the sample as it is.
pub open spec fn mix_weight(level: int, mix: u8) -> int {
    UNIT * (100 - mix) + mix * level
}

/// The output sample for the input `sample`, a carrier at `level` and `mix`
/// percent of modulated signal.
pub open spec fn mix_spec(sample: i32, level: int, mix: u8) -> int {
    saturated(truncated_quotient(sample * mix_weight(level, mix), 100 * UNIT))
}

/// Rounding a quotient towards zero undoes a multiplication by the divisor.
pub proof fn lemma_truncated_quotient_of_multiple(n: int, d: int)
    requires
        0 < d,
    ensures
        truncated_quotient(n * d, d) == n,
{
    if n >= 0 {
        assert(n * d >= 0 && (n * d) / d == n) by (nonlinear_arith)
            requires
                n >= 0,
                0 < d,
        ;
    } else {
        assert(n * d < 0 && (-(n * d)) / d == -n) by (nonlinear_arith)
            requires
                n < 0,
                0 < d,
        ;
    }
}

/// A common positive factor of dividend and divisor can be left out.
pub proof fn lemma_truncated_quotient_cancel(n: int, d: int, factor: int)
    requires
        0 < d,
        0 < factor,
    ensures
        truncated_quotient(n * factor, d * factor) == truncated_quotient(n, d),
{
    if n >= 0 {
        assert(n * factor >= 0 && (n * factor) / (d * factor) == n / d) by (nonlinear_arith)
            requires
                n >= 0,
                0 < d,
                0 < factor,
        ;
    } else {
        assert(n * factor < 0 && (-(n * factor)) / (d * factor) == (-n) / d) by (nonlinear_arith)
            requires
                n < 0,
                0 < d,
                0 < factor,
        ;
    }
}

/// The blend is a crossfade: it never makes a sample larger than it was, and
/// it keeps a silent sample silent.
pub proof fn lemma_mix_bounded(sample: i32, level: int, mix: u8)
    requires
        mix <= MAX_MIX,
        -UNIT <= level <= UNIT,
    ensures
        sample >= 0 ==> -sample <= mix_spec(sample, level, mix) <= sample,
        sample < 0 ==> sample <= mix_spec(sample, level, mix) <= -sample,
{
    let weight = mix_weight(level, mix);
    let full = 100 * UNIT;
    assert(-full <= weight <= full) by (nonlinear_arith)
        requires
            weight == UNIT * (100 - mix) + mix * level,
            full == 100 * UNIT,
            0 <= mix <= 100,
            -UNIT <= level <= UNIT,
    ;
    let n = sample * weight;
    let size: int = if sample >= 0 {
        sample as int
    } else {
        -sample
    };
    assert(-(size * full) <= n <= size * full) by (nonlinear_arith)
        requires
            n == sample * weight,
            -full <= weight <= full,
            size == sample || size == -sample,
            size >= 0,
            full > 0,
    ;
    assert(-size <= truncated_quotient(n, full) <= size) by (nonlinear_arith)
        requires
            -(size * full) <= n <= size * full,
            full > 0,
            size >= 0,
            truncated_quotient(n, full) == if n >= 0 {
                n / full
            } else {
                -((-n) / full)
            },
    ;
}

/// With nothing of the modulated signal in the blend, the sample passes
/// unchanged, whatever the carrier does.
pub proof fn lemma_mix_dry(sample: i32, level: int)
    ensures
        mix_spec(sample, level, 0) == sample,
{
    assert(mix_weight(level, 0) == 100 * UNIT) by (nonlinear_arith)
        requires
            mix_weight(level, 0) == UNIT * (100 - 0) + 0 * level,
    ;
    lemma_truncated_quotient_of_multiple(sample as int, 100 * UNIT);
}

/// With nothing but the modulated signal in the blend, the output is the
/// product of sample and carrier.
pub proof fn lemma_mix_wet(sample: i32, level: int)
    ensures
        mix_spec(sample, level, 100) == saturated(truncated_quotient(sample * level, UNIT as int)),
{
    assert(sample * mix_weight(level, 100) == (sample * level) * 100) by (nonlinear_arith)
        requires
            mix_weight(level, 100) == UNIT * (100 - 100) + 100 * level,
    ;
    lemma_truncated_quotient_cancel(sample * level, UNIT as int, 100);
}

/// Blends `sample` with its product by a carrier at `level`.
pub fn mix_sample(sample: i32, level: i32, mix: u8) -> (out: i32)
    ensures
        out == mix_spec(sample, level as int, mix),
{
    let one: i64 = UNIT as i64;
    let dry: i64 = 100 - mix as i64;
    assert(-0x100 * 0x8000_0000 <= mix * level <= 0x100 * 0x8000_0000) by (nonlinear_arith)
        requires
            0 <= mix <= 0x100,
            -0x8000_0000 <= level <= 0x8000_0000,
    ;
    let weight: i64 = one * dry + mix as i64 * level as i64;
    assert(-0x8000_0000 * 0x400_0000_0000 <= sample * weight <= 0x8000_0000 * 0x400_0000_0000)
        by (nonlinear_arith)
        requires
            -0x8000_0000 <= sample <= 0x8000_0000,
            -0x400_0000_0000 <= weight <= 0x400_0000_0000,
    ;
    let product: i128 = sample as i128 * weight as i128;
    let quotient: i128 = product / (100 * one as i128);
    if quotient > i32::MAX as i128 {
        i32::MAX
    } else if quotient < i32::MIN as i128 {
        i32::MIN
    } else {
        quotient as i32
    }
}

} // verus!
