//! What holds of every run, proved from the definition of the output.

use crate::engine::{
    carrier_angle_at, carrier_frequency_at, carrier_level_at, carrier_period, carrier_position,
    lemma_periods, lfo_angle_at, lfo_level_at, lfo_period, output_sample, processed, produced,
    CARRIER_SCALE,
};
use crate::mixer::{
    lemma_mix_bounded, lemma_mix_dry, lemma_mix_wet, saturated, truncated_quotient,
};
use crate::params::{RingModParams, Waveform, MAX_AMOUNT, MAX_MIX};
use crate::phase::{angle_of, TURN};
use crate::sine::{lemma_sine_bounds, sine_spec, HALF_TURN, UNIT};
use vstd::arithmetic::div_mod::{
    lemma_add_mod_noop, lemma_div_multiples_vanish_quotient, lemma_mod_twice,
    lemma_truncate_middle,
};
use vstd::prelude::*;

verus! {

/// With a mix of zero the output is the input, cut to the length of the
/// run: the dry signal passes unchanged.
pub proof fn lemma_dry_passthrough(
    sample_rate: u32,
    sample_length: nat,
    input: Seq<i32>,
    params: RingModParams,
)
    requires
        params.mix == 0,
    ensures
        processed(sample_rate, sample_length, input, params) == input.subrange(
            0,
            produced(sample_length, input.len()) as int,
        ),
        sample_length >= input.len() ==> processed(sample_rate, sample_length, input, params)
            == input,
{
    let out = processed(sample_rate, sample_length, input, params);
    let kept = input.subrange(0, produced(sample_length, input.len()) as int);
    assert forall|i: int| 0 <= i < out.len() implies out[i] == kept[i] by {
        lemma_mix_dry(input[i], carrier_level_at(sample_rate, params, (i + 1) as nat));
    }
    assert(out =~= kept);
    if sample_length >= input.len() {
        assert(kept =~= input);
    }
}

/// A run produces as many samples as the shorter of the intended length and
/// the input, and never more than either.
pub proof fn lemma_output_length(
    sample_rate: u32,
    sample_length: nat,
    input: Seq<i32>,
    params: RingModParams,
)
    ensures
        processed(sample_rate, sample_length, input, params).len() == produced(
            sample_length,
            input.len(),
        ),
        produced(sample_length, input.len()) <= sample_length,
        produced(sample_length, input.len()) <= input.len(),
        produced(sample_length, input.len()) == sample_length || produced(
            sample_length,
            input.len(),
        ) == input.len(),
{
}

/// When the input runs out early, or the run is cut short, what comes out
/// is the beginning of what the longer run gives.
pub proof fn lemma_shorter_run_is_prefix(
    sample_rate: u32,
    sample_length: nat,
    shorter_length: nat,
    input: Seq<i32>,
    kept: nat,
    params: RingModParams,
)
    requires
        shorter_length <= sample_length,
        kept <= input.len(),
    ensures
        processed(sample_rate, shorter_length, input.subrange(0, kept as int), params)
            == processed(sample_rate, sample_length, input, params).subrange(
            0,
            produced(shorter_length, kept) as int,
        ),
{
    let short = processed(sample_rate, shorter_length, input.subrange(0, kept as int), params);
    let long = processed(sample_rate, sample_length, input, params);
    assert(short =~= long.subrange(0, produced(shorter_length, kept) as int));
}

/// The blend is a crossfade: no sample of the output is larger than the
/// sample of the input it was made from.
pub proof fn lemma_output_bounded(sample_rate: u32, params: RingModParams, sample: i32, i: nat)
    requires
        params.mix <= MAX_MIX,
    ensures
        sample >= 0 ==> -sample <= output_sample(sample_rate, params, sample, i) <= sample,
        sample < 0 ==> sample <= output_sample(sample_rate, params, sample, i) <= -sample,
{
    let level = carrier_level_at(sample_rate, params, i + 1);
    lemma_sine_bounds(carrier_angle_at(sample_rate, params, i + 1));
    lemma_mix_bounded(sample, level, params.mix);
}

/// At full mix the output is the ring-modulated signal alone: the product
/// of sample and carrier, cut towards zero.
pub proof fn lemma_full_wet(sample_rate: u32, params: RingModParams, sample: i32, i: nat)
    requires
        params.mix == 100,
    ensures
        output_sample(sample_rate, params, sample, i) == saturated(
            truncated_quotient(
                sample * carrier_level_at(sample_rate, params, i + 1),
                UNIT as int,
            ),
        ),
{
    lemma_mix_wet(sample, carrier_level_at(sample_rate, params, i + 1));
}

/// The phase, in steps of `1 / (1000 * sample_rate)` turns, of an
/// oscillator that has run for `k` samples at a steady `frequency`, given in
/// thousandths of a hertz.
pub open spec fn steady_position(sample_rate: u32, frequency: u32, k: nat) -> int {
    (k * frequency) % lfo_period(sample_rate)
}

/// The angle that belongs to `steady_position`.
pub open spec fn steady_angle(sample_rate: u32, frequency: u32, k: nat) -> u32 {
    angle_of(steady_position(sample_rate, frequency, k), lfo_period(sample_rate)) as u32
}

/// The frequency of the carrier when nothing sweeps it, in units of
/// `1 / (1000 * CARRIER_SCALE)` hertz.
pub open spec fn base_frequency(params: RingModParams) -> int {
    params.frequency * CARRIER_SCALE
}

/// The frequency of the carrier at the top of the sweep, in units of
/// `1 / (1000 * CARRIER_SCALE)` hertz: the base frequency times
/// `1 + 3 * amount / MAX_AMOUNT`.
pub open spec fn swept_frequency(params: RingModParams) -> int {
    params.frequency * (CARRIER_SCALE + 3 * (UNIT * params.amount))
}

/// With an amount of zero the carrier keeps its base frequency whatever the
/// low-frequency oscillator does.
pub proof fn lemma_zero_amount_frequency(sample_rate: u32, params: RingModParams, k: nat)
    requires
        params.amount == 0,
    ensures
        carrier_frequency_at(sample_rate, params, k) == base_frequency(params),
{
    let level = lfo_level_at(sample_rate, params, k);
    assert(params.frequency * (CARRIER_SCALE + 3 * (level * params.amount)) == params.frequency
        * CARRIER_SCALE) by (nonlinear_arith)
        requires
            params.amount == 0,
    ;
}

/// With an amount of zero the carrier runs steadily at its base frequency.
pub proof fn lemma_zero_amount_carrier(sample_rate: u32, params: RingModParams, k: nat)
    requires
        sample_rate > 0,
        params.amount == 0,
    ensures
        carrier_position(sample_rate, params, k) == CARRIER_SCALE * steady_position(
            sample_rate,
            params.frequency,
            k,
        ),
        angle_of(carrier_position(sample_rate, params, k), carrier_period(sample_rate))
            == angle_of(
            steady_position(sample_rate, params.frequency, k),
            lfo_period(sample_rate),
        ),
    decreases k,
{
    let scale = CARRIER_SCALE as int;
    let cycle = lfo_period(sample_rate);
    let frequency = params.frequency as int;
    let here = steady_position(sample_rate, params.frequency, k);
    lemma_periods(sample_rate);
    assert(carrier_period(sample_rate) == scale * cycle);
    if k == 0 {
        assert(0 * frequency == 0);
        assert(0int % cycle == 0);
        assert(scale * 0 == 0);
    } else {
        let before = steady_position(sample_rate, params.frequency, (k - 1) as nat);
        lemma_zero_amount_carrier(sample_rate, params, (k - 1) as nat);
        lemma_zero_amount_frequency(sample_rate, params, k);
        assert(scale * before + frequency * scale == scale * (before + frequency))
            by (nonlinear_arith);
        lemma_truncate_middle(before + frequency, scale, cycle);
        assert((before + frequency) % cycle == here) by {
            lemma_add_mod_noop((k - 1) * frequency, frequency, cycle);
            lemma_mod_twice((k - 1) * frequency, cycle);
            lemma_add_mod_noop(before, frequency, cycle);
            assert((k - 1) * frequency + frequency == k * frequency) by (nonlinear_arith);
        }
    }
    assert((scale * here) * TURN == scale * (here * TURN)) by (nonlinear_arith);
    lemma_div_multiples_vanish_quotient(scale, here * TURN, cycle);
}

/// At full mix and with an amount of zero, sample `i` of the output is the
/// product of sample `i` of the input and the sine of a carrier that has
/// run steadily at its base frequency for `i + 1` samples, cut towards zero.
pub proof fn lemma_full_wet_steady(sample_rate: u32, params: RingModParams, sample: i32, i: nat)
    requires
        sample_rate > 0,
        params.mix == 100,
        params.amount == 0,
    ensures
        output_sample(sample_rate, params, sample, i) == saturated(
            truncated_quotient(
                sample * sine_spec(steady_angle(sample_rate, params.frequency, i + 1)),
                UNIT as int,
            ),
        ),
{
    lemma_zero_amount_carrier(sample_rate, params, i + 1);
    lemma_mix_wet(sample, carrier_level_at(sample_rate, params, i + 1));
}

/// With an amount of zero the low-frequency oscillator has no say: two runs
/// that differ only in its waveform, or in its rate, give the same output.
pub proof fn lemma_zero_amount_ignores_lfo(
    sample_rate: u32,
    sample_length: nat,
    input: Seq<i32>,
    params: RingModParams,
    other: RingModParams,
)
    requires
        sample_rate > 0,
        params.amount == 0,
        other.amount == 0,
        other.mix == params.mix,
        other.frequency == params.frequency,
    ensures
        processed(sample_rate, sample_length, input, params) == processed(
            sample_rate,
            sample_length,
            input,
            other,
        ),
{
    let one = processed(sample_rate, sample_length, input, params);
    let two = processed(sample_rate, sample_length, input, other);
    assert forall|i: int| 0 <= i < one.len() implies one[i] == two[i] by {
        lemma_zero_amount_carrier(sample_rate, params, (i + 1) as nat);
        lemma_zero_amount_carrier(sample_rate, other, (i + 1) as nat);
    }
    assert(one =~= two);
}

/// With the square waveform the carrier has one of two frequencies at every
/// sample and none between: three times the share `amount / MAX_AMOUNT` of
/// the base frequency above it while the low-frequency oscillator is in the
/// first half of its cycle, the base frequency in the second half. The two
/// differ unless the amount or the base frequency is zero.
pub proof fn lemma_square_two_frequencies(sample_rate: u32, params: RingModParams, k: nat)
    requires
        params.lfo_waveform == Waveform::Square,
    ensures
        carrier_frequency_at(sample_rate, params, k) == (if lfo_angle_at(sample_rate, params, k)
            <= HALF_TURN {
            swept_frequency(params)
        } else {
            base_frequency(params)
        }),
        swept_frequency(params) * MAX_AMOUNT == base_frequency(params) * (MAX_AMOUNT + 3
            * params.amount),
        params.amount > 0 && params.frequency > 0 ==> swept_frequency(params) > base_frequency(
            params,
        ),
{
    lemma_sine_bounds(lfo_angle_at(sample_rate, params, k));
    let frequency = params.frequency as int;
    let amount = params.amount as int;
    assert(frequency * (CARRIER_SCALE + 3 * (0 * amount)) == frequency * CARRIER_SCALE)
        by (nonlinear_arith);
    assert(CARRIER_SCALE == MAX_AMOUNT * UNIT);
    assert((frequency * (CARRIER_SCALE + 3 * (UNIT * amount))) * MAX_AMOUNT == (frequency
        * CARRIER_SCALE) * (MAX_AMOUNT + 3 * amount)) by (nonlinear_arith)
        requires
            CARRIER_SCALE == MAX_AMOUNT * UNIT,
    ;
    if amount > 0 && frequency > 0 {
        assert(frequency * (CARRIER_SCALE + 3 * (UNIT * amount)) > frequency * CARRIER_SCALE)
            by (nonlinear_arith)
            requires
                amount > 0,
                frequency > 0,
                UNIT > 0,
        ;
    }
}

/// The frequencies that the carrier has in the course of a run of `n`
/// samples.
pub open spec fn run_frequencies(sample_rate: u32, params: RingModParams, n: nat) -> Set<int> {
    Set::new(
        |f: int|
            exists|k: nat|
                1 <= k <= n && #[trigger] carrier_frequency_at(sample_rate, params, k) == f,
    )
}

/// With the square waveform a run has no carrier frequency but the base
/// frequency and the top of the sweep. It has both, and so exactly two, as
/// soon as it holds a sample `open` in the first half of a cycle of the
/// low-frequency oscillator and a sample `shut` in the second half, and
/// amount and base frequency are not zero.
pub proof fn lemma_square_run_frequencies(
    sample_rate: u32,
    params: RingModParams,
    n: nat,
    open: nat,
    shut: nat,
)
    requires
        params.lfo_waveform == Waveform::Square,
    ensures
        run_frequencies(sample_rate, params, n).subset_of(
            set![base_frequency(params), swept_frequency(params)],
        ),
        ({
            &&& 1 <= open <= n
            &&& 1 <= shut <= n
            &&& lfo_angle_at(sample_rate, params, open) <= HALF_TURN
            &&& lfo_angle_at(sample_rate, params, shut) > HALF_TURN
        }) ==> run_frequencies(sample_rate, params, n) == set![
            base_frequency(params),
            swept_frequency(params),
        ],
        params.amount > 0 && params.frequency > 0 ==> base_frequency(params) != swept_frequency(
            params,
        ),
{
    let seen = run_frequencies(sample_rate, params, n);
    let both = set![base_frequency(params), swept_frequency(params)];
    assert forall|f: int| seen.contains(f) implies both.contains(f) by {
        let k = choose|k: nat|
            1 <= k <= n && #[trigger] carrier_frequency_at(sample_rate, params, k) == f;
        lemma_square_two_frequencies(sample_rate, params, k);
    }
    lemma_square_two_frequencies(sample_rate, params, open);
    lemma_square_two_frequencies(sample_rate, params, shut);
    if 1 <= open <= n && 1 <= shut <= n && lfo_angle_at(sample_rate, params, open) <= HALF_TURN
        && lfo_angle_at(sample_rate, params, shut) > HALF_TURN {
        assert(seen.contains(carrier_frequency_at(sample_rate, params, open)));
        assert(seen.contains(carrier_frequency_at(sample_rate, params, shut)));
        assert(seen =~= both);
    }
}

} // verus!
