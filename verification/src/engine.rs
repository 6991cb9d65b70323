//! The ring modulator: a carrier oscillator whose frequency is swept by a
//! low-frequency oscillator, multiplied into the signal sample by sample.
//!
//! Both oscillators are phase accumulators. With the sample rate `r` in
//! hertz and the rate of the low-frequency oscillator in thousandths of a
//! hertz, that oscillator moves by `rate` steps of `1 / (1000 * r)` turns
//! with every sample. The carrier moves by `carrier_step` steps of
//! `1 / (1000 * CARRIER_SCALE * r)` turns, which counts its frequency at
//! that moment in units of `1 / (1000 * CARRIER_SCALE)` hertz.
//!
//! The phases are exact, so they do not drift however long a run lasts.
//! Rounding enters in three places only: where a phase is turned into an
//! angle, in the sine, and where a blended sample is cut to a whole number.

use crate::mixer::{mix_sample, mix_spec};
use crate::params::{
    check_config, config_fault, ConfigError, RingModParams, Waveform, MAX_AMOUNT,
};
use crate::phase::{
    angle_of, lemma_angle_bounds, lemma_wrapped_bounds, wrapped, PhaseAccumulator, MAX_PERIOD,
    TURN,
};
use crate::sine::{sine, sine_spec, UNIT};
use vstd::arithmetic::div_mod::{lemma_add_mod_noop, lemma_mod_twice};
use vstd::prelude::*;

verus! {

/// The carrier step that stands for one thousandth of a hertz:
/// `MAX_AMOUNT * UNIT`.
pub const CARRIER_SCALE: u64 = 10_737_418_240_000;

/// The number of steps in one cycle of the low-frequency oscillator.
pub open spec fn lfo_period(sample_rate: u32) -> int {
    1000 * sample_rate
}

/// The number of steps in one cycle of the carrier.
pub open spec fn carrier_period(sample_rate: u32) -> int {
    1000 * CARRIER_SCALE * sample_rate
}

/// The level of the low-frequency oscillator at `angle`: the sine itself,
/// or a gate that is fully open while the sine is not negative and shut
/// while it is.
pub open spec fn lfo_level_spec(waveform: Waveform, angle: u32) -> int {
    match waveform {
        Waveform::Sinusoidal => sine_spec(angle),
        Waveform::Square => if sine_spec(angle) >= 0 {
            UNIT as int
        } else {
            0
        },
    }
}

/// The step of the carrier for one sample while the low-frequency
/// oscillator is at `level`: the base frequency, plus three times the base
/// frequency for every full `amount` at full level.
pub open spec fn carrier_step_spec(params: RingModParams, level: int) -> int {
    params.frequency * (CARRIER_SCALE + 3 * (level * params.amount))
}

/// The position of the low-frequency oscillator after `k` samples: what
/// `k` steps of `rate` leave when whole cycles are taken away.
pub open spec fn lfo_position(sample_rate: u32, params: RingModParams, k: nat) -> int {
    (k * params.rate) % lfo_period(sample_rate)
}

/// The angle of the low-frequency oscillator after `k` samples.
pub open spec fn lfo_angle_at(sample_rate: u32, params: RingModParams, k: nat) -> u32 {
    angle_of(lfo_position(sample_rate, params, k), lfo_period(sample_rate)) as u32
}

/// The level of the low-frequency oscillator after `k` samples.
pub open spec fn lfo_level_at(sample_rate: u32, params: RingModParams, k: nat) -> int {
    lfo_level_spec(params.lfo_waveform, lfo_angle_at(sample_rate, params, k))
}

/// The frequency of the carrier while it produces sample `k`, counting
/// from 1, in units of `1 / (1000 * CARRIER_SCALE)` hertz.
pub open spec fn carrier_frequency_at(sample_rate: u32, params: RingModParams, k: nat) -> int {
    carrier_step_spec(params, lfo_level_at(sample_rate, params, k))
}

/// The position of the carrier after `k` samples.
pub open spec fn carrier_position(sample_rate: u32, params: RingModParams, k: nat) -> int
    decreases k,
{
    if k == 0 {
        0
    } else {
        wrapped(
            carrier_position(sample_rate, params, (k - 1) as nat),
            carrier_frequency_at(sample_rate, params, k),
            carrier_period(sample_rate),
        )
    }
}

/// The angle of the carrier after `k` samples.
pub open spec fn carrier_angle_at(sample_rate: u32, params: RingModParams, k: nat) -> u32 {
    angle_of(carrier_position(sample_rate, params, k), carrier_period(sample_rate)) as u32
}

/// The level of the carrier after `k` samples.
pub open spec fn carrier_level_at(sample_rate: u32, params: RingModParams, k: nat) -> int {
    sine_spec(carrier_angle_at(sample_rate, params, k))
}

/// What becomes of `sample` when it is the input at index `i`: both
/// oscillators have moved `i + 1` times by then.
pub open spec fn output_sample(sample_rate: u32, params: RingModParams, sample: i32, i: nat) -> i32 {
    mix_spec(sample, carrier_level_at(sample_rate, params, i + 1), params.mix) as i32
}

/// The number of samples that a run of intended length `sample_length`
/// produces from `available` input samples.
pub open spec fn produced(sample_length: nat, available: nat) -> nat {
    if sample_length <= available {
        sample_length
    } else {
        available
    }
}

/// The output of a run: one sample for each of the first `sample_length`
/// input samples, or for all of them if there are fewer.
pub open spec fn processed(
    sample_rate: u32,
    sample_length: nat,
    input: Seq<i32>,
    params: RingModParams,
) -> Seq<i32> {
    Seq::new(
        produced(sample_length, input.len()),
        |i: int| output_sample(sample_rate, params, input[i], i as nat),
    )
}

/// Both periods are positive and short enough for a phase accumulator, and
/// a cycle of the carrier has `CARRIER_SCALE` times as many steps as a cycle
/// of the low-frequency oscillator.
pub proof fn lemma_periods(sample_rate: u32)
    requires
        sample_rate > 0,
    ensures
        0 < lfo_period(sample_rate) <= MAX_PERIOD,
        0 < carrier_period(sample_rate) <= MAX_PERIOD,
        carrier_period(sample_rate) == CARRIER_SCALE * lfo_period(sample_rate),
        CARRIER_SCALE == MAX_AMOUNT * UNIT,
{
    assert(1000 * CARRIER_SCALE == 10_737_418_240_000_000);
    assert(1000 * CARRIER_SCALE * sample_rate == 10_737_418_240_000_000 * sample_rate);
}

/// Adding the rate sample by sample and wrapping each time loses nothing
/// against multiplying it by the number of samples: the low-frequency
/// oscillator starts at zero and moves on by one wrapped step per sample.
pub proof fn lemma_lfo_advances(sample_rate: u32, params: RingModParams, k: nat)
    requires
        sample_rate > 0,
    ensures
        lfo_position(sample_rate, params, 0) == 0,
        lfo_position(sample_rate, params, k + 1) == wrapped(
            lfo_position(sample_rate, params, k),
            params.rate as int,
            lfo_period(sample_rate),
        ),
{
    let cycle = lfo_period(sample_rate);
    let rate = params.rate as int;
    assert(0 * rate == 0);
    assert((k + 1) * rate == k * rate + rate) by (nonlinear_arith);
    lemma_add_mod_noop(k * rate, rate, cycle);
    lemma_add_mod_noop((k * rate) % cycle, rate, cycle);
    lemma_mod_twice(k * rate, cycle);
}

/// Both oscillators stay within their cycle for as long as a run lasts.
pub proof fn lemma_phases_in_cycle(sample_rate: u32, params: RingModParams, k: nat)
    requires
        sample_rate > 0,
    ensures
        0 <= lfo_position(sample_rate, params, k) < lfo_period(sample_rate),
        0 <= carrier_position(sample_rate, params, k) < carrier_period(sample_rate),
        0 <= angle_of(lfo_position(sample_rate, params, k), lfo_period(sample_rate)) < TURN,
        0 <= angle_of(carrier_position(sample_rate, params, k), carrier_period(sample_rate))
            < TURN,
{
    lemma_periods(sample_rate);
    lemma_wrapped_bounds(0, k * params.rate, lfo_period(sample_rate));
    if k > 0 {
        lemma_wrapped_bounds(
            carrier_position(sample_rate, params, (k - 1) as nat),
            carrier_frequency_at(sample_rate, params, k),
            carrier_period(sample_rate),
        );
    }
    lemma_angle_bounds(lfo_position(sample_rate, params, k), lfo_period(sample_rate));
    lemma_angle_bounds(carrier_position(sample_rate, params, k), carrier_period(sample_rate));
}

/// The level of the low-frequency oscillator at `angle`.
pub fn lfo_level(waveform: Waveform, angle: u32) -> (level: i32)
    ensures
        level == lfo_level_spec(waveform, angle),
        -UNIT <= level <= UNIT,
        waveform == Waveform::Square ==> level == 0 || level == UNIT,
{
    let wave: i32 = sine(angle);
    match waveform {
        Waveform::Sinusoidal => wave,
        Waveform::Square => if wave >= 0 {
            UNIT
        } else {
            0
        },
    }
}

/// The step of the carrier for one sample while the low-frequency
/// oscillator is at `level`.
pub fn carrier_step(params: &RingModParams, level: i32) -> (step: i128)
    ensures
        step == carrier_step_spec(*params, level as int),
{
    assert(-0x8000_0000 * 0x1_0000_0000 <= level * params.amount <= 0x8000_0000 * 0x1_0000_0000)
        by (nonlinear_arith)
        requires
            -0x8000_0000 <= level <= 0x8000_0000,
            0 <= params.amount <= 0x1_0000_0000,
    ;
    let swing: i128 = level as i128 * params.amount as i128;
    let factor: i128 = CARRIER_SCALE as i128 + 3 * swing;
    assert(-0x1_0000_0000 * 0x4_0000_0000_0000_0000 <= params.frequency * factor
        <= 0x1_0000_0000 * 0x4_0000_0000_0000_0000) by (nonlinear_arith)
        requires
            0 <= params.frequency <= 0x1_0000_0000,
            -0x4_0000_0000_0000_0000 <= factor <= 0x4_0000_0000_0000_0000,
    ;
    params.frequency as i128 * factor
}

/// A ring modulator in the middle of a run: the settings and the two phase
/// accumulators, which nothing else can reach.
pub struct RingModulator {
    sample_rate: u32,
    params: RingModParams,
    lfo: PhaseAccumulator,
    carrier: PhaseAccumulator,
    steps: Ghost<nat>,
}

impl RingModulator {
    #[verifier::type_invariant]
    spec fn on_course(self) -> bool {
        &&& self.sample_rate > 0
        &&& self.params.valid()
        &&& self.lfo.period() == lfo_period(self.sample_rate)
        &&& self.carrier.period() == carrier_period(self.sample_rate)
        &&& self.lfo.position() == lfo_position(self.sample_rate, self.params, self.steps@)
        &&& self.carrier.position() == carrier_position(self.sample_rate, self.params, self.steps@)
    }

    /// The sample rate of the run, in hertz.
    pub closed spec fn sample_rate(self) -> u32 {
        self.sample_rate
    }

    /// The settings of the run.
    pub closed spec fn params(self) -> RingModParams {
        self.params
    }

    /// The number of samples processed so far.
    pub closed spec fn steps(self) -> nat {
        self.steps@
    }

    /// A modulator at the start of a run, both oscillators at phase zero;
    /// or the reason why these settings are refused.
    pub fn new(sample_rate: u32, params: RingModParams) -> (res: Result<Self, ConfigError>)
        ensures
            match config_fault(sample_rate, params) {
                Some(fault) => res == Err::<Self, ConfigError>(fault),
                None => {
                    &&& res is Ok
                    &&& res->Ok_0.sample_rate() == sample_rate
                    &&& res->Ok_0.params() == params
                    &&& res->Ok_0.steps() == 0
                },
            },
    {
        match check_config(sample_rate, &params) {
            Err(fault) => Err(fault),
            Ok(()) => {
                proof {
                    lemma_periods(sample_rate);
                    lemma_lfo_advances(sample_rate, params, 0);
                }
                let lfo_steps: u128 = 1000 * sample_rate as u128;
                let carrier_steps: u128 = 1000 * CARRIER_SCALE as u128 * sample_rate as u128;
                Ok(
                    RingModulator {
                        sample_rate,
                        params,
                        lfo: PhaseAccumulator::new(lfo_steps),
                        carrier: PhaseAccumulator::new(carrier_steps),
                        steps: Ghost(0),
                    },
                )
            },
        }
    }

    /// Moves both oscillators on by one sample and returns what `sample`
    /// becomes.
    pub fn modulate(&mut self, sample: i32) -> (out: i32)
        ensures
            out == output_sample(
                old(self).sample_rate(),
                old(self).params(),
                sample,
                old(self).steps(),
            ),
            final(self).steps() == old(self).steps() + 1,
            final(self).sample_rate() == old(self).sample_rate(),
            final(self).params() == old(self).params(),
    {
        proof {
            use_type_invariant(&*self);
            lemma_lfo_advances(self.sample_rate, self.params, self.steps@);
            lemma_phases_in_cycle(self.sample_rate, self.params, self.steps@ + 1);
        }
        let mut lfo = self.lfo;
        lfo.advance(self.params.rate as i128);
        let level: i32 = lfo_level(self.params.lfo_waveform, lfo.angle());
        let mut carrier = self.carrier;
        carrier.advance(carrier_step(&self.params, level));
        let wave: i32 = sine(carrier.angle());
        let out: i32 = mix_sample(sample, wave, self.params.mix);
        *self = RingModulator {
            sample_rate: self.sample_rate,
            params: self.params,
            lfo,
            carrier,
            steps: Ghost(self.steps@ + 1),
        };
        out
    }
}

/// The outcome of a run.
#[derive(Clone, Debug, PartialEq, Eq)]
pub struct RingModOutput {
    /// The processed samples, in the order of the input.
    pub samples: Vec<i32>,
    /// Whether the input ran out before the intended length was reached.
    pub truncated: bool,
}

/// Applies the effect to the first `sample_length` samples of `signal`, or
/// to all of them if there are fewer, at `sample_rate` hertz.
///
/// Settings out of range and a zero sample rate are refused before any
/// sample is touched.
pub fn ring_mod(
    sample_rate: u32,
    sample_length: usize,
    signal: &[i32],
    params: &RingModParams,
) -> (res: Result<RingModOutput, ConfigError>)
    ensures
        match config_fault(sample_rate, *params) {
            Some(fault) => res is Err && res->Err_0 == fault,
            None => {
                &&& res is Ok
                &&& res->Ok_0.samples@ == processed(
                    sample_rate,
                    sample_length as nat,
                    signal@,
                    *params,
                )
                &&& res->Ok_0.samples@.len() == produced(sample_length as nat, signal@.len())
                &&& res->Ok_0.truncated == (signal@.len() < sample_length)
            },
        },
{
    let mut modulator = match RingModulator::new(sample_rate, *params) {
        Err(fault) => {
            return Err(fault);
        },
        Ok(modulator) => modulator,
    };
    let count: usize = if sample_length <= signal.len() {
        sample_length
    } else {
        signal.len()
    };
    let mut samples: Vec<i32> = Vec::new();
    let mut i: usize = 0;
    while i < count
        invariant
            i <= count,
            count == produced(sample_length as nat, signal@.len()),
            modulator.sample_rate() == sample_rate,
            modulator.params() == *params,
            modulator.steps() == i,
            samples@.len() == i,
            forall|j: int|
                0 <= j < i ==> samples@[j] == output_sample(
                    sample_rate,
                    *params,
                    #[trigger] signal@[j],
                    j as nat,
                ),
        decreases count - i,
    {
        let out: i32 = modulator.modulate(signal[i]);
        samples.push(out);
        i = i + 1;
    }
    assert(samples@ =~= processed(sample_rate, sample_length as nat, signal@, *params));
    Ok(RingModOutput { samples, truncated: signal.len() < sample_length })
}

} // verus!
