//! The parameter set of the effect and its validation.
//!
//! Real-valued parameters are held in thousandths, so that every value the
//! engine works with is an integer: a rate of 0.18 Hz is `180`, an amount of
//! 6.7 is `6_700`.

use vstd::prelude::*;

verus! {

/// The largest `amount`: 10, in thousandths. An amount of `MAX_AMOUNT` lets
/// the oscillator push the carrier up by three times its base frequency.
pub const MAX_AMOUNT: u32 = 10_000;

/// The slowest `rate`: 0.1 Hz, in thousandths of a hertz.
pub const MIN_RATE: u32 = 100;

/// The fastest `rate`: 25 Hz, in thousandths of a hertz.
pub const MAX_RATE: u32 = 25_000;

/// The largest `mix`: 100 percent.
pub const MAX_MIX: u8 = 100;

/// The lowest `frequency`: 0.6 Hz, in thousandths of a hertz.
pub const MIN_FREQUENCY: u32 = 600;

/// The highest `frequency`: 4 kHz, in thousandths of a hertz.
pub const MAX_FREQUENCY: u32 = 4_000_000;

/// The shape of the low-frequency oscillator that sweeps the carrier.
#[derive(Clone, Copy, Debug, PartialEq, Eq, Structural)]
pub enum Waveform {
    /// The carrier frequency follows a sine: it swings smoothly above and
    /// below the base frequency.
    Sinusoidal,
    /// The carrier frequency jumps between the base frequency and the top
    /// of the swing, and is never anywhere between.
    Square,
}

/// The settings of one run. They do not change while the run lasts.
#[derive(Clone, Copy, Debug, PartialEq, Eq, Structural)]
pub struct RingModParams {
    /// How far the low-frequency oscillator moves the carrier, 0 to 10, in
    /// thousandths.
    pub amount: u32,
    /// The shape of the low-frequency oscillator.
    pub lfo_waveform: Waveform,
    /// Cycles per second of the low-frequency oscillator, 0.1 Hz to 25 Hz,
    /// in thousandths of a hertz.
    pub rate: u32,
    /// The share of the modulated signal in the output, 0 to 100 percent.
    pub mix: u8,
    /// The base frequency of the carrier, 0.6 Hz to 4 kHz, in thousandths of
    /// a hertz.
    pub frequency: u32,
}

/// Why a run was refused before it began.
#[derive(Clone, Copy, Debug, PartialEq, Eq, Structural)]
pub enum ConfigError {
    /// The sample rate is zero.
    ZeroSampleRate,
    /// `amount` is above `MAX_AMOUNT`.
    AmountOutOfRange,
    /// `rate` is outside `MIN_RATE ..= MAX_RATE`.
    RateOutOfRange,
    /// `mix` is above `MAX_MIX`.
    MixOutOfRange,
    /// `frequency` is outside `MIN_FREQUENCY ..= MAX_FREQUENCY`.
    FrequencyOutOfRange,
}

impl RingModParams {
    /// The first field, in the order of their declaration, that is out of
    /// its range, if there is one.
    pub open spec fn fault(self) -> Option<ConfigError> {
        if self.amount > MAX_AMOUNT {
            Some(ConfigError::AmountOutOfRange)
        } else if self.rate < MIN_RATE || self.rate > MAX_RATE {
            Some(ConfigError::RateOutOfRange)
        } else if self.mix > MAX_MIX {
            Some(ConfigError::MixOutOfRange)
        } else if self.frequency < MIN_FREQUENCY || self.frequency > MAX_FREQUENCY {
            Some(ConfigError::FrequencyOutOfRange)
        } else {
            None
        }
    }

    /// Every field is within its range.
    pub open spec fn valid(self) -> bool {
        &&& self.amount <= MAX_AMOUNT
        &&& MIN_RATE <= self.rate <= MAX_RATE
        &&& self.mix <= MAX_MIX
        &&& MIN_FREQUENCY <= self.frequency <= MAX_FREQUENCY
    }

    /// Checks every field against its range and names the first that is
    /// outside.
    pub fn validate(&self) -> (res: Result<(), ConfigError>)
        ensures
            res is Ok <==> self.valid(),
            res is Err ==> self.fault() == Some(res->Err_0),
    {
        if self.amount > MAX_AMOUNT {
            Err(ConfigError::AmountOutOfRange)
        } else if self.rate < MIN_RATE || self.rate > MAX_RATE {
            Err(ConfigError::RateOutOfRange)
        } else if self.mix > MAX_MIX {
            Err(ConfigError::MixOutOfRange)
        } else if self.frequency < MIN_FREQUENCY || self.frequency > MAX_FREQUENCY {
            Err(ConfigError::FrequencyOutOfRange)
        } else {
            Ok(())
        }
    }
}

/// The reason to refuse a run at `sample_rate` with `params`, if there is
/// one: a zero sample rate first, then the first field out of its range.
pub open spec fn config_fault(sample_rate: u32, params: RingModParams) -> Option<ConfigError> {
    if sample_rate == 0 {
        Some(ConfigError::ZeroSampleRate)
    } else {
        params.fault()
    }
}

/// A run at `sample_rate` with `params` is refused exactly when
/// `config_fault` names a reason.
pub fn check_config(sample_rate: u32, params: &RingModParams) -> (res: Result<(), ConfigError>)
    ensures
        res is Ok <==> config_fault(sample_rate, *params) is None,
        res is Ok <==> sample_rate > 0 && params.valid(),
        res is Err ==> config_fault(sample_rate, *params) == Some(res->Err_0),
{
    if sample_rate == 0 {
        Err(ConfigError::ZeroSampleRate)
    } else {
        params.validate()
    }
}

} // verus!
