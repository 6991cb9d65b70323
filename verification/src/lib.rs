//! A ring modulator for PCM audio.
//!
//! The input signal is multiplied by a carrier oscillator whose frequency is
//! swept by a low-frequency oscillator, and the product is blended with the
//! dry signal. Everything is computed in integers: parameters in
//! thousandths, phases as exact positions within a cycle, levels with
//! thirty fractional bits.

pub mod engine;
pub mod laws;
pub mod mixer;
pub mod params;
pub mod phase;
pub mod sine;

pub use engine::{ring_mod, RingModOutput, RingModulator};
pub use params::{ConfigError, RingModParams, Waveform};
