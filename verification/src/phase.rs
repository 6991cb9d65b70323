//! Phase accumulators.
//!
//! The phase of an oscillator is kept as a whole number of steps within a
//! period: `position / period` is the fraction of the cycle that has gone by.
//! Adding a step wraps around the period, so the position never leaves
//! `[0, period)` however long the accumulator runs, and no rounding enters.

use vstd::arithmetic::div_mod::{lemma_fundamental_div_mod, lemma_fundamental_div_mod_converse};
use vstd::prelude::*;

verus! {

/// The longest period an accumulator can have: 2^96.
pub const MAX_PERIOD: u128 = 0x1_0000_0000_0000_0000_0000_0000;

/// The number of angle units in a full turn: 2^32.
pub const TURN: u128 = 0x1_0000_0000;

/// The position that follows `position` when `step` is added and the sum is
/// wrapped into `[0, period)`. The step may be negative.
pub open spec fn wrapped(position: int, step: int, period: int) -> int {
    (position + step) % period
}

/// The angle, in units of 2^-32 turns, that `position` stands for within
/// `period`, rounded down.
pub open spec fn angle_of(position: int, period: int) -> int {
    (position * TURN) / period
}

/// A wrapped position stays within the period.
pub proof fn lemma_wrapped_bounds(position: int, step: int, period: int)
    requires
        0 < period,
    ensures
        0 <= wrapped(position, step, period) < period,
{
    lemma_fundamental_div_mod(position + step, period);
    assert(0 <= (position + step) % period < period) by (nonlinear_arith)
        requires
            0 < period,
    ;
}

/// The angle of a position within the period is less than a full turn.
pub proof fn lemma_angle_bounds(position: int, period: int)
    requires
        0 <= position < period,
    ensures
        0 <= angle_of(position, period) < TURN,
{
    assert(0 <= (position * TURN) / period < TURN) by (nonlinear_arith)
        requires
            0 <= position < period,
    ;
}

/// Wrapping does not depend on which member of its class modulo the period
/// stands for the step.
proof fn lemma_wrapped_congruent(position: int, step: int, reduced: int, quotient: int, period: int)
    requires
        0 < period,
        step == quotient * period + reduced,
    ensures
        wrapped(position, step, period) == wrapped(position, reduced, period),
{
    let low = (position + reduced) % period;
    let high = (position + reduced) / period;
    lemma_fundamental_div_mod(position + reduced, period);
    assert(0 <= low < period) by (nonlinear_arith)
        requires
            low == (position + reduced) % period,
            0 < period,
    ;
    assert(position + step == (quotient + high) * period + low) by (nonlinear_arith)
        requires
            step == quotient * period + reduced,
            position + reduced == period * high + low,
    ;
    lemma_fundamental_div_mod_converse(position + step, period, quotient + high, low);
}

/// The phase of an oscillator: a position within a period.
#[derive(Clone, Copy)]
pub struct PhaseAccumulator {
    position: u128,
    period: u128,
}

impl PhaseAccumulator {
    #[verifier::type_invariant]
    spec fn in_cycle(self) -> bool {
        0 < self.period <= MAX_PERIOD && self.position < self.period
    }

    /// The number of steps gone by since the cycle began.
    pub closed spec fn position_spec(&self) -> u128 {
        self.position
    }

    /// The number of steps in a cycle.
    pub closed spec fn period_spec(&self) -> u128 {
        self.period
    }

    /// The number of steps gone by since the cycle began: always less than
    /// the period.
    #[verifier::when_used_as_spec(position_spec)]
    pub fn position(&self) -> (position: u128)
        ensures
            position == self.position(),
            position < self.period(),
    {
        proof {
            use_type_invariant(self);
        }
        self.position
    }

    /// The number of steps in a cycle: never zero.
    #[verifier::when_used_as_spec(period_spec)]
    pub fn period(&self) -> (period: u128)
        ensures
            period == self.period(),
            0 < period <= MAX_PERIOD,
    {
        proof {
            use_type_invariant(self);
        }
        self.period
    }

    /// An accumulator at the start of its cycle.
    pub fn new(period: u128) -> (acc: Self)
        requires
            0 < period <= MAX_PERIOD,
        ensures
            acc.position() == 0,
            acc.period() == period,
    {
        PhaseAccumulator { position: 0, period }
    }

    /// Moves the phase on by `step`, wrapping around the period. The
    /// position after the call is in `[0, period)` again.
    pub fn advance(&mut self, step: i128)
        ensures
            final(self).period() == old(self).period(),
            final(self).position() == wrapped(
                old(self).position() as int,
                step as int,
                old(self).period() as int,
            ),
            0 <= final(self).position() < final(self).period(),
    {
        proof {
            use_type_invariant(&*self);
        }
        let period: u128 = self.period;
        let reduced: u128 = if step >= 0 {
            let magnitude: u128 = step as u128;
            proof {
                lemma_fundamental_div_mod(magnitude as int, period as int);
                assert(step == (magnitude / period) * period + magnitude % period)
                    by (nonlinear_arith)
                    requires
                        step == magnitude,
                        magnitude == period * (magnitude / period) + magnitude % period,
                ;
                lemma_wrapped_congruent(
                    self.position as int,
                    step as int,
                    (magnitude % period) as int,
                    (magnitude / period) as int,
                    period as int,
                );
            }
            magnitude % period
        } else {
            let magnitude: u128 = (-(step + 1)) as u128 + 1;
            let excess: u128 = magnitude % period;
            proof {
                lemma_fundamental_div_mod(magnitude as int, period as int);
            }
            if excess == 0 {
                proof {
                    assert(step == (-(magnitude / period)) * period + 0) by (nonlinear_arith)
                        requires
                            step == -magnitude,
                            magnitude == period * (magnitude / period) + 0,
                    ;
                    lemma_wrapped_congruent(
                        self.position as int,
                        step as int,
                        0,
                        -(magnitude / period),
                        period as int,
                    );
                }
                0
            } else {
                proof {
                    assert(step == (-(magnitude / period) - 1) * period + (period - excess))
                        by (nonlinear_arith)
                        requires
                            step == -magnitude,
                            magnitude == period * (magnitude / period) + excess,
                    ;
                    lemma_wrapped_congruent(
                        self.position as int,
                        step as int,
                        period - excess,
                        -(magnitude / period) - 1,
                        period as int,
                    );
                }
                period - excess
            }
        };
        let sum: u128 = self.position + reduced;
        proof {
            let low: int = if sum >= period {
                sum - period
            } else {
                sum as int
            };
            let turns: int = if sum >= period {
                1
            } else {
                0
            };
            lemma_fundamental_div_mod_converse(sum as int, period as int, turns, low);
        }
        self.position = if sum >= period {
            sum - period
        } else {
            sum
        };
    }

    /// The phase as an angle in units of 2^-32 turns, rounded down.
    pub fn angle(&self) -> (angle: u32)
        ensures
            angle == angle_of(self.position() as int, self.period() as int),
    {
        proof {
            use_type_invariant(self);
            lemma_angle_bounds(self.position as int, self.period as int);
        }
        ((self.position * TURN) / self.period) as u32
    }
}

} // verus!
