//! Fixed-point sine of an angle given as a fraction of a full turn.
//!
//! An angle is a `u32` that counts 2^-32 turns, so the whole range of the type
//! is one cycle and addition of angles wraps by itself. A level is an integer
//! in `[-UNIT, UNIT]` that stands for the real number `level / UNIT`.
//!
//! The sine is evaluated on the first quarter turn by an odd polynomial of
//! degree thirteen in Horner form, with sixty fractional bits, rounded to
//! the nearest level at the end, and carried to the other three quarters by
//! symmetry. With these coefficients it is within about half a unit of
//! level of the true sine.

use vstd::prelude::*;

verus! {

/// The level that stands for 1.
pub const UNIT: i32 = 0x4000_0000;

/// A quarter of a turn.
pub const QUARTER_TURN: u32 = 0x4000_0000;

/// Half a turn.
pub const HALF_TURN: u32 = 0x8000_0000;

/// The unit of the coefficients and of the intermediate results of the
/// polynomial: they carry sixty fractional bits, twice as many as a level.
pub const FINE: u128 = 0x1000_0000_0000_0000;

/// Coefficient of the linear term, close to pi/2.
pub const C1: u128 = 1_811_004_864_519_099_171;

/// Coefficient of the cubic term, close to (pi/2)^3 / 3!.
pub const C3: u128 = 744_745_899_209_968_708;

/// Coefficient of the term of degree 5, close to (pi/2)^5 / 5!.
pub const C5: u128 = 91_879_342_414_746_044;

/// Coefficient of the term of degree 7, close to (pi/2)^7 / 7!.
pub const C7: u128 = 5_397_694_162_738_677;

/// Coefficient of the term of degree 9, close to (pi/2)^9 / 9!.
pub const C9: u128 = 184_973_633_334_579;

/// Coefficient of the term of degree 11, close to (pi/2)^11 / 11!.
pub const C11: u128 = 4_145_566_537_522;

/// Coefficient of the term of degree 13, close to (pi/2)^13 / 13!.
pub const C13: u128 = 62_978_912_089;

/// The product of `w` and `t`, both with sixty fractional bits, cut back to
/// sixty fractional bits.
pub open spec fn scaled(w: int, t: int) -> int {
    (w * t) / (FINE as int)
}

/// The sine on the first quarter turn: `x` in `[0, UNIT]` stands for the
/// angle `x / UNIT` quarter turns. The result is rounded to the nearest
/// level.
pub open spec fn quarter_sine_spec(x: int) -> int {
    let w = x * x;
    let t5 = C11 - scaled(w, C13 as int);
    let t4 = C9 - scaled(w, t5);
    let t3 = C7 - scaled(w, t4);
    let t2 = C5 - scaled(w, t3);
    let t1 = C3 - scaled(w, t2);
    let t0 = C1 - scaled(w, t1);
    let y = (x * t0 + FINE / 2) / (FINE as int);
    if y > UNIT {
        UNIT as int
    } else {
        y
    }
}

/// The distance from `angle` to the nearest multiple of half a turn, which
/// is where the sine of `angle` is looked up on the first quarter.
pub open spec fn folded(angle: u32) -> int {
    let offset = angle % QUARTER_TURN;
    if (angle / QUARTER_TURN) % 2 == 0 {
        offset as int
    } else {
        QUARTER_TURN - offset
    }
}

/// The sine of `angle` as a level.
pub open spec fn sine_spec(angle: u32) -> int {
    if angle < HALF_TURN {
        quarter_sine_spec(folded(angle))
    } else {
        -quarter_sine_spec(folded(angle))
    }
}

/// Cutting the product of a number in `[0, FINE]` and a non-negative number
/// back to sixty fractional bits gives no more than that number.
pub proof fn lemma_scaled_bounds(w: int, t: int)
    requires
        0 <= w <= FINE,
        0 <= t,
    ensures
        0 <= w * t <= FINE * t,
        0 <= scaled(w, t) <= t,
        w == FINE ==> scaled(w, t) == t,
{
    assert(0 <= w * t <= FINE * t) by (nonlinear_arith)
        requires
            0 <= w <= FINE,
            0 <= t,
    ;
    assert((FINE * t) / (FINE as int) == t) by (nonlinear_arith);
    assert((w * t) / (FINE as int) <= (FINE * t) / (FINE as int)) by (nonlinear_arith)
        requires
            w * t <= FINE * t,
    ;
    assert(0 <= (w * t) / (FINE as int)) by (nonlinear_arith)
        requires
            0 <= w * t,
    ;
}

/// The square of a number in `[0, UNIT]` lies in `[0, FINE]`.
pub proof fn lemma_square_bounds(x: int)
    requires
        0 <= x <= UNIT,
    ensures
        0 <= x * x <= FINE,
        x == UNIT ==> x * x == FINE,
{
    assert(0 <= x * x <= UNIT * UNIT) by (nonlinear_arith)
        requires
            0 <= x <= UNIT,
    ;
    assert(UNIT * UNIT == FINE);
}

/// On the first quarter turn the sine lies in `[0, UNIT]`, is 0 only at 0 and
/// reaches `UNIT` at the quarter turn.
pub proof fn lemma_quarter_sine_bounds(x: int)
    requires
        0 <= x <= UNIT,
    ensures
        0 <= quarter_sine_spec(x) <= UNIT,
        x == 0 ==> quarter_sine_spec(x) == 0,
        x > 0 ==> quarter_sine_spec(x) > 0,
        x == UNIT ==> quarter_sine_spec(x) == UNIT,
{
    let w = x * x;
    lemma_square_bounds(x);
    let t5 = C11 - scaled(w, C13 as int);
    lemma_scaled_bounds(w, C13 as int);
    let t4 = C9 - scaled(w, t5);
    lemma_scaled_bounds(w, t5);
    let t3 = C7 - scaled(w, t4);
    lemma_scaled_bounds(w, t4);
    let t2 = C5 - scaled(w, t3);
    lemma_scaled_bounds(w, t3);
    let t1 = C3 - scaled(w, t2);
    lemma_scaled_bounds(w, t2);
    let t0 = C1 - scaled(w, t1);
    lemma_scaled_bounds(w, t1);
    assert(C1 - C3 <= t0 <= C1);
    if x == 0 {
        assert(x * t0 == 0) by (nonlinear_arith)
            requires
                x == 0,
        ;
    } else {
        assert(x * t0 >= C1 - C3) by (nonlinear_arith)
            requires
                x >= 1,
                t0 >= C1 - C3,
                C1 - C3 >= 0,
        ;
    }
    if x == UNIT {
        assert(t0 == FINE);
        assert(x * t0 == UNIT * FINE) by (nonlinear_arith)
            requires
                x == UNIT,
                t0 == FINE,
        ;
    }
}

/// The sine lies in `[-UNIT, UNIT]`, and it is non-negative exactly on the
/// first half turn, both ends included.
pub proof fn lemma_sine_bounds(angle: u32)
    ensures
        -UNIT <= sine_spec(angle) <= UNIT,
        sine_spec(angle) >= 0 <==> angle <= HALF_TURN,
        sine_spec(angle) == 0 <==> angle == 0 || angle == HALF_TURN,
{
    lemma_quarter_sine_bounds(folded(angle));
}

/// The sine at the four quarter points of the cycle.
pub proof fn lemma_sine_at_quarters()
    ensures
        sine_spec(0) == 0,
        sine_spec(QUARTER_TURN) == UNIT,
        sine_spec(HALF_TURN) == 0,
        sine_spec(0xC000_0000u32) == -UNIT,
{
    lemma_quarter_sine_bounds(0);
    lemma_quarter_sine_bounds(UNIT as int);
}

/// Half a turn further on, the sine has the opposite sign.
pub proof fn lemma_sine_half_turn(angle: u32)
    requires
        angle < HALF_TURN,
    ensures
        sine_spec((angle + HALF_TURN) as u32) == -sine_spec(angle),
{
    let far = (angle + HALF_TURN) as u32;
    assert(folded(far) == folded(angle));
}

/// The sine is the same at equal distances before and after a quarter turn.
pub proof fn lemma_sine_mirror(angle: u32)
    requires
        angle <= HALF_TURN,
    ensures
        sine_spec((HALF_TURN - angle) as u32) == sine_spec(angle),
{
    let back = (HALF_TURN - angle) as u32;
    lemma_quarter_sine_bounds(0);
    assert(folded(back) == folded(angle));
}

/// Evaluates the polynomial on the first quarter turn.
fn quarter_sine(x: u32) -> (y: i32)
    requires
        x <= QUARTER_TURN,
    ensures
        y == quarter_sine_spec(x as int),
        0 <= y <= UNIT,
{
    let x: u128 = x as u128;
    proof {
        lemma_square_bounds(x as int);
    }
    let w: u128 = x * x;
    proof {
        lemma_scaled_bounds(w as int, C13 as int);
    }
    let t5: u128 = C11 - w * C13 / FINE;
    proof {
        lemma_scaled_bounds(w as int, t5 as int);
    }
    let t4: u128 = C9 - w * t5 / FINE;
    proof {
        lemma_scaled_bounds(w as int, t4 as int);
    }
    let t3: u128 = C7 - w * t4 / FINE;
    proof {
        lemma_scaled_bounds(w as int, t3 as int);
    }
    let t2: u128 = C5 - w * t3 / FINE;
    proof {
        lemma_scaled_bounds(w as int, t2 as int);
    }
    let t1: u128 = C3 - w * t2 / FINE;
    proof {
        lemma_scaled_bounds(w as int, t1 as int);
    }
    let t0: u128 = C1 - w * t1 / FINE;
    assert(0 <= x * t0 <= UNIT * C1) by (nonlinear_arith)
        requires
            0 <= x <= UNIT,
            0 <= t0 <= C1,
    ;
    let y: u128 = (x * t0 + FINE / 2) / FINE;
    if y > UNIT as u128 {
        UNIT
    } else {
        y as i32
    }
}

/// The sine of `angle`, an angle in units of 2^-32 turns, as a level in
/// units of `1 / UNIT`.
pub fn sine(angle: u32) -> (level: i32)
    ensures
        level == sine_spec(angle),
        -UNIT <= level <= UNIT,
        level >= 0 <==> angle <= HALF_TURN,
{
    proof {
        lemma_sine_bounds(angle);
    }
    let offset: u32 = angle % QUARTER_TURN;
    let x: u32 = if (angle / QUARTER_TURN) % 2 == 0 {
        offset
    } else {
        QUARTER_TURN - offset
    };
    let y: i32 = quarter_sine(x);
    if angle < HALF_TURN {
        y
    } else {
        -y
    }
}

} // verus!
