use ring_modulator::mixer::mix_sample;
use ring_modulator::phase::{PhaseAccumulator, MAX_PERIOD};
use ring_modulator::sine::{sine, HALF_TURN, QUARTER_TURN, UNIT};
use ring_modulator::{ring_mod, RingModParams, Waveform};

fn true_sine(angle: u32) -> f64 {
    (angle as f64 / 4_294_967_296.0 * 2.0 * std::f64::consts::PI).sin()
}

/// The effect as the real-number formulas give it, in double precision.
fn reference(sample_rate: u32, signal: &[i32], params: &RingModParams) -> Vec<i32> {
    let two_pi = 2.0 * std::f64::consts::PI;
    let mix = params.mix as f64 / 100.0;
    let amount = params.amount as f64 / 1000.0 / 10.0;
    let frequency = params.frequency as f64 / 1000.0;
    let rate = params.rate as f64 / 1000.0;
    let mut lfo_phase = 0.0f64;
    let mut carrier_phase = 0.0f64;
    let lfo_increment = two_pi * rate / sample_rate as f64;
    let mut out = Vec::new();
    for sample in signal {
        lfo_phase = (lfo_phase + lfo_increment).rem_euclid(two_pi);
        let lfo = match params.lfo_waveform {
            Waveform::Sinusoidal => lfo_phase.sin(),
            Waveform::Square => {
                if lfo_phase.sin() >= 0.0 {
                    1.0
                } else {
                    0.0
                }
            }
        };
        let carrier_increment =
            two_pi * (frequency + lfo * (frequency * 3.0 * amount)) / sample_rate as f64;
        carrier_phase = (carrier_phase + carrier_increment).rem_euclid(two_pi);
        let carrier = carrier_phase.sin();
        let sample = *sample as f64;
        out.push((sample * (1.0 - mix) + sample * carrier * mix) as i32);
    }
    out
}

fn noise(len: usize, peak: i32) -> Vec<i32> {
    let mut state: u64 = 0x2545_F491_4F6C_DD1D;
    let mut signal = Vec::with_capacity(len);
    for _ in 0..len {
        state ^= state << 13;
        state ^= state >> 7;
        state ^= state << 17;
        signal.push((state % (2 * peak as u64 + 1)) as i32 - peak);
    }
    signal
}

fn assert_close(sample_rate: u32, signal: &[i32], params: &RingModParams, tolerance: i64) {
    let ours = ring_mod(sample_rate, signal.len(), signal, params).unwrap().samples;
    let theirs = reference(sample_rate, signal, params);
    assert_eq!(ours.len(), theirs.len());
    for i in 0..ours.len() {
        assert!(
            (ours[i] as i64 - theirs[i] as i64).abs() <= tolerance,
            "sample {}: {} against {}",
            i,
            ours[i],
            theirs[i]
        );
    }
}

#[test]
fn sine_at_the_quarter_points() {
    assert_eq!(sine(0), 0);
    assert_eq!(sine(QUARTER_TURN), UNIT);
    assert_eq!(sine(HALF_TURN), 0);
    assert_eq!(sine(HALF_TURN + QUARTER_TURN), -UNIT);
}

#[test]
fn sine_at_known_angles() {
    // A twelfth of a turn: sin(30 degrees) = 1/2.
    let twelfth = (1u64 << 32) / 12;
    assert_eq!(sine(twelfth as u32), UNIT / 2);
    // An eighth of a turn: sin(45 degrees) = sqrt(1/2).
    assert_eq!(sine(1 << 29), 759_250_125);
    // One unit of angle is 2 pi / 2^32 of a radian, which is 1.57 units of
    // level.
    assert_eq!(sine(1), 2);
    assert_eq!(sine(2), 3);
    assert_eq!(sine(3), 5);
    assert_eq!(sine(u32::MAX), -2);
}

#[test]
fn sine_follows_the_true_sine() {
    let mut angle: u32 = 0;
    for _ in 0..200_000 {
        let level = sine(angle);
        assert!(-UNIT <= level && level <= UNIT);
        let error = level as f64 - true_sine(angle) * UNIT as f64;
        assert!(error.abs() < 0.51, "angle {}: error {}", angle, error);
        angle = angle.wrapping_add(2_654_435_761);
    }
}

#[test]
fn sine_follows_the_true_sine_all_around() {
    let mut worst = 0.0f64;
    let mut angle: u64 = 0;
    while angle < 1 << 32 {
        let error = sine(angle as u32) as f64 - true_sine(angle as u32) * UNIT as f64;
        worst = worst.max(error.abs());
        angle += 1021;
    }
    assert!(worst < 0.51, "worst error {}", worst);
}

#[test]
fn sine_close_to_the_quarter_points() {
    for centre in [0u32, QUARTER_TURN, HALF_TURN, HALF_TURN + QUARTER_TURN] {
        for offset in 0..2_000u32 {
            for angle in [centre.wrapping_add(offset), centre.wrapping_sub(offset)] {
                let error = sine(angle) as f64 - true_sine(angle) * UNIT as f64;
                assert!(error.abs() < 0.51);
            }
        }
    }
}

#[test]
fn sine_is_symmetric() {
    let mut angle: u32 = 1;
    for _ in 0..50_000 {
        let folded = angle % HALF_TURN;
        assert_eq!(sine(folded + HALF_TURN), -sine(folded));
        assert_eq!(sine(HALF_TURN - folded), sine(folded));
        assert_eq!(sine(0u32.wrapping_sub(angle)), -sine(angle));
        angle = angle.wrapping_add(2_246_822_519);
    }
}

#[test]
fn sine_is_not_negative_on_the_first_half_turn_only() {
    for angle in [0, 1, QUARTER_TURN, HALF_TURN - 1, HALF_TURN] {
        assert!(sine(angle) >= 0);
    }
    for angle in [HALF_TURN + 1, HALF_TURN + QUARTER_TURN, u32::MAX] {
        assert!(sine(angle) < 0);
    }
}

#[test]
fn sine_rises_on_the_first_quarter() {
    let mut last = sine(0);
    let mut angle: u32 = 0;
    while angle < QUARTER_TURN - 100_003 {
        angle += 100_003;
        let level = sine(angle);
        assert!(level > last);
        last = level;
    }
}

#[test]
fn accumulator_starts_at_zero() {
    let acc = PhaseAccumulator::new(8);
    assert_eq!(acc.position(), 0);
    assert_eq!(acc.period(), 8);
    assert_eq!(acc.angle(), 0);
}

#[test]
fn accumulator_wraps_forward() {
    let mut acc = PhaseAccumulator::new(8);
    acc.advance(3);
    assert_eq!(acc.position(), 3);
    acc.advance(3);
    assert_eq!(acc.position(), 6);
    acc.advance(3);
    assert_eq!(acc.position(), 1);
    acc.advance(8);
    assert_eq!(acc.position(), 1);
    acc.advance(8_000_007);
    assert_eq!(acc.position(), 0);
}

#[test]
fn accumulator_wraps_backward() {
    let mut acc = PhaseAccumulator::new(8);
    acc.advance(-1);
    assert_eq!(acc.position(), 7);
    acc.advance(-7);
    assert_eq!(acc.position(), 0);
    acc.advance(-8);
    assert_eq!(acc.position(), 0);
    acc.advance(-17);
    assert_eq!(acc.position(), 7);
    acc.advance(i128::MIN);
    assert_eq!(acc.position(), 7);
    acc.advance(i128::MAX);
    assert_eq!(acc.position(), 6);
}

#[test]
fn accumulator_angle_is_the_fraction_of_the_cycle() {
    let mut acc = PhaseAccumulator::new(8);
    acc.advance(2);
    assert_eq!(acc.angle(), QUARTER_TURN);
    acc.advance(2);
    assert_eq!(acc.angle(), HALF_TURN);
    acc.advance(3);
    assert_eq!(acc.angle(), 0xE000_0000);
    let mut acc = PhaseAccumulator::new(3);
    acc.advance(1);
    assert_eq!(acc.angle(), 0x5555_5555);
    acc.advance(1);
    assert_eq!(acc.angle(), 0xAAAA_AAAA);
}

#[test]
fn accumulator_stays_in_its_cycle() {
    let mut acc = PhaseAccumulator::new(44_100_000);
    let mut step: i128 = 180;
    for i in 0..100_000 {
        acc.advance(step);
        assert!(acc.position() < acc.period());
        assert_eq!(acc.period(), 44_100_000);
        step = (step * 31 + 7) % 1_000_000_007 * if i % 3 == 0 { -1 } else { 1 };
    }
}

#[test]
fn accumulator_with_the_longest_period() {
    let mut acc = PhaseAccumulator::new(MAX_PERIOD);
    acc.advance(-1);
    assert_eq!(acc.position(), MAX_PERIOD - 1);
    assert_eq!(acc.angle(), u32::MAX);
    acc.advance(1);
    assert_eq!(acc.position(), 0);
    acc.advance((MAX_PERIOD / 2) as i128);
    assert_eq!(acc.angle(), HALF_TURN);
}

#[test]
fn accumulator_follows_the_closed_form() {
    let mut acc = PhaseAccumulator::new(44_100_000);
    for k in 1..=50_000u128 {
        acc.advance(156_000);
        assert_eq!(acc.position(), (k * 156_000) % 44_100_000);
    }
}

#[test]
fn mix_by_hand() {
    // Half dry, half wet, carrier at one half: 1000 * (0.5 + 0.25).
    assert_eq!(mix_sample(1000, UNIT / 2, 50), 750);
    // Carrier at minus one half: 1000 * (0.5 - 0.25).
    assert_eq!(mix_sample(1000, -UNIT / 2, 50), 250);
    // 71 percent wet, carrier at zero: 1000 * 0.29.
    assert_eq!(mix_sample(1000, 0, 71), 290);
    // Full wet, carrier at minus one: the sample with its sign turned.
    assert_eq!(mix_sample(1000, -UNIT, 100), -1000);
    assert_eq!(mix_sample(0, UNIT, 100), 0);
}

#[test]
fn mix_cuts_towards_zero() {
    // 1001 * 0.75 = 750.75 and -1001 * 0.75 = -750.75.
    assert_eq!(mix_sample(1001, UNIT / 2, 50), 750);
    assert_eq!(mix_sample(-1001, UNIT / 2, 50), -750);
    // 3 * 0.29 = 0.87 and -3 * 0.29 = -0.87.
    assert_eq!(mix_sample(3, 0, 71), 0);
    assert_eq!(mix_sample(-3, 0, 71), 0);
    // 7 * 0.29 = 2.03 and -7 * 0.29 = -2.03.
    assert_eq!(mix_sample(7, 0, 71), 2);
    assert_eq!(mix_sample(-7, 0, 71), -2);
}

#[test]
fn mix_keeps_to_the_range_of_a_sample() {
    assert_eq!(mix_sample(i32::MIN, -UNIT, 100), i32::MAX);
    assert_eq!(mix_sample(i32::MIN, UNIT, 100), i32::MIN);
    assert_eq!(mix_sample(i32::MAX, -UNIT, 100), -i32::MAX);
    assert_eq!(mix_sample(i32::MAX, UNIT, 100), i32::MAX);
}

#[test]
fn mix_of_zero_ignores_the_carrier() {
    for sample in [0, 1, -1, 12_345, i32::MAX, i32::MIN] {
        for level in [-UNIT, -1, 0, 1, 77_777, UNIT] {
            assert_eq!(mix_sample(sample, level, 0), sample);
        }
    }
}

#[test]
fn mix_never_makes_a_sample_larger() {
    let samples = noise(2_000, 1_000_000);
    let mut level: i32 = -UNIT;
    for (i, sample) in samples.iter().enumerate() {
        let out = mix_sample(*sample, level, (i % 101) as u8);
        assert!(out.unsigned_abs() <= sample.unsigned_abs());
        level = (level as i64 + 1_073_741).min(UNIT as i64) as i32;
    }
}

#[test]
fn square_sweep_follows_the_real_number_formulas() {
    let signal = noise(20_000, 32_767);
    let params = RingModParams {
        mix: 71,
        frequency: 156_000,
        amount: 6_700,
        lfo_waveform: Waveform::Square,
        rate: 180,
    };
    assert_close(44_100, &signal, &params, 1);
}

#[test]
fn square_sweep_across_half_cycles_follows_the_real_number_formulas() {
    let signal = noise(30_000, 32_767);
    let params = RingModParams {
        mix: 85,
        frequency: 440_000,
        amount: 2_500,
        lfo_waveform: Waveform::Square,
        rate: 7_001,
    };
    assert_close(44_100, &signal, &params, 1);
}

#[test]
fn sine_sweep_follows_the_real_number_formulas() {
    let signal = noise(20_000, 32_767);
    let params = RingModParams {
        mix: 71,
        frequency: 156_000,
        amount: 6_700,
        lfo_waveform: Waveform::Sinusoidal,
        rate: 180,
    };
    assert_close(44_100, &signal, &params, 1);
}

#[test]
fn fast_sine_sweep_follows_the_real_number_formulas() {
    let signal = noise(20_000, 32_767);
    let params = RingModParams {
        mix: 100,
        frequency: 4_000_000,
        amount: 10_000,
        lfo_waveform: Waveform::Sinusoidal,
        rate: 25_000,
    };
    assert_close(48_000, &signal, &params, 1);
}

#[test]
fn wide_samples_follow_the_real_number_formulas() {
    // The sweep sums up what is lost when the level of the slow oscillator
    // is rounded: over this run the output stays within a millionth of the
    // widest sample.
    let signal = noise(20_000, 8_388_607);
    let params = RingModParams {
        mix: 100,
        frequency: 4_000_000,
        amount: 10_000,
        lfo_waveform: Waveform::Sinusoidal,
        rate: 25_000,
    };
    assert_close(48_000, &signal, &params, 8);
    let params = RingModParams { lfo_waveform: Waveform::Square, rate: 24_999, ..params };
    assert_close(48_000, &signal, &params, 1);
}

#[test]
fn slow_settings_follow_the_real_number_formulas() {
    let signal = noise(20_000, 32_767);
    let params = RingModParams {
        mix: 1,
        frequency: 600,
        amount: 1,
        lfo_waveform: Waveform::Sinusoidal,
        rate: 100,
    };
    assert_close(8_000, &signal, &params, 1);
}
