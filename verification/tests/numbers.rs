use openoutcry::binary64::Binary64;
use openoutcry::scoring::rollout_submission;
use openoutcry::splitmix::SplitMix64;
use openoutcry::text::append_decimal;

fn of(x: f64) -> Binary64 {
    Binary64 { bits: x.to_bits() }
}

const SAMPLES: [f64; 19] = [
    0.0,
    -0.0,
    5e-324,
    -5e-324,
    f64::MIN_POSITIVE,
    -f64::MIN_POSITIVE,
    0.02,
    -0.02,
    0.5,
    1.0,
    -1.0,
    1.8,
    3.0,
    f64::MAX,
    -f64::MAX,
    f64::INFINITY,
    f64::NEG_INFINITY,
    f64::NAN,
    -f64::NAN,
];

#[test]
fn comparisons_with_zero_match_the_hardware() {
    for x in SAMPLES {
        assert_eq!(of(x).is_at_most_zero(), x <= 0.0, "{x}");
        assert_eq!(of(x).is_above_zero(), x > 0.0, "{x}");
        assert_eq!(of(x).negate().bits, (-x).to_bits(), "{x}");
        assert_eq!(of(x).negate().negate(), of(x));
    }
}

#[test]
fn classes_and_the_bound_of_five_match_the_hardware() {
    let mut xs: Vec<f64> = SAMPLES.to_vec();
    xs.extend([4.0, 5.0, -5.0, 8.0, 1e300, 4.999_999_999_999_999, 5.000_000_000_000_001]);
    xs.extend([-4.999_999_999_999_999, -5.000_000_000_000_001, -7.5]);
    for x in xs {
        assert_eq!(of(x).is_not_a_number(), x.is_nan(), "{x}");
        assert_eq!(of(x).is_finite_number(), x.is_finite(), "{x}");
        assert_eq!(of(x).is_within_five(), x.is_finite() && x.abs() <= 5.0, "{x}");
    }
}

#[test]
fn draw_comparisons_match_the_hardware() {
    let span = (1u64 << 53) as f64;
    let mut probabilities: Vec<f64> = SAMPLES.to_vec();
    for e in 0..70 {
        let p = 0.5f64.powi(e);
        probabilities.push(p);
        probabilities.push(p * 1.28);
        probabilities.push(p * 0.999_999_999_999_999_9);
    }
    probabilities.push(0.06);
    probabilities.push(0.13);
    for p in probabilities {
        let mut draws: Vec<u64> = vec![0, 1, 2, 3, (1 << 53) - 1, 1 << 52, (1 << 52) - 1];
        if p.is_finite() && p > 0.0 && p < 1.0 {
            let near = (p * span) as u64;
            draws.extend([near.saturating_sub(1), near, near + 1]);
        }
        for draw in draws {
            if draw < 1 << 53 {
                assert_eq!(of(p).is_above_draw(draw), (draw as f64 / span) < p, "{draw} {p}");
            }
        }
    }
}

#[test]
fn the_generator_is_splitmix64() {
    // The reference generator, over the masked seed.
    let mut state: u64 = 42 ^ 0x1234_5678_9abc_def0;
    let mut rng = SplitMix64::new(42);
    for _ in 0..1000 {
        state = state.wrapping_add(0x9e37_79b9_7f4a_7c15);
        let mut z = state;
        z = (z ^ (z >> 30)).wrapping_mul(0xbf58_476d_1ce4_e5b9);
        z = (z ^ (z >> 27)).wrapping_mul(0x94d0_49bb_1331_11eb);
        z ^= z >> 31;
        let draw = rng.next_unit();
        assert_eq!(draw, z >> 11);
        assert!(draw < 1 << 53);
    }
    // The published first output of the generator at state zero.
    let mut zero = SplitMix64::new(0x1234_5678_9abc_def0);
    assert_eq!(zero.next_unit(), 0xe220_a839_7b1d_cdaf >> 11);
}

#[test]
fn decimals_have_no_leading_zeros() {
    for n in [0, 1, 9, 10, 42, 100, 1009, usize::MAX] {
        let mut text = String::from("n=");
        append_decimal(&mut text, n);
        assert_eq!(text, format!("n={n}"));
    }
}

#[test]
fn a_rollout_is_submitted_with_even_confidence() {
    let xs = [0.01, -0.02, 0.0, f64::NAN, f64::INFINITY];
    let submission = rollout_submission(xs.iter().map(|&x| of(x)).collect(), 12);
    assert_eq!(submission.agent_id, "verifiers-rollout");
    assert_eq!(submission.in_sample_trials, 12);
    assert_eq!(submission.run.outcomes, vec![true, false, false, false, true]);
    assert_eq!(submission.run.confidences, vec![of(0.5); 5]);
    assert_eq!(submission.run.period_returns[1], of(-0.02));
    assert_eq!(submission.run.cost, of(0.0));
}
