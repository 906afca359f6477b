use openoutcry::binary64::Binary64;
use openoutcry::scenario_gen::{
    amplify, generate_scenario, level_seed, plan_jumps, train_test_split, AmplifyParams,
    DistributionMode, Scenario, ScenarioSpec,
};
use openoutcry::splitmix::SplitMix64;
use sharpebench_sim::Dataset;

/// Dependency-free FNV-1a/64 over bytes.
fn fnv1a(bytes: &[u8]) -> u64 {
    let mut h: u64 = 0xcbf2_9ce4_8422_2325;
    for &b in bytes {
        h ^= b as u64;
        h = h.wrapping_mul(0x0000_0100_0000_01b3);
    }
    h
}

const GOLDEN_CALM_4X120_SEED7_FNV1A: u64 = 0xb7cf_976c_7121_9c52;
const GOLDEN_HARD_4X120_SEED7_FNV1A: u64 = 0x2ef5_aff1_a716_05e6;
const GOLDEN_EXTREME_4X120_SEED7_FNV1A: u64 = 0xb082_0c4d_2c73_7f88;

/// Applies a scenario's amplification to its panel.
fn realize(scenario: Scenario) -> Dataset {
    let mut data = scenario.base;
    let Some(amplification) = scenario.amplification else {
        return data;
    };
    let vol_mult = f64::from_bits(amplification.vol_mult.bits);
    assert_eq!(amplification.jumps.len(), data.closes.len());
    for (series, jumps) in data.closes.values_mut().zip(amplification.jumps.iter()) {
        if series.len() < 2 {
            assert!(jumps.is_empty());
            continue;
        }
        let rets: Vec<f64> = (1..series.len())
            .map(|t| series[t] / series[t - 1] - 1.0)
            .collect();
        assert_eq!(jumps.len(), rets.len());
        let mean = rets.iter().sum::<f64>() / rets.len() as f64;
        let mut price = series[0];
        for (i, r) in rets.iter().enumerate() {
            let jump = f64::from_bits(jumps[i].bits);
            let adjusted = (mean + vol_mult * (r - mean) + jump).max(-0.95);
            price *= 1.0 + adjusted;
            series[i + 1] = price;
        }
    }
    data
}

fn json_of(spec: &ScenarioSpec, seed: u64) -> String {
    serde_json::to_string(&realize(generate_scenario(spec, seed))).unwrap()
}

/// Mean per-symbol stdev of simple returns.
fn realized_vol(d: &Dataset) -> f64 {
    let mut acc = 0.0;
    for series in d.closes.values() {
        let rets: Vec<f64> = (1..series.len())
            .map(|t| series[t] / series[t - 1] - 1.0)
            .collect();
        let mean = rets.iter().sum::<f64>() / rets.len() as f64;
        let var = rets.iter().map(|r| (r - mean).powi(2)).sum::<f64>() / rets.len() as f64;
        acc += var.sqrt();
    }
    acc / d.closes.len() as f64
}

fn spec_of(mode: DistributionMode) -> ScenarioSpec {
    ScenarioSpec {
        distribution_mode: mode,
        ..ScenarioSpec::default()
    }
}

fn golden_spec() -> ScenarioSpec {
    ScenarioSpec {
        distribution_mode: DistributionMode::Calm,
        n_symbols: 4,
        n_days: 120,
        ..ScenarioSpec::default()
    }
}

#[test]
fn generate_is_deterministic() {
    let spec = spec_of(DistributionMode::Hard);
    assert_eq!(json_of(&spec, 42), json_of(&spec, 42));
}

#[test]
fn distribution_modes_diverge() {
    let cj = json_of(&spec_of(DistributionMode::Calm), 1);
    let hj = json_of(&spec_of(DistributionMode::Hard), 1);
    let ej = json_of(&spec_of(DistributionMode::Extreme), 1);
    assert_ne!(cj, hj);
    assert_ne!(hj, ej);
}

#[test]
fn distribution_mode_serializes_lowercase() {
    assert_eq!(
        serde_json::to_string(DistributionMode::Extreme.wire_name()).unwrap(),
        "\"extreme\""
    );
}

#[test]
fn level_seed_bounded_wraps_within_interval() {
    let spec = ScenarioSpec {
        start_level: 100,
        num_levels: 8,
        ..ScenarioSpec::default()
    };
    for index in 0..32 {
        let s = level_seed(&spec, index);
        assert!((100..108).contains(&s));
    }
    assert_eq!(level_seed(&spec, 0), 100);
    assert_eq!(level_seed(&spec, 8), 100);
    assert_eq!(level_seed(&spec, 9), 101);
}

#[test]
fn level_seed_unbounded_is_offset() {
    let spec = ScenarioSpec {
        start_level: 5,
        num_levels: 0,
        ..ScenarioSpec::default()
    };
    assert_eq!(level_seed(&spec, 0), 5);
    assert_eq!(level_seed(&spec, 17), 22);
}

#[test]
fn train_test_split_is_disjoint() {
    let train = ScenarioSpec {
        start_level: 0,
        num_levels: 1000,
        ..ScenarioSpec::default()
    };
    let (train, test) = train_test_split(train, 200, 50);
    let train_end = train.start_level + train.num_levels;
    assert!(test.start_level >= train_end);
    // No legal train seed equals any legal test seed.
    for ti in [0u64, 1, 999] {
        let train_seed = level_seed(&train, ti);
        for xi in [0u64, 1, 199] {
            assert_ne!(train_seed, level_seed(&test, xi));
        }
    }
    assert_eq!(test.start_level, 1050);
    assert_eq!(test.num_levels, 200);
}

#[test]
fn golden_hash_is_stable() {
    let json = json_of(&golden_spec(), 7);
    assert_eq!(fnv1a(json.as_bytes()), GOLDEN_CALM_4X120_SEED7_FNV1A);
}

#[test]
fn golden_hash_hard_extreme_stable() {
    let hard = ScenarioSpec {
        distribution_mode: DistributionMode::Hard,
        ..golden_spec()
    };
    let extreme = ScenarioSpec {
        distribution_mode: DistributionMode::Extreme,
        ..golden_spec()
    };
    let hj = json_of(&hard, 7);
    let ej = json_of(&extreme, 7);
    assert_eq!(fnv1a(hj.as_bytes()), GOLDEN_HARD_4X120_SEED7_FNV1A);
    assert_eq!(fnv1a(ej.as_bytes()), GOLDEN_EXTREME_4X120_SEED7_FNV1A);
}

#[test]
fn realized_vol_increases_with_difficulty() {
    let vol = |m| realized_vol(&realize(generate_scenario(&spec_of(m), 7)));
    let calm = vol(DistributionMode::Calm);
    let hard = vol(DistributionMode::Hard);
    let extreme = vol(DistributionMode::Extreme);
    assert!(calm < hard, "calm {calm} should be < hard {hard}");
    assert!(hard < extreme, "hard {hard} should be < extreme {extreme}");
}

fn of(x: f64) -> Binary64 {
    Binary64 { bits: x.to_bits() }
}

fn knobs(jump_prob: f64, jump_size: f64) -> AmplifyParams {
    AmplifyParams {
        mode_salt: 0x77,
        vol_mult: of(2.5),
        jump_prob: of(jump_prob),
        jump_size: of(jump_size),
    }
}

#[test]
fn the_default_family_is_calm_and_unbounded() {
    let spec = ScenarioSpec::default();
    assert_eq!(
        spec,
        ScenarioSpec {
            start_level: 0,
            num_levels: 0,
            n_symbols: 4,
            n_days: 120,
            distribution_mode: DistributionMode::default(),
        }
    );
    assert_eq!(DistributionMode::default(), DistributionMode::Calm);
    assert_eq!(spec.clone(), spec);
}

#[test]
fn wire_names_round_trip() {
    for mode in [
        DistributionMode::Calm,
        DistributionMode::Hard,
        DistributionMode::Extreme,
    ] {
        assert_eq!(DistributionMode::from_wire_name(mode.wire_name()), Some(mode));
    }
    for text in ["", "Calm", "HARD", "extreme ", "mild"] {
        assert_eq!(DistributionMode::from_wire_name(text), None);
    }
}

#[test]
fn tiers_share_the_panel_and_carry_their_knobs() {
    let calm = generate_scenario(&spec_of(DistributionMode::Calm), 9);
    assert!(calm.amplification.is_none());
    let panel = serde_json::to_string(&calm.base).unwrap();
    assert_eq!(
        panel,
        serde_json::to_string(&Dataset::synthetic(4, 120, 9)).unwrap()
    );
    for (mode, vol_mult, size) in [
        (DistributionMode::Hard, 1.8, 0.06),
        (DistributionMode::Extreme, 3.0, 0.13),
    ] {
        let scenario = generate_scenario(&spec_of(mode), 9);
        assert_eq!(serde_json::to_string(&scenario.base).unwrap(), panel);
        let a = scenario.amplification.unwrap();
        assert_eq!(a.vol_mult, of(vol_mult));
        assert_eq!(a.jumps.len(), 4);
        for row in &a.jumps {
            assert_eq!(row.len(), 119);
            for &jump in row {
                assert!(jump == of(0.0) || jump == of(size) || jump == of(-size));
            }
        }
    }
}

#[test]
fn short_series_have_no_jumps() {
    for (n_days, bars) in [(0, 0), (1, 0), (2, 1), (3, 2)] {
        let spec = ScenarioSpec {
            n_symbols: 2,
            n_days,
            distribution_mode: DistributionMode::Extreme,
            ..ScenarioSpec::default()
        };
        let a = generate_scenario(&spec, 3).amplification.unwrap();
        assert_eq!(a.jumps.len(), 2);
        assert!(a.jumps.iter().all(|row| row.len() == bars));
    }
    let a = amplify(Dataset::synthetic(0, 5, 1), 1, knobs(0.5, 0.1));
    assert!(a.amplification.unwrap().jumps.is_empty());
}

#[test]
fn one_stream_is_walked_series_by_series() {
    let p = knobs(0.4, 0.25);
    let jumps = plan_jumps(&vec![6, 1, 0, 4], 12, &p);
    let mut rng = SplitMix64::new(12 ^ 0x77);
    let span = (1u64 << 53) as f64;
    let mut unit = || rng.next_unit() as f64 / span;
    for (row, bars) in jumps.iter().zip([5, 0, 0, 3]) {
        assert_eq!(row.len(), bars);
        for &jump in row {
            let expected = if unit() < 0.4 {
                if unit() < 0.5 {
                    0.25
                } else {
                    -0.25
                }
            } else {
                0.0
            };
            assert_eq!(jump, of(expected));
        }
    }
    // A probability of zero never jumps, one of one always does.
    assert_eq!(plan_jumps(&vec![3], 1, &knobs(0.0, 0.5)), vec![vec![of(0.0); 2]]);
    let always = plan_jumps(&vec![50], 1, &knobs(1.0, 0.5));
    assert!(always[0].iter().all(|&j| j == of(0.5) || j == of(-0.5)));
}

#[test]
fn tiers_draw_distinct_streams() {
    for seed in [0, 7, u64::MAX] {
        let mut hard = SplitMix64::new(seed ^ 0x4861_7264_5f5f_5f5f);
        let mut extreme = SplitMix64::new(seed ^ 0x4578_7472_5f5f_5f5f);
        let h: Vec<u64> = (0..20).map(|_| hard.next_unit()).collect();
        let e: Vec<u64> = (0..20).map(|_| extreme.next_unit()).collect();
        assert_ne!(h, e);
    }
}

#[test]
fn every_seed_of_the_interval_is_a_level() {
    let spec = ScenarioSpec {
        start_level: u64::MAX - 4,
        num_levels: 0,
        ..ScenarioSpec::default()
    };
    // The unbounded interval stops short of the largest seed.
    let seeds: Vec<u64> = (0..5).map(|i| level_seed(&spec, i)).collect();
    assert_eq!(
        seeds,
        vec![
            u64::MAX - 4,
            u64::MAX - 3,
            u64::MAX - 2,
            u64::MAX - 1,
            u64::MAX - 4
        ]
    );
    let bounded = ScenarioSpec {
        start_level: 10,
        num_levels: 3,
        ..ScenarioSpec::default()
    };
    assert_eq!(level_seed(&bounded, u64::MAX), 10 + u64::MAX % 3);
}

#[test]
fn a_split_inherits_the_family() {
    let train = ScenarioSpec {
        start_level: 7,
        num_levels: 1,
        n_symbols: 2,
        n_days: 30,
        distribution_mode: DistributionMode::Hard,
    };
    let (kept, test) = train_test_split(train.clone(), 0, 0);
    assert_eq!(kept, train);
    assert_eq!(
        test,
        ScenarioSpec {
            start_level: 8,
            num_levels: 0,
            ..train
        }
    );
    assert_eq!(level_seed(&test, 3), 11);
}

#[test]
fn the_seed_interval_has_no_influence() {
    let family = spec_of(DistributionMode::Hard);
    let other = ScenarioSpec {
        start_level: 900,
        num_levels: 17,
        ..family.clone()
    };
    assert_eq!(json_of(&family, 42), json_of(&other, 42));
}
