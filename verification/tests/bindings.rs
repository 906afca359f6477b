use openoutcry::bindings::{
    batch_json, build_costs, build_window, observations_to_json, validate_decision_json,
    CostTerms, PyTradingEnv, PyVecTradingEnv,
};
use openoutcry::engine::Window;
use openoutcry::vec_env::{LaneConfig, VecTradingEnv};
use serde_json::Value;
use sharpebench_protocol::Decision;
use sharpebench_sim::{CostModel, Dataset, StepInfo, TradingEnv as ScalarEnv};

const BUY: &str = "{\"orders\":[{\"symbol\":\"SYM00\",\"action\":\"buy\",\"target_weight\":0.6,\
                   \"rationale\":\"trend\"}],\"reasoning\":\"up\"}";
const HOLD: &str = "{\"orders\":[]}";

fn scalar(seed: u64, start: usize, end: usize) -> ScalarEnv {
    ScalarEnv::new(
        Dataset::synthetic(4, 60, seed),
        sharpebench_sim::Window { start, end },
        CostModel::default(),
        seed,
    )
}

fn info_value(info: &StepInfo) -> Value {
    let mut object = serde_json::Map::new();
    object.insert("nav".to_string(), Value::from(info.nav));
    object.insert(
        "events".to_string(),
        serde_json::to_value(&info.events).unwrap(),
    );
    Value::Object(object)
}

fn message<T>(res: Result<T, openoutcry::bindings::ValueError>) -> String {
    match res {
        Ok(_) => panic!("expected an error"),
        Err(error) => error.message,
    }
}

#[test]
fn windows_default_to_the_full_series() {
    assert_eq!(build_window(None, None, 9), Window { start: 0, end: 9 });
    assert_eq!(build_window(Some(2), None, 9), Window { start: 2, end: 9 });
    assert_eq!(build_window(None, Some(4), 9), Window { start: 0, end: 4 });
    assert_eq!(build_window(Some(5), Some(3), 9), Window { start: 5, end: 3 });
}

#[test]
fn invalid_windows_are_refused() {
    let costs = CostModel::default();
    for (start, end, text) in [
        (Some(5), Some(3), "invalid window [5, 3) over 60 bars"),
        (Some(7), Some(7), "invalid window [7, 7) over 60 bars"),
        (Some(60), None, "invalid window [60, 60) over 60 bars"),
        (None, Some(61), "invalid window [0, 61) over 60 bars"),
    ] {
        assert_eq!(message(PyTradingEnv::new(4, 60, 1, start, end, costs)), text);
        assert_eq!(message(PyVecTradingEnv::new(vec![1], 4, 60, start, end, costs)), text);
    }
    assert_eq!(
        message(PyTradingEnv::new(4, 0, 1, None, None, costs)),
        "invalid window [0, 0) over 0 bars"
    );
    assert!(PyTradingEnv::new(4, 60, 1, Some(59), Some(60), costs).is_ok());
}

#[test]
fn cost_overrides_replace_their_defaults() {
    let defaults = CostTerms {
        fee_bps: 2.0,
        slippage_bps: 3.0,
        impact_bps: 50.0,
        financing_bps: 5.0,
        max_participation: f64::INFINITY,
    };
    let terms = build_costs(Some(1.5), None, None, Some(0.0), Some(0.1), defaults);
    assert_eq!(terms.fee_bps, 1.5);
    assert_eq!(terms.slippage_bps, 3.0);
    assert_eq!(terms.impact_bps, 50.0);
    assert_eq!(terms.financing_bps, 0.0);
    assert_eq!(terms.max_participation, 0.1);
}

#[test]
fn the_scalar_binding_speaks_the_engines_json() {
    let mut env = PyTradingEnv::new(4, 60, 9, Some(20), Some(24), CostModel::default()).unwrap();
    let mut engine = scalar(9, 20, 24);
    assert_eq!(env.scenario_seed(), 9);
    assert_eq!(
        env.reset().unwrap(),
        serde_json::to_string(&engine.reset()).unwrap()
    );
    for text in [BUY, HOLD, BUY, HOLD] {
        let decision: Decision = serde_json::from_str(text).unwrap();
        let expected = engine.step(decision);
        let (observation, reward, done, info) = env.step(text).unwrap();
        assert_eq!(
            observation,
            serde_json::to_string(&expected.observation).unwrap()
        );
        assert_eq!(f64::from_bits(reward.bits), expected.reward);
        assert_eq!(done, expected.done);
        assert_eq!(info, info_value(&expected.info).to_string());
    }
}

#[test]
fn a_refused_decision_changes_nothing() {
    let mut env = PyTradingEnv::new(4, 60, 9, None, None, CostModel::default()).unwrap();
    let mut twin = PyTradingEnv::new(4, 60, 9, None, None, CostModel::default()).unwrap();
    let _ = env.reset().unwrap();
    let _ = twin.reset().unwrap();
    for bad in ["", "{", "[]", "{\"orders\":7}"] {
        assert!(!validate_decision_json(bad));
        let expected = serde_json::from_str::<Decision>(bad).unwrap_err();
        assert_eq!(
            message(env.step(bad)),
            format!("invalid decision JSON: {expected}")
        );
    }
    assert!(validate_decision_json(BUY));
    let (a, _, _, _) = env.step(BUY).unwrap();
    let (b, _, _, _) = twin.try_step(BUY).unwrap().unwrap();
    assert_eq!(a, b);
}

#[test]
fn a_decision_the_engine_cannot_apply_is_not_taken() {
    let mut costs = CostModel::default();
    costs.max_participation = -0.1;
    let mut env = PyTradingEnv::new(4, 60, 9, None, None, costs).unwrap();
    assert!(env.can_reset());
    let _ = env.reset().unwrap();
    assert!(env.try_step(BUY).is_none());
    assert!(env.try_step("nonsense").unwrap().is_err());
    // Without an order there is nothing to hold to the cap.
    assert!(env.try_step(HOLD).unwrap().is_ok());
    // Nor with an order that the engine skips.
    let skipped = BUY.replace("SYM00", "NONE");
    let (_, _, _, info) = env.try_step(&skipped).unwrap().unwrap();
    assert_eq!(info, "{\"events\":[],\"nav\":1.0}");
    let absurd = BUY.replace("0.6", "6.0");
    let (_, _, _, info) = env.try_step(&absurd).unwrap().unwrap();
    assert!(info.contains("manipulative_order"));

    let mut batch = PyVecTradingEnv::new(vec![9], 4, 60, None, None, costs).unwrap();
    assert!(batch.try_step_batch(&format!("[{BUY}]")).is_none());
    assert!(batch.try_step_batch(&format!("[{HOLD}]")).unwrap().is_ok());
    assert!(batch.try_step_batch("[]").unwrap().is_err());
    assert!(batch.try_step_batch("nonsense").unwrap().is_err());
}

#[test]
fn csv_panels_are_windowed_like_synthetic_ones() {
    let csv = "date,symbol,close\n2025-01-01,A,10\n2025-01-02,A,11\n2025-01-03,A,12\n";
    let costs = CostModel::default();
    let mut env = PyTradingEnv::from_csv(csv, 4, Some(1), None, costs).unwrap();
    let mut engine = ScalarEnv::new(
        Dataset::from_csv(csv).unwrap(),
        sharpebench_sim::Window { start: 1, end: 3 },
        costs,
        4,
    );
    assert_eq!(
        env.reset().unwrap(),
        serde_json::to_string(&engine.reset()).unwrap()
    );
    assert_eq!(env.scenario_seed(), 4);
    assert_eq!(
        message(PyTradingEnv::from_csv(csv, 4, Some(1), Some(4), costs)),
        "invalid window [1, 4) over 3 bars"
    );
    assert_eq!(
        message(PyTradingEnv::from_csv("", 4, None, None, costs)),
        "empty CSV"
    );
    assert_eq!(
        message(PyTradingEnv::from_csv("date,symbol\n", 4, None, None, costs)),
        "CSV header missing 'close'"
    );
}

#[test]
fn a_batch_needs_seeds() {
    assert_eq!(
        message(PyVecTradingEnv::new(Vec::new(), 4, 60, Some(5), Some(3), CostModel::default())),
        "seeds must be non-empty"
    );
}

#[test]
fn the_batch_binding_speaks_the_engines_json() {
    let seeds = vec![3, 5];
    let costs = CostModel::default();
    let mut batch = PyVecTradingEnv::new(seeds.clone(), 4, 60, Some(20), Some(22), costs).unwrap();
    assert_eq!(batch.num_envs(), 2);
    assert_eq!(batch.scenario_seeds(), seeds);
    assert!(batch.can_reset());

    let mut engines: Vec<ScalarEnv> = seeds.iter().map(|&s| scalar(s, 20, 22)).collect();
    let firsts: Vec<Value> = engines
        .iter_mut()
        .map(|e| serde_json::to_value(e.reset()).unwrap())
        .collect();
    let mut reset = serde_json::Map::new();
    reset.insert("n".to_string(), Value::from(2));
    reset.insert("observations".to_string(), Value::Array(firsts.clone()));
    assert_eq!(batch.reset_batch().unwrap(), Value::Object(reset).to_string());

    for bar in 0..2 {
        let decisions: [&str; 2] = [BUY, HOLD];
        let text = format!("[{},{}]", decisions[0], decisions[1]);
        let reply = match bar {
            0 => batch.step_batch(&text).unwrap(),
            _ => batch.try_step_batch(&text).unwrap().unwrap(),
        };
        let expected: Vec<_> = engines
            .iter_mut()
            .zip(decisions)
            .map(|(e, d)| e.step(serde_json::from_str(d).unwrap()))
            .collect();
        let last = bar == 1;
        let mut object = serde_json::Map::new();
        object.insert("n".to_string(), Value::from(2));
        object.insert(
            "observations".to_string(),
            Value::Array(if last {
                firsts.clone()
            } else {
                expected
                    .iter()
                    .map(|r| serde_json::to_value(&r.observation).unwrap())
                    .collect()
            }),
        );
        let rewards: Vec<Value> = expected.iter().map(|r| Value::from(r.reward)).collect();
        object.insert("rewards".to_string(), Value::Array(rewards));
        object.insert("terminated".to_string(), Value::from(vec![false, false]));
        object.insert("truncated".to_string(), Value::from(vec![last, last]));
        object.insert("first".to_string(), Value::from(vec![last, last]));
        object.insert(
            "infos".to_string(),
            Value::Array(expected.iter().map(|r| info_value(&r.info)).collect()),
        );
        assert_eq!(reply, Value::Object(object).to_string());
    }
}

#[test]
fn a_batched_step_reads_as_its_arrays() {
    let mut batch = VecTradingEnv::from_configs(&[LaneConfig::new(4, 60, 3)]);
    let firsts = batch.reset_batch();
    let values = observations_to_json(&firsts).unwrap();
    assert_eq!(values, vec![serde_json::to_value(&firsts[0]).unwrap()]);
    assert!(observations_to_json(&Vec::new()).unwrap().is_empty());

    let step = batch.step_batch(&[serde_json::from_str(BUY).unwrap()]);
    assert_eq!(
        step.reward_jsons,
        vec![Value::from(f64::from_bits(step.rewards[0].bits))]
    );
    let observation = serde_json::to_value(&step.observations[0]).unwrap();
    let info = info_value(&step.infos[0]);
    let reward = step.reward_jsons[0].clone();
    assert_eq!(
        batch_json(step).unwrap(),
        format!(
            "{{\"first\":[false],\"infos\":[{info}],\"n\":1,\"observations\":[{observation}],\
             \"rewards\":[{reward}],\"terminated\":[false],\"truncated\":[false]}}"
        )
    );
}

#[test]
fn a_refused_batch_changes_nothing() {
    let costs = CostModel::default();
    let mut batch = PyVecTradingEnv::new(vec![3, 5], 4, 60, None, None, costs).unwrap();
    let before = batch.reset_batch().unwrap();
    assert_eq!(
        message(batch.step_batch("[]")),
        "expected 2 decisions, got 0"
    );
    assert_eq!(
        message(batch.step_batch(&format!("[{HOLD},{HOLD},{BUY}]"))),
        "expected 2 decisions, got 3"
    );
    let expected = serde_json::from_str::<Vec<Decision>>(HOLD).unwrap_err();
    assert_eq!(
        message(batch.step_batch(HOLD)),
        format!("invalid decisions JSON: {expected}")
    );
    // The next step is still the first of the episode.
    let mut twin = PyVecTradingEnv::new(vec![3, 5], 4, 60, None, None, costs).unwrap();
    assert_eq!(before, twin.reset_batch().unwrap());
    let text = format!("[{BUY},{BUY}]");
    let a = batch.step_batch(&text).unwrap();
    let b = twin.step_batch(&text).unwrap();
    assert_eq!(a, b);
}

#[test]
fn a_lane_is_the_scalar_environment() {
    let costs = CostModel::default();
    let mut batch = PyVecTradingEnv::new(vec![6], 4, 60, None, None, costs).unwrap();
    let mut env = PyTradingEnv::new(4, 60, 6, None, None, costs).unwrap();
    let _ = batch.reset_batch().unwrap();
    let _ = env.reset().unwrap();
    for _ in 0..10 {
        let reply = batch.step_batch(&format!("[{BUY}]")).unwrap();
        let (observation, reward, done, info) = env.step(BUY).unwrap();
        let reward = Value::from(f64::from_bits(reward.bits));
        assert!(reply.contains(&format!("\"rewards\":[{reward}]")));
        let reply: Value = serde_json::from_str(&reply).unwrap();
        let observation: Value = serde_json::from_str(&observation).unwrap();
        let info: Value = serde_json::from_str(&info).unwrap();
        assert_eq!(reply["observations"][0], observation);
        assert_eq!(reply["truncated"][0], Value::from(done));
        assert_eq!(reply["infos"][0], info);
    }
}

#[test]
fn validation_decides_the_step() {
    let mut env = PyTradingEnv::new(4, 60, 6, None, None, CostModel::default()).unwrap();
    assert!(!validate_decision_json("not json"));
    for text in ["not json", BUY, "{}", HOLD, "[1]", "null"] {
        match env.step(text) {
            Ok(_) => assert!(validate_decision_json(text)),
            Err(error) => {
                assert!(!validate_decision_json(text));
                assert!(error.message.starts_with("invalid decision JSON: "));
            }
        }
    }
}
