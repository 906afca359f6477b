use openoutcry::engine::{cap_is_sound, TradingEnv, Window};
use openoutcry::binary64::Binary64;
use openoutcry::vec_env::{step_lane, BatchStep, LaneConfig, VecTradingEnv};
use sharpebench_protocol::{Action, Decision, MarketObservation, Order};
use sharpebench_sim::{CostModel, Dataset, TradingEnv as ScalarEnv};

fn configs(seeds: &[u64]) -> Vec<LaneConfig> {
    seeds.iter().map(|&s| LaneConfig::new(4, 60, s)).collect()
}

/// A flat target-weight decision over a known symbol axis.
fn decision_for(obs: &MarketObservation, weight: f64) -> Decision {
    let orders = obs
        .symbols
        .iter()
        .map(|s| Order {
            symbol: s.symbol.clone(),
            action: if weight > 0.0 {
                Action::Buy
            } else {
                Action::Hold
            },
            target_weight: weight,
            confidence: 0.5,
            rationale: String::new(),
        })
        .collect();
    Decision {
        orders,
        reasoning: String::new(),
        cost: None,
    }
}

fn decisions_for(obs: &[MarketObservation], weight: f64) -> Vec<Decision> {
    obs.iter().map(|o| decision_for(o, weight)).collect()
}

fn json(obs: &MarketObservation) -> String {
    serde_json::to_string(obs).unwrap()
}

#[test]
fn b1_is_byte_identical_to_scalar_engine() {
    let seed = 11;
    let mut scalar = ScalarEnv::new(
        Dataset::synthetic(4, 60, seed),
        sharpebench_sim::Window { start: 0, end: 60 },
        CostModel::default(),
        seed,
    );
    let mut batch = VecTradingEnv::from_configs(&configs(&[seed]));

    let mut s_obs = scalar.reset();
    let b_obs = batch.reset_batch();
    assert_eq!(
        json(&s_obs),
        json(&b_obs[0]),
        "reset observation must match the scalar env byte-for-byte"
    );

    loop {
        let s_dec = decision_for(&s_obs, 0.25);
        let b_dec = decisions_for(std::slice::from_ref(&s_obs), 0.25);
        let s_res = scalar.step(s_dec);
        let b_res = batch.step_batch(&b_dec);

        assert_eq!(
            s_res.reward,
            f64::from_bits(b_res.rewards[0].bits),
            "reward divergence"
        );
        assert_eq!(s_res.info.nav, b_res.infos[0].nav, "nav divergence");
        assert_eq!(
            s_res.info.events, b_res.infos[0].events,
            "per-step events divergence"
        );
        assert_eq!(s_res.done, b_res.truncated[0], "truncation divergence");

        if s_res.done {
            assert!(b_res.first[0], "finished lane must flag first=true");
            break;
        }
        assert!(!b_res.first[0], "mid-episode lane must not flag first");
        assert_eq!(
            json(&s_res.observation),
            json(&b_res.observations[0]),
            "non-terminal observation must match the scalar env byte-for-byte"
        );
        s_obs = s_res.observation;
    }
}

#[test]
fn parallel_matches_serial() {
    let cfgs = configs(&[1, 2, 3, 4, 5, 6, 7, 8]);
    let mut par = VecTradingEnv::from_configs(&cfgs);
    let mut ser: Vec<TradingEnv> = cfgs.iter().map(LaneConfig::build).collect();

    let mut par_obs = par.reset_batch();
    for env in ser.iter_mut() {
        let _ = env.reset();
    }

    for _ in 0..120 {
        let decs = decisions_for(&par_obs, 0.5);
        let par_step = par.step_batch(&decs);

        // The serial reference: the same per-lane work, looped.
        let ser_step = BatchStep::from_outcomes(
            ser.iter_mut()
                .zip(decs.iter())
                .map(|(env, decision)| step_lane(env, decision))
                .collect(),
        );

        assert_eq!(par_step.rewards, ser_step.rewards);
        assert_eq!(par_step.terminated, ser_step.terminated);
        assert_eq!(par_step.truncated, ser_step.truncated);
        assert_eq!(par_step.first, ser_step.first);
        for (a, b) in par_step.infos.iter().zip(ser_step.infos.iter()) {
            assert_eq!(a.nav, b.nav);
            assert_eq!(a.events, b.events);
        }
        for (a, b) in par_step
            .observations
            .iter()
            .zip(ser_step.observations.iter())
        {
            assert_eq!(json(a), json(b));
        }
        par_obs = par_step.observations;
    }
}

#[test]
fn auto_reset_keeps_the_batch_running() {
    let cfgs = vec![LaneConfig::new(3, 25, 1), LaneConfig::new(3, 25, 2)];
    let mut env = VecTradingEnv::from_configs(&cfgs);
    let mut obs = env.reset_batch();

    let mut resets = [0usize; 2];
    for _ in 0..120 {
        let decs = decisions_for(&obs, 0.1);
        let step = env.step_batch(&decs);
        assert_eq!(step.observations.len(), 2, "batch never stalls");
        for (lane, &first) in step.first.iter().enumerate() {
            if first {
                resets[lane] += 1;
                assert!(step.infos[lane].nav.is_finite());
            }
        }
        obs = step.observations;
    }
    assert!(
        resets[0] > 1 && resets[1] > 1,
        "each lane should auto-reset multiple times over 120 steps, got {resets:?}"
    );
}

#[test]
fn auto_reset_observation_is_a_fresh_t0() {
    let seed = 7;
    let mut env = VecTradingEnv::from_configs(&[LaneConfig::new(3, 22, seed)]);
    let mut obs = env.reset_batch();
    let reference = {
        let mut fresh = VecTradingEnv::from_configs(&[LaneConfig::new(3, 22, seed)]);
        json(&fresh.reset_batch()[0])
    };

    loop {
        let decs = decisions_for(&obs, 0.0);
        let step = env.step_batch(&decs);
        if step.first[0] {
            assert_eq!(
                json(&step.observations[0]),
                reference,
                "reset observation must equal a fresh env's t0"
            );
            break;
        }
        obs = step.observations;
    }
}

#[test]
fn lanes_run_out_of_bars_after_their_window() {
    let mut config = LaneConfig::new(2, 30, 5);
    config.window = Some(Window { start: 20, end: 24 });
    let mut env = VecTradingEnv::from_configs(&[config]);
    let mut obs = env.reset_batch();
    let mut truncated = Vec::new();
    for _ in 0..9 {
        let step = env.step_batch(&decisions_for(&obs, 0.2));
        truncated.push(step.truncated[0]);
        assert_eq!(step.first[0], step.truncated[0] || step.terminated[0]);
        obs = step.observations;
    }
    assert_eq!(
        truncated,
        vec![false, false, false, true, false, false, false, true, false]
    );
}

#[test]
fn a_window_past_the_panel_ends_with_the_panel() {
    let mut config = LaneConfig::new(2, 3, 5);
    config.window = Some(Window { start: 1, end: 100 });
    let mut env = VecTradingEnv::from_configs(&[config]);
    let obs = env.reset_batch();
    assert!(!env.step_batch(&decisions_for(&obs, 0.2)).truncated[0]);
    assert!(env.step_batch(&decisions_for(&obs, 0.2)).truncated[0]);
}

#[test]
fn a_lane_that_blows_up_is_terminated_and_restarted() {
    let data = Dataset::flash_crash(1, 40, 10, 0.6, 3);
    let window = Window { start: 0, end: 40 };
    let lane = TradingEnv::new(data, window, CostModel::default(), 3);
    let mut env = VecTradingEnv::from_envs(vec![lane], vec![3]);
    let mut obs = env.reset_batch();
    let fresh = json(&obs[0]);
    for bar in 0..11 {
        let mut decisions = decisions_for(&obs, 5.0);
        if bar == 10 {
            // Sit through the crash with the levered book.
            decisions[0].orders.clear();
        }
        let step = env.step_batch(&decisions);
        assert_eq!(step.terminated[0], step.infos[0].nav <= 0.0);
        assert_eq!(step.terminated[0], bar == 10);
        assert_eq!(step.first[0], bar == 10);
        assert!(!step.truncated[0]);
        if bar == 10 {
            assert_eq!(json(&step.observations[0]), fresh);
        }
        obs = step.observations;
    }
}

#[test]
fn a_lane_does_not_depend_on_its_neighbours() {
    let mut alone = VecTradingEnv::from_configs(&configs(&[2]));
    let mut crowd = VecTradingEnv::from_configs(&configs(&[9, 2, 4]));
    let mut a = alone.reset_batch();
    let mut c = crowd.reset_batch();
    for _ in 0..70 {
        let step_a = alone.step_batch(&decisions_for(&a, 0.3));
        let step_c = crowd.step_batch(&decisions_for(&c, 0.3));
        assert_eq!(step_a.rewards[0], step_c.rewards[1]);
        assert_eq!(json(&step_a.observations[0]), json(&step_c.observations[1]));
        a = step_a.observations;
        c = step_c.observations;
    }
}

#[test]
fn lanes_may_be_stepped_in_any_order() {
    let cfgs = configs(&[4, 8, 15]);
    let mut batch = VecTradingEnv::from_configs(&cfgs);
    let mut lanes: Vec<TradingEnv> = cfgs.iter().map(LaneConfig::build).collect();
    let mut obs = batch.reset_batch();
    for _ in 0..65 {
        let decisions = decisions_for(&obs, 0.3);
        let step = batch.step_batch(&decisions);
        for lane in [2, 0, 1] {
            let outcome = step_lane(&mut lanes[lane], &decisions[lane]);
            assert_eq!(outcome.reward, step.rewards[lane]);
            assert_eq!(outcome.first, step.first[lane]);
            assert_eq!(json(&outcome.observation), json(&step.observations[lane]));
        }
        obs = step.observations;
    }
}

#[test]
fn an_episode_leaves_nothing_behind() {
    let mut config = LaneConfig::new(3, 30, 2);
    config.window = Some(Window { start: 4, end: 9 });
    let mut lane = config.build();
    let first = lane.reset();
    for bar in 0..5 {
        let outcome = step_lane(&mut lane, &decision_for(&first, 0.8));
        assert_eq!(outcome.first, bar == 4);
    }
    let mut fresh = config.build();
    for weight in [0.2, 0.6, 0.0, 0.3, 0.5, 0.1] {
        let decision = decision_for(&first, weight);
        let a = step_lane(&mut lane, &decision);
        let b = step_lane(&mut fresh, &decision);
        assert_eq!(a.reward, b.reward);
        assert_eq!(a.first, b.first);
        assert_eq!(json(&a.observation), json(&b.observation));
        assert_eq!(a.info.nav, b.info.nav);
    }
}

#[test]
fn a_reset_forgets_the_episode() {
    let mut env = LaneConfig::new(3, 30, 2).build();
    let fresh = json(&env.reset());
    let first = env.reset();
    for weight in [0.9, 0.1, 0.7] {
        let _ = env.step(&decision_for(&first, weight));
    }
    assert_eq!(json(&env.reset()), fresh);
    // The book starts over too.
    let again = env.step(&decision_for(&first, 0.5)).reward;
    let mut other = LaneConfig::new(3, 30, 2).build();
    assert_eq!(other.step(&decision_for(&first, 0.5)).reward, again);
}

#[test]
fn default_costs_take_any_decision() {
    let mut env = LaneConfig::new(2, 5, 1).build();
    let obs = env.reset();
    for weight in [-1.0, 0.0, 0.4, 9.0, f64::NAN] {
        let decision = decision_for(&obs, weight);
        assert!(env.can_take(&decision));
        let _ = env.step(&decision);
    }
}

#[test]
fn batches_know_their_lanes_and_seeds() {
    let batch = VecTradingEnv::from_configs(&configs(&[8, 6]));
    assert_eq!(batch.len(), 2);
    assert!(!batch.is_empty());
    assert_eq!(batch.seeds(), &[8, 6]);
    let empty = VecTradingEnv::from_envs(Vec::new(), Vec::new());
    assert_eq!(empty.len(), 0);
    assert!(empty.is_empty());
}

#[test]
fn lanes_without_bars_can_be_built_but_not_reset() {
    let hold = [Decision {
        orders: Vec::new(),
        reasoning: String::new(),
        cost: None,
    }];
    let batch = VecTradingEnv::from_configs(&[LaneConfig::new(3, 0, 1)]);
    assert!(!batch.can_reset());
    assert!(!batch.can_take(&hold));
    let batch = VecTradingEnv::from_configs(&[LaneConfig::new(3, 1, 1)]);
    assert!(batch.can_reset());
    assert!(batch.can_take(&hold));
    // One decision per lane, no more and no fewer.
    assert!(!batch.can_take(&[]));
    assert!(!batch.can_take(&[hold[0].clone(), hold[0].clone()]));
}

#[test]
fn negative_liquidity_caps_are_unsound() {
    for (cap, sound) in [
        (-0.5, false),
        (-f64::MIN_POSITIVE, false),
        (-f64::MAX, false),
        (-0.0, true),
        (0.0, true),
        (0.25, true),
        (f64::INFINITY, true),
        (f64::NEG_INFINITY, true),
        (f64::NAN, true),
        (-f64::NAN, true),
    ] {
        assert_eq!(cap_is_sound(Binary64 { bits: f64::to_bits(cap) }), sound, "{cap}");
        let mut config = LaneConfig::new(2, 25, 1);
        config.costs.max_participation = cap;
        let mut batch = VecTradingEnv::from_configs(&[config]);
        let obs = batch.reset_batch();
        let mut decisions = decisions_for(&obs, 0.4);
        assert_eq!(batch.can_take(&decisions), sound);
        if sound {
            let _ = batch.step_batch(&decisions);
        }
        // Without orders the cap does not matter.
        decisions[0].orders.clear();
        assert!(batch.can_take(&decisions));
        let _ = batch.step_batch(&decisions);
    }
}

fn negative_cap() -> CostModel {
    CostModel {
        max_participation: -0.5,
        ..CostModel::default()
    }
}

fn order(symbol: &str, target_weight: f64) -> Decision {
    Decision {
        orders: vec![Order {
            symbol: symbol.to_string(),
            action: Action::Buy,
            target_weight,
            confidence: 0.5,
            rationale: String::new(),
        }],
        reasoning: String::new(),
        cost: None,
    }
}

/// Steps `env` and the bare engine alike with decisions that the engine can apply.
fn takes_alike(data: Dataset, decisions: &[Decision]) {
    let end = data.len();
    let mut env = TradingEnv::new(data.clone(), Window { start: 0, end }, negative_cap(), 1);
    let mut engine = ScalarEnv::new(
        data,
        sharpebench_sim::Window { start: 0, end },
        negative_cap(),
        1,
    );
    for decision in decisions {
        assert!(env.can_take(decision));
        let a = env.step(decision);
        let b = engine.step(decision.clone());
        assert_eq!(f64::from_bits(a.reward.bits).to_string(), b.reward.to_string());
        assert_eq!(json(&a.observation), json(&b.observation));
        assert_eq!(a.info.events, b.info.events);
    }
}

#[test]
fn a_negative_cap_only_refuses_orders_that_are_sized() {
    let data = Dataset::synthetic(2, 6, 1);
    takes_alike(
        data.clone(),
        &[
            order("UNKNOWN", 0.3),
            order("SYM00", 5.5),
            order("SYM00", f64::NAN),
            order("SYM01", f64::NEG_INFINITY),
            order("SYM01", -6.0),
        ],
    );
    let env = TradingEnv::new(data, Window { start: 0, end: 6 }, negative_cap(), 1);
    for weight in [-5.0, -0.1, 0.0, 0.3, 5.0] {
        assert!(!env.can_take(&order("SYM01", weight)));
    }
    let mut mixed = order("UNKNOWN", 0.3);
    mixed.orders.extend(order("SYM00", 0.3).orders);
    assert!(!env.can_take(&mixed));
}

#[test]
fn a_negative_cap_does_not_matter_without_a_price_or_a_value() {
    // No price above zero.
    let csv = "date,symbol,close\n1,A,0\n2,A,-3\n3,A,4\n";
    let data = Dataset::from_csv(csv).unwrap();
    takes_alike(data.clone(), &[order("A", 0.3), order("A", 0.3)]);
    let mut env = TradingEnv::new(data, Window { start: 0, end: 3 }, negative_cap(), 1);
    let _ = env.step(&order("A", 0.3));
    let _ = env.step(&order("A", 0.3));
    assert!(!env.can_take(&order("A", 0.3)));

    // A close that is not finite leaves the bar without a net asset value; trading there
    // loses the cash for good.
    let csv = "date,symbol,close\n1,A,1\n1,B,inf\n2,A,2\n2,B,3\n3,A,2\n3,B,3\n";
    let data = Dataset::from_csv(csv).unwrap();
    takes_alike(data.clone(), &[order("A", 0.3), order("A", 0.3), order("B", 0.3)]);
    let mut env = TradingEnv::new(data, Window { start: 0, end: 3 }, negative_cap(), 1);
    let _ = env.step(&order("UNKNOWN", 0.3));
    assert!(!env.can_take(&order("A", 0.3)));
    let _ = env.reset();
    assert!(env.can_take(&order("A", 0.3)));
    let _ = env.step(&order("A", 0.3));
    assert!(env.can_take(&order("A", 0.3)));
    let _ = env.reset();
    let _ = env.step(&order("UNKNOWN", 0.3));
    assert!(!env.can_take(&order("A", 0.3)));

    // So does a dividend that is not finite, from the next bar on.
    let csv = "date,symbol,close,dividend\n1,A,1,inf\n2,A,2,0\n3,A,2,0\n";
    let data = Dataset::from_csv(csv).unwrap();
    let env = TradingEnv::new(data.clone(), Window { start: 0, end: 3 }, negative_cap(), 1);
    assert!(!env.can_take(&order("A", 0.3)));
    takes_alike(data, &[order("UNKNOWN", 0.3), order("A", 0.3), order("A", 0.3)]);
}

#[test]
fn any_run_of_calls_resets_to_the_built_batch() {
    let cfgs = vec![LaneConfig::new(3, 9, 4), LaneConfig::new(2, 6, 5)];
    let built: Vec<String> = VecTradingEnv::from_configs(&cfgs)
        .reset_batch()
        .iter()
        .map(json)
        .collect();
    let mut env = VecTradingEnv::from_configs(&cfgs);
    let mut obs = env.reset_batch();
    for round in 0..4 {
        for _ in 0..(round * 3 + 1) {
            let step = env.step_batch(&decisions_for(&obs, 0.2));
            for lane in 0..2 {
                if step.first[lane] {
                    assert_eq!(json(&step.observations[lane]), built[lane]);
                }
            }
            obs = step.observations;
        }
        for _ in 0..2 {
            obs = env.reset_batch();
            assert_eq!(obs.iter().map(json).collect::<Vec<String>>(), built);
        }
        assert_eq!(env.seeds(), &[4, 5]);
        assert_eq!(env.seeds().len(), env.len());
    }
}

#[test]
fn every_stretch_of_a_window_holds_a_reset() {
    let mut config = LaneConfig::new(2, 12, 3);
    config.window = Some(Window { start: 2, end: 9 });
    let mut lane = config.build();
    let obs = lane.reset();
    let firsts: Vec<bool> = (0..60)
        .map(|i| step_lane(&mut lane, &decision_for(&obs, 0.05 * (i % 7) as f64)).first)
        .collect();
    assert!(firsts.windows(7).all(|stretch| stretch.contains(&true)));
}

#[test]
fn new_lanes_have_the_full_window_and_default_costs() {
    let config = LaneConfig::new(4, 60, 11).clone();
    assert!(config.window.is_none());
    assert_eq!(config.costs.fee_bps, 2.0);
    assert_eq!(config.costs.slippage_bps, 3.0);
    assert_eq!(config.costs.impact_bps, 50.0);
    assert_eq!(config.costs.financing_bps, 5.0);
    assert_eq!(config.costs.max_participation, f64::INFINITY);
    assert_eq!(config.costs.trf_cost, None);
    assert_eq!((config.n_symbols, config.n_days, config.seed), (4, 60, 11));
}
