//! A batch of independent environments, stepped together.
//!
//! The batch never stalls: when a lane finishes (its net asset value is exhausted, or
//! it ran out of bars) it is reset in place, and the observation it returns for that
//! step is already the first of the new episode, flagged by `first`. Every lane owns
//! its panel, book and cursor, so stepping the lanes in parallel gives what stepping
//! them one after the other gives.
use crate::binary64::{Binary64, Binary64View};
use crate::engine::{
    bar_count, cost_view, info_nav, observation_at, panel_fits, read_nav, step_report,
    synthetic_panel, CostView, EnvModel, StepResult, TradingEnv, Window,
};
use crate::wire::{json_of, number_json};
use rayon::iter::{
    IndexedParallelIterator, IntoParallelRefIterator, IntoParallelRefMutIterator, ParallelIterator,
};
use serde_json::Value;
use sharpebench_protocol::{Decision, MarketObservation};
use sharpebench_sim::{CostModel, Dataset, StepInfo};
use vstd::prelude::*;

verus! {

/// Per-lane construction: a synthetic panel of `n_symbols` by `n_days` seeded by
/// `seed`, over an optional `window` (the full series when `None`) under `costs`.
#[derive(Debug)]
pub struct LaneConfig {
    pub n_symbols: usize,
    pub n_days: usize,
    pub seed: u64,
    pub window: Option<Window>,
    pub costs: CostModel,
}

impl Clone for LaneConfig {
    fn clone(&self) -> (copy: LaneConfig)
        ensures
            copy == *self,
    {
        LaneConfig {
            n_symbols: self.n_symbols,
            n_days: self.n_days,
            seed: self.seed,
            window: self.window,
            costs: self.costs,
        }
    }
}

impl LaneConfig {
    /// The environment that the configuration describes, nothing decided yet.
    pub open spec fn model(self) -> EnvModel {
        EnvModel::fresh(
            synthetic_panel(self.n_symbols, self.n_days, self.seed),
            match self.window {
                Some(window) => window,
                None => Window { start: 0, end: self.n_days },
            },
            cost_view(self.costs),
            self.seed,
        )
    }

    /// A lane over a synthetic panel, with the full window and default costs.
    pub fn new(n_symbols: usize, n_days: usize, seed: u64) -> (config: LaneConfig)
        ensures
            config.n_symbols == n_symbols,
            config.n_days == n_days,
            config.seed == seed,
            config.window is None,
            cost_view(config.costs) == CostView::standard(),
    {
        LaneConfig { n_symbols, n_days, seed, window: None, costs: CostModel::default() }
    }

    /// Builds the lane's environment.
    pub fn build(&self) -> (env: TradingEnv)
        requires
            panel_fits(self.n_days),
        ensures
            env.wf(),
            env@ == self.model(),
            bar_count(env@.data) == self.n_days,
    {
        let data = Dataset::synthetic(self.n_symbols, self.n_days, self.seed);
        let window: Window = match self.window {
            Some(window) => window,
            None => Window { start: 0, end: data.len() },
        };
        TradingEnv::new(data, window, self.costs, self.seed)
    }
}

/// What a lane reports of one step.
pub struct LaneReport {
    pub observation: MarketObservation,
    pub reward: Binary64View,
    pub terminated: bool,
    pub truncated: bool,
    pub first: bool,
    pub info: StepInfo,
}

/// One lane's output of one step.
pub struct LaneOutcome {
    pub observation: MarketObservation,
    pub reward: Binary64,
    pub reward_json: Value,
    pub terminated: bool,
    pub truncated: bool,
    pub first: bool,
    pub info: StepInfo,
}

impl View for LaneOutcome {
    type V = LaneReport;

    open spec fn view(&self) -> LaneReport {
        LaneReport {
            observation: self.observation,
            reward: self.reward@,
            terminated: self.terminated,
            truncated: self.truncated,
            first: self.first,
            info: self.info,
        }
    }
}

impl LaneOutcome {
    /// The two forms of the reward agree.
    pub open spec fn wf(self) -> bool {
        json_of(self.reward_json) == number_json(self.reward@)
    }
}

/// The result of one batched step, one entry per lane in every array.
///
/// `terminated[i]` says that lane `i` blew up, `truncated[i]` that it ran out of bars,
/// `first[i]` that it was reset in this step, so that `observations[i]` is the first of
/// a new episode. Rewards and infos always describe the step that just executed.
/// `reward_jsons` are the rewards as the JSON numbers that the wire carries.
pub struct BatchStep {
    pub observations: Vec<MarketObservation>,
    pub rewards: Vec<Binary64>,
    pub reward_jsons: Vec<Value>,
    pub terminated: Vec<bool>,
    pub truncated: Vec<bool>,
    pub first: Vec<bool>,
    pub infos: Vec<StepInfo>,
}

/// The net asset value is exhausted: a number that is zero or less.
pub open spec fn blown_up(nav: Binary64View) -> bool {
    match nav {
        Binary64View::NotANumber => false,
        Binary64View::Number(bits) => (Binary64 { bits }).at_most_zero(),
    }
}

/// A lane in state `before` finishes with `decision`: it blows up or runs out of bars.
pub open spec fn lane_finishes(before: EnvModel, decision: Decision) -> bool {
    let stepped = before.after(decision);
    blown_up(info_nav(step_report(stepped).info)) || stepped.exhausted()
}

/// The state that a lane in state `before` is left in by `decision`: that of a
/// restarted episode if it finishes.
pub open spec fn lane_next(before: EnvModel, decision: Decision) -> EnvModel {
    if lane_finishes(before, decision) {
        before.restarted()
    } else {
        before.after(decision)
    }
}

/// What a lane in state `before` reports of `decision`: the step's own reward, flags
/// and info, and the observation of the state that it is left in.
pub open spec fn lane_report(before: EnvModel, decision: Decision) -> LaneReport {
    let stepped = before.after(decision);
    LaneReport {
        observation: observation_at(lane_next(before, decision)),
        reward: step_report(stepped).reward,
        terminated: blown_up(info_nav(step_report(stepped).info)),
        truncated: stepped.exhausted(),
        first: lane_finishes(before, decision),
        info: step_report(stepped).info,
    }
}

/// Steps a single lane, and resets it in place if it finished.
pub fn step_lane(env: &mut TradingEnv, decision: &Decision) -> (outcome: LaneOutcome)
    requires
        old(env).wf(),
        old(env)@.can_take(*decision),
    ensures
        final(env).wf(),
        final(env)@ == lane_next(old(env)@, *decision),
        outcome.wf(),
        outcome@ == lane_report(old(env)@, *decision),
{
    let res: StepResult = env.step(decision);
    let nav: Binary64 = read_nav(&res.info);
    let terminated: bool = nav.is_at_most_zero();
    let truncated: bool = res.done;
    if terminated || truncated {
        let observation = env.reset();
        LaneOutcome {
            observation,
            reward: res.reward,
            reward_json: res.reward_json,
            terminated,
            truncated,
            first: true,
            info: res.info,
        }
    } else {
        LaneOutcome {
            observation: res.observation,
            reward: res.reward,
            reward_json: res.reward_json,
            terminated,
            truncated,
            first: false,
            info: res.info,
        }
    }
}

impl View for BatchStep {
    type V = Seq<LaneReport>;

    open spec fn view(&self) -> Seq<LaneReport> {
        Seq::new(self.observations@.len(), |i: int| self.lane(i)@)
    }
}

impl BatchStep {
    /// Every array has `n` entries.
    pub open spec fn has_lanes(self, n: nat) -> bool {
        &&& self.observations@.len() == n
        &&& self.rewards@.len() == n
        &&& self.reward_jsons@.len() == n
        &&& self.terminated@.len() == n
        &&& self.truncated@.len() == n
        &&& self.first@.len() == n
        &&& self.infos@.len() == n
    }

    /// The entries of lane `i`.
    pub open spec fn lane(self, i: int) -> LaneOutcome {
        LaneOutcome {
            observation: self.observations@[i],
            reward: self.rewards@[i],
            reward_json: self.reward_jsons@[i],
            terminated: self.terminated@[i],
            truncated: self.truncated@[i],
            first: self.first@[i],
            info: self.infos@[i],
        }
    }

    /// The arrays are of one length, and the two forms of each reward agree.
    pub open spec fn wf(self) -> bool {
        &&& self.has_lanes(self.observations@.len())
        &&& forall|i: int| 0 <= i < self.observations@.len() ==> (#[trigger] self.lane(i)).wf()
    }

    /// Transposes the lanes' outcomes.
    pub fn from_outcomes(outcomes: Vec<LaneOutcome>) -> (step: BatchStep)
        ensures
            step.has_lanes(outcomes@.len()),
            forall|i: int| 0 <= i < outcomes@.len() ==> #[trigger] step.lane(i) == outcomes@[i],
    {
        let mut step = BatchStep {
            observations: Vec::with_capacity(outcomes.len()),
            rewards: Vec::with_capacity(outcomes.len()),
            reward_jsons: Vec::with_capacity(outcomes.len()),
            terminated: Vec::with_capacity(outcomes.len()),
            truncated: Vec::with_capacity(outcomes.len()),
            first: Vec::with_capacity(outcomes.len()),
            infos: Vec::with_capacity(outcomes.len()),
        };
        let ghost all = outcomes@;
        for o in it: outcomes
            invariant
                it.seq() == all,
                step.has_lanes(it.index() as nat),
                forall|i: int| 0 <= i < it.index() ==> #[trigger] step.lane(i) == all[i],
        {
            let ghost before = step;
            step.observations.push(o.observation);
            step.rewards.push(o.reward);
            step.reward_jsons.push(o.reward_json);
            step.terminated.push(o.terminated);
            step.truncated.push(o.truncated);
            step.first.push(o.first);
            step.infos.push(o.info);
            assert forall|i: int| 0 <= i < it.index() + 1 implies #[trigger] step.lane(i)
                == all[i] by {
                if i < it.index() {
                    assert(step.lane(i) == before.lane(i));
                }
            }
        }
        step
    }
}

/// Steps every lane with its decision, on the thread pool of `rayon`:
/// `par_iter_mut`, zipped with the decisions, mapped and collected, which keeps the
/// order of the lanes and calls the function once for each of them.
#[verifier::external_body]
fn step_lanes(envs: &mut Vec<TradingEnv>, decisions: &[Decision]) -> (outcomes: Vec<LaneOutcome>)
    requires
        old(envs)@.len() == decisions@.len(),
        forall|i: int|
            0 <= i < old(envs)@.len() ==> (#[trigger] old(envs)@[i]).wf() && old(
                envs,
            )@[i]@.can_take(decisions@[i]),
    ensures
        final(envs)@.len() == old(envs)@.len(),
        outcomes@.len() == old(envs)@.len(),
        forall|i: int|
            0 <= i < final(envs)@.len() ==> (#[trigger] final(envs)@[i]).wf() && final(envs)@[i]@
                == lane_next(old(envs)@[i]@, decisions@[i]),
        forall|i: int|
            0 <= i < outcomes@.len() ==> (#[trigger] outcomes@[i]).wf() && outcomes@[i]@
                == lane_report(old(envs)@[i]@, decisions@[i]),
{
    envs.par_iter_mut()
        .zip(decisions.par_iter())
        .map(|(env, decision)| step_lane(env, decision))
        .collect()
}

/// What a batch amounts to: the state of each lane, and the seed it was generated from.
pub struct BatchModel {
    pub lanes: Seq<EnvModel>,
    pub seeds: Seq<u64>,
}

impl BatchModel {
    /// The batch that configurations describe, nothing decided yet.
    pub open spec fn built(configs: Seq<LaneConfig>) -> BatchModel {
        BatchModel {
            lanes: configs.map_values(|config: LaneConfig| config.model()),
            seeds: configs.map_values(|config: LaneConfig| config.seed),
        }
    }

    /// The batch with every lane back at the start of its window.
    pub open spec fn restarted(self) -> BatchModel {
        BatchModel {
            lanes: self.lanes.map_values(|lane: EnvModel| lane.restarted()),
            seeds: self.seeds,
        }
    }

    /// What the lanes show, in lane order.
    pub open spec fn observations(self) -> Seq<MarketObservation> {
        self.lanes.map_values(|lane: EnvModel| observation_at(lane))
    }

    /// Every lane has a bar to observe.
    pub open spec fn can_reset(self) -> bool {
        forall|i: int| 0 <= i < self.lanes.len() ==> (#[trigger] self.lanes[i]).can_reset()
    }

    /// Every lane can take a further decision, as far as its position goes.
    pub open spec fn can_advance(self) -> bool {
        forall|i: int| 0 <= i < self.lanes.len() ==> (#[trigger] self.lanes[i]).can_advance()
    }

    /// There is one decision per lane, which the lane can take.
    pub open spec fn can_take(self, decisions: Seq<Decision>) -> bool {
        &&& decisions.len() == self.lanes.len()
        &&& forall|i: int|
            0 <= i < self.lanes.len() ==> (#[trigger] self.lanes[i]).can_take(decisions[i])
    }
}

/// The state that `decisions` leave a batch in: every lane took its own.
pub open spec fn batch_next(before: BatchModel, decisions: Seq<Decision>) -> BatchModel {
    BatchModel {
        lanes: Seq::new(before.lanes.len(), |i: int| lane_next(before.lanes[i], decisions[i])),
        seeds: before.seeds,
    }
}

/// What the lanes of a batch report of their decisions, in lane order.
pub open spec fn batch_reports(before: BatchModel, decisions: Seq<Decision>) -> Seq<LaneReport> {
    Seq::new(before.lanes.len(), |i: int| lane_report(before.lanes[i], decisions[i]))
}

/// A batch of independent lanes stepped together.
pub struct VecTradingEnv {
    envs: Vec<TradingEnv>,
    seeds: Vec<u64>,
}

impl View for VecTradingEnv {
    type V = BatchModel;

    closed spec fn view(&self) -> BatchModel {
        BatchModel {
            lanes: self.envs@.map_values(|env: TradingEnv| env@),
            seeds: self.seeds@,
        }
    }
}

impl VecTradingEnv {
    /// There is a seed for each lane, and every lane is well formed.
    pub closed spec fn wf(self) -> bool {
        &&& self.envs@.len() == self.seeds@.len()
        &&& forall|i: int| 0 <= i < self.envs@.len() ==> (#[trigger] self.envs@[i]).wf()
    }

    /// Builds a batch from per-lane configurations.
    pub fn from_configs(configs: &[LaneConfig]) -> (batch: VecTradingEnv)
        requires
            forall|i: int| 0 <= i < configs@.len() ==> panel_fits((#[trigger] configs@[i]).n_days),
        ensures
            batch.wf(),
            batch@ == BatchModel::built(configs@),
            forall|i: int|
                0 <= i < configs@.len() ==> bar_count((#[trigger] batch@.lanes[i]).data)
                    == configs@[i].n_days,
    {
        let mut envs: Vec<TradingEnv> = Vec::new();
        let mut seeds: Vec<u64> = Vec::new();
        let mut i: usize = 0;
        while i < configs.len()
            invariant
                i <= configs@.len(),
                envs@.len() == i,
                seeds@.len() == i,
                forall|j: int|
                    0 <= j < configs@.len() ==> panel_fits((#[trigger] configs@[j]).n_days),
                forall|j: int|
                    0 <= j < i ==> (#[trigger] envs@[j]).wf() && envs@[j]@ == configs@[j].model()
                        && bar_count(envs@[j]@.data) == configs@[j].n_days,
                forall|j: int| 0 <= j < i ==> (#[trigger] seeds@[j]) == configs@[j].seed,
            decreases configs.len() - i,
        {
            envs.push(configs[i].build());
            seeds.push(configs[i].seed);
            i = i + 1;
        }
        let batch = VecTradingEnv { envs, seeds };
        assert(batch@.lanes =~= BatchModel::built(configs@).lanes);
        assert(batch@.seeds =~= BatchModel::built(configs@).seeds);
        batch
    }

    /// Builds a batch from pre-constructed lanes. `seeds` is out-of-band provenance.
    pub fn from_envs(envs: Vec<TradingEnv>, seeds: Vec<u64>) -> (batch: VecTradingEnv)
        requires
            envs@.len() == seeds@.len(),
            forall|i: int| 0 <= i < envs@.len() ==> (#[trigger] envs@[i]).wf(),
        ensures
            batch.wf(),
            batch@.lanes == envs@.map_values(|env: TradingEnv| env@),
            batch@.seeds == seeds@,
    {
        VecTradingEnv { envs, seeds }
    }

    /// The number of lanes.
    pub fn len(&self) -> (n: usize)
        ensures
            n == self@.lanes.len(),
    {
        self.envs.len()
    }

    /// Whether the batch has no lanes.
    pub fn is_empty(&self) -> (b: bool)
        ensures
            b == (self@.lanes.len() == 0),
    {
        self.envs.len() == 0
    }

    /// The per-lane generating seeds.
    pub fn seeds(&self) -> (seeds: &[u64])
        ensures
            seeds@ == self@.seeds,
            self.wf() ==> seeds@.len() == self@.lanes.len(),
    {
        self.seeds.as_slice()
    }

    /// Whether every lane has a bar to observe.
    pub fn can_reset(&self) -> (b: bool)
        requires
            self.wf(),
        ensures
            b == self@.can_reset(),
    {
        let mut i: usize = 0;
        while i < self.envs.len()
            invariant
                self.wf(),
                i <= self.envs@.len(),
                forall|j: int| 0 <= j < i ==> (#[trigger] self.envs@[j])@.can_reset(),
            decreases self.envs.len() - i,
        {
            if !self.envs[i].can_reset() {
                assert(!self@.lanes[i as int].can_reset());
                return false;
            }
            i = i + 1;
        }
        assert forall|j: int| 0 <= j < self@.lanes.len() implies (
        #[trigger] self@.lanes[j]).can_reset() by {
            assert(self.envs@[j]@.can_reset());
        }
        true
    }

    /// Whether there is one decision per lane, which the lane can take.
    pub fn can_take(&self, decisions: &[Decision]) -> (b: bool)
        requires
            self.wf(),
        ensures
            b == self@.can_take(decisions@),
    {
        if decisions.len() != self.envs.len() {
            return false;
        }
        let mut i: usize = 0;
        while i < self.envs.len()
            invariant
                self.wf(),
                i <= self.envs@.len(),
                decisions@.len() == self.envs@.len(),
                forall|j: int|
                    0 <= j < i ==> (#[trigger] self.envs@[j])@.can_take(decisions@[j]),
            decreases self.envs.len() - i,
        {
            if !self.envs[i].can_take(&decisions[i]) {
                assert(!self@.lanes[i as int].can_take(decisions@[i as int]));
                return false;
            }
            i = i + 1;
        }
        assert forall|j: int| 0 <= j < self@.lanes.len() implies (
        #[trigger] self@.lanes[j]).can_take(decisions@[j]) by {
            assert(self.envs@[j]@.can_take(decisions@[j]));
        }
        true
    }

    /// Resets every lane to the start of its window; returns each lane's first
    /// observation, in lane order.
    pub fn reset_batch(&mut self) -> (observations: Vec<MarketObservation>)
        requires
            old(self).wf(),
            old(self)@.can_reset(),
        ensures
            final(self).wf(),
            final(self)@ == old(self)@.restarted(),
            final(self)@.can_reset(),
            old(self)@.can_advance() ==> final(self)@.can_advance(),
            observations@ == final(self)@.observations(),
    {
        let mut observations: Vec<MarketObservation> = Vec::new();
        let mut i: usize = 0;
        let ghost before = self@;
        while i < self.envs.len()
            invariant
                self.wf(),
                self@.seeds == before.seeds,
                self@.lanes.len() == before.lanes.len(),
                before.can_reset(),
                i <= self.envs@.len(),
                observations@.len() == i,
                forall|j: int|
                    0 <= j < i ==> #[trigger] self@.lanes[j] == before.lanes[j].restarted(),
                forall|j: int|
                    i <= j < before.lanes.len() ==> #[trigger] self@.lanes[j] == before.lanes[j],
                forall|j: int|
                    0 <= j < i ==> #[trigger] observations@[j] == observation_at(
                        before.lanes[j].restarted(),
                    ),
            decreases self.envs.len() - i,
        {
            assert(self@.lanes[i as int] == before.lanes[i as int]);
            let ghost earlier = self@;
            let observation = self.envs[i].reset();
            assert(self@.lanes =~= earlier.lanes.update(
                i as int,
                before.lanes[i as int].restarted(),
            ));
            observations.push(observation);
            i = i + 1;
        }
        assert(self@.lanes =~= before.restarted().lanes);
        assert(observations@ =~= self@.observations());
        assert forall|j: int| 0 <= j < self@.lanes.len() implies (
        #[trigger] self@.lanes[j]).can_reset() && (before.can_advance()
            ==> self@.lanes[j].can_advance()) by {
            assert(before.lanes[j].can_reset());
            assert(before.can_advance() ==> before.lanes[j].can_advance());
        }
        observations
    }

    /// Steps every lane with its decision and resets the lanes that finished.
    pub fn step_batch(&mut self, decisions: &[Decision]) -> (step: BatchStep)
        requires
            old(self).wf(),
            old(self)@.can_take(decisions@),
        ensures
            final(self).wf(),
            final(self)@ == batch_next(old(self)@, decisions@),
            final(self)@.can_advance(),
            step.wf(),
            step@ == batch_reports(old(self)@, decisions@),
    {
        let ghost before = self@;
        assert forall|i: int| 0 <= i < self.envs@.len() implies (
        #[trigger] self.envs@[i]).wf() && self.envs@[i]@.can_take(decisions@[i]) by {
            assert(self@.lanes[i] == self.envs@[i]@);
        }
        let outcomes: Vec<LaneOutcome> = step_lanes(&mut self.envs, decisions);
        let ghost all = outcomes@;
        let step = BatchStep::from_outcomes(outcomes);
        assert forall|i: int| 0 <= i < all.len() implies (#[trigger] step.lane(i)).wf() && step.lane(
            i,
        )@ == batch_reports(before, decisions@)[i] by {
            assert(step.lane(i) == all[i]);
        }
        assert(step@ =~= batch_reports(before, decisions@));
        assert forall|i: int| 0 <= i < self@.lanes.len() implies #[trigger] self@.lanes[i]
            == batch_next(before, decisions@).lanes[i] by {
            assert(self.envs@[i].wf());
        }
        assert(self@.lanes =~= batch_next(before, decisions@).lanes);
        assert forall|i: int| 0 <= i < self@.lanes.len() implies (
        #[trigger] self@.lanes[i]).can_advance() by {
            assert(before.lanes[i].can_take(decisions@[i]));
            law_lane_never_stalls(before.lanes[i], decisions@[i]);
        }
        step
    }
}

/// A lane reports what a scalar environment reports for the same decision in the same
/// state: reward, side channel and end-of-window flag always, the observation and the
/// state unless the lane finished. It finishes exactly where the scalar environment is
/// done or its net asset value is exhausted.
pub proof fn law_lane_matches_scalar_environment(
    before: EnvModel,
    decision: Decision,
    scalar: StepResult,
)
    requires
        scalar.reports(before.after(decision)),
    ensures
        lane_report(before, decision).reward == scalar.reward@,
        lane_report(before, decision).info == scalar.info,
        lane_report(before, decision).truncated == scalar.done,
        lane_report(before, decision).terminated == blown_up(info_nav(scalar.info)),
        lane_report(before, decision).first == (scalar.done || blown_up(info_nav(scalar.info))),
        !lane_report(before, decision).first ==> lane_report(before, decision).observation
            == scalar.observation && lane_next(before, decision) == before.after(decision),
{
}

/// The batch never stalls: a lane that took a decision can advance again, and can take
/// any decision that its costs allow.
pub proof fn law_lane_never_stalls(before: EnvModel, decision: Decision)
    requires
        before.can_advance(),
    ensures
        lane_next(before, decision).can_advance(),
        before.costs.cap_sound() ==> forall|next: Decision|
            #[trigger] lane_next(before, decision).can_take(next),
{
    let stepped = before.after(decision);
    if !stepped.exhausted() {
        assert(stepped.cursor() < stepped.end() <= usize::MAX);
    }
}

/// The lanes after stepping one lane after the other, in the given order.
pub open spec fn stepped_in_order(
    lanes: Seq<EnvModel>,
    decisions: Seq<Decision>,
    order: Seq<int>,
) -> Seq<EnvModel>
    decreases order.len(),
{
    if order.len() == 0 {
        lanes
    } else {
        let earlier = stepped_in_order(lanes, decisions, order.drop_last());
        earlier.update(order.last(), lane_next(earlier[order.last()], decisions[order.last()]))
    }
}

/// Lanes that were stepped once are where their decision leaves them; the others are
/// untouched.
#[verifier::spinoff_prover]
proof fn lemma_stepped_in_order(lanes: Seq<EnvModel>, decisions: Seq<Decision>, order: Seq<int>)
    requires
        order.no_duplicates(),
        forall|k: int| 0 <= k < order.len() ==> 0 <= #[trigger] order[k] < lanes.len(),
    ensures
        stepped_in_order(lanes, decisions, order).len() == lanes.len(),
        forall|i: int|
            0 <= i < lanes.len() ==> #[trigger] stepped_in_order(lanes, decisions, order)[i]
                == if order.contains(i) {
                lane_next(lanes[i], decisions[i])
            } else {
                lanes[i]
            },
    decreases order.len(),
{
    if order.len() > 0 {
        let shorter = order.drop_last();
        let last = order.last();
        lemma_stepped_in_order(lanes, decisions, shorter);
        assert(!shorter.contains(last));
        assert forall|i: int| i != last implies order.contains(i) == shorter.contains(i) by {
            if order.contains(i) {
                let k = choose|k: int| 0 <= k < order.len() && order[k] == i;
                assert(shorter[k] == i);
            }
            if shorter.contains(i) {
                let k = choose|k: int| 0 <= k < shorter.len() && shorter[k] == i;
                assert(order[k] == i);
            }
        }
        assert(order.contains(last)) by {
            assert(order[order.len() - 1] == last);
        }
    }
}

/// The batched step, which runs the lanes in parallel, gives what stepping the lanes
/// one after the other gives, in whatever order: the same reports and the same states.
pub proof fn law_parallel_matches_serial(
    before: BatchModel,
    decisions: Seq<Decision>,
    order: Seq<int>,
)
    requires
        order.no_duplicates(),
        forall|i: int| 0 <= i < before.lanes.len() <==> #[trigger] order.contains(i),
    ensures
        stepped_in_order(before.lanes, decisions, order) == batch_next(before, decisions).lanes,
        forall|k: int|
            0 <= k < order.len() ==> lane_report(
                stepped_in_order(before.lanes, decisions, order.take(k))[#[trigger] order[k]],
                decisions[order[k]],
            ) == batch_reports(before, decisions)[order[k]],
{
    assert forall|k: int| 0 <= k < order.len() implies 0 <= #[trigger] order[k]
        < before.lanes.len() by {
        assert(order.contains(order[k]));
    }
    lemma_stepped_in_order(before.lanes, decisions, order);
    assert(stepped_in_order(before.lanes, decisions, order) =~= batch_next(
        before,
        decisions,
    ).lanes);
    assert forall|k: int| 0 <= k < order.len() implies lane_report(
        stepped_in_order(before.lanes, decisions, order.take(k))[#[trigger] order[k]],
        decisions[order[k]],
    ) == batch_reports(before, decisions)[order[k]] by {
        let prefix = order.take(k);
        assert(forall|j: int| 0 <= j < k ==> #[trigger] prefix[j] == order[j]);
        lemma_stepped_in_order(before.lanes, decisions, prefix);
        assert(!prefix.contains(order[k]));
    }
}

/// A lane does not depend on its neighbours: wherever two batches hold a lane in the
/// same state with the same decision, those lanes end alike.
pub proof fn law_lanes_are_independent(
    x: BatchModel,
    x_decisions: Seq<Decision>,
    i: int,
    y: BatchModel,
    y_decisions: Seq<Decision>,
    j: int,
)
    requires
        0 <= i < x.lanes.len(),
        0 <= j < y.lanes.len(),
        x.lanes[i] == y.lanes[j],
        x_decisions[i] == y_decisions[j],
    ensures
        batch_next(x, x_decisions).lanes[i] == batch_next(y, y_decisions).lanes[j],
        batch_reports(x, x_decisions)[i] == batch_reports(y, y_decisions)[j],
{
}

/// No lane is left in a finished state: after a step it is at the start of its window
/// or has bars left.
pub proof fn law_lane_is_left_live(before: EnvModel, decision: Decision)
    ensures
        lane_next(before, decision).taken.len() == 0 || !lane_next(before, decision).exhausted(),
        lane_report(before, decision).first <==> lane_next(before, decision).taken.len() == 0,
{
}

/// A lane runs out of bars exactly when its episode has taken as many decisions as the
/// window has bars on the panel, and at least one.
pub proof fn law_episode_lasts_its_window(before: EnvModel, decision: Decision)
    ensures
        lane_report(before, decision).truncated <==> before.taken.len() + 1 >= before.end()
            - before.window.start,
{
}

/// A finished lane restarts as a newly built environment: nothing of the prior episode
/// reaches its state or its observation.
pub proof fn law_auto_reset_is_a_fresh_start(before: EnvModel, decision: Decision)
    requires
        lane_report(before, decision).first,
    ensures
        lane_next(before, decision) == EnvModel::fresh(
            before.data,
            before.window,
            before.costs,
            before.seed,
        ),
        lane_report(before, decision).observation == observation_at(
            EnvModel::fresh(before.data, before.window, before.costs, before.seed),
        ),
{
}

/// The state that a lane is left in by a run of decisions.
pub open spec fn lane_after(before: EnvModel, decisions: Seq<Decision>) -> EnvModel
    decreases decisions.len(),
{
    if decisions.len() == 0 {
        before
    } else {
        lane_next(lane_after(before, decisions.drop_last()), decisions.last())
    }
}

/// Until its episode ends, a lane goes through the states of a scalar environment that
/// takes the same decisions.
#[verifier::spinoff_prover]
pub proof fn law_lane_follows_the_scalar_trajectory(before: EnvModel, decisions: Seq<Decision>)
    requires
        forall|k: int|
            0 <= k < decisions.len() ==> !lane_finishes(
                EnvModel { taken: before.taken + decisions.take(k), ..before },
                #[trigger] decisions[k],
            ),
    ensures
        lane_after(before, decisions) == (EnvModel {
            taken: before.taken + decisions,
            ..before
        }),
    decreases decisions.len(),
{
    if decisions.len() == 0 {
        assert(before.taken + decisions =~= before.taken);
    } else {
        let shorter = decisions.drop_last();
        assert forall|k: int| 0 <= k < shorter.len() implies !lane_finishes(
            EnvModel { taken: before.taken + shorter.take(k), ..before },
            #[trigger] shorter[k],
        ) by {
            assert(shorter.take(k) =~= decisions.take(k));
            assert(shorter[k] == decisions[k]);
        }
        law_lane_follows_the_scalar_trajectory(before, shorter);
        assert(decisions.take(decisions.len() - 1) =~= shorter);
        assert(!lane_finishes(
            EnvModel { taken: before.taken + shorter, ..before },
            decisions[decisions.len() - 1],
        ));
        assert((before.taken + shorter).push(decisions.last()) =~= before.taken + decisions);
    }
}

/// Up to and including the step that ends its episode, a lane reports what a scalar
/// environment reports that takes the same decisions: reward, side channel and
/// end-of-window flag, and before that step the observation.
#[verifier::spinoff_prover]
pub proof fn law_lane_matches_the_scalar_run(
    before: EnvModel,
    decisions: Seq<Decision>,
    k: int,
    scalar: StepResult,
)
    requires
        0 <= k < decisions.len(),
        forall|j: int|
            0 <= j < k ==> !lane_finishes(
                EnvModel { taken: before.taken + decisions.take(j), ..before },
                #[trigger] decisions[j],
            ),
        scalar.reports(EnvModel { taken: before.taken + decisions.take(k + 1), ..before }),
    ensures
        ({
            let report = lane_report(lane_after(before, decisions.take(k)), decisions[k]);
            &&& report.reward == scalar.reward@
            &&& report.info == scalar.info
            &&& report.truncated == scalar.done
            &&& report.terminated == blown_up(info_nav(scalar.info))
            &&& report.first == (scalar.done || blown_up(info_nav(scalar.info)))
            &&& !report.first ==> report.observation == scalar.observation
        }),
{
    let run = decisions.take(k);
    assert forall|j: int| 0 <= j < run.len() implies !lane_finishes(
        EnvModel { taken: before.taken + run.take(j), ..before },
        #[trigger] run[j],
    ) by {
        assert(run.take(j) =~= decisions.take(j));
        assert(run[j] == decisions[j]);
    }
    law_lane_follows_the_scalar_trajectory(before, run);
    assert((before.taken + run).push(decisions[k]) =~= before.taken + decisions.take(k + 1));
    law_lane_matches_scalar_environment(lane_after(before, run), decisions[k], scalar);
}

/// Running on from where a run of decisions left a lane.
proof fn lemma_lane_after_splits(before: EnvModel, head: Seq<Decision>, tail: Seq<Decision>)
    ensures
        lane_after(before, head + tail) == lane_after(lane_after(before, head), tail),
    decreases tail.len(),
{
    if tail.len() == 0 {
        assert(head + tail =~= head);
    } else {
        assert((head + tail).drop_last() =~= head + tail.drop_last());
        lemma_lane_after_splits(before, head, tail.drop_last());
    }
}

/// Nothing is carried over an episode's end: once a lane has finished, what it goes on
/// to do is what a newly built environment does with the later decisions.
pub proof fn law_episodes_do_not_leak(
    before: EnvModel,
    earlier: Seq<Decision>,
    last: Decision,
    later: Seq<Decision>,
)
    requires
        lane_finishes(lane_after(before, earlier), last),
    ensures
        lane_after(before, earlier.push(last) + later) == lane_after(
            EnvModel::fresh(before.data, before.window, before.costs, before.seed),
            later,
        ),
{
    lemma_lane_after_splits(before, earlier.push(last), later);
    assert(earlier.push(last).drop_last() =~= earlier);
    law_run_keeps_the_build(before, earlier);
}

/// However long it runs, a lane keeps what it was built with.
pub proof fn law_run_keeps_the_build(before: EnvModel, decisions: Seq<Decision>)
    ensures
        lane_after(before, decisions).restarted() == before.restarted(),
    decreases decisions.len(),
{
    if decisions.len() > 0 {
        law_run_keeps_the_build(before, decisions.drop_last());
    }
}

/// However long it runs, a lane never stalls.
pub proof fn law_run_never_stalls(before: EnvModel, decisions: Seq<Decision>)
    requires
        before.can_advance(),
    ensures
        lane_after(before, decisions).can_advance(),
    decreases decisions.len(),
{
    if decisions.len() > 0 {
        law_run_never_stalls(before, decisions.drop_last());
        law_lane_never_stalls(lane_after(before, decisions.drop_last()), decisions.last());
    }
}

/// A lane is reset within any run of decisions that is as long as its window, however far
/// into an episode the run starts.
#[verifier::spinoff_prover]
pub proof fn law_lane_is_reset_within_its_window(before: EnvModel, decisions: Seq<Decision>)
    requires
        decisions.len() >= 1,
        decisions.len() >= before.end() - before.window.start,
    ensures
        exists|k: int|
            0 <= k < decisions.len() && lane_finishes(
                lane_after(before, decisions.take(k)),
                #[trigger] decisions[k],
            ),
{
    let last = decisions.len() - 1;
    if forall|k: int|
        0 <= k < decisions.len() ==> !lane_finishes(
            lane_after(before, decisions.take(k)),
            #[trigger] decisions[k],
        ) {
        lemma_unfinished_run_takes_all(before, decisions, last);
        let state = lane_after(before, decisions.take(last));
        assert(state.after(decisions[last]).exhausted());
        assert(lane_finishes(state, decisions[last]));
    }
}

/// A lane that has not finished within the first `n` decisions has taken all of them.
#[verifier::spinoff_prover]
proof fn lemma_unfinished_run_takes_all(before: EnvModel, decisions: Seq<Decision>, n: int)
    requires
        0 <= n <= decisions.len(),
        forall|k: int|
            0 <= k < n ==> !lane_finishes(
                lane_after(before, decisions.take(k)),
                #[trigger] decisions[k],
            ),
    ensures
        lane_after(before, decisions.take(n)) == (EnvModel {
            taken: before.taken + decisions.take(n),
            ..before
        }),
    decreases n,
{
    if n == 0 {
        assert(before.taken + decisions.take(0) =~= before.taken);
    } else {
        let last = decisions[n - 1];
        let earlier = lane_after(before, decisions.take(n - 1));
        lemma_unfinished_run_takes_all(before, decisions, n - 1);
        assert(!lane_finishes(earlier, last));
        assert(lane_after(before, decisions.take(n)) == lane_next(earlier, last)) by {
            assert(decisions.take(n).drop_last() =~= decisions.take(n - 1));
        }
        assert(earlier.taken.push(last) =~= before.taken + decisions.take(n));
    }
}

/// A lane is reset again and again: every stretch of a run that is as long as its window
/// holds a reset.
#[verifier::spinoff_prover]
pub proof fn law_lane_is_reset_again_and_again(
    before: EnvModel,
    decisions: Seq<Decision>,
    from: int,
    until: int,
)
    requires
        0 <= from < until <= decisions.len(),
        until - from >= before.end() - before.window.start,
    ensures
        exists|k: int|
            from <= k < until && lane_finishes(
                lane_after(before, decisions.take(k)),
                #[trigger] decisions[k],
            ),
{
    let head = decisions.take(from);
    let start = lane_after(before, head);
    let stretch = decisions.subrange(from, until);
    law_run_keeps_the_build(before, head);
    assert(start.restarted().window == before.restarted().window);
    assert(start.restarted().data == before.restarted().data);
    law_lane_is_reset_within_its_window(start, stretch);
    let k = choose|k: int|
        0 <= k < stretch.len() && lane_finishes(
            lane_after(start, stretch.take(k)),
            #[trigger] stretch[k],
        );
    lemma_lane_after_splits(before, head, stretch.take(k));
    assert(head + stretch.take(k) =~= decisions.take(from + k));
    assert(stretch[k] == decisions[from + k]);
}

/// A call on a batch.
pub enum BatchCall {
    Reset,
    Step(Seq<Decision>),
}

/// The state that a run of calls leaves a batch in.
pub open spec fn batch_after(before: BatchModel, calls: Seq<BatchCall>) -> BatchModel
    decreases calls.len(),
{
    if calls.len() == 0 {
        before
    } else {
        let earlier = batch_after(before, calls.drop_last());
        match calls.last() {
            BatchCall::Reset => earlier.restarted(),
            BatchCall::Step(decisions) => batch_next(earlier, decisions),
        }
    }
}

/// Whatever is called on a batch, its seeds, its lanes' number and what each lane was
/// built with stay.
pub proof fn law_calls_keep_the_build(before: BatchModel, calls: Seq<BatchCall>)
    ensures
        batch_after(before, calls).restarted() == before.restarted(),
        batch_after(before, calls).seeds == before.seeds,
        batch_after(before, calls).lanes.len() == before.lanes.len(),
    decreases calls.len(),
{
    if calls.len() > 0 {
        let earlier = batch_after(before, calls.drop_last());
        let after = batch_after(before, calls);
        law_calls_keep_the_build(before, calls.drop_last());
        assert forall|i: int| 0 <= i < before.lanes.len() implies (
        #[trigger] after.lanes[i]).restarted() == before.lanes[i].restarted() by {
            assert(earlier.restarted().lanes[i] == before.restarted().lanes[i]);
        }
        assert(after.restarted().lanes =~= before.restarted().lanes);
    }
}

/// A reset after any calls gives the newly built batch again, with its first
/// observations; a second reset changes nothing.
pub proof fn law_reset_gives_the_built_batch(configs: Seq<LaneConfig>, calls: Seq<BatchCall>)
    ensures
        batch_after(BatchModel::built(configs), calls).restarted() == BatchModel::built(configs),
        BatchModel::built(configs).restarted() == BatchModel::built(configs),
{
    law_calls_keep_the_build(BatchModel::built(configs), calls);
    assert(BatchModel::built(configs).restarted().lanes =~= BatchModel::built(configs).lanes);
}

/// After any calls, a lane that is reset in a step shows the first observation of a batch
/// that is newly built of that lane alone.
pub proof fn law_reset_lanes_show_a_new_batch(
    configs: Seq<LaneConfig>,
    calls: Seq<BatchCall>,
    decisions: Seq<Decision>,
    i: int,
)
    requires
        0 <= i < configs.len(),
        batch_reports(batch_after(BatchModel::built(configs), calls), decisions)[i].first,
    ensures
        batch_reports(batch_after(BatchModel::built(configs), calls), decisions)[i].observation
            == BatchModel::built(seq![configs[i]]).restarted().observations()[0],
{
    let built = BatchModel::built(configs);
    let state = batch_after(built, calls);
    law_calls_keep_the_build(built, calls);
    assert(state.restarted().lanes[i] == built.restarted().lanes[i]);
    assert(BatchModel::built(seq![configs[i]]).restarted().observations().len() == 1);
}

/// Stepping leaves what a lane was built with as it was.
pub proof fn law_step_keeps_the_build(before: EnvModel, decision: Decision)
    ensures
        lane_next(before, decision).data == before.data,
        lane_next(before, decision).window == before.window,
        lane_next(before, decision).costs == before.costs,
        lane_next(before, decision).seed == before.seed,
{
}

/// A lane is terminated exactly where the net asset value that its step's info carries is a
/// number at or below zero: zero of either sign, or any pattern with the sign bit up to
/// minus infinity. Of a finite value that is to say that its number of steps is not
/// positive.
pub proof fn law_lane_terminates_at_zero(before: EnvModel, decision: Decision, nav: Binary64)
    requires
        nav@ == info_nav(lane_report(before, decision).info),
    ensures
        lane_report(before, decision).terminated <==> (nav.bits == 0 || 0x8000_0000_0000_0000
            <= nav.bits <= 0xfff0_0000_0000_0000),
        nav.bits < 0x7ff0_0000_0000_0000 || 0x8000_0000_0000_0000 <= nav.bits
            < 0xfff0_0000_0000_0000 ==> (lane_report(before, decision).terminated <==> nav.steps()
            <= 0),
{
    crate::binary64::law_patterns(nav);
    crate::binary64::lemma_sign_of_steps(nav);
}

/// A lane whose step leaves a net asset value above zero, however small, and bars to go is
/// not terminated, not truncated and not flagged first; it keeps the decisions of its
/// episode with the new one behind them, and shows the next bar.
pub proof fn law_live_lane_goes_on(before: EnvModel, decision: Decision, nav: Binary64)
    requires
        nav@ == info_nav(lane_report(before, decision).info),
        0 < nav.bits <= 0x7ff0_0000_0000_0000,
        before.window.start + before.taken.len() + 1 < before.window.end,
        before.window.start + before.taken.len() + 1 < bar_count(before.data),
    ensures
        !lane_report(before, decision).terminated,
        !lane_report(before, decision).truncated,
        !lane_report(before, decision).first,
        lane_next(before, decision).taken == before.taken.push(decision),
        lane_report(before, decision).observation == observation_at(
            EnvModel { taken: before.taken.push(decision), ..before },
        ),
{
    law_lane_terminates_at_zero(before, decision, nav);
}

/// A lane's step, field by field. Reward and info are those of the state that the decision
/// leads to. The lane is truncated where that state is past the window or the panel,
/// flagged first where it is terminated or truncated, and then back at its start with
/// nothing taken; else it is in that state. It shows the state it is left in.
pub proof fn law_lane_step_field_by_field(before: EnvModel, decision: Decision)
    ensures
        ({
            let stepped = EnvModel { taken: before.taken.push(decision), ..before };
            let report = lane_report(before, decision);
            let bars = before.window.start + before.taken.len() + 1;
            &&& report.reward == step_report(stepped).reward
            &&& report.info == step_report(stepped).info
            &&& report.truncated <==> (bars >= before.window.end || bars >= bar_count(before.data))
            &&& report.first <==> (report.terminated || report.truncated)
            &&& report.first ==> lane_next(before, decision) == (EnvModel {
                taken: Seq::empty(),
                ..before
            })
            &&& !report.first ==> lane_next(before, decision) == stepped
            &&& report.observation == observation_at(lane_next(before, decision))
        }),
{
}

/// A batched step is the lanes' steps, lane by lane, and a reset the lanes' resets; the
/// seeds stay.
pub proof fn law_batches_lane_by_lane(before: BatchModel, decisions: Seq<Decision>, i: int)
    requires
        0 <= i < before.lanes.len(),
    ensures
        batch_next(before, decisions).lanes.len() == before.lanes.len(),
        batch_next(before, decisions).lanes[i] == lane_next(before.lanes[i], decisions[i]),
        batch_next(before, decisions).seeds == before.seeds,
        batch_reports(before, decisions).len() == before.lanes.len(),
        batch_reports(before, decisions)[i] == lane_report(before.lanes[i], decisions[i]),
        before.restarted().lanes.len() == before.lanes.len(),
        before.restarted().lanes[i] == (EnvModel { taken: Seq::empty(), ..before.lanes[i] }),
        before.restarted().seeds == before.seeds,
        before.observations().len() == before.lanes.len(),
        before.observations()[i] == observation_at(before.lanes[i]),
{
}

/// What is asked of a batch is asked of every lane: a bar to observe, room to advance, and
/// one decision per lane which the lane can take.
pub proof fn law_batches_ask_every_lane(batch: BatchModel, decisions: Seq<Decision>)
    ensures
        batch.can_reset() <==> forall|i: int|
            0 <= i < batch.lanes.len() ==> bar_count((#[trigger] batch.lanes[i]).data) >= 1,
        batch.can_advance() <==> forall|i: int|
            0 <= i < batch.lanes.len() ==> bar_count((#[trigger] batch.lanes[i]).data) >= 1
                && batch.lanes[i].window.start + batch.lanes[i].taken.len() < usize::MAX,
        batch.can_take(decisions) <==> (decisions.len() == batch.lanes.len() && forall|i: int|
            0 <= i < batch.lanes.len() ==> (#[trigger] batch.lanes[i]).can_take(decisions[i])),
{
}

/// What a configuration builds, field by field: the synthetic panel of its dimensions and
/// seed, its costs and seed, nothing taken; its window, or the whole series where it has
/// none.
pub proof fn law_configurations_field_by_field(config: LaneConfig)
    ensures
        config.model().data == synthetic_panel(config.n_symbols, config.n_days, config.seed),
        config.model().costs == cost_view(config.costs),
        config.model().seed == config.seed,
        config.model().taken.len() == 0,
        config.window matches Some(window) ==> config.model().window == window,
        config.window is None ==> config.model().window.start == 0,
        config.window is None ==> config.model().window.end == config.n_days,
{
}

/// A lane without a window lasts its panel: it runs out of bars exactly once it has taken
/// as many decisions as the panel has days.
pub proof fn law_lane_without_a_window_lasts_its_panel(config: LaneConfig, taken: Seq<Decision>)
    requires
        config.window is None,
        bar_count(config.model().data) == config.n_days,
    ensures
        (EnvModel { taken, ..config.model() }).exhausted() <==> taken.len() >= config.n_days,
        taken.len() > 0 ==> (lane_report(
            EnvModel { taken: taken.drop_last(), ..config.model() },
            taken.last(),
        ).truncated <==> taken.len() >= config.n_days),
{
}

/// A batch is built of its configurations in order, each lane with its own seed.
pub proof fn law_batches_are_built_in_order(configs: Seq<LaneConfig>, i: int)
    requires
        0 <= i < configs.len(),
    ensures
        BatchModel::built(configs).lanes.len() == configs.len(),
        BatchModel::built(configs).lanes[i] == configs[i].model(),
        BatchModel::built(configs).seeds.len() == configs.len(),
        BatchModel::built(configs).seeds[i] == configs[i].seed,
{
}

/// The arrays of a batched step hold what the lanes report: entry `i` of each is lane `i`'s,
/// under its own name.
pub proof fn law_arrays_hold_the_reports(step: BatchStep, i: int)
    requires
        step.wf(),
        0 <= i < step@.len(),
    ensures
        step.observations@.len() == step@.len(),
        step.rewards@.len() == step@.len(),
        step.reward_jsons@.len() == step@.len(),
        step.terminated@.len() == step@.len(),
        step.truncated@.len() == step@.len(),
        step.first@.len() == step@.len(),
        step.infos@.len() == step@.len(),
        step@[i].observation == step.observations@[i],
        step@[i].reward == step.rewards@[i]@,
        json_of(step.reward_jsons@[i]) == number_json(step.rewards@[i]@),
        step@[i].terminated == step.terminated@[i],
        step@[i].truncated == step.truncated@[i],
        step@[i].first == step.first@[i],
        step@[i].info == step.infos@[i],
{
    assert(step.lane(i).wf());
}

/// A lane's outcome holds what it reports, under its own name.
pub proof fn law_outcomes_hold_the_report(outcome: LaneOutcome)
    requires
        outcome.wf(),
    ensures
        outcome@.observation == outcome.observation,
        outcome@.reward == outcome.reward@,
        json_of(outcome.reward_json) == number_json(outcome.reward@),
        outcome@.terminated == outcome.terminated,
        outcome@.truncated == outcome.truncated,
        outcome@.first == outcome.first,
        outcome@.info == outcome.info,
{
}

/// Outcomes become arrays lane by lane.
pub proof fn law_outcomes_become_arrays(step: BatchStep, i: int, outcome: LaneOutcome)
    requires
        step.lane(i) == outcome,
    ensures
        step.observations@[i] == outcome.observation,
        step.rewards@[i] == outcome.reward,
        step.reward_jsons@[i] == outcome.reward_json,
        step.terminated@[i] == outcome.terminated,
        step.truncated@[i] == outcome.truncated,
        step.first@[i] == outcome.first,
        step.infos@[i] == outcome.info,
{
}

/// A run of decisions or of calls goes on from where the earlier ones led.
pub proof fn law_runs_go_on(
    lane: EnvModel,
    decisions: Seq<Decision>,
    decision: Decision,
    batch: BatchModel,
    calls: Seq<BatchCall>,
)
    ensures
        lane_after(lane, Seq::empty()) == lane,
        lane_after(lane, decisions.push(decision)) == lane_next(
            lane_after(lane, decisions),
            decision,
        ),
        batch_after(batch, Seq::empty()) == batch,
        batch_after(batch, calls.push(BatchCall::Reset)) == batch_after(batch, calls).restarted(),
        batch_after(batch, calls.push(BatchCall::Step(decisions))) == batch_next(
            batch_after(batch, calls),
            decisions,
        ),
{
    assert(decisions.push(decision).drop_last() =~= decisions);
    assert(calls.push(BatchCall::Reset).drop_last() =~= calls);
    assert(calls.push(BatchCall::Step(decisions)).drop_last() =~= calls);
}

/// What a call of [`step_lane`] does. The outcome carries the reward and info of the state
/// that the decision leads to. It is terminated where the info's net asset value (by its
/// pattern `nav`) is a number at or below zero, truncated where that state is past the
/// window or the panel, and first where it is either. A lane that is first is left with
/// nothing taken, any other with the decision behind those taken before; nothing else of
/// it changes, and the outcome shows the state that it is left in.
pub proof fn law_calls_of_step_lane(
    env: &mut TradingEnv,
    decision: Decision,
    outcome: LaneOutcome,
    nav: Binary64,
)
    requires
        call_ensures(step_lane, (env, &decision), outcome),
        nav@ == info_nav(outcome.info),
    ensures
        ({
            let before = old(env)@;
            let after = final(env)@;
            let stepped = EnvModel { taken: before.taken.push(decision), ..before };
            let bars = before.window.start + before.taken.len() + 1;
            &&& outcome.reward@ == step_report(stepped).reward
            &&& json_of(outcome.reward_json) == number_json(step_report(stepped).reward)
            &&& outcome.info == step_report(stepped).info
            &&& outcome.terminated <==> (nav.bits == 0 || 0x8000_0000_0000_0000 <= nav.bits
                <= 0xfff0_0000_0000_0000)
            &&& outcome.truncated <==> (bars >= before.window.end || bars >= bar_count(
                before.data,
            ))
            &&& outcome.first <==> (outcome.terminated || outcome.truncated)
            &&& outcome.first ==> after == (EnvModel { taken: Seq::empty(), ..before })
            &&& !outcome.first ==> after == stepped
            &&& outcome.observation == observation_at(after)
        }),
{
    law_lane_terminates_at_zero(old(env)@, decision, nav);
}

/// What a call of [`LaneConfig::new`] and of [`LaneConfig::build`] gives: the dimensions and
/// the seed as they came, no window; and an environment over the panel of those, with the
/// configuration's window or the whole series.
pub proof fn law_calls_of_configurations(
    n_symbols: usize,
    n_days: usize,
    seed: u64,
    new: LaneConfig,
    config: LaneConfig,
    env: TradingEnv,
)
    requires
        call_ensures(LaneConfig::new, (n_symbols, n_days, seed), new),
        call_ensures(LaneConfig::build, (&config,), env),
    ensures
        new.n_symbols == n_symbols,
        new.n_days == n_days,
        new.seed == seed,
        new.window is None,
        cost_view(new.costs) == CostView::standard(),
        env@.data == synthetic_panel(config.n_symbols, config.n_days, config.seed),
        env@.costs == cost_view(config.costs),
        env@.seed == config.seed,
        env@.taken.len() == 0,
        config.window matches Some(window) ==> env@.window == window,
        config.window is None ==> env@.window.start == 0 && env@.window.end == config.n_days,
{
}

/// What a call of [`VecTradingEnv::step_batch`] does: in every lane what a lane's step does,
/// with its own decision; the arrays hold the lanes' reports in lane order.
pub proof fn law_calls_of_step_batch(
    batch: &mut VecTradingEnv,
    decisions: &[Decision],
    step: BatchStep,
    i: int,
    nav: Binary64,
)
    requires
        call_ensures(VecTradingEnv::step_batch, (batch, decisions), step),
        0 <= i < old(batch)@.lanes.len(),
        nav@ == info_nav(step.infos@[i]),
    ensures
        final(batch)@.seeds == old(batch)@.seeds,
        final(batch)@.lanes.len() == old(batch)@.lanes.len(),
        step.observations@.len() == old(batch)@.lanes.len(),
        ({
            let before = old(batch)@.lanes[i];
            let after = final(batch)@.lanes[i];
            let stepped = EnvModel { taken: before.taken.push(decisions@[i]), ..before };
            let bars = before.window.start + before.taken.len() + 1;
            &&& step.rewards@[i]@ == step_report(stepped).reward
            &&& step.infos@[i] == step_report(stepped).info
            &&& step.terminated@[i] <==> (nav.bits == 0 || 0x8000_0000_0000_0000 <= nav.bits
                <= 0xfff0_0000_0000_0000)
            &&& step.truncated@[i] <==> (bars >= before.window.end || bars >= bar_count(
                before.data,
            ))
            &&& step.first@[i] <==> (step.terminated@[i] || step.truncated@[i])
            &&& step.first@[i] ==> after == (EnvModel { taken: Seq::empty(), ..before })
            &&& !step.first@[i] ==> after == stepped
            &&& step.observations@[i] == observation_at(after)
        }),
{
    law_arrays_hold_the_reports(step, i);
    law_lane_terminates_at_zero(old(batch)@.lanes[i], decisions@[i], nav);
}

/// What a call of [`VecTradingEnv::reset_batch`] does: every lane is left with nothing taken
/// and otherwise as it was, and its observation is handed out in its place.
pub proof fn law_calls_of_reset_batch(
    batch: &mut VecTradingEnv,
    observations: Vec<MarketObservation>,
    i: int,
)
    requires
        call_ensures(VecTradingEnv::reset_batch, (batch,), observations),
        0 <= i < old(batch)@.lanes.len(),
    ensures
        final(batch)@.seeds == old(batch)@.seeds,
        final(batch)@.lanes.len() == old(batch)@.lanes.len(),
        observations@.len() == old(batch)@.lanes.len(),
        final(batch)@.lanes[i] == (EnvModel { taken: Seq::empty(), ..old(batch)@.lanes[i] }),
        observations@[i] == observation_at(final(batch)@.lanes[i]),
{
}

/// What a call of [`VecTradingEnv::from_configs`] gives: a lane for every configuration, in
/// order, over its own panel and with its own seed.
pub proof fn law_calls_of_from_configs(configs: &[LaneConfig], batch: VecTradingEnv, i: int)
    requires
        call_ensures(VecTradingEnv::from_configs, (configs,), batch),
        0 <= i < configs@.len(),
    ensures
        batch@.lanes.len() == configs@.len(),
        batch@.seeds.len() == configs@.len(),
        batch@.seeds[i] == configs@[i].seed,
        batch@.lanes[i].data == synthetic_panel(
            configs@[i].n_symbols,
            configs@[i].n_days,
            configs@[i].seed,
        ),
        batch@.lanes[i].seed == configs@[i].seed,
        batch@.lanes[i].costs == cost_view(configs@[i].costs),
        batch@.lanes[i].taken.len() == 0,
        configs@[i].window matches Some(window) ==> batch@.lanes[i].window == window,
        configs@[i].window is None ==> batch@.lanes[i].window.start == 0
            && batch@.lanes[i].window.end == configs@[i].n_days,
{
    law_batches_are_built_in_order(configs@, i);
}

/// What a call of [`VecTradingEnv::from_envs`] gives: the lanes and seeds as they came.
pub proof fn law_calls_of_from_envs(
    envs: Vec<TradingEnv>,
    seeds: Vec<u64>,
    batch: VecTradingEnv,
    i: int,
)
    requires
        call_ensures(VecTradingEnv::from_envs, (envs, seeds), batch),
        0 <= i < envs@.len(),
    ensures
        batch@.lanes.len() == envs@.len(),
        batch@.lanes[i] == envs@[i]@,
        batch@.seeds == seeds@,
{
}

/// What a batch tells of itself: the number of its lanes, whether that is zero, and its
/// seeds.
pub proof fn law_calls_that_read_a_batch(
    batch: VecTradingEnv,
    n: usize,
    empty: bool,
    seeds: &[u64],
)
    requires
        call_ensures(VecTradingEnv::len, (&batch,), n),
        call_ensures(VecTradingEnv::is_empty, (&batch,), empty),
        call_ensures(VecTradingEnv::seeds, (&batch,), seeds),
    ensures
        n == batch@.lanes.len(),
        empty <==> n == 0,
        seeds@ == batch@.seeds,
        batch.wf() ==> seeds@.len() == n,
{
}

/// What a call of [`BatchStep::from_outcomes`] gives: every array has an entry per outcome,
/// in order and under its own name.
pub proof fn law_calls_of_from_outcomes(outcomes: Vec<LaneOutcome>, step: BatchStep, i: int)
    requires
        call_ensures(BatchStep::from_outcomes, (outcomes,), step),
        0 <= i < outcomes@.len(),
    ensures
        step.observations@.len() == outcomes@.len(),
        step.rewards@.len() == outcomes@.len(),
        step.terminated@.len() == outcomes@.len(),
        step.truncated@.len() == outcomes@.len(),
        step.first@.len() == outcomes@.len(),
        step.infos@.len() == outcomes@.len(),
        step.observations@[i] == outcomes@[i].observation,
        step.rewards@[i] == outcomes@[i].reward,
        step.reward_jsons@[i] == outcomes@[i].reward_json,
        step.terminated@[i] == outcomes@[i].terminated,
        step.truncated@[i] == outcomes@[i].truncated,
        step.first@[i] == outcomes@[i].first,
        step.infos@[i] == outcomes@[i].info,
{
    law_outcomes_become_arrays(step, i, outcomes@[i]);
    assert(step.lane(i) == outcomes@[i]);
}

/// What calls that ask a batch beforehand give: whether every lane has a bar, and whether
/// there is one decision per lane which the lane can take.
pub proof fn law_calls_that_ask_a_batch(
    batch: VecTradingEnv,
    decisions: &[Decision],
    can_reset: bool,
    can_take: bool,
)
    requires
        call_ensures(VecTradingEnv::can_reset, (&batch,), can_reset),
        call_ensures(VecTradingEnv::can_take, (&batch, decisions), can_take),
    ensures
        can_reset <==> forall|i: int|
            0 <= i < batch@.lanes.len() ==> bar_count((#[trigger] batch@.lanes[i]).data) >= 1,
        can_take <==> (decisions@.len() == batch@.lanes.len() && forall|i: int|
            0 <= i < batch@.lanes.len() ==> (#[trigger] batch@.lanes[i]).can_take(decisions@[i])),
{
}

/// A copy of a configuration is the same configuration.
pub proof fn law_calls_of_clone(config: LaneConfig, copy: LaneConfig)
    requires
        call_ensures(<LaneConfig as Clone>::clone, (&config,), copy),
    ensures
        copy == config,
{
}

} // verus!
