//! The simulation engine (`sharpebench_sim`) as this library sees it.
//!
//! A running environment is described by what it was built over and the decisions
//! taken since its last reset: the engine is a deterministic function of those, and
//! everything it hands out is named as such a function. The declarations and the
//! `external_body` functions below are the whole of what is taken on trust of the
//! engine.
use crate::binary64::{Binary64, Binary64View, INFINITY_BITS, ONE_BITS, SIGN_WEIGHT};
use crate::wire::{json_of, number_json};
use serde_json::Value;
use sharpebench_protocol::{Decision, MarketObservation};
use sharpebench_sim::{CostModel, Dataset, StepInfo, TradingEnv as SimEnv};
use vstd::prelude::*;

verus! {

/// The engine's price panel: a date axis and one close series per symbol.
#[verifier::external_type_specification]
#[verifier::external_body]
pub struct ExDataset(Dataset);

/// The engine's transaction-cost model.
#[verifier::external_type_specification]
#[verifier::external_body]
pub struct ExCostModel(CostModel);

/// The engine's side channel of one step: the net asset value and process events.
#[verifier::external_type_specification]
#[verifier::external_body]
pub struct ExStepInfo(StepInfo);

/// The engine's steppable environment.
#[verifier::external_type_specification]
#[verifier::external_body]
pub struct ExSimEnv(SimEnv);

/// The wire contract's decision: what an agent orders at one bar.
#[verifier::external_type_specification]
#[verifier::external_body]
pub struct ExDecision(Decision);

/// The wire contract's observation: what an agent sees at one bar.
#[verifier::external_type_specification]
#[verifier::external_body]
pub struct ExMarketObservation(MarketObservation);

/// A simulation window over a panel's date axis: bars `[start, end)`.
#[derive(Clone, Copy, Debug, PartialEq, Eq, Structural)]
pub struct Window {
    pub start: usize,
    pub end: usize,
}

/// What a [`CostModel`] holds.
pub struct CostView {
    pub fee_bps: Binary64View,
    pub slippage_bps: Binary64View,
    pub impact_bps: Binary64View,
    pub financing_bps: Binary64View,
    pub max_participation: Binary64View,
    pub trf_cost: Option<Binary64View>,
}

impl CostView {
    /// The default costs: fee 2, slippage 3, impact 50 and financing 5 basis points,
    /// unlimited liquidity, no turnover cost.
    pub open spec fn standard() -> CostView {
        CostView {
            fee_bps: Binary64View::Number(0x4000_0000_0000_0000),
            slippage_bps: Binary64View::Number(0x4008_0000_0000_0000),
            impact_bps: Binary64View::Number(0x4049_0000_0000_0000),
            financing_bps: Binary64View::Number(0x4014_0000_0000_0000),
            max_participation: Binary64View::Number(INFINITY_BITS),
            trf_cost: None,
        }
    }

    /// The liquidity cap is one the engine can apply: not a finite negative number.
    pub open spec fn cap_sound(self) -> bool {
        match self.max_participation {
            Binary64View::NotANumber => true,
            Binary64View::Number(bits) => {
                let cap = Binary64 { bits };
                cap.is_finite() ==> cap.steps() >= 0
            },
        }
    }
}

/// What a running environment amounts to: the panel, window, costs and seed that it
/// was built with, and the decisions taken since its last reset, oldest first.
pub struct EnvModel {
    pub data: Dataset,
    pub window: Window,
    pub costs: CostView,
    pub seed: u64,
    pub taken: Seq<Decision>,
}

/// What one engine step reports besides the observation and the end-of-window flag.
pub struct StepReport {
    pub reward: Binary64View,
    pub info: StepInfo,
}

impl EnvModel {
    /// The environment as built: nothing decided yet.
    pub open spec fn fresh(
        data: Dataset,
        window: Window,
        costs: CostView,
        seed: u64,
    ) -> EnvModel {
        EnvModel { data, window, costs, seed, taken: Seq::empty() }
    }

    /// The environment back at the start of its window.
    pub open spec fn restarted(self) -> EnvModel {
        EnvModel { taken: Seq::empty(), ..self }
    }

    /// The environment one decision later.
    pub open spec fn after(self, decision: Decision) -> EnvModel {
        EnvModel { taken: self.taken.push(decision), ..self }
    }

    /// The bar that the next decision is due at, before it is held to the window.
    pub open spec fn cursor(self) -> int {
        self.window.start + self.taken.len()
    }

    /// The first bar past the window, held to the panel.
    pub open spec fn end(self) -> int {
        if self.window.end <= bar_count(self.data) {
            self.window.end as int
        } else {
            bar_count(self.data) as int
        }
    }

    /// The window has run out.
    pub open spec fn exhausted(self) -> bool {
        self.cursor() >= self.end()
    }

    /// The panel has a bar to observe.
    pub open spec fn can_reset(self) -> bool {
        bar_count(self.data) > 0
    }

    /// There is a bar to decide on, and the cursor has room to advance.
    pub open spec fn can_advance(self) -> bool {
        self.can_reset() && self.cursor() < usize::MAX
    }

    /// The bar that the next decision is applied at: the cursor, held to the last bar of
    /// the window.
    pub open spec fn bar(self) -> int {
        if self.cursor() < self.end() {
            self.cursor()
        } else if self.end() > 0 {
            self.end() - 1
        } else {
            0
        }
    }

    /// The book has a net asset value: its cash is a number, and every close of the bar
    /// is finite.
    pub open spec fn has_value(self) -> bool {
        &&& observation_cash(observation_at(self)) is Number
        &&& closes_finite(self.data, self.bar() as usize)
    }

    /// Some order of `decision` comes to be held to the liquidity cap.
    pub open spec fn has_sized_order(self, decision: Decision) -> bool {
        exists|k: int|
            0 <= k < orders_of(decision).len() && order_is_sized(
                self.data,
                self.bar() as usize,
                #[trigger] orders_of(decision)[k],
            )
    }

    /// The engine can apply `decision`: the environment can advance, and no order is held
    /// to a finite negative liquidity cap while the book has a net asset value.
    pub open spec fn can_take(self, decision: Decision) -> bool {
        &&& self.can_advance()
        &&& self.costs.cap_sound() || !self.has_value() || !self.has_sized_order(decision)
    }
}

/// What the engine reads of an order when it sizes it.
pub struct OrderView {
    pub symbol: Seq<char>,
    pub target_weight: Binary64View,
}

/// The price of `symbol` at `bar`: its close, or zero where there is none.
pub open spec fn price_of(data: Dataset, symbol: Seq<char>, bar: usize) -> Binary64View {
    match panel_close(data, symbol, bar) {
        Some(close) => close,
        None => Binary64View::Number(0),
    }
}

/// Every symbol's price at `bar` is finite.
pub open spec fn closes_finite(data: Dataset, bar: usize) -> bool {
    forall|i: int|
        0 <= i < panel_symbols(data).len() ==> price_of(
            data,
            #[trigger] panel_symbols(data)[i],
            bar,
        ).finite()
}

/// The engine sizes the order at `bar`, rather than skip it: the price is above zero, and
/// the target weight is finite and no further from zero than 5.
pub open spec fn order_is_sized(data: Dataset, bar: usize, order: OrderView) -> bool {
    price_of(data, order.symbol, bar).above_zero() && order.target_weight.within(5)
}

/// A date axis of `n_days` entries fits in memory: its strings take at most 24 bytes each.
pub open spec fn panel_fits(n_days: usize) -> bool {
    n_days * 24 <= isize::MAX
}

/// The number of bars on the date axis of `data`.
pub uninterp spec fn bar_count(data: Dataset) -> usize;

/// The lengths of the close series of `data`, in the order of its symbols.
pub uninterp spec fn close_lengths(data: Dataset) -> Seq<usize>;

/// The panel that `Dataset::synthetic` builds.
pub uninterp spec fn synthetic_panel(n_symbols: usize, n_days: usize, seed: u64) -> Dataset;

/// The panel, or the error text, that `Dataset::from_csv` gives for a text.
pub uninterp spec fn csv_panel(text: Seq<char>) -> Result<Dataset, Seq<char>>;

/// The contents of a cost model.
pub uninterp spec fn cost_view(costs: CostModel) -> CostView;

/// The state of an engine environment.
pub uninterp spec fn env_model(env: SimEnv) -> EnvModel;

/// The observation that the engine builds for an environment in the given state.
pub uninterp spec fn observation_at(state: EnvModel) -> MarketObservation;

/// What the step reports that brought an environment into the given state.
pub uninterp spec fn step_report(state: EnvModel) -> StepReport;

/// The orders of a decision, in order.
pub uninterp spec fn orders_of(decision: Decision) -> Seq<OrderView>;

/// The symbols of a panel, in key order.
pub uninterp spec fn panel_symbols(data: Dataset) -> Seq<Seq<char>>;

/// The close that `Dataset::close_at` finds.
pub uninterp spec fn panel_close(data: Dataset, symbol: Seq<char>, t: usize) -> Option<
    Binary64View,
>;

/// The cash that an observation shows.
pub uninterp spec fn observation_cash(observation: MarketObservation) -> Binary64View;

/// The net asset value that a step's side channel carries.
pub uninterp spec fn info_nav(info: StepInfo) -> Binary64View;

/// `Dataset::synthetic`: a pure function of its arguments. The date axis and each of
/// the `n_symbols` close series have `n_days` entries.
pub assume_specification[ Dataset::synthetic ](
    n_symbols: usize,
    n_days: usize,
    seed: u64,
) -> (data: Dataset)
    requires
        panel_fits(n_days),
    ensures
        data == synthetic_panel(n_symbols, n_days, seed),
        bar_count(data) == n_days,
        close_lengths(data) == Seq::new(n_symbols as nat, |i: int| n_days),
;

/// `Dataset::from_csv`: a pure function of the text. A panel that it accepts has at
/// least two bars.
pub assume_specification[ Dataset::from_csv ](text: &str) -> (res: Result<Dataset, String>)
    ensures
        match res {
            Ok(data) => csv_panel(text@) == Ok::<Dataset, Seq<char>>(data) && bar_count(data) >= 2,
            Err(message) => csv_panel(text@) == Err::<Dataset, Seq<char>>(message@),
        },
;

/// `Dataset::len`: the number of bars on the date axis.
pub assume_specification[ Dataset::len ](data: &Dataset) -> (n: usize)
    ensures
        n == bar_count(*data),
;

/// `Dataset::symbols`: the keys of the close series, in order.
pub assume_specification[ Dataset::symbols ](data: &Dataset) -> (symbols: Vec<String>)
    ensures
        symbols@.map_values(|symbol: String| symbol@) == panel_symbols(*data),
;

/// `Dataset::clone`: the same panel once more.
pub assume_specification[ <Dataset as Clone>::clone ](data: &Dataset) -> (copy: Dataset)
    ensures
        copy == *data,
;

/// `CostModel::default`: the documented default of every field.
pub assume_specification[ <CostModel as Default>::default ]() -> (costs: CostModel)
    ensures
        cost_view(costs) == CostView::standard(),
;

/// Reads the lengths of the close series off `Dataset::closes`, in key order.
#[verifier::external_body]
pub(crate) fn read_close_lengths(data: &Dataset) -> (lengths: Vec<usize>)
    ensures
        lengths@ == close_lengths(*data),
{
    data.closes.values().map(|series| series.len()).collect()
}

/// Reads the liquidity cap off `CostModel::max_participation`.
#[verifier::external_body]
fn read_participation_cap(costs: &CostModel) -> (cap: Binary64)
    ensures
        cap@ == cost_view(*costs).max_participation,
{
    Binary64 { bits: costs.max_participation.to_bits() }
}

/// An order's symbol and target weight.
struct OrderTarget {
    symbol: String,
    target_weight: Binary64,
}

impl View for OrderTarget {
    type V = OrderView;

    closed spec fn view(&self) -> OrderView {
        OrderView { symbol: self.symbol@, target_weight: self.target_weight@ }
    }
}

/// Reads symbol and target weight of each order off `Decision::orders`.
#[verifier::external_body]
fn read_orders(decision: &Decision) -> (orders: Vec<OrderTarget>)
    ensures
        orders@.map_values(|order: OrderTarget| order@) == orders_of(*decision),
{
    decision.orders
        .iter()
        .map(|order| OrderTarget {
            symbol: order.symbol.clone(),
            target_weight: Binary64 { bits: order.target_weight.to_bits() },
        })
        .collect()
}

/// `Dataset::close_at`: the close of a symbol at a bar, or `None` where there is none.
#[verifier::external_body]
fn read_close(data: &Dataset, symbol: &str, t: usize) -> (close: Option<Binary64>)
    ensures
        match close {
            Some(close) => panel_close(*data, symbol@, t) == Some(close@),
            None => panel_close(*data, symbol@, t) is None,
        },
{
    data.close_at(symbol, t).map(|close| Binary64 { bits: close.to_bits() })
}

/// Reads the cash off `MarketObservation::cash`.
#[verifier::external_body]
fn read_cash(observation: &MarketObservation) -> (cash: Binary64)
    ensures
        cash@ == observation_cash(*observation),
{
    Binary64 { bits: observation.cash.to_bits() }
}

/// Reads the net asset value off `StepInfo::nav`.
#[verifier::external_body]
pub(crate) fn read_nav(info: &StepInfo) -> (nav: Binary64)
    ensures
        nav@ == info_nav(*info),
{
    Binary64 { bits: info.nav.to_bits() }
}

/// `TradingEnv::new`: an environment at the start of its window, with nothing decided. Its
/// book starts with a cash of 1.
#[verifier::external_body]
fn open_engine(data: Dataset, window: Window, costs: CostModel, seed: u64) -> (env: SimEnv)
    ensures
        env_model(env) == EnvModel::fresh(data, window, cost_view(costs), seed),
        env_model(env).can_reset() ==> observation_cash(observation_at(env_model(env)))
            == Binary64View::Number(ONE_BITS),
{
    let window = sharpebench_sim::Window { start: window.start, end: window.end };
    SimEnv::new(data, window, costs, seed)
}

/// `TradingEnv::reset`: forgets the decisions taken, and observes the start of the
/// window. A panel without bars has nothing to observe, and makes it panic.
#[verifier::external_body]
fn reset_engine(env: &mut SimEnv) -> (observation: MarketObservation)
    requires
        env_model(*old(env)).can_reset(),
    ensures
        env_model(*final(env)) == env_model(*old(env)).restarted(),
        observation == observation_at(env_model(*final(env))),
{
    env.reset()
}

/// `TradingEnv::step`: takes the decision, reports on it, and observes the bar after
/// it. The flag says that the cursor has reached the end of the window. The reward is
/// handed out by its bits and, through `Value::from`, as a JSON number.
///
/// It panics on a panel without bars, on a cursor that cannot advance, and where an order
/// is clamped to a finite negative liquidity cap times a net asset value above zero. Under
/// such a cap nothing is ever traded while the book has a value. So its cash is 1 and its
/// shares are 0 until a close, a dividend or a financing rate that is not finite makes
/// the net asset value "not a number": it is above zero exactly where the book has a
/// value.
#[verifier::external_body]
fn step_engine(env: &mut SimEnv, decision: &Decision) -> (res: StepResult)
    requires
        env_model(*old(env)).can_take(*decision),
    ensures
        env_model(*final(env)) == env_model(*old(env)).after(*decision),
        res.observation == observation_at(env_model(*final(env))),
        res.reward@ == step_report(env_model(*final(env))).reward,
        json_of(res.reward_json) == number_json(res.reward@),
        res.info == step_report(env_model(*final(env))).info,
        res.done == env_model(*final(env)).exhausted(),
{
    let res = env.step(decision.clone());
    StepResult {
        observation: res.observation,
        reward: Binary64 { bits: res.reward.to_bits() },
        reward_json: Value::from(res.reward),
        done: res.done,
        info: res.info,
    }
}

/// The result of one environment step: the next point-in-time observation, this
/// step's portfolio return (also as the JSON number that the wire carries), whether the
/// window is exhausted, and the side channel.
pub struct StepResult {
    pub observation: MarketObservation,
    pub reward: Binary64,
    pub reward_json: Value,
    pub done: bool,
    pub info: StepInfo,
}

impl StepResult {
    /// The result is that of the step which brought an environment into `state`.
    pub open spec fn reports(self, state: EnvModel) -> bool {
        &&& self.observation == observation_at(state)
        &&& self.reward@ == step_report(state).reward
        &&& json_of(self.reward_json) == number_json(self.reward@)
        &&& self.info == step_report(state).info
        &&& self.done == state.exhausted()
    }
}

/// A steppable, leak-free trading environment over a frozen panel.
pub struct TradingEnv {
    engine: SimEnv,
    bars: usize,
    start: usize,
    end: usize,
    cursor: usize,
    // Kept only under a finite negative liquidity cap, to tell what the engine can apply.
    panel: Option<Dataset>,
    cash_lost: bool,
}

impl View for TradingEnv {
    type V = EnvModel;

    closed spec fn view(&self) -> EnvModel {
        env_model(self.engine)
    }
}

impl TradingEnv {
    /// What is kept beside the engine agrees with the engine's state.
    pub closed spec fn wf(self) -> bool {
        &&& self.bars == bar_count(self@.data)
        &&& self.start == self@.window.start
        &&& self.end == self@.end()
        &&& self.cursor == self@.cursor()
        &&& self.panel == if self@.costs.cap_sound() {
            None
        } else {
            Some(self@.data)
        }
        &&& self@.can_reset() ==> self.cash_lost == (observation_cash(
            observation_at(self@),
        ) is NotANumber)
    }

    /// An environment that steps `window` over `data` with seeded execution noise and
    /// the given costs.
    pub fn new(data: Dataset, window: Window, costs: CostModel, seed: u64) -> (env: TradingEnv)
        ensures
            env.wf(),
            env@ == EnvModel::fresh(data, window, cost_view(costs), seed),
    {
        let bars: usize = data.len();
        let cap: Binary64 = read_participation_cap(&costs);
        let panel: Option<Dataset> = if cap_is_sound(cap) {
            None
        } else {
            Some(data.clone())
        };
        let engine = open_engine(data, window, costs, seed);
        let end: usize = if window.end <= bars {
            window.end
        } else {
            bars
        };
        TradingEnv {
            engine,
            bars,
            start: window.start,
            end,
            cursor: window.start,
            panel,
            cash_lost: false,
        }
    }

    /// Whether [`reset`](Self::reset) has a bar to observe.
    pub fn can_reset(&self) -> (b: bool)
        requires
            self.wf(),
        ensures
            b == self@.can_reset(),
    {
        self.bars > 0
    }

    /// Whether [`step`](Self::step) can apply `decision`.
    pub fn can_take(&self, decision: &Decision) -> (b: bool)
        requires
            self.wf(),
        ensures
            b == self@.can_take(*decision),
    {
        if self.bars == 0 || self.cursor == usize::MAX {
            return false;
        }
        match &self.panel {
            None => true,
            Some(panel) => {
                let bar: usize = if self.cursor < self.end {
                    self.cursor
                } else if self.end > 0 {
                    self.end - 1
                } else {
                    0
                };
                self.cash_lost || !closes_are_finite(panel, bar) || !has_sized_order(
                    panel,
                    bar,
                    decision,
                )
            },
        }
    }

    /// Resets to the start of the window and returns the first point-in-time
    /// observation.
    pub fn reset(&mut self) -> (observation: MarketObservation)
        requires
            old(self).wf(),
            old(self)@.can_reset(),
        ensures
            final(self).wf(),
            final(self)@ == old(self)@.restarted(),
            observation == observation_at(final(self)@),
    {
        let observation = reset_engine(&mut self.engine);
        self.cursor = self.start;
        self.cash_lost = read_cash(&observation).is_not_a_number();
        observation
    }

    /// Applies `decision` at the current bar and advances one step.
    pub fn step(&mut self, decision: &Decision) -> (res: StepResult)
        requires
            old(self).wf(),
            old(self)@.can_take(*decision),
        ensures
            final(self).wf(),
            final(self)@ == old(self)@.after(*decision),
            res.reports(final(self)@),
    {
        let res = step_engine(&mut self.engine, decision);
        self.cursor = self.cursor + 1;
        self.cash_lost = read_cash(&res.observation).is_not_a_number();
        res
    }
}

/// The price of `symbol` at `bar`.
fn price(data: &Dataset, symbol: &str, bar: usize) -> (price: Binary64)
    ensures
        price@ == price_of(*data, symbol@, bar),
{
    match read_close(data, symbol, bar) {
        Some(close) => close,
        None => Binary64 { bits: 0 },
    }
}

/// Whether every symbol's price at `bar` is finite.
fn closes_are_finite(data: &Dataset, bar: usize) -> (b: bool)
    ensures
        b == closes_finite(*data, bar),
{
    let symbols = data.symbols();
    let mut i: usize = 0;
    while i < symbols.len()
        invariant
            i <= symbols@.len(),
            symbols@.map_values(|symbol: String| symbol@) == panel_symbols(*data),
            forall|j: int|
                0 <= j < i ==> price_of(*data, #[trigger] panel_symbols(*data)[j], bar).finite(),
        decreases symbols.len() - i,
    {
        assert(panel_symbols(*data)[i as int] == symbols@[i as int]@);
        if !price(data, symbols[i].as_str(), bar).is_finite_number() {
            return false;
        }
        i = i + 1;
    }
    true
}

/// Whether the engine sizes some order of `decision` at `bar`.
fn has_sized_order(data: &Dataset, bar: usize, decision: &Decision) -> (b: bool)
    ensures
        b == exists|k: int|
            0 <= k < orders_of(*decision).len() && order_is_sized(
                *data,
                bar,
                #[trigger] orders_of(*decision)[k],
            ),
{
    let orders = read_orders(decision);
    let mut i: usize = 0;
    while i < orders.len()
        invariant
            i <= orders@.len(),
            orders@.map_values(|order: OrderTarget| order@) == orders_of(*decision),
            forall|k: int|
                0 <= k < i ==> !order_is_sized(*data, bar, #[trigger] orders_of(*decision)[k]),
        decreases orders.len() - i,
    {
        let order = &orders[i];
        assert(orders_of(*decision)[i as int] == order@);
        if price(data, order.symbol.as_str(), bar).is_above_zero()
            && order.target_weight.is_within_five() {
            return true;
        }
        i = i + 1;
    }
    false
}

/// Under the default costs an environment that can advance can take any decision.
pub proof fn law_standard_costs_take_any_decision(state: EnvModel, decision: Decision)
    requires
        state.costs == CostView::standard(),
        state.can_advance(),
    ensures
        state.can_take(decision),
{
}

/// A reset forgets everything decided: whatever was taken, the environment is back in
/// the state that it was built in.
pub proof fn law_reset_forgets_the_episode(
    data: Dataset,
    window: Window,
    costs: CostView,
    seed: u64,
    taken: Seq<Decision>,
)
    ensures
        (EnvModel { data, window, costs, seed, taken }).restarted() == EnvModel::fresh(
            data,
            window,
            costs,
            seed,
        ),
{
}

/// Whether a liquidity cap is one that the engine can apply: anything but a finite
/// negative number.
pub fn cap_is_sound(cap: Binary64) -> (b: bool)
    ensures
        b == (match cap@ {
            Binary64View::NotANumber => true,
            Binary64View::Number(bits) => Binary64 { bits }.is_finite() ==> Binary64 {
                bits,
            }.steps() >= 0,
        }),
{
    proof {
        crate::binary64::lemma_sign_of_steps(cap);
    }
    cap.bits <= SIGN_WEIGHT || cap.bits >= SIGN_WEIGHT + INFINITY_BITS
}

/// What an environment is built with, field by field, and what a decision and a reset make
/// of it: a decision is put behind those taken, a reset leaves none.
pub proof fn law_states_field_by_field(
    data: Dataset,
    window: Window,
    costs: CostView,
    seed: u64,
    state: EnvModel,
    decision: Decision,
)
    ensures
        EnvModel::fresh(data, window, costs, seed).data == data,
        EnvModel::fresh(data, window, costs, seed).window == window,
        EnvModel::fresh(data, window, costs, seed).costs == costs,
        EnvModel::fresh(data, window, costs, seed).seed == seed,
        EnvModel::fresh(data, window, costs, seed).taken.len() == 0,
        state.after(decision).taken.len() == state.taken.len() + 1,
        state.after(decision).taken.last() == decision,
        state.after(decision).taken.drop_last() == state.taken,
        state.after(decision).data == state.data,
        state.after(decision).window == state.window,
        state.after(decision).costs == state.costs,
        state.after(decision).seed == state.seed,
        state.restarted().taken.len() == 0,
        state.restarted().data == state.data,
        state.restarted().window == state.window,
        state.restarted().costs == state.costs,
        state.restarted().seed == state.seed,
{
    assert(state.after(decision).taken.drop_last() =~= state.taken);
}

/// A window runs out with its last bar or with the panel's, whichever comes first, and the
/// next decision is applied at a bar of both while there is one.
pub proof fn law_windows_run_out(state: EnvModel)
    ensures
        state.exhausted() <==> (state.window.start + state.taken.len() >= state.window.end
            || state.window.start + state.taken.len() >= bar_count(state.data)),
        !state.exhausted() ==> state.bar() == state.window.start + state.taken.len(),
        state.exhausted() && 0 < state.window.end <= bar_count(state.data) ==> state.bar()
            == state.window.end - 1,
        state.exhausted() && 0 < bar_count(state.data) < state.window.end ==> state.bar()
            == bar_count(state.data) - 1,
        state.exhausted() && (state.window.end == 0 || bar_count(state.data) == 0) ==> state.bar()
            == 0,
{
}

/// What is asked of a state before a reset or a decision. A panel with a bar can be reset,
/// and it can advance unless the cursor is at its very end. A liquidity cap that is not a
/// finite negative number (by its pattern `cap`), a decision without orders, a cash that
/// is not a number: each lets the state take any decision that it can advance with.
pub proof fn law_what_can_be_taken(state: EnvModel, decision: Decision, cap: Binary64)
    requires
        cap@ == state.costs.max_participation,
    ensures
        state.can_reset() <==> bar_count(state.data) >= 1,
        state.can_advance() <==> bar_count(state.data) >= 1 && state.window.start
            + state.taken.len() < usize::MAX,
        state.costs.cap_sound() <==> (cap.bits <= 0x8000_0000_0000_0000 || cap.bits
            >= 0xfff0_0000_0000_0000),
        state.can_take(decision) ==> state.can_advance(),
        state.can_advance() && (cap.bits <= 0x8000_0000_0000_0000 || cap.bits
            >= 0xfff0_0000_0000_0000) ==> state.can_take(decision),
        state.can_advance() && orders_of(decision).len() == 0 ==> state.can_take(decision),
        state.can_advance() && observation_cash(observation_at(state)) is NotANumber
            ==> state.can_take(decision),
{
    crate::binary64::lemma_sign_of_steps(cap);
    crate::binary64::law_patterns(cap);
}

/// Under a finite negative liquidity cap, a decision is refused for the sake of its orders
/// exactly where the cash is a number, every symbol's close at the bar is finite (or
/// there is none), and some order has a close above zero and a weight from -5 to 5. The
/// patterns of the closes and weights are given by `close` and `weight`.
#[verifier::spinoff_prover]
pub proof fn law_what_is_refused(
    state: EnvModel,
    decision: Decision,
    cap: Binary64,
    close: spec_fn(Seq<char>) -> Option<Binary64>,
    weight: spec_fn(int) -> Binary64,
)
    requires
        cap@ == state.costs.max_participation,
        0x8000_0000_0000_0000 < cap.bits < 0xfff0_0000_0000_0000,
        state.can_advance(),
        forall|symbol: Seq<char>|
            panel_close(state.data, symbol, state.bar() as usize) == match #[trigger] close(
                symbol,
            ) {
                Some(c) => Some(c@),
                None => None,
            },
        forall|k: int|
            0 <= k < orders_of(decision).len() ==> orders_of(decision)[k].target_weight == (
            #[trigger] weight(k))@,
    ensures
        !state.can_take(decision) <==> {
            &&& observation_cash(observation_at(state)) is Number
            &&& forall|i: int|
                0 <= i < panel_symbols(state.data).len() ==> (close(
                    #[trigger] panel_symbols(state.data)[i],
                ) matches Some(c) ==> c.bits < 0x7ff0_0000_0000_0000 || 0x8000_0000_0000_0000
                    <= c.bits < 0xfff0_0000_0000_0000)
            &&& exists|k: int|
                0 <= k < orders_of(decision).len() && (close(
                    #[trigger] orders_of(decision)[k].symbol,
                ) matches Some(c) && 0 < c.bits <= 0x7ff0_0000_0000_0000) && (weight(k).bits
                    <= 0x4014_0000_0000_0000 || 0x8000_0000_0000_0000 <= weight(k).bits
                    <= 0xc014_0000_0000_0000)
        },
{
    let bar = state.bar() as usize;
    law_what_can_be_taken(state, decision, cap);
    crate::binary64::law_patterns(Binary64 { bits: 0 });
    assert forall|symbol: Seq<char>|
        price_of(state.data, symbol, bar).finite() <==> (#[trigger] close(
            symbol,
        ) matches Some(c) ==> c.bits < 0x7ff0_0000_0000_0000 || 0x8000_0000_0000_0000 <= c.bits
            < 0xfff0_0000_0000_0000) by {
        if let Some(c) = close(symbol) {
            crate::binary64::law_patterns(c);
        }
    }
    assert forall|symbol: Seq<char>|
        price_of(state.data, symbol, bar).above_zero() <==> (#[trigger] close(
            symbol,
        ) matches Some(c) && 0 < c.bits <= 0x7ff0_0000_0000_0000) by {
        if let Some(c) = close(symbol) {
            crate::binary64::law_patterns(c);
        }
    }
    assert forall|k: int| 0 <= k < orders_of(decision).len() implies (
    #[trigger] orders_of(decision)[k]).target_weight.within(5) == (weight(k).bits
        <= 0x4014_0000_0000_0000 || 0x8000_0000_0000_0000 <= weight(k).bits
        <= 0xc014_0000_0000_0000) by {
        crate::binary64::law_patterns(weight(k));
    }
    assert(state.has_value() <==> {
        &&& observation_cash(observation_at(state)) is Number
        &&& forall|i: int|
            0 <= i < panel_symbols(state.data).len() ==> (close(
                #[trigger] panel_symbols(state.data)[i],
            ) matches Some(c) ==> c.bits < 0x7ff0_0000_0000_0000 || 0x8000_0000_0000_0000 <= c.bits
                < 0xfff0_0000_0000_0000)
    });
    if state.has_sized_order(decision) {
        let k = choose|k: int|
            0 <= k < orders_of(decision).len() && order_is_sized(
                state.data,
                bar,
                #[trigger] orders_of(decision)[k],
            );
        let symbol = orders_of(decision)[k].symbol;
        assert(close(symbol) matches Some(c) && 0 < c.bits <= 0x7ff0_0000_0000_0000);
    }
    if exists|k: int|
        0 <= k < orders_of(decision).len() && (close(
            #[trigger] orders_of(decision)[k].symbol,
        ) matches Some(c) && 0 < c.bits <= 0x7ff0_0000_0000_0000) && (weight(k).bits
            <= 0x4014_0000_0000_0000 || 0x8000_0000_0000_0000 <= weight(k).bits
            <= 0xc014_0000_0000_0000) {
        let k = choose|k: int|
            0 <= k < orders_of(decision).len() && (close(
                #[trigger] orders_of(decision)[k].symbol,
            ) matches Some(c) && 0 < c.bits <= 0x7ff0_0000_0000_0000) && (weight(k).bits
                <= 0x4014_0000_0000_0000 || 0x8000_0000_0000_0000 <= weight(k).bits
                <= 0xc014_0000_0000_0000);
        let order = orders_of(decision)[k];
        assert(price_of(state.data, order.symbol, bar).above_zero());
        assert(order_is_sized(state.data, bar, orders_of(decision)[k]));
    }
}

/// The default costs in numbers: fee 2, slippage 3, impact 50 and financing 5 basis points,
/// by their patterns, an unlimited liquidity, and no turnover cost.
pub proof fn law_default_costs_in_numbers()
    ensures
        CostView::standard().fee_bps == Binary64View::Number(0x4000_0000_0000_0000),
        CostView::standard().slippage_bps == Binary64View::Number(0x4008_0000_0000_0000),
        CostView::standard().impact_bps == Binary64View::Number(0x4049_0000_0000_0000),
        CostView::standard().financing_bps == Binary64View::Number(0x4014_0000_0000_0000),
        CostView::standard().max_participation == Binary64View::Number(0x7ff0_0000_0000_0000),
        CostView::standard().trf_cost is None,
{
}

/// Every panel whose date axis can be allocated, at 24 bytes an entry, is admitted.
pub proof fn law_panels_that_fit(n_days: usize)
    ensures
        panel_fits(n_days) <==> 24 * n_days <= isize::MAX,
{
}

/// A step's result, field by field: what the engine gives for the state that the step leads
/// to, done exactly where the window has run out.
pub proof fn law_step_results_field_by_field(state: EnvModel, res: StepResult)
    requires
        res.reports(state),
    ensures
        res.observation == observation_at(state),
        res.reward@ == step_report(state).reward,
        json_of(res.reward_json) == number_json(step_report(state).reward),
        res.info == step_report(state).info,
        res.done <==> (state.window.start + state.taken.len() >= state.window.end
            || state.window.start + state.taken.len() >= bar_count(state.data)),
{
}

/// What calls of [`TradingEnv::new`] and [`TradingEnv::reset`] do: an environment is built
/// with what is given and nothing taken, and a reset leaves nothing taken and shows that.
pub proof fn law_calls_of_new_and_reset(
    data: Dataset,
    window: Window,
    costs: CostModel,
    seed: u64,
    new: TradingEnv,
    env: &mut TradingEnv,
    observation: MarketObservation,
)
    requires
        call_ensures(TradingEnv::new, (data, window, costs, seed), new),
        call_ensures(TradingEnv::reset, (env,), observation),
    ensures
        new@.data == data,
        new@.window == window,
        new@.costs == cost_view(costs),
        new@.seed == seed,
        new@.taken.len() == 0,
        final(env)@ == (EnvModel { taken: Seq::empty(), ..old(env)@ }),
        observation == observation_at(final(env)@),
{
}

/// What a call of [`TradingEnv::step`] does: it puts the decision behind those taken, shows
/// and reports the state that this leads to, and is done where that is past the window or
/// the panel.
pub proof fn law_calls_of_step(env: &mut TradingEnv, decision: Decision, res: StepResult)
    requires
        call_ensures(TradingEnv::step, (env, &decision), res),
    ensures
        ({
            let before = old(env)@;
            let after = final(env)@;
            let bars = before.window.start + before.taken.len() + 1;
            &&& after == (EnvModel { taken: before.taken.push(decision), ..before })
            &&& res.observation == observation_at(after)
            &&& res.reward@ == step_report(after).reward
            &&& res.info == step_report(after).info
            &&& res.done <==> (bars >= before.window.end || bars >= bar_count(before.data))
        }),
{
}

/// What calls that ask beforehand give: whether there is a bar, whether the state can take
/// the decision, and whether a cap is anything but a finite negative number.
pub proof fn law_calls_that_ask(
    env: TradingEnv,
    decision: Decision,
    can_reset: bool,
    can_take: bool,
    cap: Binary64,
    sound: bool,
)
    requires
        call_ensures(TradingEnv::can_reset, (&env,), can_reset),
        call_ensures(TradingEnv::can_take, (&env, &decision), can_take),
        call_ensures(cap_is_sound, (cap,), sound),
    ensures
        can_reset <==> bar_count(env@.data) >= 1,
        can_take <==> env@.can_take(decision),
        sound <==> (cap.bits <= 0x8000_0000_0000_0000 || cap.bits >= 0xfff0_0000_0000_0000),
{
    crate::binary64::lemma_sign_of_steps(cap);
    crate::binary64::law_patterns(cap);
}

} // verus!
