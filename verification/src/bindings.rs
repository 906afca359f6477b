//! The boundary that a language binding exposes: environments that exchange
//! wire-format JSON text, configured by optional overrides.
use crate::binary64::{Binary64, Binary64View};
use crate::engine::{
    bar_count, cost_view, csv_panel, info_nav, observation_at, panel_fits, step_report, synthetic_panel,
    EnvModel, StepResult, TradingEnv, Window,
};
use crate::text::{append_decimal, decimal};
use crate::vec_env::{
    batch_next, batch_reports, BatchModel, BatchStep, LaneConfig, LaneReport, VecTradingEnv,
};
use crate::wire::{
    array_to_value, count_to_value, decision_of_json, decisions_of_json, error_text, events_json,
    events_to_value, flags_to_value, json_error_text, json_of, json_text, jsons_of, members,
    nav_to_value, number_json, object_to_value, observation_json, observation_text,
    observation_to_text, observation_to_value, parse_decision, parse_decisions, value_to_text, Json,
};
use serde_json::Value;
use sharpebench_protocol::{Decision, MarketObservation};
use sharpebench_sim::{CostModel, Dataset, StepInfo};
use vstd::prelude::*;

verus! {

/// The window that optional bounds describe over `len` bars.
pub open spec fn window_over(start: Option<usize>, end: Option<usize>, len: usize) -> Window {
    Window {
        start: match start {
            Some(start) => start,
            None => 0,
        },
        end: match end {
            Some(end) => end,
            None => len,
        },
    }
}

/// A window that holds a bar, within `len` bars.
pub open spec fn window_valid(window: Window, len: usize) -> bool {
    window.start < window.end && window.end <= len
}

/// The message for a window that is not valid over `len` bars.
pub open spec fn invalid_window_text(window: Window, len: usize) -> Seq<char> {
    "invalid window ["@ + decimal(window.start as nat) + ", "@ + decimal(window.end as nat)
        + ") over "@ + decimal(len as nat) + " bars"@
}

/// What is wrong with a value that a caller passed in.
#[derive(Debug)]
pub struct ValueError {
    pub message: String,
}

/// Fills absent bounds: the start of the series, and its end.
pub fn build_window(start: Option<usize>, end: Option<usize>, len: usize) -> (window: Window)
    ensures
        window == window_over(start, end, len),
        start is None ==> window.start == 0,
        start matches Some(bar) ==> window.start == bar,
        end is None ==> window.end == len,
        end matches Some(bar) ==> window.end == bar,
{
    Window {
        start: match start {
            Some(start) => start,
            None => 0,
        },
        end: match end {
            Some(end) => end,
            None => len,
        },
    }
}

/// The error for a window that is not valid over `len` bars.
fn invalid_window(window: Window, len: usize) -> (error: ValueError)
    ensures
        error.message@ == invalid_window_text(window, len),
{
    let mut message = String::from_str("invalid window [");
    append_decimal(&mut message, window.start);
    message.append(", ");
    append_decimal(&mut message, window.end);
    message.append(") over ");
    append_decimal(&mut message, len);
    message.append(" bars");
    ValueError { message }
}

/// The error that carries the text of a JSON error after `prefix`.
fn json_error(prefix: &str, error: &serde_json::Error) -> (e: ValueError)
    ensures
        e.message@ == prefix@ + json_error_text(*error),
{
    let mut message = String::from_str(prefix);
    let text = error_text(error);
    message.append(text.as_str());
    ValueError { message }
}

/// The tunable terms of a cost model, over whatever carries a rate.
#[derive(Debug)]
pub struct CostTerms<T> {
    pub fee_bps: T,
    pub slippage_bps: T,
    pub impact_bps: T,
    pub financing_bps: T,
    pub max_participation: T,
}

/// The override where there is one, else the default.
pub open spec fn or_default<T>(term: Option<T>, default: T) -> T {
    match term {
        Some(term) => term,
        None => default,
    }
}

fn term_or<T>(term: Option<T>, default: T) -> (r: T)
    ensures
        r == or_default(term, default),
{
    match term {
        Some(term) => term,
        None => default,
    }
}

/// The cost terms with each override in place of its default.
pub fn build_costs<T>(
    fee_bps: Option<T>,
    slippage_bps: Option<T>,
    impact_bps: Option<T>,
    financing_bps: Option<T>,
    max_participation: Option<T>,
    d: CostTerms<T>,
) -> (terms: CostTerms<T>)
    ensures
        terms.fee_bps == or_default(fee_bps, d.fee_bps),
        terms.slippage_bps == or_default(slippage_bps, d.slippage_bps),
        terms.impact_bps == or_default(impact_bps, d.impact_bps),
        terms.financing_bps == or_default(financing_bps, d.financing_bps),
        terms.max_participation == or_default(max_participation, d.max_participation),
{
    CostTerms {
        fee_bps: term_or(fee_bps, d.fee_bps),
        slippage_bps: term_or(slippage_bps, d.slippage_bps),
        impact_bps: term_or(impact_bps, d.impact_bps),
        financing_bps: term_or(financing_bps, d.financing_bps),
        max_participation: term_or(max_participation, d.max_participation),
    }
}

/// The JSON object of a step's side channel.
pub open spec fn info_json(info: StepInfo) -> Json {
    Json::Object(
        map![
            "nav"@ => number_json(crate::engine::info_nav(info)),
            "events"@ => events_json(info),
        ],
    )
}

/// The JSON value of a step's side channel.
fn info_to_value(info: &StepInfo) -> (value: Value)
    ensures
        json_of(value) == info_json(*info),
{
    let mut entries: Vec<(String, Value)> = Vec::new();
    put(&mut entries, "nav", nav_to_value(info));
    put(&mut entries, "events", events_to_value(info));
    object_to_value(entries)
}

/// Appends a member to the entries of an object.
fn put(entries: &mut Vec<(String, Value)>, key: &str, value: Value)
    ensures
        members(final(entries)@) == members(old(entries)@).insert(key@, json_of(value)),
{
    entries.push((String::from_str(key), value));
    assert(entries@.drop_last() =~= old(entries)@);
}

/// A reply of text, or the message of an error.
pub open spec fn text_reply(res: Result<String, ValueError>) -> Result<Seq<char>, Seq<char>> {
    match res {
        Ok(text) => Ok(text@),
        Err(error) => Err(error.message@),
    }
}

/// A reply to a step, or the message of an error.
pub open spec fn step_reply(
    res: Result<(String, Binary64, bool, String), ValueError>,
) -> Result<(Seq<char>, Binary64View, bool, Seq<char>), Seq<char>> {
    match res {
        Ok((observation, reward, done, info)) => Ok((observation@, reward@, done, info@)),
        Err(error) => Err(error.message@),
    }
}

/// What is replied for an observation: its text, or the text of the error.
pub open spec fn observation_reply(observation: MarketObservation) -> Result<
    Seq<char>,
    Seq<char>,
> {
    match observation_text(observation) {
        Ok(text) => Ok(text),
        Err(error) => Err(json_error_text(error)),
    }
}

/// What is replied for the step that brought an environment into `state`: the
/// observation's text, the reward, the end-of-window flag and the side channel's text.
pub open spec fn stepped_reply(state: EnvModel) -> Result<
    (Seq<char>, Binary64View, bool, Seq<char>),
    Seq<char>,
> {
    match observation_reply(observation_at(state)) {
        Ok(text) => Ok(
            (
                text,
                step_report(state).reward,
                state.exhausted(),
                json_text(info_json(step_report(state).info)),
            ),
        ),
        Err(message) => Err(message),
    }
}

/// `res` is what an environment in state `before` replies to a step with `text`, leaving it
/// in state `after`: a text that spells a decision is taken, any other is refused and
/// changes nothing.
pub open spec fn text_stepped(
    before: EnvModel,
    text: Seq<char>,
    after: EnvModel,
    res: Result<(String, Binary64, bool, String), ValueError>,
) -> bool {
    match decision_of_json(text) {
        Ok(decision) => {
            &&& after == before.after(decision)
            &&& res is Ok
            &&& step_reply(res) == stepped_reply(after)
        },
        Err(error) => {
            &&& after == before
            &&& res matches Err(e) && e.message@ == "invalid decision JSON: "@ + json_error_text(
                error,
            )
        },
    }
}

/// The text of an observation, with the error of `serde_json` turned into a message.
fn observation_or_error(observation: &MarketObservation) -> (res: Result<String, ValueError>)
    ensures
        res is Ok,
        text_reply(res) == observation_reply(*observation),
{
    match observation_to_text(observation) {
        Ok(text) => Ok(text),
        Err(error) => Err(ValueError { message: error_text(&error) }),
    }
}

/// A steppable environment behind the JSON boundary.
pub struct PyTradingEnv {
    inner: TradingEnv,
    seed: u64,
}

impl View for PyTradingEnv {
    type V = EnvModel;

    closed spec fn view(&self) -> EnvModel {
        self.inner@
    }
}

impl PyTradingEnv {
    /// The environment is well formed, and the seed kept beside it is its own.
    pub closed spec fn wf(self) -> bool {
        self.inner.wf() && self.seed == self@.seed
    }

    /// Builds an environment over a synthetic panel of `n_symbols` by `n_days`, seeded
    /// by `seed`. The window defaults to the full series.
    pub fn new(
        n_symbols: usize,
        n_days: usize,
        seed: u64,
        window_start: Option<usize>,
        window_end: Option<usize>,
        costs: CostModel,
    ) -> (res: Result<PyTradingEnv, ValueError>)
        requires
            panel_fits(n_days),
        ensures
            ({
                let window = window_over(window_start, window_end, n_days);
                match res {
                    Ok(env) => {
                        &&& window_valid(window, n_days)
                        &&& env.wf()
                        &&& env@ == EnvModel::fresh(
                            synthetic_panel(n_symbols, n_days, seed),
                            window,
                            cost_view(costs),
                            seed,
                        )
                        &&& bar_count(env@.data) == n_days
                        &&& env@.can_reset()
                        &&& env@.can_advance()
                    },
                    Err(error) => {
                        &&& !window_valid(window, n_days)
                        &&& error.message@ == invalid_window_text(window, n_days)
                    },
                }
            }),
    {
        let data = Dataset::synthetic(n_symbols, n_days, seed);
        PyTradingEnv::over(data, seed, window_start, window_end, costs)
    }

    /// Builds an environment over a frozen long-format CSV
    /// (`date,symbol,close[,dividend]`).
    pub fn from_csv(
        csv_text: &str,
        seed: u64,
        window_start: Option<usize>,
        window_end: Option<usize>,
        costs: CostModel,
    ) -> (res: Result<PyTradingEnv, ValueError>)
        ensures
            match csv_panel(csv_text@) {
                Ok(data) => {
                    let len = bar_count(data);
                    let window = window_over(window_start, window_end, len);
                    match res {
                        Ok(env) => {
                            &&& window_valid(window, len)
                            &&& env.wf()
                            &&& env@ == EnvModel::fresh(data, window, cost_view(costs), seed)
                            &&& env@.can_reset()
                            &&& env@.can_advance()
                        },
                        Err(error) => {
                            &&& !window_valid(window, len)
                            &&& error.message@ == invalid_window_text(window, len)
                        },
                    }
                },
                Err(message) => res matches Err(error) && error.message@ == message,
            },
    {
        match Dataset::from_csv(csv_text) {
            Ok(data) => PyTradingEnv::over(data, seed, window_start, window_end, costs),
            Err(message) => Err(ValueError { message }),
        }
    }

    /// Builds an environment over `data`, if the window is valid over it.
    fn over(
        data: Dataset,
        seed: u64,
        window_start: Option<usize>,
        window_end: Option<usize>,
        costs: CostModel,
    ) -> (res: Result<PyTradingEnv, ValueError>)
        ensures
            ({
                let len = bar_count(data);
                let window = window_over(window_start, window_end, len);
                match res {
                    Ok(env) => {
                        &&& window_valid(window, len)
                        &&& env.wf()
                        &&& env@ == EnvModel::fresh(data, window, cost_view(costs), seed)
                    },
                    Err(error) => {
                        &&& !window_valid(window, len)
                        &&& error.message@ == invalid_window_text(window, len)
                    },
                }
            }),
    {
        let len: usize = data.len();
        let window = build_window(window_start, window_end, len);
        if window.start >= window.end || window.end > len {
            return Err(invalid_window(window, len));
        }
        Ok(PyTradingEnv { inner: TradingEnv::new(data, window, costs, seed), seed })
    }

    /// The seed that generated this environment's scenario.
    pub fn scenario_seed(&self) -> (seed: u64)
        requires
            self.wf(),
        ensures
            seed == self@.seed,
    {
        self.seed
    }

    /// Whether [`reset`](Self::reset) has a bar to observe.
    pub fn can_reset(&self) -> (b: bool)
        requires
            self.wf(),
        ensures
            b == self@.can_reset(),
    {
        self.inner.can_reset()
    }

    /// Resets to the start of the window; returns the first observation as text.
    pub fn reset(&mut self) -> (res: Result<String, ValueError>)
        requires
            old(self).wf(),
            old(self)@.can_reset(),
        ensures
            final(self).wf(),
            final(self)@ == old(self)@.restarted(),
            res is Ok,
            text_reply(res) == observation_reply(observation_at(final(self)@)),
    {
        let observation = self.inner.reset();
        observation_or_error(&observation)
    }

    /// Applies the decision that `decision_json` spells at the current bar and advances
    /// one step. Replies the observation's text, the reward, the end-of-window flag and
    /// the text of the side channel.
    pub fn step(&mut self, decision_json: &str) -> (res: Result<
        (String, Binary64, bool, String),
        ValueError,
    >)
        requires
            old(self).wf(),
            decision_of_json(decision_json@) matches Ok(decision) ==> old(self)@.can_take(decision),
        ensures
            final(self).wf(),
            text_stepped(old(self)@, decision_json@, final(self)@, res),
    {
        match parse_decision(decision_json) {
            Err(error) => Err(json_error("invalid decision JSON: ", &error)),
            Ok(decision) => {
                let StepResult { observation, reward, done, info, .. } = self.inner.step(&decision);
                match observation_or_error(&observation) {
                    Err(error) => Err(error),
                    Ok(text) => {
                        let info = info_to_value(&info);
                        Ok((text, reward, done, value_to_text(&info)))
                    },
                }
            },
        }
    }

    /// [`step`](Self::step), or `None` and no change where the text spells a decision
    /// that the engine cannot apply.
    pub fn try_step(&mut self, decision_json: &str) -> (res: Option<
        Result<(String, Binary64, bool, String), ValueError>,
    >)
        requires
            old(self).wf(),
        ensures
            final(self).wf(),
            match res {
                Some(r) => {
                    &&& decision_of_json(decision_json@) matches Ok(decision) ==> old(
                        self,
                    )@.can_take(decision)
                    &&& text_stepped(old(self)@, decision_json@, final(self)@, r)
                },
                None => {
                    &&& decision_of_json(decision_json@) matches Ok(decision)
                    &&& !old(self)@.can_take(decision)
                    &&& final(self)@ == old(self)@
                },
            },
    {
        match parse_decision(decision_json) {
            Ok(decision) => if self.inner.can_take(&decision) {
                Some(self.step(decision_json))
            } else {
                None
            },
            Err(_) => Some(self.step(decision_json)),
        }
    }
}

/// The JSON values of observations, in order, or the message for the first that has
/// none.
pub open spec fn observation_jsons(observations: Seq<MarketObservation>) -> Result<
    Seq<Json>,
    Seq<char>,
>
    decreases observations.len(),
{
    if observations.len() == 0 {
        Ok(Seq::empty())
    } else {
        match observation_jsons(observations.drop_last()) {
            Ok(jsons) => match observation_json(observations.last()) {
                Ok(json) => Ok(jsons.push(json)),
                Err(error) => Err(json_error_text(error)),
            },
            Err(message) => Err(message),
        }
    }
}

/// An error at a prefix is the error of the whole.
proof fn lemma_first_error(observations: Seq<MarketObservation>, n: int)
    requires
        0 <= n <= observations.len(),
        observation_jsons(observations.take(n)) is Err,
    ensures
        observation_jsons(observations) == observation_jsons(observations.take(n)),
    decreases observations.len(),
{
    if n < observations.len() {
        assert(observations.drop_last().take(n) =~= observations.take(n));
        lemma_first_error(observations.drop_last(), n);
    } else {
        assert(observations.take(n) =~= observations);
    }
}

/// Turns observations into JSON values, in order; stops at the first that has none.
pub fn observations_to_json(observations: &Vec<MarketObservation>) -> (res: Result<
    Vec<Value>,
    ValueError,
>)
    ensures
        res is Ok,
        match res {
            Ok(values) => observation_jsons(observations@) == Ok::<Seq<Json>, Seq<char>>(
                jsons_of(values@),
            ),
            Err(error) => observation_jsons(observations@) == Err::<Seq<Json>, Seq<char>>(
                error.message@,
            ),
        },
{
    let mut values: Vec<Value> = Vec::new();
    let mut i: usize = 0;
    assert(jsons_of(values@) =~= Seq::empty());
    while i < observations.len()
        invariant
            i <= observations@.len(),
            observation_jsons(observations@.take(i as int)) == Ok::<Seq<Json>, Seq<char>>(
                jsons_of(values@),
            ),
        decreases observations.len() - i,
    {
        assert(observations@.take(i + 1).drop_last() =~= observations@.take(i as int));
        match observation_to_value(&observations[i]) {
            Ok(value) => {
                assert(jsons_of(values@.push(value)) =~= jsons_of(values@).push(json_of(value)));
                values.push(value);
            },
            Err(error) => {
                proof {
                    lemma_first_error(observations@, i + 1);
                }
                return Err(ValueError { message: error_text(&error) });
            },
        }
        i = i + 1;
    }
    assert(observations@.take(i as int) =~= observations@);
    Ok(values)
}

/// The window that all lanes share: none unless a bound is given.
pub open spec fn lane_window(
    window_start: Option<usize>,
    window_end: Option<usize>,
    n_days: usize,
) -> Option<Window> {
    if window_start is None && window_end is None {
        None
    } else {
        Some(window_over(window_start, window_end, n_days))
    }
}

/// A shared window is valid over `n_days` bars, or there is none.
pub open spec fn lane_window_valid(window: Option<Window>, n_days: usize) -> bool {
    match window {
        Some(window) => window_valid(window, n_days),
        None => true,
    }
}

/// The message for a number of decisions that is not the number of lanes.
pub open spec fn wrong_count_text(expected: nat, got: nat) -> Seq<char> {
    "expected "@ + decimal(expected) + " decisions, got "@ + decimal(got)
}

/// The error for a number of decisions that is not the number of lanes.
fn wrong_count(expected: usize, got: usize) -> (error: ValueError)
    ensures
        error.message@ == wrong_count_text(expected as nat, got as nat),
{
    let mut message = String::from_str("expected ");
    append_decimal(&mut message, expected);
    message.append(" decisions, got ");
    append_decimal(&mut message, got);
    ValueError { message }
}

/// What is replied to a reset: the number of lanes and their observations.
pub open spec fn reset_reply(observations: Seq<MarketObservation>) -> Result<
    Seq<char>,
    Seq<char>,
> {
    match observation_jsons(observations) {
        Ok(jsons) => Ok(
            json_text(
                Json::Object(
                    map![
                        "n"@ => Json::Count(observations.len()),
                        "observations"@ => Json::Array(jsons),
                    ],
                ),
            ),
        ),
        Err(message) => Err(message),
    }
}

/// The JSON array of flags.
pub open spec fn flags_json(flags: Seq<bool>) -> Json {
    Json::Array(flags.map_values(|flag: bool| Json::Bool(flag)))
}

/// What is replied to a batched step: the number of lanes and, array by array, what
/// the lanes report.
pub open spec fn batch_reply(reports: Seq<LaneReport>) -> Result<Seq<char>, Seq<char>> {
    match observation_jsons(reports.map_values(|r: LaneReport| r.observation)) {
        Ok(jsons) => Ok(
            json_text(
                Json::Object(
                    map![
                        "n"@ => Json::Count(reports.len()),
                        "observations"@ => Json::Array(jsons),
                        "rewards"@ => Json::Array(
                            reports.map_values(|r: LaneReport| number_json(r.reward)),
                        ),
                        "terminated"@ => flags_json(
                            reports.map_values(|r: LaneReport| r.terminated),
                        ),
                        "truncated"@ => flags_json(
                            reports.map_values(|r: LaneReport| r.truncated),
                        ),
                        "first"@ => flags_json(reports.map_values(|r: LaneReport| r.first)),
                        "infos"@ => Json::Array(
                            reports.map_values(|r: LaneReport| info_json(r.info)),
                        ),
                    ],
                ),
            ),
        ),
        Err(message) => Err(message),
    }
}

/// The text of a batched step, one array entry per lane.
pub fn batch_json(step: BatchStep) -> (res: Result<String, ValueError>)
    requires
        step.wf(),
    ensures
        res is Ok,
        text_reply(res) == batch_reply(step@),
{
    assert(step.observations@ =~= step@.map_values(|r: LaneReport| r.observation));
    let observations = match observations_to_json(&step.observations) {
        Ok(observations) => observations,
        Err(error) => return Err(error),
    };
    let mut infos: Vec<Value> = Vec::new();
    let mut i: usize = 0;
    while i < step.infos.len()
        invariant
            i <= step.infos@.len(),
            infos@.len() == i,
            forall|j: int|
                0 <= j < i ==> json_of(#[trigger] infos@[j]) == info_json(step.infos@[j]),
        decreases step.infos.len() - i,
    {
        infos.push(info_to_value(&step.infos[i]));
        i = i + 1;
    }
    assert(jsons_of(infos@) =~= step@.map_values(|r: LaneReport| info_json(r.info)));
    assert(jsons_of(step.reward_jsons@) =~= step@.map_values(
        |r: LaneReport| number_json(r.reward),
    )) by {
        assert forall|i: int| 0 <= i < step@.len() implies #[trigger] json_of(
            step.reward_jsons@[i],
        ) == number_json(step@[i].reward) by {
            assert(step.lane(i).wf());
        }
    }
    assert(step.terminated@ =~= step@.map_values(|r: LaneReport| r.terminated));
    assert(step.truncated@ =~= step@.map_values(|r: LaneReport| r.truncated));
    assert(step.first@ =~= step@.map_values(|r: LaneReport| r.first));
    let n: usize = step.observations.len();
    let mut entries: Vec<(String, Value)> = Vec::new();
    put(&mut entries, "n", count_to_value(n));
    put(&mut entries, "observations", array_to_value(observations));
    put(&mut entries, "rewards", array_to_value(step.reward_jsons));
    put(&mut entries, "terminated", flags_to_value(&step.terminated));
    put(&mut entries, "truncated", flags_to_value(&step.truncated));
    put(&mut entries, "first", flags_to_value(&step.first));
    put(&mut entries, "infos", array_to_value(infos));
    let object = object_to_value(entries);
    Ok(value_to_text(&object))
}

/// A batch of environments behind the JSON boundary, one synthetic scenario per seed.
pub struct PyVecTradingEnv {
    inner: VecTradingEnv,
}

impl View for PyVecTradingEnv {
    type V = BatchModel;

    closed spec fn view(&self) -> BatchModel {
        self.inner@
    }
}

impl PyVecTradingEnv {
    /// The batch is well formed.
    pub closed spec fn wf(self) -> bool {
        self.inner.wf()
    }

    /// Builds a batch over `seeds`, one synthetic lane of `n_symbols` by `n_days` per
    /// seed. All lanes share the window and the costs.
    pub fn new(
        seeds: Vec<u64>,
        n_symbols: usize,
        n_days: usize,
        window_start: Option<usize>,
        window_end: Option<usize>,
        costs: CostModel,
    ) -> (res: Result<PyVecTradingEnv, ValueError>)
        requires
            seeds@.len() > 0 && lane_window_valid(
                lane_window(window_start, window_end, n_days),
                n_days,
            ) ==> panel_fits(n_days),
        ensures
            ({
                let window = lane_window(window_start, window_end, n_days);
                if seeds@.len() == 0 {
                    res matches Err(error) && error.message@ == "seeds must be non-empty"@
                } else if !lane_window_valid(window, n_days) {
                    res matches Err(error) && error.message@ == invalid_window_text(
                        window->0,
                        n_days,
                    )
                } else {
                    &&& res matches Ok(batch)
                    &&& batch.wf()
                    &&& batch@.seeds == seeds@
                    &&& batch@.lanes.len() == seeds@.len()
                    &&& forall|i: int|
                        0 <= i < seeds@.len() ==> (#[trigger] batch@.lanes[i]) == (LaneConfig {
                            n_symbols,
                            n_days,
                            seed: seeds@[i],
                            window,
                            costs,
                        }).model() && bar_count(batch@.lanes[i].data) == n_days
                }
            }),
    {
        if seeds.len() == 0 {
            return Err(ValueError { message: String::from_str("seeds must be non-empty") });
        }
        let window: Option<Window> = match (window_start, window_end) {
            (None, None) => None,
            _ => {
                let w = build_window(window_start, window_end, n_days);
                if w.start >= w.end || w.end > n_days {
                    return Err(invalid_window(w, n_days));
                }
                Some(w)
            },
        };
        let mut configs: Vec<LaneConfig> = Vec::new();
        let mut i: usize = 0;
        while i < seeds.len()
            invariant
                i <= seeds@.len(),
                configs@.len() == i,
                forall|j: int|
                    0 <= j < i ==> (#[trigger] configs@[j]) == (LaneConfig {
                        n_symbols,
                        n_days,
                        seed: seeds@[j],
                        window,
                        costs,
                    }),
            decreases seeds.len() - i,
        {
            configs.push(LaneConfig { n_symbols, n_days, seed: seeds[i], window, costs });
            i = i + 1;
        }
        let inner = VecTradingEnv::from_configs(configs.as_slice());
        assert(inner@.seeds =~= seeds@);
        Ok(PyVecTradingEnv { inner })
    }

    /// The number of lanes.
    pub fn num_envs(&self) -> (n: usize)
        ensures
            n == self@.lanes.len(),
    {
        self.inner.len()
    }

    /// The per-lane generating seeds.
    pub fn scenario_seeds(&self) -> (seeds: Vec<u64>)
        ensures
            seeds@ == self@.seeds,
            self.wf() ==> seeds@.len() == self@.lanes.len(),
    {
        vstd::slice::slice_to_vec(self.inner.seeds())
    }

    /// Whether every lane has a bar to observe.
    pub fn can_reset(&self) -> (b: bool)
        requires
            self.wf(),
        ensures
            b == self@.can_reset(),
    {
        self.inner.can_reset()
    }

    /// Resets every lane; replies the number of lanes and their observations as text.
    pub fn reset_batch(&mut self) -> (res: Result<String, ValueError>)
        requires
            old(self).wf(),
            old(self)@.can_reset(),
        ensures
            final(self).wf(),
            final(self)@ == old(self)@.restarted(),
            res is Ok,
            text_reply(res) == reset_reply(final(self)@.observations()),
    {
        let observations = self.inner.reset_batch();
        let values = match observations_to_json(&observations) {
            Ok(values) => values,
            Err(error) => return Err(error),
        };
        let mut entries: Vec<(String, Value)> = Vec::new();
        put(&mut entries, "n", count_to_value(observations.len()));
        put(&mut entries, "observations", array_to_value(values));
        let object = object_to_value(entries);
        Ok(value_to_text(&object))
    }

    /// `text` spells one decision per lane.
    pub open spec fn accepts(self, text: Seq<char>) -> bool {
        decisions_of_json(text) matches Ok(decisions) && decisions.len() == self@.lanes.len()
    }

    /// What is replied where `text` does not spell one decision per lane.
    pub open spec fn refusal(self, text: Seq<char>) -> Seq<char> {
        match decisions_of_json(text) {
            Ok(decisions) => wrong_count_text(self@.lanes.len(), decisions.len()),
            Err(error) => "invalid decisions JSON: "@ + json_error_text(error),
        }
    }

    /// Steps every lane with its decision of the JSON array `decisions_json`; replies the
    /// text of what the lanes report.
    pub fn step_batch(&mut self, decisions_json: &str) -> (res: Result<String, ValueError>)
        requires
            old(self).wf(),
            old(self).accepts(decisions_json@) ==> old(self)@.can_take(
                decisions_of_json(decisions_json@)->Ok_0,
            ),
        ensures
            final(self).wf(),
            if old(self).accepts(decisions_json@) {
                let decisions = decisions_of_json(decisions_json@)->Ok_0;
                &&& final(self)@ == batch_next(old(self)@, decisions)
                &&& final(self)@.can_advance()
                &&& res is Ok
                &&& text_reply(res) == batch_reply(batch_reports(old(self)@, decisions))
            } else {
                &&& final(self)@ == old(self)@
                &&& res matches Err(error) && error.message@ == old(self).refusal(decisions_json@)
            },
    {
        let decisions: Vec<Decision> = match parse_decisions(decisions_json) {
            Ok(decisions) => decisions,
            Err(error) => return Err(json_error("invalid decisions JSON: ", &error)),
        };
        if decisions.len() != self.inner.len() {
            return Err(wrong_count(self.inner.len(), decisions.len()));
        }
        batch_json(self.inner.step_batch(decisions.as_slice()))
    }

    /// [`step_batch`](Self::step_batch), or `None` and no change where the text spells
    /// one decision per lane and some lane cannot take its own.
    pub fn try_step_batch(&mut self, decisions_json: &str) -> (res: Option<
        Result<String, ValueError>,
    >)
        requires
            old(self).wf(),
        ensures
            final(self).wf(),
            if !old(self).accepts(decisions_json@) {
                &&& final(self)@ == old(self)@
                &&& res matches Some(Err(error)) && error.message@ == old(self).refusal(
                    decisions_json@,
                )
            } else if old(self)@.can_take(decisions_of_json(decisions_json@)->Ok_0) {
                let decisions = decisions_of_json(decisions_json@)->Ok_0;
                &&& final(self)@ == batch_next(old(self)@, decisions)
                &&& final(self)@.can_advance()
                &&& res matches Some(r) && r is Ok && text_reply(r) == batch_reply(
                    batch_reports(old(self)@, decisions),
                )
            } else {
                final(self)@ == old(self)@ && res is None
            },
    {
        match parse_decisions(decisions_json) {
            Ok(decisions) => if decisions.len() == self.inner.len() && !self.inner.can_take(
                decisions.as_slice(),
            ) {
                None
            } else {
                Some(self.step_batch(decisions_json))
            },
            Err(_) => Some(self.step_batch(decisions_json)),
        }
    }
}

/// A lane of a batch is the scalar environment of the same arguments: same panel,
/// window, costs and seed.
pub proof fn law_lane_is_the_scalar_environment(
    n_symbols: usize,
    n_days: usize,
    seed: u64,
    window_start: Option<usize>,
    window_end: Option<usize>,
    costs: CostModel,
)
    ensures
        (LaneConfig {
            n_symbols,
            n_days,
            seed,
            window: lane_window(window_start, window_end, n_days),
            costs,
        }).model() == EnvModel::fresh(
            synthetic_panel(n_symbols, n_days, seed),
            window_over(window_start, window_end, n_days),
            cost_view(costs),
            seed,
        ),
{
}

/// Validation decides a step without taking it: a step with `text` fails exactly where
/// `text` spells no decision, and then with the message for it; the environment moves
/// exactly where `text` spells one.
pub proof fn law_validation_decides_the_step(
    before: EnvModel,
    text: Seq<char>,
    after: EnvModel,
    res: Result<(String, Binary64, bool, String), ValueError>,
)
    requires
        text_stepped(before, text, after, res),
    ensures
        decision_of_json(text) is Ok <==> res is Ok,
        decision_of_json(text) is Ok <==> after != before,
        res matches Err(e) ==> e.message@ == "invalid decision JSON: "@ + json_error_text(
            decision_of_json(text)->Err_0,
        ),
{
    if let Ok(decision) = decision_of_json(text) {
        assert(after.taken.len() == before.taken.len() + 1);
    }
}

/// Whether `decision_json` spells a decision of the wire contract.
pub fn validate_decision_json(decision_json: &str) -> (b: bool)
    ensures
        b == (decision_of_json(decision_json@) is Ok),
{
    match parse_decision(decision_json) {
        Ok(_) => true,
        Err(_) => false,
    }
}

/// A window without bounds is the whole series, however long: an absent start is bar 0, an
/// absent end is the number of bars, and a bound that is given stands.
pub proof fn law_absent_bounds_are_the_whole_series(start: usize, end: usize, len: usize)
    ensures
        window_over(None, None, len).start == 0,
        window_over(None, None, len).end == len,
        window_over(Some(start), None, len).start == start,
        window_over(Some(start), None, len).end == len,
        window_over(None, Some(end), len).start == 0,
        window_over(None, Some(end), len).end == end,
        window_over(Some(start), Some(end), len).start == start,
        window_over(Some(start), Some(end), len).end == end,
{
}

/// An environment over `len` bars that is built without bounds runs out of bars exactly
/// once it has taken `len` decisions; with bounds, once it has taken as many as lie
/// between them.
pub proof fn law_environment_lasts_its_window(
    state: EnvModel,
    start: Option<usize>,
    end: Option<usize>,
)
    requires
        state.window == window_over(start, end, bar_count(state.data)),
        window_valid(state.window, bar_count(state.data)),
    ensures
        state.exhausted() <==> match (start, end) {
            (None, None) => state.taken.len() >= bar_count(state.data),
            (Some(a), None) => a + state.taken.len() >= bar_count(state.data),
            (None, Some(b)) => state.taken.len() >= b,
            (Some(a), Some(b)) => a + state.taken.len() >= b,
        },
{
}

/// A window is valid where it holds a bar and every bar that it holds is one of the panel.
/// Without bounds it is valid over any panel with a bar.
pub proof fn law_valid_windows_hold_bars(window: Window, len: usize)
    ensures
        window_valid(window, len) <==> {
            &&& window.start < window.end
            &&& forall|bar: int| window.start <= bar < window.end ==> #[trigger] in_panel(bar, len)
        },
        len > 0 ==> window_valid(window_over(None, None, len), len),
{
    if window.start < window.end && window.end > len {
        assert(!in_panel(window.end - 1, len));
    }
}

/// `bar` is one of the first `len` bars.
pub open spec fn in_panel(bar: int, len: usize) -> bool {
    0 <= bar < len
}

/// The window that lanes share is the scalar environment's where a bound is given; without
/// bounds there is none, and none is valid over any panel.
pub proof fn law_lanes_share_the_window(
    start: Option<usize>,
    end: Option<usize>,
    n_days: usize,
)
    ensures
        start is None && end is None ==> lane_window(start, end, n_days) is None,
        start is Some || end is Some ==> lane_window(start, end, n_days) == Some(
            window_over(start, end, n_days),
        ),
        lane_window_valid(None, n_days),
        start is Some || end is Some ==> (lane_window_valid(
            lane_window(start, end, n_days),
            n_days,
        ) <==> window_over(start, end, n_days).start < window_over(start, end, n_days).end
            <= n_days),
{
}

/// An override stands, and a term without one keeps its default.
pub proof fn law_overrides_stand<T>(term: T, default: T)
    ensures
        or_default(Some(term), default) == term,
        or_default(None, default) == default,
{
}

/// The messages, word for word.
pub proof fn law_messages(window: Window, len: usize, expected: nat, got: nat)
    ensures
        invalid_window_text(window, len) == "invalid window ["@ + decimal(window.start as nat)
            + ", "@ + decimal(window.end as nat) + ") over "@ + decimal(len as nat) + " bars"@,
        wrong_count_text(expected, got) == "expected "@ + decimal(expected) + " decisions, got "@
            + decimal(got),
{
}

/// The reply keys are all different.
proof fn lemma_keys_differ()
    ensures
        "n"@.len() == 1,
        "nav"@.len() == 3,
        "first"@.len() == 5,
        "infos"@.len() == 5,
        "first"@[0] == 'f',
        "infos"@[0] == 'i',
        "events"@.len() == 6,
        "rewards"@.len() == 7,
        "truncated"@.len() == 9,
        "terminated"@.len() == 10,
        "observations"@.len() == 12,
{
    reveal_strlit("n");
    reveal_strlit("nav");
    reveal_strlit("first");
    reveal_strlit("infos");
    reveal_strlit("events");
    reveal_strlit("rewards");
    reveal_strlit("truncated");
    reveal_strlit("terminated");
    reveal_strlit("observations");
}

/// The object of a step's side channel has two members: the net asset value and the
/// events.
pub proof fn law_info_members(info: StepInfo)
    ensures
        ({
            &&& info_json(info) matches Json::Object(m)
            &&& m.dom() == set!["nav"@, "events"@]
            &&& m["nav"@] == number_json(info_nav(info))
            &&& m["events"@] == events_json(info)
        }),
{
    lemma_keys_differ();
    let m = info_json(info)->Object_0;
    assert(m.dom() =~= set!["nav"@, "events"@]);
}

/// Observations turn into JSON one by one, in order; there is a list exactly where every
/// one of them has a value, and else the message is that of the first that has none.
#[verifier::spinoff_prover]
pub proof fn law_observations_turn_one_by_one(observations: Seq<MarketObservation>)
    ensures
        match observation_jsons(observations) {
            Ok(jsons) => {
                &&& jsons.len() == observations.len()
                &&& forall|i: int|
                    0 <= i < observations.len() ==> observation_json(#[trigger] observations[i])
                        == Ok::<Json, serde_json::Error>(jsons[i])
            },
            Err(message) => exists|i: int|
                {
                    &&& 0 <= i < observations.len()
                    &&& observation_json(#[trigger] observations[i]) matches Err(error)
                    &&& message == json_error_text(error)
                    &&& forall|j: int|
                        0 <= j < i ==> observation_json(#[trigger] observations[j]) is Ok
                },
        },
    decreases observations.len(),
{
    if observations.len() > 0 {
        let shorter = observations.drop_last();
        let last = observations.len() - 1;
        law_observations_turn_one_by_one(shorter);
        match observation_jsons(shorter) {
            Ok(jsons) => {
                assert forall|i: int| 0 <= i < last implies observation_json(
                    #[trigger] observations[i],
                ) == Ok::<Json, serde_json::Error>(jsons[i]) by {
                    assert(shorter[i] == observations[i]);
                }
                assert(observations[last] == observations.last());
            },
            Err(message) => {
                let i = choose|i: int|
                    {
                        &&& 0 <= i < shorter.len()
                        &&& observation_json(#[trigger] shorter[i]) matches Err(error)
                        &&& message == json_error_text(error)
                        &&& forall|j: int|
                            0 <= j < i ==> observation_json(#[trigger] shorter[j]) is Ok
                    };
                assert(observations[i] == shorter[i]);
                assert forall|j: int| 0 <= j < i implies observation_json(
                    #[trigger] observations[j],
                ) is Ok by {
                    assert(shorter[j] == observations[j]);
                }
            },
        }
    }
}

/// The reply to a batched step is the text of an object of seven members, and the member
/// under each key is the array, in lane order, of what the lanes report under that name:
/// `n` is the number of lanes, and the entry of `first` is true exactly where the lane was
/// reset in the step, that is where its entry of `terminated` or of `truncated` is true.
#[verifier::spinoff_prover]
pub proof fn law_batch_reply_members(before: BatchModel, decisions: Seq<Decision>)
    requires
        batch_reply(batch_reports(before, decisions)) is Ok,
    ensures
        exists|m: Map<Seq<char>, Json>|
            {
                let reports = batch_reports(before, decisions);
                let n = before.lanes.len();
                &&& batch_reply(reports) == Ok::<Seq<char>, Seq<char>>(
                    #[trigger] json_text(Json::Object(m)),
                )
                &&& m.dom() == set![
                    "n"@,
                    "observations"@,
                    "rewards"@,
                    "terminated"@,
                    "truncated"@,
                    "first"@,
                    "infos"@,
                ]
                &&& m["n"@] == Json::Count(n)
                &&& m["observations"@] is Array && m["observations"@]->Array_0.len() == n
                &&& m["rewards"@] is Array && m["rewards"@]->Array_0.len() == n
                &&& m["terminated"@] is Array && m["terminated"@]->Array_0.len() == n
                &&& m["truncated"@] is Array && m["truncated"@]->Array_0.len() == n
                &&& m["first"@] is Array && m["first"@]->Array_0.len() == n
                &&& m["infos"@] is Array && m["infos"@]->Array_0.len() == n
                &&& forall|i: int|
                    0 <= i < n ==> {
                        let report = #[trigger] reports[i];
                        &&& observation_json(report.observation) == Ok::<Json, serde_json::Error>(
                            m["observations"@]->Array_0[i],
                        )
                        &&& m["rewards"@]->Array_0[i] == number_json(report.reward)
                        &&& m["terminated"@]->Array_0[i] == Json::Bool(report.terminated)
                        &&& m["truncated"@]->Array_0[i] == Json::Bool(report.truncated)
                        &&& m["first"@]->Array_0[i] == Json::Bool(
                            report.terminated || report.truncated,
                        )
                        &&& m["first"@]->Array_0[i] == Json::Bool(report.first)
                        &&& m["infos"@]->Array_0[i] == info_json(report.info)
                    }
            },
{
    lemma_keys_differ();
    let reports = batch_reports(before, decisions);
    let observations = reports.map_values(|r: LaneReport| r.observation);
    law_observations_turn_one_by_one(observations);
    let jsons = observation_jsons(observations)->Ok_0;
    let m = map![
        "n"@ => Json::Count(reports.len()),
        "observations"@ => Json::Array(jsons),
        "rewards"@ => Json::Array(reports.map_values(|r: LaneReport| number_json(r.reward))),
        "terminated"@ => flags_json(reports.map_values(|r: LaneReport| r.terminated)),
        "truncated"@ => flags_json(reports.map_values(|r: LaneReport| r.truncated)),
        "first"@ => flags_json(reports.map_values(|r: LaneReport| r.first)),
        "infos"@ => Json::Array(reports.map_values(|r: LaneReport| info_json(r.info))),
    ];
    assert(m.dom() =~= set![
        "n"@,
        "observations"@,
        "rewards"@,
        "terminated"@,
        "truncated"@,
        "first"@,
        "infos"@,
    ]);
    assert forall|i: int| 0 <= i < reports.len() implies observation_json(
        (#[trigger] reports[i]).observation,
    ) == Ok::<Json, serde_json::Error>(jsons[i]) by {
        assert(observations[i] == reports[i].observation);
    }
    assert(batch_reply(reports) == Ok::<Seq<char>, Seq<char>>(json_text(Json::Object(m))));
}

/// The reply to a reset is the text of an object of two members: the number of lanes, and
/// their observations in lane order.
pub proof fn law_reset_reply_members(observations: Seq<MarketObservation>)
    requires
        reset_reply(observations) is Ok,
    ensures
        exists|m: Map<Seq<char>, Json>|
            {
                &&& reset_reply(observations) == Ok::<Seq<char>, Seq<char>>(
                    #[trigger] json_text(Json::Object(m)),
                )
                &&& m.dom() == set!["n"@, "observations"@]
                &&& m["n"@] == Json::Count(observations.len())
                &&& m["observations"@] is Array
                &&& m["observations"@]->Array_0.len() == observations.len()
                &&& forall|i: int|
                    0 <= i < observations.len() ==> observation_json(#[trigger] observations[i])
                        == Ok::<Json, serde_json::Error>(m["observations"@]->Array_0[i])
            },
{
    lemma_keys_differ();
    law_observations_turn_one_by_one(observations);
    let m = map![
        "n"@ => Json::Count(observations.len()),
        "observations"@ => Json::Array(observation_jsons(observations)->Ok_0),
    ];
    assert(m.dom() =~= set!["n"@, "observations"@]);
    assert(reset_reply(observations) == Ok::<Seq<char>, Seq<char>>(json_text(Json::Object(m))));
}

/// Where some observation has no JSON value, the reply to a batched step or a reset is the
/// message of the first such.
pub proof fn law_replies_fail_with_the_first_message(reports: Seq<LaneReport>)
    ensures
        batch_reply(reports) matches Err(message) ==> observation_jsons(
            reports.map_values(|r: LaneReport| r.observation),
        ) == Err::<Seq<Json>, Seq<char>>(message),
        batch_reply(reports) is Ok <==> observation_jsons(
            reports.map_values(|r: LaneReport| r.observation),
        ) is Ok,
{
}

/// The reply to a scalar step whose text spells a decision, part by part: the text of the
/// new observation, the step's reward, whether the window or the panel has run out, and
/// the text of the side channel's object. The decision is put behind those taken.
pub proof fn law_scalar_reply_part_by_part(
    before: EnvModel,
    text: Seq<char>,
    decision: Decision,
    after: EnvModel,
    res: Result<(String, Binary64, bool, String), ValueError>,
)
    requires
        text_stepped(before, text, after, res),
        decision_of_json(text) == Ok::<Decision, serde_json::Error>(decision),
    ensures
        after == (EnvModel { taken: before.taken.push(decision), ..before }),
        res matches Ok((observation, reward, done, info)) && {
            &&& observation_text(observation_at(after)) == Ok::<Seq<char>, serde_json::Error>(
                observation@,
            )
            &&& reward@ == step_report(after).reward
            &&& done <==> (before.window.start + before.taken.len() + 1 >= before.window.end
                || before.window.start + before.taken.len() + 1 >= bar_count(before.data))
            &&& info@ == json_text(info_json(step_report(after).info))
        },
{
}

/// The text of an observation is replied as it is, or the message where there is none.
pub proof fn law_observation_reply(observation: MarketObservation)
    ensures
        match observation_text(observation) {
            Ok(text) => observation_reply(observation) == Ok::<Seq<char>, Seq<char>>(text),
            Err(error) => observation_reply(observation) == Err::<Seq<char>, Seq<char>>(
                json_error_text(error),
            ),
        },
{
}

/// A batch accepts a text exactly where it spells as many decisions as there are lanes. Any
/// other is refused: with the two numbers where it spells decisions, else with the
/// parser's words.
pub proof fn law_batches_accept_one_decision_per_lane(batch: PyVecTradingEnv, text: Seq<char>)
    ensures
        match decisions_of_json(text) {
            Ok(decisions) => {
                &&& batch.accepts(text) <==> decisions.len() == batch@.lanes.len()
                &&& batch.refusal(text) == "expected "@ + decimal(batch@.lanes.len())
                    + " decisions, got "@ + decimal(decisions.len())
            },
            Err(error) => {
                &&& !batch.accepts(text)
                &&& batch.refusal(text) == "invalid decisions JSON: "@ + json_error_text(error)
            },
        },
{
}

/// What a reply hands out is read off its own text, message and value.
pub proof fn law_replies_are_read_off(
    text: String,
    info: String,
    reward: Binary64,
    done: bool,
    error: ValueError,
)
    ensures
        text_reply(Ok(text)) == Ok::<Seq<char>, Seq<char>>(text@),
        text_reply(Err(error)) == Err::<Seq<char>, Seq<char>>(error.message@),
        step_reply(Ok((text, reward, done, info))) == Ok::<
            (Seq<char>, Binary64View, bool, Seq<char>),
            Seq<char>,
        >((text@, reward@, done, info@)),
        step_reply(Err(error)) == Err::<(Seq<char>, Binary64View, bool, Seq<char>), Seq<char>>(
            error.message@,
        ),
{
}

/// What a call of [`build_window`] gives: the bounds that are given, and the whole series
/// where they are not.
pub proof fn law_calls_of_build_window(
    start: Option<usize>,
    end: Option<usize>,
    len: usize,
    window: Window,
)
    requires
        call_ensures(build_window, (start, end, len), window),
    ensures
        start is None ==> window.start == 0,
        start matches Some(bar) ==> window.start == bar,
        end is None ==> window.end == len,
        end matches Some(bar) ==> window.end == bar,
{
}

/// What a call of [`PyTradingEnv::new`] gives: where the bounds hold a bar and lie within
/// the series, an environment over the panel of the dimensions and the whole seed, with
/// those bounds, else the message. An absent start is bar 0, and an absent end is
/// `n_days`.
pub proof fn law_calls_of_scalar_new(
    n_symbols: usize,
    n_days: usize,
    seed: u64,
    window_start: Option<usize>,
    window_end: Option<usize>,
    costs: CostModel,
    res: Result<PyTradingEnv, ValueError>,
)
    requires
        call_ensures(
            PyTradingEnv::new,
            (n_symbols, n_days, seed, window_start, window_end, costs),
            res,
        ),
    ensures
        ({
            let start: usize = if window_start is None {
                0
            } else {
                window_start->0
            };
            let end: usize = if window_end is None {
                n_days
            } else {
                window_end->0
            };
            &&& res is Ok <==> start < end <= n_days
            &&& res matches Ok(env) ==> {
                &&& env.wf()
                &&& env@.data == synthetic_panel(n_symbols, n_days, seed)
                &&& env@.window.start == start
                &&& env@.window.end == end
                &&& env@.costs == cost_view(costs)
                &&& env@.seed == seed
                &&& env@.taken.len() == 0
            }
            &&& res matches Err(error) ==> error.message@ == "invalid window ["@ + decimal(
                start as nat,
            ) + ", "@ + decimal(end as nat) + ") over "@ + decimal(n_days as nat) + " bars"@
        }),
{
}

/// What a call of [`PyTradingEnv::from_csv`] gives: the loader's words where it has no
/// panel for the text, and else what is given over any panel.
pub proof fn law_calls_of_from_csv(
    csv_text: &str,
    seed: u64,
    window_start: Option<usize>,
    window_end: Option<usize>,
    costs: CostModel,
    res: Result<PyTradingEnv, ValueError>,
)
    requires
        call_ensures(
            PyTradingEnv::from_csv,
            (csv_text, seed, window_start, window_end, costs),
            res,
        ),
    ensures
        csv_panel(csv_text@) matches Err(message) ==> (res matches Err(error) && error.message@
            == message),
        csv_panel(csv_text@) matches Ok(data) ==> {
            let len = bar_count(data);
            let start: usize = if window_start is None {
                0
            } else {
                window_start->0
            };
            let end: usize = if window_end is None {
                len
            } else {
                window_end->0
            };
            &&& res is Ok <==> start < end <= len
            &&& res matches Ok(env) ==> {
                &&& env.wf()
                &&& env@.data == data
                &&& env@.window.start == start
                &&& env@.window.end == end
                &&& env@.costs == cost_view(costs)
                &&& env@.seed == seed
                &&& env@.taken.len() == 0
            }
            &&& res matches Err(error) ==> error.message@ == "invalid window ["@ + decimal(
                start as nat,
            ) + ", "@ + decimal(end as nat) + ") over "@ + decimal(len as nat) + " bars"@
        },
{
}

/// What a call of [`PyVecTradingEnv::new`] gives: the message where there is no seed, or
/// where a bound is given and the bounds hold no bar or do not lie within the series; else
/// a lane for every seed, in order, over the panel of that whole seed.
#[verifier::spinoff_prover]
pub proof fn law_calls_of_batch_new(
    seeds: Vec<u64>,
    n_symbols: usize,
    n_days: usize,
    window_start: Option<usize>,
    window_end: Option<usize>,
    costs: CostModel,
    res: Result<PyVecTradingEnv, ValueError>,
    i: int,
)
    requires
        call_ensures(
            PyVecTradingEnv::new,
            (seeds, n_symbols, n_days, window_start, window_end, costs),
            res,
        ),
    ensures
        ({
            let bounded = window_start is Some || window_end is Some;
            let start: usize = if window_start is None {
                0
            } else {
                window_start->0
            };
            let end: usize = if window_end is None {
                n_days
            } else {
                window_end->0
            };
            &&& res is Ok <==> seeds@.len() > 0 && (bounded ==> start < end <= n_days)
            &&& res matches Ok(batch) ==> {
                &&& batch.wf()
                &&& batch@.seeds == seeds@
                &&& batch@.lanes.len() == seeds@.len()
                &&& 0 <= i < seeds@.len() ==> {
                    let lane = batch@.lanes[i];
                    &&& lane.data == synthetic_panel(n_symbols, n_days, seeds@[i])
                    &&& lane.window.start == start
                    &&& lane.window.end == end
                    &&& lane.costs == cost_view(costs)
                    &&& lane.seed == seeds@[i]
                    &&& lane.taken.len() == 0
                }
            }
            &&& res matches Err(error) ==> error.message@ == if seeds@.len() == 0 {
                "seeds must be non-empty"@
            } else {
                "invalid window ["@ + decimal(start as nat) + ", "@ + decimal(end as nat)
                    + ") over "@ + decimal(n_days as nat) + " bars"@
            }
        }),
{
    if let Ok(batch) = res {
        if 0 <= i < seeds@.len() {
            assert(batch@.lanes[i].data == synthetic_panel(n_symbols, n_days, seeds@[i]));
        }
    }
}

/// What a call of [`PyTradingEnv::reset`] does: it leaves nothing taken and replies the text
/// of what is then shown.
pub proof fn law_calls_of_scalar_reset(env: &mut PyTradingEnv, res: Result<String, ValueError>)
    requires
        call_ensures(PyTradingEnv::reset, (env,), res),
    ensures
        final(env)@ == (EnvModel { taken: Seq::empty(), ..old(env)@ }),
        res matches Ok(text) && observation_text(observation_at(final(env)@)) == Ok::<
            Seq<char>,
            serde_json::Error,
        >(text@),
{
}

/// What a call of [`PyTradingEnv::step`] does: a text that spells a decision is taken and
/// replied to part by part; any other is refused with the parser's words and changes
/// nothing.
pub proof fn law_calls_of_scalar_step(
    env: &mut PyTradingEnv,
    text: &str,
    res: Result<(String, Binary64, bool, String), ValueError>,
)
    requires
        call_ensures(PyTradingEnv::step, (env, text), res),
    ensures
        match decision_of_json(text@) {
            Ok(decision) => {
                let before = old(env)@;
                let after = final(env)@;
                let bars = before.window.start + before.taken.len() + 1;
                &&& after == (EnvModel { taken: before.taken.push(decision), ..before })
                &&& res matches Ok((observation, reward, done, info))
                &&& observation_text(observation_at(after)) == Ok::<Seq<char>, serde_json::Error>(
                    observation@,
                )
                &&& reward@ == step_report(after).reward
                &&& done <==> (bars >= before.window.end || bars >= bar_count(before.data))
                &&& info@ == json_text(info_json(step_report(after).info))
            },
            Err(error) => {
                &&& final(env)@ == old(env)@
                &&& res matches Err(e)
                &&& e.message@ == "invalid decision JSON: "@ + json_error_text(error)
            },
        },
{
}

/// What a call of [`PyVecTradingEnv::step_batch`] does. A text that spells one decision per
/// lane is taken by the lanes, each its own, and the reply's members are as
/// [`law_batch_reply_members`] says. Any other is refused with the two numbers, or with
/// the parser's words, and changes nothing.
pub proof fn law_calls_of_batch_step(
    batch: &mut PyVecTradingEnv,
    text: &str,
    res: Result<String, ValueError>,
)
    requires
        call_ensures(PyVecTradingEnv::step_batch, (batch, text), res),
    ensures
        match decisions_of_json(text@) {
            Ok(decisions) => if decisions.len() == old(batch)@.lanes.len() {
                &&& final(batch)@ == batch_next(old(batch)@, decisions)
                &&& res matches Ok(reply)
                &&& batch_reply(batch_reports(old(batch)@, decisions)) == Ok::<
                    Seq<char>,
                    Seq<char>,
                >(reply@)
            } else {
                &&& final(batch)@ == old(batch)@
                &&& res matches Err(e)
                &&& e.message@ == "expected "@ + decimal(old(batch)@.lanes.len())
                    + " decisions, got "@ + decimal(decisions.len())
            },
            Err(error) => {
                &&& final(batch)@ == old(batch)@
                &&& res matches Err(e)
                &&& e.message@ == "invalid decisions JSON: "@ + json_error_text(error)
            },
        },
{
}

/// What a call of [`PyVecTradingEnv::reset_batch`] does: every lane is left with nothing
/// taken, and the reply's members are as [`law_reset_reply_members`] says.
pub proof fn law_calls_of_batch_reset(
    batch: &mut PyVecTradingEnv,
    res: Result<String, ValueError>,
)
    requires
        call_ensures(PyVecTradingEnv::reset_batch, (batch,), res),
    ensures
        final(batch)@ == old(batch)@.restarted(),
        res matches Ok(reply) && reset_reply(final(batch)@.observations()) == Ok::<
            Seq<char>,
            Seq<char>,
        >(reply@),
{
}

/// What a call of [`batch_json`] gives: the text of an object in which the member under each
/// key is the array of that name of the step, and `first` is the step's own.
#[verifier::spinoff_prover]
pub proof fn law_calls_of_batch_json(step: BatchStep, res: Result<String, ValueError>)
    requires
        call_ensures(batch_json, (step,), res),
        step.wf(),
    ensures
        res is Ok,
        exists|m: Map<Seq<char>, Json>|
            {
                let n = step.observations@.len();
                &&& res->Ok_0@ == #[trigger] json_text(Json::Object(m))
                &&& m["n"@] == Json::Count(n)
                &&& m["observations"@] is Array && m["observations"@]->Array_0.len() == n
                &&& m["rewards"@] is Array && m["rewards"@]->Array_0.len() == n
                &&& m["terminated"@] is Array && m["terminated"@]->Array_0.len() == n
                &&& m["truncated"@] is Array && m["truncated"@]->Array_0.len() == n
                &&& m["first"@] is Array && m["first"@]->Array_0.len() == n
                &&& m["infos"@] is Array && m["infos"@]->Array_0.len() == n
                &&& forall|i: int|
                    0 <= i < n ==> {
                        &&& observation_json(#[trigger] step.observations@[i]) == Ok::<
                            Json,
                            serde_json::Error,
                        >(m["observations"@]->Array_0[i])
                        &&& m["rewards"@]->Array_0[i] == number_json(step.rewards@[i]@)
                        &&& m["terminated"@]->Array_0[i] == Json::Bool(step.terminated@[i])
                        &&& m["truncated"@]->Array_0[i] == Json::Bool(step.truncated@[i])
                        &&& m["first"@]->Array_0[i] == Json::Bool(step.first@[i])
                        &&& m["infos"@]->Array_0[i] == info_json(step.infos@[i])
                    }
            },
{
    lemma_keys_differ();
    let reports = step@;
    let observations = reports.map_values(|r: LaneReport| r.observation);
    assert(observations =~= step.observations@);
    law_observations_turn_one_by_one(observations);
    let m = map![
        "n"@ => Json::Count(reports.len()),
        "observations"@ => Json::Array(observation_jsons(observations)->Ok_0),
        "rewards"@ => Json::Array(reports.map_values(|r: LaneReport| number_json(r.reward))),
        "terminated"@ => flags_json(reports.map_values(|r: LaneReport| r.terminated)),
        "truncated"@ => flags_json(reports.map_values(|r: LaneReport| r.truncated)),
        "first"@ => flags_json(reports.map_values(|r: LaneReport| r.first)),
        "infos"@ => Json::Array(reports.map_values(|r: LaneReport| info_json(r.info))),
    ];
    assert(batch_reply(reports) == Ok::<Seq<char>, Seq<char>>(json_text(Json::Object(m))));
    assert(res->Ok_0@ == json_text(Json::Object(m)));
}

/// What is told without a step: whether a text spells a decision, an environment's seed, and
/// a batch's number of lanes and seeds.
pub proof fn law_calls_that_change_nothing(
    text: &str,
    valid: bool,
    env: PyTradingEnv,
    seed: u64,
    batch: PyVecTradingEnv,
    n: usize,
    seeds: Vec<u64>,
)
    requires
        call_ensures(validate_decision_json, (text,), valid),
        call_ensures(PyTradingEnv::scenario_seed, (&env,), seed),
        call_ensures(PyVecTradingEnv::num_envs, (&batch,), n),
        call_ensures(PyVecTradingEnv::scenario_seeds, (&batch,), seeds),
    ensures
        valid <==> decision_of_json(text@) is Ok,
        seed == env@.seed,
        n == batch@.lanes.len(),
        seeds@ == batch@.seeds,
        batch.wf() ==> seeds@.len() == n,
{
}

/// What a call of [`build_costs`] gives: every override in place of its own default.
pub proof fn law_calls_of_build_costs<T>(
    fee_bps: Option<T>,
    slippage_bps: Option<T>,
    impact_bps: Option<T>,
    financing_bps: Option<T>,
    max_participation: Option<T>,
    d: CostTerms<T>,
    terms: CostTerms<T>,
)
    requires
        call_ensures(
            build_costs::<T>,
            (fee_bps, slippage_bps, impact_bps, financing_bps, max_participation, d),
            terms,
        ),
    ensures
        terms.fee_bps == if fee_bps is Some { fee_bps->0 } else { d.fee_bps },
        terms.slippage_bps == if slippage_bps is Some { slippage_bps->0 } else { d.slippage_bps },
        terms.impact_bps == if impact_bps is Some { impact_bps->0 } else { d.impact_bps },
        terms.financing_bps == if financing_bps is Some {
            financing_bps->0
        } else {
            d.financing_bps
        },
        terms.max_participation == if max_participation is Some {
            max_participation->0
        } else {
            d.max_participation
        },
{
}

/// What a call of [`PyTradingEnv::try_step`] does: nothing, and `None`, exactly where the
/// text spells a decision that the state cannot take; else what a step does.
pub proof fn law_calls_of_try_step(
    env: &mut PyTradingEnv,
    text: &str,
    res: Option<Result<(String, Binary64, bool, String), ValueError>>,
)
    requires
        call_ensures(PyTradingEnv::try_step, (env, text), res),
    ensures
        res is None <==> (decision_of_json(text@) matches Ok(decision) && !old(env)@.can_take(
            decision,
        )),
        res is None ==> final(env)@ == old(env)@,
        decision_of_json(text@) matches Ok(decision) ==> (old(env)@.can_take(decision) ==> {
            let after = final(env)@;
            &&& after == (EnvModel { taken: old(env)@.taken.push(decision), ..old(env)@ })
            &&& res matches Some(Ok((observation, reward, done, info)))
            &&& observation_text(observation_at(after)) == Ok::<Seq<char>, serde_json::Error>(
                observation@,
            )
            &&& reward@ == step_report(after).reward
            &&& done == after.exhausted()
            &&& info@ == json_text(info_json(step_report(after).info))
        }),
        decision_of_json(text@) matches Err(error) ==> {
            &&& final(env)@ == old(env)@
            &&& res matches Some(Err(e))
            &&& e.message@ == "invalid decision JSON: "@ + json_error_text(error)
        },
{
}

/// What a call of [`PyVecTradingEnv::try_step_batch`] does: nothing, and `None`, exactly
/// where the text spells one decision per lane and some lane cannot take its own; else
/// what a batched step does.
pub proof fn law_calls_of_try_step_batch(
    batch: &mut PyVecTradingEnv,
    text: &str,
    res: Option<Result<String, ValueError>>,
)
    requires
        call_ensures(PyVecTradingEnv::try_step_batch, (batch, text), res),
    ensures
        match decisions_of_json(text@) {
            Ok(decisions) => if decisions.len() != old(batch)@.lanes.len() {
                &&& final(batch)@ == old(batch)@
                &&& res matches Some(Err(e))
                &&& e.message@ == "expected "@ + decimal(old(batch)@.lanes.len())
                    + " decisions, got "@ + decimal(decisions.len())
            } else if old(batch)@.can_take(decisions) {
                &&& final(batch)@ == batch_next(old(batch)@, decisions)
                &&& res matches Some(Ok(reply))
                &&& batch_reply(batch_reports(old(batch)@, decisions)) == Ok::<
                    Seq<char>,
                    Seq<char>,
                >(reply@)
            } else {
                final(batch)@ == old(batch)@ && res is None
            },
            Err(error) => {
                &&& final(batch)@ == old(batch)@
                &&& res matches Some(Err(e))
                &&& e.message@ == "invalid decisions JSON: "@ + json_error_text(error)
            },
        },
{
}

/// What a call of [`observations_to_json`] gives: the JSON value of each observation, in its
/// place.
pub proof fn law_calls_of_observations_to_json(
    observations: Vec<MarketObservation>,
    res: Result<Vec<Value>, ValueError>,
    i: int,
)
    requires
        call_ensures(observations_to_json, (&observations,), res),
        0 <= i < observations@.len(),
    ensures
        res is Ok,
        res->Ok_0@.len() == observations@.len(),
        observation_json(observations@[i]) == Ok::<Json, serde_json::Error>(
            json_of(res->Ok_0@[i]),
        ),
{
    law_observations_turn_one_by_one(observations@);
    assert(jsons_of(res->Ok_0@).len() == observations@.len());
    assert(observation_json(observations@[i]) is Ok);
}

/// What calls that ask beforehand give: whether there is a bar to observe, in every lane.
pub proof fn law_calls_that_ask_the_boundary(
    env: PyTradingEnv,
    can_reset: bool,
    batch: PyVecTradingEnv,
    batch_can_reset: bool,
)
    requires
        call_ensures(PyTradingEnv::can_reset, (&env,), can_reset),
        call_ensures(PyVecTradingEnv::can_reset, (&batch,), batch_can_reset),
    ensures
        can_reset <==> bar_count(env@.data) >= 1,
        batch_can_reset <==> forall|i: int|
            0 <= i < batch@.lanes.len() ==> bar_count((#[trigger] batch@.lanes[i]).data) >= 1,
{
}

} // verus!
