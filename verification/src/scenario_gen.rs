//! Seeded procedural scenario generation: families of scenarios over an interval of
//! integer seeds.
//!
//! A scenario is a deterministic function of a family and one seed. Train and test
//! families are split by seed interval, so an agent never trains on a test seed.
//! The calm tier is the engine's synthetic panel. The harder tiers post-process that
//! same panel: each bar's return is amplified around its symbol's mean return, and
//! seeded jumps are added. Which bars jump, and which way, is decided here over
//! integers; the repricing itself is float arithmetic and is left to the caller, who
//! gets the multiplier and every bar's jump.
use crate::binary64::Binary64;
use crate::engine::{
    bar_count, close_lengths, panel_fits, read_close_lengths, synthetic_panel,
};
use crate::splitmix::{first_state, mix, next_state, state_after, unit_draw, SplitMix64};
use sharpebench_sim::Dataset;
use vstd::arithmetic::power2::pow2;
use vstd::prelude::*;

verus! {

/// How adversarial a generated scenario is.
#[derive(Clone, Copy, Debug, PartialEq, Eq, Structural)]
pub enum DistributionMode {
    /// The mild, momentum-autocorrelated synthetic panel as it is.
    Calm,
    /// The seeded panel with amplified volatility and occasional jumps.
    Hard,
    /// The seeded panel with high volatility and frequent, larger jumps.
    Extreme,
}

impl Default for DistributionMode {
    fn default() -> (mode: DistributionMode)
        ensures
            mode == DistributionMode::Calm,
    {
        DistributionMode::Calm
    }
}

/// A reproducible scenario family: the seed interval `[start_level, start_level +
/// num_levels)` (`num_levels == 0` stands for `[start_level, u64::MAX)`), the panel
/// dimensions, and the difficulty tier.
#[derive(Debug, PartialEq, Eq, Structural)]
pub struct ScenarioSpec {
    pub start_level: u64,
    /// Size of the legal seed interval; `0` means unbounded.
    pub num_levels: u64,
    pub n_symbols: usize,
    pub n_days: usize,
    pub distribution_mode: DistributionMode,
}

impl Clone for ScenarioSpec {
    fn clone(&self) -> (copy: ScenarioSpec)
        ensures
            copy == *self,
    {
        ScenarioSpec {
            start_level: self.start_level,
            num_levels: self.num_levels,
            n_symbols: self.n_symbols,
            n_days: self.n_days,
            distribution_mode: self.distribution_mode,
        }
    }
}

impl Default for ScenarioSpec {
    /// The calm family of 4 symbols and 120 days over the unbounded interval.
    fn default() -> (spec: ScenarioSpec)
        ensures
            spec == (ScenarioSpec {
                start_level: 0,
                num_levels: 0,
                n_symbols: 4,
                n_days: 120,
                distribution_mode: DistributionMode::Calm,
            }),
    {
        ScenarioSpec {
            start_level: 0,
            num_levels: 0,
            n_symbols: 4,
            n_days: 120,
            distribution_mode: DistributionMode::Calm,
        }
    }
}

impl ScenarioSpec {
    /// The number of seeds in the interval.
    pub open spec fn levels(self) -> int {
        if self.num_levels == 0 {
            u64::MAX - self.start_level
        } else {
            self.num_levels as int
        }
    }

    /// `seed` lies in the interval.
    pub open spec fn owns(self, seed: int) -> bool {
        self.start_level <= seed < self.start_level + self.levels()
    }

    /// The seed of the `index`-th level: the interval, walked round and round.
    pub open spec fn seed_at(self, index: u64) -> int {
        self.start_level + (index as int) % self.levels()
    }

    /// The `index`-th level exists: the interval is not empty, and the level's seed is
    /// a 64-bit number.
    pub open spec fn has_level(self, index: u64) -> bool {
        self.levels() > 0 && self.seed_at(index) <= u64::MAX
    }
}

/// Difficulty knobs of one tier: a salt, so that each tier draws its own jump stream,
/// the multiplier on each bar's deviation from the mean return, and the probability
/// and size of a jump.
#[derive(Clone, Copy, Debug, PartialEq, Eq, Structural)]
pub struct AmplifyParams {
    pub mode_salt: u64,
    pub vol_mult: Binary64,
    pub jump_prob: Binary64,
    pub jump_size: Binary64,
}

/// The hard tier's salt.
pub const HARD_SALT: u64 = 0x4861_7264_5f5f_5f5f;

/// The hard tier's volatility multiplier, 1.8.
pub const HARD_VOL_MULT: u64 = 0x3ffc_cccc_cccc_cccd;

/// The hard tier's jump probability, 0.02.
pub const HARD_JUMP_PROB: u64 = 0x3f94_7ae1_47ae_147b;

/// The hard tier's jump size, 0.06.
pub const HARD_JUMP_SIZE: u64 = 0x3fae_b851_eb85_1eb8;

/// The extreme tier's salt.
pub const EXTREME_SALT: u64 = 0x4578_7472_5f5f_5f5f;

/// The extreme tier's volatility multiplier, 3.0.
pub const EXTREME_VOL_MULT: u64 = 0x4008_0000_0000_0000;

/// The extreme tier's jump probability, 0.06.
pub const EXTREME_JUMP_PROB: u64 = 0x3fae_b851_eb85_1eb8;

/// The extreme tier's jump size, 0.13.
pub const EXTREME_JUMP_SIZE: u64 = 0x3fc0_a3d7_0a3d_70a4;

/// The chance that a jump goes up, 0.5.
pub const HALF_BITS: u64 = 0x3fe0_0000_0000_0000;

impl DistributionMode {
    /// The knobs of the tier; the calm tier has none.
    pub open spec fn params(self) -> Option<AmplifyParams> {
        match self {
            DistributionMode::Calm => None,
            DistributionMode::Hard => Some(
                AmplifyParams {
                    mode_salt: HARD_SALT,
                    vol_mult: Binary64 { bits: HARD_VOL_MULT },
                    jump_prob: Binary64 { bits: HARD_JUMP_PROB },
                    jump_size: Binary64 { bits: HARD_JUMP_SIZE },
                },
            ),
            DistributionMode::Extreme => Some(
                AmplifyParams {
                    mode_salt: EXTREME_SALT,
                    vol_mult: Binary64 { bits: EXTREME_VOL_MULT },
                    jump_prob: Binary64 { bits: EXTREME_JUMP_PROB },
                    jump_size: Binary64 { bits: EXTREME_JUMP_SIZE },
                },
            ),
        }
    }

    /// The name of the tier on the wire.
    pub open spec fn name(self) -> Seq<char> {
        match self {
            DistributionMode::Calm => "calm"@,
            DistributionMode::Hard => "hard"@,
            DistributionMode::Extreme => "extreme"@,
        }
    }

    /// The tier's name on the wire, in lower case.
    pub fn wire_name(self) -> (text: &'static str)
        ensures
            text@ == self.name(),
    {
        match self {
            DistributionMode::Calm => "calm",
            DistributionMode::Hard => "hard",
            DistributionMode::Extreme => "extreme",
        }
    }

    /// The tier that `text` names on the wire, if there is one.
    pub fn from_wire_name(text: &str) -> (mode: Option<DistributionMode>)
        ensures
            match mode {
                Some(mode) => text@ == mode.name(),
                None => forall|mode: DistributionMode| text@ != #[trigger] mode.name(),
            },
    {
        let text = String::from_str(text);
        if text == String::from_str("calm") {
            Some(DistributionMode::Calm)
        } else if text == String::from_str("hard") {
            Some(DistributionMode::Hard)
        } else if text == String::from_str("extreme") {
            Some(DistributionMode::Extreme)
        } else {
            None
        }
    }
}

/// What the harder tiers do to a panel: multiply each bar's deviation from its
/// symbol's mean return by `vol_mult` and add the bar's jump. `jumps` has a row for
/// each close series, in the order of the panel's symbols, and a jump for each of the
/// series' returns.
#[derive(Debug)]
pub struct Amplification {
    pub vol_mult: Binary64,
    pub jumps: Vec<Vec<Binary64>>,
}

/// A generated scenario: the engine's panel, and what is to be done to it.
pub struct Scenario {
    pub base: Dataset,
    pub amplification: Option<Amplification>,
}

/// The rows of a table of jumps.
pub open spec fn rows(table: Seq<Vec<Binary64>>) -> Seq<Seq<Binary64>> {
    table.map_values(|row: Vec<Binary64>| row@)
}

/// The jump of the bar that is drawn for at generator state `state`: with
/// probability `jump_prob` a jump of size `jump_size`, up or down with equal
/// chances, else none.
pub open spec fn jump_value(state: u64, p: AmplifyParams) -> Binary64 {
    let first = next_state(state);
    if p.jump_prob.exceeds_draw(unit_draw(first)) {
        if (Binary64 { bits: HALF_BITS }).exceeds_draw(unit_draw(next_state(first))) {
            p.jump_size
        } else {
            p.jump_size.negated()
        }
    } else {
        Binary64 { bits: 0 }
    }
}

/// The generator state after the draws for one bar: a second draw is taken only for a
/// bar that jumps.
pub open spec fn state_after_bar(state: u64, p: AmplifyParams) -> u64 {
    let first = next_state(state);
    if p.jump_prob.exceeds_draw(unit_draw(first)) {
        next_state(first)
    } else {
        first
    }
}

/// The generator state after the draws for `n` bars.
pub open spec fn state_after_bars(state: u64, n: nat, p: AmplifyParams) -> u64
    decreases n,
{
    if n == 0 {
        state
    } else {
        state_after_bar(state_after_bars(state, (n - 1) as nat, p), p)
    }
}

/// The number of returns of a close series: one less than its length, none for a
/// series too short to have one.
pub open spec fn return_count(length: usize) -> nat {
    if length < 2 {
        0
    } else {
        (length - 1) as nat
    }
}

/// The generator state before the draws for series `row`.
pub open spec fn state_before_row(
    seed: u64,
    lengths: Seq<usize>,
    row: nat,
    p: AmplifyParams,
) -> u64
    decreases row,
{
    if row == 0 {
        first_state(seed ^ p.mode_salt)
    } else {
        state_after_bars(
            state_before_row(seed, lengths, (row - 1) as nat, p),
            return_count(lengths[row - 1]),
            p,
        )
    }
}

/// The jumps of every bar of a panel with close series of the given lengths: one
/// stream of draws, walked series by series and bar by bar.
pub open spec fn jump_table(seed: u64, lengths: Seq<usize>, p: AmplifyParams) -> Seq<
    Seq<Binary64>,
> {
    Seq::new(
        lengths.len(),
        |row: int|
            Seq::new(
                return_count(lengths[row]),
                |bar: int|
                    jump_value(
                        state_after_bars(
                            state_before_row(seed, lengths, row as nat, p),
                            bar as nat,
                            p,
                        ),
                        p,
                    ),
            ),
    )
}

/// Draws the jump of one bar.
fn draw_jump(rng: &mut SplitMix64, p: &AmplifyParams) -> (jump: Binary64)
    ensures
        jump == jump_value(old(rng)@, *p),
        final(rng)@ == state_after_bar(old(rng)@, *p),
{
    let draw: u64 = rng.next_unit();
    if p.jump_prob.is_above_draw(draw) {
        let side: u64 = rng.next_unit();
        if (Binary64 { bits: HALF_BITS }).is_above_draw(side) {
            p.jump_size
        } else {
            p.jump_size.negate()
        }
    } else {
        Binary64 { bits: 0 }
    }
}

/// Draws the jumps of one close series.
fn draw_row(rng: &mut SplitMix64, length: usize, p: &AmplifyParams) -> (row: Vec<Binary64>)
    ensures
        row@ == Seq::new(
            return_count(length),
            |bar: int| jump_value(state_after_bars(old(rng)@, bar as nat, *p), *p),
        ),
        final(rng)@ == state_after_bars(old(rng)@, return_count(length), *p),
{
    let ghost start = rng@;
    let mut row: Vec<Binary64> = Vec::new();
    if length < 2 {
        return row;
    }
    let mut bar: usize = 1;
    while bar < length
        invariant
            1 <= bar <= length,
            2 <= length,
            row@ == Seq::new(
                (bar - 1) as nat,
                |bar: int| jump_value(state_after_bars(start, bar as nat, *p), *p),
            ),
            rng@ == state_after_bars(start, (bar - 1) as nat, *p),
        decreases length - bar,
    {
        let jump: Binary64 = draw_jump(rng, p);
        row.push(jump);
        bar = bar + 1;
    }
    row
}

/// The jumps of every bar of a panel whose close series have the given lengths.
pub fn plan_jumps(lengths: &Vec<usize>, seed: u64, p: &AmplifyParams) -> (jumps: Vec<Vec<Binary64>>)
    ensures
        rows(jumps@) == jump_table(seed, lengths@, *p),
{
    let mut rng = SplitMix64::new(seed ^ p.mode_salt);
    let mut jumps: Vec<Vec<Binary64>> = Vec::new();
    let mut row: usize = 0;
    while row < lengths.len()
        invariant
            row <= lengths@.len(),
            jumps@.len() == row,
            rng@ == state_before_row(seed, lengths@, row as nat, *p),
            forall|i: int|
                0 <= i < row ==> #[trigger] jumps@[i]@ == jump_table(seed, lengths@, *p)[i],
        decreases lengths.len() - row,
    {
        let drawn: Vec<Binary64> = draw_row(&mut rng, lengths[row], p);
        assert(drawn@ == jump_table(seed, lengths@, *p)[row as int]);
        jumps.push(drawn);
        row = row + 1;
    }
    assert(rows(jumps@) =~= jump_table(seed, lengths@, *p));
    jumps
}

/// The scenario that amplifies `base`: the panel, the tier's multiplier, and the
/// jumps drawn for it.
pub fn amplify(base: Dataset, seed: u64, p: AmplifyParams) -> (scenario: Scenario)
    ensures
        scenario.base == base,
        scenario.amplification matches Some(a) && a.vol_mult == p.vol_mult && rows(a.jumps@)
            == jump_table(seed, close_lengths(base), p),
{
    let lengths: Vec<usize> = read_close_lengths(&base);
    let jumps = plan_jumps(&lengths, seed, &p);
    Scenario { base, amplification: Some(Amplification { vol_mult: p.vol_mult, jumps }) }
}

/// `scenario` is that of `spec` under `seed`: the seeded synthetic panel, of `n_days` bars
/// and `n_symbols` close series of as many entries, and for the harder tiers the tier's multiplier and the jumps drawn over the panel's series.
pub open spec fn generates(spec: ScenarioSpec, seed: u64, scenario: Scenario) -> bool {
    &&& scenario.base == synthetic_panel(spec.n_symbols, spec.n_days, seed)
    &&& bar_count(scenario.base) == spec.n_days
    &&& close_lengths(scenario.base) == Seq::new(spec.n_symbols as nat, |i: int| spec.n_days)
    &&& match spec.distribution_mode.params() {
        None => scenario.amplification is None,
        Some(p) => scenario.amplification matches Some(a) && a.vol_mult == p.vol_mult && rows(
            a.jumps@,
        ) == jump_table(seed, close_lengths(scenario.base), p),
    }
}

/// Generates the scenario of `spec` under `seed`. Every tier honors the dimensions,
/// and the harder tiers amplify the same seeded panel that the calm tier returns.
pub fn generate_scenario(spec: &ScenarioSpec, seed: u64) -> (scenario: Scenario)
    requires
        panel_fits(spec.n_days),
    ensures
        generates(*spec, seed, scenario),
{
    let base = Dataset::synthetic(spec.n_symbols, spec.n_days, seed);
    match spec.distribution_mode {
        DistributionMode::Calm => Scenario { base, amplification: None },
        DistributionMode::Hard => amplify(
            base,
            seed,
            AmplifyParams {
                mode_salt: HARD_SALT,
                vol_mult: Binary64 { bits: HARD_VOL_MULT },
                jump_prob: Binary64 { bits: HARD_JUMP_PROB },
                jump_size: Binary64 { bits: HARD_JUMP_SIZE },
            },
        ),
        DistributionMode::Extreme => amplify(
            base,
            seed,
            AmplifyParams {
                mode_salt: EXTREME_SALT,
                vol_mult: Binary64 { bits: EXTREME_VOL_MULT },
                jump_prob: Binary64 { bits: EXTREME_JUMP_PROB },
                jump_size: Binary64 { bits: EXTREME_JUMP_SIZE },
            },
        ),
    }
}

/// The concrete seed for the `index`-th level of the interval of `spec`.
pub fn level_seed(spec: &ScenarioSpec, index: u64) -> (seed: u64)
    requires
        spec.has_level(index),
    ensures
        seed == spec.seed_at(index),
        spec.owns(seed as int),
{
    let span: u64 = if spec.num_levels == 0 {
        u64::MAX - spec.start_level
    } else {
        spec.num_levels
    };
    assert(0 <= (index as int) % (span as int) < span) by {
        vstd::arithmetic::div_mod::lemma_mod_bound(index as int, span as int);
    }
    spec.start_level + (index % span)
}

/// Carves a disjoint test family from a bounded `train` family: the test interval
/// starts `gap` seeds past the end of the train interval. Dimensions and difficulty
/// are inherited.
pub fn train_test_split(train: ScenarioSpec, n_test: u64, gap: u64) -> (families: (
    ScenarioSpec,
    ScenarioSpec,
))
    requires
        train.num_levels > 0,
        train.start_level + train.num_levels + gap <= u64::MAX,
    ensures
        families.0 == train,
        families.1 == split_test_family(train, n_test, gap),
        families.1.start_level == train.start_level + train.num_levels + gap,
        families.1.num_levels == n_test,
        families.1.n_symbols == train.n_symbols,
        families.1.n_days == train.n_days,
        families.1.distribution_mode == train.distribution_mode,
{
    let test_start: u64 = train.start_level + train.num_levels + gap;
    let test = ScenarioSpec { start_level: test_start, num_levels: n_test, ..train.clone() };
    (train, test)
}

/// The test family that a split of `train` carves out.
pub open spec fn split_test_family(train: ScenarioSpec, n_test: u64, gap: u64) -> ScenarioSpec {
    ScenarioSpec {
        start_level: (train.start_level + train.num_levels + gap) as u64,
        num_levels: n_test,
        ..train
    }
}

/// Dimensions, tier and seed give one scenario: the same panel, multiplier and jumps. The
/// family's seed interval has no influence, nor has anything else.
pub proof fn law_generation_is_deterministic(
    x: ScenarioSpec,
    y: ScenarioSpec,
    seed: u64,
    a: Scenario,
    b: Scenario,
)
    requires
        x.n_symbols == y.n_symbols,
        x.n_days == y.n_days,
        x.distribution_mode == y.distribution_mode,
        generates(x, seed, a),
        generates(y, seed, b),
    ensures
        a.base == b.base,
        a.amplification is None <==> b.amplification is None,
        a.amplification matches Some(p) ==> {
            &&& b.amplification matches Some(q)
            &&& p.vol_mult == q.vol_mult
            &&& rows(p.jumps@) == rows(q.jumps@)
        },
{
}

/// Every tier works on the same seeded panel, of the family's dimensions: so many bars,
/// and a close series of that length for each symbol.
pub proof fn law_tiers_share_the_panel(
    x: ScenarioSpec,
    y: ScenarioSpec,
    seed: u64,
    a: Scenario,
    b: Scenario,
)
    requires
        x.n_symbols == y.n_symbols,
        x.n_days == y.n_days,
        generates(x, seed, a),
        generates(y, seed, b),
    ensures
        a.base == b.base,
        bar_count(a.base) == x.n_days,
        close_lengths(a.base).len() == x.n_symbols,
        forall|i: int| 0 <= i < x.n_symbols ==> #[trigger] close_lengths(a.base)[i] == x.n_days,
{
}

/// Every harder tier plans a row of jumps for
/// each symbol and a jump for each return.
pub proof fn law_plan_honors_the_dimensions(
    spec: ScenarioSpec,
    seed: u64,
    scenario: Scenario,
    row: int,
)
    requires
        generates(spec, seed, scenario),
        spec.distribution_mode != DistributionMode::Calm,
        0 <= row < spec.n_symbols,
    ensures
        scenario.amplification matches Some(a) && a.jumps@.len() == spec.n_symbols
            && a.jumps@[row]@.len() == return_count(spec.n_days),
{
    let a = scenario.amplification->0;
    assert(rows(a.jumps@).len() == spec.n_symbols);
    assert(rows(a.jumps@)[row] == a.jumps@[row]@);
}

/// Every level's seed lies in the family's interval.
pub proof fn law_level_seed_in_interval(spec: ScenarioSpec, index: u64)
    requires
        spec.has_level(index),
    ensures
        spec.owns(spec.seed_at(index)),
{
    vstd::arithmetic::div_mod::lemma_mod_bound(index as int, spec.levels());
}

/// The levels repeat with the size of the interval.
pub proof fn law_level_seed_wraps(spec: ScenarioSpec, index: u64, rounds: nat)
    requires
        spec.has_level(index),
        index + rounds * spec.levels() <= u64::MAX,
    ensures
        spec.seed_at((index + rounds * spec.levels()) as u64) == spec.seed_at(index),
{
    vstd::arithmetic::div_mod::lemma_mod_multiples_vanish(
        rounds as int,
        index as int,
        spec.levels(),
    );
    vstd::arithmetic::mul::lemma_mul_is_commutative(rounds as int, spec.levels());
    vstd::arithmetic::mul::lemma_mul_nonnegative(rounds as int, spec.levels());
}

/// Within one round the `index`-th level is `index` seeds past the start, so no two
/// levels of a round share a seed.
pub proof fn law_level_seed_is_offset(spec: ScenarioSpec, index: u64)
    requires
        index < spec.levels(),
    ensures
        spec.seed_at(index) == spec.start_level + index,
{
    vstd::arithmetic::div_mod::lemma_small_mod(index as nat, spec.levels() as nat);
}

/// Every seed of the interval is the seed of some level of the first round.
pub proof fn law_every_owned_seed_is_a_level(spec: ScenarioSpec, seed: u64)
    requires
        spec.owns(seed as int),
    ensures
        spec.has_level((seed - spec.start_level) as u64),
        spec.seed_at((seed - spec.start_level) as u64) == seed,
{
    law_level_seed_is_offset(spec, (seed - spec.start_level) as u64);
}

/// No seed belongs to both families of a split, and every test seed is more than
/// `gap` past every train seed.
pub proof fn law_split_families_are_disjoint(
    train: ScenarioSpec,
    n_test: u64,
    gap: u64,
    train_seed: int,
    test_seed: int,
)
    requires
        train.num_levels > 0,
        train.start_level + train.num_levels + gap <= u64::MAX,
        train.owns(train_seed),
        split_test_family(train, n_test, gap).owns(test_seed),
    ensures
        train_seed + gap < test_seed,
        !train.owns(test_seed),
        !split_test_family(train, n_test, gap).owns(train_seed),
{
}

/// No level of the train family shares its seed with any level of the test family.
pub proof fn law_split_levels_never_collide(
    train: ScenarioSpec,
    n_test: u64,
    gap: u64,
    train_index: u64,
    test_index: u64,
)
    requires
        train.num_levels > 0,
        train.start_level + train.num_levels + gap <= u64::MAX,
        train.has_level(train_index),
        split_test_family(train, n_test, gap).has_level(test_index),
    ensures
        train.seed_at(train_index) != split_test_family(train, n_test, gap).seed_at(test_index),
{
    law_level_seed_in_interval(train, train_index);
    law_level_seed_in_interval(split_test_family(train, n_test, gap), test_index);
}

/// The hard and extreme tiers of one seed draw from streams that never meet: after any
/// number of draws the generators' states and 64-bit outputs differ.
pub proof fn law_tiers_draw_distinct_streams(seed: u64, n: nat)
    ensures
        state_after(first_state(seed ^ HARD_SALT), n) != state_after(
            first_state(seed ^ EXTREME_SALT),
            n,
        ),
        mix(state_after(first_state(seed ^ HARD_SALT), n)) != mix(
            state_after(first_state(seed ^ EXTREME_SALT), n),
        ),
{
    assert((seed ^ 0x4861_7264_5f5f_5f5f) ^ 0x1234_5678_9abc_def0 != (seed ^ 0x4578_7472_5f5f_5f5f)
        ^ 0x1234_5678_9abc_def0) by (bit_vector);
    crate::splitmix::lemma_streams_stay_apart(
        first_state(seed ^ HARD_SALT),
        first_state(seed ^ EXTREME_SALT),
        n,
    );
}

/// A planned jump is nothing, or the tier's jump size, up or down.
pub proof fn law_jumps_are_bounded(
    seed: u64,
    lengths: Seq<usize>,
    p: AmplifyParams,
    row: int,
    bar: int,
)
    requires
        0 <= row < lengths.len(),
        0 <= bar < return_count(lengths[row]),
    ensures
        ({
            let jump = jump_table(seed, lengths, p)[row][bar];
            jump.bits == 0 || jump == p.jump_size || jump == p.jump_size.negated()
        }),
{
}

/// The wire names tell the tiers apart.
pub proof fn law_wire_names_are_distinct(a: DistributionMode, b: DistributionMode)
    ensures
        a.name() == b.name() <==> a == b,
{
    reveal_strlit("calm");
    reveal_strlit("hard");
    reveal_strlit("extreme");
    assert("calm"@[0] == 'c');
    assert("hard"@[0] == 'h');
    assert("extreme"@[0] == 'e');
}

/// The two families of a split field by field: the test family starts `gap` seeds past the
/// last seed of the train family, has `n_test` levels, and inherits the dimensions and the
/// tier, whichever it is.
pub proof fn law_split_inherits_the_family(train: ScenarioSpec, n_test: u64, gap: u64)
    requires
        train.num_levels > 0,
        train.start_level + train.num_levels + gap <= u64::MAX,
    ensures
        ({
            let test = split_test_family(train, n_test, gap);
            &&& test.start_level - gap == train.start_level + train.num_levels
            &&& test.num_levels == n_test
            &&& test.n_symbols == train.n_symbols
            &&& test.n_days == train.n_days
            &&& test.distribution_mode == train.distribution_mode
        }),
{
}

/// A split changes no scenario: under one seed the test family generates what the train
/// family generates, panel, multiplier and jumps.
pub proof fn law_split_keeps_the_scenarios(
    train: ScenarioSpec,
    n_test: u64,
    gap: u64,
    seed: u64,
    a: Scenario,
    b: Scenario,
)
    requires
        generates(train, seed, a),
        generates(split_test_family(train, n_test, gap), seed, b),
    ensures
        a.base == b.base,
        a.amplification is None <==> b.amplification is None,
        a.amplification matches Some(p) ==> {
            &&& b.amplification matches Some(q)
            &&& p.vol_mult == q.vol_mult
            &&& rows(p.jumps@) == rows(q.jumps@)
        },
{
    law_generation_is_deterministic(train, split_test_family(train, n_test, gap), seed, a, b);
}

/// Levels over the family's own fields: a bounded family counts up from its start and
/// begins anew after `num_levels`; an unbounded one counts up to the last seed below
/// `u64::MAX` and begins anew there.
pub proof fn law_levels_count_up_and_begin_anew(spec: ScenarioSpec, index: u64)
    ensures
        spec.num_levels > 0 && index < spec.num_levels ==> spec.seed_at(index)
            == spec.start_level + index,
        spec.num_levels > 0 && index >= spec.num_levels ==> spec.seed_at(index) == spec.seed_at(
            (index - spec.num_levels) as u64,
        ),
        spec.num_levels == 0 && spec.start_level + index < u64::MAX ==> spec.seed_at(index)
            == spec.start_level + index,
        spec.num_levels == 0 && spec.start_level < u64::MAX && spec.start_level + index
            >= u64::MAX ==> spec.seed_at(index) == spec.seed_at(
            (index - (u64::MAX - spec.start_level)) as u64,
        ),
{
    let span: int = if spec.num_levels == 0 {
        u64::MAX - spec.start_level
    } else {
        spec.num_levels as int
    };
    if 0 < span {
        if index < span {
            vstd::arithmetic::div_mod::lemma_small_mod(index as nat, span as nat);
        } else {
            vstd::arithmetic::div_mod::lemma_mod_multiples_vanish(1, index - span, span);
        }
    }
}

/// The seeds of a family over its own fields, and which levels there are.
pub proof fn law_family_bounds(spec: ScenarioSpec, index: u64, seed: int)
    ensures
        spec.num_levels > 0 ==> (spec.owns(seed) <==> spec.start_level <= seed
            < spec.start_level + spec.num_levels),
        spec.num_levels == 0 ==> (spec.owns(seed) <==> spec.start_level <= seed < u64::MAX),
        spec.num_levels > 0 && spec.start_level + spec.num_levels <= u64::MAX ==> spec.has_level(
            index,
        ),
        spec.num_levels == 0 ==> (spec.has_level(index) <==> spec.start_level < u64::MAX),
        spec.num_levels > 0 ==> (spec.has_level(index) <==> spec.seed_at(index) <= u64::MAX),
{
    if spec.levels() > 0 {
        vstd::arithmetic::div_mod::lemma_mod_bound(index as int, spec.levels());
    }
}

/// The entries of `entries` that are a jump.
pub open spec fn jump_count(entries: Seq<Binary64>) -> nat {
    entries.filter(|jump: Binary64| jump.bits != 0).len()
}

/// The `n`-th unit draw, from 1 on, of the stream that starts at `start`.
pub open spec fn stream_draw(start: u64, n: nat) -> int {
    mix(((start + n * 0x9e37_79b9_7f4a_7c15) % 0x1_0000_0000_0000_0000) as u64) as int / 2048
}

proof fn lemma_jump_count_push(entries: Seq<Binary64>, jump: Binary64)
    ensures
        jump_count(entries.push(jump)) == jump_count(entries) + if jump.bits != 0 {
            1nat
        } else {
            0nat
        },
{
    reveal(Seq::filter);
    assert(entries.push(jump).drop_last() =~= entries);
}

proof fn lemma_state_after_adds(state: u64, a: nat, b: nat)
    ensures
        state_after(state_after(state, a), b) == state_after(state, a + b),
    decreases b,
{
    if b > 0 {
        lemma_state_after_adds(state, a, (b - 1) as nat);
    }
}

/// Every bar takes one draw, and a jump takes one more.
proof fn lemma_bars_count_draws(state: u64, n: nat, p: AmplifyParams)
    requires
        p.jump_size.bits != 0,
        p.jump_size.bits != 0x8000_0000_0000_0000,
    ensures
        state_after_bars(state, n, p) == state_after(
            state,
            n + jump_count(
                Seq::new(n, |bar: int| jump_value(state_after_bars(state, bar as nat, p), p)),
            ),
        ),
    decreases n,
{
    let row = Seq::new(n, |bar: int| jump_value(state_after_bars(state, bar as nat, p), p));
    if n == 0 {
        reveal(Seq::filter);
    } else {
        let m = (n - 1) as nat;
        let shorter = Seq::new(m, |bar: int| jump_value(state_after_bars(state, bar as nat, p), p));
        let last = jump_value(state_after_bars(state, m, p), p);
        lemma_bars_count_draws(state, m, p);
        assert(row =~= shorter.push(last));
        lemma_jump_count_push(shorter, last);
        let k = m + jump_count(shorter);
        assert(state_after(state, k + 1) == next_state(state_after(state, k)));
        assert(state_after(state, k + 2) == next_state(state_after(state, k + 1)));
    }
}

/// The state before a row: one draw for every earlier entry, and one more for every jump.
#[verifier::spinoff_prover]
proof fn lemma_rows_count_draws(seed: u64, lengths: Seq<usize>, row: nat, p: AmplifyParams)
    requires
        p.jump_size.bits != 0,
        p.jump_size.bits != 0x8000_0000_0000_0000,
        row <= lengths.len(),
    ensures
        ({
            let earlier = jump_table(seed, lengths, p).take(row as int).flatten();
            state_before_row(seed, lengths, row, p) == state_after(
                first_state(seed ^ p.mode_salt),
                earlier.len() + jump_count(earlier),
            )
        }),
    decreases row,
{
    let table = jump_table(seed, lengths, p);
    let start = first_state(seed ^ p.mode_salt);
    if row == 0 {
        reveal(Seq::filter);
        assert(table.take(0).flatten() =~= Seq::empty());
    } else {
        let m = (row - 1) as nat;
        let before = state_before_row(seed, lengths, m, p);
        let n = return_count(lengths[m as int]);
        let head = table.take(m as int).flatten();
        let last = table[m as int];
        lemma_rows_count_draws(seed, lengths, m, p);
        lemma_bars_count_draws(before, n, p);
        assert(last =~= Seq::new(
            n,
            |bar: int| jump_value(state_after_bars(before, bar as nat, p), p),
        ));
        assert(table.take(row as int) =~= table.take(m as int).push(last));
        table.take(m as int).lemma_flatten_push(last);
        Seq::filter_distributes_over_add(head, last, |jump: Binary64| jump.bits != 0);
        assert(jump_count(head + last) == jump_count(head) + jump_count(last));
        lemma_state_after_adds(
            start,
            head.len() + jump_count(head),
            last.len() + jump_count(last),
        );
    }
}

/// An entry of the table is decided at the state that follows the draws of all earlier
/// entries.
#[verifier::spinoff_prover]
proof fn lemma_jump_position(
    seed: u64,
    lengths: Seq<usize>,
    p: AmplifyParams,
    row: int,
    bar: int,
)
    requires
        p.jump_size.bits != 0,
        p.jump_size.bits != 0x8000_0000_0000_0000,
        0 <= row < lengths.len(),
        0 <= bar,
        bar + 1 < lengths[row],
    ensures
        ({
            let table = jump_table(seed, lengths, p);
            let earlier = table.take(row).flatten() + table[row].take(bar);
            table[row][bar] == jump_value(
                state_after(
                    first_state(seed ^ p.mode_salt),
                    earlier.len() + jump_count(earlier),
                ),
                p,
            )
        }),
{
    let table = jump_table(seed, lengths, p);
    let start = first_state(seed ^ p.mode_salt);
    let before = state_before_row(seed, lengths, row as nat, p);
    let head = table.take(row).flatten();
    let part = table[row].take(bar);
    lemma_rows_count_draws(seed, lengths, row as nat, p);
    lemma_bars_count_draws(before, bar as nat, p);
    assert(part =~= Seq::new(
        bar as nat,
        |bar: int| jump_value(state_after_bars(before, bar as nat, p), p),
    ));
    Seq::filter_distributes_over_add(head, part, |jump: Binary64| jump.bits != 0);
    assert(jump_count(head + part) == jump_count(head) + jump_count(part));
    lemma_state_after_adds(start, head.len() + jump_count(head), part.len() + jump_count(part));
}

/// The two draws that decide a bar, by their place in the stream.
proof fn lemma_draws_of_bar(start: u64, n: nat)
    ensures
        unit_draw(next_state(state_after(start, n))) == stream_draw(start, n + 1),
        unit_draw(next_state(next_state(state_after(start, n)))) == stream_draw(start, n + 2),
{
    crate::splitmix::law_states_are_a_stride_apart(start, n + 1);
    crate::splitmix::law_states_are_a_stride_apart(start, n + 2);
    assert(state_after(start, n + 1) == next_state(state_after(start, n)));
    assert(state_after(start, n + 2) == next_state(state_after(start, n + 1)));
    crate::splitmix::law_draws_and_seeds_are_whole(state_after(start, n + 1), 0);
    crate::splitmix::law_draws_and_seeds_are_whole(state_after(start, n + 2), 0);
}

/// A draw lies below one half exactly where its top bit is clear.
proof fn lemma_below_half(draw: u64)
    ensures
        (Binary64 { bits: HALF_BITS }).exceeds_draw(draw) <==> draw < 0x10_0000_0000_0000,
{
    let half = Binary64 { bits: HALF_BITS };
    assert(half.exponent() == 1022 && half.fraction() == 0);
    vstd::arithmetic::power2::lemma_pow2_pos(1021);
    let a = pow2(1021);
    assert(draw * a < 0x10_0000_0000_0000 * a <==> draw < 0x10_0000_0000_0000) by (nonlinear_arith)
        requires
            a > 0,
    ;
}

/// What is drawn for a bar after `n` draws of a stream.
#[verifier::spinoff_prover]
proof fn lemma_bar_in_stream(start: u64, n: nat, p: AmplifyParams)
    requires
        p.jump_size.bits != 0,
        p.jump_size.bits != 0x8000_0000_0000_0000,
        p.jump_prob.bits < 0x7ff0_0000_0000_0000,
    ensures
        ({
            let jump = jump_value(state_after(start, n), p);
            &&& jump.bits != 0 <==> stream_draw(start, n + 1) * pow2(1074) < p.jump_prob.steps()
                * pow2(53)
            &&& jump.bits != 0 ==> jump.bits == if stream_draw(start, n + 2)
                < 0x10_0000_0000_0000 {
                p.jump_size.bits as int
            } else {
                (p.jump_size.bits + 0x8000_0000_0000_0000) % 0x1_0000_0000_0000_0000
            }
        }),
{
    let state = state_after(start, n);
    let first = unit_draw(next_state(state));
    let second = unit_draw(next_state(next_state(state)));
    lemma_draws_of_bar(start, n);
    assert(first as int == stream_draw(start, n + 1));
    assert(p.jump_prob.exceeds_draw(first) <==> first * pow2(1074) < p.jump_prob.steps()
        * pow2(53)) by {
        crate::binary64::law_draws_compare_as_fractions(p.jump_prob, first);
    }
    assert((Binary64 { bits: HALF_BITS }).exceeds_draw(second) <==> second
        < 0x10_0000_0000_0000) by {
        lemma_below_half(second);
    }
    assert(p.jump_size.negated().bits == (p.jump_size.bits + 0x8000_0000_0000_0000)
        % 0x1_0000_0000_0000_0000) by {
        crate::binary64::law_patterns(p.jump_size);
    }
}

/// All jumps of a panel come from one stream, which starts at the whole seed under the
/// salt and the generator's mask. Read row after row, every bar takes the stream's next
/// draw, and it jumps exactly where the draw, as a fraction of `2^53`, is below the jump
/// probability. A bar that jumps takes one more draw: up where that one is in the lower
/// half, else down. So what a bar does rests on the seed, the salt, and how many bars and
/// jumps came before it.
#[verifier::spinoff_prover]
pub proof fn law_jumps_follow_one_stream(
    seed: u64,
    lengths: Seq<usize>,
    p: AmplifyParams,
    row: int,
    bar: int,
)
    requires
        p.jump_size.bits != 0,
        p.jump_size.bits != 0x8000_0000_0000_0000,
        p.jump_prob.bits < 0x7ff0_0000_0000_0000,
        0 <= row < lengths.len(),
        0 <= bar,
        bar + 1 < lengths[row],
    ensures
        ({
            let table = jump_table(seed, lengths, p);
            let start = (seed ^ p.mode_salt) ^ 0x1234_5678_9abc_def0;
            let earlier = table.take(row).flatten() + table[row].take(bar);
            let n = earlier.len() + jump_count(earlier);
            let jump = table[row][bar];
            &&& jump.bits != 0 <==> stream_draw(start, n + 1) * pow2(1074) < p.jump_prob.steps()
                * pow2(53)
            &&& jump.bits != 0 ==> jump.bits == if stream_draw(start, n + 2)
                < 0x10_0000_0000_0000 {
                p.jump_size.bits as int
            } else {
                (p.jump_size.bits + 0x8000_0000_0000_0000) % 0x1_0000_0000_0000_0000
            }
        }),
{
    let table = jump_table(seed, lengths, p);
    let start = first_state(seed ^ p.mode_salt);
    let earlier = table.take(row).flatten() + table[row].take(bar);
    lemma_jump_position(seed, lengths, p, row, bar);
    lemma_bar_in_stream(start, earlier.len() + jump_count(earlier), p);
}

/// The shape of a table of jumps: a row for every close series, and in it an entry for
/// every close but the first.
pub proof fn law_table_has_an_entry_per_return(
    seed: u64,
    lengths: Seq<usize>,
    p: AmplifyParams,
    table: Seq<Vec<Binary64>>,
    row: int,
)
    requires
        rows(table) == jump_table(seed, lengths, p),
        0 <= row < lengths.len(),
    ensures
        table.len() == lengths.len(),
        lengths[row] == 0 ==> table[row]@.len() == 0,
        lengths[row] >= 1 ==> table[row]@.len() + 1 == lengths[row],
        table[row]@ == jump_table(seed, lengths, p)[row],
{
    assert(rows(table).len() == lengths.len());
    assert(rows(table)[row] == table[row]@);
}

/// Different seeds start different streams: under one set of knobs, the states before the
/// first bar of the panel differ, and so do the 64-bit outputs that decide that bar.
pub proof fn law_seeds_start_apart(
    a: u64,
    b: u64,
    lengths: Seq<usize>,
    p: AmplifyParams,
)
    requires
        a != b,
    ensures
        state_before_row(a, lengths, 0, p) != state_before_row(b, lengths, 0, p),
        mix(next_state(state_before_row(a, lengths, 0, p))) != mix(
            next_state(state_before_row(b, lengths, 0, p)),
        ),
        ((state_before_row(a, lengths, 0, p) ^ 0x1234_5678_9abc_def0) ^ p.mode_salt) == a,
{
    let salt = p.mode_salt;
    assert(a != b ==> (a ^ salt) ^ 0x1234_5678_9abc_def0 != (b ^ salt) ^ 0x1234_5678_9abc_def0)
        by (bit_vector);
    assert((((a ^ salt) ^ 0x1234_5678_9abc_def0) ^ 0x1234_5678_9abc_def0) ^ salt == a)
        by (bit_vector);
    let x = first_state(a ^ salt);
    let y = first_state(b ^ salt);
    crate::splitmix::lemma_streams_stay_apart(x, y, 1);
    assert(state_after(x, 1) == next_state(state_after(x, 0)));
    assert(state_after(y, 1) == next_state(state_after(y, 0)));
}

/// The first bar of a panel is decided by the draws of the state that the whole seed
/// gives.
pub proof fn law_first_bar_is_decided_by_the_seed(
    seed: u64,
    lengths: Seq<usize>,
    p: AmplifyParams,
)
    requires
        lengths.len() > 0,
        lengths[0] >= 2,
    ensures
        ({
            let start = (seed ^ p.mode_salt) ^ 0x1234_5678_9abc_def0;
            let jump = jump_table(seed, lengths, p)[0][0];
            let first = stream_draw(start, 1);
            let second = stream_draw(start, 2);
            jump == if !p.jump_prob.exceeds_draw(first as u64) {
                Binary64 { bits: 0 }
            } else if second < 0x10_0000_0000_0000 {
                p.jump_size
            } else {
                p.jump_size.negated()
            }
        }),
{
    let start = first_state(seed ^ p.mode_salt);
    lemma_draws_of_bar(start, 0);
    assert(state_after(start, 0) == start);
    lemma_below_half(unit_draw(next_state(next_state(start))));
}

/// The hard and the extreme table of one seed are drawn from streams that never meet: the
/// states before their first bars differ, and after any number of further draws they and
/// their 64-bit outputs still do.
pub proof fn law_tier_tables_draw_apart(
    seed: u64,
    lengths: Seq<usize>,
    hard: AmplifyParams,
    extreme: AmplifyParams,
    n: nat,
)
    requires
        DistributionMode::Hard.params() == Some(hard),
        DistributionMode::Extreme.params() == Some(extreme),
    ensures
        state_after(state_before_row(seed, lengths, 0, hard), n) != state_after(
            state_before_row(seed, lengths, 0, extreme),
            n,
        ),
        mix(state_after(state_before_row(seed, lengths, 0, hard), n)) != mix(
            state_after(state_before_row(seed, lengths, 0, extreme), n),
        ),
{
    law_tiers_draw_distinct_streams(seed, n);
}

/// What a tier does with a seed, in numbers. Every tier has the engine's panel of the
/// family's dimensions. The calm tier leaves it alone. The hard tier multiplies by 1.8,
/// jumps where a 53-bit draw is below 0.02, and jumps by 0.06; the extreme tier
/// multiplies by 3, jumps below 0.06, and jumps by 0.13. Each has its own salt.
#[verifier::spinoff_prover]
pub proof fn law_tiers_in_numbers(
    spec: ScenarioSpec,
    seed: u64,
    scenario: Scenario,
    row: int,
    bar: int,
)
    requires
        generates(spec, seed, scenario),
    ensures
        scenario.base == synthetic_panel(spec.n_symbols, spec.n_days, seed),
        spec.distribution_mode == DistributionMode::Calm ==> scenario.amplification is None,
        spec.distribution_mode != DistributionMode::Calm ==> scenario.amplification is Some,
        spec.distribution_mode == DistributionMode::Hard ==> scenario.amplification->0.vol_mult.bits
            == 0x3ffc_cccc_cccc_cccd,
        spec.distribution_mode == DistributionMode::Extreme
            ==> scenario.amplification->0.vol_mult.bits == 0x4008_0000_0000_0000,
        spec.distribution_mode != DistributionMode::Calm
            ==> scenario.amplification->0.jumps@.len() == spec.n_symbols,
        spec.distribution_mode != DistributionMode::Calm && 0 <= row < spec.n_symbols ==> {
            let entries = scenario.amplification->0.jumps@[row]@.len();
            entries == if spec.n_days == 0 {
                0int
            } else {
                spec.n_days - 1
            }
        },
        spec.distribution_mode != DistributionMode::Calm && 0 <= row < spec.n_symbols && 0 <= bar
            && bar + 1 < spec.n_days ==> {
            let hard = spec.distribution_mode == DistributionMode::Hard;
            let table = rows(scenario.amplification->0.jumps@);
            let jump = scenario.amplification->0.jumps@[row]@[bar];
            let earlier = table.take(row).flatten() + table[row].take(bar);
            let n = earlier.len() + jump_count(earlier);
            let salt: u64 = if hard {
                0x4861_7264_5f5f_5f5f
            } else {
                0x4578_7472_5f5f_5f5f
            };
            let start = (seed ^ salt) ^ 0x1234_5678_9abc_def0;
            let up = stream_draw(start, n + 2) < 0x10_0000_0000_0000;
            &&& jump.bits != 0 <==> if hard {
                stream_draw(start, n + 1) * 32 < 0x14_7ae1_47ae_147b
            } else {
                stream_draw(start, n + 1) * 16 < 0x1e_b851_eb85_1eb8
            }
            &&& hard && jump.bits != 0 ==> jump.bits == if up {
                0x3fae_b851_eb85_1eb8u64
            } else {
                0xbfae_b851_eb85_1eb8u64
            }
            &&& !hard && jump.bits != 0 ==> jump.bits == if up {
                0x3fc0_a3d7_0a3d_70a4u64
            } else {
                0xbfc0_a3d7_0a3d_70a4u64
            }
        },
{
    if spec.distribution_mode != DistributionMode::Calm && 0 <= row < spec.n_symbols {
        let hard = spec.distribution_mode == DistributionMode::Hard;
        let p = spec.distribution_mode.params()->0;
        let lengths = close_lengths(scenario.base);
        let jumps = scenario.amplification->0.jumps@;
        law_table_has_an_entry_per_return(seed, lengths, p, jumps, row);
        if 0 <= bar && bar + 1 < spec.n_days {
            let table = rows(jumps);
            let start = first_state(seed ^ p.mode_salt);
            let earlier = table.take(row).flatten() + table[row].take(bar);
            let n = earlier.len() + jump_count(earlier);
            lemma_jump_position(seed, lengths, p, row, bar);
            lemma_draws_of_bar(start, n);
            let first = unit_draw(next_state(state_after(start, n)));
            lemma_below_half(unit_draw(next_state(next_state(state_after(start, n)))));
            vstd::arithmetic::power2::lemma2_to64();
            if hard {
                assert(p.jump_prob.exponent() == 1017 && p.jump_prob.significand()
                    == 0x14_7ae1_47ae_147b);
                crate::binary64::lemma_draw_below_small(first as nat, 0x14_7ae1_47ae_147b, 1016);
            } else {
                assert(p.jump_prob.exponent() == 1018 && p.jump_prob.significand()
                    == 0x1e_b851_eb85_1eb8);
                crate::binary64::lemma_draw_below_small(first as nat, 0x1e_b851_eb85_1eb8, 1017);
            }
        }
    } else if spec.distribution_mode != DistributionMode::Calm {
        assert(rows(scenario.amplification->0.jumps@).len() == spec.n_symbols);
    }
}

/// The tiers' names on the wire.
pub proof fn law_wire_names(mode: DistributionMode)
    ensures
        mode.name() == match mode {
            DistributionMode::Calm => seq!['c', 'a', 'l', 'm'],
            DistributionMode::Hard => seq!['h', 'a', 'r', 'd'],
            DistributionMode::Extreme => seq!['e', 'x', 't', 'r', 'e', 'm', 'e'],
        },
{
    reveal_strlit("calm");
    reveal_strlit("hard");
    reveal_strlit("extreme");
    assert("calm"@ =~= seq!['c', 'a', 'l', 'm']);
    assert("hard"@ =~= seq!['h', 'a', 'r', 'd']);
    assert("extreme"@ =~= seq!['e', 'x', 't', 'r', 'e', 'm', 'e']);
}

/// What a call of [`train_test_split`] hands out: the train family as it came, and a test
/// family of `n_test` levels that starts `gap` seeds past it and has its dimensions and
/// tier.
pub proof fn law_calls_of_train_test_split(
    train: ScenarioSpec,
    n_test: u64,
    gap: u64,
    families: (ScenarioSpec, ScenarioSpec),
)
    requires
        call_ensures(train_test_split, (train, n_test, gap), families),
    ensures
        families.0 == train,
        families.1.start_level - gap - train.num_levels == train.start_level,
        families.1.num_levels == n_test,
        families.1.n_symbols == train.n_symbols,
        families.1.n_days == train.n_days,
        families.1.distribution_mode == train.distribution_mode,
{
}

/// What a call of [`level_seed`] gives: a seed of the interval that is `index` past its
/// start, up to whole rounds of the interval.
pub proof fn law_calls_of_level_seed(spec: ScenarioSpec, index: u64, seed: u64)
    requires
        call_ensures(level_seed, (&spec, index), seed),
        spec.num_levels > 0 || spec.start_level < u64::MAX,
    ensures
        spec.num_levels > 0 ==> spec.start_level <= seed < spec.start_level + spec.num_levels,
        spec.num_levels > 0 ==> (index - (seed - spec.start_level)) % (spec.num_levels as int) == 0,
        spec.num_levels == 0 ==> spec.start_level <= seed < u64::MAX,
        spec.num_levels == 0 ==> (index - (seed - spec.start_level)) % (u64::MAX
            - spec.start_level) == 0,
{
    let span: int = if spec.num_levels == 0 {
        u64::MAX - spec.start_level
    } else {
        spec.num_levels as int
    };
    vstd::arithmetic::div_mod::lemma_mod_bound(index as int, span);
    vstd::arithmetic::div_mod::lemma_fundamental_div_mod(index as int, span);
    vstd::arithmetic::div_mod::lemma_mod_multiples_basic(index as int / span, span);
    vstd::arithmetic::mul::lemma_mul_is_commutative(span, index as int / span);
}

/// What a call of [`generate_scenario`] gives: the engine's panel of the family's
/// dimensions under the whole seed, untouched in the calm tier, and in the others with a
/// row of jumps for every symbol, drawn from the stream of that seed and that tier.
pub proof fn law_calls_of_generate_scenario(spec: ScenarioSpec, seed: u64, scenario: Scenario)
    requires
        call_ensures(generate_scenario, (&spec, seed), scenario),
    ensures
        scenario.base == synthetic_panel(spec.n_symbols, spec.n_days, seed),
        bar_count(scenario.base) == spec.n_days,
        spec.distribution_mode == DistributionMode::Calm <==> scenario.amplification is None,
        spec.distribution_mode == DistributionMode::Hard ==> rows(
            scenario.amplification->0.jumps@,
        ) == jump_table(
            seed,
            Seq::new(spec.n_symbols as nat, |i: int| spec.n_days),
            AmplifyParams {
                mode_salt: 0x4861_7264_5f5f_5f5f,
                vol_mult: Binary64 { bits: 0x3ffc_cccc_cccc_cccd },
                jump_prob: Binary64 { bits: 0x3f94_7ae1_47ae_147b },
                jump_size: Binary64 { bits: 0x3fae_b851_eb85_1eb8 },
            },
        ) && scenario.amplification->0.vol_mult.bits == 0x3ffc_cccc_cccc_cccd,
        spec.distribution_mode == DistributionMode::Extreme ==> rows(
            scenario.amplification->0.jumps@,
        ) == jump_table(
            seed,
            Seq::new(spec.n_symbols as nat, |i: int| spec.n_days),
            AmplifyParams {
                mode_salt: 0x4578_7472_5f5f_5f5f,
                vol_mult: Binary64 { bits: 0x4008_0000_0000_0000 },
                jump_prob: Binary64 { bits: 0x3fae_b851_eb85_1eb8 },
                jump_size: Binary64 { bits: 0x3fc0_a3d7_0a3d_70a4 },
            },
        ) && scenario.amplification->0.vol_mult.bits == 0x4008_0000_0000_0000,
{
    law_tiers_in_numbers(spec, seed, scenario, 0, 0);
}

/// What a call of [`plan_jumps`] gives, bar by bar: the next draw of the stream of the whole
/// seed decides whether the bar jumps, and the draw after it which way.
#[verifier::spinoff_prover]
pub proof fn law_calls_of_plan_jumps(
    lengths: Vec<usize>,
    seed: u64,
    p: AmplifyParams,
    jumps: Vec<Vec<Binary64>>,
    row: int,
    bar: int,
)
    requires
        call_ensures(plan_jumps, (&lengths, seed, &p), jumps),
        p.jump_size.bits != 0,
        p.jump_size.bits != 0x8000_0000_0000_0000,
        p.jump_prob.bits < 0x7ff0_0000_0000_0000,
        0 <= row < lengths@.len(),
        0 <= bar,
        bar + 1 < lengths@[row],
    ensures
        jumps@.len() == lengths@.len(),
        jumps@[row]@.len() + 1 == lengths@[row],
        ({
            let start = (seed ^ p.mode_salt) ^ 0x1234_5678_9abc_def0;
            let earlier = rows(jumps@).take(row).flatten() + jumps@[row]@.take(bar);
            let n = earlier.len() + jump_count(earlier);
            let jump = jumps@[row]@[bar];
            &&& jump.bits != 0 <==> stream_draw(start, n + 1) * pow2(1074) < p.jump_prob.steps()
                * pow2(53)
            &&& jump.bits != 0 ==> jump.bits == if stream_draw(start, n + 2)
                < 0x10_0000_0000_0000 {
                p.jump_size.bits as int
            } else {
                (p.jump_size.bits + 0x8000_0000_0000_0000) % 0x1_0000_0000_0000_0000
            }
        }),
{
    law_table_has_an_entry_per_return(seed, lengths@, p, jumps@, row);
    law_jumps_follow_one_stream(seed, lengths@, p, row, bar);
}

/// What a call of [`amplify`] gives: the panel as it came, the knobs' multiplier, and the
/// jumps that are planned for the panel's series.
pub proof fn law_calls_of_amplify(
    base: Dataset,
    seed: u64,
    p: AmplifyParams,
    scenario: Scenario,
)
    requires
        call_ensures(amplify, (base, seed, p), scenario),
    ensures
        scenario.base == base,
        scenario.amplification matches Some(a) && a.vol_mult == p.vol_mult && rows(a.jumps@)
            == jump_table(seed, close_lengths(base), p),
{
}

/// What calls on the tiers' names give: a tier is spelled in lower case, and a text names a
/// tier exactly where it is one of the three spellings.
#[verifier::spinoff_prover]
pub proof fn law_calls_on_wire_names(
    mode: DistributionMode,
    name: &'static str,
    text: &str,
    named: Option<DistributionMode>,
)
    requires
        call_ensures(DistributionMode::wire_name, (mode,), name),
        call_ensures(DistributionMode::from_wire_name, (text,), named),
    ensures
        name@ == match mode {
            DistributionMode::Calm => seq!['c', 'a', 'l', 'm'],
            DistributionMode::Hard => seq!['h', 'a', 'r', 'd'],
            DistributionMode::Extreme => seq!['e', 'x', 't', 'r', 'e', 'm', 'e'],
        },
        named == Some(DistributionMode::Calm) <==> text@ == seq!['c', 'a', 'l', 'm'],
        named == Some(DistributionMode::Hard) <==> text@ == seq!['h', 'a', 'r', 'd'],
        named == Some(DistributionMode::Extreme) <==> text@ == seq![
            'e',
            'x',
            't',
            'r',
            'e',
            'm',
            'e',
        ],
{
    law_wire_names(mode);
    law_wire_names(DistributionMode::Calm);
    law_wire_names(DistributionMode::Hard);
    law_wire_names(DistributionMode::Extreme);
    if let Some(m) = named {
        law_wire_names_are_distinct(m, DistributionMode::Calm);
        law_wire_names_are_distinct(m, DistributionMode::Hard);
        law_wire_names_are_distinct(m, DistributionMode::Extreme);
    }
}

/// Bar by bar and row by row, under any knobs: a bar that does not jump takes one stride of
/// the generator and one that jumps takes two, a row goes on where the row before it
/// ended, and the first row starts at the whole seed.
pub proof fn law_stream_goes_on_bar_by_bar(
    seed: u64,
    lengths: Seq<usize>,
    p: AmplifyParams,
    row: nat,
    state: u64,
    n: nat,
)
    requires
        row < lengths.len(),
    ensures
        (state_before_row(seed, lengths, 0, p) ^ 0x1234_5678_9abc_def0) ^ p.mode_salt == seed,
        state_before_row(seed, lengths, row + 1, p) == state_after_bars(
            state_before_row(seed, lengths, row, p),
            if lengths[row as int] == 0 {
                0nat
            } else {
                (lengths[row as int] - 1) as nat
            },
            p,
        ),
        state_after_bars(state, 0, p) == state,
        ({
            let at = state_after_bars(state, n, p);
            let first = stream_draw(at, 1);
            let second = stream_draw(at, 2);
            let jumps = p.jump_prob.exceeds_draw(first as u64);
            let strides: int = if jumps {
                2
            } else {
                1
            };
            &&& state_after_bars(state, n + 1, p) == (at + strides * 0x9e37_79b9_7f4a_7c15)
                % 0x1_0000_0000_0000_0000
            &&& jump_value(at, p) == if !jumps {
                Binary64 { bits: 0 }
            } else if second < 0x10_0000_0000_0000 {
                p.jump_size
            } else {
                p.jump_size.negated()
            }
        }),
{
    let salt = p.mode_salt;
    assert((((seed ^ salt) ^ 0x1234_5678_9abc_def0) ^ 0x1234_5678_9abc_def0) ^ salt == seed)
        by (bit_vector);
    let at = state_after_bars(state, n, p);
    lemma_draws_of_bar(at, 0);
    assert(state_after(at, 0) == at);
    assert(state_after(at, 1) == next_state(state_after(at, 0)));
    assert(state_after(at, 2) == next_state(state_after(at, 1)));
    crate::splitmix::law_states_are_a_stride_apart(at, 1);
    crate::splitmix::law_states_are_a_stride_apart(at, 2);
    lemma_below_half(unit_draw(next_state(next_state(at))));
}

/// What stands without being asked for: the calm tier, and the calm family of 4 symbols and
/// 120 days over the unbounded interval; and a copy is the same family.
pub proof fn law_calls_of_defaults(
    mode: DistributionMode,
    family: ScenarioSpec,
    spec: ScenarioSpec,
    copy: ScenarioSpec,
)
    requires
        call_ensures(<DistributionMode as Default>::default, (), mode),
        call_ensures(<ScenarioSpec as Default>::default, (), family),
        call_ensures(<ScenarioSpec as Clone>::clone, (&spec,), copy),
    ensures
        mode == DistributionMode::Calm,
        family.start_level == 0,
        family.num_levels == 0,
        family.n_symbols == 4,
        family.n_days == 120,
        family.distribution_mode == DistributionMode::Calm,
        copy == spec,
{
}

} // verus!
