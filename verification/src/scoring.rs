//! The submission under which a rollout's returns are scored.
use crate::binary64::Binary64;
use vstd::prelude::*;

verus! {

/// The confidence stated for every return, 0.5.
pub const STATED_CONFIDENCE: u64 = 0x3fe0_0000_0000_0000;

/// One run: per-period returns, the confidence stated and the outcome of each, and the
/// compute cost.
#[derive(Debug)]
pub struct Rollout {
    pub period_returns: Vec<Binary64>,
    pub confidences: Vec<Binary64>,
    pub outcomes: Vec<bool>,
    pub cost: Binary64,
}

/// A submission of one run, with the declared number of in-sample trials and no
/// alternative candidates.
#[derive(Debug)]
pub struct Submission {
    pub agent_id: String,
    pub run: Rollout,
    pub in_sample_trials: u32,
}

/// The submission that scores `period_returns`: a period pays off if its return is above
/// zero, every period states the same even confidence, nothing is billed.
pub fn rollout_submission(period_returns: Vec<Binary64>, n_trials: u32) -> (submission: Submission)
    ensures
        submission.agent_id@ == "verifiers-rollout"@,
        submission.in_sample_trials == n_trials,
        submission.run.period_returns == period_returns,
        submission.run.outcomes@ == period_returns@.map_values(|r: Binary64| r.above_zero()),
        submission.run.confidences@ == Seq::new(
            period_returns@.len(),
            |i: int| Binary64 { bits: STATED_CONFIDENCE },
        ),
        submission.run.cost.bits == 0,
{
    let mut outcomes: Vec<bool> = Vec::new();
    let mut confidences: Vec<Binary64> = Vec::new();
    let mut i: usize = 0;
    while i < period_returns.len()
        invariant
            i <= period_returns@.len(),
            outcomes@ == period_returns@.take(i as int).map_values(|r: Binary64| r.above_zero()),
            confidences@ == Seq::new(i as nat, |j: int| Binary64 { bits: STATED_CONFIDENCE }),
        decreases period_returns.len() - i,
    {
        outcomes.push(period_returns[i].is_above_zero());
        confidences.push(Binary64 { bits: STATED_CONFIDENCE });
        i = i + 1;
    }
    assert(period_returns@.take(i as int) =~= period_returns@);
    Submission {
        agent_id: String::from_str("verifiers-rollout"),
        run: Rollout { period_returns, confidences, outcomes, cost: Binary64 { bits: 0 } },
        in_sample_trials: n_trials,
    }
}

/// What a call of [`rollout_submission`] gives: the returns as they came, a period that pays
/// off exactly where its return is a number above zero, a confidence of one half for each
/// period, no cost, the rollout's agent and the declared trials.
pub proof fn law_calls_of_rollout_submission(
    period_returns: Vec<Binary64>,
    n_trials: u32,
    submission: Submission,
    i: int,
)
    requires
        call_ensures(rollout_submission, (period_returns, n_trials), submission),
        0 <= i < period_returns@.len(),
    ensures
        submission.agent_id@ == "verifiers-rollout"@,
        submission.in_sample_trials == n_trials,
        submission.run.cost.bits == 0,
        submission.run.period_returns@ == period_returns@,
        submission.run.outcomes@.len() == period_returns@.len(),
        submission.run.confidences@.len() == period_returns@.len(),
        submission.run.outcomes@[i] <==> 0 < period_returns@[i].bits <= 0x7ff0_0000_0000_0000,
        submission.run.confidences@[i].bits == 0x3fe0_0000_0000_0000,
{
    crate::binary64::law_patterns(period_returns@[i]);
}

} // verus!
