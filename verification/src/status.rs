//! The status of a dashboard tab, its derivation from the free-text status
//! string of the remote feed, and the edge-triggered alert decision.

use vstd::prelude::*;
use crate::text::str_eq;

verus! {

/// Last observed state of a tab. Derived from a free-text status string;
/// any unrecognized string maps to `Unknown`.
#[derive(Clone, Copy, Debug, PartialEq, Eq, Structural)]
pub enum TabStatus {
    Unknown,
    Passing,
    Failing,
    Flaky,
    Stale,
}

/// What status a given status string denotes.
pub open spec fn parse_status(s: Seq<char>) -> TabStatus {
    if s == "PASSING"@ {
        TabStatus::Passing
    } else if s == "FAILING"@ {
        TabStatus::Failing
    } else if s == "FLAKY"@ {
        TabStatus::Flaky
    } else if s == "STALE"@ {
        TabStatus::Stale
    } else {
        TabStatus::Unknown
    }
}

impl TabStatus {
    /// Decode the `overall_status` string of a tab summary.
    pub fn from_status(s: &str) -> (r: TabStatus)
        ensures
            r == parse_status(s@),
    {
        if str_eq(s, "PASSING") {
            TabStatus::Passing
        } else if str_eq(s, "FAILING") {
            TabStatus::Failing
        } else if str_eq(s, "FLAKY") {
            TabStatus::Flaky
        } else if str_eq(s, "STALE") {
            TabStatus::Stale
        } else {
            TabStatus::Unknown
        }
    }
}

/// The edge-triggered alert condition: alert exactly when the new status is
/// `Failing` and the previously cached status (absent counts as not failing)
/// was not `Failing`.
pub open spec fn should_alert(previous: Option<TabStatus>, current: TabStatus) -> bool {
    current == TabStatus::Failing && previous != Some(TabStatus::Failing)
}

/// Number of alerts fired over a sequence of observations of one key, when
/// each observation is judged against the previously written status and then
/// unconditionally written back (the cache discipline of the poll cycle).
pub open spec fn alert_count(previous: Option<TabStatus>, observations: Seq<TabStatus>) -> nat
    decreases observations.len(),
{
    if observations.len() == 0 {
        0
    } else {
        (if should_alert(previous, observations[0]) {
            1nat
        } else {
            0nat
        }) + alert_count(Some(observations[0]), observations.drop_first())
    }
}

/// The status that edge detection will compare the next observation
/// against: the last observation, or the initial cached status while
/// nothing has been observed.
pub open spec fn history_prev(previous: Option<TabStatus>, observations: Seq<TabStatus>) -> Option<
    TabStatus,
> {
    if observations.len() == 0 {
        previous
    } else {
        Some(observations.last())
    }
}

/// One more observation adds one alert exactly when it is a newly failing
/// one judged against the last state of the history.
pub proof fn lemma_alert_count_snoc(
    previous: Option<TabStatus>,
    observations: Seq<TabStatus>,
    next: TabStatus,
)
    ensures
        alert_count(previous, observations.push(next)) == alert_count(previous, observations) + (
        if should_alert(history_prev(previous, observations), next) {
            1nat
        } else {
            0nat
        }),
    decreases observations.len(),
{
    if observations.len() == 0 {
        assert(observations.push(next)[0] == next);
        assert(observations.push(next).drop_first() =~= Seq::<TabStatus>::empty());
        assert(alert_count(Some(next), Seq::<TabStatus>::empty()) == 0);
        assert(alert_count(previous, observations.push(next)) == (
        if should_alert(previous, next) {
            1nat
        } else {
            0nat
        }));
    } else {
        assert(observations.push(next)[0] == observations[0]);
        assert(observations.push(next).drop_first() =~= observations.drop_first().push(next));
        lemma_alert_count_snoc(Some(observations[0]), observations.drop_first(), next);
        if observations.len() == 1 {
            assert(history_prev(Some(observations[0]), observations.drop_first())
                == Some(observations.last()));
        } else {
            assert(observations.drop_first().last() == observations.last());
        }
    }
}

/// Number of maximal runs of consecutive `Failing` observations, where
/// `in_run` says whether a failing run was already open just before the
/// first observation.
pub open spec fn failing_run_count(observations: Seq<TabStatus>, in_run: bool) -> nat
    decreases observations.len(),
{
    if observations.len() == 0 {
        0
    } else {
        (if observations[0] == TabStatus::Failing && !in_run {
            1nat
        } else {
            0nat
        }) + failing_run_count(observations.drop_first(), observations[0] == TabStatus::Failing)
    }
}

/// For every sequence of statuses observed for a key, the number of alerts
/// fired equals the number of maximal runs of consecutive `Failing`
/// observations.
pub proof fn lemma_alerts_count_failing_runs(previous: Option<TabStatus>, observations: Seq<TabStatus>)
    ensures
        alert_count(previous, observations) == failing_run_count(
            observations,
            previous == Some(TabStatus::Failing),
        ),
    decreases observations.len(),
{
    if observations.len() > 0 {
        lemma_alerts_count_failing_runs(Some(observations[0]), observations.drop_first());
    }
}

} // verus!
