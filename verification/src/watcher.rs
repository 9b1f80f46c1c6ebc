//! The core state of the agent: subscription store, status cache, running
//! flag and interval, with the poll-cycle evaluation and the scheduler
//! transitions, all specified as functions of the observable state.

use vstd::prelude::*;
use vstd::hash_map::StringHashMap;
use crate::status::{
    TabStatus, parse_status, should_alert, alert_count, history_prev, failing_run_count,
    lemma_alert_count_snoc, lemma_alerts_count_failing_runs,
};
use crate::subscription::{Subscription, watched, is_watched, distinct_dashboards, dashboard_set, names_contain};
use crate::text::{
    spec_key, cache_key, spec_alert_title, alert_title, spec_alert_body, alert_body,
    lemma_key_injective_per_dashboard, lemma_title_injective,
};

verus! {

/// One tab's summary as decoded from a dashboard fetch.
#[derive(Debug)]
pub struct TabSummary {
    pub tab_name: String,
    pub overall_status: String,
    pub last_run_timestamp: Option<String>,
}

/// A notification to hand to the alert sink.
#[derive(Debug)]
pub struct Alert {
    pub title: String,
    pub body: String,
}

/// What one dashboard's fetch produced: its summaries, or `None` when the
/// fetch failed and the dashboard is skipped for this cycle.
#[derive(Debug)]
pub struct FetchOutcome {
    pub dashboard: String,
    pub summaries: Option<Vec<TabSummary>>,
}

/// The previously cached status of a key, absent meaning never observed.
pub open spec fn prev_status(cache: Map<Seq<char>, TabStatus>, key: Seq<char>) -> Option<TabStatus> {
    if cache.contains_key(key) {
        Some(cache[key])
    } else {
        None
    }
}

/// How one tab summary changes the cache: a watched tab's key is set to the
/// newly parsed status, an unwatched tab changes nothing.
pub open spec fn step_cache(
    cache: Map<Seq<char>, TabStatus>,
    subs: Seq<Subscription>,
    dashboard: Seq<char>,
    summary: TabSummary,
) -> Map<Seq<char>, TabStatus> {
    if watched(subs, dashboard, summary.tab_name@) {
        cache.insert(spec_key(dashboard, summary.tab_name@), parse_status(summary.overall_status@))
    } else {
        cache
    }
}

/// The alerts (title, body views) one tab summary produces: exactly one when
/// the tab is watched and newly failing, none otherwise.
pub open spec fn step_alerts(
    cache: Map<Seq<char>, TabStatus>,
    subs: Seq<Subscription>,
    dashboard: Seq<char>,
    summary: TabSummary,
) -> Seq<(Seq<char>, Seq<char>)> {
    if watched(subs, dashboard, summary.tab_name@) && should_alert(
        prev_status(cache, spec_key(dashboard, summary.tab_name@)),
        parse_status(summary.overall_status@),
    ) {
        seq![(spec_alert_title(summary.tab_name@), spec_alert_body(dashboard, summary.tab_name@))]
    } else {
        Seq::empty()
    }
}

/// The cache after evaluating a dashboard's summaries in order.
pub open spec fn cycle_cache(
    cache: Map<Seq<char>, TabStatus>,
    subs: Seq<Subscription>,
    dashboard: Seq<char>,
    summaries: Seq<TabSummary>,
) -> Map<Seq<char>, TabStatus>
    decreases summaries.len(),
{
    if summaries.len() == 0 {
        cache
    } else {
        step_cache(
            cycle_cache(cache, subs, dashboard, summaries.drop_last()),
            subs,
            dashboard,
            summaries.last(),
        )
    }
}

/// The alerts fired while evaluating a dashboard's summaries in order, each
/// judged against the cache as updated by the summaries before it.
pub open spec fn cycle_alerts(
    cache: Map<Seq<char>, TabStatus>,
    subs: Seq<Subscription>,
    dashboard: Seq<char>,
    summaries: Seq<TabSummary>,
) -> Seq<(Seq<char>, Seq<char>)>
    decreases summaries.len(),
{
    if summaries.len() == 0 {
        Seq::empty()
    } else {
        cycle_alerts(cache, subs, dashboard, summaries.drop_last()) + step_alerts(
            cycle_cache(cache, subs, dashboard, summaries.drop_last()),
            subs,
            dashboard,
            summaries.last(),
        )
    }
}

/// The cache after a whole round over the fetch outcomes, failed fetches
/// skipped.
pub open spec fn outcomes_cache(
    cache: Map<Seq<char>, TabStatus>,
    subs: Seq<Subscription>,
    outcomes: Seq<FetchOutcome>,
) -> Map<Seq<char>, TabStatus>
    decreases outcomes.len(),
{
    if outcomes.len() == 0 {
        cache
    } else {
        let prior = outcomes_cache(cache, subs, outcomes.drop_last());
        match outcomes.last().summaries {
            Some(s) => cycle_cache(prior, subs, outcomes.last().dashboard@, s@),
            None => prior,
        }
    }
}

/// The alerts fired over a whole round over the fetch outcomes.
pub open spec fn outcomes_alerts(
    cache: Map<Seq<char>, TabStatus>,
    subs: Seq<Subscription>,
    outcomes: Seq<FetchOutcome>,
) -> Seq<(Seq<char>, Seq<char>)>
    decreases outcomes.len(),
{
    if outcomes.len() == 0 {
        Seq::empty()
    } else {
        let prior = outcomes_cache(cache, subs, outcomes.drop_last());
        outcomes_alerts(cache, subs, outcomes.drop_last()) + match outcomes.last().summaries {
            Some(s) => cycle_alerts(prior, subs, outcomes.last().dashboard@, s@),
            None => Seq::empty(),
        }
    }
}

/// The (title, body) views of a list of alerts.
pub open spec fn alert_views(alerts: Seq<Alert>) -> Seq<(Seq<char>, Seq<char>)> {
    alerts.map_values(|a: Alert| (a.title@, a.body@))
}

/// Interval requests below one minute are coerced to one minute.
pub open spec fn clamp_interval(interval_minutes: u64) -> u64 {
    if interval_minutes < 1 {
        1
    } else {
        interval_minutes
    }
}

/// What the background task does at a wake: run the pending cycle, or exit
/// without running it.
#[derive(Clone, Copy, Debug, PartialEq, Eq, Structural)]
pub enum WakeDecision {
    RunCycle,
    Exit,
}

/// The core state: subscription store, status cache, scheduler flag and
/// interval. One value of this type is shared behind the host's lock; all
/// operations are short and never span an I/O call.
pub struct Watcher {
    subscriptions: Vec<Subscription>,
    cache: StringHashMap<TabStatus>,
    polling_active: bool,
    interval_minutes: u64,
}

impl Watcher {
    /// The active subscription set.
    pub closed spec fn subs(&self) -> Seq<Subscription> {
        self.subscriptions@
    }

    /// The status cache: last observed status per key.
    pub closed spec fn cache_view(&self) -> Map<Seq<char>, TabStatus> {
        self.cache@
    }

    /// Whether the scheduler is in the Running state.
    pub closed spec fn polling(&self) -> bool {
        self.polling_active
    }

    /// The tick interval in minutes, as clamped at start.
    pub closed spec fn interval(&self) -> u64 {
        self.interval_minutes
    }

    /// A fresh agent: stopped, no subscriptions, empty cache.
    pub fn new() -> (w: Watcher)
        ensures
            !w.polling(),
            w.interval() == 1,
            w.subs() == Seq::<Subscription>::empty(),
            w.cache_view() == Map::<Seq<char>, TabStatus>::empty(),
    {
        Watcher {
            subscriptions: Vec::new(),
            cache: StringHashMap::new(),
            polling_active: false,
            interval_minutes: 1,
        }
    }

    /// Atomically replace the active subscription set; nothing else changes.
    pub fn set_subscriptions(&mut self, subs: Vec<Subscription>)
        ensures
            final(self).subs() == subs@,
            final(self).cache_view() == old(self).cache_view(),
            final(self).polling() == old(self).polling(),
            final(self).interval() == old(self).interval(),
    {
        self.subscriptions = subs;
    }

    /// An immutable copy of the active subscription set, taken once at the
    /// start of a poll cycle.
    pub fn snapshot(&self) -> (r: Vec<Subscription>)
        ensures
            r@ == self.subs(),
    {
        let mut r: Vec<Subscription> = Vec::new();
        let mut i: usize = 0;
        while i < self.subscriptions.len()
            invariant
                i <= self.subscriptions.len(),
                r@ =~= self.subscriptions@.take(i as int),
            decreases self.subscriptions.len() - i,
        {
            r.push(self.subscriptions[i].clone());
            proof {
                assert(r@ =~= self.subscriptions@.take(i + 1));
            }
            i = i + 1;
        }
        proof {
            assert(self.subscriptions@.take(self.subscriptions@.len() as int) =~= self.subscriptions@);
        }
        r
    }

    /// Start the scheduler: a no-op while already Running, otherwise clamp
    /// the interval to a minimum of one minute and transition to Running.
    pub fn start_polling(&mut self, interval_minutes: u64)
        ensures
            start_relation(*old(self), *final(self), interval_minutes),
    {
        if self.polling_active {
            return ;
        }
        self.polling_active = true;
        self.interval_minutes = if interval_minutes < 1 {
            1
        } else {
            interval_minutes
        };
    }

    /// Stop the scheduler. Cooperative: the background task sees the flag at
    /// its next wake check; an in-flight cycle is allowed to finish.
    pub fn stop_polling(&mut self)
        ensures
            stop_relation(*old(self), *final(self)),
    {
        self.polling_active = false;
    }

    /// The tick interval in minutes currently in effect.
    pub fn interval_minutes(&self) -> (r: u64)
        ensures
            r == self.interval(),
    {
        self.interval_minutes
    }

    /// Whether the scheduler is Running.
    pub fn is_polling(&self) -> (r: bool)
        ensures
            r == self.polling(),
    {
        self.polling_active
    }

    /// The wake-time check of the background task, re-evaluated after every
    /// sleep: the pending cycle runs exactly when the scheduler still reads
    /// Running.
    pub fn on_wake(&self) -> (d: WakeDecision)
        ensures
            d == WakeDecision::RunCycle <==> self.polling(),
    {
        if self.polling_active {
            WakeDecision::RunCycle
        } else {
            WakeDecision::Exit
        }
    }

    /// The distinct dashboards the next cycle has to fetch, each exactly
    /// once. Empty exactly when no subscription is active, in which case the
    /// cycle is a no-op and no fetch happens.
    pub fn dashboards_to_fetch(&self) -> (r: Vec<String>)
        ensures
            forall|j: int| 0 <= j < r@.len() ==> dashboard_set(self.subs()).contains(r@[j]@),
            forall|i: int| 0 <= i < self.subs().len() ==> names_contain(
                r@,
                #[trigger] self.subs()[i].dashboard_name@,
            ),
            forall|i: int, j: int| 0 <= i < j < r@.len() ==> r@[i]@ != r@[j]@,
    {
        distinct_dashboards(&self.subscriptions)
    }

    /// Evaluate one dashboard's summaries: parse each status, skip unwatched
    /// tabs entirely, fire an alert for each watched tab that is newly
    /// failing, and write every watched tab's status back to the cache.
    pub fn process_dashboard(&mut self, dashboard: &str, summaries: &Vec<TabSummary>) -> (alerts: Vec<
        Alert,
    >)
        ensures
            final(self).subs() == old(self).subs(),
            final(self).polling() == old(self).polling(),
            final(self).interval() == old(self).interval(),
            final(self).cache_view() == cycle_cache(
                old(self).cache_view(),
                old(self).subs(),
                dashboard@,
                summaries@,
            ),
            alert_views(alerts@) == cycle_alerts(
                old(self).cache_view(),
                old(self).subs(),
                dashboard@,
                summaries@,
            ),
    {
        let mut alerts: Vec<Alert> = Vec::new();
        let mut i: usize = 0;
        while i < summaries.len()
            invariant
                i <= summaries.len(),
                self.subs() == old(self).subs(),
                self.polling() == old(self).polling(),
                self.interval() == old(self).interval(),
                self.cache_view() == cycle_cache(
                    old(self).cache_view(),
                    old(self).subs(),
                    dashboard@,
                    summaries@.take(i as int),
                ),
                alert_views(alerts@) == cycle_alerts(
                    old(self).cache_view(),
                    old(self).subs(),
                    dashboard@,
                    summaries@.take(i as int),
                ),
            decreases summaries.len() - i,
        {
            let ghost pre_cache = self.cache_view();
            let ghost pre_alerts = alerts@;
            let summary = &summaries[i];
            let is_sub = is_watched(&self.subscriptions, dashboard, summary.tab_name.as_str());
            if is_sub {
                let key = cache_key(dashboard, summary.tab_name.as_str());
                let current = TabStatus::from_status(summary.overall_status.as_str());
                let prev_failing = match self.cache.get(key.as_str()) {
                    Some(s) => *s == TabStatus::Failing,
                    None => false,
                };
                if current == TabStatus::Failing && !prev_failing {
                    let alert = Alert {
                        title: alert_title(summary.tab_name.as_str()),
                        body: alert_body(dashboard, summary.tab_name.as_str()),
                    };
                    proof {
                        assert(should_alert(
                            prev_status(pre_cache, spec_key(dashboard@, summary.tab_name@)),
                            parse_status(summary.overall_status@),
                        ));
                    }
                    alerts.push(alert);
                    proof {
                        assert(alert_views(alerts@) =~= alert_views(pre_alerts) + step_alerts(
                            pre_cache,
                            old(self).subs(),
                            dashboard@,
                            summaries@[i as int],
                        ));
                    }
                } else {
                    proof {
                        assert(!should_alert(
                            prev_status(pre_cache, spec_key(dashboard@, summary.tab_name@)),
                            parse_status(summary.overall_status@),
                        ));
                        assert(alert_views(alerts@) =~= alert_views(pre_alerts) + step_alerts(
                            pre_cache,
                            old(self).subs(),
                            dashboard@,
                            summaries@[i as int],
                        ));
                    }
                }
                self.cache.insert(key, current);
            } else {
                proof {
                    assert(alert_views(alerts@) =~= alert_views(pre_alerts) + step_alerts(
                        pre_cache,
                        old(self).subs(),
                        dashboard@,
                        summaries@[i as int],
                    ));
                }
            }
            proof {
                assert(summaries@.take(i + 1).drop_last() =~= summaries@.take(i as int));
                assert(summaries@.take(i + 1).last() == summaries@[i as int]);
                assert(self.cache_view() == step_cache(
                    pre_cache,
                    old(self).subs(),
                    dashboard@,
                    summaries@[i as int],
                ));
            }
            i = i + 1;
        }
        proof {
            assert(summaries@.take(summaries@.len() as int) =~= summaries@);
        }
        alerts
    }

    /// One full poll round over the fetch outcomes of the distinct
    /// dashboards. A failed fetch skips only its own dashboard; every other
    /// dashboard is still evaluated, in order.
    pub fn run_cycle(&mut self, outcomes: &Vec<FetchOutcome>) -> (alerts: Vec<Alert>)
        ensures
            final(self).subs() == old(self).subs(),
            final(self).polling() == old(self).polling(),
            final(self).interval() == old(self).interval(),
            final(self).cache_view() == outcomes_cache(
                old(self).cache_view(),
                old(self).subs(),
                outcomes@,
            ),
            alert_views(alerts@) == outcomes_alerts(
                old(self).cache_view(),
                old(self).subs(),
                outcomes@,
            ),
    {
        let mut alerts: Vec<Alert> = Vec::new();
        let mut i: usize = 0;
        while i < outcomes.len()
            invariant
                i <= outcomes.len(),
                self.subs() == old(self).subs(),
                self.polling() == old(self).polling(),
                self.interval() == old(self).interval(),
                self.cache_view() == outcomes_cache(
                    old(self).cache_view(),
                    old(self).subs(),
                    outcomes@.take(i as int),
                ),
                alert_views(alerts@) == outcomes_alerts(
                    old(self).cache_view(),
                    old(self).subs(),
                    outcomes@.take(i as int),
                ),
            decreases outcomes.len() - i,
        {
            let ghost pre_cache = self.cache_view();
            let ghost pre_alerts = alerts@;
            let outcome = &outcomes[i];
            match &outcome.summaries {
                Some(summaries) => {
                    let mut fresh = self.process_dashboard(outcome.dashboard.as_str(), summaries);
                    proof {
                        assert(alert_views(pre_alerts + fresh@) =~= alert_views(pre_alerts)
                            + alert_views(fresh@));
                    }
                    alerts.append(&mut fresh);
                },
                None => {},
            }
            proof {
                assert(outcomes@.take(i + 1).drop_last() =~= outcomes@.take(i as int));
                assert(outcomes@.take(i + 1).last() == outcomes@[i as int]);
            }
            i = i + 1;
        }
        proof {
            assert(outcomes@.take(outcomes@.len() as int) =~= outcomes@);
        }
        alerts
    }
}

/// What `start_polling` does to the state: nothing while Running, otherwise
/// the transition to Running with the clamped interval, everything else kept.
pub open spec fn start_relation(pre: Watcher, post: Watcher, interval_minutes: u64) -> bool {
    if pre.polling() {
        post == pre
    } else {
        &&& post.polling()
        &&& post.interval() == clamp_interval(interval_minutes)
        &&& post.subs() == pre.subs()
        &&& post.cache_view() == pre.cache_view()
    }
}

/// What `stop_polling` does to the state: the flag cleared, everything else
/// kept.
pub open spec fn stop_relation(pre: Watcher, post: Watcher) -> bool {
    &&& !post.polling()
    &&& post.subs() == pre.subs()
    &&& post.cache_view() == pre.cache_view()
    &&& post.interval() == pre.interval()
}

/// `start` always leaves the scheduler Running, so a second `start` changes
/// nothing: the interval set by the first one stays in effect whatever the
/// second one asked for.
pub proof fn lemma_start_while_running_keeps_interval(
    w0: Watcher,
    w1: Watcher,
    w2: Watcher,
    first: u64,
    second: u64,
)
    requires
        start_relation(w0, w1, first),
        start_relation(w1, w2, second),
    ensures
        w1.polling(),
        w2 == w1,
        !w0.polling() ==> w2.interval() == clamp_interval(first),
{
}

/// `stop` issued during the sleep phase: the wake-time check (`on_wake`)
/// can only yield `Exit` afterwards, so the pending cycle does not run.
pub proof fn lemma_stop_prevents_pending_cycle(before: Watcher, after: Watcher, d: WakeDecision)
    requires
        stop_relation(before, after),
        d == WakeDecision::RunCycle <==> after.polling(),
    ensures
        d == WakeDecision::Exit,
{
}

/// The polling status reads false on a fresh agent, true immediately after a
/// `start`, and false immediately after a `stop`.
pub proof fn lemma_polling_status_lifecycle(
    fresh: Watcher,
    started: Watcher,
    stopped: Watcher,
    interval: u64,
)
    requires
        !fresh.polling(),
        start_relation(fresh, started, interval),
        stop_relation(started, stopped),
    ensures
        started.polling(),
        !stopped.polling(),
{
}

/// The cache after a sequence of poll cycles, each observing one tab
/// summary.
pub open spec fn observed_cache(
    cache: Map<Seq<char>, TabStatus>,
    subs: Seq<Subscription>,
    dashboard: Seq<char>,
    summaries: Seq<TabSummary>,
) -> Map<Seq<char>, TabStatus>
    decreases summaries.len(),
{
    if summaries.len() == 0 {
        cache
    } else {
        cycle_cache(
            observed_cache(cache, subs, dashboard, summaries.drop_last()),
            subs,
            dashboard,
            seq![summaries.last()],
        )
    }
}

/// The total number of alerts fired over a sequence of poll cycles, each
/// observing one tab summary.
pub open spec fn observed_alert_total(
    cache: Map<Seq<char>, TabStatus>,
    subs: Seq<Subscription>,
    dashboard: Seq<char>,
    summaries: Seq<TabSummary>,
) -> nat
    decreases summaries.len(),
{
    if summaries.len() == 0 {
        0
    } else {
        observed_alert_total(cache, subs, dashboard, summaries.drop_last()) + cycle_alerts(
            observed_cache(cache, subs, dashboard, summaries.drop_last()),
            subs,
            dashboard,
            seq![summaries.last()],
        ).len()
    }
}

/// The statuses a sequence of summaries reports.
pub open spec fn statuses_of(summaries: Seq<TabSummary>) -> Seq<TabStatus> {
    summaries.map_values(|s: TabSummary| parse_status(s.overall_status@))
}

/// Successive cycles observing one watched tab alert exactly as the
/// per-key history model does: one alert for each observation that is
/// newly failing against the last written status.
pub proof fn lemma_observed_alerts_match_history(
    cache: Map<Seq<char>, TabStatus>,
    subs: Seq<Subscription>,
    dashboard: Seq<char>,
    summaries: Seq<TabSummary>,
    tab: Seq<char>,
)
    requires
        watched(subs, dashboard, tab),
        forall|i: int| 0 <= i < summaries.len() ==> (#[trigger] summaries[i]).tab_name@ == tab,
    ensures
        observed_alert_total(cache, subs, dashboard, summaries) == alert_count(
            prev_status(cache, spec_key(dashboard, tab)),
            statuses_of(summaries),
        ),
        prev_status(observed_cache(cache, subs, dashboard, summaries), spec_key(dashboard, tab))
            == history_prev(prev_status(cache, spec_key(dashboard, tab)), statuses_of(summaries)),
    decreases summaries.len(),
{
    let key = spec_key(dashboard, tab);
    let prev0 = prev_status(cache, key);
    let statuses = statuses_of(summaries);
    if summaries.len() == 0 {
        assert(statuses =~= Seq::<TabStatus>::empty());
        assert(alert_count(prev0, Seq::<TabStatus>::empty()) == 0);
    } else {
        let front = summaries.drop_last();
        let s_last = summaries.last();
        let x = parse_status(s_last.overall_status@);
        lemma_observed_alerts_match_history(cache, subs, dashboard, front, tab);
        let m_front = observed_cache(cache, subs, dashboard, front);
        let statuses_front = statuses_of(front);
        assert(statuses_front =~= statuses.drop_last());
        assert(s_last.tab_name@ == tab);

        // one cycle over a single summary is one evaluation step
        let single = seq![s_last];
        assert(single.drop_last() =~= Seq::<TabSummary>::empty());
        assert(single.last() == s_last);
        assert(cycle_cache(m_front, subs, dashboard, Seq::<TabSummary>::empty()) == m_front);
        assert(cycle_alerts(m_front, subs, dashboard, Seq::<TabSummary>::empty())
            =~= Seq::<(Seq<char>, Seq<char>)>::empty());
        assert(cycle_cache(m_front, subs, dashboard, single) == step_cache(
            m_front,
            subs,
            dashboard,
            s_last,
        ));
        assert(cycle_alerts(m_front, subs, dashboard, single) =~= step_alerts(
            m_front,
            subs,
            dashboard,
            s_last,
        ));

        assert(statuses =~= statuses_front.push(x));
        lemma_alert_count_snoc(prev0, statuses_front, x);
        assert(step_alerts(m_front, subs, dashboard, s_last).len() == (
        if should_alert(prev_status(m_front, key), x) {
            1nat
        } else {
            0nat
        }));
        assert(statuses.last() == x);
    }
}

/// For one watched tab observed once per poll cycle, the number of alerts
/// fired equals the number of maximal runs of consecutive `Failing`
/// observations.
pub proof fn lemma_one_alert_per_failing_run(
    cache: Map<Seq<char>, TabStatus>,
    subs: Seq<Subscription>,
    dashboard: Seq<char>,
    summaries: Seq<TabSummary>,
    tab: Seq<char>,
)
    requires
        watched(subs, dashboard, tab),
        forall|i: int| 0 <= i < summaries.len() ==> (#[trigger] summaries[i]).tab_name@ == tab,
    ensures
        observed_alert_total(cache, subs, dashboard, summaries) == failing_run_count(
            statuses_of(summaries),
            prev_status(cache, spec_key(dashboard, tab)) == Some(TabStatus::Failing),
        ),
{
    lemma_observed_alerts_match_history(cache, subs, dashboard, summaries, tab);
    lemma_alerts_count_failing_runs(
        prev_status(cache, spec_key(dashboard, tab)),
        statuses_of(summaries),
    );
}

/// A tab matched by no subscription is fully ignored by a cycle: its cache
/// key is neither created nor changed, and no alert carrying its title is
/// fired.
pub proof fn lemma_unwatched_tab_untouched(
    cache: Map<Seq<char>, TabStatus>,
    subs: Seq<Subscription>,
    dashboard: Seq<char>,
    summaries: Seq<TabSummary>,
    tab: Seq<char>,
)
    requires
        !watched(subs, dashboard, tab),
    ensures
        cycle_cache(cache, subs, dashboard, summaries).contains_key(spec_key(dashboard, tab))
            == cache.contains_key(spec_key(dashboard, tab)),
        cache.contains_key(spec_key(dashboard, tab)) ==> cycle_cache(
            cache,
            subs,
            dashboard,
            summaries,
        )[spec_key(dashboard, tab)] == cache[spec_key(dashboard, tab)],
        forall|j: int| 0 <= j < cycle_alerts(cache, subs, dashboard, summaries).len()
            ==> (#[trigger] cycle_alerts(cache, subs, dashboard, summaries)[j]).0
                != spec_alert_title(tab),
    decreases summaries.len(),
{
    if summaries.len() > 0 {
        let prior = summaries.drop_last();
        let last = summaries.last();
        lemma_unwatched_tab_untouched(cache, subs, dashboard, prior, tab);
        let m = cycle_cache(cache, subs, dashboard, prior);
        if watched(subs, dashboard, last.tab_name@) {
            if spec_key(dashboard, last.tab_name@) == spec_key(dashboard, tab) {
                lemma_key_injective_per_dashboard(dashboard, last.tab_name@, tab);
                assert(false);
            }
            if spec_alert_title(last.tab_name@) == spec_alert_title(tab) {
                lemma_title_injective(last.tab_name@, tab);
                assert(false);
            }
        }
        assert forall|j: int| 0 <= j < cycle_alerts(cache, subs, dashboard, summaries).len()
            implies (#[trigger] cycle_alerts(cache, subs, dashboard, summaries)[j]).0
            != spec_alert_title(tab) by {
            let whole = cycle_alerts(cache, subs, dashboard, summaries);
            let front = cycle_alerts(cache, subs, dashboard, prior);
            let back = step_alerts(m, subs, dashboard, last);
            assert(whole == front + back);
            if j < front.len() {
                assert(whole[j] == front[j]);
            } else {
                assert(whole[j] == back[j - front.len()]);
            }
        }
    }
}

} // verus!
