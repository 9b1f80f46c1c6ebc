use testgrid_watch::status::TabStatus;
use testgrid_watch::subscription::Subscription;
use testgrid_watch::watcher::{Alert, FetchOutcome, TabSummary, WakeDecision, Watcher};

fn sub(id: &str, dashboard: &str, tab: Option<&str>) -> Subscription {
    Subscription {
        id: id.to_string(),
        subscription_type: "dashboard".to_string(),
        dashboard_name: dashboard.to_string(),
        tab_name: tab.map(|t| t.to_string()),
        test_name: None,
    }
}

fn summary(tab: &str, status: &str) -> TabSummary {
    TabSummary {
        tab_name: tab.to_string(),
        overall_status: status.to_string(),
        last_run_timestamp: None,
    }
}

fn titles(alerts: &[Alert]) -> Vec<String> {
    alerts.iter().map(|a| a.title.clone()).collect()
}

#[test]
fn status_parsing_recognized_values() {
    assert_eq!(TabStatus::from_status("PASSING"), TabStatus::Passing);
    assert_eq!(TabStatus::from_status("FAILING"), TabStatus::Failing);
    assert_eq!(TabStatus::from_status("FLAKY"), TabStatus::Flaky);
    assert_eq!(TabStatus::from_status("STALE"), TabStatus::Stale);
}

#[test]
fn status_parsing_unrecognized_maps_to_unknown() {
    assert_eq!(TabStatus::from_status(""), TabStatus::Unknown);
    assert_eq!(TabStatus::from_status("passing"), TabStatus::Unknown);
    assert_eq!(TabStatus::from_status("BROKEN"), TabStatus::Unknown);
    assert_eq!(TabStatus::from_status("FAILING "), TabStatus::Unknown);
}

#[test]
fn polling_status_lifecycle() {
    let mut w = Watcher::new();
    assert!(!w.is_polling());
    w.start_polling(5);
    assert!(w.is_polling());
    w.stop_polling();
    assert!(!w.is_polling());
}

#[test]
fn stop_during_sleep_prevents_pending_cycle() {
    let mut w = Watcher::new();
    w.start_polling(5);
    assert_eq!(w.on_wake(), WakeDecision::RunCycle);
    // the background task is asleep; a stop arrives before the wake check
    w.stop_polling();
    assert_eq!(w.on_wake(), WakeDecision::Exit);
}

#[test]
fn start_clamps_interval_to_one_minute() {
    let mut w = Watcher::new();
    w.start_polling(0);
    assert!(w.is_polling());
    assert_eq!(w.interval_minutes(), 1);
}

#[test]
fn second_start_keeps_first_interval() {
    let mut w = Watcher::new();
    w.start_polling(5);
    w.start_polling(30);
    assert!(w.is_polling());
    assert_eq!(w.interval_minutes(), 5);
}

#[test]
fn stop_then_start_takes_new_interval() {
    let mut w = Watcher::new();
    w.start_polling(5);
    w.stop_polling();
    w.start_polling(30);
    assert_eq!(w.interval_minutes(), 30);
}

#[test]
fn no_subscriptions_means_nothing_to_fetch() {
    let w = Watcher::new();
    assert!(w.dashboards_to_fetch().is_empty());
}

#[test]
fn dashboards_are_deduplicated() {
    let mut w = Watcher::new();
    w.set_subscriptions(vec![
        sub("1", "sig-node", Some("kubelet")),
        sub("2", "sig-node", Some("containerd")),
        sub("3", "sig-release", None),
    ]);
    let mut dashboards = w.dashboards_to_fetch();
    dashboards.sort();
    assert_eq!(dashboards, vec!["sig-node".to_string(), "sig-release".to_string()]);
}

#[test]
fn snapshot_copies_the_active_set() {
    let mut w = Watcher::new();
    w.set_subscriptions(vec![sub("1", "sig-node", Some("kubelet"))]);
    let snap = w.snapshot();
    assert_eq!(snap.len(), 1);
    assert_eq!(snap[0].id, "1");
    assert_eq!(snap[0].dashboard_name, "sig-node");
    assert_eq!(snap[0].tab_name.as_deref(), Some("kubelet"));
}

#[test]
fn set_subscriptions_replaces_wholesale() {
    let mut w = Watcher::new();
    w.set_subscriptions(vec![sub("1", "sig-node", None), sub("2", "sig-release", None)]);
    w.set_subscriptions(vec![sub("3", "sig-storage", None)]);
    let dashboards = w.dashboards_to_fetch();
    assert_eq!(dashboards, vec!["sig-storage".to_string()]);
}

#[test]
fn wildcard_five_cycle_scenario() {
    let mut w = Watcher::new();
    w.set_subscriptions(vec![sub("1", "sig-node", None)]);

    let a1 = w.process_dashboard("sig-node", &vec![summary("kubelet", "PASSING")]);
    assert_eq!(a1.len(), 0);

    let a2 = w.process_dashboard("sig-node", &vec![summary("kubelet", "FAILING")]);
    assert_eq!(a2.len(), 1);
    assert_eq!(a2[0].title, "Test Failure: kubelet");
    assert_eq!(a2[0].body, "Dashboard 'sig-node' tab 'kubelet' is now failing");

    let a3 = w.process_dashboard("sig-node", &vec![summary("kubelet", "FAILING")]);
    assert_eq!(a3.len(), 0);

    let a4 = w.process_dashboard("sig-node", &vec![summary("kubelet", "PASSING")]);
    assert_eq!(a4.len(), 0);

    let a5 = w.process_dashboard("sig-node", &vec![summary("kubelet", "FAILING")]);
    assert_eq!(a5.len(), 1);
}

#[test]
fn one_alert_per_maximal_failing_run() {
    let mut w = Watcher::new();
    w.set_subscriptions(vec![sub("1", "d", Some("t"))]);
    let observed = [
        "FAILING", "FAILING", "PASSING", "FAILING", "STALE", "FAILING", "FAILING", "PASSING",
    ];
    let mut fired = 0;
    for status in observed {
        fired += w.process_dashboard("d", &vec![summary("t", status)]).len();
    }
    // runs of consecutive FAILING: positions 0-1, 3, 5-6
    assert_eq!(fired, 3);
}

#[test]
fn unknown_status_closes_a_failing_run() {
    let mut w = Watcher::new();
    w.set_subscriptions(vec![sub("1", "d", Some("t"))]);
    assert_eq!(w.process_dashboard("d", &vec![summary("t", "FAILING")]).len(), 1);
    assert_eq!(w.process_dashboard("d", &vec![summary("t", "gibberish")]).len(), 0);
    assert_eq!(w.process_dashboard("d", &vec![summary("t", "FAILING")]).len(), 1);
}

#[test]
fn wildcard_matches_every_tab_under_its_dashboard() {
    let mut w = Watcher::new();
    w.set_subscriptions(vec![sub("1", "sig-node", None)]);
    let alerts = w.process_dashboard(
        "sig-node",
        &vec![summary("kubelet", "FAILING"), summary("containerd", "FAILING")],
    );
    assert_eq!(
        titles(&alerts),
        vec!["Test Failure: kubelet".to_string(), "Test Failure: containerd".to_string()]
    );
}

#[test]
fn named_subscription_matches_only_its_tab() {
    let mut w = Watcher::new();
    w.set_subscriptions(vec![sub("1", "sig-node", Some("kubelet"))]);
    let alerts = w.process_dashboard(
        "sig-node",
        &vec![summary("kubelet", "FAILING"), summary("containerd", "FAILING")],
    );
    assert_eq!(titles(&alerts), vec!["Test Failure: kubelet".to_string()]);
}

#[test]
fn unwatched_tab_is_not_cached_and_never_alerts() {
    let mut w = Watcher::new();
    w.set_subscriptions(vec![sub("1", "sig-node", Some("kubelet"))]);
    // containerd is present in the response but watched by no subscription
    let a1 = w.process_dashboard("sig-node", &vec![summary("containerd", "FAILING")]);
    assert_eq!(a1.len(), 0);
    // subscribing later must still see the first failing observation as an
    // edge: had the unwatched tab been cached, this alert would be masked
    w.set_subscriptions(vec![sub("2", "sig-node", Some("containerd"))]);
    let a2 = w.process_dashboard("sig-node", &vec![summary("containerd", "FAILING")]);
    assert_eq!(a2.len(), 1);
}

#[test]
fn fetch_failure_skips_only_its_dashboard() {
    let mut w = Watcher::new();
    w.set_subscriptions(vec![sub("1", "a", None), sub("2", "b", None)]);
    let outcomes = vec![
        FetchOutcome { dashboard: "a".to_string(), summaries: None },
        FetchOutcome {
            dashboard: "b".to_string(),
            summaries: Some(vec![summary("t", "FAILING")]),
        },
    ];
    let alerts = w.run_cycle(&outcomes);
    assert_eq!(titles(&alerts), vec!["Test Failure: t".to_string()]);
}

#[test]
fn failed_fetch_leaves_cache_untouched_for_next_cycle() {
    let mut w = Watcher::new();
    w.set_subscriptions(vec![sub("1", "a", Some("t"))]);
    let ok = FetchOutcome {
        dashboard: "a".to_string(),
        summaries: Some(vec![summary("t", "FAILING")]),
    };
    let failed = FetchOutcome { dashboard: "a".to_string(), summaries: None };
    assert_eq!(w.run_cycle(&vec![ok]).len(), 1);
    assert_eq!(w.run_cycle(&vec![failed]).len(), 0);
    // still failing after the skipped cycle: no new edge, so no new alert
    let again = FetchOutcome {
        dashboard: "a".to_string(),
        summaries: Some(vec![summary("t", "FAILING")]),
    };
    assert_eq!(w.run_cycle(&vec![again]).len(), 0);
}

#[test]
fn statuses_are_cached_per_dashboard_and_tab() {
    let mut w = Watcher::new();
    w.set_subscriptions(vec![sub("1", "a", None), sub("2", "b", None)]);
    // the same tab name under two dashboards has two independent entries
    assert_eq!(w.process_dashboard("a", &vec![summary("t", "FAILING")]).len(), 1);
    assert_eq!(w.process_dashboard("b", &vec![summary("t", "FAILING")]).len(), 1);
    assert_eq!(w.process_dashboard("a", &vec![summary("t", "FAILING")]).len(), 0);
}

#[test]
fn last_run_timestamp_does_not_affect_the_decision() {
    let mut w = Watcher::new();
    w.set_subscriptions(vec![sub("1", "d", Some("t"))]);
    let with_ts = TabSummary {
        tab_name: "t".to_string(),
        overall_status: "FAILING".to_string(),
        last_run_timestamp: Some("2024-01-01T00:00:00Z".to_string()),
    };
    let alerts = w.process_dashboard("d", &vec![with_ts]);
    assert_eq!(alerts.len(), 1);
}
