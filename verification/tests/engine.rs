use grafana_sync::api::dashboards::FullDashboard;
use grafana_sync::dashboard_state::{dashboards_equal, DashboardState};
use grafana_sync::timestamp::Timestamp;

const T: i64 = 1_700_000_000;

fn record(uid: &str, title: &str, updated: i64) -> FullDashboard {
    let mut d = FullDashboard::default();
    d.dashboard.uid = uid.to_string();
    d.dashboard.title = title.to_string();
    d.dashboard.tags = vec!["sync".to_string()];
    d.dashboard.panels = vec!["{\"id\":1}".to_string()];
    d.meta.updated = Timestamp::new(updated, 0);
    d
}

fn state_of(instance_count: usize, sets: Vec<(&str, Vec<FullDashboard>)>) -> DashboardState {
    let mut state = DashboardState::new(instance_count);
    for (name, dashboards) in sets {
        state.add_set(name.to_string(), dashboards);
    }
    state
}

#[test]
fn empty_state_needs_nothing() {
    let state = DashboardState::new(3);
    let decisions = state.diff_at(Timestamp::new(0, 0), true, 10);
    assert!(decisions.is_empty());
}

#[test]
fn converged_snapshot_needs_nothing() {
    let state = state_of(
        3,
        vec![
            ("a", vec![record("d1", "One", T), record("d2", "Two", T)]),
            ("b", vec![record("d2", "Two", T + 7), record("d1", "One", T + 3)]),
            ("c", vec![record("d1", "One", T + 9), record("d2", "Two", T)]),
        ],
    );
    assert!(state.diff_at(Timestamp::new(T + 100, 0), false, 10).is_empty());
    assert!(state.diff_at(Timestamp::new(T + 1_000_000, 0), true, 10).is_empty());
}

#[test]
fn newest_copy_wins() {
    let state = state_of(
        4,
        vec![
            ("a", vec![record("d1", "One", T)]),
            ("b", vec![record("d1", "One", T + 600)]),
            ("c", vec![record("d1", "One", T + 300)]),
        ],
    );
    let decisions = state.diff_at(Timestamp::new(T + 600, 0), false, 10);
    assert_eq!(decisions.len(), 1);
    assert_eq!(decisions[0].0, "d1");
    let winner = decisions[0].1.as_ref().unwrap();
    assert_eq!(winner.meta.updated, Timestamp::new(T + 600, 0));
}

#[test]
fn newest_copy_wins_when_content_differs() {
    let state = state_of(
        3,
        vec![
            ("a", vec![record("d1", "Old", T)]),
            ("b", vec![record("d1", "Newest", T + 600)]),
            ("c", vec![record("d1", "Newer", T + 300)]),
        ],
    );
    let decisions = state.diff_at(Timestamp::new(T + 600, 0), false, 10);
    assert_eq!(decisions.len(), 1);
    let winner = decisions[0].1.as_ref().unwrap();
    assert_eq!(winner.dashboard.title, "Newest");
    assert_eq!(winner.meta.updated, Timestamp::new(T + 600, 0));
}

#[test]
fn identical_copies_on_every_instance_take_the_fast_path() {
    let state = state_of(
        3,
        vec![
            ("a", vec![record("d1", "One", T)]),
            ("b", vec![record("d1", "One", T + 300)]),
            ("c", vec![record("d1", "One", T + 600)]),
        ],
    );
    assert!(state.diff_at(Timestamp::new(T + 600, 0), false, 10).is_empty());
}

#[test]
fn uid_on_two_of_three_instances_is_decided() {
    let state = state_of(
        3,
        vec![
            ("a", vec![record("d1", "One", T)]),
            ("b", vec![record("d1", "One", T)]),
            ("c", vec![]),
        ],
    );
    let decisions = state.diff_at(Timestamp::new(T, 0), false, 10);
    assert_eq!(decisions.len(), 1);
    assert_eq!(decisions[0].0, "d1");
    assert_eq!(decisions[0].1.as_ref().unwrap().dashboard.title, "One");
}

#[test]
fn stale_winner_is_deleted_when_destructive() {
    let now = Timestamp::new(T, 0);
    let state = state_of(
        2,
        vec![("a", vec![record("d1", "One", T - 25 * 60)]), ("b", vec![])],
    );
    let decisions = state.diff_at(now, true, 10);
    assert_eq!(decisions.len(), 1);
    assert_eq!(decisions[0].0, "d1");
    assert!(decisions[0].1.is_none());
}

#[test]
fn stale_winner_is_kept_when_not_destructive() {
    let now = Timestamp::new(T, 0);
    let state = state_of(
        2,
        vec![("a", vec![record("d1", "One", T - 25 * 60)]), ("b", vec![])],
    );
    let decisions = state.diff_at(now, false, 10);
    assert_eq!(decisions.len(), 1);
    let winner = decisions[0].1.as_ref().unwrap();
    assert_eq!(winner.dashboard.uid, "d1");
    assert_eq!(winner.meta.updated, Timestamp::new(T - 25 * 60, 0));
}

#[test]
fn staleness_starts_right_after_two_intervals() {
    let state = state_of(2, vec![("a", vec![record("d1", "One", T)]), ("b", vec![])]);
    let at = |secs: i64, nanos: u32| state.diff_at(Timestamp::new(T + secs, nanos), true, 10);
    assert!(at(0, 0)[0].1.is_some());
    assert!(at(20 * 60 - 1, 999_999_999)[0].1.is_some());
    assert!(at(20 * 60, 0)[0].1.is_some());
    assert!(at(20 * 60, 1)[0].1.is_none());
    assert!(at(20 * 60 + 30, 0)[0].1.is_none());
    assert!(at(21 * 60, 0)[0].1.is_none());
}

#[test]
fn twenty_and_a_half_minutes_exceed_two_intervals_of_ten() {
    let now = Timestamp::new(T, 0);
    let state = state_of(
        2,
        vec![("a", vec![record("d1", "One", T - 20 * 60 - 30)]), ("b", vec![])],
    );
    let deleted = state.diff_at(now, true, 10);
    assert_eq!(deleted.len(), 1);
    assert_eq!(deleted[0].0, "d1");
    assert!(deleted[0].1.is_none());
    let kept = state.diff_at(now, false, 10);
    assert_eq!(kept[0].1.as_ref().unwrap().dashboard.uid, "d1");
}

#[test]
fn a_copy_from_the_future_is_never_stale() {
    let state = state_of(2, vec![("a", vec![record("d1", "One", T + 3600)]), ("b", vec![])]);
    let decisions = state.diff_at(Timestamp::new(T, 0), true, 0);
    assert!(decisions[0].1.is_some());
}

#[test]
fn zero_interval_deletes_whatever_has_an_age() {
    let state = state_of(2, vec![("a", vec![record("d1", "One", T)]), ("b", vec![])]);
    assert!(state.diff_at(Timestamp::new(T, 0), true, 0)[0].1.is_some());
    assert!(state.diff_at(Timestamp::new(T, 1), true, 0)[0].1.is_none());
    assert!(state.diff_at(Timestamp::new(T + 60, 0), true, 0)[0].1.is_none());
}

#[test]
fn huge_interval_never_deletes() {
    let state = state_of(2, vec![("a", vec![record("d1", "One", i64::MIN)]), ("b", vec![])]);
    let decisions = state.diff_at(Timestamp::new(i64::MAX, u32::MAX), true, u64::MAX);
    assert!(decisions[0].1.is_some());
}

#[test]
fn extreme_ages_are_measured_without_overflow() {
    let state = state_of(2, vec![("a", vec![record("d1", "One", i64::MIN)]), ("b", vec![])]);
    let decisions = state.diff_at(Timestamp::new(i64::MAX, u32::MAX), true, 10);
    assert!(decisions[0].1.is_none());
}

#[test]
fn copies_that_differ_in_version_and_timestamp_only_are_equal() {
    let a = record("d1", "One", T);
    let mut b = record("d1", "One", T + 5000);
    b.dashboard.version = 7;
    b.meta.version = 9;
    b.meta.created = Timestamp::new(T - 5, 3);
    b.dashboard.schema_version = 12;
    b.meta.folder_title = Some("Elsewhere".to_string());
    assert!(dashboards_equal(&a, &b));
    let state = state_of(2, vec![("a", vec![a]), ("b", vec![b])]);
    assert!(state.diff_at(Timestamp::new(T + 5000, 0), true, 10).is_empty());
}

#[test]
fn each_compared_field_matters() {
    let a = record("d1", "One", T);
    assert!(dashboards_equal(&a, &record("d1", "One", T)));
    assert!(!dashboards_equal(&a, &record("d2", "One", T)));
    assert!(!dashboards_equal(&a, &record("d1", "Two", T)));
    let mut b = record("d1", "One", T);
    b.dashboard.tags.push("more".to_string());
    assert!(!dashboards_equal(&a, &b));
    let mut b = record("d1", "One", T);
    b.dashboard.tags = vec!["other".to_string()];
    assert!(!dashboards_equal(&a, &b));
    let mut b = record("d1", "One", T);
    b.dashboard.panels = vec!["{\"id\":2}".to_string()];
    assert!(!dashboards_equal(&a, &b));
    let mut b = record("d1", "One", T);
    b.dashboard.graph_tooltip = 1;
    assert!(!dashboards_equal(&a, &b));
}

#[test]
fn the_order_of_the_tags_does_not_matter() {
    let mut a = record("d1", "One", T);
    a.dashboard.tags = vec!["x".to_string(), "y".to_string()];
    let mut b = a.clone();
    b.dashboard.tags = vec!["y".to_string(), "x".to_string()];
    assert!(dashboards_equal(&a, &b));
    assert!(dashboards_equal(&b, &a));
    let mut c = a.clone();
    c.dashboard.tags = vec!["y".to_string(), "x".to_string(), "y".to_string()];
    assert!(dashboards_equal(&a, &c));
    let mut d = a.clone();
    d.dashboard.tags = vec!["x".to_string()];
    assert!(!dashboards_equal(&a, &d));
    assert!(!dashboards_equal(&d, &a));
    let mut e = a.clone();
    e.dashboard.tags = vec!["x".to_string(), "z".to_string()];
    assert!(!dashboards_equal(&a, &e));
    let mut none = a.clone();
    none.dashboard.tags = Vec::new();
    assert!(!dashboards_equal(&a, &none));
    assert!(dashboards_equal(&none, &none.clone()));
    let state = state_of(2, vec![("a", vec![a]), ("b", vec![b])]);
    assert!(state.diff_at(Timestamp::new(T, 0), true, 10).is_empty());
}

#[test]
fn the_order_of_the_panels_matters() {
    let mut a = record("d1", "One", T);
    a.dashboard.panels = vec!["{\"id\":1}".to_string(), "{\"id\":2}".to_string()];
    let mut b = a.clone();
    b.dashboard.panels = vec!["{\"id\":2}".to_string(), "{\"id\":1}".to_string()];
    assert!(!dashboards_equal(&a, &b));
}

#[test]
fn equal_timestamps_go_to_the_first_instance_name() {
    let forward = state_of(
        2,
        vec![("http://b", vec![record("d1", "From b", T)]), ("http://a", vec![record("d1", "From a", T)])],
    );
    let backward = state_of(
        2,
        vec![("http://a", vec![record("d1", "From a", T)]), ("http://b", vec![record("d1", "From b", T)])],
    );
    for state in [forward, backward] {
        let decisions = state.diff_at(Timestamp::new(T, 0), false, 10);
        assert_eq!(decisions.len(), 1);
        assert_eq!(decisions[0].1.as_ref().unwrap().dashboard.title, "From a");
    }
}

#[test]
fn nanoseconds_decide_between_copies() {
    let mut late = record("d1", "Late", T);
    late.meta.updated = Timestamp::new(T, 2);
    let mut early = record("d1", "Early", T);
    early.meta.updated = Timestamp::new(T, 1);
    let state = state_of(2, vec![("a", vec![early]), ("b", vec![late])]);
    let decisions = state.diff_at(Timestamp::new(T, 5), false, 10);
    assert_eq!(decisions[0].1.as_ref().unwrap().dashboard.title, "Late");
}

#[test]
fn decisions_come_in_the_order_of_first_occurrence() {
    let state = state_of(
        3,
        vec![
            ("a", vec![record("x", "X", T), record("y", "Y", T)]),
            ("b", vec![record("z", "Z", T), record("y", "Y2", T + 1)]),
        ],
    );
    let decisions = state.diff_at(Timestamp::new(T + 1, 0), false, 10);
    let uids: Vec<&str> = decisions.iter().map(|d| d.0.as_str()).collect();
    assert_eq!(uids, vec!["x", "y", "z"]);
    assert_eq!(decisions[1].1.as_ref().unwrap().dashboard.title, "Y2");
}

#[test]
fn the_winner_is_carried_whole() {
    let mut d = record("d1", "One", T);
    d.dashboard.links = vec!["l".to_string()];
    d.dashboard.templating = "{\"list\":[]}".to_string();
    d.dashboard.time = Some("{\"from\":\"now-6h\"}".to_string());
    d.meta.folder_title = Some("Ops".to_string());
    d.meta.url = "/d/d1/one".to_string();
    d.meta.version = 4;
    d.meta.can_edit = true;
    let expected = d.clone();
    let state = state_of(2, vec![("a", vec![d])]);
    let decisions = state.diff_at(Timestamp::new(T, 0), false, 10);
    assert_eq!(decisions[0].1.as_ref().unwrap(), &expected);
}

#[test]
fn a_second_report_of_an_instance_replaces_the_first() {
    let mut state = DashboardState::new(2);
    state.add_set("a".to_string(), vec![record("d1", "One", T)]);
    state.add_set("b".to_string(), vec![record("d1", "One", T)]);
    state.add_set("a".to_string(), vec![record("d1", "Changed", T + 1), record("d2", "Two", T)]);
    assert_eq!(
        state.data_stats(),
        vec![("a".to_string(), 2usize), ("b".to_string(), 1usize)]
    );
    let decisions = state.diff_at(Timestamp::new(T + 1, 0), false, 10);
    assert_eq!(decisions.len(), 2);
    assert_eq!(decisions[0].1.as_ref().unwrap().dashboard.title, "Changed");
    assert_eq!(decisions[1].0, "d2");
}

#[test]
fn folder_titles_are_listed_once() {
    let mut a = record("d1", "One", T);
    a.meta.folder_title = Some("Ops/Alerts".to_string());
    let mut b = record("d2", "Two", T);
    b.meta.folder_title = Some("General".to_string());
    let mut c = record("d3", "Three", T);
    c.meta.folder_title = Some("Ops/Alerts".to_string());
    let d = record("d4", "Four", T);
    let mut e = record("d5", "Five", T);
    e.meta.folder_title = Some("Team".to_string());
    let state = state_of(2, vec![("a", vec![a, b]), ("b", vec![c, d, e])]);
    assert_eq!(state.unique_folders(), vec!["Ops/Alerts", "General", "Team"]);
}

#[test]
fn diff_reads_the_clock() {
    let recent = Timestamp::now();
    let mut fresh = record("d1", "Fresh", 0);
    fresh.meta.updated = recent;
    let state = state_of(2, vec![("a", vec![fresh, record("d2", "Ancient", 0)]), ("b", vec![])]);
    let decisions = state.diff(true, 10);
    assert_eq!(decisions.len(), 2);
    assert!(decisions[0].1.is_some());
    assert!(decisions[1].1.is_none());
    let kept = state.diff(false, 10);
    assert!(kept[1].1.is_some());
}

#[test]
fn the_order_of_the_reports_changes_no_decision() {
    let a = || ("http://a", vec![record("x", "X", T), record("y", "Y old", T), record("z", "Z", T + 9)]);
    let b = || ("http://b", vec![record("y", "Y new", T + 5), record("z", "Z other", T + 9)]);
    let c = || ("http://c", vec![record("w", "W", T - 7200), record("x", "X", T + 1)]);
    let orders: Vec<Vec<(&str, Vec<FullDashboard>)>> = vec![
        vec![a(), b(), c()],
        vec![a(), c(), b()],
        vec![b(), a(), c()],
        vec![b(), c(), a()],
        vec![c(), a(), b()],
        vec![c(), b(), a()],
    ];
    let mut seen: Option<Vec<(String, Option<FullDashboard>)>> = None;
    for sets in orders {
        let mut decisions = state_of(3, sets).diff_at(Timestamp::new(T + 10, 0), true, 10);
        decisions.sort_by(|l, r| l.0.cmp(&r.0));
        assert_eq!(decisions.len(), 4);
        assert!(decisions[0].1.is_none());
        assert_eq!(decisions[1].1.as_ref().unwrap().meta.updated, Timestamp::new(T + 1, 0));
        assert_eq!(decisions[2].1.as_ref().unwrap().dashboard.title, "Y new");
        assert_eq!(decisions[3].1.as_ref().unwrap().dashboard.title, "Z");
        match &seen {
            Some(first) => assert_eq!(first, &decisions),
            None => seen = Some(decisions),
        }
    }
}
