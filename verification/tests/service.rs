use grafana_sync::api::dashboards::{Folder, FullDashboard, ImportOutcome, Method};
use grafana_sync::config::Config;
use grafana_sync::encrypted_cred::EncryptedCredential;
use grafana_sync::instance::GrafanaInstance;
use grafana_sync::mirror::{FolderMap, FolderTable};
use grafana_sync::service::{
    collect_dashboards, every_instance_reported, failures_among, replicate_dashboards_on_instance,
    Action, ApplyStep, CycleReport, Phase, SyncService,
};
use grafana_sync::timestamp::Timestamp;

const T: i64 = 1_700_000_000;

fn instance(url: &str) -> GrafanaInstance {
    GrafanaInstance::new(url.to_string(), EncryptedCredential::new("token".to_string())).unwrap()
}

fn service(urls: &[&str], rate: u64) -> SyncService {
    SyncService::new(Config {
        instances: urls.iter().map(|u| instance(u)).collect(),
        sync_tag: "sync".to_string(),
        sync_rate_mins: rate,
    })
}

fn record(uid: &str, title: &str, folder: Option<&str>, updated: i64) -> FullDashboard {
    let mut d = FullDashboard::default();
    d.dashboard.uid = uid.to_string();
    d.dashboard.title = title.to_string();
    d.meta.folder_title = folder.map(|f| f.to_string());
    d.meta.updated = Timestamp::new(updated, 0);
    d
}

fn report(url: &str, dashboards: Vec<FullDashboard>) -> Option<(String, Vec<FullDashboard>)> {
    Some((url.to_string(), dashboards))
}

fn table(folders: &[(&str, &str)]) -> FolderTable {
    let mut t = FolderTable::new();
    for (title, uid) in folders {
        t.insert(Folder { id: 1, uid: uid.to_string(), title: title.to_string() });
    }
    t
}

fn requests(action: Action) -> Vec<(String, Vec<String>)> {
    match action {
        Action::Mirror(requests) => requests,
        other => panic!("folders were expected, not {:?}", other),
    }
}

fn asked(url: &str, titles: &[&str]) -> (String, Vec<String>) {
    (url.to_string(), titles.iter().map(|t| t.to_string()).collect())
}

fn folder(uid: &str, title: &str) -> Option<Folder> {
    Some(Folder { id: 1, uid: uid.to_string(), title: title.to_string() })
}

fn plans(action: Action) -> Vec<(String, Option<Vec<ApplyStep>>)> {
    match action {
        Action::Apply(plans) => plans,
        other => panic!("plans were expected, not {:?}", other),
    }
}

fn finished(action: Action) -> CycleReport {
    match action {
        Action::Finish(report) => report,
        other => panic!("the end of the cycle was expected, not {:?}", other),
    }
}

#[test]
fn a_cycle_runs_through_its_stages() {
    let mut s = service(&["http://a", "http://b"], 10);
    assert_eq!(s.phase(), Phase::Idle);
    assert_eq!(s.cycle(), 0);
    assert!(!s.phase().is_running());
    assert!(matches!(s.tick(), Action::Fetch(tag) if tag == "sync"));
    assert_eq!(s.phase(), Phase::Fetching);
    assert!(s.phase().is_running());

    let reports = vec![
        report("http://a", vec![record("d1", "One", Some("Ops"), T), record("d2", "Two", None, T)]),
        report("http://b", vec![record("d2", "Two", None, T)]),
    ];
    let wanted = requests(s.fetched_at(reports, Timestamp::new(T, 0)));
    assert_eq!(wanted, vec![asked("http://a", &["Ops"]), asked("http://b", &["Ops"])]);
    assert_eq!(s.phase(), Phase::Mirroring);

    let mut map = FolderMap::new();
    map.insert("http://a".to_string(), table(&[("Ops", "ops-a")]));
    map.insert("http://b".to_string(), table(&[("Ops", "ops-b")]));
    let plans = plans(s.mirrored_with(&map));
    assert_eq!(s.phase(), Phase::Applying);
    assert_eq!(plans.len(), 2);
    assert_eq!(plans[0].0, "http://a");
    assert_eq!(plans[1].0, "http://b");
    for (url, uid) in [(0usize, "ops-a"), (1usize, "ops-b")] {
        let steps = plans[url].1.as_ref().unwrap();
        assert_eq!(steps.len(), 1);
        match &steps[0] {
            ApplyStep::Import(request, body) => {
                assert_eq!(request.method, Method::Post);
                assert_eq!(request.url, format!("{}/api/dashboards/import", plans[url].0));
                assert_eq!(body.dashboard.uid, "d1");
                assert_eq!(body.folder_uid.as_deref(), Some(uid));
                assert!(body.overwrite);
                assert!(body.inputs.is_empty());
            }
            other => panic!("an import was expected, not {:?}", other),
        }
    }

    assert!(matches!(s.applied(&vec![ImportOutcome::Applied, ImportOutcome::Applied]), Action::Purge));
    assert_eq!(s.phase(), Phase::Purging);
    assert_eq!(
        finished(s.purged()),
        CycleReport { cycle: 0, completed: true, failures: 0 }
    );
    assert_eq!(s.phase(), Phase::Idle);
    assert_eq!(s.cycle(), 1);
}

#[test]
fn a_conflict_does_not_fail_the_cycle() {
    let mut s = service(&["http://a"], 10);
    s.tick();
    s.fetched_at(vec![report("http://a", vec![])], Timestamp::new(T, 0));
    s.mirrored_with(&FolderMap::new());
    let outcomes = vec![ImportOutcome::SkippedConflict, ImportOutcome::Applied, ImportOutcome::SkippedConflict];
    assert!(matches!(s.applied(&outcomes), Action::Purge));
    assert_eq!(finished(s.purged()), CycleReport { cycle: 0, completed: true, failures: 0 });
}

#[test]
fn failed_imports_are_counted_and_the_cycle_goes_on() {
    let mut s = service(&["http://a"], 10);
    s.tick();
    s.fetched_at(vec![report("http://a", vec![])], Timestamp::new(T, 0));
    s.mirrored_with(&FolderMap::new());
    let outcomes = vec![
        ImportOutcome::Error,
        ImportOutcome::SkippedConflict,
        ImportOutcome::Error,
        ImportOutcome::Applied,
    ];
    assert_eq!(failures_among(&outcomes), 2);
    assert!(matches!(s.applied(&outcomes), Action::Purge));
    assert_eq!(finished(s.purged()), CycleReport { cycle: 0, completed: true, failures: 2 });
    s.tick();
    s.fetched_at(vec![report("http://a", vec![])], Timestamp::new(T, 0));
    s.mirrored_with(&FolderMap::new());
    s.applied(&Vec::new());
    assert_eq!(finished(s.purged()), CycleReport { cycle: 1, completed: true, failures: 0 });
}

#[test]
fn a_failed_fetch_ends_the_cycle() {
    let mut s = service(&["http://a", "http://b"], 10);
    s.tick();
    let reports = vec![report("http://a", vec![record("d1", "One", None, T)]), None];
    assert!(!every_instance_reported(&reports));
    assert_eq!(
        finished(s.fetched_at(reports, Timestamp::new(T, 0))),
        CycleReport { cycle: 0, completed: false, failures: 0 }
    );
    assert_eq!(s.phase(), Phase::Idle);
    assert_eq!(s.cycle(), 1);
    assert!(matches!(s.tick(), Action::Fetch(_)));
}

#[test]
fn the_first_cycle_deletes_nothing() {
    let old = T - 25 * 60;
    let mut s = service(&["http://a", "http://b"], 10);
    for cycle in 0..2 {
        s.tick();
        let reports = vec![report("http://a", vec![record("d1", "One", None, old)]), report("http://b", vec![])];
        s.fetched_at(reports, Timestamp::new(T, 0));
        let mut map = FolderMap::new();
        map.insert("http://a".to_string(), FolderTable::new());
        map.insert("http://b".to_string(), FolderTable::new());
        let plans = plans(s.mirrored_with(&map));
        let steps = plans[1].1.as_ref().unwrap();
        assert_eq!(steps.len(), 1);
        if cycle == 0 {
            assert!(matches!(&steps[0], ApplyStep::Import(_, body) if body.dashboard.uid == "d1" && body.folder_uid.is_none()));
        } else {
            assert_eq!(steps[0], ApplyStep::Delete("d1".to_string()));
        }
        s.applied(&Vec::new());
        s.purged();
    }
    assert_eq!(s.cycle(), 2);
}

#[test]
fn what_does_not_fit_the_stage_is_ignored() {
    let mut s = service(&["http://a"], 10);
    assert!(matches!(s.fetched_at(vec![report("http://a", vec![])], Timestamp::new(T, 0)), Action::Ignore));
    assert!(matches!(s.mirrored_with(&FolderMap::new()), Action::Ignore));
    assert!(matches!(s.applied(&vec![ImportOutcome::Error]), Action::Ignore));
    assert!(matches!(s.purged(), Action::Ignore));
    assert_eq!((s.phase(), s.cycle()), (Phase::Idle, 0));
    s.tick();
    assert!(matches!(s.tick(), Action::Ignore));
    assert!(matches!(s.purged(), Action::Ignore));
    assert_eq!((s.phase(), s.cycle()), (Phase::Fetching, 0));
    s.fetched_at(vec![report("http://a", vec![])], Timestamp::new(T, 0));
    assert!(matches!(s.tick(), Action::Ignore));
    assert!(matches!(s.applied(&Vec::new()), Action::Ignore));
    assert_eq!(s.phase(), Phase::Mirroring);
}

#[test]
fn steps_for_one_instance() {
    let inst = instance("http://a");
    let decisions = vec![
        ("gone".to_string(), None),
        ("root".to_string(), Some(record("root", "Root", Some("General"), T))),
        ("bare".to_string(), Some(record("bare", "Bare", None, T))),
        ("ops".to_string(), Some(record("ops", "Ops", Some("Ops"), T))),
        ("lost".to_string(), Some(record("lost", "Lost", Some("Nowhere"), T))),
    ];
    let mut map = FolderMap::new();
    assert_eq!(replicate_dashboards_on_instance(&map, &decisions, &inst), None);
    map.insert("http://b".to_string(), table(&[("Nowhere", "n-b")]));
    assert_eq!(replicate_dashboards_on_instance(&map, &decisions, &inst), None);
    map.insert("http://a".to_string(), table(&[("Ops", "ops-a"), ("General", "g-a")]));
    let steps = replicate_dashboards_on_instance(&map, &decisions, &inst).unwrap();
    assert_eq!(steps.len(), 5);
    assert_eq!(steps[0], ApplyStep::Delete("gone".to_string()));
    assert!(matches!(&steps[1], ApplyStep::Import(_, body) if body.dashboard.uid == "root" && body.folder_uid.is_none()));
    assert!(matches!(&steps[2], ApplyStep::Import(_, body) if body.dashboard.uid == "bare" && body.folder_uid.is_none()));
    assert!(matches!(&steps[3], ApplyStep::Import(_, body) if body.dashboard.uid == "ops" && body.folder_uid.as_deref() == Some("ops-a")));
    assert_eq!(steps[4], ApplyStep::MissingFolder("lost".to_string(), "Nowhere".to_string()));
}

#[test]
fn an_instance_without_a_table_is_left_out() {
    let mut s = service(&["http://a", "http://b"], 10);
    s.tick();
    let reports = vec![report("http://a", vec![record("d1", "One", None, T)]), report("http://b", vec![])];
    s.fetched_at(reports, Timestamp::new(T, 0));
    let mut map = FolderMap::new();
    map.insert("http://b".to_string(), FolderTable::new());
    let plans = plans(s.mirrored_with(&map));
    assert_eq!(plans[0], ("http://a".to_string(), None));
    assert_eq!(plans[1].1.as_ref().unwrap().len(), 1);
}

#[test]
fn the_snapshot_counts_the_instances_of_the_configuration() {
    let mut s = service(&["http://a", "http://b", "http://c"], 10);
    s.tick();
    let same = || record("d1", "One", Some("Ops"), T);
    let reports = vec![report("http://a", vec![same()]), report("http://b", vec![same()])];
    assert_eq!(
        requests(s.fetched_at(reports, Timestamp::new(T, 0))),
        vec![asked("http://a", &["Ops"]), asked("http://b", &["Ops"]), asked("http://c", &["Ops"])]
    );

    let mut s = service(&["http://a", "http://b"], 10);
    s.tick();
    let reports = vec![report("http://a", vec![same()]), report("http://b", vec![same()])];
    assert_eq!(
        requests(s.fetched_at(reports, Timestamp::new(T, 0))),
        vec![asked("http://a", &[]), asked("http://b", &[])]
    );
}

#[test]
fn reports_make_a_snapshot_in_their_order() {
    let reports = vec![
        report("http://b", vec![record("d1", "One", None, T)]),
        report("http://a", vec![]),
        report("http://b", vec![record("d2", "Two", None, T), record("d3", "Three", None, T)]),
    ];
    assert!(every_instance_reported(&reports));
    let state = collect_dashboards(reports, 2);
    assert_eq!(
        state.data_stats(),
        vec![("http://b".to_string(), 2usize), ("http://a".to_string(), 0usize)]
    );
    assert!(every_instance_reported(&Vec::new()));
}

#[test]
fn fetched_reconciles_at_the_time_of_the_clock() {
    let mut s = service(&["http://a", "http://b"], 10);
    s.tick();
    s.fetched_at(vec![report("http://a", vec![]), report("http://b", vec![])], Timestamp::new(T, 0));
    s.mirrored_with(&FolderMap::new());
    s.applied(&Vec::new());
    s.purged();
    s.tick();
    let mut fresh = record("new", "New", Some("Ops"), 0);
    fresh.meta.updated = Timestamp::now();
    let reports = vec![
        report("http://a", vec![record("old", "Old", Some("Attic"), 0), fresh]),
        report("http://b", vec![]),
    ];
    assert_eq!(
        requests(s.fetched(reports)),
        vec![asked("http://a", &["Ops"]), asked("http://b", &["Ops"])]
    );
}

#[test]
fn the_tick_comes_every_sync_rate_minutes() {
    assert_eq!(service(&[], 10).tick_seconds(), 600);
    assert_eq!(service(&[], 0).tick_seconds(), 0);
    assert_eq!(service(&[], u64::MAX / 60).tick_seconds(), u64::MAX / 60 * 60);
    assert_eq!(service(&[], u64::MAX / 60 + 1).tick_seconds(), u64::MAX);
    let s = service(&["http://a"], 3);
    assert_eq!(s.config().sync_tag, "sync");
    assert_eq!(s.config().instances[0].base_url(), "http://a");
}

#[test]
fn five_winners_in_one_folder_ask_each_instance_once() {
    let mut s = service(&["http://a", "http://b", "http://c"], 10);
    s.tick();
    let five: Vec<FullDashboard> = (0..5)
        .map(|i| record(&format!("d{}", i), "D", Some("Ops/Alerts"), T))
        .collect();
    let reports = vec![report("http://a", five), report("http://b", vec![]), report("http://c", vec![])];
    assert_eq!(
        requests(s.fetched_at(reports, Timestamp::new(T, 0))),
        vec![
            asked("http://a", &["Ops/Alerts"]),
            asked("http://b", &["Ops/Alerts"]),
            asked("http://c", &["Ops/Alerts"]),
        ]
    );
}

#[test]
fn every_instance_gets_a_table_of_its_own_answers() {
    let s = service(&["http://a", "http://b", "http://c", "http://d"], 10);
    let answers = vec![
        vec![folder("ops-a", "Ops"), folder("team-a", "Team")],
        vec![None, folder("team-b", "Team")],
        vec![None, None],
    ];
    let map = s.mirror_folders(&answers);
    let a = map.get("http://a").unwrap();
    assert_eq!(a.get("Ops").unwrap().uid, "ops-a");
    assert_eq!(a.get("Team").unwrap().uid, "team-a");
    let b = map.get("http://b").unwrap();
    assert!(b.get("Ops").is_none());
    assert_eq!(b.get("Team").unwrap().uid, "team-b");
    let c = map.get("http://c").unwrap();
    assert!(c.get("Ops").is_none() && c.get("Team").is_none());
    let d = map.get("http://d").unwrap();
    assert!(d.get("Ops").is_none() && d.get("Team").is_none());
    assert!(map.get("http://e").is_none());
}

#[test]
fn the_answers_of_the_fleet_lead_to_the_steps() {
    let mut s = service(&["http://a", "http://b"], 10);
    s.tick();
    let reports = vec![
        report("http://a", vec![record("d1", "One", Some("Ops"), T)]),
        report("http://b", vec![]),
    ];
    s.fetched_at(reports, Timestamp::new(T, 0));
    let answers = vec![vec![folder("ops-a", "Ops")], vec![None]];
    let plans = plans(s.mirrored(&answers));
    assert_eq!(s.phase(), Phase::Applying);
    assert_eq!(plans.len(), 2);
    assert!(matches!(
        &plans[0].1.as_ref().unwrap()[0],
        ApplyStep::Import(_, body) if body.folder_uid.as_deref() == Some("ops-a")
    ));
    assert_eq!(
        plans[1].1.as_ref().unwrap()[0],
        ApplyStep::MissingFolder("d1".to_string(), "Ops".to_string())
    );
    assert!(matches!(s.mirrored(&answers), Action::Ignore));
}
