use grafana_sync::api::dashboards::{
    DashboardImportBody, Folder, FullDashboard, ImportOutcome, Method, Request, SimpleDashboard,
};
use grafana_sync::api::folders::find_folder;
use grafana_sync::encrypted_cred::EncryptedCredential;
use grafana_sync::instance::GrafanaInstance;

fn instance() -> GrafanaInstance {
    GrafanaInstance::new(
        "http://grafana:3000".to_string(),
        EncryptedCredential::new("token".to_string()),
    )
    .unwrap()
}

fn plain(method: Method, url: &str) -> Request {
    Request { method, url: url.to_string(), query: Vec::new() }
}

fn searched(key: &str, value: &str) -> Request {
    Request {
        method: Method::Get,
        url: "http://grafana:3000/api/search".to_string(),
        query: vec![
            (key.to_string(), value.to_string()),
            ("permission".to_string(), "View".to_string()),
            ("sort".to_string(), "alpha-asc".to_string()),
        ],
    }
}

fn summary(uid: &str, title: &str) -> SimpleDashboard {
    let mut s = SimpleDashboard::default();
    s.uid = uid.to_string();
    s.title = title.to_string();
    s
}

#[test]
fn requests_for_dashboards() {
    let inst = instance();
    assert_eq!(inst.get_tags(), plain(Method::Get, "http://grafana:3000/api/dashboards/tags"));
    assert_eq!(inst.get_dashboards_by_tag("sync"), searched("tag", "sync"));
    assert_eq!(inst.get_dashboards_in_folder("f-1"), searched("folderUIDs", "f-1"));
    assert_eq!(
        inst.get_dashboard_full("abc"),
        plain(Method::Get, "http://grafana:3000/api/dashboards/uid/abc")
    );
    assert_eq!(
        inst.delete_dashboard("abc"),
        plain(Method::Delete, "http://grafana:3000/api/dashboards/uid/abc")
    );
}

#[test]
fn requests_for_folders() {
    let inst = instance();
    assert_eq!(inst.list_folders(), plain(Method::Get, "http://grafana:3000/api/folders"));
    assert_eq!(inst.create_folder(), plain(Method::Post, "http://grafana:3000/api/folders"));
    assert_eq!(
        inst.delete_folder("f-1"),
        plain(Method::Delete, "http://grafana:3000/api/folders/f-1")
    );
}

#[test]
fn one_request_for_each_summary() {
    let inst = instance();
    let requests = inst.get_dashboard_full_bulk(&vec![summary("a", "A"), summary("b", "B")]);
    assert_eq!(
        requests,
        vec![
            plain(Method::Get, "http://grafana:3000/api/dashboards/uid/a"),
            plain(Method::Get, "http://grafana:3000/api/dashboards/uid/b"),
        ]
    );
    assert!(inst.get_dashboard_full_bulk(&Vec::new()).is_empty());
}

#[test]
fn dashboards_are_deleted_by_title() {
    let inst = instance();
    let found = vec![summary("a", "Keep"), summary("b", "Drop"), summary("c", "Drop"), summary("d", "drop")];
    assert_eq!(
        inst.delete_dashboards_in_folder_by_name(&found, "Drop"),
        vec![
            plain(Method::Delete, "http://grafana:3000/api/dashboards/uid/b"),
            plain(Method::Delete, "http://grafana:3000/api/dashboards/uid/c"),
        ]
    );
    assert!(inst.delete_dashboards_in_folder_by_name(&found, "None").is_empty());
}

#[test]
fn an_import_carries_the_body_and_the_folder_of_the_destination() {
    let inst = instance();
    let mut d = FullDashboard::default();
    d.dashboard.uid = "d1".to_string();
    d.dashboard.title = "One".to_string();
    d.dashboard.panels = vec!["{}".to_string()];
    d.meta.folder_uid = Some("folder-on-source".to_string());
    d.meta.folder_id = Some(17);
    let folder = Folder { id: 4, uid: "folder-on-destination".to_string(), title: "Ops".to_string() };
    let (request, body) = inst.import_dashboard(&d, Some(&folder), true);
    assert_eq!(request, plain(Method::Post, "http://grafana:3000/api/dashboards/import"));
    assert_eq!(
        body,
        DashboardImportBody {
            dashboard: d.dashboard.clone(),
            folder_uid: Some("folder-on-destination".to_string()),
            inputs: Vec::new(),
            overwrite: true,
        }
    );
    let (_, body) = inst.import_dashboard(&d, None, false);
    assert_eq!(body.folder_uid, None);
    assert!(!body.overwrite);
    assert_eq!(DashboardImportBody::new(&d, None, false), body);
}

#[test]
fn a_conflict_is_a_skip_and_no_error() {
    assert_eq!(ImportOutcome::from_status(412), ImportOutcome::SkippedConflict);
    assert!(!ImportOutcome::from_status(412).is_failure());
}

#[test]
fn client_and_server_errors_fail_an_import() {
    for status in [400u16, 401, 404, 411, 413, 499, 500, 503, 599] {
        assert_eq!(ImportOutcome::from_status(status), ImportOutcome::Error);
        assert!(ImportOutcome::from_status(status).is_failure());
    }
    for status in [100u16, 200, 201, 204, 302, 399, 600, 999] {
        assert_eq!(ImportOutcome::from_status(status), ImportOutcome::Applied);
        assert!(!ImportOutcome::from_status(status).is_failure());
    }
}

#[test]
fn the_first_folder_of_a_title_is_found() {
    let folders = vec![
        Folder { id: 1, uid: "a".to_string(), title: "Ops".to_string() },
        Folder { id: 2, uid: "b".to_string(), title: "Team".to_string() },
        Folder { id: 3, uid: "c".to_string(), title: "Team".to_string() },
    ];
    assert_eq!(find_folder(&folders, "Team").unwrap().id, 2);
    assert_eq!(find_folder(&folders, "Ops").unwrap().id, 1);
    assert!(find_folder(&folders, "team").is_none());
    assert!(find_folder(&Vec::new(), "Ops").is_none());
}

#[test]
fn only_an_empty_folder_that_is_not_the_root_is_removed() {
    let inst = instance();
    let ops = Folder { id: 1, uid: "f-ops".to_string(), title: "Ops".to_string() };
    let root = Folder { id: 0, uid: "f-root".to_string(), title: "General".to_string() };
    assert_eq!(
        inst.remove_if_empty(&ops, &Vec::new()),
        Some(plain(Method::Delete, "http://grafana:3000/api/folders/f-ops"))
    );
    assert_eq!(inst.remove_if_empty(&ops, &vec![summary("a", "A")]), None);
    assert_eq!(inst.remove_if_empty(&root, &Vec::new()), None);
}
