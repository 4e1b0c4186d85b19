use grafana_sync::config::{decimal, Config, RawConfig, RawInstance, Setting};
use grafana_sync::error::GSError;

fn found(url: &str, token: &str) -> RawInstance {
    RawInstance { url: Setting::Found(url.to_string()), api_token: Setting::Found(token.to_string()) }
}

fn raw(instances: Setting<Vec<RawInstance>>) -> RawConfig {
    RawConfig {
        sync_tag: Setting::Found("sync".to_string()),
        sync_rate_mins: Setting::Found(5),
        instances,
    }
}

fn missing_key(r: Result<Config, GSError>) -> String {
    match r {
        Err(GSError::ConfigKeyMissing(key)) => key,
        _ => panic!("a missing key was expected"),
    }
}

fn wrong_type(r: Result<Config, GSError>) -> (String, &'static str) {
    match r {
        Err(GSError::ConfigKeyTypeWrong(key, wanted)) => (key, wanted),
        _ => panic!("a wrong type was expected"),
    }
}

#[test]
fn numbers_in_decimal() {
    assert_eq!(decimal(0), "0");
    assert_eq!(decimal(7), "7");
    assert_eq!(decimal(10), "10");
    assert_eq!(decimal(109), "109");
    assert_eq!(decimal(1234567890), "1234567890");
    assert_eq!(decimal(usize::MAX), usize::MAX.to_string());
}

#[test]
fn a_full_configuration_stands() {
    let config = Config::from_raw(&raw(Setting::Found(vec![
        found("http://a:3000", "token-a"),
        found("http://b:3000", "token-b"),
    ])))
    .ok()
    .unwrap();
    assert_eq!(config.sync_tag, "sync");
    assert_eq!(config.sync_rate_mins, 5);
    assert_eq!(config.instances.len(), 2);
    assert_eq!(config.instances[0].base_url(), "http://a:3000");
    assert_eq!(config.instances[0].api_token().value(), "token-a");
    assert_eq!(config.instances[1].base_url(), "http://b:3000");
    assert_eq!(config.instances[1].api_token().value(), "token-b");
}

#[test]
fn missing_instances_are_no_error() {
    let config = Config::from_raw(&raw(Setting::Missing)).ok().unwrap();
    assert!(config.instances.is_empty());
    assert!(Config::collect_instances(&Setting::Found(Vec::new())).ok().unwrap().is_empty());
}

#[test]
fn instances_of_another_type_are_an_error() {
    assert_eq!(
        wrong_type(Config::from_raw(&raw(Setting::WrongType))),
        ("instances".to_string(), "Sequence")
    );
}

#[test]
fn the_sync_tag_is_looked_at_first() {
    let mut r = raw(Setting::WrongType);
    r.sync_tag = Setting::Missing;
    r.sync_rate_mins = Setting::Missing;
    assert_eq!(missing_key(Config::from_raw(&r)), "sync_tag");
    r.sync_tag = Setting::WrongType;
    assert_eq!(wrong_type(Config::from_raw(&r)), ("sync_tag".to_string(), "String"));
}

#[test]
fn the_sync_rate_is_looked_at_second() {
    let mut r = raw(Setting::WrongType);
    r.sync_rate_mins = Setting::Missing;
    assert_eq!(missing_key(Config::from_raw(&r)), "sync_rate_mins");
    r.sync_rate_mins = Setting::WrongType;
    assert_eq!(wrong_type(Config::from_raw(&r)), ("sync_rate_mins".to_string(), "u64"));
}

#[test]
fn the_first_faulty_instance_is_reported_with_its_index() {
    let mut list: Vec<RawInstance> = (0..13).map(|i| found(&format!("http://h{}", i), "t")).collect();
    list[12].api_token = Setting::Missing;
    assert_eq!(
        missing_key(Config::from_raw(&raw(Setting::Found(list.clone())))),
        "instances[12].api_token"
    );
    list[3].url = Setting::WrongType;
    assert_eq!(
        wrong_type(Config::from_raw(&raw(Setting::Found(list.clone())))),
        ("instances[3].url".to_string(), "String")
    );
    list[3].api_token = Setting::WrongType;
    list[3].url = Setting::Missing;
    assert_eq!(missing_key(Config::from_raw(&raw(Setting::Found(list.clone())))), "instances[3].url");
    list[3].url = Setting::Found("http://h3".to_string());
    assert_eq!(
        wrong_type(Config::from_raw(&raw(Setting::Found(list)))),
        ("instances[3].api_token".to_string(), "String")
    );
}

#[test]
fn a_token_that_no_header_can_hold_is_reported() {
    let list = vec![found("http://a", "fine"), found("http://b", "bro\nken")];
    assert!(matches!(
        Config::from_raw(&raw(Setting::Found(list))),
        Err(GSError::InvalidHeader(_))
    ));
}

#[test]
fn single_settings_are_read() {
    assert_eq!(
        Config::read_string_from_config(&Setting::Found("x".to_string()), "k").ok(),
        Some("x".to_string())
    );
    assert!(matches!(
        Config::read_string_from_config(&Setting::Missing, "a.b"),
        Err(GSError::ConfigKeyMissing(key)) if key == "a.b"
    ));
    assert!(matches!(
        Config::read_string_from_config(&Setting::WrongType, "k"),
        Err(GSError::ConfigKeyTypeWrong(key, "String")) if key == "k"
    ));
    assert_eq!(Config::read_u64_from_config(&Setting::Found(9), "k").ok(), Some(9));
    assert!(matches!(
        Config::read_u64_from_config(&Setting::Missing, "k"),
        Err(GSError::ConfigKeyMissing(key)) if key == "k"
    ));
    assert!(matches!(
        Config::read_u64_from_config(&Setting::WrongType, "k"),
        Err(GSError::ConfigKeyTypeWrong(key, "u64")) if key == "k"
    ));
}
