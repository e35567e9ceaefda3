use ipams_client::config::{get_config, init_config, update_config, AppConfig, ConfigCell};

fn some(s: &str) -> Option<String> {
    Some(s.to_string())
}

#[test]
fn default_addresses() {
    let c = AppConfig::default_with(&None, &None, &None, &None);
    assert_eq!(c.api_url, "http://localhost:8000");
    assert_eq!(c.web_url, "http://localhost:5173");
    assert_eq!(c.ws_port, 17892);
    assert_eq!(c.max_concurrent_chunks, 4);
    assert_eq!(c.chunk_size, 5242880);
}

#[test]
fn environment_wins_and_slashes_go() {
    let c = AppConfig::default_with(&some("https://a.example//"), &some("https://b"), &None, &some("https://w/"));
    assert_eq!(c.api_url, "https://a.example");
    assert_eq!(c.web_url, "https://w");
}

#[test]
fn settings_are_set_up_once() {
    let mut cell = ConfigCell::new();
    update_config(&mut cell, AppConfig::default_with(&some("x"), &None, &None, &None));
    assert!(!cell.is_initialized());
    init_config(&mut cell, AppConfig::default_with(&some("one"), &None, &None, &None));
    init_config(&mut cell, AppConfig::default_with(&some("two"), &None, &None, &None));
    assert_eq!(get_config(&cell).api_url, "one");
    update_config(&mut cell, AppConfig::default_with(&some("three"), &None, &None, &None));
    assert_eq!(get_config(&cell).api_url, "three");
}
