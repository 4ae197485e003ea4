use elowen_api::config::{
    join_settings, list_from, logs_json, parse_bool, parse_list, parse_unsigned, service_url,
    session_ttl, RawSettings, Settings,
};
use elowen_api::scan::decimal;

fn strings(values: &[&str]) -> Vec<String> {
    values.iter().map(|value| value.to_string()).collect()
}

fn unset() -> RawSettings {
    RawSettings {
        notes_url: None,
        assistant_api_key: None,
        assistant_model: None,
        assistant_base_url: None,
        auth_config_path: None,
        auth_password: None,
        auth_operator_label: None,
        auth_cookie_name: None,
        auth_cookie_secure: None,
        auth_session_days: None,
        require_trusted_edge_registration: None,
        port: None,
    }
}

#[test]
fn yes_has_four_forms() {
    for value in ["1", "true", " YES ", "On"] {
        assert!(parse_bool(value), "{value}");
    }
    for value in ["", "0", "false", "no", "off", "yes!", "2", "truee"] {
        assert!(!parse_bool(value), "{value}");
    }
}

#[test]
fn numbers_are_read_like_std_reads_them() {
    for value in [
        "0", "7", "+7", "007", "18446744073709551615", "18446744073709551616", "+", "", "-1", " 1",
        "1 ", "1a", "++1", "99999999999999999999999", "٣",
    ] {
        assert_eq!(parse_unsigned(value, u64::MAX), value.parse::<u64>().ok(), "{value:?}");
        assert_eq!(
            parse_unsigned(value, u64::from(u16::MAX)),
            value.parse::<u16>().ok().map(u64::from),
            "{value:?}"
        );
    }
    assert_eq!(parse_unsigned("65535", 65_535), Some(65_535));
    assert_eq!(parse_unsigned("65536", 65_535), None);
}

#[test]
fn written_numbers_come_back() {
    for n in [0u64, 9, 10, 14, 86_400, u64::MAX] {
        assert_eq!(parse_unsigned(&decimal(n), u64::MAX), Some(n));
    }
}

#[test]
fn lists_have_commas_or_are_arrays() {
    assert_eq!(parse_list(" a, b ,,c "), Some(strings(&["a", "b", "c"])));
    assert_eq!(parse_list(""), Some(Vec::new()));
    assert_eq!(parse_list(" [\"a\", \" b \", \"\"] "), Some(strings(&["a", "b"])));
    assert_eq!(parse_list("[\"a,b\"]"), Some(strings(&["a,b"])));
    assert_eq!(parse_list("[1]"), None);
    assert_eq!(parse_list("[a, b"), None);
    assert_eq!(list_from("[x", Some(strings(&[" x ", " "]))), Some(strings(&["x"])));
    assert_eq!(list_from("x", Some(strings(&["y"]))), Some(strings(&["x"])));
    assert_eq!(list_from("[x", None), None);
}

#[test]
fn one_setting_comes_before_the_list() {
    assert_eq!(join_settings(Some(" a "), strings(&["b"])), strings(&["a", "b"]));
    assert_eq!(join_settings(Some("  "), strings(&["b"])), strings(&["b"]));
    assert_eq!(join_settings(None, Vec::new()), Vec::<String>::new());
}

#[test]
fn settings_have_defaults() {
    let settings = Settings::read(unset());
    assert_eq!(settings.notes_url, "http://elowen-notes:8080");
    assert_eq!(settings.assistant_api_key, None);
    assert_eq!(settings.assistant_model, "gpt-4.1-mini");
    assert_eq!(settings.assistant_base_url, "https://api.openai.com/v1");
    assert_eq!(settings.auth_config_path, None);
    assert_eq!(settings.auth_password, None);
    assert_eq!(settings.auth_operator_label, "Operator");
    assert_eq!(settings.auth_cookie_name, "elowen_session");
    assert!(!settings.auth_cookie_secure);
    assert_eq!(settings.auth_session_days, 14);
    assert!(!settings.require_trusted_edge_registration);
    assert_eq!(settings.port, 8080);
}

#[test]
fn own_addresses_come_first() {
    let own = || Some("own".to_string());
    let common = || Some("common".to_string());
    assert_eq!(service_url(own(), common()), own());
    assert_eq!(service_url(None, common()), common());
    assert_eq!(service_url(own(), None), own());
    assert_eq!(service_url(None, None), None);
}

#[test]
fn settings_follow_the_environment() {
    let some = |value: &str| Some(value.to_string());
    let settings = Settings::read(RawSettings {
        notes_url: some("http://notes//"),
        assistant_api_key: some("  key "),
        assistant_model: some(" model "),
        assistant_base_url: some("https://host/v1/"),
        auth_config_path: some("   "),
        auth_password: some(" pass "),
        auth_operator_label: some("  "),
        auth_cookie_name: some(" c "),
        auth_cookie_secure: some("yes"),
        auth_session_days: some("3"),
        require_trusted_edge_registration: some("TRUE"),
        port: some("70000"),
    });
    assert_eq!(settings.notes_url, "http://notes");
    assert_eq!(settings.assistant_api_key.as_deref(), Some("key"));
    assert_eq!(settings.assistant_model, "model");
    assert_eq!(settings.assistant_base_url, "https://host/v1");
    assert_eq!(settings.auth_config_path, None);
    assert_eq!(settings.auth_password.as_deref(), Some("pass"));
    assert_eq!(settings.auth_operator_label, "");
    assert_eq!(settings.auth_cookie_name, "c");
    assert!(settings.auth_cookie_secure);
    assert_eq!(settings.auth_session_days, 3);
    assert!(settings.require_trusted_edge_registration);
    assert_eq!(settings.port, 8080);
    let days = Settings::read(RawSettings { auth_session_days: some("three"), ..unset() });
    assert_eq!(days.auth_session_days, 14);
}

#[test]
fn days_and_log_format() {
    assert_eq!(session_ttl(14), 1_209_600);
    assert_eq!(session_ttl(0), 0);
    assert!(logs_json(Some("JSON")));
    assert!(!logs_json(Some(" json")));
    assert!(!logs_json(None));
}
