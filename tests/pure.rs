use resona::http::{build_url, HttpRequestParam};
use resona::request::{BodyType, HttpMethod};
use resona::settings::{
    default_max_history, default_timeout, default_true, AppSettings, Theme, UpdateSettingsInput,
};
use resona::variable::{resolve_layers, Variable, VariableScope};

fn var(name: &str, value: &str, scope: VariableScope) -> Variable {
    Variable {
        id: format!("{}-{}", name, value),
        name: name.to_string(),
        value: value.to_string(),
        scope,
        scope_id: None,
        is_secret: false,
        description: None,
        created_at: 0,
        updated_at: 0,
    }
}

fn param(key: &str, value: &str, enabled: bool) -> HttpRequestParam {
    HttpRequestParam { key: key.to_string(), value: value.to_string(), enabled }
}

#[test]
fn resolve_layers_later_layers_override() {
    let global = vec![var("X", "1", VariableScope::Global), var("Y", "g", VariableScope::Global)];
    let workspace = vec![var("X", "2", VariableScope::Workspace)];
    let collection = vec![var("X", "3", VariableScope::Collection)];
    let request = vec![var("X", "4", VariableScope::Request), var("A", "r", VariableScope::Request)];
    let r = resolve_layers(&global, &workspace, &collection, &request);
    let got: Vec<(String, String)> = r.iter().map(|v| (v.name.clone(), v.value.clone())).collect();
    assert_eq!(
        got,
        vec![
            ("A".to_string(), "r".to_string()),
            ("X".to_string(), "4".to_string()),
            ("Y".to_string(), "g".to_string()),
        ]
    );
    assert_eq!(r[1].scope, VariableScope::Request);
}

#[test]
fn resolve_layers_with_only_global() {
    let global = vec![var("X", "1", VariableScope::Global)];
    let r = resolve_layers(&global, &vec![], &vec![], &vec![]);
    assert_eq!(r.len(), 1);
    assert_eq!(r[0].value, "1");
    assert!(resolve_layers(&vec![], &vec![], &vec![], &vec![]).is_empty());
}

#[test]
fn build_url_encodes_enabled_params() {
    let params = vec![param("q", "a b&c", true), param("off", "x", false), param("", "empty", true), param("k~", "\u{e9}", true)];
    assert_eq!(build_url("https://h/p", &params), "https://h/p?q=a%20b%26c&k~=%C3%A9");
    assert_eq!(build_url("https://h/p?x=1", &params), "https://h/p?x=1&q=a%20b%26c&k~=%C3%A9");
    assert_eq!(build_url("https://h/p", &vec![param("off", "x", false)]), "https://h/p");
}

#[test]
fn settings_defaults() {
    assert_eq!(default_timeout(), 30000);
    assert!(default_true());
    assert_eq!(default_max_history(), 100);
    let s = AppSettings::default();
    assert_eq!(s.theme, Theme::System);
    assert!(s.custom_themes.is_empty());
    assert_eq!(s.default_timeout, 30000);
    assert!(s.follow_redirects && s.validate_ssl && s.auto_save_requests);
    assert_eq!(s.max_history_items, 100);
}

#[test]
fn settings_apply_takes_supplied_fields() {
    let mut s = AppSettings::default();
    s.apply(UpdateSettingsInput {
        theme: Some(Theme::Mocha),
        custom_themes: None,
        default_timeout: Some(5000),
        follow_redirects: None,
        validate_ssl: Some(false),
        max_history_items: None,
        auto_save_requests: None,
    });
    assert_eq!(s.theme, Theme::Mocha);
    assert_eq!(s.default_timeout, 5000);
    assert!(s.follow_redirects);
    assert!(!s.validate_ssl);
    assert_eq!(s.max_history_items, 100);
}

#[test]
fn enum_codes_round_trip() {
    for m in [HttpMethod::Get, HttpMethod::Post, HttpMethod::Put, HttpMethod::Patch, HttpMethod::Delete, HttpMethod::Head, HttpMethod::Options] {
        assert_eq!(HttpMethod::from_code(m.code()), Some(m));
    }
    for b in [BodyType::Empty, BodyType::Json, BodyType::Xml, BodyType::Text, BodyType::Html, BodyType::FormData, BodyType::XWwwFormUrlencoded] {
        assert_eq!(BodyType::from_code(b.code()), Some(b));
    }
    assert_eq!(HttpMethod::from_code(7), None);
    assert_eq!(HttpMethod::default(), HttpMethod::Get);
    assert_eq!(BodyType::default(), BodyType::Empty);
    assert_eq!(VariableScope::default(), VariableScope::Global);
    assert_eq!(VariableScope::Workspace.key_for("w1"), "workspace:w1");
    assert_eq!(VariableScope::Global.key_for("ignored"), "global");
}
