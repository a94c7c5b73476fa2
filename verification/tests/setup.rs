use linear_cli::commands::setup::{
    apply_setup, choose_team, entered_key, select_team_key, setup_payload, summary_lines,
    team_lines, TeamChoice,
};
use linear_cli::config::{get_stored_default_team, Config, Environment};
use linear_cli::json::Json;
use linear_cli::json_text::parse_json;

fn json(text: &str) -> Json {
    parse_json(text).unwrap()
}

#[test]
fn select_team_by_number() {
    let teams = vec![
        json(r#"{"key": "ENG", "name": "Engineering"}"#),
        json(r#"{"key": "OPS", "name": "Operations"}"#),
    ];
    assert_eq!(select_team_key(&teams, "2").as_deref(), Some("OPS"));
}

#[test]
fn select_team_by_key() {
    let teams = vec![json(r#"{"key": "ENG", "name": "Engineering"}"#)];
    assert_eq!(select_team_key(&teams, "eng").as_deref(), Some("ENG"));
}

#[test]
fn select_team_invalid() {
    let teams = vec![json(r#"{"key": "ENG", "name": "Engineering"}"#)];
    assert!(select_team_key(&teams, "99").is_none());
    assert!(select_team_key(&teams, "nope").is_none());
}

#[test]
fn team_number_zero_selects_nothing() {
    let teams = vec![json(r#"{"key": "ENG", "name": "Engineering"}"#)];
    assert!(select_team_key(&teams, "0").is_none());
    assert_eq!(select_team_key(&teams, "1").as_deref(), Some("ENG"));
    assert_eq!(team_lines(&teams).len(), 1);
}

#[test]
fn blank_team_choice_is_skipped() {
    let teams = vec![json(r#"{"key": "ENG", "name": "Engineering"}"#)];
    assert!(matches!(choose_team(&teams, ""), TeamChoice::Skipped));
    assert!(matches!(choose_team(&teams, "nope"), TeamChoice::Invalid));
    match choose_team(&teams, " eng ") {
        TeamChoice::Chosen(key) => assert_eq!(key, "ENG"),
        other => panic!("{:?}", other),
    }
}

#[test]
fn setup_needs_a_key() {
    assert!(entered_key("  ").is_err());
    assert_eq!(entered_key(" key \n").unwrap(), "key");
}

#[test]
fn setup_stores_key_and_team() {
    let env = Environment {
        profile: None,
        team: None,
        api_key: None,
    };
    let mut config = Config::default();
    apply_setup(&mut config, &env, "lin_api_x", &Some("ENG".to_string())).unwrap();
    assert_eq!(config.current.as_deref(), Some("default"));
    assert_eq!(
        config.workspaces.get("default").unwrap().api_key,
        "lin_api_x"
    );
    assert_eq!(
        get_stored_default_team(&config, &env).as_deref(),
        Some("ENG")
    );
    assert!(!summary_lines(&Some("ENG".to_string())).is_empty());
    assert!(setup_payload(&None).is_object());
}
