use linear_cli::commands::statuses::{
    cache_entry, can_use_cache, get_request, get_statuses, lines_of_status, list_payload,
    list_statuses, position_of, read_cached, safe_terminal_value, update_status, updated_status,
    StatusCommands, StatusFields, TeamStatuses, TypeStyle,
};
use linear_cli::commands::update::UpdatePlan;
use linear_cli::json::{Json, JsonNumber};
use linear_cli::json_text::parse_json;
use linear_cli::pagination::PaginationOptions;

fn json(text: &str) -> Json {
    parse_json(text).unwrap()
}

fn statuses() -> TeamStatuses {
    TeamStatuses {
        team_name: "Engineering".to_string(),
        states: vec![json(
            r##"{"id":"s1","name":"Todo","type":"unstarted","color":"#fff","position":1.5}"##,
        )],
    }
}

#[test]
fn details_of_statuses_need_ids() {
    let get = StatusCommands::Get {
        ids: vec![],
        team: Some("ENG".to_string()),
    };
    assert!(get.check().is_err());
    assert_eq!(get.team().as_deref(), Some("ENG"));
    assert!(StatusCommands::List { team: None }.check().is_ok());
}

#[test]
fn cache_serves_plain_listings_only() {
    assert!(can_use_cache(false, &PaginationOptions::default()));
    assert!(!can_use_cache(true, &PaginationOptions::default()));
    let limited = PaginationOptions {
        limit: Some(1),
        ..Default::default()
    };
    assert!(!can_use_cache(false, &limited));
}

#[test]
fn cached_statuses_are_read_back() {
    let read = read_cached(&Some(cache_entry(&statuses()))).unwrap();
    assert_eq!(read.team_name, "Engineering");
    assert_eq!(read.states, statuses().states);
    assert!(read_cached(&None).is_none());
    assert!(read_cached(&Some(json(r#"{"states":[]}"#))).is_none());
    assert_eq!(
        list_payload(&statuses()).at("team").as_str(),
        Some("Engineering")
    );
}

#[test]
fn status_rows_are_shown() {
    let rows = list_statuses(&statuses().states, None);
    assert_eq!(rows[0].name, "Todo");
    assert_eq!(rows[0].style, TypeStyle::Unstarted);
    assert_eq!(
        rows[0].position,
        Some(JsonNumber::Decimal("1.5".to_string()))
    );
    assert!(position_of(&json("{}")).is_none());
    assert_eq!(safe_terminal_value("a\u{1b}[1mb"), "ab");
}

#[test]
fn statuses_are_found_by_id_or_name_or_missing() {
    let response = json(
        r#"{"data":{"team":{"states":{"nodes":[{"id":"s1","name":"Todo"},{"id":"s2","name":"Done"}]}}}}"#,
    );
    let wanted = vec!["s2".to_string(), "todo".to_string(), "nope".to_string()];
    let found = get_statuses(&response, &wanted, "ENG").unwrap();
    assert_eq!(found.found.len() + found.missing.len(), 3);
    assert!(found.missing.contains(&"nope".to_string()));
    assert_eq!(found.found[0].at("name").as_str(), Some("Done"));
    assert!(get_statuses(&json(r#"{"data":{"team":null}}"#), &wanted, "ENG").is_err());
    assert!(get_request("t").variables.is_some());
    assert!(lines_of_status(&found.found[0], "1").contains(&"ID: s2".to_string()));
}

#[test]
fn status_update_needs_a_field() {
    let none = StatusFields {
        name: None,
        color: None,
        description: None,
    };
    assert!(matches!(update_status("s", &none, false), UpdatePlan::Nothing));
    let named = StatusFields {
        name: Some("New".to_string()),
        color: None,
        description: None,
    };
    assert!(matches!(update_status("s", &named, true), UpdatePlan::Preview(_)));
    match update_status("s", &named, false) {
        UpdatePlan::Send(request) => {
            let variables = request.variables.unwrap();
            assert_eq!(variables.at("id").as_str(), Some("s"));
            assert_eq!(variables.at("input").at("name").as_str(), Some("New"));
        }
        other => panic!("{:?}", other),
    }
    assert!(updated_status(&json("{}")).is_err());
}
