use linear_cli::commands::cycles::{
    complete_request, complete_request_at, completed_cycle, completed_line, create_request,
    created_cycle, current_cycle, current_request, date_text, delete_request, deleted_cycle,
    found_cycle, found_team, get_cycle, get_request, keep_listed, lines_of_created, list_cycles,
    list_payload, show_current_issue, show_cycle_issue, team_name, team_variables, title_of,
    update_cycle, updated_cycle, CycleCommands, CycleFields, StateStyle,
};
use linear_cli::commands::update::UpdatePlan;
use linear_cli::config::{Environment, TEAM_REQUIRED};
use linear_cli::json::Json;
use linear_cli::json_text::parse_json;
use linear_cli::types::read_cycle;

fn json(text: &str) -> Json {
    parse_json(text).unwrap()
}

fn cycles() -> Vec<Json> {
    vec![
        json(
            r#"{"id":"c1","name":"One","number":1,"startsAt":"2024-01-01T00:00:00Z",
                "endsAt":"2024-01-14T00:00:00Z","completedAt":null,"progress":0.25}"#,
        ),
        json(r#"{"id":"c2","number":2,"completedAt":"2024-01-01T00:00:00Z"}"#),
    ]
}

fn no_fields() -> CycleFields {
    CycleFields {
        name: None,
        description: None,
        starts_at: None,
        ends_at: None,
    }
}

#[test]
fn cycles_of_a_team_need_one() {
    let env = Environment {
        profile: None,
        team: None,
        api_key: None,
    };
    let get = CycleCommands::Get {
        id: "c1".to_string(),
    };
    assert!(get.team(None, &env).is_none());
    let given = CycleCommands::Current {
        team: Some(" ENG ".to_string()),
    };
    assert_eq!(given.team(None, &env).unwrap().unwrap(), "ENG");
    let none = CycleCommands::List {
        team: None,
        all: false,
    };
    let failure = none.team(None, &env).unwrap().unwrap_err();
    assert_eq!(failure.to_string(), TEAM_REQUIRED);
}

#[test]
fn team_of_cycles_is_named() {
    let cached = Some(json(r#"[{"id":"t1","name":"Engineering"}]"#));
    assert_eq!(team_name(&cached, "t1", "ENG"), "Engineering");
    assert_eq!(team_name(&cached, "t2", "ENG"), "ENG");
    assert_eq!(team_name(&None, "t1", "ENG"), "ENG");
    assert_eq!(team_variables("t1").at("teamId").as_str(), Some("t1"));
}

#[test]
fn completed_cycles_are_left_out() {
    assert_eq!(keep_listed(&cycles(), false).len(), 1);
    assert_eq!(keep_listed(&cycles(), true).len(), 2);
    let rows = list_cycles(&cycles(), None);
    assert_eq!(rows[0].name, "One");
    assert_eq!(rows[0].number, "1");
    assert_eq!(rows[0].status, "Active");
    assert_eq!(rows[0].start_date, "2024-01-01");
    assert_eq!(rows[1].status, "Completed");
    assert_eq!(rows[1].name, "-");
    assert_eq!(
        list_payload("E", &cycles()).at("cycles").items().len(),
        2
    );
}

#[test]
fn cycle_is_shown_with_its_team() {
    let cycle = read_cycle(&cycles()[0]).unwrap();
    assert_eq!(title_of(&cycle), "One");
    let lines = get_cycle(&cycle, &json(r#"{"name":"Engineering","key":"ENG"}"#), "25%");
    assert_eq!(
        lines,
        vec![
            "Team: Engineering (ENG)",
            "Number: 1",
            "Start: 2024-01-01",
            "End: 2024-01-14",
            "Progress: 25%",
            "Status: Active",
            "ID: c1"
        ]
    );
    let lines = current_cycle(&cycle, "E", "25%");
    assert_eq!(lines[1], "Cycle Number: 1");
    let unnamed = read_cycle(&cycles()[1]).unwrap();
    assert_eq!(title_of(&unnamed), "Cycle 2");
    assert_eq!(date_text(&None), "-");
    assert_eq!(date_text(&Some("2024".to_string())), "2024");
}

#[test]
fn issues_of_a_cycle_are_shown() {
    let issue = json(
        r#"{"identifier":"LIN-1","title":"T","state":{"name":"Done","type":"completed"},
            "assignee":{"name":"Jo"}}"#,
    );
    let shown = show_cycle_issue(&issue, None);
    assert_eq!(shown.identifier, "LIN-1");
    assert_eq!(shown.style, StateStyle::Completed);
    assert_eq!(shown.assignee, "Jo");
    // The active cycle shows a state only where its ID is known.
    assert_eq!(show_current_issue(&issue, None).state, "");
    let known = json(
        r#"{"id":"i","identifier":"LIN-1","title":"T","state":{"id":"s","name":"Done","type":"completed"}}"#,
    );
    let shown = show_current_issue(&known, None);
    assert_eq!(shown.state, "Done");
    assert_eq!(shown.style, StateStyle::Completed);
    assert_eq!(shown.assignee, "-");
}

#[test]
fn missing_cycle_and_team_are_reported() {
    let response = json(r#"{"data":{"cycle":null,"team":null}}"#);
    assert_eq!(
        found_cycle(&response, "c9").unwrap_err().to_string(),
        "Cycle not found: c9"
    );
    assert_eq!(
        found_team(&response, "ENG").unwrap_err().to_string(),
        "Team not found: ENG"
    );
    assert!(get_request("c1").variables.is_some());
    assert!(current_request("t1").variables.is_some());
}

#[test]
fn cycle_changes_are_sent() {
    let mut fields = no_fields();
    assert!(matches!(update_cycle("c1", &fields, false), UpdatePlan::Nothing));
    fields.name = Some("New".to_string());
    assert!(matches!(update_cycle("c1", &fields, true), UpdatePlan::Preview(_)));
    assert!(matches!(update_cycle("c1", &fields, false), UpdatePlan::Send(_)));
    let variables = create_request("t1", &fields).variables.unwrap();
    assert_eq!(variables.at("input").at("teamId").as_str(), Some("t1"));
    assert_eq!(variables.at("input").at("name").as_str(), Some("New"));
    let at = complete_request_at("c1", "2024").variables.unwrap();
    assert_eq!(at.at("input").at("completedAt").as_str(), Some("2024"));
    let now = complete_request("c1").variables.unwrap();
    let stamp = now.at("input").at("completedAt").as_str().unwrap().to_string();
    let completed = chrono::DateTime::parse_from_rfc3339(&stamp).unwrap();
    let age = chrono::Utc::now().timestamp() - completed.timestamp();
    assert!((0..60).contains(&age));
}

#[test]
fn cycle_is_deleted_by_force_or_agreement() {
    assert_eq!(
        delete_request("c1", false, false).unwrap_err().to_string(),
        "Delete requires --force flag. Use: linear cycles delete c1 --force"
    );
    assert!(delete_request("c1", true, false).is_ok());
    assert!(delete_request("c1", false, true).is_ok());
    let done = json(r#"{"data":{"cycleDelete":{"success":true}}}"#);
    assert_eq!(deleted_cycle(&done, "c1").unwrap(), "Cycle c1 deleted.");
    assert_eq!(
        deleted_cycle(&json("{}"), "c1").unwrap_err().to_string(),
        "Failed to delete cycle c1"
    );
}

#[test]
fn cycle_answers_have_to_confirm() {
    let made = json(r#"{"data":{"cycleCreate":{"success":true,"cycle":{"id":"c1","number":4}}}}"#);
    assert_eq!(
        lines_of_created(created_cycle(&made).unwrap()),
        vec!["Created cycle: cycle", "  ID: c1", "  Number: 4"]
    );
    assert!(created_cycle(&json("{}")).is_err());
    assert!(updated_cycle(&json("{}")).is_err());
    assert!(completed_cycle(&json("{}")).is_err());
    assert_eq!(
        completed_line(&json(r#"{"name":"One"}"#)),
        "Cycle 'One' marked as completed"
    );
}
