use linear_cli::commands::triage::{
    claim_issue, claimant, claimed_line, list_triage, snooze_at, snooze_days, snooze_issue,
    snooze_until, snoozed_line, start, states_request, TriageCommands,
};
use linear_cli::json::Json;
use linear_cli::json_text::parse_json;

fn json(text: &str) -> Json {
    parse_json(text).unwrap()
}

#[test]
fn triage_list_filters_by_team() {
    let list = TriageCommands::List { team: None };
    let variables = start(&list, &Some("ENG".to_string()))
        .unwrap()
        .variables
        .unwrap();
    let filter = variables.at("filter");
    assert_eq!(
        filter.at("team").at("key").at("eq").as_str(),
        Some("ENG")
    );
    assert!(filter.at("assignee").at("null").is_true());
    assert!(filter.at("project").at("null").is_true());
    assert_eq!(filter.at("state").at("type").at("in").items().len(), 2);
    let id = "0123abcd-4567-89ef-0123-456789abcdef";
    let variables = start(&list, &Some(id.to_string()))
        .unwrap()
        .variables
        .unwrap();
    let of_id = variables.at("filter").at("team");
    assert_eq!(of_id.at("id").at("eq").as_str(), Some(id));
    assert!(of_id.get("key").is_none());
    let variables = start(&list, &None).unwrap().variables.unwrap();
    assert!(variables.at("filter").get("team").is_none());
    let snooze = TriageCommands::Snooze {
        id: "LIN-1".to_string(),
        duration: "1d".to_string(),
    };
    assert!(start(&snooze, &None).is_none());
}

#[test]
fn triage_rows_are_shown() {
    let rows = list_triage(
        &json(
            r#"{"data":{"issues":{"nodes":[
                {"identifier":"LIN-1","title":"T","createdAt":"2024-05-06T07:08:09Z","team":{"key":"ENG"}},
                {}
            ]}}}"#,
        ),
        None,
    );
    assert_eq!(rows.len(), 2);
    assert_eq!(rows[0].created, "2024-05-06");
    assert_eq!(rows[0].team, "ENG");
    assert_eq!(rows[1].identifier, "-");
}

#[test]
fn claim_moves_to_the_backlog() {
    let viewer = json(r#"{"data":{"viewer":{"id":"me"}}}"#);
    assert_eq!(claimant(&viewer).unwrap(), "me");
    assert_eq!(
        claimant(&json("{}")).unwrap_err().to_string(),
        "Could not get current user"
    );
    let states = json(
        r#"{"data":{"issue":{"team":{"states":{"nodes":[
            {"id":"s1","type":"started"},{"id":"s2","type":"backlog"}]}}}}}"#,
    );
    let variables = claim_issue(&states, "LIN-1", "me")
        .unwrap()
        .variables
        .unwrap();
    assert_eq!(variables.at("input").at("stateId").as_str(), Some("s2"));
    assert_eq!(variables.at("input").at("assigneeId").as_str(), Some("me"));
    assert!(states_request("LIN-1").variables.is_some());
    assert!(claimed_line(&json("{}"), "LIN-1").contains("LIN-1"));
}

#[test]
fn snooze_durations_are_days() {
    assert_eq!(snooze_days("1d"), 1);
    assert_eq!(snooze_days("2d"), 2);
    assert_eq!(snooze_days("3d"), 3);
    assert_eq!(snooze_days("1w"), 7);
    assert_eq!(snooze_days("2w"), 14);
}

#[test]
fn snooze_sets_a_date() {
    let variables = snooze_until("LIN-1", "2024-01-01").variables.unwrap();
    assert_eq!(
        variables.at("snoozedUntilAt").as_str(),
        Some("2024-01-01")
    );
    let now = chrono::Utc::now().to_rfc3339();
    let request = snooze_issue("LIN-1", "1w").unwrap();
    let until = request.variables.unwrap();
    assert!(until.at("snoozedUntilAt").as_str().unwrap() > now.as_str());
    assert!(snoozed_line("LIN-1", "1w").contains("LIN-1"));
}

#[test]
fn snooze_ends_some_days_after_a_time() {
    let until = |duration: &str, seconds: i64, nanos: u32| {
        snooze_at("LIN-1", duration, seconds, nanos).map(|request| {
            request
                .variables
                .unwrap()
                .at("snoozedUntilAt")
                .text_or("")
        })
    };
    assert_eq!(
        until("1w", 0, 500_000_000).unwrap(),
        "1970-01-08T00:00:00.500+00:00"
    );
    assert_eq!(until("-1d", 0, 0).unwrap(), "1969-12-31T00:00:00+00:00");
    assert_eq!(
        until("soon", 1_700_000_000, 0).unwrap(),
        "2023-11-15T22:13:20+00:00"
    );
}

#[test]
fn snooze_ends_in_the_range_of_dates() {
    let last: i64 = 8_210_266_876_799;
    let first: i64 = -8_334_601_228_800;
    let ends = |duration: &str, seconds: i64| snooze_at("x", duration, seconds, 0).is_some();
    assert!(ends("0d", last));
    assert!(!ends("0d", last + 1));
    assert!(ends("1d", last - 86_400));
    assert!(!ends("1d", last - 86_399));
    assert!(ends("0d", first));
    assert!(!ends("0d", first - 1));
    assert!(ends("-1d", first + 86_400));
    assert!(!ends("-1d", first + 86_399));
    assert!(!ends("9223372036854775807d", 0));
    assert!(!ends("-9223372036854775808d", 0));
    assert!(snooze_issue("LIN-1", "0d").is_some());
    assert!(snooze_issue("LIN-1", "9223372036854775807d").is_none());
}
