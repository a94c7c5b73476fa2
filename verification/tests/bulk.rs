use linear_cli::commands::bulk::{
    after_info, after_state, after_update, bulk_exit_status, count_failures, info_request,
    missing_bulk_issues, resolution_failure, summary_line, summary_payload, BulkCommands,
    BulkResult, BulkStep, Change, IssueInfo,
};
use linear_cli::error::{CliError, Failure};
use linear_cli::json::Json;
use linear_cli::json_text::parse_json;

fn json(text: &str) -> Json {
    parse_json(text).unwrap()
}

fn result(success: bool) -> BulkResult {
    BulkResult {
        issue_id: "LIN-1".to_string(),
        success,
        identifier: None,
        error: if success {
            None
        } else {
            Some("boom".to_string())
        },
    }
}

#[test]
fn bulk_exit_status_ok_when_all_succeed_or_empty() {
    assert!(bulk_exit_status(&[]).is_ok());
    assert!(bulk_exit_status(&[result(true), result(true)]).is_ok());
}

#[test]
fn bulk_exit_status_errs_on_any_failure() {
    let err = bulk_exit_status(&[result(true), result(false)]).unwrap_err();
    assert_eq!(err.cli_error().expect("CliError").code(), 1);
}

#[test]
fn bulk_exit_status_errs_when_all_fail() {
    assert!(bulk_exit_status(&[result(false), result(false)]).is_err());
}

fn info_answer() -> Result<Json, Failure> {
    Ok(json(
        r#"{"data":{"issue":{"id":"uuid-1","identifier":"LIN-1","team":{"id":"team-1"},
            "labels":{"nodes":[{"id":"bug"},{"id":"ui"}]}}}}"#,
    ))
}

#[test]
fn bulk_commands_need_issues() {
    let command = BulkCommands::Unassign { issues: vec![] };
    let shown = command.check_issues().unwrap_err().to_string();
    assert_eq!(
        shown,
        "No issues specified. Provide issue IDs with -i/--issues.\nExample: linear bulk unassign -i LIN-1,LIN-2"
    );
    assert_eq!(
        missing_bulk_issues("x").unwrap_err().to_string(),
        "No issues specified. Provide issue IDs with -i/--issues.\nExample: x"
    );
}

#[test]
fn bulk_heading_counts_the_issues() {
    let command = BulkCommands::UpdateState {
        state: "Done".to_string(),
        issues: vec!["LIN-1".to_string(), "LIN-2".to_string()],
    };
    assert!(command.check_issues().is_ok());
    assert_eq!(command.heading(), "Updating state to 'Done' for 2 issues...");
    assert_eq!(command.action(), "state updated");
}

#[test]
fn bulk_resolution_failure_keeps_its_kind() {
    let failure = Failure::cli(CliError::not_found("User not found"));
    let wrapped = resolution_failure("user", "jo", &failure);
    assert_eq!(wrapped.cli_error().unwrap().code(), 2);
    assert_eq!(
        wrapped.to_string(),
        "Failed to resolve user 'jo': User not found"
    );
}

#[test]
fn bulk_label_is_added_once() {
    let label = |step: BulkStep| match step {
        BulkStep::Update { request, identifier } => {
            assert_eq!(identifier.as_deref(), Some("LIN-1"));
            let variables = request.variables.unwrap();
            assert_eq!(variables.at("id").as_str(), Some("uuid-1"));
            variables
                .at("input")
                .at("labelIds")
                .items()
                .iter()
                .map(|l| l.as_str().unwrap().to_string())
                .collect::<Vec<String>>()
        }
        other => panic!("{:?}", other),
    };
    let new = Change::Label("new".to_string());
    let old = Change::Label("ui".to_string());
    assert_eq!(
        label(after_info(&new, "LIN-1", info_answer())),
        vec!["bug", "ui", "new"]
    );
    assert_eq!(
        label(after_info(&old, "LIN-1", info_answer())),
        vec!["bug", "ui"]
    );
    assert!(info_request(&new, "LIN-1").query.contains("labels"));
}

#[test]
fn bulk_state_change_looks_up_the_state_of_the_team() {
    let change = Change::State("Done".to_string());
    let info = match after_info(&change, "LIN-1", info_answer()) {
        BulkStep::FindState { info, cache_key } => {
            assert_eq!(cache_key, "team-1:Done");
            info
        }
        other => panic!("{:?}", other),
    };
    match after_state("LIN-1", info, Ok("state-9".to_string())) {
        BulkStep::Update { request, .. } => assert_eq!(
            request.variables.unwrap().at("input").at("stateId").as_str(),
            Some("state-9")
        ),
        other => panic!("{:?}", other),
    }
    let info = IssueInfo {
        uuid: "u".to_string(),
        team_id: "t".to_string(),
        identifier: Some("LIN-1".to_string()),
    };
    match after_state("LIN-1", info, Err(Failure::message("no such state"))) {
        BulkStep::Done(result) => {
            assert!(!result.success);
            assert_eq!(result.error.as_deref(), Some("no such state"));
        }
        other => panic!("{:?}", other),
    }
}

#[test]
fn bulk_unassign_sends_null() {
    match after_info(&Change::Assignee(None), "LIN-1", info_answer()) {
        BulkStep::Update { request, .. } => {
            let variables = request.variables.unwrap();
            assert!(variables.at("input").get("assigneeId").unwrap().is_null());
        }
        other => panic!("{:?}", other),
    }
}

#[test]
fn bulk_missing_issue_fails() {
    let answer = Ok(json(r#"{"data":{"issue":null}}"#));
    match after_info(&Change::Assignee(None), "LIN-9", answer) {
        BulkStep::Done(result) => {
            assert_eq!(result.error.as_deref(), Some("Issue not found: LIN-9"))
        }
        other => panic!("{:?}", other),
    }
}

#[test]
fn bulk_success_needs_confirmation() {
    let yes = Ok(json(
        r#"{"data":{"issueUpdate":{"success":true,"issue":{"identifier":"LIN-1"}}}}"#,
    ));
    let done = after_update("id", None, yes);
    assert!(done.success);
    assert_eq!(done.identifier.as_deref(), Some("LIN-1"));
    let no = Ok(json(r#"{"data":{"issueUpdate":{"success":false}}}"#));
    let refused = after_update("id", Some("LIN-1".to_string()), no);
    assert!(!refused.success);
    assert_eq!(refused.error.as_deref(), Some("Update failed"));
    let failed = after_update("id", None, Err(Failure::message("boom")));
    assert_eq!(failed.error.as_deref(), Some("boom"));
}

#[test]
fn bulk_summary_counts_both_kinds() {
    let results = [result(true), result(false), result(true)];
    assert_eq!(count_failures(&results), 1);
    let payload = summary_payload(&results, "assigned");
    assert_eq!(payload.at("action").as_str(), Some("assigned"));
    assert!(summary_line(&results).contains('2'));
    assert!(summary_line(&results).contains('1'));
}
