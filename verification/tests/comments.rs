use linear_cli::commands::comments::{
    collect, comments_heading, comments_payload, comments_status, created_comment,
    deleted_comment, issue_from_meta, issue_with_comments, lines_of_created, note_of,
    rows_of_comments, safe_terminal_value, updated_comment, CommentCommands, Fetched,
};
use linear_cli::error::{CliError, Failure};
use linear_cli::json::Json;
use linear_cli::json_text::parse_json;

fn json(text: &str) -> Json {
    parse_json(text).unwrap()
}

#[test]
fn comments_test_safe_terminal_value_removes_escape_sequences() {
    assert_eq!(
        safe_terminal_value("bad\u{1b}]52;c;ZXZpbA==\u{7}title"),
        "badtitle"
    );
}

#[test]
fn comments_status_ok_when_nothing_failed() {
    assert!(comments_status(None, &vec![]).is_ok());
}

#[test]
fn comments_status_notfound_when_only_missing() {
    let err = comments_status(None, &vec!["LIN-9".to_string()]).unwrap_err();
    assert_eq!(err.cli_error().expect("CliError").code(), 2);
}

#[test]
fn comments_status_preserves_real_error_over_missing() {
    // A real fetch error keeps its kind (rate-limited => 4), not NotFound(2).
    let err = comments_status(
        Some(Failure::cli(
            CliError::rate_limited("429").with_retry_after(Some(5)),
        )),
        &vec!["LIN-9".to_string()],
    )
    .unwrap_err();
    let cli = err.cli_error().expect("CliError");
    assert_eq!(cli.code(), 4);
    assert_eq!(cli.retry_after, Some(5));
}

#[test]
fn comment_list_needs_ids_and_delete_needs_force() {
    assert!(CommentCommands::List { issue_ids: vec![] }.check(false).is_err());
    let delete = CommentCommands::Delete {
        id: "c1".to_string(),
        force: false,
    };
    assert_eq!(
        delete.check(false).unwrap_err().to_string(),
        "Delete requires --force flag. Use: linear comments delete c1 --force"
    );
    assert!(delete.check(true).is_ok());
}

#[test]
fn comment_requests_hold_their_input() {
    let create = CommentCommands::Create {
        issue_id: "LIN-1".to_string(),
        body: "hi".to_string(),
        parent_id: Some("c0".to_string()),
    };
    let variables = create.request().unwrap().variables.unwrap();
    assert_eq!(variables.at("input").at("body").as_str(), Some("hi"));
    assert_eq!(variables.at("input").at("parentId").as_str(), Some("c0"));
    let update = CommentCommands::Update {
        id: "c1".to_string(),
        body: "new".to_string(),
    };
    let variables = update.request().unwrap().variables.unwrap();
    assert_eq!(variables.at("id").as_str(), Some("c1"));
    assert_eq!(variables.at("input").at("body").as_str(), Some("new"));
    assert!(CommentCommands::List { issue_ids: vec![] }.request().is_none());
}

#[test]
fn comment_changes_have_to_be_confirmed() {
    let made = json(r#"{"data":{"commentCreate":{"success":true,"comment":{"id":"c1"}}}}"#);
    let comment = created_comment(&made).unwrap();
    assert_eq!(comment.at("id").as_str(), Some("c1"));
    assert!(!lines_of_created(comment).is_empty());
    let refused = json(r#"{"data":{}}"#);
    assert_eq!(
        created_comment(&refused).unwrap_err().to_string(),
        "Failed to create comment"
    );
    assert_eq!(
        updated_comment(&refused).unwrap_err().to_string(),
        "Failed to update comment"
    );
    assert_eq!(
        deleted_comment(&refused).unwrap_err().to_string(),
        "Failed to delete comment"
    );
}

#[test]
fn comments_are_collected_around_what_is_missing() {
    let fetched = vec![
        Fetched {
            id: "LIN-1".to_string(),
            outcome: Ok(json(r#"{"identifier":"LIN-1"}"#)),
        },
        Fetched {
            id: "LIN-2".to_string(),
            outcome: Err(Failure::cli(CliError::not_found("gone"))),
        },
        Fetched {
            id: "LIN-3".to_string(),
            outcome: Err(Failure::message("boom")),
        },
    ];
    assert!(note_of(&fetched[0]).is_none());
    assert!(note_of(&fetched[1]).is_some());
    let collected = collect(fetched);
    assert_eq!(collected.issues.len(), 1);
    assert_eq!(collected.missing, vec!["LIN-2"]);
    assert_eq!(collected.first_error.unwrap().to_string(), "boom");
}

#[test]
fn missing_issue_behind_comments_is_not_found() {
    let failure = issue_from_meta(Ok(json(r#"{"data":{"issue":null}}"#)), "LIN-9").unwrap_err();
    assert_eq!(failure.cli_error().unwrap().code(), 2);
}

#[test]
fn comments_stand_under_their_issue() {
    let issue = json(r#"{"identifier":"LIN-1","title":"T"}"#);
    let whole = issue_with_comments(issue, vec![json(r#"{"id":"c1","body":"hi"}"#)]);
    let nodes = whole.at("comments").at("nodes").items();
    assert_eq!(nodes.len(), 1);
    let rows = rows_of_comments(nodes, None);
    assert_eq!(rows[0].id, "c1");
    assert_eq!(comments_heading(&whole).0, "LIN-1");
    let one = comments_payload(&vec![whole]);
    assert!(one.is_object() || one.is_array());
}
