use linear_cli::error::{rewrap_with_message, CliError, ErrorKind, Failure};
use linear_cli::json::Json;
use linear_cli::json_text::parse_json;

fn json(text: &str) -> Json {
    parse_json(text).unwrap()
}

#[test]
fn test_display_without_details() {
    let err = CliError::general("Simple error");
    assert_eq!(err.to_string(), "Simple error");
}

#[test]
fn test_display_with_graphql_errors_array() {
    let errors = json(
        r#"[
            {"message": "Field 'foo' not found"},
            {"message": "Invalid query syntax"}
        ]"#,
    );
    let err = CliError::general("GraphQL error").with_details(errors);
    assert_eq!(
        err.to_string(),
        "GraphQL error: Field 'foo' not found; Invalid query syntax"
    );
}

#[test]
fn test_display_with_single_graphql_error() {
    let errors = json(r#"[{"message": "Entity not found"}]"#);
    let err = CliError::general("GraphQL error").with_details(errors);
    assert_eq!(err.to_string(), "GraphQL error: Entity not found");
}

#[test]
fn test_display_with_object_message() {
    let details = json(r#"{"message": "Rate limit exceeded", "code": 429}"#);
    let err = CliError::rate_limited("API error").with_details(details);
    assert_eq!(err.to_string(), "API error: Rate limit exceeded");
}

#[test]
fn test_display_with_nested_errors_array() {
    let details = json(
        r#"{
            "errors": [
                {"message": "Permission denied"},
                {"message": "Insufficient scope"}
            ]
        }"#,
    );
    let err = CliError::auth("Auth error").with_details(details);
    assert_eq!(
        err.to_string(),
        "Auth error: Permission denied; Insufficient scope"
    );
}

#[test]
fn test_display_with_empty_errors_array() {
    let errors = json("[]");
    let err = CliError::general("GraphQL error").with_details(errors);
    assert_eq!(err.to_string(), "GraphQL error");
}

#[test]
fn test_display_with_errors_missing_message() {
    let errors = json(r#"[{"code": 123}, {"extensions": {}}]"#);
    let err = CliError::general("GraphQL error").with_details(errors);
    assert_eq!(err.to_string(), "GraphQL error");
}

#[test]
fn test_error_kind_exit_codes() {
    assert_eq!(ErrorKind::General.exit_code(), 1);
    assert_eq!(ErrorKind::NotFound.exit_code(), 2);
    assert_eq!(ErrorKind::Auth.exit_code(), 3);
    assert_eq!(ErrorKind::RateLimited.exit_code(), 4);
}

#[test]
fn test_error_kind_retryable() {
    assert!(!ErrorKind::General.is_retryable());
    assert!(!ErrorKind::NotFound.is_retryable());
    assert!(!ErrorKind::Auth.is_retryable());
    assert!(ErrorKind::RateLimited.is_retryable());
}

#[test]
fn test_convenience_constructors() {
    let err = CliError::not_found("Issue not found");
    assert_eq!(err.code(), 2);
    assert_eq!(err.kind, ErrorKind::NotFound);
}

#[test]
fn rewrap_preserves_kind_and_retry_after() {
    let source = Failure::cli(CliError::rate_limited("429").with_retry_after(Some(9)));
    let wrapped = rewrap_with_message(&source, "while fetching LIN-1");
    let cli = wrapped.cli_error().expect("CliError preserved");
    assert_eq!(cli.kind, ErrorKind::RateLimited);
    assert_eq!(cli.code(), 4);
    assert_eq!(cli.retry_after, Some(9));
    assert_eq!(cli.message, "while fetching LIN-1");
}

#[test]
fn rewrap_preserves_details() {
    let source =
        Failure::cli(CliError::general("boom").with_details(json(r#"{ "field": "value" }"#)));
    let wrapped = rewrap_with_message(&source, "new message");
    let cli = wrapped.cli_error().expect("CliError preserved");
    assert_eq!(cli.details, Some(json(r#"{ "field": "value" }"#)));
}

#[test]
fn rewrap_plain_error_keeps_message() {
    let source = Failure::message("not found");
    let wrapped = rewrap_with_message(&source, "Failed to resolve 'x': not found");
    assert!(wrapped.cli_error().is_none());
    assert_eq!(wrapped.to_string(), "Failed to resolve 'x': not found");
}

#[test]
fn rewrap_finds_cli_error_behind_anyhow_context() {
    // A CliError wrapped in a context layer must still be found,
    // so re-messaging across command boundaries preserves the exit code.
    let source = Failure::cli(CliError::auth("401")).with_context("resolving user");
    let wrapped = rewrap_with_message(&source, "Failed to resolve user 'me'");
    assert_eq!(wrapped.cli_error().expect("CliError preserved").code(), 3);
}

#[test]
fn graphql_entity_not_found_maps_to_not_found() {
    // Linear returns "Entity not found" as HTTP 200 + errors array with
    // statusCode 400 (NOT 404), so classification must fall through to the
    // message-text check. This is the common `i get <bad-id>` path.
    let errors = json(
        r#"[{
            "message": "Entity not found: Issue",
            "extensions": {
                "code": "INPUT_ERROR",
                "statusCode": 400,
                "type": "invalid input",
                "userError": true,
                "userPresentableMessage": "Could not find referenced Issue."
            }
        }]"#,
    );
    let err = CliError::from_graphql_errors(&errors);
    assert_eq!(err.kind, ErrorKind::NotFound);
    assert_eq!(err.code(), 2);
    assert_eq!(err.to_string(), "GraphQL error: Entity not found: Issue");
}

#[test]
fn graphql_auth_error_maps_to_auth() {
    let errors = json(
        r#"[{
            "message": "Authentication required",
            "extensions": { "code": "AUTHENTICATION_ERROR" }
        }]"#,
    );
    let err = CliError::from_graphql_errors(&errors);
    assert_eq!(err.kind, ErrorKind::Auth);
    assert_eq!(err.code(), 3);
}

#[test]
fn graphql_rate_limit_maps_to_rate_limited_with_retry_after() {
    let errors = json(
        r#"[{
            "message": "Too many requests",
            "extensions": { "code": "RATELIMITED", "retryAfter": 30 }
        }]"#,
    );
    let err = CliError::from_graphql_errors(&errors);
    assert_eq!(err.kind, ErrorKind::RateLimited);
    assert_eq!(err.code(), 4);
    assert_eq!(err.retry_after, Some(30));
}

#[test]
fn graphql_status_code_takes_precedence() {
    // A 403 in extensions classifies as Auth even without a code string.
    let errors = json(
        r#"[{
            "message": "denied",
            "extensions": { "statusCode": 403 }
        }]"#,
    );
    assert_eq!(CliError::from_graphql_errors(&errors).code(), 3);
}

#[test]
fn graphql_generic_error_stays_general() {
    let errors = json(r#"[{ "message": "Field 'foo' is invalid" }]"#);
    let err = CliError::from_graphql_errors(&errors);
    assert_eq!(err.kind, ErrorKind::General);
    assert_eq!(err.code(), 1);
}

#[test]
fn graphql_empty_errors_stays_general() {
    let errors = json("[]");
    assert_eq!(
        CliError::from_graphql_errors(&errors).kind,
        ErrorKind::General
    );
}

#[test]
fn outermost_context_is_shown() {
    let failure = Failure::message("inner").with_context("middle").with_context("outer");
    assert_eq!(failure.to_string(), "outer");
    assert_eq!(Failure::message("inner").to_string(), "inner");
}

#[test]
fn copied_error_is_the_same() {
    let err = CliError::rate_limited("slow").with_retry_after(Some(3));
    let copy = err.copy();
    assert_eq!(copy.kind, err.kind);
    assert_eq!(copy.message, err.message);
    assert_eq!(copy.retry_after, err.retry_after);
}
