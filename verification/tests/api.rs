use linear_cli::api::{
    check_upload_url, default_retry_config, ensure_fresh_auth, http_error, http_error_with_reason,
    interpret_response, oauth_state_at, parse_linear_upload_url, refine_http_error,
    refreshed_config, refreshed_state, request_body, resolve_auth, set_default_retry,
    upload_redirect_allowed, upload_redirect_policy, AuthState, FreshAuth, FreshTokens,
    ResponseHeaders, UrlParts,
};
use linear_cli::config::OAuthConfig;
use linear_cli::error::{Cause, CliError, ErrorKind, Failure};
use linear_cli::json::Json;
use linear_cli::json_text::parse_json;
use linear_cli::retry::RetryConfig;

fn json(text: &str) -> Json {
    parse_json(text).unwrap()
}

#[test]
fn refine_http_error_prefers_ratelimited_payload_behind_http_400() {
    // Linear returns GraphQL rate limits as HTTP 400 + extensions.code
    // RATELIMITED; the transport status alone would yield General(1).
    let http_err = CliError::general("HTTP 400 Bad Request");
    let body = json(
        r#"{
            "errors": [{
                "message": "Rate limit exceeded",
                "extensions": { "code": "RATELIMITED", "retryAfter": 12 }
            }]
        }"#,
    );
    let refined = refine_http_error(http_err, &body);
    assert_eq!(refined.kind, ErrorKind::RateLimited);
    assert_eq!(refined.code(), 4);
    assert_eq!(refined.retry_after, Some(12));
}

#[test]
fn refine_http_error_keeps_status_kind_when_payload_is_generic() {
    // A 401 whose payload doesn't classify must stay Auth(3), not regress to General.
    let http_err = CliError::auth("Authentication failed");
    let body = json(r#"{ "errors": [{ "message": "Unauthorized" }] }"#);
    let refined = refine_http_error(http_err, &body);
    assert_eq!(refined.kind, ErrorKind::Auth);
    assert_eq!(refined.code(), 3);
}

#[test]
fn refine_http_error_passes_through_without_errors_array() {
    let http_err = CliError::not_found("resource not found");
    let body = json(r#"{ "body": "<html>502</html>" }"#);
    let refined = refine_http_error(http_err, &body);
    assert_eq!(refined.kind, ErrorKind::NotFound);
}

#[test]
fn test_auth_state_api_key_header() {
    let state = AuthState::ApiKey("lin_api_key123".to_string());
    assert_eq!(state.auth_header(), "lin_api_key123");
}

#[test]
fn test_auth_state_oauth_header() {
    let state = AuthState::OAuth {
        access_token: "oauth_token_abc".to_string(),
        refresh_token: None,
        client_id: "cid".to_string(),
        expires_at: None,
        profile: "default".to_string(),
    };
    assert_eq!(state.auth_header(), "Bearer oauth_token_abc");
}

#[test]
fn test_auth_state_api_key_no_refresh() {
    let state = AuthState::ApiKey("key".to_string());
    assert!(!state.needs_refresh(), "API key should never need refresh");
}

#[test]
fn test_auth_state_oauth_no_refresh_token() {
    let state = AuthState::OAuth {
        access_token: "tok".to_string(),
        refresh_token: None,
        client_id: "cid".to_string(),
        expires_at: Some(chrono::Utc::now().timestamp() - 100), // expired
        profile: "default".to_string(),
    };
    assert!(
        !state.needs_refresh(),
        "OAuth without refresh token should not need refresh even if expired"
    );
}

#[test]
fn test_auth_state_oauth_needs_refresh_expired() {
    let state = AuthState::OAuth {
        access_token: "tok".to_string(),
        refresh_token: Some("refresh".to_string()),
        client_id: "cid".to_string(),
        expires_at: Some(chrono::Utc::now().timestamp() - 100), // expired
        profile: "default".to_string(),
    };
    assert!(
        state.needs_refresh(),
        "OAuth with expired token and refresh token should need refresh"
    );
}

#[test]
fn test_auth_state_oauth_needs_refresh_within_buffer() {
    let state = AuthState::OAuth {
        access_token: "tok".to_string(),
        refresh_token: Some("refresh".to_string()),
        client_id: "cid".to_string(),
        expires_at: Some(chrono::Utc::now().timestamp() + 200), // within 5min buffer
        profile: "default".to_string(),
    };
    assert!(
        state.needs_refresh(),
        "OAuth expiring within buffer should need refresh"
    );
}

#[test]
fn test_auth_state_oauth_no_refresh_needed_fresh() {
    let state = AuthState::OAuth {
        access_token: "tok".to_string(),
        refresh_token: Some("refresh".to_string()),
        client_id: "cid".to_string(),
        expires_at: Some(chrono::Utc::now().timestamp() + 3600), // 1 hour from now
        profile: "default".to_string(),
    };
    assert!(
        !state.needs_refresh(),
        "OAuth with fresh token should not need refresh"
    );
}

#[test]
fn test_auth_state_oauth_no_expiry_no_refresh() {
    let state = AuthState::OAuth {
        access_token: "tok".to_string(),
        refresh_token: Some("refresh".to_string()),
        client_id: "cid".to_string(),
        expires_at: None, // no expiry (legacy token)
        profile: "default".to_string(),
    };
    assert!(
        !state.needs_refresh(),
        "OAuth without expiry should not need refresh"
    );
}

#[test]
fn test_auth_state_clone() {
    let state = AuthState::OAuth {
        access_token: "tok".to_string(),
        refresh_token: Some("ref".to_string()),
        client_id: "cid".to_string(),
        expires_at: Some(1700000000),
        profile: "test".to_string(),
    };
    let cloned = state.clone();
    assert_eq!(state.auth_header(), cloned.auth_header());
}

#[test]
fn test_auth_state_debug() {
    let state = AuthState::ApiKey("key".to_string());
    let debug = format!("{:?}", state);
    assert!(
        debug.contains("ApiKey"),
        "Debug output should contain variant name"
    );
}

fn headers() -> ResponseHeaders {
    ResponseHeaders {
        retry_after: None,
        request_id: None,
    }
}

fn tokens(refresh: Option<&str>, expires_at: Option<i64>) -> OAuthConfig {
    OAuthConfig {
        client_id: "cid".to_string(),
        access_token: "tok".to_string(),
        refresh_token: refresh.map(|s| s.to_string()),
        expires_at,
        token_type: "Bearer".to_string(),
        scopes: vec!["read".to_string()],
    }
}

fn cli(failure: &Failure) -> &CliError {
    failure.cli_error().expect("a CLI error")
}

#[test]
fn status_codes_give_kinds() {
    assert_eq!(http_error(401, &headers(), "resource").kind, ErrorKind::Auth);
    assert_eq!(http_error(403, &headers(), "resource").kind, ErrorKind::Auth);
    assert_eq!(
        http_error(404, &headers(), "resource").kind,
        ErrorKind::NotFound
    );
    assert_eq!(
        http_error(429, &headers(), "resource").kind,
        ErrorKind::RateLimited
    );
    assert_eq!(
        http_error(500, &headers(), "resource").kind,
        ErrorKind::General
    );
}

#[test]
fn rate_limit_waits_as_long_as_the_header_says() {
    let told = ResponseHeaders {
        retry_after: Some("17".to_string()),
        request_id: Some("req-1".to_string()),
    };
    let err = http_error(429, &told, "resource");
    assert_eq!(err.retry_after, Some(17));
    let vague = ResponseHeaders {
        retry_after: Some("soon".to_string()),
        request_id: None,
    };
    assert_eq!(http_error(429, &vague, "resource").retry_after, None);
}

#[test]
fn general_http_error_shows_the_canonical_reason() {
    let err = http_error(502, &headers(), "resource");
    assert!(err.message.contains("502"));
    assert!(err.message.contains("Bad Gateway"));
    let unnamed = http_error_with_reason(599, &headers(), "resource", &None);
    assert!(unnamed.message.contains("599"));
}

#[test]
fn successful_response_is_the_parsed_body() {
    let value = interpret_response(200, &headers(), r#"{"data":{"ok":true}}"#).unwrap();
    assert!(value.at("data").at("ok").is_true());
}

#[test]
fn graphql_errors_behind_http_200_are_failures() {
    let failure = interpret_response(
        200,
        &headers(),
        r#"{"errors":[{"message":"no","extensions":{"code":"AUTHENTICATION_ERROR"}}]}"#,
    )
    .unwrap_err();
    assert_eq!(cli(&failure).code(), 3);
}

#[test]
fn error_payload_is_kept_as_details() {
    let failure = interpret_response(400, &headers(), "<html>").unwrap_err();
    let details = cli(&failure).details.as_ref().unwrap();
    assert_eq!(details.at("body").as_str(), Some("<html>"));
    let parsed = interpret_response(404, &headers(), r#"{"why":"gone"}"#).unwrap_err();
    assert_eq!(cli(&parsed).code(), 2);
    assert_eq!(
        cli(&parsed).details.as_ref().unwrap().at("why").as_str(),
        Some("gone")
    );
}

#[test]
fn refused_status_never_becomes_a_success() {
    for status in [301u16, 400, 401, 404, 429, 500] {
        assert!(interpret_response(status, &headers(), r#"{"data":{}}"#).is_err());
    }
}

#[test]
fn unreadable_success_body_is_a_failure() {
    assert!(interpret_response(200, &headers(), "not json").is_err());
}

#[test]
fn request_body_holds_variables_only_where_given() {
    let plain = request_body("query { a }", &None);
    assert_eq!(plain.at("query").as_str(), Some("query { a }"));
    assert!(plain.get("variables").is_none());
    let with = request_body("query { a }", &Some(json(r#"{"id":"x"}"#)));
    assert_eq!(with.at("variables").at("id").as_str(), Some("x"));
}

#[test]
fn upload_urls_are_checked() {
    let parts = parse_linear_upload_url("https://uploads.linear.app/a/b").unwrap();
    assert_eq!(parts.scheme, "https");
    assert_eq!(parts.host.as_deref(), Some("uploads.linear.app"));
    assert!(parse_linear_upload_url("http://uploads.linear.app/a").is_err());
    assert!(parse_linear_upload_url("https://example.com/a").is_err());
    assert!(parse_linear_upload_url("https://user@uploads.linear.app/a").is_err());
    let failure = parse_linear_upload_url("not a url").err().unwrap();
    assert_eq!(failure.to_string(), "Failed to parse upload URL");
    match failure.cause {
        Cause::Message(fault) => assert_eq!(fault, "relative URL without a base"),
        Cause::Cli(_) => panic!("a text that is no URL has no exit code"),
    }
}

#[test]
fn redirects_stay_on_the_upload_host() {
    assert!(upload_redirect_policy("https://uploads.linear.app/next"));
    assert!(upload_redirect_policy("https://uploads.linear.app:443/next"));
    assert!(!upload_redirect_policy("https://uploads.linear.app:8443/next"));
    assert!(!upload_redirect_policy("https://example.com/next"));
    assert!(!upload_redirect_policy("http://uploads.linear.app/next"));
}

#[test]
fn a_url_with_userinfo_is_refused() {
    let parts = UrlParts {
        text: "https://me@uploads.linear.app/".to_string(),
        scheme: "https".to_string(),
        username: "me".to_string(),
        password: None,
        host: Some("uploads.linear.app".to_string()),
        port: None,
    };
    assert!(!upload_redirect_allowed(&parts));
    assert!(check_upload_url(parts).is_err());
}

#[test]
fn expired_tokens_without_refresh_are_not_used() {
    let now = 1_700_000_000;
    assert!(oauth_state_at("p", &Some(tokens(None, Some(now + 301))), now).is_some());
    assert!(oauth_state_at("p", &Some(tokens(None, Some(now + 300))), now).is_none());
    assert!(oauth_state_at("p", &Some(tokens(Some("r"), Some(now))), now).is_some());
    assert!(oauth_state_at("p", &None, now).is_none());
    let mut blank = tokens(Some("r"), None);
    blank.access_token = String::new();
    assert!(oauth_state_at("p", &Some(blank), now).is_none());
}

#[test]
fn tokens_are_preferred_to_the_key() {
    let now = 1_700_000_000;
    let key = || Ok("lin_api_key".to_string());
    let fresh = Some(tokens(None, Some(now + 301)));
    let state = resolve_auth("p", &fresh, now, key()).unwrap();
    assert_eq!(state.auth_header(), "Bearer tok");
    let expired = Some(tokens(None, Some(now)));
    let state = resolve_auth("p", &expired, now, key()).unwrap();
    assert_eq!(state.auth_header(), "lin_api_key");
    let failure = resolve_auth("p", &None, now, Err(Failure::message("no key")));
    assert_eq!(failure.unwrap_err().to_string(), "no key");
}

#[test]
fn refresh_is_asked_for_five_minutes_before_expiry() {
    let now = 1_700_000_000;
    let state = oauth_state_at("p", &Some(tokens(Some("r"), Some(now + 300))), now).unwrap();
    match ensure_fresh_auth(&state, now) {
        FreshAuth::Refresh {
            client_id,
            refresh_token,
            profile,
        } => {
            assert_eq!(client_id, "cid");
            assert_eq!(refresh_token, "r");
            assert_eq!(profile, "p");
        }
        FreshAuth::Use(_) => panic!("the token is about to expire"),
    }
    match ensure_fresh_auth(&state, now - 1) {
        FreshAuth::Use(header) => assert_eq!(header, "Bearer tok"),
        FreshAuth::Refresh { .. } => panic!("the token is fresh"),
    }
}

#[test]
fn refreshed_tokens_keep_the_scopes() {
    let fresh = FreshTokens {
        access_token: "new".to_string(),
        refresh_token: None,
        expires_at: Some(5),
        token_type: "Bearer".to_string(),
    };
    let stored = refreshed_config("cid", &fresh, &Some(tokens(Some("r"), None)));
    assert_eq!(stored.access_token, "new");
    assert_eq!(stored.refresh_token, None);
    assert_eq!(stored.scopes, vec!["read"]);
    assert!(refreshed_config("cid", &fresh, &None).scopes.is_empty());
    assert_eq!(
        refreshed_state("cid", "p", &fresh).auth_header(),
        "Bearer new"
    );
}

#[test]
fn default_retry_is_set_once() {
    let mut configured: Option<RetryConfig> = None;
    assert_eq!(default_retry_config(&configured).max_retries, 3);
    set_default_retry(&mut configured, 0);
    assert_eq!(default_retry_config(&configured).max_retries, 0);
    set_default_retry(&mut configured, 7);
    assert_eq!(default_retry_config(&configured).max_retries, 0);
}

#[test]
fn only_rate_limits_are_retried() {
    let config = RetryConfig::new(2);
    let limited = Failure::cli(CliError::rate_limited("429").with_retry_after(Some(9)));
    assert_eq!(config.wait_before_retry(0, &limited), Some(9));
    assert_eq!(config.wait_before_retry(1, &limited), Some(9));
    assert_eq!(config.wait_before_retry(2, &limited), None);
    let vague = Failure::cli(CliError::rate_limited("429"));
    assert_eq!(config.wait_before_retry(0, &vague), Some(1));
    assert_eq!(
        config.wait_before_retry(0, &Failure::cli(CliError::auth("401"))),
        None
    );
    assert_eq!(config.wait_before_retry(0, &Failure::message("x")), None);
    assert_eq!(RetryConfig::no_retry().wait_before_retry(0, &limited), None);
}
