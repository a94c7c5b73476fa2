use linear_cli::api::FreshTokens;
use linear_cli::commands::auth::{
    check_keyring, check_stored_key, empty_migration_payload, granted_config, is_valid,
    key_request, keys_to_move, lines_of_migration, lines_of_oauth, lines_of_status, lines_with_expiry,
    login_line, login_payload, logout, logout_line, logout_payload, migrate, migration_notice_lines,
    migration_payload, oauth_payload, oauth_user, redirect_uri, resolve_profile_for_write,
    revoke_line, revoke_payload, revoke_warning, save_granted_secure, status, status_payload,
    token_to_revoke, user_request, validate_key, validation_request, workspace_names,
    AuthCommands, KeyringFacts, Migrated, OAuthUser, Storage, Validation,
};
use linear_cli::config::{
    get_oauth_metadata, save_oauth_config, Config, Environment, OAuthConfig, ReadBack, Workspace,
};
use linear_cli::error::{Cause, Failure};
use linear_cli::json::Json;
use linear_cli::json_text::parse_json;

fn json(text: &str) -> Json {
    parse_json(text).unwrap()
}

fn env() -> Environment {
    Environment {
        profile: None,
        team: None,
        api_key: None,
    }
}

fn config() -> Config {
    let mut config = Config::default();
    config.current = Some("prod".to_string());
    config
        .workspaces
        .insert("prod", Workspace::with_api_key("lin_api_prod"));
    config
        .workspaces
        .insert("dev", Workspace::with_api_key("lin_api_dev"));
    config
}

fn oauth() -> OAuthConfig {
    OAuthConfig {
        client_id: "cid".to_string(),
        access_token: "at".to_string(),
        refresh_token: None,
        expires_at: Some(1700000000),
        token_type: "Bearer".to_string(),
        scopes: vec!["read".to_string(), "write".to_string()],
    }
}

fn no_keyring() -> KeyringFacts {
    KeyringFacts {
        api_key: None,
        has_tokens: false,
        available: false,
    }
}

fn prod() -> Option<String> {
    Some("prod".to_string())
}

#[test]
fn key_is_written_for_the_profile_of_the_environment() {
    let mut named = env();
    named.profile = Some(" work ".to_string());
    assert_eq!(resolve_profile_for_write(&config(), &named), " work ");
    named.profile = Some("  ".to_string());
    assert_eq!(resolve_profile_for_write(&config(), &named), "prod");
    assert_eq!(resolve_profile_for_write(&Config::default(), &env()), "default");
}

#[test]
fn forced_commands_ask_nothing() {
    assert_eq!(
        AuthCommands::Logout { force: false }.confirmation("p").as_deref(),
        Some("Remove API key and profile 'p' from config?")
    );
    assert!(AuthCommands::Logout { force: true }.confirmation("p").is_none());
    assert_eq!(
        AuthCommands::Revoke { force: false }.confirmation("p").as_deref(),
        Some("Revoke OAuth tokens for profile 'p'?")
    );
    assert!(AuthCommands::Status { validate: true }.confirmation("p").is_none());
}

#[test]
fn key_is_valid_where_it_has_a_user() {
    assert!(validate_key(&json(r#"{"data":{"viewer":{"id":"u"}}}"#)).is_ok());
    assert_eq!(
        validate_key(&json(r#"{"data":{"viewer":null}}"#))
            .unwrap_err()
            .to_string(),
        "API key validation failed"
    );
    assert!(key_request().variables.is_none());
}

#[test]
fn stored_key_has_to_be_read_back() {
    assert!(check_stored_key(&Some("k".to_string()), "k").is_ok());
    assert_eq!(
        check_stored_key(&None, "k").unwrap_err().to_string(),
        "API key was written to keyring but could not be read back"
    );
    assert_eq!(
        check_stored_key(&Some("other".to_string()), "k")
            .unwrap_err()
            .to_string(),
        "API key stored in keyring could not be verified after saving"
    );
    assert_eq!(
        login_payload("p", Storage::Keyring).at("storage").as_str(),
        Some("keyring")
    );
    assert_eq!(
        login_line("p", Storage::Config),
        "API key saved for profile 'p'"
    );
}

#[test]
fn logout_takes_the_profile_out() {
    let mut config = config();
    save_oauth_config(&mut config, "prod", &oauth());
    assert_eq!(
        logout(&mut config, "prod").unwrap(),
        vec!["Switched to workspace 'dev'", "Workspace 'prod' removed."]
    );
    assert!(!config.workspaces.contains("prod"));
    assert_eq!(config.current.as_deref(), Some("dev"));
    assert_eq!(
        logout(&mut config, "prod").unwrap_err().to_string(),
        "Workspace 'prod' not found."
    );
    assert_eq!(
        logout(&mut config, "dev").unwrap(),
        vec!["Workspace 'dev' removed."]
    );
    assert_eq!(config.current, None);
    assert_eq!(logout_line("prod"), "Removed profile 'prod'");
    assert!(logout_payload("prod").at("removed").is_true());
}

#[test]
fn status_of_a_plain_key() {
    let shown = status(&config(), &env(), &prod(), &no_keyring());
    assert!(shown.configured);
    assert!(!shown.keyring_configured);
    assert!(shown.oauth.is_none());
    assert_eq!(
        lines_of_status(&shown, Some(true)),
        vec![
            "Profile: prod",
            "Config file: yes",
            "Keyring: no",
            "Keyring available: no",
            "OAuth keyring: no",
            "Env API key override: no",
            "Validated: yes",
            "Auth type: api_key"
        ]
    );
    let payload = status_payload(&shown, None);
    assert_eq!(payload.at("auth_type").as_str(), Some("api_key"));
    assert!(payload.get("validated").unwrap().is_null());
}

#[test]
fn status_of_tokens_shows_their_expiry() {
    let mut config = config();
    save_oauth_config(&mut config, "prod", &oauth());
    let shown = status(&config, &env(), &prod(), &no_keyring());
    let lines = lines_of_status(&shown, None);
    assert_eq!(lines[6], "Auth type: oauth");
    assert_eq!(lines[7], "OAuth scopes: [\"read\", \"write\"]");
    assert_eq!(lines[8], "OAuth expires: 2023-11-14 22:13:20 UTC");
    let payload = status_payload(&shown, Some(false));
    assert_eq!(payload.at("oauth_expires_at").as_i64(), Some(1700000000));
    assert_eq!(payload.at("oauth_scopes").items().len(), 2);
    let unknown = lines_with_expiry(&shown, None, "[]", None);
    assert_eq!(unknown[7], "OAuth scopes: []");
    assert_eq!(unknown[8], "OAuth expires: unknown");
}

#[test]
fn expiry_out_of_range_is_unknown() {
    let mut config = config();
    let mut far = oauth();
    far.expires_at = Some(i64::MAX);
    save_oauth_config(&mut config, "prod", &far);
    let shown = status(&config, &env(), &prod(), &no_keyring());
    assert_eq!(
        lines_of_status(&shown, None)[8],
        "OAuth expires: unknown"
    );
}

fn asked(validation: Validation) -> String {
    match validation {
        Validation::Ask { header, .. } => header,
        Validation::Refused => panic!("there is something to ask with"),
    }
}

#[test]
fn keys_are_validated_in_order() {
    let mut keyring = no_keyring();
    let sent = |env: &Environment, keyring: &KeyringFacts| {
        asked(validation_request(&config(), env, &prod(), keyring, &None))
    };
    assert_eq!(sent(&env(), &keyring), "lin_api_prod");
    keyring.api_key = Some("from-keyring".to_string());
    assert_eq!(sent(&env(), &keyring), "from-keyring");
    let mut with_key = env();
    with_key.api_key = Some("from-env".to_string());
    assert_eq!(sent(&with_key, &keyring), "from-env");
    assert!(matches!(
        validation_request(&config(), &env(), &None, &no_keyring(), &None),
        Validation::Refused
    ));
}

#[test]
fn tokens_are_validated_by_themselves() {
    let mut config = config();
    save_oauth_config(&mut config, "prod", &oauth());
    let mut with_key = env();
    with_key.api_key = Some("from-env".to_string());
    let sent = validation_request(&config, &with_key, &prod(), &no_keyring(), &Some(oauth()));
    assert_eq!(asked(sent), "Bearer at");
    assert!(matches!(
        validation_request(&config, &with_key, &prod(), &no_keyring(), &None),
        Validation::Refused
    ));
    assert!(is_valid(&Some(json(r#"{"data":{"viewer":{"id":"u"}}}"#))));
    assert!(!is_valid(&Some(json(r#"{"data":{}}"#))));
    assert!(!is_valid(&None));
}

fn outcome(name: &str, error: Option<&str>) -> Migrated {
    Migrated {
        name: name.to_string(),
        error: error.map(|e| e.to_string()),
    }
}

#[test]
fn keys_leave_the_config_when_all_are_moved() {
    let mut config = config();
    let all = vec![outcome("prod", None), outcome("dev", None)];
    let done = migrate(&mut config, false, &all);
    assert_eq!(done.migrated, 2);
    assert!(done.config_cleared);
    assert_eq!(config.workspaces.get("prod").unwrap().api_key, "");
    assert_eq!(config.workspaces.get("dev").unwrap().api_key, "");
    assert_eq!(
        lines_of_migration(&done),
        vec![
            "\nMigrated 2 workspace(s) to keyring.",
            "API keys removed from config file."
        ]
    );
}

#[test]
fn keys_stay_where_one_is_refused_or_they_are_kept() {
    let mut kept = config();
    let all = vec![outcome("prod", None), outcome("dev", None)];
    assert!(!migrate(&mut kept, true, &all).config_cleared);
    assert_eq!(kept.workspaces.get("prod").unwrap().api_key, "lin_api_prod");
    let mut refused = config();
    let some = vec![outcome("prod", None), outcome("dev", Some("full"))];
    let done = migrate(&mut refused, false, &some);
    assert_eq!(done.failed, vec!["dev: full"]);
    assert_eq!(
        refused.workspaces.get("dev").unwrap().api_key,
        "lin_api_dev"
    );
    let payload = migration_payload(&done);
    assert_eq!(payload.at("migrated").as_u64(), Some(1));
    assert_eq!(payload.at("config_cleared").as_bool(), Some(false));
    assert_eq!(
        lines_of_migration(&done),
        vec![
            "\nMigrated 1 workspace(s) to keyring.",
            "Failed to migrate:",
            "  - dev: full"
        ]
    );
}

#[test]
fn key_of_each_workspace_is_moved_under_its_name() {
    let keys = keys_to_move(&config());
    assert_eq!(
        keys,
        vec![
            ("prod".to_string(), "lin_api_prod".to_string()),
            ("dev".to_string(), "lin_api_dev".to_string())
        ]
    );
    assert!(keys_to_move(&Config::default()).is_empty());
}

#[test]
fn migration_is_announced() {
    assert!(check_keyring(true).is_ok());
    assert!(check_keyring(false).is_err());
    let names = workspace_names(&config());
    assert_eq!(names, vec!["prod", "dev"]);
    assert_eq!(
        migration_notice_lines(&names, false),
        vec![
            "This will migrate 2 workspace(s) to the keyring:",
            "  - prod",
            "  - dev",
            "\nAPI keys will be removed from the config file after migration."
        ]
    );
    assert_eq!(migration_notice_lines(&names, true).len(), 3);
    assert_eq!(
        empty_migration_payload().at("message").as_str(),
        Some("No workspaces to migrate")
    );
}

#[test]
fn granted_tokens_are_stored_with_their_scopes() {
    let tokens = FreshTokens {
        access_token: "at".to_string(),
        refresh_token: Some("rt".to_string()),
        expires_at: None,
        token_type: "Bearer".to_string(),
    };
    let stored = granted_config("cid", &tokens, "read, write,");
    assert_eq!(stored.scopes, vec!["read", "write", ""]);
    assert_eq!(stored.refresh_token.as_deref(), Some("rt"));
    assert_eq!(redirect_uri(8484), "http://localhost:8484/callback");
    assert!(user_request().query.contains("email"));
}

#[test]
fn user_of_tokens_is_shown() {
    let user = oauth_user(&json(r#"{"data":{"viewer":{"name":"Jo"}}}"#)).unwrap();
    assert_eq!(user.name, "Jo");
    assert_eq!(user.email, "Unknown");
    assert_eq!(
        oauth_user(&json(r#"{"data":{}}"#)).unwrap_err().to_string(),
        "OAuth token validation failed - could not fetch user info"
    );
    let lines = lines_of_oauth("p", &user, "read", Storage::Config);
    assert_eq!(lines[2], "  User: Jo (Unknown)");
    assert_eq!(lines[4], "  Tokens saved to config for profile 'p'");
    let user = OAuthUser {
        name: "Jo".to_string(),
        email: "jo@x".to_string(),
    };
    let payload = oauth_payload("p", &user, &vec!["read".to_string()], Storage::Keyring);
    assert_eq!(payload.at("email").as_str(), Some("jo@x"));
    assert_eq!(payload.at("storage").as_str(), Some("keyring"));
}

#[test]
fn secure_failure_says_what_to_do() {
    let mut config = config();
    let failure =
        save_granted_secure(&mut config, "prod", &oauth(), ReadBack::Missing).unwrap_err();
    assert!(failure.to_string().starts_with("Secure OAuth storage failed."));
    let locked = ReadBack::Refused(Failure::message("locked"));
    let failure = save_granted_secure(&mut config, "prod", &oauth(), locked).unwrap_err();
    assert!(failure.to_string().starts_with("Secure OAuth storage failed."));
    assert!(matches!(failure.cause, Cause::Message(reason) if reason == "locked"));
    assert!(get_oauth_metadata(&config, "prod").is_none());
    save_granted_secure(&mut config, "prod", &oauth(), ReadBack::Stored(oauth())).unwrap();
    assert_eq!(get_oauth_metadata(&config, "prod").unwrap().access_token, "");
}

#[test]
fn tokens_are_revoked_where_there_are_any() {
    assert_eq!(token_to_revoke("p", &Some(oauth())).unwrap(), "at");
    assert_eq!(
        token_to_revoke("p", &None).unwrap_err().to_string(),
        "No OAuth tokens found for profile 'p'. Use 'auth oauth' to authenticate."
    );
    assert_eq!(
        revoke_warning(&Failure::message("offline")),
        "Warning: Failed to revoke token with Linear: offline\nClearing local tokens anyway..."
    );
    assert!(revoke_payload("p").at("revoked").is_true());
    assert_eq!(revoke_line("p"), "OAuth tokens revoked for profile 'p'");
}
