use linear_cli::config::{
    can_mask, can_mask_all, clear_oauth_config, clear_workspace_keys, config_get,
    config_get_checked, config_key, config_set, current_profile, get_api_key, get_default_team,
    get_oauth_config, get_oauth_metadata, get_stored_default_team, known_config_keys,
    mask_api_key_for_display, migrate_config, oauth_config_has_secrets, oauth_metadata_only,
    oauth_uses_secure_storage, require_team, resolve_profile_name, resolve_team_arg,
    save_oauth_config, save_oauth_config_secure, set_api_key_from_stdin_or_prompt,
    set_default_team, set_workspace_key, show_config, workspace_add,
    workspace_add_from_stdin_or_prompt, workspace_current, workspace_list, workspace_remove,
    workspace_switch, Config, ConfigKey, Environment, OAuthConfig, ReadBack, SecretInput,
    Workspace,
};
use linear_cli::error::Failure;

fn env() -> Environment {
    Environment {
        profile: None,
        team: None,
        api_key: None,
    }
}

fn two_workspaces() -> Config {
    let mut config = Config::default();
    config.current = Some("prod".to_string());
    config
        .workspaces
        .insert("prod", Workspace::with_api_key("lin_api_prod123"));
    config
        .workspaces
        .insert("staging", Workspace::with_api_key("lin_api_staging456"));
    config
}

fn oauth() -> OAuthConfig {
    OAuthConfig {
        client_id: "cid".to_string(),
        access_token: "at".to_string(),
        refresh_token: Some("rt".to_string()),
        expires_at: Some(1700000000),
        token_type: "Bearer".to_string(),
        scopes: vec!["read".to_string()],
    }
}

#[test]
fn test_config_default() {
    let config = Config::default();
    assert!(config.current.is_none());
    assert!(config.workspaces.is_empty());
    assert!(config.api_key.is_none());
}

#[test]
fn test_mask_api_key_for_display_masks_short_linear_keys() {
    assert_eq!(mask_api_key_for_display("lin_short"), "lin_***");
}

#[test]
fn test_mask_api_key_for_display_shows_prefix_and_suffix_for_long_keys() {
    assert_eq!(mask_api_key_for_display("lin_api_prod123"), "lin_***d123");
}

#[test]
fn test_mask_api_key_for_display_masks_non_linear_short_keys() {
    assert_eq!(mask_api_key_for_display("secret"), "***");
}

#[test]
fn test_config_set_rejects_api_key_on_argv() {
    let mut config = two_workspaces();
    let err = config_set(&mut config, &env(), "api-key", "lin_api_secret").unwrap_err();
    assert!(err
        .to_string()
        .contains("Setting api-key via argv is disabled"));
}

#[test]
fn test_config_get_unknown_key_lists_known_keys() {
    let config = two_workspaces();
    let err = config_get("nope", false, &config, &env(), &None, &None).unwrap_err();
    let msg = err.to_string();
    assert!(msg.contains("Unknown config key"));
    assert!(msg.contains("default-team"));
    assert!(msg.contains("api-key"));
    assert!(msg.contains("profile"));
}

#[test]
fn test_known_config_keys() {
    let keys = known_config_keys();
    assert!(keys.contains(&"api-key"));
    assert!(keys.contains(&"profile"));
    assert!(keys.contains(&"default-team"));
}

#[test]
fn test_resolve_team_arg_prefers_cli() {
    assert_eq!(
        resolve_team_arg(Some("CLI".to_string()), None, &env()).as_deref(),
        Some("CLI")
    );
}

#[test]
fn test_resolve_team_arg_empty_cli_falls_through() {
    // Without env/config this is None; empty CLI must not win.
    let result = resolve_team_arg(Some("  ".to_string()), None, &env());
    // May be Some if env is set in the process; never equal to whitespace.
    if let Some(t) = result {
        assert_ne!(t.trim(), "");
    }
}

#[test]
fn mask_cuts_only_between_characters() {
    assert!(can_mask("lin_api_prod123"));
    assert!(can_mask("ééé"));
    assert!(!can_mask("linéabcdefghij"));
    assert!(can_mask_all(&two_workspaces()));
    let mut config = two_workspaces();
    config
        .workspaces
        .insert("odd", Workspace::with_api_key("linéabcdefghij"));
    assert!(!can_mask_all(&config));
}

#[test]
fn masked_keys_show_only_their_ends() {
    assert_eq!(
        mask_api_key_for_display("abcdXXXXXXXXefgh"),
        mask_api_key_for_display("abcdYYYYYYYYefgh")
    );
}

#[test]
fn team_comes_from_flag_then_environment_then_profile() {
    let mut config = two_workspaces();
    let mut with_team = env();
    with_team.team = Some(" OPS ".to_string());
    assert!(set_default_team(&mut config, &env(), &Some(" ENG ".to_string())).is_ok());
    assert_eq!(
        get_stored_default_team(&config, &env()).as_deref(),
        Some("ENG")
    );
    assert_eq!(
        resolve_team_arg(Some(" X ".to_string()), Some(&config), &with_team).as_deref(),
        Some("X")
    );
    assert_eq!(
        get_default_team(Some(&config), &with_team).as_deref(),
        Some("OPS")
    );
    assert_eq!(
        require_team(None, Some(&config), &env()).unwrap(),
        "ENG".to_string()
    );
    assert!(require_team(None, None, &env()).is_err());
}

#[test]
fn default_team_needs_a_workspace() {
    let mut config = Config::default();
    assert!(set_default_team(&mut config, &env(), &Some("ENG".to_string())).is_err());
}

#[test]
fn old_key_moves_to_a_workspace_once() {
    let mut config = Config::default();
    config.api_key = Some("lin_api_legacy".to_string());
    assert!(migrate_config(&mut config));
    assert_eq!(config.current.as_deref(), Some("default"));
    assert_eq!(
        config.workspaces.get("default").unwrap().api_key,
        "lin_api_legacy"
    );
    assert!(config.api_key.is_none());
    assert!(!migrate_config(&mut config));
}

#[test]
fn key_is_taken_from_environment_keyring_and_config_in_turn() {
    let config = two_workspaces();
    let mut with_key = env();
    with_key.api_key = Some("from-env".to_string());
    let stored = Some("from-keyring".to_string());
    assert_eq!(get_api_key(&config, &with_key, &stored).unwrap(), "from-env");
    assert_eq!(get_api_key(&config, &env(), &stored).unwrap(), "from-keyring");
    assert_eq!(
        get_api_key(&config, &env(), &None).unwrap(),
        "lin_api_prod123"
    );
    assert!(get_api_key(&Config::default(), &env(), &None).is_err());
}

#[test]
fn stored_key_is_in_force() {
    let mut config = Config::default();
    set_workspace_key(&mut config, "work", "lin_api_new");
    assert_eq!(config.current.as_deref(), Some("work"));
    assert_eq!(get_api_key(&config, &env(), &None).unwrap(), "lin_api_new");
    assert_eq!(resolve_profile_name(&config, &env()), "work");
}

#[test]
fn piped_secret_is_trimmed_and_not_empty() {
    let mut config = two_workspaces();
    let none = SecretInput::Piped(" \n".to_string());
    assert_eq!(
        set_api_key_from_stdin_or_prompt(&mut config, &env(), none)
            .unwrap_err()
            .to_string(),
        "No secret provided on stdin"
    );
    let piped = SecretInput::Piped(" k \n".to_string());
    set_api_key_from_stdin_or_prompt(&mut config, &env(), piped).unwrap();
    assert_eq!(config.workspaces.get("prod").unwrap().api_key, "k");
    let typed = SecretInput::Typed("t".to_string());
    workspace_add_from_stdin_or_prompt(&mut config, "new", typed).unwrap();
    assert_eq!(config.workspaces.get("new").unwrap().api_key, "t");
}

#[test]
fn profile_of_the_process_comes_first() {
    let config = two_workspaces();
    let mut other = env();
    other.profile = Some("staging".to_string());
    let cached = Some("first".to_string());
    assert_eq!(current_profile(&cached, &config, &other).unwrap(), "first");
    assert_eq!(current_profile(&None, &config, &other).unwrap(), "staging");
    assert_eq!(current_profile(&None, &config, &env()).unwrap(), "prod");
    assert!(current_profile(&None, &Config::default(), &env()).is_err());
}

#[test]
fn settings_are_named_in_any_case() {
    assert!(config_key("API_KEY") == Some(ConfigKey::ApiKey));
    assert!(config_key("Default-Team") == Some(ConfigKey::DefaultTeam));
    assert!(config_key("PROFILE") == Some(ConfigKey::Profile));
    assert!(config_key("nope").is_none());
}

#[test]
fn settings_are_shown() {
    let config = two_workspaces();
    let get = |key: &str, raw: bool| {
        config_get_checked(key, raw, &config, &env(), &None, &None)
            .unwrap()
            .unwrap()
    };
    assert_eq!(get("api-key", false).as_deref(), Some("lin_***d123"));
    assert_eq!(get("api-key", true).as_deref(), Some("lin_api_prod123"));
    assert_eq!(get("profile", false).as_deref(), Some("prod"));
    assert_eq!(get("default-team", false).as_deref(), Some("(not set)"));
    assert_eq!(get("default-team", true), None);
    let mut odd = two_workspaces();
    set_workspace_key(&mut odd, "prod", "linéabcdefghij");
    assert!(config_get_checked("api-key", false, &odd, &env(), &None, &None).is_none());
}

#[test]
fn settings_are_set() {
    let mut config = two_workspaces();
    config_set(&mut config, &env(), "profile", "staging").unwrap();
    assert_eq!(config.current.as_deref(), Some("staging"));
    assert!(config_set(&mut config, &env(), "profile", "missing").is_err());
    config_set(&mut config, &env(), "default-team", "ENG").unwrap();
    assert_eq!(
        get_stored_default_team(&config, &env()).as_deref(),
        Some("ENG")
    );
}

#[test]
fn workspaces_are_listed_with_the_current_one_marked() {
    let lines = workspace_list(&two_workspaces());
    assert_eq!(lines[0], "Configured workspaces:");
    assert_eq!(lines[2], "* prod (lin_***d123)");
    assert_eq!(lines[3], "  staging (lin_***g456)");
    assert_eq!(
        workspace_list(&Config::default()),
        vec!["No workspaces configured. Run: linear workspace add <name>"]
    );
}

#[test]
fn current_workspace_is_shown() {
    assert_eq!(
        workspace_current(&two_workspaces()),
        vec!["Current workspace: prod", "API Key: lin_***d123"]
    );
    let lines = show_config(&two_workspaces(), "/tmp/config.toml", &env());
    assert_eq!(lines[0], "Config file: /tmp/config.toml");
    assert!(lines.contains(&"Default team: (not set)".to_string()));
}

#[test]
fn workspace_names_are_unique() {
    let mut config = two_workspaces();
    assert!(workspace_add(&mut config, "prod", "x").is_err());
    assert!(workspace_add(&mut config, "third", "x").is_ok());
    assert_eq!(config.workspaces.len(), 3);
    assert!(workspace_switch(&mut config, "missing").is_err());
    assert_eq!(
        workspace_switch(&mut config, "third").unwrap(),
        "Switched to workspace 'third'"
    );
}

#[test]
fn removing_the_current_workspace_switches_to_the_first_left() {
    let mut config = two_workspaces();
    let lines = workspace_remove(&mut config, "prod").unwrap();
    assert_eq!(config.current.as_deref(), Some("staging"));
    assert_eq!(
        lines,
        vec![
            "Switched to workspace 'staging'",
            "Workspace 'prod' removed."
        ]
    );
    workspace_remove(&mut config, "staging").unwrap();
    assert_eq!(config.current, None);
    assert_eq!(
        workspace_remove(&mut config, "staging")
            .unwrap_err()
            .to_string(),
        "Workspace 'staging' not found."
    );
}

#[test]
fn tokens_are_saved_and_cleared() {
    let mut config = two_workspaces();
    save_oauth_config(&mut config, "prod", &oauth());
    assert_eq!(
        get_oauth_config(&config, "prod", None).unwrap().access_token,
        "at"
    );
    assert_eq!(
        config.workspaces.get("prod").unwrap().api_key,
        "lin_api_prod123"
    );
    clear_oauth_config(&mut config, "prod");
    assert!(get_oauth_metadata(&config, "prod").is_none());
}

#[test]
fn tokens_in_the_keyring_leave_only_metadata() {
    let mut config = two_workspaces();
    let read_back = ReadBack::Stored(oauth());
    save_oauth_config_secure(&mut config, "prod", &oauth(), read_back).unwrap();
    let kept = get_oauth_metadata(&config, "prod").unwrap();
    assert!(!oauth_config_has_secrets(&kept));
    assert_eq!(kept.client_id, "cid");
    assert!(oauth_uses_secure_storage(&config, "prod", false));
    assert!(get_oauth_config(&config, "prod", None).is_none());
    assert_eq!(
        get_oauth_config(&config, "prod", Some(oauth()))
            .unwrap()
            .access_token,
        "at"
    );
    assert_eq!(oauth_metadata_only(&oauth()).access_token, "");
}

#[test]
fn tokens_that_are_not_read_back_are_refused() {
    let mut config = two_workspaces();
    let mut other = oauth();
    other.access_token = "changed".to_string();
    for (read_back, message) in [
        (ReadBack::Refused(Failure::message("locked")), "locked"),
        (
            ReadBack::Missing,
            "OAuth tokens were written to keyring but could not be read back",
        ),
        (
            ReadBack::Invalid("expected value".to_string()),
            "OAuth token payload read back from keyring was invalid",
        ),
        (
            ReadBack::Stored(other),
            "OAuth tokens stored in keyring could not be verified after saving",
        ),
    ] {
        let failure =
            save_oauth_config_secure(&mut config, "prod", &oauth(), read_back).unwrap_err();
        assert_eq!(failure.to_string(), message);
        assert!(get_oauth_metadata(&config, "prod").is_none());
    }
}

#[test]
fn clearing_keys_keeps_everything_else() {
    let mut config = two_workspaces();
    save_oauth_config(&mut config, "prod", &oauth());
    clear_workspace_keys(&mut config);
    for name in ["prod", "staging"] {
        assert_eq!(config.workspaces.get(name).unwrap().api_key, "");
    }
    assert!(get_oauth_metadata(&config, "prod").is_some());
    assert_eq!(config.current.as_deref(), Some("prod"));
}
