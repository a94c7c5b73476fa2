//! Signing in and out.
use vstd::prelude::*;
use vstd::string::*;

use crate::api::{AuthStateView, FreshTokens, FreshTokensView, Request, RequestView};
use crate::clock;
use crate::config;
use crate::config::{
    Config, ConfigView, Environment, EnvironmentView, OAuthConfig, OAuthConfigView, WorkspaceView,
};
use crate::error::{Failure, FailureView};
use crate::json::{Json, JsonView};
use crate::name_map;
use crate::text;
use crate::text::{joined2, joined3, joined5, same_text};

verus! {

#[derive(Debug)]
pub enum AuthCommands {
    /// Store API key for the current profile
    Login {
        /// API key to store (if omitted, prompt interactively)
        key: Option<String>,
        /// Validate the API key before saving
        validate: bool,
        /// Store in OS keyring instead of config file
        secure: bool,
    },
    /// Remove API key for the current profile
    Logout {
        /// Skip confirmation prompt
        force: bool,
    },
    /// Show current auth status
    Status {
        /// Validate API access
        validate: bool,
    },
    /// Migrate API keys from config file to OS keyring
    Migrate {
        /// Keep keys in config file after migrating
        keep_config: bool,
        force: bool,
    },
    /// Authenticate via OAuth 2.0 (browser-based)
    Oauth {
        /// OAuth client ID (uses default if not specified)
        client_id: Option<String>,
        /// OAuth scopes (comma-separated)
        scopes: String,
        /// Port for localhost callback server
        port: u16,
        /// Store tokens in OS keyring instead of config file
        secure: bool,
    },
    /// Revoke OAuth tokens for the current profile
    Revoke { force: bool },
}

impl AuthCommands {
    pub open spec fn question(self, profile: Seq<char>) -> Option<Seq<char>> {
        match self {
            AuthCommands::Logout { force: false } => Some(
                "Remove API key and profile '"@ + profile + "' from config?"@,
            ),
            AuthCommands::Migrate { force: false, .. } => Some("Continue?"@),
            AuthCommands::Revoke { force: false } => Some(
                "Revoke OAuth tokens for profile '"@ + profile + "'?"@,
            ),
            _ => None,
        }
    }

    /// What the user is asked before a command of a profile goes on; nothing where it goes on
    /// without a question.
    pub fn confirmation(&self, profile: &str) -> (r: Option<String>)
        ensures
            r.deep_view() == self.question(profile@),
    {
        match self {
            AuthCommands::Logout { force: false } => Some(
                joined3("Remove API key and profile '", profile, "' from config?"),
            ),
            AuthCommands::Migrate { force: false, .. } => Some("Continue?".to_string()),
            AuthCommands::Revoke { force: false } => Some(
                joined3("Revoke OAuth tokens for profile '", profile, "'?"),
            ),
            _ => None,
        }
    }
}

/// The profile that a key or tokens are stored for: the environment's, unless it is blank, else
/// the current one, else `default`.
pub open spec fn profile_for_write(config: ConfigView, env: EnvironmentView) -> Seq<char> {
    match env.profile {
        Some(profile) => if text::trim(profile).len() > 0 {
            profile
        } else {
            current_or_default(config)
        },
        None => current_or_default(config),
    }
}

pub open spec fn current_or_default(config: ConfigView) -> Seq<char> {
    match config.current {
        Some(current) => current,
        None => "default"@,
    }
}

pub fn resolve_profile_for_write(config: &Config, env: &Environment) -> (r: String)
    ensures
        r@ == profile_for_write(config@, env@),
{
    match &env.profile {
        Some(profile) => if !text::trimmed(profile.as_str()).as_str().is_empty() {
            return profile.clone();
        },
        None => {},
    }
    match &config.current {
        Some(current) => current.clone(),
        None => "default".to_string(),
    }
}

// ---------------------------------------------------------------------------
// Validation
// ---------------------------------------------------------------------------

pub const KEY_QUERY: &'static str = r#"
        query {
            viewer {
                id
            }
        }
    "#;

pub const TOKEN_QUERY: &'static str = r#"query { viewer { id } }"#;

/// The request that shows whether a key is valid.
pub fn key_request() -> (r: Request)
    ensures
        r@ == RequestView::plain(KEY_QUERY@),
{
    Request::plain(KEY_QUERY)
}

pub open spec fn names_viewer(response: JsonView) -> bool {
    !(response.at("data"@).at("viewer"@) is Null)
}

/// A key is valid where the answer names its user.
pub fn validate_key(response: &Json) -> (r: Result<(), Failure>)
    ensures
        if names_viewer(response@) {
            r is Ok
        } else {
            r is Err && r->Err_0@ == FailureView::message("API key validation failed"@)
        },
{
    if response.at("data").at("viewer").is_null() {
        return Err(Failure::message("API key validation failed"));
    }
    Ok(())
}

// ---------------------------------------------------------------------------
// Login and logout
// ---------------------------------------------------------------------------

/// Where a secret is stored.
#[derive(Clone, Copy, Debug, PartialEq, Eq, Structural)]
pub enum Storage {
    Keyring,
    Config,
}

impl Storage {
    pub open spec fn name(self) -> Seq<char> {
        match self {
            Storage::Keyring => "keyring"@,
            Storage::Config => "config"@,
        }
    }

    pub fn as_text(self) -> (r: &'static str)
        ensures
            r@ == self.name(),
    {
        match self {
            Storage::Keyring => "keyring",
            Storage::Config => "config",
        }
    }
}

/// What is wrong with a key that was read back from the keyring after it was stored there.
pub open spec fn read_back_fault(saved: Option<Seq<char>>, key: Seq<char>) -> Option<Seq<char>> {
    match saved {
        None => Some("API key was written to keyring but could not be read back"@),
        Some(saved) => if saved != key {
            Some("API key stored in keyring could not be verified after saving"@)
        } else {
            None
        },
    }
}

/// Checks that a key is read back from the keyring as it was stored there.
pub fn check_stored_key(saved: &Option<String>, key: &str) -> (r: Result<(), Failure>)
    ensures
        match read_back_fault(saved.deep_view(), key@) {
            Some(message) => r is Err && r->Err_0@ == FailureView::message(message),
            None => r is Ok,
        },
{
    match saved {
        None => Err(
            Failure::message("API key was written to keyring but could not be read back"),
        ),
        Some(saved) => if !same_text(saved.as_str(), key) {
            Err(Failure::message("API key stored in keyring could not be verified after saving"))
        } else {
            Ok(())
        },
    }
}

pub open spec fn login_json(profile: Seq<char>, storage: Storage) -> JsonView {
    JsonView::object().with("profile"@, JsonView::Text(profile)).with(
        "saved"@,
        JsonView::Bool(true),
    ).with("storage"@, JsonView::Text(storage.name()))
}

pub open spec fn login_text(profile: Seq<char>, storage: Storage) -> Seq<char> {
    (match storage {
        Storage::Keyring => "API key saved to keyring for profile '"@,
        Storage::Config => "API key saved for profile '"@,
    }) + profile + "'"@
}

pub fn login_payload(profile: &str, storage: Storage) -> (r: Json)
    ensures
        r@ == login_json(profile@, storage),
{
    Json::object().with("profile", Json::text(profile)).with("saved", Json::Bool(true)).with(
        "storage",
        Json::text(storage.as_text()),
    )
}

pub fn login_line(profile: &str, storage: Storage) -> (r: String)
    ensures
        r@ == login_text(profile@, storage),
{
    match storage {
        Storage::Keyring => joined3("API key saved to keyring for profile '", profile, "'"),
        Storage::Config => joined3("API key saved for profile '", profile, "'"),
    }
}

/// Takes a profile out of the configuration, tokens and all, and says so.
pub fn logout(config: &mut Config, profile: &str) -> (r: Result<Vec<String>, Failure>)
    ensures
        config::changed(
            old(config)@,
            final(config)@,
            r,
            old(config)@.without(old(config).workspaces.pairs(), profile@),
        ),
        r is Ok ==> r->Ok_0.deep_view() == config::removed_lines(
            old(config)@.current,
            final(config)@.current,
            profile@,
        ),
{
    let ghost start = config.workspaces.pairs();
    let ghost before = config@;
    config::clear_oauth_config(config, profile);
    proof {
        let now = config.workspaces.pairs();
        if before.workspaces.contains_key(profile@) {
            let at = name_map::pair_index(start, profile@)->0;
            name_map::pair_index_is_first(start, profile@);
            name_map::same_names_same_index(start, now);
            assert(now.remove(at) =~= start.remove(at));
            assert(name_map::pair_index(now, profile@) == name_map::pair_index(start, profile@));
        }
    }
    match config::workspace_remove(config, profile) {
        Ok(lines) => {
            assert(config@.workspaces =~= before.workspaces.remove(profile@));
            Ok(lines)
        },
        Err(failure) => Err(failure),
    }
}

/// What is shown of a profile for which something was done.
pub open spec fn done_json(profile: Seq<char>, done: Seq<char>) -> JsonView {
    JsonView::object().with("profile"@, JsonView::Text(profile)).with(done, JsonView::Bool(true))
}

pub open spec fn logout_text(profile: Seq<char>) -> Seq<char> {
    "Removed profile '"@ + profile + "'"@
}

pub fn logout_payload(profile: &str) -> (r: Json)
    ensures
        r@ == done_json(profile@, "removed"@),
{
    Json::object().with("profile", Json::text(profile)).with("removed", Json::Bool(true))
}

pub fn logout_line(profile: &str) -> (r: String)
    ensures
        r@ == logout_text(profile@),
{
    joined3("Removed profile '", profile, "'")
}

// ---------------------------------------------------------------------------
// Status
// ---------------------------------------------------------------------------

/// What the keyring holds for a profile.
#[derive(Debug)]
pub struct KeyringFacts {
    pub api_key: Option<String>,
    /// Whether it holds tokens.
    pub has_tokens: bool,
    pub available: bool,
}

#[verifier::ext_equal]
pub struct KeyringFactsView {
    pub api_key: Option<Seq<char>>,
    pub has_tokens: bool,
    pub available: bool,
}

impl View for KeyringFacts {
    type V = KeyringFactsView;

    open spec fn view(&self) -> KeyringFactsView {
        KeyringFactsView {
            api_key: self.api_key.deep_view(),
            has_tokens: self.has_tokens,
            available: self.available,
        }
    }
}

/// How a profile is signed in.
#[derive(Debug)]
pub struct AuthStatus {
    pub profile: Option<String>,
    pub configured: bool,
    pub keyring_configured: bool,
    pub oauth_keyring_configured: bool,
    pub keyring_available: bool,
    /// What the configuration holds of tokens.
    pub oauth: Option<OAuthConfig>,
    pub env_api_key: bool,
    pub env_profile: Option<String>,
}

#[verifier::ext_equal]
pub struct AuthStatusView {
    pub profile: Option<Seq<char>>,
    pub configured: bool,
    pub keyring_configured: bool,
    pub oauth_keyring_configured: bool,
    pub keyring_available: bool,
    pub oauth: Option<OAuthConfigView>,
    pub env_api_key: bool,
    pub env_profile: Option<Seq<char>>,
}

impl View for AuthStatus {
    type V = AuthStatusView;

    open spec fn view(&self) -> AuthStatusView {
        AuthStatusView {
            profile: self.profile.deep_view(),
            configured: self.configured,
            keyring_configured: self.keyring_configured,
            oauth_keyring_configured: self.oauth_keyring_configured,
            keyring_available: self.keyring_available,
            oauth: self.oauth.deep_view(),
            env_api_key: self.env_api_key,
            env_profile: self.env_profile.deep_view(),
        }
    }
}

/// The key of a profile in the configuration; it may be empty.
pub open spec fn config_key(config: ConfigView, profile: Option<Seq<char>>) -> Option<Seq<char>> {
    match profile {
        Some(profile) => if config.workspaces.contains_key(profile) {
            Some(config.workspaces[profile].api_key)
        } else {
            None
        },
        None => None,
    }
}

pub open spec fn profile_tokens(config: ConfigView, profile: Option<Seq<char>>) -> Option<
    OAuthConfigView,
> {
    match profile {
        Some(profile) => config.oauth_metadata(profile),
        None => None,
    }
}

pub open spec fn auth_status(
    config: ConfigView,
    env: EnvironmentView,
    profile: Option<Seq<char>>,
    keyring: KeyringFactsView,
) -> AuthStatusView {
    let in_keyring = keyring.api_key is Some || keyring.has_tokens;
    let oauth = profile_tokens(config, profile);
    AuthStatusView {
        profile,
        configured: config::non_empty(config_key(config, profile)) is Some || in_keyring
            || oauth is Some,
        keyring_configured: in_keyring,
        oauth_keyring_configured: keyring.has_tokens,
        keyring_available: keyring.available,
        oauth,
        env_api_key: config::non_empty(env.api_key) is Some,
        env_profile: config::non_empty(env.profile),
    }
}

fn stored_key(config: &Config, profile: &Option<String>) -> (r: Option<String>)
    ensures
        r.deep_view() == config_key(config@, profile.deep_view()),
{
    match profile {
        Some(profile) => match config.workspaces.get(profile.as_str()) {
            Some(workspace) => Some(workspace.api_key.clone()),
            None => None,
        },
        None => None,
    }
}

/// How a profile is signed in, given what the keyring holds for it.
pub fn status(
    config: &Config,
    env: &Environment,
    profile: &Option<String>,
    keyring: &KeyringFacts,
) -> (r: AuthStatus)
    ensures
        r@ == auth_status(config@, env@, profile.deep_view(), keyring@),
{
    let in_config = config::non_empty_text(&stored_key(config, profile)).is_some();
    let in_keyring = keyring.api_key.is_some() || keyring.has_tokens;
    let oauth = match profile {
        Some(profile) => config::get_oauth_metadata(config, profile.as_str()),
        None => None,
    };
    let configured = in_config || in_keyring || oauth.is_some();
    AuthStatus {
        profile: text::clone_text(profile),
        configured,
        keyring_configured: in_keyring,
        oauth_keyring_configured: keyring.has_tokens,
        keyring_available: keyring.available,
        oauth,
        env_api_key: config::non_empty_text(&env.api_key).is_some(),
        env_profile: config::non_empty_text(&env.profile),
    }
}

/// What is sent to find out whether the sign-in is valid.
#[derive(Debug)]
pub enum Validation {
    /// Nothing: there is neither a key nor a token, and the sign-in is not valid.
    Refused,
    /// A request with an authorization header.
    Ask { header: String, request: Request },
}

#[verifier::ext_equal]
pub enum ValidationView {
    Refused,
    Ask { header: Seq<char>, request: RequestView },
}

impl View for Validation {
    type V = ValidationView;

    open spec fn view(&self) -> ValidationView {
        match self {
            Validation::Refused => ValidationView::Refused,
            Validation::Ask { header, request } => ValidationView::Ask {
                header: header@,
                request: request@,
            },
        }
    }
}

/// The key that is in force without tokens: the environment's, else the keyring's, else that of
/// the configuration.
pub open spec fn key_in_force(
    config: ConfigView,
    env: EnvironmentView,
    profile: Option<Seq<char>>,
    keyring_key: Option<Seq<char>>,
) -> Option<Seq<char>> {
    match config::non_empty(env.api_key) {
        Some(key) => Some(key),
        None => match keyring_key {
            Some(key) => Some(key),
            None => config_key(config, profile),
        },
    }
}

/// A profile with an OAuth part in the configuration is validated by its tokens, any other one
/// by the key in force.
pub open spec fn validation(
    config: ConfigView,
    env: EnvironmentView,
    profile: Option<Seq<char>>,
    keyring_key: Option<Seq<char>>,
    tokens: Option<OAuthConfigView>,
) -> ValidationView {
    if profile_tokens(config, profile) is Some {
        match tokens {
            Some(oauth) => ValidationView::Ask {
                header: "Bearer "@ + oauth.access_token,
                request: RequestView::plain(TOKEN_QUERY@),
            },
            None => ValidationView::Refused,
        }
    } else {
        match key_in_force(config, env, profile, keyring_key) {
            Some(key) => ValidationView::Ask {
                header: key,
                request: RequestView::plain(KEY_QUERY@),
            },
            None => ValidationView::Refused,
        }
    }
}

/// What is sent to find out whether a sign-in is valid, given its tokens.
pub fn validation_request(
    config: &Config,
    env: &Environment,
    profile: &Option<String>,
    keyring: &KeyringFacts,
    tokens: &Option<OAuthConfig>,
) -> (r: Validation)
    ensures
        r@ == validation(
            config@,
            env@,
            profile.deep_view(),
            keyring@.api_key,
            tokens.deep_view(),
        ),
{
    let has_oauth = match profile {
        Some(profile) => config::get_oauth_metadata(config, profile.as_str()).is_some(),
        None => false,
    };
    if has_oauth {
        return match tokens {
            Some(oauth) => Validation::Ask {
                header: joined2("Bearer ", oauth.access_token.as_str()),
                request: Request::plain(TOKEN_QUERY),
            },
            None => Validation::Refused,
        };
    }
    let key = match config::non_empty_text(&env.api_key) {
        Some(key) => Some(key),
        None => match &keyring.api_key {
            Some(key) => Some(key.clone()),
            None => stored_key(config, profile),
        },
    };
    match key {
        Some(key) => Validation::Ask { header: key, request: key_request() },
        None => Validation::Refused,
    }
}

pub open spec fn valid(answer: Option<JsonView>) -> bool {
    answer is Some && names_viewer(answer->0)
}

/// Whether a sign-in is valid, given the answer to the request; none where it failed.
pub fn is_valid(answer: &Option<Json>) -> (r: bool)
    ensures
        r == valid(answer.deep_view()),
{
    match answer {
        Some(response) => !response.at("data").at("viewer").is_null(),
        None => false,
    }
}

pub open spec fn opt_bool(value: Option<bool>) -> JsonView {
    match value {
        Some(b) => JsonView::Bool(b),
        None => JsonView::Null,
    }
}

pub open spec fn auth_type(oauth: Option<OAuthConfigView>) -> Seq<char> {
    if oauth is Some {
        "oauth"@
    } else {
        "api_key"@
    }
}

pub open spec fn status_json(status: AuthStatusView, validated: Option<bool>) -> JsonView {
    JsonView::object().with("profile"@, JsonView::opt_text(status.profile)).with(
        "configured"@,
        JsonView::Bool(status.configured),
    ).with("keyring_configured"@, JsonView::Bool(status.keyring_configured)).with(
        "oauth_keyring_configured"@,
        JsonView::Bool(status.oauth_keyring_configured),
    ).with("keyring_available"@, JsonView::Bool(status.keyring_available)).with(
        "auth_type"@,
        JsonView::Text(auth_type(status.oauth)),
    ).with("oauth_configured"@, JsonView::Bool(status.oauth is Some)).with(
        "oauth_scopes"@,
        match status.oauth {
            Some(oauth) => JsonView::texts(oauth.scopes),
            None => JsonView::Null,
        },
    ).with(
        "oauth_expires_at"@,
        match status.oauth {
            Some(oauth) => match oauth.expires_at {
                Some(expires) => JsonView::integer(expires),
                None => JsonView::Null,
            },
            None => JsonView::Null,
        },
    ).with("env_api_key"@, JsonView::Bool(status.env_api_key)).with(
        "env_profile"@,
        JsonView::opt_text(status.env_profile),
    ).with("validated"@, opt_bool(validated))
}

fn auth_type_of(oauth: &Option<OAuthConfig>) -> (r: &'static str)
    ensures
        r@ == auth_type(oauth.deep_view()),
{
    if oauth.is_some() {
        "oauth"
    } else {
        "api_key"
    }
}

pub fn status_payload(status: &AuthStatus, validated: Option<bool>) -> (r: Json)
    ensures
        r@ == status_json(status@, validated),
{
    let scopes = match &status.oauth {
        Some(oauth) => Json::texts(&oauth.scopes),
        None => Json::Null,
    };
    let expires = match &status.oauth {
        Some(oauth) => match oauth.expires_at {
            Some(expires) => Json::integer(expires),
            None => Json::Null,
        },
        None => Json::Null,
    };
    let validated = match validated {
        Some(b) => Json::Bool(b),
        None => Json::Null,
    };
    Json::object().with("profile", Json::opt_text(&status.profile)).with(
        "configured",
        Json::Bool(status.configured),
    ).with("keyring_configured", Json::Bool(status.keyring_configured)).with(
        "oauth_keyring_configured",
        Json::Bool(status.oauth_keyring_configured),
    ).with("keyring_available", Json::Bool(status.keyring_available)).with(
        "auth_type",
        Json::text(auth_type_of(&status.oauth)),
    ).with("oauth_configured", Json::Bool(status.oauth.is_some())).with(
        "oauth_scopes",
        scopes,
    ).with("oauth_expires_at", expires).with("env_api_key", Json::Bool(status.env_api_key)).with(
        "env_profile",
        Json::opt_text(&status.env_profile),
    ).with("validated", validated)
}

pub open spec fn yes_no(value: bool) -> Seq<char> {
    if value {
        "yes"@
    } else {
        "no"@
    }
}

fn yes_or_no(value: bool) -> (r: &'static str)
    ensures
        r@ == yes_no(value),
{
    if value {
        "yes"
    } else {
        "no"
    }
}

pub open spec fn status_lines(
    status: AuthStatusView,
    validated: Option<bool>,
    scopes: Seq<char>,
    expiry: Option<Seq<char>>,
) -> Seq<Seq<char>> {
    let first = seq![
        "Profile: "@ + (match status.profile {
            Some(profile) => profile,
            None => "none"@,
        }),
        "Config file: "@ + yes_no(status.configured),
        "Keyring: "@ + yes_no(status.keyring_configured),
        "Keyring available: "@ + yes_no(status.keyring_available),
        "OAuth keyring: "@ + yes_no(status.oauth_keyring_configured),
        "Env API key override: "@ + yes_no(status.env_api_key),
    ];
    let checked = match validated {
        Some(valid) => seq!["Validated: "@ + yes_no(valid)],
        None => Seq::empty(),
    };
    let kind = seq!["Auth type: "@ + auth_type(status.oauth)];
    let tokens = match status.oauth {
        Some(oauth) => seq!["OAuth scopes: "@ + scopes] + (match oauth.expires_at {
            Some(_) => seq![
                "OAuth expires: "@ + (match expiry {
                    Some(shown) => shown,
                    None => "unknown"@,
                }),
            ],
            None => Seq::empty(),
        }),
        None => Seq::empty(),
    };
    first + checked + kind + tokens
}

/// The lines that show a status, given its scopes and the expiry of its tokens as they are
/// shown.
pub fn lines_with_expiry(
    status: &AuthStatus,
    validated: Option<bool>,
    scopes: &str,
    expiry: Option<String>,
) -> (r: Vec<String>)
    ensures
        r.deep_view() == status_lines(status@, validated, scopes@, expiry.deep_view()),
{
    let profile = match &status.profile {
        Some(profile) => profile.clone(),
        None => "none".to_string(),
    };
    let mut lines = vec![
        joined2("Profile: ", profile.as_str()),
        joined2("Config file: ", yes_or_no(status.configured)),
        joined2("Keyring: ", yes_or_no(status.keyring_configured)),
        joined2("Keyring available: ", yes_or_no(status.keyring_available)),
        joined2("OAuth keyring: ", yes_or_no(status.oauth_keyring_configured)),
        joined2("Env API key override: ", yes_or_no(status.env_api_key)),
    ];
    match validated {
        Some(valid) => {
            lines.push(joined2("Validated: ", yes_or_no(valid)));
        },
        None => {},
    }
    lines.push(joined2("Auth type: ", auth_type_of(&status.oauth)));
    match &status.oauth {
        Some(oauth) => {
            lines.push(joined2("OAuth scopes: ", scopes));
            if oauth.expires_at.is_some() {
                let shown = match &expiry {
                    Some(shown) => shown.clone(),
                    None => "unknown".to_string(),
                };
                lines.push(joined2("OAuth expires: ", shown.as_str()));
            }
        },
        None => {},
    }
    assert(lines.deep_view() =~= status_lines(status@, validated, scopes@, expiry.deep_view()));
    lines
}

pub open spec fn shown_expiry(oauth: Option<OAuthConfigView>) -> Option<Seq<char>> {
    match oauth {
        Some(oauth) => match oauth.expires_at {
            Some(expires) => clock::shown_utc(expires, clock::UTC_FORMAT@),
            None => None,
        },
        None => None,
    }
}

pub open spec fn shown_scopes(oauth: Option<OAuthConfigView>) -> Seq<char> {
    match oauth {
        Some(oauth) => text::debug_notation(oauth.scopes),
        None => ""@,
    }
}

/// The lines that show a status.
pub fn lines_of_status(status: &AuthStatus, validated: Option<bool>) -> (r: Vec<String>)
    ensures
        r.deep_view() == status_lines(
            status@,
            validated,
            shown_scopes(status@.oauth),
            shown_expiry(status@.oauth),
        ),
{
    let scopes = match &status.oauth {
        Some(oauth) => text::debug_text(&oauth.scopes),
        None => "".to_string(),
    };
    let expiry = match &status.oauth {
        Some(oauth) => match oauth.expires_at {
            Some(expires) => clock::utc_text(expires, clock::UTC_FORMAT),
            None => None,
        },
        None => None,
    };
    lines_with_expiry(status, validated, scopes.as_str(), expiry)
}

/// The environment's key is used before any other, the keyring's before that of the
/// configuration, and none of them where the profile has tokens.
pub proof fn keys_are_tried_in_order(
    config: ConfigView,
    env: EnvironmentView,
    profile: Option<Seq<char>>,
    keyring_key: Option<Seq<char>>,
    tokens: Option<OAuthConfigView>,
)
    ensures
        ({
            let sent = validation(config, env, profile, keyring_key, tokens);
            let asked = |key: Seq<char>|
                ValidationView::Ask { header: key, request: RequestView::plain(KEY_QUERY@) };
            let env_key = config::non_empty(env.api_key);
            if profile_tokens(config, profile) is Some {
                sent is Ask ==> tokens is Some && sent->header == "Bearer "@
                    + tokens->0.access_token
            } else if env_key is Some {
                sent == asked(env_key->0)
            } else if keyring_key is Some {
                sent == asked(keyring_key->0)
            } else if config_key(config, profile) is Some {
                sent == asked(config_key(config, profile)->0)
            } else {
                sent is Refused
            }
        }),
{
}

// ---------------------------------------------------------------------------
// Migration
// ---------------------------------------------------------------------------

/// Checks that the keyring can be migrated to.
pub fn check_keyring(available: bool) -> (r: Result<(), Failure>)
    ensures
        if available {
            r is Ok
        } else {
            r is Err && r->Err_0@ == FailureView::message(
                "Keyring is not available on this system. Check that a secret service is running."@,
            )
        },
{
    if !available {
        return Err(
            Failure::message(
                "Keyring is not available on this system. Check that a secret service is running.",
            ),
        );
    }
    Ok(())
}

pub const NOTHING_TO_MIGRATE: &'static str = "No workspaces to migrate";

/// What is shown where there is nothing to migrate.
pub fn empty_migration_payload() -> (r: Json)
    ensures
        r@ == JsonView::object().with("migrated"@, JsonView::integer(0)).with(
            "message"@,
            JsonView::Text(NOTHING_TO_MIGRATE@),
        ),
{
    Json::object().with("migrated", Json::integer(0)).with(
        "message",
        Json::text(NOTHING_TO_MIGRATE),
    )
}

pub open spec fn item_lines(names: Seq<Seq<char>>) -> Seq<Seq<char>> {
    Seq::new(names.len(), |i: int| "  - "@ + names[i])
}

fn push_items(lines: &mut Vec<String>, names: &Vec<String>)
    ensures
        final(lines).deep_view() == old(lines).deep_view() + item_lines(names.deep_view()),
{
    let ghost start = lines.deep_view();
    let ghost all = names.deep_view();
    let mut i: usize = 0;
    assert(lines.deep_view() =~= start + item_lines(all.take(0)));
    while i < names.len()
        invariant
            i <= names@.len(),
            all == names.deep_view(),
            lines.deep_view() == start + item_lines(all.take(i as int)),
        decreases names@.len() - i,
    {
        let ghost before = lines.deep_view();
        let line = joined2("  - ", names[i].as_str());
        lines.push(line);
        assert(lines.deep_view() =~= before.push(line@));
        i += 1;
        assert(lines.deep_view() =~= start + item_lines(all.take(i as int)));
    }
    assert(all.take(i as int) =~= all);
}

/// The names of the workspaces of a configuration.
pub fn workspace_names(config: &Config) -> (r: Vec<String>)
    ensures
        r.deep_view() == config.workspaces.names(),
{
    let mut names: Vec<String> = Vec::new();
    let count = config.workspaces.len();
    let mut i: usize = 0;
    assert(names.deep_view() =~= config.workspaces.names().take(0));
    while i < count
        invariant
            i <= count,
            count == config.workspaces.pairs().len(),
            names.deep_view() == config.workspaces.names().take(i as int),
        decreases count - i,
    {
        let ghost before = names.deep_view();
        let name = config.workspaces.name_at(i).to_string();
        names.push(name);
        assert(names.deep_view() =~= before.push(name@));
        i += 1;
        assert(names.deep_view() =~= config.workspaces.names().take(i as int));
    }
    assert(config.workspaces.names().take(i as int) =~= config.workspaces.names());
    names
}

/// The keys that a migration moves, each with the name of its workspace.
pub open spec fn moved_keys(pairs: Seq<(Seq<char>, WorkspaceView)>) -> Seq<
    (Seq<char>, Seq<char>),
> {
    Seq::new(pairs.len(), |i: int| (pairs[i].0, pairs[i].1.api_key))
}

/// The keys that a migration moves: the key of each workspace, in the order of the workspaces,
/// with the name that it is stored under.
pub fn keys_to_move(config: &Config) -> (r: Vec<(String, String)>)
    ensures
        r.deep_view() == moved_keys(config.workspaces.pairs()),
{
    let ghost all = moved_keys(config.workspaces.pairs());
    let mut keys: Vec<(String, String)> = Vec::new();
    let count = config.workspaces.len();
    let mut i: usize = 0;
    assert(keys.deep_view() =~= all.take(0));
    while i < count
        invariant
            i <= count,
            count == config.workspaces.pairs().len(),
            all == moved_keys(config.workspaces.pairs()),
            keys.deep_view() == all.take(i as int),
        decreases count - i,
    {
        let ghost before = keys.deep_view();
        let name = config.workspaces.name_at(i).to_string();
        let key = config.workspaces.value_at(i).api_key.clone();
        keys.push((name, key));
        assert(keys.deep_view() =~= before.push((name@, key@)));
        i += 1;
        assert(keys.deep_view() =~= all.take(i as int));
    }
    assert(all.take(i as int) =~= all);
    keys
}

pub open spec fn migration_notice(names: Seq<Seq<char>>, keep_config: bool) -> Seq<Seq<char>> {
    let listed = seq![
        "This will migrate "@ + text::decimal(names.len()) + " workspace(s) to the keyring:"@,
    ] + item_lines(names);
    if keep_config {
        listed
    } else {
        listed.push("\nAPI keys will be removed from the config file after migration."@)
    }
}

/// What the user is shown before the migration is confirmed.
pub fn migration_notice_lines(names: &Vec<String>, keep_config: bool) -> (r: Vec<String>)
    ensures
        r.deep_view() == migration_notice(names.deep_view(), keep_config),
{
    let count = text::count_text(names.len());
    let mut lines = vec![
        joined3("This will migrate ", count.as_str(), " workspace(s) to the keyring:"),
    ];
    assert(lines.deep_view() =~= seq![
        "This will migrate "@ + text::decimal(names@.len()) + " workspace(s) to the keyring:"@,
    ]);
    push_items(&mut lines, names);
    let ghost listed = lines.deep_view();
    if !keep_config {
        let note = "\nAPI keys will be removed from the config file after migration.".to_string();
        lines.push(note);
        assert(lines.deep_view() =~= listed.push(note@));
    }
    assert(lines.deep_view() =~= migration_notice(names.deep_view(), keep_config));
    lines
}

/// What became of the key of one workspace.
#[derive(Debug)]
pub struct Migrated {
    pub name: String,
    /// Why the keyring did not take it.
    pub error: Option<String>,
}

#[verifier::ext_equal]
pub struct MigratedView {
    pub name: Seq<char>,
    pub error: Option<Seq<char>>,
}

impl View for Migrated {
    type V = MigratedView;

    open spec fn view(&self) -> MigratedView {
        MigratedView { name: self.name@, error: self.error.deep_view() }
    }
}

pub open spec fn migrated_views(outcomes: Seq<Migrated>) -> Seq<MigratedView> {
    Seq::new(outcomes.len(), |i: int| outcomes[i]@)
}

/// The workspaces whose keys were tried, in order.
pub open spec fn tried(outcomes: Seq<MigratedView>) -> Seq<Seq<char>> {
    Seq::new(outcomes.len(), |i: int| outcomes[i].name)
}

/// How many keys the keyring took.
pub open spec fn moved(outcomes: Seq<MigratedView>) -> nat
    decreases outcomes.len(),
{
    if outcomes.len() == 0 {
        0
    } else {
        moved(outcomes.drop_last()) + (if outcomes.last().error is None {
            1nat
        } else {
            0nat
        })
    }
}

/// What is said of the keys that the keyring did not take.
pub open spec fn refusals(outcomes: Seq<MigratedView>) -> Seq<Seq<char>>
    decreases outcomes.len(),
{
    if outcomes.len() == 0 {
        Seq::empty()
    } else {
        let before = refusals(outcomes.drop_last());
        match outcomes.last().error {
            Some(error) => before.push(outcomes.last().name + ": "@ + error),
            None => before,
        }
    }
}

/// What a migration comes to.
#[derive(Debug)]
pub struct Migration {
    pub migrated: usize,
    pub failed: Vec<String>,
    /// Whether the keys are taken out of the configuration.
    pub config_cleared: bool,
}

#[verifier::ext_equal]
pub struct MigrationView {
    pub migrated: nat,
    pub failed: Seq<Seq<char>>,
    pub config_cleared: bool,
}

impl View for Migration {
    type V = MigrationView;

    open spec fn view(&self) -> MigrationView {
        MigrationView {
            migrated: self.migrated as nat,
            failed: self.failed.deep_view(),
            config_cleared: self.config_cleared,
        }
    }
}

pub open spec fn migration(outcomes: Seq<MigratedView>, keep_config: bool) -> MigrationView {
    MigrationView {
        migrated: moved(outcomes),
        failed: refusals(outcomes),
        config_cleared: !keep_config && refusals(outcomes).len() == 0,
    }
}

/// The configuration after a migration.
pub open spec fn after_migration(
    config: ConfigView,
    outcomes: Seq<MigratedView>,
    keep_config: bool,
) -> ConfigView {
    if migration(outcomes, keep_config).config_cleared {
        config.without_keys()
    } else {
        config
    }
}

/// Ends a migration in which the key of every workspace was tried: the keys leave the
/// configuration where that is wanted and the keyring took them all.
pub fn migrate(config: &mut Config, keep_config: bool, outcomes: &Vec<Migrated>) -> (r: Migration)
    requires
        tried(migrated_views(outcomes@)) == old(config).workspaces.names(),
    ensures
        r@ == migration(migrated_views(outcomes@), keep_config),
        final(config)@ == after_migration(old(config)@, migrated_views(outcomes@), keep_config),
{
    let ghost all = migrated_views(outcomes@);
    let mut migrated: usize = 0;
    let mut failed: Vec<String> = Vec::new();
    let mut i: usize = 0;
    assert(all.take(0).len() == 0);
    assert(failed.deep_view() =~= refusals(all.take(0)));
    while i < outcomes.len()
        invariant
            i <= outcomes@.len(),
            all == migrated_views(outcomes@),
            migrated <= i,
            migrated == moved(all.take(i as int)),
            failed.deep_view() == refusals(all.take(i as int)),
        decreases outcomes@.len() - i,
    {
        assert(all.take(i + 1).drop_last() =~= all.take(i as int));
        assert(all.take(i + 1).last() == outcomes@[i as int]@);
        match &outcomes[i].error {
            Some(error) => {
                let ghost before = failed.deep_view();
                let line = joined3(outcomes[i].name.as_str(), ": ", error.as_str());
                failed.push(line);
                assert(failed.deep_view() =~= before.push(line@));
            },
            None => {
                migrated += 1;
            },
        }
        i += 1;
    }
    assert(all.take(i as int) =~= all);
    let config_cleared = !keep_config && failed.len() == 0;
    if config_cleared {
        config::clear_workspace_keys(config);
    }
    Migration { migrated, failed, config_cleared }
}

pub open spec fn migration_json(
    migrated: u64,
    failed: Seq<Seq<char>>,
    config_cleared: bool,
) -> JsonView {
    JsonView::object().with(
        "migrated"@,
        JsonView::Number(crate::json::JsonNumberView::Unsigned(migrated)),
    ).with("failed"@, JsonView::texts(failed)).with(
        "config_cleared"@,
        JsonView::Bool(config_cleared),
    )
}

pub fn migration_payload(migration: &Migration) -> (r: Json)
    ensures
        r@ == migration_json(
            migration.migrated as u64,
            migration@.failed,
            migration@.config_cleared,
        ),
{
    Json::object().with("migrated", Json::number(migration.migrated as u64)).with(
        "failed",
        Json::texts(&migration.failed),
    ).with("config_cleared", Json::Bool(migration.config_cleared))
}

pub open spec fn migration_lines(migration: MigrationView) -> Seq<Seq<char>> {
    let first = seq![
        "\nMigrated "@ + text::decimal(migration.migrated) + " workspace(s) to keyring."@,
    ];
    let failed = if migration.failed.len() > 0 {
        seq!["Failed to migrate:"@] + item_lines(migration.failed)
    } else {
        Seq::empty()
    };
    let cleared = if migration.config_cleared {
        seq!["API keys removed from config file."@]
    } else {
        Seq::empty()
    };
    first + failed + cleared
}

pub fn lines_of_migration(migration: &Migration) -> (r: Vec<String>)
    ensures
        r.deep_view() == migration_lines(migration@),
{
    let count = text::count_text(migration.migrated);
    let mut lines = vec![joined3("\nMigrated ", count.as_str(), " workspace(s) to keyring.")];
    let ghost first = lines.deep_view();
    assert(first =~= seq![
        "\nMigrated "@ + text::decimal(migration@.migrated) + " workspace(s) to keyring."@,
    ]);
    if migration.failed.len() > 0 {
        lines.push("Failed to migrate:".to_string());
        assert(lines.deep_view() =~= first + seq!["Failed to migrate:"@]);
        push_items(&mut lines, &migration.failed);
    }
    let ghost shown = lines.deep_view();
    if migration.config_cleared {
        lines.push("API keys removed from config file.".to_string());
        assert(lines.deep_view() =~= shown + seq!["API keys removed from config file."@]);
    }
    assert(lines.deep_view() =~= migration_lines(migration@));
    lines
}

/// Every key is either moved or refused; where one is refused, or the keys are to be kept, the
/// configuration keeps them.
pub proof fn keys_are_cleared_only_when_all_moved(outcomes: Seq<MigratedView>, keep_config: bool)
    ensures
        moved(outcomes) + refusals(outcomes).len() == outcomes.len(),
        migration(outcomes, keep_config).config_cleared <==> !keep_config && forall|i: int|
            0 <= i < outcomes.len() ==> (#[trigger] outcomes[i]).error is None,
    decreases outcomes.len(),
{
    if outcomes.len() > 0 {
        let rest = outcomes.drop_last();
        keys_are_cleared_only_when_all_moved(rest, keep_config);
        assert(forall|i: int| 0 <= i < rest.len() ==> #[trigger] rest[i] == outcomes[i]);
        assert(forall|i: int| 0 <= i < rest.len() ==> #[trigger] outcomes[i] == rest[i]);
        assert(outcomes[outcomes.len() - 1] == outcomes.last());
    }
}

/// Where the keys leave the configuration, the keyring took the key of every workspace under the
/// name of that workspace.
pub proof fn cleared_keys_are_in_the_keyring(
    pairs: Seq<(Seq<char>, WorkspaceView)>,
    outcomes: Seq<MigratedView>,
    keep_config: bool,
    i: int,
)
    requires
        tried(outcomes).len() == pairs.len(),
        forall|k: int| 0 <= k < pairs.len() ==> #[trigger] tried(outcomes)[k] == pairs[k].0,
        migration(outcomes, keep_config).config_cleared,
        0 <= i < pairs.len(),
    ensures
        outcomes[i].name == moved_keys(pairs)[i].0,
        outcomes[i].error is None,
        moved_keys(pairs)[i].1 == pairs[i].1.api_key,
        migration(outcomes, keep_config).migrated == pairs.len(),
{
    keys_are_cleared_only_when_all_moved(outcomes, keep_config);
    assert(tried(outcomes)[i] == outcomes[i].name);
}

// ---------------------------------------------------------------------------
// OAuth
// ---------------------------------------------------------------------------

pub open spec fn callback_url(port: u16) -> Seq<char> {
    "http://localhost:"@ + text::decimal(port as nat) + "/callback"@
}

/// Where the browser is sent back to.
pub fn redirect_uri(port: u16) -> (r: String)
    ensures
        r@ == callback_url(port),
{
    joined3("http://localhost:", text::decimal_text(port as u64).as_str(), "/callback")
}

pub const USER_QUERY: &'static str = r#"query { viewer { id name email } }"#;

/// The request that shows whose tokens were given.
pub fn user_request() -> (r: Request)
    ensures
        r@ == RequestView::plain(USER_QUERY@),
{
    Request::plain(USER_QUERY)
}

/// Whose tokens were given.
#[derive(Debug)]
pub struct OAuthUser {
    pub name: String,
    pub email: String,
}

pub open spec fn viewer_text(response: JsonView, field: Seq<char>) -> Seq<char> {
    response.at("data"@).at("viewer"@).at(field).text_or("Unknown"@)
}

/// The name and the address of the user in an answer.
pub open spec fn token_user(response: JsonView) -> (Seq<char>, Seq<char>) {
    (viewer_text(response, "name"@), viewer_text(response, "email"@))
}

/// The user in the answer to `user_request`.
pub fn oauth_user(response: &Json) -> (r: Result<OAuthUser, Failure>)
    ensures
        if names_viewer(response@) {
            r is Ok && (r->Ok_0.name@, r->Ok_0.email@) == token_user(response@)
        } else {
            r is Err && r->Err_0@ == FailureView::message(
                "OAuth token validation failed - could not fetch user info"@,
            )
        },
{
    let viewer = response.at("data").at("viewer");
    if viewer.is_null() {
        return Err(
            Failure::message("OAuth token validation failed - could not fetch user info"),
        );
    }
    Ok(
        OAuthUser {
            name: viewer.at("name").text_or("Unknown"),
            email: viewer.at("email").text_or("Unknown"),
        },
    )
}

/// What is stored of tokens that were given for some scopes.
pub open spec fn granted(
    client_id: Seq<char>,
    tokens: FreshTokensView,
    scopes: Seq<char>,
) -> OAuthConfigView {
    OAuthConfigView {
        client_id,
        access_token: tokens.access_token,
        refresh_token: tokens.refresh_token,
        expires_at: tokens.expires_at,
        token_type: tokens.token_type,
        scopes: text::trimmed_parts(scopes, ','),
    }
}

/// What is stored of tokens that were given for some scopes, separated by commas.
pub fn granted_config(client_id: &str, tokens: &FreshTokens, scopes: &str) -> (r: OAuthConfig)
    ensures
        r@ == granted(client_id@, tokens@, scopes@),
{
    OAuthConfig {
        client_id: client_id.to_string(),
        access_token: tokens.access_token.clone(),
        refresh_token: text::clone_text(&tokens.refresh_token),
        expires_at: tokens.expires_at,
        token_type: tokens.token_type.clone(),
        scopes: text::split_trimmed(scopes, ','),
    }
}

pub const SECURE_STORAGE_HINT: &'static str =
    "Secure OAuth storage failed. On macOS, locally built or unsigned binaries may not be able to read back Keychain items. Try the official signed release or fall back to plain `linear-cli auth oauth`.";

/// Stores tokens whose secrets went to the keyring, once they were read back from there; a
/// failure says what can be done about it.
pub fn save_granted_secure(
    config: &mut Config,
    profile: &str,
    oauth: &OAuthConfig,
    read_back: config::ReadBack,
) -> (r: Result<(), Failure>)
    ensures
        match config::read_back_fault(oauth@, read_back) {
            Some(failure) => r is Err && r->Err_0@ == failure.with_context(SECURE_STORAGE_HINT@)
                && final(config)@ == old(config)@,
            None => r is Ok && final(config)@ == old(config)@.save_oauth(
                profile@,
                oauth@.metadata_only(),
            ),
        },
{
    match config::save_oauth_config_secure(config, profile, oauth, read_back) {
        Ok(_) => Ok(()),
        Err(failure) => Err(failure.with_context(SECURE_STORAGE_HINT)),
    }
}

pub open spec fn granted_json(
    profile: Seq<char>,
    name: Seq<char>,
    email: Seq<char>,
    scopes: Seq<Seq<char>>,
    storage: Storage,
) -> JsonView {
    JsonView::object().with("profile"@, JsonView::Text(profile)).with(
        "auth_type"@,
        JsonView::Text("oauth"@),
    ).with("user"@, JsonView::Text(name)).with("email"@, JsonView::Text(email)).with(
        "scopes"@,
        JsonView::texts(scopes),
    ).with("storage"@, JsonView::Text(storage.name())).with("saved"@, JsonView::Bool(true))
}

pub fn oauth_payload(profile: &str, user: &OAuthUser, scopes: &Vec<String>, storage: Storage) -> (r:
    Json)
    ensures
        r@ == granted_json(profile@, user.name@, user.email@, scopes.deep_view(), storage),
{
    Json::object().with("profile", Json::text(profile)).with("auth_type", Json::text("oauth")).with(
        "user",
        Json::text(user.name.as_str()),
    ).with("email", Json::text(user.email.as_str())).with("scopes", Json::texts(scopes)).with(
        "storage",
        Json::text(storage.as_text()),
    ).with("saved", Json::Bool(true))
}

pub open spec fn granted_lines(
    profile: Seq<char>,
    name: Seq<char>,
    email: Seq<char>,
    scopes: Seq<char>,
    storage: Storage,
) -> Seq<Seq<char>> {
    seq![
        ""@,
        "OAuth authentication successful!"@,
        "  User: "@ + name + " ("@ + email + ")"@,
        "  Scopes: "@ + scopes,
        "  Tokens saved to "@ + storage.name() + " for profile '"@ + profile + "'"@,
    ]
}

pub fn lines_of_oauth(profile: &str, user: &OAuthUser, scopes: &str, storage: Storage) -> (r: Vec<
    String,
>)
    ensures
        r.deep_view() == granted_lines(profile@, user.name@, user.email@, scopes@, storage),
{
    let lines = vec![
        "".to_string(),
        "OAuth authentication successful!".to_string(),
        joined5("  User: ", user.name.as_str(), " (", user.email.as_str(), ")"),
        joined2("  Scopes: ", scopes),
        joined5("  Tokens saved to ", storage.as_text(), " for profile '", profile, "'"),
    ];
    assert(lines.deep_view() =~= granted_lines(
        profile@,
        user.name@,
        user.email@,
        scopes@,
        storage,
    ));
    lines
}

/// The token that is revoked, or why none is.
pub open spec fn revoked_token(profile: Seq<char>, tokens: Option<OAuthConfigView>) -> Result<
    Seq<char>,
    Seq<char>,
> {
    match tokens {
        Some(oauth) => Ok(oauth.access_token),
        None => Err(
            "No OAuth tokens found for profile '"@ + profile
                + "'. Use 'auth oauth' to authenticate."@,
        ),
    }
}

/// The access token that is revoked for a profile.
pub fn token_to_revoke(profile: &str, tokens: &Option<OAuthConfig>) -> (r: Result<String, Failure>)
    ensures
        config::text_result(r, revoked_token(profile@, tokens.deep_view())),
{
    match tokens {
        Some(oauth) => Ok(oauth.access_token.clone()),
        None => Err(
            Failure::message(
                joined3(
                    "No OAuth tokens found for profile '",
                    profile,
                    "'. Use 'auth oauth' to authenticate.",
                ).as_str(),
            ),
        ),
    }
}

pub open spec fn revoke_text(failure: FailureView) -> Seq<char> {
    "Warning: Failed to revoke token with Linear: "@ + failure.shown()
        + "\nClearing local tokens anyway..."@
}

pub open spec fn revoked_text(profile: Seq<char>) -> Seq<char> {
    "OAuth tokens revoked for profile '"@ + profile + "'"@
}

/// What is said where Linear does not revoke a token; it is cleared all the same.
pub fn revoke_warning(failure: &Failure) -> (r: String)
    ensures
        r@ == revoke_text(failure@),
{
    joined3(
        "Warning: Failed to revoke token with Linear: ",
        failure.to_string().as_str(),
        "\nClearing local tokens anyway...",
    )
}

pub fn revoke_payload(profile: &str) -> (r: Json)
    ensures
        r@ == done_json(profile@, "revoked"@),
{
    Json::object().with("profile", Json::text(profile)).with("revoked", Json::Bool(true))
}

pub fn revoke_line(profile: &str) -> (r: String)
    ensures
        r@ == revoked_text(profile@),
{
    joined3("OAuth tokens revoked for profile '", profile, "'")
}

/// A profile that was signed out is gone with its key and its tokens, and every other one stays.
pub proof fn signed_out_profile_is_gone(
    config: ConfigView,
    after: ConfigView,
    profile: Seq<char>,
    other: Seq<char>,
)
    requires
        after.workspaces == config.workspaces.remove(profile),
    ensures
        config_key(after, Some(profile)) is None,
        after.oauth_metadata(profile) is None,
        other != profile ==> config_key(after, Some(other)) == config_key(config, Some(other)),
        other != profile ==> after.oauth_metadata(other) == config.oauth_metadata(other),
{
}

// ---------------------------------------------------------------------------
// What is asked, stored and shown of a sign-in
// ---------------------------------------------------------------------------

/// A command that takes something away asks first, and names the profile where it takes that
/// away, unless it is forced; no other command asks.
pub proof fn removals_are_confirmed(command: AuthCommands, profile: Seq<char>)
    ensures
        match command {
            AuthCommands::Logout { force } => (command.question(profile) is Some <==> !force) && (
            !force ==> text::contains_text(command.question(profile)->0, profile)),
            AuthCommands::Revoke { force } => (command.question(profile) is Some <==> !force) && (
            !force ==> text::contains_text(command.question(profile)->0, profile)),
            AuthCommands::Migrate { force, .. } => command.question(profile) is Some <==> !force,
            _ => command.question(profile) is None,
        },
{
    let removal = "Remove API key and profile '"@ + profile + "' from config?"@;
    let from = "Remove API key and profile '"@.len() as int;
    assert(removal.subrange(from, from + profile.len()) =~= profile);
    text::subrange_occurs(removal, from, from + profile.len());
    let revocation = "Revoke OAuth tokens for profile '"@ + profile + "'?"@;
    let start = "Revoke OAuth tokens for profile '"@.len() as int;
    assert(revocation.subrange(start, start + profile.len()) =~= profile);
    text::subrange_occurs(revocation, start, start + profile.len());
}

/// A secret is stored for the profile of the environment, unless that is blank, else for the
/// current one, else for `default`.
pub proof fn secrets_are_stored_for_the_profile_in_use(config: ConfigView, env: EnvironmentView)
    ensures
        ({
            let blank = env.profile is None || text::trim(env.profile->0).len() == 0;
            &&& !blank ==> profile_for_write(config, env) == env.profile->0
            &&& blank && config.current is Some ==> profile_for_write(config, env)
                == config.current->0
            &&& blank && config.current is None ==> profile_for_write(config, env) == "default"@
        }),
{
}

/// A sign-in is valid exactly where its request was answered with a user.
pub proof fn valid_sign_in_names_its_user(answer: Option<JsonView>)
    ensures
        valid(answer) <==> answer is Some && answer->0.at("data"@).at("viewer"@) != JsonView::Null,
{
}

/// A key counts as stored in the keyring exactly where it is read back as it is.
pub proof fn stored_key_is_read_back(saved: Option<Seq<char>>, key: Seq<char>)
    ensures
        read_back_fault(saved, key) is None <==> saved == Some(key),
{
}

/// What is said of a sign-in, a sign-out or a revocation holds the profile, and of a sign-in
/// where the key was stored.
pub proof fn profile_is_told(profile: Seq<char>, storage: Storage, failure: FailureView)
    ensures
        login_json(profile, storage).get("profile"@) == Some(JsonView::Text(profile)),
        login_json(profile, storage).get("saved"@) == Some(JsonView::Bool(true)),
        storage is Keyring ==> login_json(profile, storage).get("storage"@) == Some(
            JsonView::Text("keyring"@),
        ),
        storage is Config ==> login_json(profile, storage).get("storage"@) == Some(
            JsonView::Text("config"@),
        ),
        done_json(profile, "removed"@).get("profile"@) == Some(JsonView::Text(profile)),
        done_json(profile, "removed"@).get("removed"@) == Some(JsonView::Bool(true)),
        done_json(profile, "revoked"@).get("profile"@) == Some(JsonView::Text(profile)),
        done_json(profile, "revoked"@).get("revoked"@) == Some(JsonView::Bool(true)),
        text::contains_text(login_text(profile, storage), profile),
        text::contains_text(logout_text(profile), profile),
        text::contains_text(revoked_text(profile), profile),
        text::contains_text(revoke_text(failure), failure.shown()),
{
    broadcast use crate::json::group_fields;

    reveal_strlit("profile");
    reveal_strlit("saved");
    reveal_strlit("storage");
    reveal_strlit("removed");
    reveal_strlit("revoked");
    assert("profile"@.len() == 7 && "saved"@.len() == 5 && "storage"@.len() == 7);
    assert("removed"@.len() == 7 && "revoked"@.len() == 7);
    assert("profile"@[0] != "storage"@[0]);
    assert("profile"@[0] != "removed"@[0]);
    assert("profile"@[0] != "revoked"@[0]);
    let first = JsonView::object().with("profile"@, JsonView::Text(profile));
    assert(first.get("profile"@) == Some(JsonView::Text(profile)));
    let said = login_text(profile, storage);
    let from = match storage {
        Storage::Keyring => "API key saved to keyring for profile '"@.len() as int,
        Storage::Config => "API key saved for profile '"@.len() as int,
    };
    assert(said.subrange(from, from + profile.len()) =~= profile);
    text::subrange_occurs(said, from, from + profile.len());
    let out = logout_text(profile);
    let out_from = "Removed profile '"@.len() as int;
    assert(out.subrange(out_from, out_from + profile.len()) =~= profile);
    text::subrange_occurs(out, out_from, out_from + profile.len());
    let revoked = revoked_text(profile);
    let revoked_from = "OAuth tokens revoked for profile '"@.len() as int;
    assert(revoked.subrange(revoked_from, revoked_from + profile.len()) =~= profile);
    text::subrange_occurs(revoked, revoked_from, revoked_from + profile.len());
    let warning = revoke_text(failure);
    let shown = failure.shown();
    let warning_from = "Warning: Failed to revoke token with Linear: "@.len() as int;
    assert(warning.subrange(warning_from, warning_from + shown.len()) =~= shown);
    text::subrange_occurs(warning, warning_from, warning_from + shown.len());
}

/// A profile counts as signed in exactly where it has a key in the configuration, tokens, or
/// something in the keyring; the status says which.
pub proof fn status_tells_where_secrets_are(
    config: ConfigView,
    env: EnvironmentView,
    profile: Seq<char>,
    keyring: KeyringFactsView,
)
    ensures
        ({
            let status = auth_status(config, env, Some(profile), keyring);
            let known = config.workspaces.contains_key(profile);
            &&& status.profile == Some(profile)
            &&& status.configured <==> keyring.api_key is Some || keyring.has_tokens || (known && (
            config.workspaces[profile].api_key.len() > 0 || config.workspaces[profile].oauth
                is Some))
            &&& status.keyring_configured <==> keyring.api_key is Some || keyring.has_tokens
            &&& status.oauth_keyring_configured == keyring.has_tokens
            &&& status.keyring_available == keyring.available
            &&& known ==> status.oauth == config.workspaces[profile].oauth
            &&& !known ==> status.oauth is None
            &&& status.env_api_key <==> env.api_key is Some && env.api_key->0.len() > 0
            &&& env.profile is Some && env.profile->0.len() > 0 ==> status.env_profile
                == env.profile
            &&& env.profile is None ==> status.env_profile is None
        }),
{
}

proof fn status_keys_differ()
    ensures
        ({
            let keys = seq![
                "profile"@,
                "configured"@,
                "keyring_configured"@,
                "oauth_keyring_configured"@,
                "keyring_available"@,
                "auth_type"@,
                "oauth_configured"@,
                "oauth_scopes"@,
                "oauth_expires_at"@,
                "env_api_key"@,
                "env_profile"@,
                "validated"@,
            ];
            forall|i: int, j: int|
                0 <= i < keys.len() && 0 <= j < keys.len() && i != j ==> #[trigger] keys[i]
                    != #[trigger] keys[j]
        }),
{
    reveal_strlit("profile");
    reveal_strlit("configured");
    reveal_strlit("keyring_configured");
    reveal_strlit("oauth_keyring_configured");
    reveal_strlit("keyring_available");
    reveal_strlit("auth_type");
    reveal_strlit("oauth_configured");
    reveal_strlit("oauth_scopes");
    reveal_strlit("oauth_expires_at");
    reveal_strlit("env_api_key");
    reveal_strlit("env_profile");
    reveal_strlit("validated");
    assert("profile"@.len() == 7 && "configured"@.len() == 10);
    assert("keyring_configured"@.len() == 18 && "oauth_keyring_configured"@.len() == 24);
    assert("keyring_available"@.len() == 17 && "auth_type"@.len() == 9);
    assert("oauth_configured"@.len() == 16 && "oauth_scopes"@.len() == 12);
    assert("oauth_expires_at"@.len() == 16 && "env_api_key"@.len() == 11);
    assert("env_profile"@.len() == 11 && "validated"@.len() == 9);
    assert("auth_type"@[0] != "validated"@[0]);
    assert("oauth_configured"@[6] != "oauth_expires_at"@[6]);
    assert("env_api_key"@[4] != "env_profile"@[4]);
}

/// A status is told field by field.
pub proof fn status_is_told_field_by_field(status: AuthStatusView, validated: Option<bool>)
    ensures
        ({
            let value = status_json(status, validated);
            &&& value.at("profile"@).as_str() == status.profile
            &&& value.at("configured"@) == JsonView::Bool(status.configured)
            &&& value.at("keyring_configured"@) == JsonView::Bool(status.keyring_configured)
            &&& value.at("oauth_keyring_configured"@) == JsonView::Bool(
                status.oauth_keyring_configured,
            )
            &&& value.at("keyring_available"@) == JsonView::Bool(status.keyring_available)
            &&& status.oauth is Some ==> value.at("auth_type"@) == JsonView::Text("oauth"@)
            &&& status.oauth is None ==> value.at("auth_type"@) == JsonView::Text("api_key"@)
            &&& value.at("oauth_configured"@) == JsonView::Bool(status.oauth is Some)
            &&& status.oauth matches Some(oauth) ==> value.at("oauth_scopes"@) == JsonView::texts(
                oauth.scopes,
            ) && value.at("oauth_expires_at"@).as_i64() == oauth.expires_at
            &&& value.at("env_api_key"@) == JsonView::Bool(status.env_api_key)
            &&& value.at("env_profile"@).as_str() == status.env_profile
            &&& validated matches Some(valid) ==> value.at("validated"@) == JsonView::Bool(valid)
            &&& validated is None ==> value.at("validated"@) is Null
        }),
{
    broadcast use crate::json::group_fields;

    status_keys_differ();
    let keys = seq![
        "profile"@,
        "configured"@,
        "keyring_configured"@,
        "oauth_keyring_configured"@,
        "keyring_available"@,
        "auth_type"@,
        "oauth_configured"@,
        "oauth_scopes"@,
        "oauth_expires_at"@,
        "env_api_key"@,
        "env_profile"@,
        "validated"@,
    ];
    assert(keys[0] == "profile"@ && keys[1] == "configured"@ && keys[2] == "keyring_configured"@);
    assert(keys[3] == "oauth_keyring_configured"@ && keys[4] == "keyring_available"@);
    assert(keys[5] == "auth_type"@ && keys[6] == "oauth_configured"@ && keys[7]
        == "oauth_scopes"@);
    assert(keys[8] == "oauth_expires_at"@ && keys[9] == "env_api_key"@ && keys[10]
        == "env_profile"@ && keys[11] == "validated"@);
    let value = status_json(status, validated);
    assert(value.get("profile"@) == Some(JsonView::opt_text(status.profile)));
    assert(value.get("env_profile"@) == Some(JsonView::opt_text(status.env_profile)));
    assert(value.get("auth_type"@) == Some(JsonView::Text(auth_type(status.oauth))));
    assert(value.get("validated"@) == Some(opt_bool(validated)));
    assert(value.get("configured"@) == Some(JsonView::Bool(status.configured)));
    assert(value.get("keyring_configured"@) == Some(JsonView::Bool(status.keyring_configured)));
}

/// The lines of a status show its profile and answer each question with yes or no.
pub proof fn status_lines_show_the_status(
    status: AuthStatusView,
    validated: Option<bool>,
    scopes: Seq<char>,
    expiry: Option<Seq<char>>,
)
    ensures
        ({
            let lines = status_lines(status, validated, scopes, expiry);
            let answer = |line: int, question: Seq<char>, value: bool|
                lines[line] == question + (if value {
                    "yes"@
                } else {
                    "no"@
                });
            &&& status.profile matches Some(profile) ==> lines[0] == "Profile: "@ + profile
            &&& answer(1, "Config file: "@, status.configured)
            &&& answer(2, "Keyring: "@, status.keyring_configured)
            &&& answer(3, "Keyring available: "@, status.keyring_available)
            &&& answer(4, "OAuth keyring: "@, status.oauth_keyring_configured)
            &&& answer(5, "Env API key override: "@, status.env_api_key)
            &&& validated matches Some(valid) ==> answer(6, "Validated: "@, valid)
            &&& status.oauth is None ==> lines.last() == "Auth type: "@ + "api_key"@
            &&& status.oauth matches Some(oauth) ==> oauth.expires_at is None ==> lines.last()
                == "OAuth scopes: "@ + scopes
            &&& status.oauth is Some && status.oauth->0.expires_at is Some && expiry is Some
                ==> lines.last() == "OAuth expires: "@ + expiry->0
        }),
{
}

/// A migration moves the key of each workspace under the name of the workspace, and names
/// each workspace before it starts.
pub proof fn every_workspace_is_migrated(
    pairs: Seq<(Seq<char>, WorkspaceView)>,
    names: Seq<Seq<char>>,
    keep_config: bool,
    i: int,
)
    ensures
        moved_keys(pairs).len() == pairs.len(),
        0 <= i < pairs.len() ==> moved_keys(pairs)[i].0 == pairs[i].0 && moved_keys(pairs)[i].1
            == pairs[i].1.api_key,
        0 <= i < names.len() ==> migration_notice(names, keep_config)[i + 1] == "  - "@ + names[i],
        text::contains_text(migration_notice(names, keep_config)[0], text::decimal(names.len())),
        migration_notice(names, false).len() == migration_notice(names, true).len() + 1,
{
    let first = migration_notice(names, keep_config)[0];
    let count = text::decimal(names.len());
    let from = "This will migrate "@.len() as int;
    assert(first.subrange(from, from + count.len()) =~= count);
    text::subrange_occurs(first, from, from + count.len());
}

/// A key that the keyring took is counted, and one that it refused is told with its workspace
/// and the reason.
pub proof fn refused_keys_are_told(outcomes: Seq<MigratedView>, one: MigratedView)
    ensures
        moved(Seq::empty()) == 0,
        refusals(Seq::empty()).len() == 0,
        one.error is None ==> moved(outcomes.push(one)) == moved(outcomes) + 1 && refusals(
            outcomes.push(one),
        ) == refusals(outcomes),
        one.error matches Some(error) ==> moved(outcomes.push(one)) == moved(outcomes) && refusals(
            outcomes.push(one),
        ) == refusals(outcomes).push(one.name + ": "@ + error),
{
    assert(outcomes.push(one).drop_last() =~= outcomes);
}

/// After a migration the keys are gone from the configuration exactly where the keyring took
/// them all and they were not to be kept; nothing else of it changes.
pub proof fn migration_clears_what_was_moved(
    config: ConfigView,
    outcomes: Seq<MigratedView>,
    keep_config: bool,
    name: Seq<char>,
)
    requires
        config.workspaces.contains_key(name),
    ensures
        ({
            let after = after_migration(config, outcomes, keep_config);
            let all_moved = forall|i: int|
                0 <= i < outcomes.len() ==> (#[trigger] outcomes[i]).error is None;
            &&& !keep_config && all_moved ==> after.workspaces[name].api_key.len() == 0
            &&& keep_config || !all_moved ==> after == config
            &&& after.current == config.current
            &&& after.workspaces.contains_key(name)
            &&& after.workspaces[name].oauth == config.workspaces[name].oauth
            &&& after.workspaces[name].default_team == config.workspaces[name].default_team
        }),
{
    keys_are_cleared_only_when_all_moved(outcomes, keep_config);
    config::clearing_keys_keeps_the_rest(config, name);
}

/// What is shown of a migration holds its numbers and what was refused.
pub proof fn migration_is_told(migration: MigrationView, migrated: u64, i: int)
    ensures
        ({
            let value = migration_json(migrated, migration.failed, migration.config_cleared);
            &&& value.at("migrated"@).as_u64() == Some(migrated)
            &&& value.at("failed"@) == JsonView::texts(migration.failed)
            &&& value.at("config_cleared"@) == JsonView::Bool(migration.config_cleared)
        }),
        ({
            let lines = migration_lines(migration);
            &&& text::contains_text(lines[0], text::decimal(migration.migrated))
            &&& 0 <= i < migration.failed.len() ==> lines[i + 2] == "  - "@ + migration.failed[i]
            &&& migration.config_cleared ==> lines.last() == "API keys removed from config file."@
        }),
{
    broadcast use crate::json::group_fields;

    reveal_strlit("migrated");
    reveal_strlit("failed");
    reveal_strlit("config_cleared");
    assert("migrated"@.len() == 8 && "failed"@.len() == 6 && "config_cleared"@.len() == 14);
    let value = migration_json(migrated, migration.failed, migration.config_cleared);
    assert(value.get("migrated"@) == Some(
        JsonView::Number(crate::json::JsonNumberView::Unsigned(migrated)),
    ));
    let first = migration_lines(migration)[0];
    let count = text::decimal(migration.migrated);
    let from = "\nMigrated "@.len() as int;
    assert(first.subrange(from, from + count.len()) =~= count);
    text::subrange_occurs(first, from, from + count.len());
}

/// The browser is sent back to the port that is listened on.
pub proof fn callback_is_on_the_port(port: u16)
    ensures
        text::starts_with(callback_url(port), "http://localhost:"@),
        text::contains_text(callback_url(port), text::decimal(port as nat)),
{
    let url = callback_url(port);
    let number = text::decimal(port as nat);
    let from = "http://localhost:"@.len() as int;
    assert(url.subrange(0, from) =~= "http://localhost:"@);
    assert(url.subrange(from, from + number.len()) =~= number);
    text::subrange_occurs(url, from, from + number.len());
}

/// Tokens that were given are stored as they are, authenticate as they should, and hold the
/// scopes between the commas.
pub proof fn granted_tokens_are_stored(
    client_id: Seq<char>,
    profile: Seq<char>,
    tokens: FreshTokensView,
    scope: Seq<char>,
    rest: Seq<char>,
)
    requires
        !scope.contains(','),
    ensures
        ({
            let stored = granted(client_id, tokens, scope);
            &&& stored.client_id == client_id
            &&& stored.access_token == tokens.access_token
            &&& stored.refresh_token == tokens.refresh_token
            &&& stored.expires_at == tokens.expires_at
            &&& stored.token_type == tokens.token_type
            &&& stored.scopes == seq![text::trim(scope)]
            &&& AuthStateView::from_tokens(profile, stored).header() == "Bearer "@
                + tokens.access_token
            &&& granted(client_id, tokens, scope.push(',') + rest).scopes == seq![
                text::trim(scope),
            ] + granted(client_id, tokens, rest).scopes
        }),
{
    text::split_without_separator(scope, ',');
    text::split_behind_separator(scope, ',', rest);
    assert(granted(client_id, tokens, scope).scopes =~= seq![text::trim(scope)]);
    assert(granted(client_id, tokens, scope.push(',') + rest).scopes =~= seq![text::trim(scope)]
        + granted(client_id, tokens, rest).scopes);
}

/// What is shown of tokens that were given holds the profile, the user, the scopes and the
/// storage.
pub proof fn granted_tokens_are_told(
    profile: Seq<char>,
    name: Seq<char>,
    email: Seq<char>,
    scopes: Seq<Seq<char>>,
    storage: Storage,
)
    ensures
        ({
            let value = granted_json(profile, name, email, scopes, storage);
            &&& value.get("profile"@) == Some(JsonView::Text(profile))
            &&& value.get("user"@) == Some(JsonView::Text(name))
            &&& value.get("email"@) == Some(JsonView::Text(email))
            &&& value.get("scopes"@) == Some(JsonView::texts(scopes))
            &&& value.get("auth_type"@) == Some(JsonView::Text("oauth"@))
            &&& value.get("storage"@) == Some(JsonView::Text(storage.name()))
            &&& value.get("saved"@) == Some(JsonView::Bool(true))
        }),
        storage.name() == "keyring"@ || storage.name() == "config"@,
{
    broadcast use crate::json::group_fields;

    reveal_strlit("profile");
    reveal_strlit("auth_type");
    reveal_strlit("user");
    reveal_strlit("email");
    reveal_strlit("scopes");
    reveal_strlit("storage");
    reveal_strlit("saved");
    assert("profile"@.len() == 7 && "auth_type"@.len() == 9 && "user"@.len() == 4);
    assert("email"@.len() == 5 && "scopes"@.len() == 6 && "storage"@.len() == 7);
    assert("saved"@.len() == 5);
    assert("profile"@[0] != "storage"@[0]);
    assert("email"@[0] != "saved"@[0]);
}

/// The lines of tokens that were given show the user, the scopes, the storage and the
/// profile.
pub proof fn granted_lines_show_the_user(
    profile: Seq<char>,
    name: Seq<char>,
    email: Seq<char>,
    scopes: Seq<char>,
    storage: Storage,
)
    ensures
        ({
            let lines = granted_lines(profile, name, email, scopes, storage);
            &&& lines[2] == "  User: "@ + name + " ("@ + email + ")"@
            &&& lines[3] == "  Scopes: "@ + scopes
            &&& text::contains_text(lines[4], storage.name())
            &&& text::contains_text(lines[4], profile)
        }),
{
    let line = granted_lines(profile, name, email, scopes, storage)[4];
    let from = "  Tokens saved to "@.len() as int;
    let to = from + storage.name().len();
    assert(line.subrange(from, to) =~= storage.name());
    text::subrange_occurs(line, from, to);
    let start = to + " for profile '"@.len();
    assert(line.subrange(start, start + profile.len()) =~= profile);
    text::subrange_occurs(line, start, start + profile.len());
}

/// The token that is revoked is the access token of the profile; a profile without tokens is
/// named in the failure.
pub proof fn access_token_is_revoked(profile: Seq<char>, oauth: OAuthConfigView)
    ensures
        revoked_token(profile, Some(oauth)) == Ok::<Seq<char>, Seq<char>>(oauth.access_token),
        revoked_token(profile, None) is Err,
        text::contains_text(revoked_token(profile, None)->Err_0, profile),
{
    let message = revoked_token(profile, None)->Err_0;
    let from = "No OAuth tokens found for profile '"@.len() as int;
    assert(message.subrange(from, from + profile.len()) =~= profile);
    text::subrange_occurs(message, from, from + profile.len());
}

/// The user of some tokens is read from the answer.
pub proof fn user_is_read_from_the_answer(response: JsonView)
    ensures
        ({
            let viewer = response.at("data"@).at("viewer"@);
            &&& viewer.at("name"@) is Text ==> token_user(response).0 == viewer.at("name"@)->Text_0
            &&& viewer.at("email"@) is Text ==> token_user(response).1 == viewer.at(
                "email"@,
            )->Text_0
        }),
{
}

} // verus!
