//! The configuration: workspaces with their credentials, and the rules by which
//! a profile, a team and a key are chosen.
use vstd::prelude::*;
use vstd::string::*;
use vstd::utf8;

use crate::error::{Failure, FailureView};
use crate::name_map;
use crate::name_map::NameMap;
use crate::text;
use crate::text::{clone_text, joined2, joined3, same_text};

verus! {

#[derive(Debug)]
pub struct OAuthConfig {
    pub client_id: String,
    pub access_token: String,
    pub refresh_token: Option<String>,
    pub expires_at: Option<i64>,
    pub token_type: String,
    pub scopes: Vec<String>,
}

#[verifier::ext_equal]
pub struct OAuthConfigView {
    pub client_id: Seq<char>,
    pub access_token: Seq<char>,
    pub refresh_token: Option<Seq<char>>,
    pub expires_at: Option<i64>,
    pub token_type: Seq<char>,
    pub scopes: Seq<Seq<char>>,
}

impl View for OAuthConfig {
    type V = OAuthConfigView;

    open spec fn view(&self) -> OAuthConfigView {
        OAuthConfigView {
            client_id: self.client_id@,
            access_token: self.access_token@,
            refresh_token: self.refresh_token.deep_view(),
            expires_at: self.expires_at,
            token_type: self.token_type@,
            scopes: self.scopes.deep_view(),
        }
    }
}

impl DeepView for OAuthConfig {
    type V = OAuthConfigView;

    open spec fn deep_view(&self) -> OAuthConfigView {
        self@
    }
}

impl OAuthConfigView {
    /// A token is held.
    pub open spec fn has_secrets(self) -> bool {
        self.access_token.len() > 0 || (self.refresh_token is Some && self.refresh_token->0.len()
            > 0)
    }

    /// The same without the tokens.
    pub open spec fn metadata_only(self) -> OAuthConfigView {
        OAuthConfigView { access_token: Seq::empty(), refresh_token: None, ..self }
    }
}

/// What is kept without the tokens holds no secrets, and is itself so already.
pub proof fn metadata_holds_no_secrets(oauth: OAuthConfigView)
    ensures
        !oauth.metadata_only().has_secrets(),
        oauth.metadata_only().metadata_only() == oauth.metadata_only(),
{
}

impl Clone for OAuthConfig {
    fn clone(&self) -> (r: OAuthConfig)
        ensures
            r@ == self@,
    {
        let r = OAuthConfig {
            client_id: self.client_id.clone(),
            access_token: self.access_token.clone(),
            refresh_token: clone_text(&self.refresh_token),
            expires_at: self.expires_at,
            token_type: self.token_type.clone(),
            scopes: text::clone_texts(&self.scopes),
        };
        assert(r@ =~= self@);
        r
    }
}

#[derive(Debug)]
pub struct Workspace {
    pub api_key: String,
    pub oauth: Option<OAuthConfig>,
    /// Default team key or name for commands that accept a team.
    pub default_team: Option<String>,
}

#[verifier::ext_equal]
pub struct WorkspaceView {
    pub api_key: Seq<char>,
    pub oauth: Option<OAuthConfigView>,
    pub default_team: Option<Seq<char>>,
}

impl View for Workspace {
    type V = WorkspaceView;

    open spec fn view(&self) -> WorkspaceView {
        WorkspaceView {
            api_key: self.api_key@,
            oauth: self.oauth.deep_view(),
            default_team: self.default_team.deep_view(),
        }
    }
}

impl WorkspaceView {
    pub open spec fn with_api_key(api_key: Seq<char>) -> WorkspaceView {
        WorkspaceView { api_key, oauth: None, default_team: None }
    }
}

fn clone_oauth(oauth: &Option<OAuthConfig>) -> (r: Option<OAuthConfig>)
    ensures
        r.deep_view() == oauth.deep_view(),
{
    match oauth {
        Some(oauth) => Some(oauth.clone()),
        None => None,
    }
}

impl Clone for Workspace {
    fn clone(&self) -> (r: Workspace)
        ensures
            r@ == self@,
    {
        Workspace {
            api_key: self.api_key.clone(),
            oauth: clone_oauth(&self.oauth),
            default_team: clone_text(&self.default_team),
        }
    }
}

impl Workspace {
    pub fn with_api_key(api_key: &str) -> (r: Workspace)
        ensures
            r@ == WorkspaceView::with_api_key(api_key@),
    {
        Workspace { api_key: api_key.to_string(), oauth: None, default_team: None }
    }
}

pub struct Config {
    pub current: Option<String>,
    pub workspaces: NameMap<Workspace>,
    /// Key of a configuration that has no workspaces yet.
    pub api_key: Option<String>,
}

#[verifier::ext_equal]
pub struct ConfigView {
    pub current: Option<Seq<char>>,
    pub workspaces: Map<Seq<char>, WorkspaceView>,
    pub api_key: Option<Seq<char>>,
}

impl View for Config {
    type V = ConfigView;

    open spec fn view(&self) -> ConfigView {
        ConfigView {
            current: self.current.deep_view(),
            workspaces: self.workspaces@,
            api_key: self.api_key.deep_view(),
        }
    }
}

impl Default for Config {
    fn default() -> (r: Config)
        ensures
            r@ == (ConfigView { current: None, workspaces: Map::empty(), api_key: None }),
            r.workspaces.pairs().len() == 0,
    {
        Config { current: None, workspaces: NameMap::new(), api_key: None }
    }
}

/// The settings that the process environment gives.
pub struct Environment {
    /// `LINEAR_CLI_PROFILE`
    pub profile: Option<String>,
    /// `LINEAR_CLI_TEAM`
    pub team: Option<String>,
    /// `LINEAR_API_KEY`
    pub api_key: Option<String>,
}

#[verifier::ext_equal]
pub struct EnvironmentView {
    pub profile: Option<Seq<char>>,
    pub team: Option<Seq<char>>,
    pub api_key: Option<Seq<char>>,
}

impl View for Environment {
    type V = EnvironmentView;

    open spec fn view(&self) -> EnvironmentView {
        EnvironmentView {
            profile: self.profile.deep_view(),
            team: self.team.deep_view(),
            api_key: self.api_key.deep_view(),
        }
    }
}

/// A text that is there and not empty.
pub open spec fn non_empty(value: Option<Seq<char>>) -> Option<Seq<char>> {
    match value {
        Some(s) => if s.len() > 0 {
            Some(s)
        } else {
            None
        },
        None => None,
    }
}

/// A text without its outer white space, if anything is left.
pub open spec fn trimmed_value(value: Option<Seq<char>>) -> Option<Seq<char>> {
    match value {
        Some(s) => non_empty(Some(text::trim(s))),
        None => None,
    }
}

pub fn non_empty_text(value: &Option<String>) -> (r: Option<String>)
    ensures
        r.deep_view() == non_empty(value.deep_view()),
{
    match value {
        Some(s) => if s.as_str().is_empty() {
            None
        } else {
            Some(s.clone())
        },
        None => None,
    }
}

fn trimmed_text(value: &Option<String>) -> (r: Option<String>)
    ensures
        r.deep_view() == trimmed_value(value.deep_view()),
{
    match value {
        Some(s) => non_empty_text(&Some(text::trimmed(s.as_str()))),
        None => None,
    }
}

impl EnvironmentView {
    pub open spec fn profile(self) -> Option<Seq<char>> {
        non_empty(self.profile)
    }
}

impl ConfigView {
    /// The workspace of a name, or a blank one.
    pub open spec fn workspace(self, name: Seq<char>) -> WorkspaceView {
        if self.workspaces.contains_key(name) {
            self.workspaces[name]
        } else {
            WorkspaceView::with_api_key(""@)
        }
    }

    /// The configuration with a current workspace chosen, if there was none.
    pub open spec fn chosen(self, name: Seq<char>) -> ConfigView {
        ConfigView {
            current: match self.current {
                Some(current) => Some(current),
                None => Some(name),
            },
            ..self
        }
    }

    pub open spec fn with_workspace(self, name: Seq<char>, workspace: WorkspaceView) -> ConfigView {
        ConfigView { workspaces: self.workspaces.insert(name, workspace), ..self }
    }

    pub open spec fn set_key(self, name: Seq<char>, key: Seq<char>) -> ConfigView {
        self.with_workspace(
            name,
            WorkspaceView { api_key: key, ..self.workspace(name) },
        ).chosen(name)
    }

    pub open spec fn save_oauth(self, name: Seq<char>, oauth: OAuthConfigView) -> ConfigView {
        self.with_workspace(
            name,
            WorkspaceView { oauth: Some(oauth), ..self.workspace(name) },
        ).chosen(name)
    }

    pub open spec fn clear_oauth(self, name: Seq<char>) -> ConfigView {
        if self.workspaces.contains_key(name) {
            self.with_workspace(name, WorkspaceView { oauth: None, ..self.workspaces[name] })
        } else {
            self
        }
    }

    /// The profile in use: the environment's, else the current one, else `default`.
    pub open spec fn profile_name(self, env: EnvironmentView) -> Seq<char> {
        match env.profile() {
            Some(profile) => profile,
            None => match self.current {
                Some(current) => current,
                None => "default"@,
            },
        }
    }

    /// The profile in use, where one was chosen.
    pub open spec fn selected(self, env: EnvironmentView) -> Option<Seq<char>> {
        match env.profile() {
            Some(profile) => Some(profile),
            None => self.current,
        }
    }

    pub open spec fn stored_default_team(self, env: EnvironmentView) -> Option<Seq<char>> {
        let name = self.profile_name(env);
        if self.workspaces.contains_key(name) && trimmed_value(self.workspaces[name].default_team)
            is Some {
            self.workspaces[name].default_team
        } else {
            None
        }
    }

    pub open spec fn oauth_metadata(self, profile: Seq<char>) -> Option<OAuthConfigView> {
        if self.workspaces.contains_key(profile) {
            self.workspaces[profile].oauth
        } else {
            None
        }
    }

    /// The configuration with a key that stands outside the workspaces moved into
    /// the workspace `default`, unless there is one.
    pub open spec fn migrated(self) -> ConfigView {
        let cleared = ConfigView { api_key: None, ..self };
        if self.api_key is Some && !self.workspaces.contains_key("default"@) {
            cleared.with_workspace(
                "default"@,
                WorkspaceView::with_api_key(self.api_key->0),
            ).chosen("default"@)
        } else {
            cleared
        }
    }
}

/// A change of the configuration that may be refused with a message; one that is refused
/// leaves the configuration as it was.
pub open spec fn changed<T>(
    before: ConfigView,
    after: ConfigView,
    r: Result<T, Failure>,
    expected: Result<ConfigView, Seq<char>>,
) -> bool {
    match expected {
        Ok(config) => r is Ok && after == config,
        Err(message) => r is Err && r->Err_0@ == FailureView::message(message) && after == before,
    }
}

impl ConfigView {
    /// The configuration with the default team of the profile in use set or cleared.
    pub open spec fn set_team(self, env: EnvironmentView, team: Option<Seq<char>>) -> Result<
        ConfigView,
        Seq<char>,
    > {
        let name = self.profile_name(env);
        if self.workspaces.contains_key(name) {
            Ok(
                self.with_workspace(
                    name,
                    WorkspaceView { default_team: trimmed_value(team), ..self.workspaces[name] },
                ).chosen(name),
            )
        } else {
            Err(
                "Workspace '"@ + name + "' not found. Run setup or: linear config set-key first."@,
            )
        }
    }

    /// The configuration with a workspace made current.
    pub open spec fn switch(self, name: Seq<char>) -> Result<ConfigView, Seq<char>> {
        if self.workspaces.contains_key(name) {
            Ok(ConfigView { current: Some(name), ..self })
        } else {
            Err(no_such_workspace(name))
        }
    }

    /// The configuration with a setting set.
    pub open spec fn set(self, env: EnvironmentView, key: Seq<char>, value: Seq<char>) -> Result<
        ConfigView,
        Seq<char>,
    > {
        match key_of(text::unicode_lowercase(key)) {
            Some(ConfigKey::ApiKey) => Err(KEY_ON_ARGV@),
            Some(ConfigKey::Profile) => self.switch(value),
            Some(ConfigKey::DefaultTeam) => self.set_team(env, Some(value)),
            None => Err(unknown_key(key)),
        }
    }

    /// The configuration with a workspace added.
    pub open spec fn add(self, name: Seq<char>, api_key: Seq<char>) -> Result<
        ConfigView,
        Seq<char>,
    > {
        if self.workspaces.contains_key(name) {
            Err(already_exists(name))
        } else {
            Ok(self.with_workspace(name, WorkspaceView::with_api_key(api_key)).chosen(name))
        }
    }

    /// The configuration without a workspace, given the workspaces in their order.
    pub open spec fn without(
        self,
        pairs: Seq<(Seq<char>, WorkspaceView)>,
        name: Seq<char>,
    ) -> Result<ConfigView, Seq<char>> {
        if self.workspaces.contains_key(name) {
            Ok(
                ConfigView {
                    current: current_after_removal(self.current, pairs, name),
                    workspaces: self.workspaces.remove(name),
                    api_key: self.api_key,
                },
            )
        } else {
            Err("Workspace '"@ + name + "' not found."@)
        }
    }

    /// The configuration as it was loaded is to be saved in the form with workspaces.
    pub open spec fn is_legacy(self) -> bool {
        self.api_key is Some && !self.workspaces.contains_key("default"@)
    }
}

/// What is said of a setting that was set.
pub open spec fn set_line(key: Seq<char>, value: Seq<char>) -> Seq<char> {
    match key_of(text::unicode_lowercase(key)) {
        Some(ConfigKey::Profile) => switched(value),
        _ => "Default team set to '"@ + text::trim(value) + "'"@,
    }
}

/// Brings a loaded configuration into the form with workspaces. The result says
/// whether the workspaces have changed, so that the configuration is to be saved.
pub fn migrate_config(config: &mut Config) -> (r: bool)
    ensures
        final(config)@ == old(config)@.migrated(),
        r == old(config)@.is_legacy(),
{
    let legacy = clone_text(&config.api_key);
    config.api_key = None;
    match legacy {
        Some(key) => {
            if !config.workspaces.contains("default") {
                config.workspaces.insert("default", Workspace::with_api_key(key.as_str()));
                if config.current.is_none() {
                    config.current = Some("default".to_string());
                }
                return true;
            }
        },
        None => {},
    }
    false
}

/// A configuration in the form with workspaces stays as it is.
pub proof fn migration_is_idempotent(config: ConfigView)
    ensures
        config.migrated().migrated() == config.migrated(),
        config.migrated().api_key is None,
        config.api_key is None ==> config.migrated() == config,
{
}

/// The profile in use. Prefer this where the configuration may still be mid-setup.
pub fn resolve_profile_name(config: &Config, env: &Environment) -> (r: String)
    ensures
        r@ == config@.profile_name(env@),
{
    match non_empty_text(&env.profile) {
        Some(profile) => profile,
        None => match &config.current {
            Some(current) => current.clone(),
            None => "default".to_string(),
        },
    }
}

fn workspace_or_blank(config: &Config, name: &str) -> (r: Workspace)
    ensures
        r@ == config@.workspace(name@),
{
    match config.workspaces.get(name) {
        Some(workspace) => workspace.clone(),
        None => Workspace::with_api_key(""),
    }
}

fn choose_if_none(config: &mut Config, name: &str)
    ensures
        final(config)@ == old(config)@.chosen(name@),
        final(config).workspaces == old(config).workspaces,
{
    if config.current.is_none() {
        config.current = Some(name.to_string());
    }
}

/// Stores the key of the profile in use.
pub fn set_api_key(config: &mut Config, env: &Environment, key: &str)
    ensures
        final(config)@ == old(config)@.set_key(old(config)@.profile_name(env@), key@),
{
    let name = resolve_profile_name(config, env);
    set_workspace_key(config, name.as_str(), key);
}

/// Stores the key of a workspace; the workspace is made where there is none.
pub fn set_workspace_key(config: &mut Config, name: &str, api_key: &str)
    ensures
        final(config)@ == old(config)@.set_key(name@, api_key@),
{
    let mut workspace = workspace_or_blank(config, name);
    workspace.api_key = api_key.to_string();
    config.workspaces.insert(name, workspace);
    choose_if_none(config, name);
}

/// Stored default team of the workspace in use.
pub fn get_stored_default_team(config: &Config, env: &Environment) -> (r: Option<String>)
    ensures
        r.deep_view() == config@.stored_default_team(env@),
{
    let profile = resolve_profile_name(config, env);
    match config.workspaces.get(profile.as_str()) {
        Some(workspace) => match trimmed_text(&workspace.default_team) {
            Some(_) => clone_text(&workspace.default_team),
            None => None,
        },
        None => None,
    }
}

/// The default team in force: the environment's, then the stored one.
pub open spec fn default_team(config: Option<ConfigView>, env: EnvironmentView) -> Option<
    Seq<char>,
> {
    match trimmed_value(env.team) {
        Some(team) => Some(team),
        None => match config {
            Some(config) => config.stored_default_team(env),
            None => None,
        },
    }
}

/// The team given with a command, then the default team in force.
pub open spec fn team_arg(
    cli: Option<Seq<char>>,
    config: Option<ConfigView>,
    env: EnvironmentView,
) -> Option<Seq<char>> {
    match trimmed_value(cli) {
        Some(team) => Some(team),
        None => default_team(config, env),
    }
}

pub open spec fn loaded(config: Option<&Config>) -> Option<ConfigView> {
    match config {
        Some(config) => Some(config@),
        None => None,
    }
}

/// Effective default team: the environment's, then the stored one. There is no
/// stored one where the configuration could not be loaded.
pub fn get_default_team(config: Option<&Config>, env: &Environment) -> (r: Option<String>)
    ensures
        r.deep_view() == default_team(loaded(config), env@),
{
    match trimmed_text(&env.team) {
        Some(team) => Some(team),
        None => match config {
            Some(config) => get_stored_default_team(config, env),
            None => None,
        },
    }
}

/// The team given with a command, then the effective default team.
pub fn resolve_team_arg(cli: Option<String>, config: Option<&Config>, env: &Environment) -> (r:
    Option<String>)
    ensures
        r.deep_view() == team_arg(cli.deep_view(), loaded(config), env@),
{
    match trimmed_text(&cli) {
        Some(team) => Some(team),
        None => get_default_team(config, env),
    }
}

/// A team that a command gives or the environment sets is never blank and has no
/// outer white space.
pub proof fn given_team_is_trimmed(
    cli: Option<Seq<char>>,
    config: Option<ConfigView>,
    env: EnvironmentView,
)
    requires
        trimmed_value(cli) is Some || trimmed_value(env.team) is Some,
    ensures
        team_arg(cli, config, env) is Some,
        team_arg(cli, config, env)->0.len() > 0,
        text::trim(team_arg(cli, config, env)->0) == team_arg(cli, config, env)->0,
{
    if trimmed_value(cli) is Some {
        text::trim_is_idempotent(cli->0);
    } else {
        text::trim_is_idempotent(env.team->0);
    }
}

pub const TEAM_REQUIRED: &'static str =
    "--team is required (or set a default: linear config set default-team TEAM)";

/// The team in force, or what is said where there is none.
pub open spec fn needed_team(
    cli: Option<Seq<char>>,
    config: Option<ConfigView>,
    env: EnvironmentView,
) -> Result<Seq<char>, Seq<char>> {
    match team_arg(cli, config, env) {
        Some(team) => Ok(team),
        None => Err(TEAM_REQUIRED@),
    }
}

/// Like `resolve_team_arg`, but an error where nothing is configured.
pub fn require_team(cli: Option<String>, config: Option<&Config>, env: &Environment) -> (r: Result<
    String,
    Failure,
>)
    ensures
        text_result(r, needed_team(cli.deep_view(), loaded(config), env@)),
{
    match resolve_team_arg(cli, config, env) {
        Some(team) => Ok(team),
        None => Err(Failure::message(TEAM_REQUIRED)),
    }
}

/// Sets the default team of the workspace in use, or clears it where the text is
/// blank. The workspace must exist.
pub fn set_default_team(config: &mut Config, env: &Environment, team: &Option<String>) -> (r:
    Result<(), Failure>)
    ensures
        changed(old(config)@, final(config)@, r, old(config)@.set_team(env@, team.deep_view())),
{
    let profile = resolve_profile_name(config, env);
    match config.workspaces.get(profile.as_str()) {
        Some(workspace) => {
            let mut workspace = workspace.clone();
            workspace.default_team = trimmed_text(team);
            config.workspaces.insert(profile.as_str(), workspace);
            choose_if_none(config, profile.as_str());
            Ok(())
        },
        None => Err(
            Failure::message(
                joined3(
                    "Workspace '",
                    profile.as_str(),
                    "' not found. Run setup or: linear config set-key first.",
                ).as_str(),
            ),
        ),
    }
}

/// A default team that was set is the one stored, and the other workspaces stay
/// as they were.
pub proof fn default_team_is_read_back(
    config: ConfigView,
    env: EnvironmentView,
    team: Seq<char>,
    other: Seq<char>,
)
    requires
        config.workspaces.contains_key(config.profile_name(env)),
        text::trim(team).len() > 0,
    ensures
        ({
            let name = config.profile_name(env);
            let after = config.with_workspace(
                name,
                WorkspaceView {
                    default_team: trimmed_value(Some(team)),
                    ..config.workspaces[name]
                },
            ).chosen(name);
            &&& after.stored_default_team(env) == Some(text::trim(team))
            &&& other != name ==> after.workspace(other) == config.workspace(other)
        }),
{
    text::trim_is_idempotent(team);
}

pub open spec fn known_keys() -> Seq<Seq<char>> {
    seq!["api-key"@, "profile"@, "default-team"@]
}

/// Known configuration keys for reading and setting.
pub fn known_config_keys() -> (r: Vec<&'static str>)
    ensures
        r.deep_view() == known_keys(),
{
    let mut keys: Vec<&'static str> = Vec::new();
    keys.push("api-key");
    keys.push("profile");
    keys.push("default-team");
    assert(keys.deep_view() =~= known_keys());
    keys
}

/// A secret as it comes in.
pub enum SecretInput {
    /// Typed at a prompt that takes no empty text.
    Typed(String),
    /// All of what was piped in.
    Piped(String),
}

pub open spec fn secret(input: SecretInput) -> Option<Seq<char>> {
    match input {
        SecretInput::Typed(s) => Some(s@),
        SecretInput::Piped(s) => non_empty(Some(text::trim(s@))),
    }
}

pub const NO_SECRET: &'static str = "No secret provided on stdin";

fn secret_from_stdin_or_prompt(input: SecretInput) -> (r: Result<String, Failure>)
    ensures
        match secret(input) {
            Some(s) => r is Ok && r->Ok_0@ == s,
            None => r is Err && r->Err_0@ == FailureView::message(NO_SECRET@),
        },
{
    match input {
        SecretInput::Typed(s) => Ok(s),
        SecretInput::Piped(s) => {
            let s = text::trimmed(s.as_str());
            if s.as_str().is_empty() {
                Err(Failure::message(NO_SECRET))
            } else {
                Ok(s)
            }
        },
    }
}

/// Stores a key that was typed or piped in.
pub fn set_api_key_from_stdin_or_prompt(
    config: &mut Config,
    env: &Environment,
    input: SecretInput,
) -> (r: Result<(), Failure>)
    ensures
        match secret(input) {
            Some(key) => r is Ok && final(config)@ == old(config)@.set_key(
                old(config)@.profile_name(env@),
                key,
            ),
            None => r is Err && r->Err_0@ == FailureView::message(NO_SECRET@) && final(config)@
                == old(config)@,
        },
{
    match secret_from_stdin_or_prompt(input) {
        Ok(key) => {
            set_api_key(config, env, key.as_str());
            Ok(())
        },
        Err(e) => Err(e),
    }
}

pub const NO_WORKSPACE_FOR_KEY: &'static str =
    "No workspace selected. Run: linear config workspace-add <name> or set LINEAR_CLI_PROFILE";

pub open spec fn workspace_missing(name: Seq<char>) -> Seq<char> {
    "Workspace '"@ + name + "' not found. Run: linear config workspace-add <name>"@
}

/// The key in force: the environment's, then the one in the keyring, then that of
/// the selected workspace; or the message of the failure.
pub open spec fn api_key(
    config: ConfigView,
    env: EnvironmentView,
    keyring: Option<Seq<char>>,
) -> Result<Seq<char>, Seq<char>> {
    if non_empty(env.api_key) is Some {
        Ok(env.api_key->0)
    } else if keyring is Some {
        Ok(keyring->0)
    } else {
        match config.selected(env) {
            Some(name) => if config.workspaces.contains_key(name) {
                Ok(config.workspaces[name].api_key)
            } else {
                Err(workspace_missing(name))
            },
            None => Err(NO_WORKSPACE_FOR_KEY@),
        }
    }
}

pub open spec fn text_result(r: Result<String, Failure>, expected: Result<Seq<char>, Seq<char>>) -> bool {
    match expected {
        Ok(s) => r is Ok && r->Ok_0@ == s,
        Err(message) => r is Err && r->Err_0@ == FailureView::message(message),
    }
}

/// The API key in force, given what the keyring holds for the profile in use.
pub fn get_api_key(config: &Config, env: &Environment, keyring: &Option<String>) -> (r: Result<
    String,
    Failure,
>)
    ensures
        text_result(r, api_key(config@, env@, keyring.deep_view())),
{
    match non_empty_text(&env.api_key) {
        Some(key) => {
            return Ok(key);
        },
        None => {},
    }
    match keyring {
        Some(key) => {
            return Ok(key.clone());
        },
        None => {},
    }
    let selected = match non_empty_text(&env.profile) {
        Some(profile) => Some(profile),
        None => clone_text(&config.current),
    };
    match selected {
        Some(name) => match config.workspaces.get(name.as_str()) {
            Some(workspace) => Ok(workspace.api_key.clone()),
            None => Err(
                Failure::message(
                    joined3(
                        "Workspace '",
                        name.as_str(),
                        "' not found. Run: linear config workspace-add <name>",
                    ).as_str(),
                ),
            ),
        },
        None => Err(Failure::message(NO_WORKSPACE_FOR_KEY)),
    }
}

/// A key that was stored for the profile in use is the one in force, where
/// neither the environment nor the keyring has another.
pub proof fn stored_key_is_in_force(config: ConfigView, env: EnvironmentView, key: Seq<char>)
    requires
        non_empty(env.api_key) is None,
    ensures
        api_key(config.set_key(config.profile_name(env), key), env, None) == Ok::<
            Seq<char>,
            Seq<char>,
        >(key),
{
}

pub const NO_WORKSPACE_SELECTED: &'static str = "No workspace selected";

/// The current profile: the one that was read before in this process, else the
/// environment's, else that of the configuration.
pub open spec fn profile_in_process(
    cached: Option<Seq<char>>,
    config: ConfigView,
    env: EnvironmentView,
) -> Result<Seq<char>, Seq<char>> {
    match cached {
        Some(profile) => Ok(profile),
        None => match config.selected(env) {
            Some(profile) => Ok(profile),
            None => Err(NO_WORKSPACE_SELECTED@),
        },
    }
}

/// Returns the current workspace profile name.
///
/// A profile that was read once stays for the lifetime of the process, so that a
/// switch in the same process does not show. This is acceptable because switches
/// during a single invocation are not a supported use case.
pub fn current_profile(cached: &Option<String>, config: &Config, env: &Environment) -> (r: Result<
    String,
    Failure,
>)
    ensures
        text_result(r, profile_in_process(cached.deep_view(), config@, env@)),
{
    match cached {
        Some(profile) => {
            return Ok(profile.clone());
        },
        None => {},
    }
    let selected = match non_empty_text(&env.profile) {
        Some(profile) => Some(profile),
        None => clone_text(&config.current),
    };
    match selected {
        Some(profile) => Ok(profile),
        None => Err(Failure::message(NO_WORKSPACE_SELECTED)),
    }
}

/// The places at which a long key is cut lie between characters.
pub open spec fn maskable(key: Seq<char>) -> bool {
    let bytes = utf8::encode_utf8(key);
    bytes.len() > 12 ==> utf8::is_char_boundary(bytes, 4) && utf8::is_char_boundary(
        bytes,
        bytes.len() - 4,
    )
}

/// A key as it may be shown: of a long one the first and the last four bytes.
pub open spec fn masked(key: Seq<char>) -> Seq<char> {
    let bytes = utf8::encode_utf8(key);
    if bytes.len() > 12 {
        utf8::decode_utf8(bytes.subrange(0, 4)) + "***"@ + utf8::decode_utf8(
            bytes.subrange(bytes.len() - 4, bytes.len() as int),
        )
    } else if text::starts_with(key, "lin_"@) {
        "lin_***"@
    } else {
        "***"@
    }
}

/// Whether a key can be cut for display.
pub fn can_mask(api_key: &str) -> (r: bool)
    ensures
        r == maskable(api_key@),
{
    let size: usize = api_key.as_bytes().len();
    size <= 12 || (api_key.is_char_boundary(4) && api_key.is_char_boundary(size - 4))
}

pub fn mask_api_key_for_display(api_key: &str) -> (r: String)
    requires
        maskable(api_key@),
    ensures
        r@ == masked(api_key@),
{
    let size: usize = api_key.as_bytes().len();
    if size > 12 {
        let (head, _) = api_key.split_at(4);
        let (_, tail) = api_key.split_at(size - 4);
        proof {
            utf8::encode_utf8_decode_utf8(head@);
            utf8::encode_utf8_decode_utf8(tail@);
        }
        joined3(head, "***", tail)
    } else if text::text_starts_with(api_key, "lin_") {
        "lin_***".to_string()
    } else {
        "***".to_string()
    }
}

/// Nothing between the ends of a long key shows: two of them with the same ends
/// are shown alike. Of a short key nothing shows but whether it is a Linear key.
pub proof fn mask_hides_the_middle(a: Seq<char>, b: Seq<char>)
    ensures
        ({
            let x = utf8::encode_utf8(a);
            let y = utf8::encode_utf8(b);
            &&& x.len() > 12 && y.len() > 12 && x.subrange(0, 4) == y.subrange(0, 4) && x.subrange(
                x.len() - 4,
                x.len() as int,
            ) == y.subrange(y.len() - 4, y.len() as int) ==> masked(a) == masked(b)
            &&& x.len() <= 12 && y.len() <= 12 && text::starts_with(a, "lin_"@)
                == text::starts_with(b, "lin_"@) ==> masked(a) == masked(b)
        }),
{
}

/// The settings that can be read and set by name.
#[derive(Clone, Copy, PartialEq, Eq, Structural)]
pub enum ConfigKey {
    ApiKey,
    Profile,
    DefaultTeam,
}

/// The setting of a name in lower case.
pub open spec fn key_of(lower: Seq<char>) -> Option<ConfigKey> {
    if lower == "api-key"@ || lower == "api_key"@ {
        Some(ConfigKey::ApiKey)
    } else if lower == "profile"@ {
        Some(ConfigKey::Profile)
    } else if lower == "default-team"@ || lower == "default_team"@ || lower == "team"@ {
        Some(ConfigKey::DefaultTeam)
    } else {
        None
    }
}

/// The setting of a name that is in lower case.
pub fn config_key_of_lower(lower: &str) -> (r: Option<ConfigKey>)
    ensures
        r == key_of(lower@),
{
    if same_text(lower, "api-key") || same_text(lower, "api_key") {
        Some(ConfigKey::ApiKey)
    } else if same_text(lower, "profile") {
        Some(ConfigKey::Profile)
    } else if same_text(lower, "default-team") || same_text(lower, "default_team") || same_text(
        lower,
        "team",
    ) {
        Some(ConfigKey::DefaultTeam)
    } else {
        None
    }
}

/// The setting of a name, in any case.
pub fn config_key(key: &str) -> (r: Option<ConfigKey>)
    ensures
        r == key_of(text::unicode_lowercase(key@)),
{
    let lower = text::lowercase(key);
    config_key_of_lower(lower.as_str())
}

pub open spec fn unknown_key(key: Seq<char>) -> Seq<char> {
    "Unknown config key: "@ + key + ". Known keys: api-key, profile, default-team"@
}

fn unknown_key_message(key: &str) -> (r: String)
    ensures
        r@ == unknown_key(key@),
{
    joined3("Unknown config key: ", key, ". Known keys: api-key, profile, default-team")
}

/// What reading a setting shows: a line, nothing, or a failure.
pub open spec fn config_value(
    key: Seq<char>,
    raw: bool,
    config: ConfigView,
    env: EnvironmentView,
    keyring: Option<Seq<char>>,
    cached: Option<Seq<char>>,
) -> Result<Option<Seq<char>>, Seq<char>> {
    match key_of(text::unicode_lowercase(key)) {
        Some(ConfigKey::ApiKey) => match api_key(config, env, keyring) {
            Ok(k) => Ok(
                Some(
                    if raw {
                        k
                    } else {
                        masked(k)
                    },
                ),
            ),
            Err(e) => Err(e),
        },
        Some(ConfigKey::Profile) => match profile_in_process(cached, config, env) {
            Ok(profile) => Ok(Some(profile)),
            Err(e) => Err(e),
        },
        Some(ConfigKey::DefaultTeam) => match config.stored_default_team(env) {
            Some(team) => Ok(Some(team)),
            None => Ok(
                if raw {
                    None
                } else {
                    Some("(not set)"@)
                },
            ),
        },
        None => Err(unknown_key(key)),
    }
}

/// Where a key is shown masked, it can be cut.
pub open spec fn shows_whole_characters(
    key: Option<ConfigKey>,
    raw: bool,
    value: Result<Seq<char>, Seq<char>>,
) -> bool {
    key == Some(ConfigKey::ApiKey) && !raw ==> (value matches Ok(k) ==> maskable(k))
}

/// The line that shows a setting. The stored team is shown, whatever the
/// environment sets.
pub fn config_get(
    key: &str,
    raw: bool,
    config: &Config,
    env: &Environment,
    keyring: &Option<String>,
    cached: &Option<String>,
) -> (r: Result<Option<String>, Failure>)
    requires
        shows_whole_characters(
            key_of(text::unicode_lowercase(key@)),
            raw,
            api_key(config@, env@, keyring.deep_view()),
        ),
    ensures
        match config_value(key@, raw, config@, env@, keyring.deep_view(), cached.deep_view()) {
            Ok(line) => r is Ok && r->Ok_0.deep_view() == line,
            Err(message) => r is Err && r->Err_0@ == FailureView::message(message),
        },
{
    match config_key(key) {
        Some(ConfigKey::ApiKey) => match get_api_key(config, env, keyring) {
            Ok(k) => if raw {
                Ok(Some(k))
            } else {
                Ok(Some(mask_api_key_for_display(k.as_str())))
            },
            Err(e) => Err(e),
        },
        Some(ConfigKey::Profile) => match current_profile(cached, config, env) {
            Ok(profile) => Ok(Some(profile)),
            Err(e) => Err(e),
        },
        Some(ConfigKey::DefaultTeam) => match get_stored_default_team(config, env) {
            Some(team) => Ok(Some(team)),
            None => if raw {
                Ok(None)
            } else {
                Ok(Some("(not set)".to_string()))
            },
        },
        None => Err(Failure::message(unknown_key_message(key).as_str())),
    }
}

/// The line that shows a setting; nothing where that would cut a key inside a
/// character.
pub fn config_get_checked(
    key: &str,
    raw: bool,
    config: &Config,
    env: &Environment,
    keyring: &Option<String>,
    cached: &Option<String>,
) -> (r: Option<Result<Option<String>, Failure>>)
    ensures
        r is Some <==> shows_whole_characters(
            key_of(text::unicode_lowercase(key@)),
            raw,
            api_key(config@, env@, keyring.deep_view()),
        ),
        r matches Some(line) ==> match config_value(
            key@,
            raw,
            config@,
            env@,
            keyring.deep_view(),
            cached.deep_view(),
        ) {
            Ok(value) => line is Ok && line->Ok_0.deep_view() == value,
            Err(message) => line is Err && line->Err_0@ == FailureView::message(message),
        },
{
    if config_key(key) == Some(ConfigKey::ApiKey) && !raw {
        match get_api_key(config, env, keyring) {
            Ok(k) => {
                if !can_mask(k.as_str()) {
                    return None;
                }
            },
            Err(_) => {},
        }
    }
    Some(config_get(key, raw, config, env, keyring, cached))
}

pub const KEY_ON_ARGV: &'static str =
    "Setting api-key via argv is disabled. Use `linear config set-key` and provide the key via stdin or the hidden prompt.";

pub open spec fn no_such_workspace(name: Seq<char>) -> Seq<char> {
    "Workspace '"@ + name + "' not found. Use 'workspace list' to see available workspaces."@
}

pub open spec fn switched(name: Seq<char>) -> Seq<char> {
    "Switched to workspace '"@ + name + "'"@
}

/// Makes a workspace current, and says so.
pub fn workspace_switch(config: &mut Config, name: &str) -> (r: Result<String, Failure>)
    ensures
        changed(old(config)@, final(config)@, r, old(config)@.switch(name@)),
        r is Ok ==> r->Ok_0@ == switched(name@),
{
    if !config.workspaces.contains(name) {
        return Err(
            Failure::message(
                joined3(
                    "Workspace '",
                    name,
                    "' not found. Use 'workspace list' to see available workspaces.",
                ).as_str(),
            ),
        );
    }
    config.current = Some(name.to_string());
    Ok(joined3("Switched to workspace '", name, "'"))
}

/// Sets a setting, and says so. The key is never taken from the command line.
pub fn config_set(config: &mut Config, env: &Environment, key: &str, value: &str) -> (r: Result<
    String,
    Failure,
>)
    ensures
        changed(old(config)@, final(config)@, r, old(config)@.set(env@, key@, value@)),
        r is Ok ==> r->Ok_0@ == set_line(key@, value@),
{
    match config_key(key) {
        Some(ConfigKey::ApiKey) => Err(Failure::message(KEY_ON_ARGV)),
        Some(ConfigKey::Profile) => workspace_switch(config, value),
        Some(ConfigKey::DefaultTeam) => match set_default_team(
            config,
            env,
            &Some(value.to_string()),
        ) {
            Ok(()) => Ok(
                joined3("Default team set to '", text::trimmed(value).as_str(), "'"),
            ),
            Err(e) => Err(e),
        },
        None => Err(Failure::message(unknown_key_message(key).as_str())),
    }
}

/// Every key in the configuration can be cut for display.
pub open spec fn all_maskable(workspaces: Map<Seq<char>, WorkspaceView>) -> bool {
    forall|name: Seq<char>|
        #![trigger workspaces[name]]
        workspaces.contains_key(name) ==> maskable(workspaces[name].api_key)
}

pub fn can_mask_all(config: &Config) -> (r: bool)
    ensures
        r == all_maskable(config@.workspaces),
{
    let ghost pairs = config.workspaces.pairs();
    let mut i: usize = 0;
    while i < config.workspaces.len()
        invariant
            i <= pairs.len(),
            pairs == config.workspaces.pairs(),
            forall|k: int| 0 <= k < i ==> maskable((#[trigger] pairs[k]).1.api_key),
        decreases pairs.len() - i,
    {
        let workspace = config.workspaces.value_at(i);
        if !can_mask(workspace.api_key.as_str()) {
            assert(!maskable(config@.workspaces[pairs[i as int].0].api_key));
            return false;
        }
        i += 1;
    }
    proof {
        assert forall|name: Seq<char>|
            #![trigger config@.workspaces[name]]
            config@.workspaces.contains_key(name) implies maskable(
            config@.workspaces[name].api_key,
        ) by {
            name_map::pair_index_is_first(pairs, name);
            let k = name_map::pair_index(pairs, name)->0;
            assert(pairs[k].1 == config@.workspaces[name]);
        }
    }
    true
}

/// The key of the current workspace can be cut for display.
pub open spec fn current_maskable(config: ConfigView) -> bool {
    config.current is Some && config.workspaces.contains_key(config.current->0) ==> maskable(
        config.workspaces[config.current->0].api_key,
    )
}

pub fn can_mask_current(config: &Config) -> (r: bool)
    ensures
        r == current_maskable(config@),
{
    match &config.current {
        Some(current) => match config.workspaces.get(current.as_str()) {
            Some(workspace) => can_mask(workspace.api_key.as_str()),
            None => true,
        },
        None => true,
    }
}

/// The lines that show the workspace in use.
pub open spec fn current_lines(config: ConfigView) -> Seq<Seq<char>> {
    match config.current {
        Some(current) => {
            let first = seq!["Current workspace: "@ + current];
            if config.workspaces.contains_key(current) {
                first.push("API Key: "@ + masked(config.workspaces[current].api_key))
            } else {
                first
            }
        },
        None => seq!["No workspace selected. Run: linear workspace add <name>"@],
    }
}

pub fn workspace_current(config: &Config) -> (r: Vec<String>)
    requires
        current_maskable(config@),
    ensures
        r.deep_view() == current_lines(config@),
{
    let mut lines: Vec<String> = Vec::new();
    match &config.current {
        Some(current) => {
            lines.push(joined2("Current workspace: ", current.as_str()));
            match config.workspaces.get(current.as_str()) {
                Some(workspace) => {
                    let masked_key = mask_api_key_for_display(workspace.api_key.as_str());
                    lines.push(joined2("API Key: ", masked_key.as_str()));
                },
                None => {},
            }
        },
        None => {
            lines.push("No workspace selected. Run: linear workspace add <name>".to_string());
        },
    }
    assert(lines.deep_view() =~= current_lines(config@));
    lines
}

/// The lines that show the configuration.
pub open spec fn config_lines(config: ConfigView, path: Seq<char>, env: EnvironmentView) -> Seq<
    Seq<char>,
> {
    let head = seq![
        "Config file: "@ + path,
        ""@,
        "Known keys: api-key, profile, default-team"@,
        ""@,
    ];
    let body = match config.current {
        Some(current) => {
            let first = seq!["Current workspace: "@ + current];
            if config.workspaces.contains_key(current) {
                let workspace = config.workspaces[current];
                first.push("API Key: "@ + masked(workspace.api_key)).push(
                    match non_empty(workspace.default_team) {
                        Some(team) => "Default team: "@ + team,
                        None => "Default team: (not set)"@,
                    },
                )
            } else {
                first
            }
        },
        None => seq!["No workspace configured. Run: linear workspace add <name>"@],
    };
    let tail = match trimmed_value(env.team) {
        Some(team) => seq!["LINEAR_CLI_TEAM (overrides config): "@ + team],
        None => Seq::empty(),
    };
    head + body + tail
}

pub fn show_config(config: &Config, path: &str, env: &Environment) -> (r: Vec<String>)
    requires
        current_maskable(config@),
    ensures
        r.deep_view() == config_lines(config@, path@, env@),
{
    let mut lines: Vec<String> = Vec::new();
    lines.push(joined2("Config file: ", path));
    lines.push("".to_string());
    lines.push("Known keys: api-key, profile, default-team".to_string());
    lines.push("".to_string());
    match &config.current {
        Some(current) => {
            lines.push(joined2("Current workspace: ", current.as_str()));
            match config.workspaces.get(current.as_str()) {
                Some(workspace) => {
                    let masked_key = mask_api_key_for_display(workspace.api_key.as_str());
                    lines.push(joined2("API Key: ", masked_key.as_str()));
                    match non_empty_text(&workspace.default_team) {
                        Some(team) => {
                            lines.push(joined2("Default team: ", team.as_str()));
                        },
                        None => {
                            lines.push("Default team: (not set)".to_string());
                        },
                    }
                },
                None => {},
            }
        },
        None => {
            lines.push("No workspace configured. Run: linear workspace add <name>".to_string());
        },
    }
    match trimmed_text(&env.team) {
        Some(team) => {
            lines.push(joined2("LINEAR_CLI_TEAM (overrides config): ", team.as_str()));
        },
        None => {},
    }
    assert(lines.deep_view() =~= config_lines(config@, path@, env@));
    lines
}

pub open spec fn already_exists(name: Seq<char>) -> Seq<char> {
    "Workspace '"@ + name
        + "' already exists. Use 'workspace remove' first to replace it."@
}

pub open spec fn added_lines(config: ConfigView, name: Seq<char>) -> Seq<Seq<char>> {
    let first = seq!["Workspace '"@ + name + "' added successfully!"@];
    if config.current == Some(name) {
        first.push(switched(name))
    } else {
        first
    }
}

/// Adds a workspace, which becomes current where none was, and says so. One that
/// exists is not replaced.
pub fn workspace_add(config: &mut Config, name: &str, api_key: &str) -> (r: Result<
    Vec<String>,
    Failure,
>)
    ensures
        changed(old(config)@, final(config)@, r, old(config)@.add(name@, api_key@)),
        r is Ok ==> r->Ok_0.deep_view() == added_lines(final(config)@, name@),
{
    if config.workspaces.contains(name) {
        return Err(
            Failure::message(
                joined3(
                    "Workspace '",
                    name,
                    "' already exists. Use 'workspace remove' first to replace it.",
                ).as_str(),
            ),
        );
    }
    config.workspaces.insert(name, Workspace::with_api_key(api_key));
    choose_if_none(config, name);
    let mut lines: Vec<String> = Vec::new();
    lines.push(joined3("Workspace '", name, "' added successfully!"));
    match &config.current {
        Some(current) => {
            if same_text(current.as_str(), name) {
                lines.push(joined3("Switched to workspace '", name, "'"));
            }
        },
        None => {},
    }
    assert(lines.deep_view() =~= added_lines(config@, name@));
    Ok(lines)
}

/// Adds a workspace with a key that was typed or piped in.
pub fn workspace_add_from_stdin_or_prompt(
    config: &mut Config,
    name: &str,
    input: SecretInput,
) -> (r: Result<Vec<String>, Failure>)
    ensures
        match secret(input) {
            Some(key) => {
                &&& changed(old(config)@, final(config)@, r, old(config)@.add(name@, key))
                &&& r is Ok ==> r->Ok_0.deep_view() == added_lines(final(config)@, name@)
            },
            None => {
                &&& r is Err
                &&& r->Err_0@ == FailureView::message(NO_SECRET@)
                &&& final(config)@ == old(config)@
            },
        },
{
    match secret_from_stdin_or_prompt(input) {
        Ok(key) => workspace_add(config, name, key.as_str()),
        Err(e) => Err(e),
    }
}

/// The line of one workspace in the list.
pub open spec fn workspace_line(
    current: Option<Seq<char>>,
    name: Seq<char>,
    workspace: WorkspaceView,
) -> Seq<char> {
    let marker = if current == Some(name) {
        "*"@
    } else {
        " "@
    };
    marker + " "@ + name + " ("@ + masked(workspace.api_key) + ")"@
}

pub open spec fn list_lines(
    current: Option<Seq<char>>,
    pairs: Seq<(Seq<char>, WorkspaceView)>,
) -> Seq<Seq<char>> {
    if pairs.len() == 0 {
        seq!["No workspaces configured. Run: linear workspace add <name>"@]
    } else {
        seq!["Configured workspaces:"@, ""@] + Seq::new(
            pairs.len(),
            |i: int| workspace_line(current, pairs[i].0, pairs[i].1),
        ) + seq![""@, "* = current workspace"@]
    }
}

fn line_of_workspace(current: &Option<String>, name: &str, workspace: &Workspace) -> (r: String)
    requires
        maskable(workspace@.api_key),
    ensures
        r@ == workspace_line(current.deep_view(), name@, workspace@),
{
    let is_current = match current {
        Some(current) => same_text(current.as_str(), name),
        None => false,
    };
    let start = joined2(
        if is_current {
            "*"
        } else {
            " "
        },
        " ",
    );
    let key = mask_api_key_for_display(workspace.api_key.as_str());
    let named = joined3(start.as_str(), name, " (");
    joined3(named.as_str(), key.as_str(), ")")
}

/// The lines that list the workspaces.
pub fn workspace_list(config: &Config) -> (r: Vec<String>)
    requires
        all_maskable(config@.workspaces),
    ensures
        r.deep_view() == list_lines(config@.current, config.workspaces.pairs()),
{
    let ghost pairs = config.workspaces.pairs();
    let mut lines: Vec<String> = Vec::new();
    if config.workspaces.is_empty() {
        lines.push("No workspaces configured. Run: linear workspace add <name>".to_string());
        assert(lines.deep_view() =~= list_lines(config@.current, pairs));
        return lines;
    }
    lines.push("Configured workspaces:".to_string());
    lines.push("".to_string());
    let mut i: usize = 0;
    while i < config.workspaces.len()
        invariant
            i <= pairs.len(),
            pairs == config.workspaces.pairs(),
            all_maskable(config@.workspaces),
            lines@.len() == i + 2,
            lines@[0]@ == "Configured workspaces:"@,
            lines@[1]@ == ""@,
            forall|k: int|
                0 <= k < i ==> (#[trigger] lines@[k + 2])@ == workspace_line(
                    config@.current,
                    pairs[k].0,
                    pairs[k].1,
                ),
        decreases pairs.len() - i,
    {
        let ghost before = lines@;
        let workspace = config.workspaces.value_at(i);
        assert(maskable(config@.workspaces[pairs[i as int].0].api_key));
        lines.push(line_of_workspace(&config.current, config.workspaces.name_at(i), workspace));
        assert forall|k: int| 0 <= k < i + 1 implies (#[trigger] lines@[k + 2])@ == workspace_line(
            config@.current,
            pairs[k].0,
            pairs[k].1,
        ) by {
            if k < i {
                assert(lines@[k + 2] == before[k + 2]);
            }
        }
        i += 1;
    }
    lines.push("".to_string());
    lines.push("* = current workspace".to_string());
    proof {
        let expected = list_lines(config@.current, pairs);
        assert(lines.deep_view().len() == expected.len());
        assert forall|k: int| 0 <= k < expected.len() implies lines.deep_view()[k]
            == #[trigger] expected[k] by {
            if 2 <= k < pairs.len() + 2 {
                assert(lines@[(k - 2) + 2]@ == workspace_line(
                    config@.current,
                    pairs[k - 2].0,
                    pairs[k - 2].1,
                ));
            }
        }
        assert(lines.deep_view() =~= expected);
    }
    lines
}

/// The pairs without the one of a name.
pub open spec fn pairs_without(
    pairs: Seq<(Seq<char>, WorkspaceView)>,
    name: Seq<char>,
) -> Seq<(Seq<char>, WorkspaceView)> {
    match name_map::pair_index(pairs, name) {
        Some(i) => pairs.remove(i),
        None => pairs,
    }
}

/// The current workspace once one was removed: the first that is left, where the
/// removed one was current.
pub open spec fn current_after_removal(
    current: Option<Seq<char>>,
    pairs: Seq<(Seq<char>, WorkspaceView)>,
    name: Seq<char>,
) -> Option<Seq<char>> {
    if current == Some(name) {
        let left = pairs_without(pairs, name);
        if left.len() == 0 {
            None
        } else {
            Some(left[0].0)
        }
    } else {
        current
    }
}

pub open spec fn removed_lines(
    before: Option<Seq<char>>,
    after: Option<Seq<char>>,
    name: Seq<char>,
) -> Seq<Seq<char>> {
    let last = seq!["Workspace '"@ + name + "' removed."@];
    if before == Some(name) && after is Some {
        seq![switched(after->0)] + last
    } else {
        last
    }
}

impl ConfigView {
    /// The current workspace is one of those that are configured.
    pub open spec fn current_exists(self) -> bool {
        self.current is Some && self.workspaces.contains_key(self.current->0)
    }

    /// The current workspace is one of those that are configured, or none is left.
    pub open spec fn current_exists_if_any(self) -> bool {
        self.current_exists() || (self.current is None && self.workspaces.is_empty())
    }
}

/// Removes a workspace, and says so. Where it was current, another one becomes
/// current, if there is one.
pub fn workspace_remove(config: &mut Config, name: &str) -> (r: Result<Vec<String>, Failure>)
    ensures
        changed(
            old(config)@,
            final(config)@,
            r,
            old(config)@.without(old(config).workspaces.pairs(), name@),
        ),
        r is Ok ==> r->Ok_0.deep_view() == removed_lines(
            old(config)@.current,
            final(config)@.current,
            name@,
        ),
        r is Ok && old(config)@.current_exists() ==> final(config)@.current_exists_if_any(),
{
    if !config.workspaces.contains(name) {
        return Err(
            Failure::message(joined3("Workspace '", name, "' not found.").as_str()),
        );
    }
    let _ = config.workspaces.remove(name);
    assert(config.workspaces.pairs().len() == 0 ==> config@.workspaces
        =~= Map::<Seq<char>, WorkspaceView>::empty());
    let mut lines: Vec<String> = Vec::new();
    let was_current = match &config.current {
        Some(current) => same_text(current.as_str(), name),
        None => false,
    };
    if was_current {
        if config.workspaces.len() > 0 {
            let next = config.workspaces.name_at(0).to_string();
            lines.push(joined3("Switched to workspace '", next.as_str(), "'"));
            config.current = Some(next);
        } else {
            config.current = None;
        }
    }
    lines.push(joined3("Workspace '", name, "' removed."));
    assert(lines.deep_view() =~= removed_lines(old(config)@.current, config@.current, name@));
    Ok(lines)
}

/// A current workspace that exists is kept so by a removal: afterwards the
/// current workspace, if there is one, exists, and it is not the removed one.
pub proof fn removal_keeps_current_valid(
    current: Option<Seq<char>>,
    pairs: Seq<(Seq<char>, WorkspaceView)>,
    name: Seq<char>,
)
    requires
        name_map::distinct_names(pairs),
        name_map::pair_index(pairs, name) is Some,
        current is Some ==> name_map::pair_index(pairs, current->0) is Some,
    ensures
        current_after_removal(current, pairs, name) matches Some(after) ==> after != name
            && name_map::pair_index(pairs_without(pairs, name), after) is Some,
        current is Some && current_after_removal(current, pairs, name) is None ==> pairs.len() == 1,
{
    let left = pairs_without(pairs, name);
    let at = name_map::pair_index(pairs, name)->0;
    name_map::pair_index_is_first(pairs, name);
    match current_after_removal(current, pairs, name) {
        Some(after) => {
            name_map::pair_index_is_first(left, after);
            if current == Some(name) {
                assert(left[0].0 == after);
                assert(left[0] == pairs[if at == 0 {
                    1
                } else {
                    0
                }]);
            } else {
                name_map::pair_index_is_first(pairs, after);
                let k = name_map::pair_index(pairs, after)->0;
                assert(left[if k < at {
                    k
                } else {
                    k - 1
                }] == pairs[k]);
            }
        },
        None => {},
    }
}

/// Stores the tokens of a profile in the configuration.
pub fn save_oauth_config(config: &mut Config, profile: &str, oauth_config: &OAuthConfig)
    ensures
        final(config)@ == old(config)@.save_oauth(profile@, oauth_config@),
{
    let mut workspace = workspace_or_blank(config, profile);
    workspace.oauth = Some(oauth_config.clone());
    config.workspaces.insert(profile, workspace);
    choose_if_none(config, profile);
}

pub fn oauth_config_has_secrets(oauth_config: &OAuthConfig) -> (r: bool)
    ensures
        r == oauth_config@.has_secrets(),
{
    if !oauth_config.access_token.as_str().is_empty() {
        return true;
    }
    match &oauth_config.refresh_token {
        Some(token) => !token.as_str().is_empty(),
        None => false,
    }
}

pub fn oauth_metadata_only(oauth_config: &OAuthConfig) -> (r: OAuthConfig)
    ensures
        r@ == oauth_config@.metadata_only(),
{
    let mut metadata = oauth_config.clone();
    metadata.access_token = String::new();
    metadata.refresh_token = None;
    assert(metadata@ =~= oauth_config@.metadata_only());
    metadata
}

/// The OAuth part of a profile in the configuration, even if the tokens are
/// stored elsewhere.
pub fn get_oauth_metadata(config: &Config, profile: &str) -> (r: Option<OAuthConfig>)
    ensures
        r.deep_view() == config@.oauth_metadata(profile@),
{
    match config.workspaces.get(profile) {
        Some(workspace) => clone_oauth(&workspace.oauth),
        None => None,
    }
}

/// The tokens of a profile are, or are to be, in the keyring.
pub open spec fn in_secure_storage(config: ConfigView, profile: Seq<char>, in_keyring: bool) -> bool {
    in_keyring || match config.oauth_metadata(profile) {
        Some(oauth) => oauth.client_id.len() > 0 && !oauth.has_secrets(),
        None => false,
    }
}

pub fn oauth_uses_secure_storage(config: &Config, profile: &str, in_keyring: bool) -> (r: bool)
    ensures
        r == in_secure_storage(config@, profile@, in_keyring),
{
    if in_keyring {
        return true;
    }
    match get_oauth_metadata(config, profile) {
        Some(oauth) => !oauth.client_id.as_str().is_empty() && !oauth_config_has_secrets(&oauth),
        None => false,
    }
}

/// What the keyring gives back after tokens were written to it.
pub enum ReadBack {
    /// The tokens could not be written, or could not be asked for.
    Refused(Failure),
    Missing,
    /// What was read is no tokens, for a reason.
    Invalid(String),
    Stored(OAuthConfig),
}

pub open spec fn read_back_fault(oauth: OAuthConfigView, read_back: ReadBack) -> Option<
    FailureView,
> {
    match read_back {
        ReadBack::Refused(failure) => Some(failure@),
        ReadBack::Missing => Some(
            FailureView::message(
                "OAuth tokens were written to keyring but could not be read back"@,
            ),
        ),
        ReadBack::Invalid(fault) => Some(
            FailureView::message(fault@).with_context(
                "OAuth token payload read back from keyring was invalid"@,
            ),
        ),
        ReadBack::Stored(stored) => if stored@.access_token != oauth.access_token
            || stored@.refresh_token != oauth.refresh_token {
            Some(
                FailureView::message(
                    "OAuth tokens stored in keyring could not be verified after saving"@,
                ),
            )
        } else {
            None
        },
    }
}

/// Keeps the OAuth part of a profile whose tokens went to the keyring, once they
/// were read back as they were written.
pub fn save_oauth_config_secure(
    config: &mut Config,
    profile: &str,
    oauth_config: &OAuthConfig,
    read_back: ReadBack,
) -> (r: Result<(), Failure>)
    ensures
        match read_back_fault(oauth_config@, read_back) {
            Some(failure) => r is Err && r->Err_0@ == failure && final(config)@ == old(config)@,
            None => r is Ok && final(config)@ == old(config)@.save_oauth(
                profile@,
                oauth_config@.metadata_only(),
            ),
        },
{
    match read_back {
        ReadBack::Refused(failure) => Err(failure),
        ReadBack::Missing => Err(
            Failure::message("OAuth tokens were written to keyring but could not be read back"),
        ),
        ReadBack::Invalid(fault) => Err(
            Failure::message(fault.as_str()).with_context(
                "OAuth token payload read back from keyring was invalid",
            ),
        ),
        ReadBack::Stored(stored) => {
            let same_access = same_text(
                stored.access_token.as_str(),
                oauth_config.access_token.as_str(),
            );
            let same_refresh = match (&stored.refresh_token, &oauth_config.refresh_token) {
                (Some(a), Some(b)) => same_text(a.as_str(), b.as_str()),
                (None, None) => true,
                _ => false,
            };
            if !same_access || !same_refresh {
                return Err(
                    Failure::message(
                        "OAuth tokens stored in keyring could not be verified after saving",
                    ),
                );
            }
            save_oauth_config(config, profile, &oauth_metadata_only(oauth_config));
            Ok(())
        },
    }
}

/// The tokens of a profile: those in the keyring, else those in the
/// configuration, if it holds any.
pub open spec fn oauth_tokens(
    config: ConfigView,
    profile: Seq<char>,
    keyring: Option<OAuthConfigView>,
) -> Option<OAuthConfigView> {
    match keyring {
        Some(oauth) => Some(oauth),
        None => match config.oauth_metadata(profile) {
            Some(oauth) => if oauth.has_secrets() {
                Some(oauth)
            } else {
                None
            },
            None => None,
        },
    }
}

/// The tokens of a profile, given what could be read of them from the keyring.
pub fn get_oauth_config(config: &Config, profile: &str, keyring: Option<OAuthConfig>) -> (r: Option<
    OAuthConfig,
>)
    ensures
        r.deep_view() == oauth_tokens(config@, profile@, keyring.deep_view()),
{
    match keyring {
        Some(oauth) => Some(oauth),
        None => match get_oauth_metadata(config, profile) {
            Some(oauth) => if oauth_config_has_secrets(&oauth) {
                Some(oauth)
            } else {
                None
            },
            None => None,
        },
    }
}

/// Takes the OAuth part of a profile out of the configuration.
pub fn clear_oauth_config(config: &mut Config, profile: &str)
    ensures
        final(config)@ == old(config)@.clear_oauth(profile@),
        match name_map::pair_index(old(config).workspaces.pairs(), profile@) {
            Some(i) => final(config).workspaces.pairs() == old(config).workspaces.pairs().update(
                i,
                (profile@, WorkspaceView { oauth: None, ..old(config)@.workspaces[profile@] }),
            ),
            None => final(config).workspaces.pairs() == old(config).workspaces.pairs(),
        },
{
    match config.workspaces.get(profile) {
        Some(workspace) => {
            let mut workspace = workspace.clone();
            workspace.oauth = None;
            assert(workspace@ == (WorkspaceView {
                oauth: None,
                ..config@.workspaces[profile@]
            }));
            config.workspaces.insert(profile, workspace);
        },
        None => {},
    }
}

/// Tokens that were saved are read back, tokens that were cleared are gone, the
/// keyring keeps what the configuration does not, and the key and the team of
/// the workspace stay.
pub proof fn oauth_is_saved_and_cleared(
    config: ConfigView,
    profile: Seq<char>,
    oauth: OAuthConfigView,
)
    ensures
        ({
            let saved = config.save_oauth(profile, oauth);
            let secured = config.save_oauth(profile, oauth.metadata_only());
            let cleared = saved.clear_oauth(profile);
            &&& oauth.has_secrets() ==> oauth_tokens(saved, profile, None) == Some(oauth)
            &&& oauth_tokens(secured, profile, None) is None
            &&& oauth.client_id.len() > 0 ==> in_secure_storage(secured, profile, false)
            &&& oauth_tokens(cleared, profile, None) is None
            &&& cleared.oauth_metadata(profile) is None
            &&& saved.workspace(profile).api_key == config.workspace(profile).api_key
            &&& saved.workspace(profile).default_team == config.workspace(profile).default_team
            &&& cleared.workspace(profile).api_key == config.workspace(profile).api_key
        }),
{
}

impl ConfigView {
    /// The configuration without the keys of its workspaces.
    pub open spec fn without_keys(self) -> ConfigView {
        ConfigView {
            workspaces: self.workspaces.map_values(
                |workspace: WorkspaceView| WorkspaceView { api_key: ""@, ..workspace },
            ),
            ..self
        }
    }
}

/// Takes the keys of all workspaces out of the configuration.
pub fn clear_workspace_keys(config: &mut Config)
    ensures
        final(config)@ == old(config)@.without_keys(),
{
    let ghost before = config.workspaces.pairs();
    let ghost start = config@;
    let count = config.workspaces.len();
    let mut i: usize = 0;
    while i < count
        invariant
            i <= count,
            count == before.len(),
            config.workspaces.pairs().len() == before.len(),
            config.current.deep_view() == start.current,
            config.api_key.deep_view() == start.api_key,
            forall|k: int|
                0 <= k < before.len() ==> #[trigger] config.workspaces.pairs()[k] == (
                    before[k].0,
                    if k < i {
                        WorkspaceView { api_key: ""@, ..before[k].1 }
                    } else {
                        before[k].1
                    },
                ),
        decreases count - i,
    {
        let ghost now = config.workspaces.pairs();
        let name = config.workspaces.name_at(i).to_string();
        let mut workspace = config.workspaces.value_at(i).clone();
        workspace.api_key = "".to_string();
        assert(workspace@ == (WorkspaceView { api_key: ""@, ..now[i as int].1 }));
        config.workspaces.insert(name.as_str(), workspace);
        i += 1;
    }
    proof {
        let after = config.workspaces.pairs();
        name_map::same_names_same_index(before, after);
        let blank = |workspace: WorkspaceView| WorkspaceView { api_key: ""@, ..workspace };
        assert forall|name: Seq<char>|
            #![trigger name_map::pair_index(after, name)]
            name_map::pair_index(after, name) is Some implies after[name_map::pair_index(
            after,
            name,
        )->0].1 == blank(before[name_map::pair_index(before, name)->0].1) by {
            name_map::pair_index_is_first(before, name);
        }
        assert(config@.workspaces =~= start.workspaces.map_values(blank));
    }
}

/// Without the keys, the workspaces, their tokens and their teams are all still there.
pub proof fn clearing_keys_keeps_the_rest(config: ConfigView, name: Seq<char>)
    ensures
        ({
            let cleared = config.without_keys();
            &&& cleared.current == config.current
            &&& cleared.workspaces.contains_key(name) == config.workspaces.contains_key(name)
            &&& config.workspaces.contains_key(name) ==> {
                &&& cleared.workspaces[name].api_key.len() == 0
                &&& cleared.workspaces[name].oauth == config.workspaces[name].oauth
                &&& cleared.workspaces[name].default_team == config.workspaces[name].default_team
            }
        }),
{
    reveal_strlit("");
}

// ---------------------------------------------------------------------------
// Which profile, team and key are in force, and what a change leaves alone
// ---------------------------------------------------------------------------

/// The profile in use is the one of the environment, else the current one, else `default`.
pub proof fn profile_of_the_environment_wins(
    config: ConfigView,
    env: EnvironmentView,
    cached: Option<Seq<char>>,
)
    ensures
        env.profile matches Some(profile) ==> profile.len() > 0 ==> config.profile_name(env)
            == profile && config.selected(env) == Some(profile),
        env.profile is None || env.profile->0.len() == 0 ==> {
            &&& config.selected(env) == config.current
            &&& config.current matches Some(current) ==> config.profile_name(env) == current
            &&& config.current is None ==> config.profile_name(env) == "default"@
        },
        cached matches Some(profile) ==> profile_in_process(cached, config, env) == Ok::<
            Seq<char>,
            Seq<char>,
        >(profile),
        cached is None && config.selected(env) is Some ==> profile_in_process(cached, config, env)
            == Ok::<Seq<char>, Seq<char>>(config.selected(env)->0),
        cached is None && config.selected(env) is None ==> profile_in_process(cached, config, env)
            is Err,
{
}

/// The key in force is that of the environment, else that of the keyring, else that of the
/// selected workspace; a workspace that is not there is named in the failure.
pub proof fn key_of_the_environment_wins(
    config: ConfigView,
    env: EnvironmentView,
    keyring: Option<Seq<char>>,
    name: Seq<char>,
)
    ensures
        env.api_key matches Some(key) ==> key.len() > 0 ==> api_key(config, env, keyring) == Ok::<
            Seq<char>,
            Seq<char>,
        >(key),
        env.api_key is None || env.api_key->0.len() == 0 ==> {
            &&& keyring matches Some(key) ==> api_key(config, env, keyring) == Ok::<
                Seq<char>,
                Seq<char>,
            >(key)
            &&& keyring is None && config.selected(env) == Some(name)
                && config.workspaces.contains_key(name) ==> api_key(config, env, keyring) == Ok::<
                Seq<char>,
                Seq<char>,
            >(config.workspaces[name].api_key)
            &&& keyring is None && config.selected(env) == Some(name)
                && !config.workspaces.contains_key(name) ==> api_key(config, env, keyring) is Err
                && text::contains_text(api_key(config, env, keyring)->Err_0, name)
            &&& keyring is None && config.selected(env) is None ==> api_key(config, env, keyring)
                is Err
        },
{
    let message = workspace_missing(name);
    let from = "Workspace '"@.len() as int;
    assert(message.subrange(from, from + name.len()) =~= name);
    text::subrange_occurs(message, from, from + name.len());
}

/// The team in force is the one that is given, else that of the environment, else the stored
/// one of the profile in use; a blank one counts as none.
pub proof fn given_team_wins(
    cli: Option<Seq<char>>,
    config: ConfigView,
    env: EnvironmentView,
    team: Seq<char>,
)
    ensures
        ({
            let none_given = cli is None || text::trim(cli->0).len() == 0;
            let none_set = env.team is None || text::trim(env.team->0).len() == 0;
            let name = config.profile_name(env);
            let none_stored = !config.workspaces.contains_key(name)
                || config.workspaces[name].default_team is None || text::trim(
                config.workspaces[name].default_team->0,
            ).len() == 0;
            let r = needed_team(cli, Some(config), env);
            &&& !none_given ==> r == Ok::<Seq<char>, Seq<char>>(text::trim(cli->0))
            &&& none_given && !none_set ==> r == Ok::<Seq<char>, Seq<char>>(
                text::trim(env.team->0),
            )
            &&& none_given && none_set && !none_stored ==> r == Ok::<Seq<char>, Seq<char>>(
                config.workspaces[name].default_team->0,
            )
            &&& none_given && none_set && none_stored ==> r is Err
            &&& none_given && none_set ==> needed_team(cli, None, env) is Err
        }),
{
}

/// A key that is stored is that of its workspace; the rest of the workspace and every other
/// workspace stay, and so does a current workspace.
pub proof fn storing_a_key_keeps_the_rest(
    config: ConfigView,
    name: Seq<char>,
    key: Seq<char>,
    other: Seq<char>,
)
    ensures
        ({
            let after = config.set_key(name, key);
            &&& after.workspaces.contains_key(name)
            &&& after.workspaces[name].api_key == key
            &&& after.workspaces[name].oauth == config.oauth_metadata(name)
            &&& config.workspaces.contains_key(name) ==> after.workspaces[name].default_team
                == config.workspaces[name].default_team
            &&& !config.workspaces.contains_key(name) ==> after.workspaces[name].default_team is None
            &&& other != name ==> after.workspaces.contains_key(other)
                == config.workspaces.contains_key(other)
            &&& other != name && config.workspaces.contains_key(other) ==> after.workspaces[other]
                == config.workspaces[other]
            &&& config.current is Some ==> after.current == config.current
            &&& config.current is None ==> after.current == Some(name)
        }),
{
}

/// Tokens that are stored are those of their workspace; the rest of the workspace and every
/// other workspace stay, and so does a current workspace. Clearing them takes nothing else.
pub proof fn storing_tokens_keeps_the_rest(
    config: ConfigView,
    name: Seq<char>,
    oauth: OAuthConfigView,
    other: Seq<char>,
)
    ensures
        ({
            let after = config.save_oauth(name, oauth);
            let cleared = config.clear_oauth(name);
            &&& after.oauth_metadata(name) == Some(oauth)
            &&& config.workspaces.contains_key(name) ==> after.workspaces[name].api_key
                == config.workspaces[name].api_key && after.workspaces[name].default_team
                == config.workspaces[name].default_team
            &&& other != name ==> after.workspace(other) == config.workspace(other)
                && cleared.workspace(other) == config.workspace(other)
            &&& config.current is Some ==> after.current == config.current
            &&& config.current is None ==> after.current == Some(name)
            &&& cleared.oauth_metadata(name) is None
            &&& cleared.current == config.current
            &&& cleared.workspace(name).api_key == config.workspace(name).api_key
            &&& cleared.workspace(name).default_team == config.workspace(name).default_team
        }),
{
}

/// A key outside the workspaces becomes that of the workspace `default`, which is then in
/// force where nothing else was chosen; a workspace `default` that is there stays, as does
/// every other one.
pub proof fn legacy_key_becomes_the_default(
    config: ConfigView,
    env: EnvironmentView,
    key: Seq<char>,
    other: Seq<char>,
)
    requires
        config.api_key == Some(key),
    ensures
        ({
            let after = config.migrated();
            &&& !config.workspaces.contains_key("default"@) ==> config.is_legacy()
                && after.workspaces.contains_key("default"@)
                && after.workspaces["default"@].api_key == key
            &&& !config.workspaces.contains_key("default"@) && config.current is None
                && env.profile is None && env.api_key is None ==> api_key(after, env, None)
                == Ok::<Seq<char>, Seq<char>>(key)
            &&& config.workspaces.contains_key("default"@) ==> !config.is_legacy()
                && after.workspaces == config.workspaces && after.current == config.current
            &&& config.current is Some ==> after.current == config.current
            &&& other != "default"@ ==> after.workspace(other) == config.workspace(other)
        }),
{
}

/// A team that is set is read back without its outer white space and a blank one clears it;
/// nothing else of the workspace and no other workspace changes, and without the workspace
/// the change is refused by its name.
pub proof fn set_team_is_read_back(
    config: ConfigView,
    env: EnvironmentView,
    team: Option<Seq<char>>,
    other: Seq<char>,
)
    ensures
        ({
            let name = config.profile_name(env);
            let r = config.set_team(env, team);
            &&& r is Ok <==> config.workspaces.contains_key(name)
            &&& r matches Ok(after) ==> {
                &&& team is Some && text::trim(team->0).len() > 0 ==> after.stored_default_team(env)
                    == Some(text::trim(team->0))
                &&& team is None || text::trim(team->0).len() == 0 ==> after.stored_default_team(
                    env,
                ) is None
                &&& after.workspaces[name].api_key == config.workspaces[name].api_key
                &&& after.workspaces[name].oauth == config.workspaces[name].oauth
                &&& other != name ==> after.workspace(other) == config.workspace(other)
                &&& config.current is Some ==> after.current == config.current
            }
            &&& r matches Err(message) ==> text::contains_text(message, name)
        }),
{
    let name = config.profile_name(env);
    if team is Some {
        text::trim_is_idempotent(team->0);
    }
    let message = "Workspace '"@ + name
        + "' not found. Run setup or: linear config set-key first."@;
    let from = "Workspace '"@.len() as int;
    assert(message.subrange(from, from + name.len()) =~= name);
    text::subrange_occurs(message, from, from + name.len());
}

/// A workspace can be made current exactly where it is there; the workspaces stay, and it is
/// then the one in use where the environment names none.
pub proof fn switching_selects_the_workspace(
    config: ConfigView,
    env: EnvironmentView,
    name: Seq<char>,
)
    ensures
        config.switch(name) is Ok <==> config.workspaces.contains_key(name),
        config.switch(name) matches Ok(after) ==> {
            &&& after.workspaces == config.workspaces
            &&& after.api_key == config.api_key
            &&& after.current == Some(name)
            &&& env.profile is None ==> after.profile_name(env) == name
            &&& env.profile is None && env.api_key is None ==> api_key(after, env, None) == Ok::<
                Seq<char>,
                Seq<char>,
            >(config.workspaces[name].api_key)
        },
        config.switch(name) matches Err(message) ==> text::contains_text(message, name),
        text::contains_text(switched(name), name),
{
    let message = no_such_workspace(name);
    let from = "Workspace '"@.len() as int;
    assert(message.subrange(from, from + name.len()) =~= name);
    text::subrange_occurs(message, from, from + name.len());
    let said = switched(name);
    let start = "Switched to workspace '"@.len() as int;
    assert(said.subrange(start, start + name.len()) =~= name);
    text::subrange_occurs(said, start, start + name.len());
}

/// A workspace that is added holds its key and nothing else, is current only where none was,
/// and leaves every other one as it was; one that is there is not replaced.
pub proof fn added_workspace_holds_its_key(
    config: ConfigView,
    name: Seq<char>,
    key: Seq<char>,
    other: Seq<char>,
)
    ensures
        config.add(name, key) is Ok <==> !config.workspaces.contains_key(name),
        config.add(name, key) matches Ok(after) ==> {
            &&& after.workspaces.contains_key(name)
            &&& after.workspaces[name].api_key == key
            &&& after.workspaces[name].oauth is None
            &&& after.workspaces[name].default_team is None
            &&& other != name ==> after.workspace(other) == config.workspace(other)
            &&& config.current is Some ==> after.current == config.current
            &&& config.current is None ==> after.current == Some(name)
            &&& config.current is None ==> added_lines(after, name).last() == switched(name)
            &&& config.current is Some && config.current->0 != name ==> added_lines(
                after,
                name,
            ).len() == 1
        },
        config.add(name, key) matches Err(message) ==> text::contains_text(message, name),
{
    let message = already_exists(name);
    let from = "Workspace '"@.len() as int;
    assert(message.subrange(from, from + name.len()) =~= name);
    text::subrange_occurs(message, from, from + name.len());
}

/// A workspace that is removed is gone, every other one stays, and the current one stays
/// unless it was the one removed.
pub proof fn removed_workspace_is_gone(
    config: ConfigView,
    pairs: Seq<(Seq<char>, WorkspaceView)>,
    name: Seq<char>,
    other: Seq<char>,
)
    ensures
        config.without(pairs, name) is Ok <==> config.workspaces.contains_key(name),
        config.without(pairs, name) matches Ok(after) ==> {
            &&& !after.workspaces.contains_key(name)
            &&& other != name ==> after.workspaces.contains_key(other)
                == config.workspaces.contains_key(other)
            &&& other != name ==> after.workspace(other) == config.workspace(other)
            &&& config.current != Some(name) ==> after.current == config.current
            &&& after.api_key == config.api_key
        },
        config.without(pairs, name) matches Err(message) ==> text::contains_text(message, name),
        text::contains_text(removed_lines(config.current, None, name).last(), name),
{
    let message = "Workspace '"@ + name + "' not found."@;
    let from = "Workspace '"@.len() as int;
    assert(message.subrange(from, from + name.len()) =~= name);
    text::subrange_occurs(message, from, from + name.len());
    let said = "Workspace '"@ + name + "' removed."@;
    assert(said.subrange(from, from + name.len()) =~= name);
    text::subrange_occurs(said, from, from + name.len());
}

/// A secret that is piped in is taken without its outer white space, where anything is left,
/// and one that is typed as it is.
pub proof fn piped_secret_is_trimmed(s: String)
    ensures
        secret(SecretInput::Typed(s)) == Some(s@),
        text::trim(s@).len() > 0 ==> secret(SecretInput::Piped(s)) == Some(text::trim(s@)),
        text::trim(s@).len() == 0 ==> secret(SecretInput::Piped(s)) is None,
{
}

/// Of a long key of ASCII characters the first and the last four are shown, and of a short
/// one none.
pub proof fn mask_shows_the_ends(key: Seq<char>)
    requires
        utf8::is_ascii_chars(key),
    ensures
        key.len() > 12 ==> masked(key) == key.take(4) + "***"@ + key.skip(key.len() - 4),
        key.len() <= 12 && text::starts_with(key, "lin_"@) ==> masked(key) == "lin_***"@,
        key.len() <= 12 && !text::starts_with(key, "lin_"@) ==> masked(key) == "***"@,
{
    utf8::is_ascii_chars_encode_utf8(key);
    if key.len() > 12 {
        let bytes = utf8::encode_utf8(key);
        let head = key.take(4);
        let tail = key.skip(key.len() - 4);
        utf8::is_ascii_chars_encode_utf8(head);
        utf8::is_ascii_chars_encode_utf8(tail);
        assert forall|i: int| 0 <= i < 4 implies utf8::encode_utf8(head)[i] == bytes[i] by {
            assert(head[i] as u8 == utf8::encode_utf8(head)[i]);
            assert(key[i] as u8 == bytes[i]);
        }
        assert forall|i: int| 0 <= i < 4 implies utf8::encode_utf8(tail)[i] == bytes[bytes.len() - 4
            + i] by {
            assert(tail[i] as u8 == utf8::encode_utf8(tail)[i]);
            assert(key[key.len() - 4 + i] as u8 == bytes[bytes.len() - 4 + i]);
        }
        assert(utf8::encode_utf8(head) =~= bytes.subrange(0, 4));
        assert(utf8::encode_utf8(tail) =~= bytes.subrange(bytes.len() - 4, bytes.len() as int));
        utf8::encode_utf8_decode_utf8(head);
        utf8::encode_utf8_decode_utf8(tail);
    }
}

/// The names of the settings are the known ones, which are settings apart, and a few others
/// for the same.
pub proof fn settings_are_known_by_name(lower: Seq<char>, key: ConfigKey)
    ensures
        key_of(lower) == Some(ConfigKey::ApiKey) <==> lower == "api-key"@ || lower == "api_key"@,
        key_of(lower) == Some(ConfigKey::Profile) <==> lower == "profile"@,
        key_of(lower) == Some(ConfigKey::DefaultTeam) <==> lower == "default-team"@ || lower
            == "default_team"@ || lower == "team"@,
        known_keys().contains(lower) ==> key_of(lower) is Some,
        exists|i: int|
            0 <= i < known_keys().len() && key_of(#[trigger] known_keys()[i]) == Some(key),
{
    reveal_strlit("api-key");
    reveal_strlit("api_key");
    reveal_strlit("profile");
    reveal_strlit("default-team");
    reveal_strlit("default_team");
    reveal_strlit("team");
    assert("api-key"@.len() == 7 && "api_key"@.len() == 7 && "profile"@.len() == 7);
    assert("default-team"@.len() == 12 && "default_team"@.len() == 12 && "team"@.len() == 4);
    assert("api-key"@[0] != "profile"@[0] && "api_key"@[0] != "profile"@[0]);
    match key {
        ConfigKey::ApiKey => {
            assert(key_of(known_keys()[0]) == Some(key));
        },
        ConfigKey::Profile => {
            assert(key_of(known_keys()[1]) == Some(key));
        },
        ConfigKey::DefaultTeam => {
            assert(key_of(known_keys()[2]) == Some(key));
        },
    }
}

/// A setting shows the value in force: the key, masked unless it is asked for as it is, the
/// profile, or the stored team. What was set is shown.
pub proof fn setting_shows_its_value(
    key: Seq<char>,
    raw: bool,
    config: ConfigView,
    env: EnvironmentView,
    keyring: Option<Seq<char>>,
    value: Seq<char>,
)
    ensures
        ({
            let name = key_of(text::unicode_lowercase(key));
            let shown = config_value(key, raw, config, env, keyring, None);
            &&& name is None ==> shown is Err && config.set(env, key, value) is Err
            &&& name == Some(ConfigKey::ApiKey) ==> {
                &&& shown is Ok <==> api_key(config, env, keyring) is Ok
                &&& shown is Ok && raw ==> shown->Ok_0 == Some(api_key(config, env, keyring)->Ok_0)
                &&& shown is Ok && !raw ==> shown->Ok_0 == Some(
                    masked(api_key(config, env, keyring)->Ok_0),
                )
                &&& config.set(env, key, value) is Err
            }
            &&& name == Some(ConfigKey::Profile) ==> {
                &&& shown matches Ok(line) ==> line == config.selected(env)
                &&& config.set(env, key, value) is Ok <==> config.workspaces.contains_key(value)
                &&& env.profile is None ==> (config.set(env, key, value) matches Ok(after)
                    ==> config_value(key, raw, after, env, keyring, None) == Ok::<
                    Option<Seq<char>>,
                    Seq<char>,
                >(Some(value)))
            }
            &&& name == Some(ConfigKey::DefaultTeam) ==> {
                &&& raw ==> shown == Ok::<Option<Seq<char>>, Seq<char>>(
                    config.stored_default_team(env),
                )
                &&& text::trim(value).len() > 0 ==> (config.set(env, key, value) matches Ok(after)
                    ==> config_value(key, raw, after, env, keyring, None) == Ok::<
                    Option<Seq<char>>,
                    Seq<char>,
                >(Some(text::trim(value))))
            }
        }),
{
    set_team_is_read_back(config, env, Some(value), value);
}

/// A line of the list names its workspace, shows its key masked, and begins with a star
/// exactly where the workspace is current.
pub proof fn workspaces_are_listed_by_name(
    current: Option<Seq<char>>,
    pairs: Seq<(Seq<char>, WorkspaceView)>,
    i: int,
)
    requires
        0 <= i < pairs.len(),
    ensures
        ({
            let lines = list_lines(current, pairs);
            let line = lines[i + 2];
            &&& lines.len() == pairs.len() + 4
            &&& text::contains_text(line, pairs[i].0)
            &&& text::contains_text(line, masked(pairs[i].1.api_key))
            &&& text::starts_with(line, "*"@) <==> current == Some(pairs[i].0)
        }),
{
    let lines = list_lines(current, pairs);
    let line = lines[i + 2];
    let name = pairs[i].0;
    let key = masked(pairs[i].1.api_key);
    reveal_strlit("*");
    reveal_strlit(" ");
    reveal_strlit(" (");
    reveal_strlit(")");
    assert(line == workspace_line(current, name, pairs[i].1));
    let after = 2 + name.len() as int;
    assert(line.subrange(2, after) =~= name);
    text::subrange_occurs(line, 2, after);
    let from = after + 2;
    assert(line.subrange(from, from + key.len()) =~= key);
    text::subrange_occurs(line, from, from + key.len());
    assert(line.subrange(0, 1) =~= seq![line[0]]);
    assert("*"@ =~= seq!['*']);
    assert(line[0] == if current == Some(name) { '*' } else { ' ' });
    if text::starts_with(line, "*"@) {
        assert(line.subrange(0, 1)[0] == '*');
    }
}

/// What is shown of the configuration holds its file, the current workspace, its masked key
/// and its team, and a team that the environment sets.
pub proof fn configuration_is_shown(
    config: ConfigView,
    path: Seq<char>,
    env: EnvironmentView,
    current: Seq<char>,
)
    requires
        config.current == Some(current),
        config.workspaces.contains_key(current),
    ensures
        ({
            let lines = config_lines(config, path, env);
            let workspace = config.workspaces[current];
            &&& lines[0] == "Config file: "@ + path
            &&& lines[4] == "Current workspace: "@ + current
            &&& lines[5] == "API Key: "@ + masked(workspace.api_key)
            &&& workspace.default_team matches Some(team) ==> team.len() > 0 ==> lines[6]
                == "Default team: "@ + team
            &&& env.team is Some && text::trim(env.team->0).len() > 0 ==> lines.last()
                == "LINEAR_CLI_TEAM (overrides config): "@ + text::trim(env.team->0)
            &&& current_lines(config)[0] == "Current workspace: "@ + current
            &&& current_lines(config)[1] == "API Key: "@ + masked(workspace.api_key)
        }),
{
}

/// Without its tokens the rest of what is known of a sign-in is kept; tokens are held exactly
/// where one of them is not empty.
pub proof fn metadata_keeps_the_rest(oauth: OAuthConfigView)
    ensures
        ({
            let kept = oauth.metadata_only();
            &&& kept.client_id == oauth.client_id
            &&& kept.expires_at == oauth.expires_at
            &&& kept.token_type == oauth.token_type
            &&& kept.scopes == oauth.scopes
            &&& kept.access_token.len() == 0
            &&& kept.refresh_token is None
        }),
        oauth.access_token.len() > 0 ==> oauth.has_secrets(),
        oauth.refresh_token is Some && oauth.refresh_token->0.len() > 0 ==> oauth.has_secrets(),
        oauth.access_token.len() == 0 && oauth.refresh_token is None ==> !oauth.has_secrets(),
{
}

/// Tokens of the keyring are used before those of the configuration; what the keyring gives
/// back is accepted exactly where both tokens are those that were written.
pub proof fn keyring_tokens_come_first(
    config: ConfigView,
    profile: Seq<char>,
    oauth: OAuthConfigView,
    stored: OAuthConfig,
)
    ensures
        oauth_tokens(config, profile, Some(oauth)) == Some(oauth),
        in_secure_storage(config, profile, true),
        read_back_fault(oauth, ReadBack::Stored(stored)) is None <==> stored@.access_token
            == oauth.access_token && stored@.refresh_token == oauth.refresh_token,
        read_back_fault(oauth, ReadBack::Missing) is Some,
{
}

} // verus!
