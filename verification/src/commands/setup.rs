//! Guided onboarding: API key, default team, output-format tip.
use vstd::prelude::*;
use vstd::string::*;

use crate::config;
use crate::config::{Config, ConfigView, Environment, EnvironmentView, WorkspaceView};
use crate::error::{Failure, FailureView};
use crate::json;
use crate::json::{Json, JsonView};
use crate::text;
use crate::text::{count_text, eq_ignore_case, joined2, joined3, joined4, joined5, same_text};

verus! {

pub open spec fn typed_key(input: Seq<char>) -> Option<Seq<char>> {
    if text::trim(input).len() == 0 {
        None
    } else {
        Some(text::trim(input))
    }
}

/// The key that was typed, without outer white space; it must not be empty.
pub fn entered_key(input: &str) -> (r: Result<String, Failure>)
    ensures
        match typed_key(input@) {
            Some(key) => r is Ok && r->Ok_0@ == key,
            None => r is Err && r->Err_0@ == FailureView::message("API key cannot be empty"@),
        },
{
    let key = text::trimmed(input);
    if key.as_str().is_empty() {
        return Err(Failure::message("API key cannot be empty"));
    }
    Ok(key)
}

/// The line that offers a team.
pub open spec fn team_line(index: int, team: JsonView) -> Seq<char> {
    "    "@ + text::decimal((index + 1) as nat) + (". "@ + team.at("name"@).text_or("?"@)) + (
    " ("@ + team.at("key"@).text_or("?"@)) + ")"@
}

/// The lines that offer teams.
pub fn team_lines(teams: &[Json]) -> (r: Vec<String>)
    ensures
        r@.len() == teams@.len(),
        forall|i: int| 0 <= i < r@.len() ==> (#[trigger] r@[i])@ == team_line(i, teams@[i]@),
{
    let mut lines: Vec<String> = Vec::new();
    let mut i: usize = 0;
    while i < teams.len()
        invariant
            i <= teams@.len(),
            lines@.len() == i,
            forall|k: int| 0 <= k < i ==> (#[trigger] lines@[k])@ == team_line(k, teams@[k]@),
        decreases teams@.len() - i,
    {
        let name = teams[i].at("name").text_or("?");
        let key = teams[i].at("key").text_or("?");
        lines.push(
            joined5(
                "    ",
                count_text(i + 1).as_str(),
                joined2(". ", name.as_str()).as_str(),
                joined2(" (", key.as_str()).as_str(),
                ")",
            ),
        );
        i += 1;
    }
    lines
}

/// A team is called by its key or its name, in any case.
pub open spec fn is_called(team: JsonView, choice: Seq<char>) -> bool {
    ||| team.at("key"@).as_str() is Some && text::same_ignoring_case(
        team.at("key"@).as_str()->0,
        choice,
    )
    ||| team.at("name"@).as_str() is Some && text::same_ignoring_case(
        team.at("name"@).as_str()->0,
        choice,
    )
}

pub open spec fn first_called(teams: Seq<JsonView>, choice: Seq<char>) -> Option<Seq<char>>
    decreases teams.len(),
{
    if teams.len() == 0 {
        None
    } else if is_called(teams[0], choice) {
        teams[0].at("key"@).as_str()
    } else {
        first_called(teams.drop_first(), choice)
    }
}

/// The key of the team that a choice means: a number counts from one, and any
/// other text is a key or a name.
pub open spec fn selected_key(teams: Seq<JsonView>, choice: Seq<char>) -> Option<Seq<char>> {
    match text::within(
        text::nat_value(text::unsigned_value(choice)),
        0,
        usize::MAX as int,
    ) {
        Some(number) => if 1 <= number <= teams.len() {
            teams[number - 1].at("key"@).as_str()
        } else {
            None
        },
        None => first_called(teams, choice),
    }
}

pub fn select_team_key(teams: &[Json], choice: &str) -> (r: Option<String>)
    ensures
        r.deep_view() == selected_key(json::json_views(teams@), choice@),
{
    let ghost all = json::json_views(teams@);
    match text::parse_usize(choice) {
        Some(number) => {
            if number >= 1 && number <= teams.len() {
                assert(all[number - 1] == teams@[number - 1]@);
                return teams[number - 1].at("key").as_text();
            }
            return None;
        },
        None => {},
    }
    let mut i: usize = 0;
    assert(all.skip(0) =~= all);
    while i < teams.len()
        invariant
            i <= teams@.len(),
            all == json::json_views(teams@),
            selected_key(all, choice@) == first_called(all, choice@),
            first_called(all, choice@) == first_called(all.skip(i as int), choice@),
        decreases teams@.len() - i,
    {
        assert(all.skip(i as int)[0] == teams@[i as int]@);
        assert(all.skip(i as int).drop_first() =~= all.skip(i + 1));
        let by_key = match teams[i].at("key").as_str() {
            Some(key) => eq_ignore_case(key, choice),
            None => false,
        };
        let by_name = match teams[i].at("name").as_str() {
            Some(name) => eq_ignore_case(name, choice),
            None => false,
        };
        if by_key || by_name {
            return teams[i].at("key").as_text();
        }
        i += 1;
    }
    None
}

/// A key that was selected is the key of one of the teams.
pub proof fn selected_key_is_offered(teams: Seq<JsonView>, choice: Seq<char>)
    requires
        selected_key(teams, choice) is Some,
    ensures
        exists|i: int|
            0 <= i < teams.len() && (#[trigger] teams[i]).at("key"@).as_str() == selected_key(
                teams,
                choice,
            ),
{
    match text::within(
        text::nat_value(text::unsigned_value(choice)),
        0,
        usize::MAX as int,
    ) {
        Some(number) => {
            assert(teams[number - 1].at("key"@).as_str() == selected_key(teams, choice));
        },
        None => {
            called_key_is_offered(teams, choice);
        },
    }
}

proof fn called_key_is_offered(teams: Seq<JsonView>, choice: Seq<char>)
    requires
        first_called(teams, choice) is Some,
    ensures
        exists|i: int|
            0 <= i < teams.len() && (#[trigger] teams[i]).at("key"@).as_str() == first_called(
                teams,
                choice,
            ),
    decreases teams.len(),
{
    if is_called(teams[0], choice) {
        assert(teams[0].at("key"@).as_str() == first_called(teams, choice));
    } else {
        let rest = teams.drop_first();
        called_key_is_offered(rest, choice);
        let i = choose|i: int|
            0 <= i < rest.len() && (#[trigger] rest[i]).at("key"@).as_str() == first_called(
                rest,
                choice,
            );
        assert(teams[i + 1] == rest[i]);
    }
}

/// What a choice of a team amounts to.
#[derive(Debug)]
pub enum TeamChoice {
    Skipped,
    Invalid,
    Chosen(String),
}

pub open spec fn team_choice(teams: Seq<JsonView>, input: Seq<char>) -> Option<Option<Seq<char>>> {
    let choice = text::trim(input);
    if choice.len() == 0 {
        None
    } else {
        Some(selected_key(teams, choice))
    }
}

/// Reads a choice of a team; an empty one skips it.
pub fn choose_team(teams: &[Json], input: &str) -> (r: TeamChoice)
    ensures
        match team_choice(json::json_views(teams@), input@) {
            None => r is Skipped,
            Some(None) => r is Invalid,
            Some(Some(key)) => r matches TeamChoice::Chosen(k) && k@ == key,
        },
{
    let choice = text::trimmed(input);
    if choice.as_str().is_empty() {
        return TeamChoice::Skipped;
    }
    match select_team_key(teams, choice.as_str()) {
        Some(key) => TeamChoice::Chosen(key),
        None => TeamChoice::Invalid,
    }
}

pub open spec fn choice_text(choice: TeamChoice) -> Seq<Seq<char>> {
    match choice {
        TeamChoice::Skipped => Seq::empty(),
        TeamChoice::Invalid => seq!["  Invalid selection, skipping."@],
        TeamChoice::Chosen(key) => seq![
            "  Default team saved: "@ + key@,
            "  Tip: Override with -t "@ + key@ + " or LINEAR_CLI_TEAM="@ + key@,
        ],
    }
}

/// The lines that answer a choice of a team.
pub fn choice_lines(choice: &TeamChoice) -> (r: Vec<String>)
    ensures
        r.deep_view() == choice_text(*choice),
{
    let mut lines: Vec<String> = Vec::new();
    match choice {
        TeamChoice::Skipped => {},
        TeamChoice::Invalid => {
            lines.push("  Invalid selection, skipping.".to_string());
        },
        TeamChoice::Chosen(key) => {
            lines.push(joined2("  Default team saved: ", key.as_str()));
            lines.push(
                joined4(
                    "  Tip: Override with -t ",
                    key.as_str(),
                    " or LINEAR_CLI_TEAM=",
                    key.as_str(),
                ),
            );
        },
    }
    assert(lines.deep_view() =~= choice_text(*choice));
    lines
}

/// The configuration after a setup.
pub open spec fn after_setup(
    before: ConfigView,
    env: EnvironmentView,
    api_key: Seq<char>,
    team: Option<Seq<char>>,
) -> ConfigView {
    let name = before.profile_name(env);
    let keyed = before.set_key(name, api_key);
    match team {
        Some(key) => keyed.with_workspace(
            name,
            WorkspaceView {
                default_team: config::trimmed_value(Some(key)),
                ..keyed.workspaces[name]
            },
        ),
        None => keyed,
    }
}

/// Stores the key that was entered and the team that was chosen.
pub fn apply_setup(config: &mut Config, env: &Environment, api_key: &str, team: &Option<String>) -> (r:
    Result<(), Failure>)
    ensures
        r is Ok,
        final(config)@ == after_setup(old(config)@, env@, api_key@, team.deep_view()),
{
    config::set_api_key(config, env, api_key);
    let ghost keyed = config@;
    match team {
        Some(_) => {
            assert(keyed.profile_name(env@) == old(config)@.profile_name(env@));
            match config::set_default_team(config, env, team) {
                Ok(()) => {
                    assert(config@ =~= keyed.with_workspace(
                        keyed.profile_name(env@),
                        WorkspaceView {
                            default_team: config::trimmed_value(team.deep_view()),
                            ..keyed.workspaces[keyed.profile_name(env@)]
                        },
                    ));
                    Ok(())
                },
                Err(failure) => Err(failure),
            }
        },
        None => Ok(()),
    }
}

/// The lines that answer a choice of an output format.
pub open spec fn format_text(input: Seq<char>) -> Seq<Seq<char>> {
    let choice = text::trim(input);
    if choice == "2"@ || choice == "json"@ {
        seq![
            "  Output format: json"@,
            "  Tip: Set LINEAR_CLI_OUTPUT=json in your shell profile."@,
        ]
    } else {
        seq!["  Output format: table (default)"@]
    }
}

pub fn format_lines(input: &str) -> (r: Vec<String>)
    ensures
        r.deep_view() == format_text(input@),
{
    let choice = text::trimmed(input);
    let mut lines: Vec<String> = Vec::new();
    if same_text(choice.as_str(), "2") || same_text(choice.as_str(), "json") {
        lines.push("  Output format: json".to_string());
        lines.push("  Tip: Set LINEAR_CLI_OUTPUT=json in your shell profile.".to_string());
    } else {
        lines.push("  Output format: table (default)".to_string());
    }
    assert(lines.deep_view() =~= format_text(input@));
    lines
}

/// The lines that end the setup.
pub open spec fn summary_text(team: Option<Seq<char>>) -> Seq<Seq<char>> {
    match team {
        Some(team) => seq![
            "Setup complete!"@,
            "  Default team: "@ + team + " (persisted in config)"@,
            "  Change later: linear config set default-team <KEY>"@,
        ],
        None => seq![
            "Setup complete!"@,
            "  Default team: not set"@,
            "  Set later: linear config set default-team <KEY>"@,
        ],
    }
}

pub fn summary_lines(team: &Option<String>) -> (r: Vec<String>)
    ensures
        r.deep_view() == summary_text(team.deep_view()),
{
    let mut lines: Vec<String> = Vec::new();
    lines.push("Setup complete!".to_string());
    match team {
        Some(team) => {
            lines.push(joined3("  Default team: ", team.as_str(), " (persisted in config)"));
            lines.push("  Change later: linear config set default-team <KEY>".to_string());
        },
        None => {
            lines.push("  Default team: not set".to_string());
            lines.push("  Set later: linear config set default-team <KEY>".to_string());
        },
    }
    assert(lines.deep_view() =~= summary_text(team.deep_view()));
    lines
}

pub open spec fn payload(team: Option<Seq<char>>) -> JsonView {
    JsonView::object().with("setup"@, JsonView::Bool(true)).with(
        "api_key_saved"@,
        JsonView::Bool(true),
    ).with("default_team"@, JsonView::opt_text(team))
}

/// The JSON value that reports the setup.
pub fn setup_payload(team: &Option<String>) -> (r: Json)
    ensures
        r@ == payload(team.deep_view()),
{
    Json::object().with("setup", Json::Bool(true)).with("api_key_saved", Json::Bool(true)).with(
        "default_team",
        Json::opt_text(team),
    )
}

// ---------------------------------------------------------------------------
// What a setup keeps
// ---------------------------------------------------------------------------

/// A setup stores the key under the profile in use, where it is read again, and the team
/// where one was chosen, and leaves every other profile as it was.
pub proof fn setup_stores_the_key_and_the_team(
    before: ConfigView,
    env: EnvironmentView,
    api_key: Seq<char>,
    team: Option<Seq<char>>,
    other: Seq<char>,
)
    ensures
        ({
            let after = after_setup(before, env, api_key, team);
            let name = before.profile_name(env);
            &&& after.workspaces.contains_key(name)
            &&& after.workspaces[name].api_key == api_key
            &&& after.profile_name(env) == name
            &&& team matches Some(key) ==> text::trim(key).len() > 0
                ==> after.workspaces[name].default_team == Some(text::trim(key))
            &&& team is None && before.workspaces.contains_key(name)
                ==> after.workspaces[name].default_team == before.workspaces[name].default_team
            &&& before.workspaces.contains_key(name) ==> after.workspaces[name].oauth
                == before.workspaces[name].oauth
            &&& other != name ==> after.workspaces.contains_key(other)
                == before.workspaces.contains_key(other)
            &&& other != name && before.workspaces.contains_key(other) ==> after.workspaces[other]
                == before.workspaces[other]
            &&& before.current is Some ==> after.current == before.current
            &&& before.current is None ==> after.current == Some(name)
        }),
{
}

/// A key is taken without the white space around it, and a blank one is refused.
pub proof fn typed_key_is_trimmed(input: Seq<char>)
    ensures
        typed_key(input) is None <==> text::trim(input).len() == 0,
        typed_key(input) matches Some(key) ==> key == text::trim(input),
{
}

/// A team is called by a text: the text is its key or its name, in any case.
pub open spec fn answers_to(team: JsonView, choice: Seq<char>) -> bool {
    ||| team.at("key"@) is Text && text::same_ignoring_case(team.at("key"@)->Text_0, choice)
    ||| team.at("name"@) is Text && text::same_ignoring_case(team.at("name"@)->Text_0, choice)
}

/// A number chooses the team that is offered under it, and a text the first team that answers
/// to it; a number out of range and a text that no team answers to are invalid, and a blank
/// choice is skipped.
pub proof fn choice_takes_the_offered_team(
    teams: Seq<JsonView>,
    number: nat,
    choice: Seq<char>,
    at: int,
)
    requires
        number <= usize::MAX,
        text::unsigned_value(choice) is None,
        choice.len() > 0,
        text::trim(choice) == choice,
    ensures
        1 <= number <= teams.len() ==> team_choice(teams, text::decimal(number)) == Some(
            teams[number - 1].at("key"@).as_str(),
        ),
        number == 0 || number > teams.len() ==> team_choice(teams, text::decimal(number)) == Some(
            None::<Seq<char>>,
        ),
        0 <= at < teams.len() && answers_to(teams[at], choice) && (forall|k: int|
            0 <= k < at ==> !answers_to(#[trigger] teams[k], choice)) ==> team_choice(teams, choice)
            == Some(teams[at].at("key"@).as_str()),
        (forall|k: int| 0 <= k < teams.len() ==> !answers_to(#[trigger] teams[k], choice))
            ==> team_choice(teams, choice) == Some(None::<Seq<char>>),
        team_choice(teams, Seq::empty()) is None,
{
    text::written_number_is_read_back(0, number);
    let shown = text::decimal(number);
    assert(shown.len() > 0 && text::is_digit(shown[0])) by {
        text::decimal_begins_with_a_digit(number);
    }
    assert(text::is_digit(shown.last())) by {
        assert(shown.len() > 0);
    }
    text::tidy_text_is_kept(shown);
    first_that_answers(teams, choice, at);
    assert(text::trim(Seq::empty()).len() == 0);
}

proof fn first_that_answers(teams: Seq<JsonView>, choice: Seq<char>, at: int)
    ensures
        0 <= at < teams.len() && answers_to(teams[at], choice) && (forall|k: int|
            0 <= k < at ==> !answers_to(#[trigger] teams[k], choice)) ==> first_called(
            teams,
            choice,
        ) == teams[at].at("key"@).as_str(),
        (forall|k: int| 0 <= k < teams.len() ==> !answers_to(#[trigger] teams[k], choice))
            ==> first_called(teams, choice) is None,
    decreases teams.len(),
{
    if teams.len() > 0 {
        let rest = teams.drop_first();
        first_that_answers(rest, choice, at - 1);
        assert(is_called(teams[0], choice) <==> answers_to(teams[0], choice));
        assert(forall|k: int| 0 <= k < rest.len() ==> #[trigger] rest[k] == teams[k + 1]);
        if forall|k: int| 0 <= k < teams.len() ==> !answers_to(#[trigger] teams[k], choice) {
            assert(!answers_to(teams[0], choice));
            assert forall|k: int| 0 <= k < rest.len() implies !answers_to(
                #[trigger] rest[k],
                choice,
            ) by {
                assert(!answers_to(teams[k + 1], choice));
            }
        }
    }
}

/// A team is offered by its place, counted from one, with its name and its key.
pub proof fn team_is_offered_by_place_name_and_key(index: nat, team: JsonView)
    ensures
        team.at("name"@) is Text && team.at("key"@) is Text ==> team_line(index as int, team)
            == "    "@ + text::decimal(index + 1) + (". "@ + team.at("name"@)->Text_0) + (" ("@
            + team.at("key"@)->Text_0) + ")"@,
{
}

/// What was chosen is told, and the report holds it.
pub proof fn choice_is_told(key: String, team: Seq<char>)
    ensures
        choice_text(TeamChoice::Chosen(key))[0] == "  Default team saved: "@ + key@,
        choice_text(TeamChoice::Skipped).len() == 0,
        choice_text(TeamChoice::Invalid).len() == 1,
        text::contains_text(summary_text(Some(team))[1], team),
        payload(Some(team)).get("default_team"@) == Some(JsonView::Text(team)),
        payload(None).get("default_team"@) == Some(JsonView::Null),
        payload(Some(team)).get("api_key_saved"@) == Some(JsonView::Bool(true)),
        payload(Some(team)).get("setup"@) == Some(JsonView::Bool(true)),
{
    broadcast use json::group_fields;

    reveal_strlit("setup");
    reveal_strlit("api_key_saved");
    reveal_strlit("default_team");
    assert("setup"@.len() == 5 && "api_key_saved"@.len() == 13 && "default_team"@.len() == 12);
    let line = summary_text(Some(team))[1];
    let from = "  Default team: "@.len() as int;
    assert(line.subrange(from, from + team.len()) =~= team);
    text::subrange_occurs(line, from, from + team.len());
}

/// JSON output is chosen by its number or its name, and the table by anything else.
pub proof fn format_is_chosen_by_number_or_name(input: Seq<char>)
    ensures
        text::trim(input) == "2"@ || text::trim(input) == "json"@ ==> format_text(input)[0]
            == "  Output format: json"@,
        text::trim(input) != "2"@ && text::trim(input) != "json"@ ==> format_text(input)[0]
            == "  Output format: table (default)"@,
{
}

} // verus!
