//! Cycles of a team.
use vstd::prelude::*;
use vstd::string::*;
use vstd::utf8;

use crate::api;
use crate::api::{Request, RequestView};
use crate::clock;
use crate::commands::update;
use crate::commands::update::{UpdatePlan, UpdatePlanView};
use crate::config;
use crate::config::{Config, Environment};
use crate::error::{Failure, FailureView};
use crate::json;
use crate::json::{Json, JsonNumber, JsonNumberView, JsonView};
use crate::text;
use crate::text::{joined2, joined3, same_text};
use crate::types;
use crate::types::{Cycle, CycleView};

verus! {

pub enum CycleCommands {
    /// List cycles for a team
    List {
        /// Team ID or name
        team: Option<String>,
        /// Completed cycles too
        all: bool,
    },
    /// Get cycle details
    Get {
        /// Cycle ID
        id: String,
    },
    /// Show the current active cycle
    Current { team: Option<String> },
    /// Create a new cycle
    Create { team: Option<String>, fields: CycleFields },
    /// Update an existing cycle
    Update {
        /// Cycle ID
        id: String,
        fields: CycleFields,
        /// Preview without updating (dry run)
        dry_run: bool,
    },
    /// Delete a cycle
    Delete {
        /// Cycle ID
        id: String,
        /// Skip confirmation
        force: bool,
    },
    /// Mark a cycle as completed
    Complete {
        /// Cycle ID
        id: String,
    },
}

/// The fields of a cycle that can be set.
#[derive(Debug)]
pub struct CycleFields {
    pub name: Option<String>,
    pub description: Option<String>,
    /// Start date (ISO 8601, e.g. 2024-01-01)
    pub starts_at: Option<String>,
    /// End date (ISO 8601, e.g. 2024-01-14)
    pub ends_at: Option<String>,
}

impl CycleCommands {
    /// The team that is given with a command, where the command is for a team.
    pub open spec fn given_team(self) -> Option<Option<Seq<char>>> {
        match self {
            CycleCommands::List { team, .. } => Some(team.deep_view()),
            CycleCommands::Current { team } => Some(team.deep_view()),
            CycleCommands::Create { team, .. } => Some(team.deep_view()),
            _ => None,
        }
    }

    /// The team that a command is for, where it is for one: the one that is given,
    /// or the default.
    pub fn team(&self, config: Option<&Config>, env: &Environment) -> (r: Option<
        Result<String, Failure>,
    >)
        ensures
            match self.given_team() {
                Some(given) => r is Some && match config::team_arg(
                    given,
                    config::loaded(config),
                    env@,
                ) {
                    Some(team) => r->0 is Ok && r->0->Ok_0@ == team,
                    None => r->0 is Err && r->0->Err_0@ == FailureView::message(
                        config::TEAM_REQUIRED@,
                    ),
                },
                None => r is None,
            },
    {
        let given = match self {
            CycleCommands::List { team, .. } => text::clone_text(team),
            CycleCommands::Current { team } => text::clone_text(team),
            CycleCommands::Create { team, .. } => text::clone_text(team),
            _ => {
                return None;
            },
        };
        Some(config::require_team(given, config, env))
    }
}

/// The name of a team among known teams; what the user typed where it is not
/// known.
pub open spec fn known_team_name(teams: Seq<JsonView>, team_id: Seq<char>, team: Seq<char>) -> Seq<
    char,
>
    decreases teams.len(),
{
    if teams.len() == 0 {
        team
    } else if teams[0].at("id"@).as_str() == Some(team_id) {
        teams[0].at("name"@).text_or(team)
    } else {
        known_team_name(teams.drop_first(), team_id, team)
    }
}

pub open spec fn cached_items(cached: Option<JsonView>) -> Seq<JsonView> {
    match cached {
        Some(value) => value.items(),
        None => Seq::empty(),
    }
}

/// The name of a team, given what the cache holds of teams.
pub fn team_name(cached: &Option<Json>, team_id: &str, team: &str) -> (r: String)
    ensures
        r@ == known_team_name(cached_items(cached.deep_view()), team_id@, team@),
{
    match cached {
        Some(value) => {
            let teams = value.items();
            let ghost all = json::json_views(teams@);
            let mut i: usize = 0;
            assert(all.skip(0) =~= all);
            while i < teams.len()
                invariant
                    i <= teams@.len(),
                    all == cached_items(cached.deep_view()),
                    all == json::json_views(teams@),
                    known_team_name(all, team_id@, team@) == known_team_name(
                        all.skip(i as int),
                        team_id@,
                        team@,
                    ),
                decreases teams@.len() - i,
            {
                assert(all.skip(i as int)[0] == teams@[i as int]@);
                assert(all.skip(i as int).drop_first() =~= all.skip(i + 1));
                match teams[i].at("id").as_str() {
                    Some(id) => {
                        if same_text(id, team_id) {
                            return teams[i].at("name").text_or(team);
                        }
                    },
                    None => {},
                }
                i += 1;
            }
            team.to_string()
        },
        None => team.to_string(),
    }
}

pub const LIST_QUERY: &'static str = r#"
        query($teamId: String!, $first: Int, $after: String, $last: Int, $before: String) {
            team(id: $teamId) {
                cycles(first: $first, after: $after, last: $last, before: $before) {
                    nodes {
                        id
                        name
                        number
                        startsAt
                        endsAt
                        completedAt
                        progress
                    }
                    pageInfo {
                        hasNextPage
                        endCursor
                        hasPreviousPage
                        startCursor
                    }
                }
            }
        }
    "#;

/// Cycles that are listed where no limit is given, and the size of a page.
pub const DEFAULT_CYCLES: usize = 50;

pub open spec fn for_team(team_id: Seq<char>) -> JsonView {
    JsonView::object().with("teamId"@, JsonView::Text(team_id))
}

/// The variables of a query about a team.
pub fn team_variables(team_id: &str) -> (r: Json)
    ensures
        r@ == for_team(team_id@),
{
    Json::object().with("teamId", Json::text(team_id))
}

/// The cycles that are listed: those that are not completed, or all.
pub open spec fn listed_cycles(cycles: Seq<JsonView>, include_all: bool) -> Seq<JsonView> {
    cycles.filter(|cycle: JsonView| include_all || cycle.at("completedAt"@) is Null)
}

pub fn keep_listed(cycles: &[Json], include_all: bool) -> (r: Vec<Json>)
    ensures
        json::json_views(r@) == listed_cycles(json::json_views(cycles@), include_all),
{
    let ghost all = json::json_views(cycles@);
    let mut out: Vec<Json> = Vec::new();
    let mut i: usize = 0;
    reveal(Seq::filter);
    assert(all.take(0).len() == 0);
    assert(json::json_views(out@) =~= listed_cycles(all.take(0), include_all));
    while i < cycles.len()
        invariant
            i <= cycles@.len(),
            all == json::json_views(cycles@),
            json::json_views(out@) == listed_cycles(all.take(i as int), include_all),
        decreases cycles@.len() - i,
    {
        reveal(Seq::filter);
        assert(all.take(i + 1).drop_last() =~= all.take(i as int));
        assert(all.take(i + 1).last() == cycles@[i as int]@);
        let ghost before = json::json_views(out@);
        if include_all || cycles[i].at("completedAt").is_null() {
            let cycle = cycles[i].copy();
            out.push(cycle);
            assert(json::json_views(out@) =~= before.push(cycle@));
        }
        i += 1;
    }
    assert(all.take(i as int) =~= all);
    out
}

/// Without `--all` no completed cycle is listed; with it every cycle is.
pub proof fn completed_cycles_are_listed_only_on_request(cycles: Seq<JsonView>, i: int)
    ensures
        listed_cycles(cycles, true) == cycles,
        0 <= i < listed_cycles(cycles, false).len() ==> listed_cycles(cycles, false)[i].at(
            "completedAt"@,
        ) is Null,
    decreases cycles.len(),
{
    reveal(Seq::filter);
    if cycles.len() > 0 {
        let front = cycles.drop_last();
        completed_cycles_are_listed_only_on_request(front, i);
        assert(front.push(cycles.last()) =~= cycles);
    }
}

pub open spec fn listing(team_name: Seq<char>, cycles: Seq<JsonView>) -> JsonView {
    JsonView::object().with("team"@, JsonView::Text(team_name)).with(
        "cycles"@,
        JsonView::Array(cycles),
    )
}

/// The JSON value that lists cycles.
pub fn list_payload(team_name: &str, cycles: &Vec<Json>) -> (r: Json)
    ensures
        r@ == listing(team_name@, json::json_views(cycles@)),
{
    Json::object().with("team", Json::text(team_name)).with(
        "cycles",
        Json::array(json::copy_all(cycles.as_slice())),
    )
}

/// One row of the table of cycles.
#[derive(Debug)]
pub struct CycleRow {
    pub name: String,
    pub number: String,
    pub status: &'static str,
    pub start_date: String,
    pub end_date: String,
    pub progress: Option<JsonNumber>,
    pub id: String,
}

#[verifier::ext_equal]
pub struct CycleRowView {
    pub name: Seq<char>,
    pub number: Seq<char>,
    pub status: Seq<char>,
    pub start_date: Seq<char>,
    pub end_date: Seq<char>,
    pub progress: Option<JsonNumberView>,
    pub id: Seq<char>,
}

impl View for CycleRow {
    type V = CycleRowView;

    open spec fn view(&self) -> CycleRowView {
        CycleRowView {
            name: self.name@,
            number: self.number@,
            status: self.status@,
            start_date: self.start_date@,
            end_date: self.end_date@,
            progress: types::number_view(self.progress),
            id: self.id@,
        }
    }
}

pub open spec fn or_dash(value: Option<Seq<char>>) -> Seq<char> {
    match value {
        Some(s) => s,
        None => "-"@,
    }
}

pub open spec fn start_of_date(value: Option<Seq<char>>) -> Seq<char> {
    match value {
        Some(s) => text::head(s, 10),
        None => "-"@,
    }
}

pub open spec fn cycle_status(cycle: CycleView) -> Seq<char> {
    if cycle.completed_at is Some {
        "Completed"@
    } else {
        "Active"@
    }
}

pub open spec fn cycle_row(cycle: CycleView, width: Option<usize>) -> CycleRowView {
    CycleRowView {
        name: text::shortened(or_dash(cycle.name), width),
        number: match cycle.number {
            Some(n) => text::signed_decimal(n as int),
            None => "-"@,
        },
        status: cycle_status(cycle),
        start_date: start_of_date(cycle.starts_at),
        end_date: start_of_date(cycle.ends_at),
        progress: cycle.progress,
        id: cycle.id,
    }
}

pub open spec fn cycle_rows(cycles: Seq<JsonView>, width: Option<usize>) -> Seq<CycleRowView>
    decreases cycles.len(),
{
    if cycles.len() == 0 {
        Seq::empty()
    } else {
        let before = cycle_rows(cycles.drop_last(), width);
        match types::cycle(cycles.last()) {
            Some(cycle) => before.push(cycle_row(cycle, width)),
            None => before,
        }
    }
}

pub open spec fn row_views(rows: Seq<CycleRow>) -> Seq<CycleRowView> {
    Seq::new(rows.len(), |i: int| rows[i]@)
}

fn first_ten(value: &Option<String>) -> (r: String)
    ensures
        r@ == start_of_date(value.deep_view()),
{
    match value {
        Some(s) => text::first_chars(s.as_str(), 10),
        None => "-".to_string(),
    }
}

fn status_of(cycle: &Cycle) -> (r: &'static str)
    ensures
        r@ == cycle_status(cycle@),
{
    if cycle.completed_at.is_some() {
        "Completed"
    } else {
        "Active"
    }
}

fn row_of_cycle(cycle: Cycle, width: Option<usize>) -> (r: CycleRow)
    ensures
        r@ == cycle_row(cycle@, width),
{
    let name = match &cycle.name {
        Some(name) => text::truncate(name.as_str(), width),
        None => text::truncate("-", width),
    };
    let number = match cycle.number {
        Some(n) => text::signed_text(n),
        None => "-".to_string(),
    };
    let status = status_of(&cycle);
    CycleRow {
        name,
        number,
        status,
        start_date: first_ten(&cycle.starts_at),
        end_date: first_ten(&cycle.ends_at),
        progress: cycle.progress,
        id: cycle.id,
    }
}

/// The rows of cycles; one that cannot be read is passed over.
pub fn list_cycles(cycles: &[Json], width: Option<usize>) -> (r: Vec<CycleRow>)
    ensures
        row_views(r@) == cycle_rows(json::json_views(cycles@), width),
{
    let ghost all = json::json_views(cycles@);
    let mut rows: Vec<CycleRow> = Vec::new();
    let mut i: usize = 0;
    assert(all.take(0).len() == 0);
    assert(row_views(rows@) =~= cycle_rows(all.take(0), width));
    while i < cycles.len()
        invariant
            i <= cycles@.len(),
            all == json::json_views(cycles@),
            row_views(rows@) == cycle_rows(all.take(i as int), width),
        decreases cycles@.len() - i,
    {
        assert(all.take(i + 1).drop_last() =~= all.take(i as int));
        assert(all.take(i + 1).last() == cycles@[i as int]@);
        let ghost before = row_views(rows@);
        match types::read_cycle(&cycles[i]) {
            Some(cycle) => {
                let row = row_of_cycle(cycle, width);
                rows.push(row);
                assert(row_views(rows@) =~= before.push(row@));
            },
            None => {},
        }
        i += 1;
    }
    assert(all.take(i as int) =~= all);
    rows
}

pub const GET_QUERY: &'static str = r#"
        query($id: String!) {
            cycle(id: $id) {
                id
                name
                number
                description
                startsAt
                endsAt
                completedAt
                progress
                scopeHistory
                completedScopeHistory
                team { name key }
                issues(first: 250) {
                    nodes {
                        id
                        identifier
                        title
                        state { name type }
                        assignee { name }
                        priority
                    }
                }
            }
        }
    "#;

pub const CURRENT_QUERY: &'static str = r#"
        query($teamId: String!) {
            team(id: $teamId) {
                id
                name
                activeCycle {
                    id
                    name
                    number
                    startsAt
                    endsAt
                    progress
                    issues(first: 250) {
                        nodes {
                            id
                            identifier
                            title
                            state { name type }
                        }
                    }
                }
            }
        }
    "#;

pub open spec fn cycle_question(id: Seq<char>) -> RequestView {
    RequestView::with(GET_QUERY@, JsonView::object().with("id"@, JsonView::Text(id)))
}

/// The request for a cycle.
pub fn get_request(id: &str) -> (r: Request)
    ensures
        r@ == cycle_question(id@),
{
    Request::with(GET_QUERY, Json::object().with("id", Json::text(id)))
}

pub open spec fn current_question(team_id: Seq<char>) -> RequestView {
    RequestView::with(CURRENT_QUERY@, for_team(team_id))
}

/// The request for the active cycle of a team.
pub fn current_request(team_id: &str) -> (r: Request)
    ensures
        r@ == current_question(team_id@),
{
    Request::with(CURRENT_QUERY, team_variables(team_id))
}

/// A part of an answer that must be there.
pub open spec fn present(value: JsonView, missing: Seq<char>) -> Result<JsonView, FailureView> {
    if value is Null {
        Err(FailureView::message(missing))
    } else {
        Ok(value)
    }
}

pub open spec fn part_result(
    r: Result<&Json, Failure>,
    expected: Result<JsonView, FailureView>,
) -> bool {
    match expected {
        Ok(value) => r is Ok && r->Ok_0@ == value,
        Err(failure) => r is Err && r->Err_0@ == failure,
    }
}

pub open spec fn answered_cycle(response: JsonView, id: Seq<char>) -> Result<
    JsonView,
    FailureView,
> {
    present(response.at("data"@).at("cycle"@), "Cycle not found: "@ + id)
}

pub open spec fn answered_team(response: JsonView, team: Seq<char>) -> Result<
    JsonView,
    FailureView,
> {
    present(response.at("data"@).at("team"@), "Team not found: "@ + team)
}

/// The cycle in the answer to `get_request`.
pub fn found_cycle<'a>(response: &'a Json, id: &str) -> (r: Result<&'a Json, Failure>)
    ensures
        part_result(r, answered_cycle(response@, id@)),
{
    let cycle = response.at("data").at("cycle");
    if cycle.is_null() {
        return Err(Failure::message(joined2("Cycle not found: ", id).as_str()));
    }
    Ok(cycle)
}

/// The team in the answer to `current_request`.
pub fn found_team<'a>(response: &'a Json, team: &str) -> (r: Result<&'a Json, Failure>)
    ensures
        part_result(r, answered_team(response@, team@)),
{
    let data = response.at("data").at("team");
    if data.is_null() {
        return Err(Failure::message(joined2("Team not found: ", team).as_str()));
    }
    Ok(data)
}

/// A date without its time: the first ten bytes, where they are whole characters.
pub open spec fn date_part(value: Option<Seq<char>>) -> Seq<char> {
    match value {
        Some(s) => {
            let bytes = utf8::encode_utf8(s);
            if utf8::is_char_boundary(bytes, 10) {
                utf8::decode_utf8(bytes.subrange(0, 10))
            } else {
                s
            }
        },
        None => "-"@,
    }
}

pub fn date_text(value: &Option<String>) -> (r: String)
    ensures
        r@ == date_part(value.deep_view()),
{
    match value {
        Some(s) => {
            let whole = s.as_str();
            if whole.is_char_boundary(10) {
                let (date, _) = whole.split_at(10);
                proof {
                    utf8::encode_utf8_decode_utf8(date@);
                }
                date.to_string()
            } else {
                s.clone()
            }
        },
        None => "-".to_string(),
    }
}

pub open spec fn cycle_number(cycle: CycleView) -> i64 {
    match cycle.number {
        Some(n) => n,
        None => 0,
    }
}

/// The name of a cycle, or one made of its number.
pub open spec fn cycle_title(cycle: CycleView) -> Seq<char> {
    match cycle.name {
        Some(name) => name,
        None => "Cycle "@ + text::signed_decimal(cycle_number(cycle) as int),
    }
}

pub fn title_of(cycle: &Cycle) -> (r: String)
    ensures
        r@ == cycle_title(cycle@),
{
    match &cycle.name {
        Some(name) => name.clone(),
        None => joined2("Cycle ", number_of(cycle).as_str()),
    }
}

fn number_of(cycle: &Cycle) -> (r: String)
    ensures
        r@ == text::signed_decimal(cycle_number(cycle@) as int),
{
    match cycle.number {
        Some(n) => text::signed_text(n),
        None => text::signed_text(0),
    }
}

/// The lines that show a cycle under its title; the progress is shown as given.
pub open spec fn detail_lines(cycle: CycleView, team: JsonView, progress: Seq<char>) -> Seq<
    Seq<char>,
> {
    let of_team = match team.at("name"@).as_str() {
        Some(name) => seq![
            "Team: "@ + name + (" ("@ + team.at("key"@).text_or(""@) + ")"@),
        ],
        None => Seq::empty(),
    };
    let description = match cycle.description {
        Some(description) => if description.len() == 0 {
            Seq::empty()
        } else {
            seq!["Description: "@ + description]
        },
        None => Seq::empty(),
    };
    of_team + seq!["Number: "@ + text::signed_decimal(cycle_number(cycle) as int)] + description
        + seq![
        "Start: "@ + date_part(cycle.starts_at),
        "End: "@ + date_part(cycle.ends_at),
        "Progress: "@ + progress,
        "Status: "@ + cycle_status(cycle),
        "ID: "@ + cycle.id,
    ]
}

/// Shows a cycle, with its team.
pub fn get_cycle(cycle: &Cycle, team: &Json, progress: &str) -> (r: Vec<String>)
    ensures
        r.deep_view() == detail_lines(cycle@, team@, progress@),
{
    let mut lines: Vec<String> = Vec::new();
    match team.at("name").as_text() {
        Some(name) => {
            let key = team.at("key").text_or("");
            lines.push(
                joined3("Team: ", name.as_str(), joined3(" (", key.as_str(), ")").as_str()),
            );
        },
        None => {},
    }
    lines.push(joined2("Number: ", number_of(cycle).as_str()));
    match &cycle.description {
        Some(description) => {
            if !description.as_str().is_empty() {
                lines.push(joined2("Description: ", description.as_str()));
            }
        },
        None => {},
    }
    lines.push(joined2("Start: ", date_text(&cycle.starts_at).as_str()));
    lines.push(joined2("End: ", date_text(&cycle.ends_at).as_str()));
    lines.push(joined2("Progress: ", progress));
    lines.push(joined2("Status: ", status_of(cycle)));
    lines.push(joined2("ID: ", cycle.id.as_str()));
    assert(lines.deep_view() =~= detail_lines(cycle@, team@, progress@));
    lines
}

/// The lines that show the active cycle of a team under its title.
pub open spec fn current_lines(cycle: CycleView, team: Seq<char>, progress: Seq<char>) -> Seq<
    Seq<char>,
> {
    seq![
        "Team: "@ + team,
        "Cycle Number: "@ + text::signed_decimal(cycle_number(cycle) as int),
        "Start Date: "@ + date_part(cycle.starts_at),
        "End Date: "@ + date_part(cycle.ends_at),
        "Progress: "@ + progress,
        "ID: "@ + cycle.id,
    ]
}

/// Shows the active cycle of a team.
pub fn current_cycle(cycle: &Cycle, team_name: &str, progress: &str) -> (r: Vec<String>)
    ensures
        r.deep_view() == current_lines(cycle@, team_name@, progress@),
{
    let mut lines: Vec<String> = Vec::new();
    lines.push(joined2("Team: ", team_name));
    lines.push(joined2("Cycle Number: ", number_of(cycle).as_str()));
    lines.push(joined2("Start Date: ", date_text(&cycle.starts_at).as_str()));
    lines.push(joined2("End Date: ", date_text(&cycle.ends_at).as_str()));
    lines.push(joined2("Progress: ", progress));
    lines.push(joined2("ID: ", cycle.id.as_str()));
    assert(lines.deep_view() =~= current_lines(cycle@, team_name@, progress@));
    lines
}

/// How the name of a state is coloured.
#[derive(Debug, Clone, Copy, PartialEq, Eq, Structural)]
pub enum StateStyle {
    Completed,
    Started,
    Canceled,
    Other,
}

pub open spec fn state_style(state_type: Seq<char>) -> StateStyle {
    if state_type == "completed"@ {
        StateStyle::Completed
    } else if state_type == "started"@ {
        StateStyle::Started
    } else if state_type == "canceled"@ || state_type == "cancelled"@ {
        StateStyle::Canceled
    } else {
        StateStyle::Other
    }
}

fn style_of(state_type: &str) -> (r: StateStyle)
    ensures
        r == state_style(state_type@),
{
    if same_text(state_type, "completed") {
        StateStyle::Completed
    } else if same_text(state_type, "started") {
        StateStyle::Started
    } else if same_text(state_type, "canceled") || same_text(state_type, "cancelled") {
        StateStyle::Canceled
    } else {
        StateStyle::Other
    }
}

/// An issue of a cycle as it is shown.
#[derive(Debug)]
pub struct CycleIssue {
    pub identifier: String,
    pub title: String,
    pub state: String,
    pub style: StateStyle,
    pub assignee: String,
}

#[verifier::ext_equal]
pub struct CycleIssueView {
    pub identifier: Seq<char>,
    pub title: Seq<char>,
    pub state: Seq<char>,
    pub style: StateStyle,
    pub assignee: Seq<char>,
}

impl View for CycleIssue {
    type V = CycleIssueView;

    open spec fn view(&self) -> CycleIssueView {
        CycleIssueView {
            identifier: self.identifier@,
            title: self.title@,
            state: self.state@,
            style: self.style,
            assignee: self.assignee@,
        }
    }
}

/// An issue of a cycle, field by field.
pub open spec fn cycle_issue(issue: JsonView, width: Option<usize>) -> CycleIssueView {
    CycleIssueView {
        identifier: issue.at("identifier"@).text_or(""@),
        title: text::shortened(issue.at("title"@).text_or(""@), width),
        state: issue.at("state"@).at("name"@).text_or(""@),
        style: state_style(issue.at("state"@).at("type"@).text_or(""@)),
        assignee: issue.at("assignee"@).at("name"@).text_or("-"@),
    }
}

/// An issue of the active cycle: blank where the issue cannot be read as one, and
/// its state blank where the state cannot.
pub open spec fn current_issue(issue: JsonView, width: Option<usize>) -> CycleIssueView {
    let mention = types::issue_ref(issue);
    let state = types::workflow_state(issue.at("state"@));
    CycleIssueView {
        identifier: match mention {
            Some(mention) => mention.identifier,
            None => ""@,
        },
        title: text::shortened(
            match mention {
                Some(mention) => match mention.title {
                    Some(title) => title,
                    None => ""@,
                },
                None => ""@,
            },
            width,
        ),
        state: match state {
            Some(state) => state.name,
            None => ""@,
        },
        style: state_style(
            match state {
                Some(state) => match state.state_type {
                    Some(state_type) => state_type,
                    None => ""@,
                },
                None => ""@,
            },
        ),
        assignee: "-"@,
    }
}

pub fn show_cycle_issue(issue: &Json, width: Option<usize>) -> (r: CycleIssue)
    ensures
        r@ == cycle_issue(issue@, width),
{
    CycleIssue {
        identifier: issue.at("identifier").text_or(""),
        title: text::truncate(issue.at("title").text_or("").as_str(), width),
        state: issue.at("state").at("name").text_or(""),
        style: style_of(issue.at("state").at("type").text_or("").as_str()),
        assignee: issue.at("assignee").at("name").text_or("-"),
    }
}

pub fn show_current_issue(issue: &Json, width: Option<usize>) -> (r: CycleIssue)
    ensures
        r@ == current_issue(issue@, width),
{
    let (identifier, title) = match types::read_issue_ref(issue) {
        Some(mention) => (
            mention.identifier,
            match &mention.title {
                Some(title) => text::truncate(title.as_str(), width),
                None => text::truncate("", width),
            },
        ),
        None => ("".to_string(), text::truncate("", width)),
    };
    let (state, style) = match types::read_workflow_state(issue.at("state")) {
        Some(state) => {
            let style = match &state.state_type {
                Some(state_type) => style_of(state_type.as_str()),
                None => style_of(""),
            };
            (state.name, style)
        },
        None => ("".to_string(), style_of("")),
    };
    CycleIssue { identifier, title, state, style, assignee: "-".to_string() }
}

pub const CREATE_MUTATION: &'static str = r#"
        mutation($input: CycleCreateInput!) {
            cycleCreate(input: $input) {
                success
                cycle { id name number startsAt endsAt }
            }
        }
    "#;

pub const UPDATE_MUTATION: &'static str = r#"
        mutation($id: String!, $input: CycleUpdateInput!) {
            cycleUpdate(id: $id, input: $input) {
                success
                cycle { id name number }
            }
        }
    "#;

pub const COMPLETE_MUTATION: &'static str = r#"
        mutation($id: String!, $input: CycleUpdateInput!) {
            cycleUpdate(id: $id, input: $input) {
                success
                cycle { id name number completedAt }
            }
        }
    "#;

pub const DELETE_MUTATION: &'static str = r#"
        mutation($id: String!) {
            cycleDelete(id: $id) {
                success
            }
        }
    "#;

/// The fields that are given, set in an object.
pub open spec fn with_fields(object: JsonView, fields: CycleFields) -> JsonView {
    object.with_some("name"@, fields.name.deep_view()).with_some(
        "description"@,
        fields.description.deep_view(),
    ).with_some("startsAt"@, fields.starts_at.deep_view()).with_some(
        "endsAt"@,
        fields.ends_at.deep_view(),
    )
}

fn set_fields(object: Json, fields: &CycleFields) -> (r: Json)
    ensures
        r@ == with_fields(object@, *fields),
{
    object.with_some("name", &fields.name).with_some("description", &fields.description).with_some(
        "startsAt",
        &fields.starts_at,
    ).with_some("endsAt", &fields.ends_at)
}

pub open spec fn creation(team_id: Seq<char>, fields: CycleFields) -> RequestView {
    RequestView::with(
        CREATE_MUTATION@,
        JsonView::object().with("input"@, with_fields(for_team(team_id), fields)),
    )
}

/// The request that creates a cycle.
pub fn create_request(team_id: &str, fields: &CycleFields) -> (r: Request)
    ensures
        r@ == creation(team_id@, *fields),
{
    Request::with(
        CREATE_MUTATION,
        Json::object().with("input", set_fields(team_variables(team_id), fields)),
    )
}

pub open spec fn cycle_update(id: Seq<char>, fields: CycleFields, dry_run: bool) -> UpdatePlanView {
    update::planned_update(UPDATE_MUTATION@, id, with_fields(JsonView::object(), fields), dry_run)
}

/// Decides on an update of a cycle.
pub fn update_cycle(id: &str, fields: &CycleFields, dry_run: bool) -> (r: UpdatePlan)
    ensures
        r@ == cycle_update(id@, *fields, dry_run),
{
    update::plan_update(UPDATE_MUTATION, id, set_fields(Json::object(), fields), dry_run)
}

/// An update that sets no field does nothing, and one that sets a field is sent
/// unless it is a dry run.
pub proof fn update_is_sent_where_a_field_is_given(id: Seq<char>, fields: CycleFields, dry_run: bool)
    ensures
        ({
            let plan = cycle_update(id, fields, dry_run);
            let none = fields.name is None && fields.description is None && fields.starts_at is None
                && fields.ends_at is None;
            &&& plan is Nothing <==> none
            &&& plan is Send <==> !none && !dry_run
        }),
{
    let empty = JsonView::object();
    let named = empty.with_some("name"@, fields.name.deep_view());
    let described = named.with_some("description"@, fields.description.deep_view());
    let started = described.with_some("startsAt"@, fields.starts_at.deep_view());
    if fields.name is Some {
        json::object_with_field_is_not_empty(empty, "name"@, JsonView::Text(fields.name->0@));
    }
    if fields.description is Some {
        json::object_with_field_is_not_empty(
            named,
            "description"@,
            JsonView::Text(fields.description->0@),
        );
    }
    if fields.starts_at is Some {
        json::object_with_field_is_not_empty(
            described,
            "startsAt"@,
            JsonView::Text(fields.starts_at->0@),
        );
    }
    if fields.ends_at is Some {
        json::object_with_field_is_not_empty(
            started,
            "endsAt"@,
            JsonView::Text(fields.ends_at->0@),
        );
    }
}

pub open spec fn completion(id: Seq<char>, now: Seq<char>) -> RequestView {
    RequestView::with(
        COMPLETE_MUTATION@,
        update::id_and_input(
            id,
            JsonView::object().with("completedAt"@, JsonView::Text(now)),
        ),
    )
}

/// The request that marks a cycle as completed at a time.
pub fn complete_request_at(id: &str, now: &str) -> (r: Request)
    ensures
        r@ == completion(id@, now@),
{
    let input = Json::object().with("completedAt", Json::text(now));
    Request::with(
        COMPLETE_MUTATION,
        Json::object().with("id", Json::text(id)).with("input", input),
    )
}

/// A request marks a cycle as completed at a time that a clock can show, in seconds
/// since 1970 and nanoseconds, and holds the notation of its date.
pub open spec fn completes_at(request: RequestView, id: Seq<char>, seconds: i64, nanos: u32) -> bool {
    &&& clock::has_date(seconds as int)
    &&& clock::below_a_second(nanos)
    &&& clock::days_later(seconds, nanos, 0) is Some
    &&& request == completion(id, clock::days_later(seconds, nanos, 0)->0)
}

/// The request that marks a cycle as completed now, by the machine's clock.
pub fn complete_request(id: &str) -> (r: Request)
    ensures
        exists|seconds: i64, nanos: u32| #[trigger] completes_at(r@, id@, seconds, nanos),
{
    let now: (i64, u32) = clock::utc_now();
    let date = clock::rfc3339_days_later(now.0, now.1, 0).unwrap();
    let r = complete_request_at(id, date.as_str());
    assert(completes_at(r@, id@, now.0, now.1));
    r
}

/// The request that deletes a cycle, where that was forced or agreed to.
pub open spec fn deletion(id: Seq<char>, force: bool, yes: bool) -> Result<
    RequestView,
    FailureView,
> {
    if force || yes {
        Ok(RequestView::with(DELETE_MUTATION@, JsonView::object().with("id"@, JsonView::Text(id))))
    } else {
        Err(
            FailureView::message(
                "Delete requires --force flag. Use: linear cycles delete "@ + id + " --force"@,
            ),
        )
    }
}

/// The request that deletes a cycle; it must be forced or agreed to.
pub fn delete_request(id: &str, force: bool, yes: bool) -> (r: Result<Request, Failure>)
    ensures
        match deletion(id@, force, yes) {
            Ok(request) => r is Ok && r->Ok_0@ == request,
            Err(failure) => r is Err && r->Err_0@ == failure,
        },
{
    if !force && !yes {
        return Err(
            Failure::message(
                joined3(
                    "Delete requires --force flag. Use: linear cycles delete ",
                    id,
                    " --force",
                ).as_str(),
            ),
        );
    }
    Ok(Request::with(DELETE_MUTATION, Json::object().with("id", Json::text(id))))
}

pub open spec fn created(response: JsonView) -> Result<JsonView, FailureView> {
    api::confirmation(response, "cycleCreate"@, "cycle"@, "Failed to create cycle"@)
}

pub open spec fn updated(response: JsonView) -> Result<JsonView, FailureView> {
    api::confirmation(response, "cycleUpdate"@, "cycle"@, "Failed to update cycle"@)
}

pub open spec fn completed(response: JsonView) -> Result<JsonView, FailureView> {
    api::confirmation(response, "cycleUpdate"@, "cycle"@, "Failed to complete cycle"@)
}

/// The cycle that was created.
pub fn created_cycle<'a>(response: &'a Json) -> (r: Result<&'a Json, Failure>)
    ensures
        part_result(r, created(response@)),
{
    api::confirmed(response, "cycleCreate", "cycle", "Failed to create cycle")
}

/// The cycle that was updated.
pub fn updated_cycle<'a>(response: &'a Json) -> (r: Result<&'a Json, Failure>)
    ensures
        part_result(r, updated(response@)),
{
    api::confirmed(response, "cycleUpdate", "cycle", "Failed to update cycle")
}

/// The cycle that was completed.
pub fn completed_cycle<'a>(response: &'a Json) -> (r: Result<&'a Json, Failure>)
    ensures
        part_result(r, completed(response@)),
{
    api::confirmed(response, "cycleUpdate", "cycle", "Failed to complete cycle")
}

pub open spec fn deletion_report(response: JsonView, id: Seq<char>) -> Result<
    Seq<char>,
    FailureView,
> {
    if response.at("data"@).at("cycleDelete"@).at("success"@).is_true() {
        Ok("Cycle "@ + id + " deleted."@)
    } else {
        Err(FailureView::message("Failed to delete cycle "@ + id))
    }
}

/// Whether a cycle was deleted, in words.
pub fn deleted_cycle(response: &Json, id: &str) -> (r: Result<String, Failure>)
    ensures
        match deletion_report(response@, id@) {
            Ok(line) => r is Ok && r->Ok_0@ == line,
            Err(failure) => r is Err && r->Err_0@ == failure,
        },
{
    if response.at("data").at("cycleDelete").at("success").is_true() {
        Ok(joined3("Cycle ", id, " deleted."))
    } else {
        Err(Failure::message(joined2("Failed to delete cycle ", id).as_str()))
    }
}

/// The name of a cycle in a report, or a word for it.
pub open spec fn reported_name(cycle: JsonView) -> Seq<char> {
    let name = cycle.at("name"@).text_or(""@);
    if name.len() == 0 {
        "cycle"@
    } else {
        name
    }
}

fn name_in_report(cycle: &Json) -> (r: String)
    ensures
        r@ == reported_name(cycle@),
{
    let name = cycle.at("name").text_or("");
    if name.as_str().is_empty() {
        "cycle".to_string()
    } else {
        name
    }
}

/// The lines that report a cycle that was created.
pub open spec fn created_lines(cycle: JsonView) -> Seq<Seq<char>> {
    let lines = seq![
        "Created cycle: "@ + reported_name(cycle),
        "  ID: "@ + cycle.at("id"@).text_or(""@),
    ];
    match cycle.at("number"@).as_u64() {
        Some(n) => lines.push("  Number: "@ + text::decimal(n as nat)),
        None => lines,
    }
}

pub fn lines_of_created(cycle: &Json) -> (r: Vec<String>)
    ensures
        r.deep_view() == created_lines(cycle@),
{
    let mut lines: Vec<String> = Vec::new();
    lines.push(joined2("Created cycle: ", name_in_report(cycle).as_str()));
    lines.push(joined2("  ID: ", cycle.at("id").text_or("").as_str()));
    match cycle.at("number").as_u64() {
        Some(n) => {
            lines.push(joined2("  Number: ", text::decimal_text(n).as_str()));
        },
        None => {},
    }
    assert(lines.deep_view() =~= created_lines(cycle@));
    lines
}

pub open spec fn completion_text(cycle: JsonView) -> Seq<char> {
    "Cycle '"@ + reported_name(cycle) + "' marked as completed"@
}

/// The line that reports a cycle that was completed.
pub fn completed_line(cycle: &Json) -> (r: String)
    ensures
        r@ == completion_text(cycle@),
{
    joined3("Cycle '", name_in_report(cycle).as_str(), "' marked as completed")
}

// ---------------------------------------------------------------------------
// What the commands send and show
// ---------------------------------------------------------------------------

proof fn cycle_keys_differ()
    ensures
        "teamId"@ != "name"@,
        "teamId"@ != "description"@,
        "teamId"@ != "startsAt"@,
        "teamId"@ != "endsAt"@,
        "name"@ != "description"@,
        "name"@ != "startsAt"@,
        "name"@ != "endsAt"@,
        "description"@ != "startsAt"@,
        "description"@ != "endsAt"@,
        "startsAt"@ != "endsAt"@,
{
    reveal_strlit("teamId");
    reveal_strlit("name");
    reveal_strlit("description");
    reveal_strlit("startsAt");
    reveal_strlit("endsAt");
    assert("teamId"@.len() == 6 && "name"@.len() == 4 && "description"@.len() == 11);
    assert("startsAt"@.len() == 8 && "endsAt"@.len() == 6);
    assert("teamId"@[0] != "endsAt"@[0]);
}

/// Each field that is given is set under its name, and no other is.
pub open spec fn holds_fields(input: JsonView, fields: CycleFields) -> bool {
    let set = |key: Seq<char>, value: Option<String>|
        match value {
            Some(s) => input.get(key) == Some(JsonView::Text(s@)),
            None => input.get(key) is None,
        };
    &&& set("name"@, fields.name)
    &&& set("description"@, fields.description)
    &&& set("startsAt"@, fields.starts_at)
    &&& set("endsAt"@, fields.ends_at)
}

proof fn given_fields_are_set(object: JsonView, fields: CycleFields)
    requires
        object is Object,
        object.get("name"@) is None,
        object.get("description"@) is None,
        object.get("startsAt"@) is None,
        object.get("endsAt"@) is None,
    ensures
        holds_fields(with_fields(object, fields), fields),
        with_fields(object, fields).get("teamId"@) == object.get("teamId"@),
{
    broadcast use json::group_fields;

    cycle_keys_differ();
}

/// A cycle is created in its team with every field that was given, and with no other; an
/// update sets exactly the fields that were given, of the cycle that was named.
pub proof fn cycle_is_sent_with_the_given_fields(
    team_id: Seq<char>,
    id: Seq<char>,
    fields: CycleFields,
)
    ensures
        ({
            let input = creation(team_id, fields).variables->0.at("input"@);
            &&& creation(team_id, fields).variables is Some
            &&& input.get("teamId"@) == Some(JsonView::Text(team_id))
            &&& holds_fields(input, fields)
        }),
        cycle_update(id, fields, false) matches UpdatePlanView::Send(request) ==> {
            &&& request.variables is Some
            &&& request.variables->0.get("id"@) == Some(JsonView::Text(id))
            &&& holds_fields(request.variables->0.at("input"@), fields)
        },
        !(cycle_update(id, fields, true) is Send),
{
    broadcast use json::group_fields;

    cycle_keys_differ();
    given_fields_are_set(for_team(team_id), fields);
    given_fields_are_set(JsonView::object(), fields);
    update::update_carries_the_id_and_the_input(
        UPDATE_MUTATION@,
        id,
        with_fields(JsonView::object(), fields),
    );
    let input = with_fields(for_team(team_id), fields);
    assert(JsonView::object().with("input"@, input).get("input"@) == Some(input));
}

/// A question about a cycle names the cycle, and one about the active cycle names the team.
pub proof fn questions_name_their_subject(id: Seq<char>, team_id: Seq<char>)
    ensures
        cycle_question(id).variables is Some,
        cycle_question(id).variables->0.get("id"@) == Some(JsonView::Text(id)),
        current_question(team_id).variables is Some,
        current_question(team_id).variables->0.get("teamId"@) == Some(JsonView::Text(team_id)),
{
    broadcast use json::group_fields;

}

/// A completion names the cycle and the time at which it was completed.
pub proof fn completion_carries_the_time(id: Seq<char>, now: Seq<char>)
    ensures
        completion(id, now).variables is Some,
        completion(id, now).variables->0.at("id"@) == JsonView::Text(id),
        completion(id, now).variables->0.at("input"@).at("completedAt"@) == JsonView::Text(now),
{
    broadcast use json::group_fields;

    reveal_strlit("id");
    reveal_strlit("input");
    assert("id"@.len() == 2 && "input"@.len() == 5);
    let input = JsonView::object().with("completedAt"@, JsonView::Text(now));
    assert(input.get("completedAt"@) == Some(JsonView::Text(now)));
    let start = JsonView::object().with("id"@, JsonView::Text(id));
    assert(start.with("input"@, input).get("id"@) == Some(JsonView::Text(id)));
    assert(start.with("input"@, input).get("input"@) == Some(input));
}

/// Nothing is deleted that was neither forced nor agreed to; what is deleted is what was
/// named.
pub proof fn deletion_needs_consent(id: Seq<char>, force: bool, yes: bool)
    ensures
        deletion(id, force, yes) is Ok <==> force || yes,
        deletion(id, force, yes) matches Ok(request) ==> request.variables is Some
            && request.variables->0.get("id"@) == Some(JsonView::Text(id)),
{
    broadcast use json::group_fields;

}

/// A change is reported only where its answer confirms it, and with what the answer shows.
pub proof fn only_confirmed_changes_are_reported(response: JsonView, id: Seq<char>)
    ensures
        ({
            let data = response.at("data"@);
            let done = |field: Seq<char>| data.at(field).at("success"@) == JsonView::Bool(true);
            &&& created(response) is Ok <==> done("cycleCreate"@)
            &&& created(response) is Ok ==> created(response)->Ok_0 == data.at("cycleCreate"@).at(
                "cycle"@,
            )
            &&& updated(response) is Ok <==> done("cycleUpdate"@)
            &&& updated(response) is Ok ==> updated(response)->Ok_0 == data.at("cycleUpdate"@).at(
                "cycle"@,
            )
            &&& completed(response) is Ok <==> done("cycleUpdate"@)
            &&& completed(response) is Ok ==> completed(response)->Ok_0 == data.at(
                "cycleUpdate"@,
            ).at("cycle"@)
            &&& deletion_report(response, id) is Ok <==> done("cycleDelete"@)
            &&& answered_cycle(response, id) is Ok <==> !(data.at("cycle"@) is Null)
            &&& answered_cycle(response, id) is Ok ==> answered_cycle(response, id)->Ok_0
                == data.at("cycle"@)
            &&& answered_team(response, id) is Ok <==> !(data.at("team"@) is Null)
            &&& answered_team(response, id) is Ok ==> answered_team(response, id)->Ok_0 == data.at(
                "team"@,
            )
        }),
{
}

/// Without `--all` every cycle that is not completed is listed, and those alone.
pub proof fn open_cycles_are_listed(cycles: Seq<JsonView>, cycle: JsonView)
    ensures
        listed_cycles(cycles, false).contains(cycle) <==> cycles.contains(cycle) && cycle.at(
            "completedAt"@,
        ) is Null,
        listed_cycles(cycles, true) == cycles,
{
    completed_cycles_are_listed_only_on_request(cycles, 0);
    kept_where_open(cycles, cycle);
}

proof fn kept_where_open(cycles: Seq<JsonView>, cycle: JsonView)
    ensures
        listed_cycles(cycles, false).contains(cycle) <==> cycles.contains(cycle) && cycle.at(
            "completedAt"@,
        ) is Null,
    decreases cycles.len(),
{
    reveal(Seq::filter);
    let all = listed_cycles(cycles, false);
    if cycles.len() > 0 {
        let front = cycles.drop_last();
        let before = listed_cycles(front, false);
        kept_where_open(front, cycle);
        if all.contains(cycle) {
            let k = choose|k: int| 0 <= k < all.len() && all[k] == cycle;
            if k < before.len() {
                assert(before[k] == cycle);
                let i = choose|i: int| 0 <= i < front.len() && front[i] == cycle;
                assert(cycles[i] == cycle);
            } else {
                assert(cycles[cycles.len() - 1] == cycle);
            }
        }
        if cycles.contains(cycle) && cycle.at("completedAt"@) is Null {
            let i = choose|i: int| 0 <= i < cycles.len() && cycles[i] == cycle;
            if i < front.len() {
                assert(front[i] == cycle);
                let k = choose|k: int| 0 <= k < before.len() && before[k] == cycle;
                assert(all[k] == cycle);
            } else {
                assert(all[all.len() - 1] == cycle);
            }
        }
    }
}

/// A row shows the cycle: its name, its number, whether it is completed, its days and its ID.
pub proof fn row_shows_the_cycle(cycle: CycleView)
    ensures
        ({
            let row = cycle_row(cycle, None);
            &&& row.id == cycle.id
            &&& cycle.name matches Some(name) ==> row.name == name
            &&& cycle.number matches Some(n) ==> row.number == text::signed_decimal(n as int)
            &&& cycle.completed_at is Some ==> row.status == "Completed"@
            &&& cycle.completed_at is None ==> row.status == "Active"@
            &&& cycle.starts_at matches Some(s) ==> s.len() >= 10 ==> row.start_date == s.take(10)
            &&& cycle.ends_at matches Some(s) ==> s.len() >= 10 ==> row.end_date == s.take(10)
            &&& row.progress == cycle.progress
        }),
{
    if cycle.starts_at is Some && cycle.starts_at->0.len() == 10 {
        assert(cycle.starts_at->0.take(10) =~= cycle.starts_at->0);
    }
    if cycle.ends_at is Some && cycle.ends_at->0.len() == 10 {
        assert(cycle.ends_at->0.take(10) =~= cycle.ends_at->0);
    }
}

/// The rows of cycles stand in their order, one for each cycle that can be read.
pub proof fn rows_follow_the_cycles(cycles: Seq<JsonView>, cycle: JsonView, width: Option<usize>)
    ensures
        cycle_rows(Seq::empty(), width).len() == 0,
        cycle_rows(cycles.push(cycle), width) == (match types::cycle(cycle) {
            Some(read) => cycle_rows(cycles, width).push(cycle_row(read, width)),
            None => cycle_rows(cycles, width),
        }),
{
    assert(cycles.push(cycle).drop_last() =~= cycles);
}

/// The details of a cycle show its number, its days, the progress, the status and the ID.
pub proof fn details_show_the_cycle(
    cycle: CycleView,
    team: JsonView,
    name: Seq<char>,
    progress: Seq<char>,
)
    ensures
        ({
            let lines = detail_lines(cycle, team, progress);
            let current = current_lines(cycle, name, progress);
            &&& lines.contains("ID: "@ + cycle.id)
            &&& lines.contains("Progress: "@ + progress)
            &&& cycle.completed_at is Some ==> lines.contains("Status: "@ + "Completed"@)
            &&& cycle.completed_at is None ==> lines.contains("Status: "@ + "Active"@)
            &&& lines.contains("Start: "@ + date_part(cycle.starts_at))
            &&& lines.contains("End: "@ + date_part(cycle.ends_at))
            &&& cycle.number matches Some(n) ==> lines.contains(
                "Number: "@ + text::signed_decimal(n as int),
            )
            &&& cycle.description matches Some(d) ==> d.len() > 0 ==> lines.contains(
                "Description: "@ + d,
            )
            &&& current[0] == "Team: "@ + name
            &&& current[2] == "Start Date: "@ + date_part(cycle.starts_at)
            &&& current[3] == "End Date: "@ + date_part(cycle.ends_at)
            &&& current[4] == "Progress: "@ + progress
            &&& current[5] == "ID: "@ + cycle.id
            &&& cycle.number matches Some(n) ==> current[1] == "Cycle Number: "@
                + text::signed_decimal(n as int)
        }),
{
    let lines = detail_lines(cycle, team, progress);
    let n = lines.len() as int;
    let base = if team.at("name"@).as_str() is Some {
        1int
    } else {
        0int
    };
    assert(lines[n - 1] == "ID: "@ + cycle.id);
    assert(lines[n - 2] == "Status: "@ + cycle_status(cycle));
    assert(lines[n - 3] == "Progress: "@ + progress);
    assert(lines[n - 4] == "End: "@ + date_part(cycle.ends_at));
    assert(lines[n - 5] == "Start: "@ + date_part(cycle.starts_at));
    assert(lines[base] == "Number: "@ + text::signed_decimal(cycle_number(cycle) as int));
    if cycle.description is Some && cycle.description->0.len() > 0 {
        assert(lines[base + 1] == "Description: "@ + cycle.description->0);
    }
}

/// A date of plain characters is shown by its first ten.
pub proof fn date_is_shown_without_its_time(date: Seq<char>)
    requires
        utf8::is_ascii_chars(date),
        date.len() >= 10,
    ensures
        date_part(Some(date)) == date.take(10),
{
    let start = date.take(10);
    let bytes = utf8::encode_utf8(date);
    assert(utf8::is_ascii_chars(start));
    utf8::is_ascii_chars_encode_utf8(date);
    utf8::is_ascii_chars_encode_utf8(start);
    assert(bytes.subrange(0, 10) =~= utf8::encode_utf8(start)) by {
        assert forall|i: int| 0 <= i < 10 implies bytes[i] == utf8::encode_utf8(start)[i] by {
            assert(start[i] == date[i]);
        }
    }
    utf8::encode_utf8_decode_utf8(start);
    if !utf8::is_char_boundary(bytes, 10) {
        utf8::encode_utf8_valid_utf8(date);
        if date.len() == 10 {
            utf8::is_char_boundary_start_end_of_seq(bytes);
        } else {
            utf8::is_char_boundary_iff_not_is_continuation_byte(bytes, 10);
            let b = bytes[10];
            assert(date[10] as u8 == b);
            assert(b < 128);
            assert(!utf8::is_continuation_byte(b)) by {
                assert(b < 128 ==> b & 0xC0 != 0x80) by (bit_vector);
            }
        }
    }
}

/// A team is shown by its name where it is known, and as it was typed where it is not.
pub proof fn known_team_is_shown_by_name(
    teams: Seq<JsonView>,
    at: int,
    team_id: Seq<char>,
    team: Seq<char>,
)
    ensures
        0 <= at < teams.len() && teams[at].at("id"@) == JsonView::Text(team_id) && teams[at].at(
            "name"@,
        ) is Text && (forall|k: int|
            0 <= k < at ==> (#[trigger] teams[k]).at("id"@) != JsonView::Text(team_id))
            ==> known_team_name(teams, team_id, team) == teams[at].at("name"@)->Text_0,
        (forall|k: int|
            0 <= k < teams.len() ==> (#[trigger] teams[k]).at("id"@) != JsonView::Text(team_id))
            ==> known_team_name(teams, team_id, team) == team,
    decreases teams.len(),
{
    if teams.len() > 0 {
        let rest = teams.drop_first();
        known_team_is_shown_by_name(rest, at - 1, team_id, team);
        assert(forall|k: int| 0 <= k < rest.len() ==> #[trigger] rest[k] == teams[k + 1]);
        assert(teams[0].at("id"@).as_str() == Some(team_id) <==> teams[0].at("id"@)
            == JsonView::Text(team_id));
        if forall|k: int|
            0 <= k < teams.len() ==> (#[trigger] teams[k]).at("id"@) != JsonView::Text(team_id) {
            assert(teams[0].at("id"@) != JsonView::Text(team_id));
            assert forall|k: int| 0 <= k < rest.len() implies (#[trigger] rest[k]).at("id"@)
                != JsonView::Text(team_id) by {
                assert(teams[k + 1].at("id"@) != JsonView::Text(team_id));
            }
        }
    }
}

/// The listing holds the name of the team and the cycles, and the report of a cycle that was
/// created its name, its ID and its number.
pub proof fn listing_and_report_show_what_there_is(
    team_name: Seq<char>,
    cycles: Seq<JsonView>,
    cycle: JsonView,
)
    ensures
        listing(team_name, cycles).get("team"@) == Some(JsonView::Text(team_name)),
        listing(team_name, cycles).get("cycles"@) == Some(JsonView::Array(cycles)),
        cycle.at("name"@) is Text && cycle.at("name"@)->Text_0.len() > 0 ==> created_lines(cycle)[0]
            == "Created cycle: "@ + cycle.at("name"@)->Text_0,
        cycle.at("id"@) is Text ==> created_lines(cycle)[1] == "  ID: "@ + cycle.at("id"@)->Text_0,
        cycle.at("number"@).as_u64() matches Some(n) ==> created_lines(cycle).last()
            == "  Number: "@ + text::decimal(n as nat),
{
    broadcast use json::group_fields;

    reveal_strlit("team");
    reveal_strlit("cycles");
    assert("team"@.len() == 4 && "cycles"@.len() == 6);
}

/// A cycle that was completed is named.
pub proof fn completed_cycle_is_named(cycle: JsonView, name: Seq<char>)
    requires
        cycle.at("name"@) == JsonView::Text(name),
        name.len() > 0,
    ensures
        reported_name(cycle) == name,
        text::contains_text(completion_text(cycle), name),
{
    let said = completion_text(cycle);
    let from = "Cycle '"@.len() as int;
    assert(said.subrange(from, from + name.len()) =~= name);
    text::subrange_occurs(said, from, from + name.len());
}

/// An issue of a cycle is shown by its identifier, its title, its state and whom it is
/// assigned to.
pub proof fn issues_of_a_cycle_are_shown(issue: JsonView)
    ensures
        ({
            let shown = cycle_issue(issue, None);
            &&& issue.at("identifier"@) is Text ==> shown.identifier == issue.at(
                "identifier"@,
            )->Text_0
            &&& issue.at("title"@) is Text ==> shown.title == issue.at("title"@)->Text_0
            &&& issue.at("state"@).at("name"@) is Text ==> shown.state == issue.at("state"@).at(
                "name"@,
            )->Text_0
            &&& issue.at("assignee"@).at("name"@) is Text ==> shown.assignee == issue.at(
                "assignee"@,
            ).at("name"@)->Text_0
            &&& issue.at("state"@).at("type"@) is Text ==> shown.style == state_style(
                issue.at("state"@).at("type"@)->Text_0,
            )
        }),
        ({
            let shown = current_issue(issue, None);
            let state = issue.at("state"@);
            issue.at("id"@) is Text && issue.at("identifier"@) is Text && issue.at("title"@) is Text
                && state.at("id"@) is Text && state.at("name"@) is Text && state.at("type"@) is Text
                ==> {
                &&& shown.identifier == issue.at("identifier"@)->Text_0
                &&& shown.title == issue.at("title"@)->Text_0
                &&& shown.state == state.at("name"@)->Text_0
                &&& shown.style == state_style(state.at("type"@)->Text_0)
            }
        }),
{
}

/// A deletion that was not agreed to is refused with the command that would force it.
pub proof fn refused_deletion_names_the_cycle(id: Seq<char>)
    ensures
        deletion(id, false, false) is Err,
        text::contains_text(deletion(id, false, false)->Err_0.shown(), id),
{
    let message = deletion(id, false, false)->Err_0.shown();
    let from = "Delete requires --force flag. Use: linear cycles delete "@.len() as int;
    assert(message.subrange(from, from + id.len()) =~= id);
    text::subrange_occurs(message, from, from + id.len());
}

/// The style of a state tells its type.
pub proof fn style_tells_the_state(state_type: Seq<char>)
    ensures
        state_style(state_type) is Completed <==> state_type == "completed"@,
        state_style(state_type) is Started <==> state_type == "started"@,
        state_style(state_type) is Canceled <==> state_type == "canceled"@ || state_type
            == "cancelled"@,
{
    reveal_strlit("completed");
    reveal_strlit("started");
    reveal_strlit("canceled");
    reveal_strlit("cancelled");
    assert("completed"@.len() == 9 && "started"@.len() == 7 && "canceled"@.len() == 8);
    assert("cancelled"@.len() == 9);
    assert("completed"@[1] != "cancelled"@[1]);
}

} // verus!
