//! Issues that wait to be sorted.
use vstd::prelude::*;
use vstd::string::*;

use crate::api::{Request, RequestView};
use crate::clock;
use crate::error::{Failure, FailureView};
use crate::json;
use crate::json::{Json, JsonView};
use crate::resolve;
use crate::text;
use crate::text::{joined2, joined4, joined5, same_text};

verus! {

#[derive(Debug)]
pub enum TriageCommands {
    /// List triage issues (unassigned, no project)
    List {
        /// Team key or ID
        team: Option<String>,
    },
    /// Assign issue to self and move to backlog
    Claim {
        /// Issue identifier (e.g., LIN-123)
        id: String,
    },
    /// Snooze issue for later
    Snooze {
        /// Issue identifier
        id: String,
        /// Snooze duration (e.g., 1d, 1w)
        duration: String,
    },
}

pub const LIST_QUERY: &'static str = r#"
        query($filter: IssueFilter) {
            issues(first: 50, filter: $filter) {
                nodes {
                    id
                    identifier
                    title
                    createdAt
                    team {
                        key
                        name
                    }
                    state {
                        name
                        type
                    }
                }
            }
        }
    "#;

pub const STATES_QUERY: &'static str = r#"
        query($id: String!) {
            issue(id: $id) {
                team {
                    states {
                        nodes {
                            id
                            type
                        }
                    }
                }
            }
        }
    "#;

pub const CLAIM_MUTATION: &'static str = r#"
        mutation($id: String!, $input: IssueUpdateInput!) {
            issueUpdate(id: $id, input: $input) {
                success
                issue {
                    id
                    identifier
                    title
                    assignee { name }
                    state { name }
                }
            }
        }
    "#;

pub const SNOOZE_MUTATION: &'static str = r#"
        mutation($id: String!, $snoozedUntilAt: DateTime!) {
            issueUpdate(id: $id, input: { snoozedUntilAt: $snoozedUntilAt }) {
                success
                issue {
                    id
                    identifier
                    snoozedUntilAt
                }
            }
        }
    "#;

/// The condition that a field is not set.
pub open spec fn unset() -> JsonView {
    JsonView::object().with("null"@, JsonView::Bool(true))
}

/// The condition on a team that is given by its ID or by its key.
pub open spec fn team_condition(team: Seq<char>) -> JsonView {
    let equal = JsonView::object().with("eq"@, JsonView::Text(team));
    if text::uuid_shaped(team) {
        JsonView::object().with("id"@, equal)
    } else {
        JsonView::object().with("key"@, equal)
    }
}

/// The filter for issues to sort: not assigned, in no project, in triage or in the
/// backlog, and of a team where one is given.
pub open spec fn triage_filter(team: Option<Seq<char>>) -> JsonView {
    let base = JsonView::object().with("assignee"@, unset()).with("project"@, unset()).with(
        "state"@,
        JsonView::object().with(
            "type"@,
            JsonView::object().with("in"@, JsonView::texts(seq!["triage"@, "backlog"@])),
        ),
    );
    match team {
        Some(team) => base.with("team"@, team_condition(team)),
        None => base,
    }
}

/// The issues that are listed have no assignee and no project, and where a team is
/// given, they are of that team.
pub proof fn listed_issues_wait_to_be_sorted(team: Option<Seq<char>>)
    ensures
        triage_filter(team).at("assignee"@) == unset(),
        triage_filter(team).at("project"@) == unset(),
        match team {
            Some(team) => triage_filter(Some(team)).at("team"@) == team_condition(team),
            None => triage_filter(team).get("team"@) is None,
        },
{
    reveal_strlit("assignee");
    reveal_strlit("project");
    reveal_strlit("state");
    reveal_strlit("team");
    let unassigned = JsonView::object().with("assignee"@, unset());
    let loose = unassigned.with("project"@, unset());
    let kinds = JsonView::object().with(
        "type"@,
        JsonView::object().with("in"@, JsonView::texts(seq!["triage"@, "backlog"@])),
    );
    let base = loose.with("state"@, kinds);
    assert("assignee"@.len() == 8 && "project"@.len() == 7 && "state"@.len() == 5 && "team"@.len()
        == 4);
    json::field_set_is_read_back(JsonView::object(), "assignee"@, unset(), "team"@);
    json::field_set_is_read_back(unassigned, "project"@, unset(), "assignee"@);
    json::field_set_is_read_back(unassigned, "project"@, unset(), "team"@);
    json::field_set_is_read_back(loose, "state"@, kinds, "assignee"@);
    json::field_set_is_read_back(loose, "state"@, kinds, "project"@);
    json::field_set_is_read_back(loose, "state"@, kinds, "team"@);
    if team is Some {
        let condition = team_condition(team->0);
        json::field_set_is_read_back(base, "team"@, condition, "assignee"@);
        json::field_set_is_read_back(base, "team"@, condition, "project"@);
    }
}

/// The first request of a command.
pub open spec fn first_request(command: TriageCommands, team: Option<Seq<char>>) -> Option<
    RequestView,
> {
    match command {
        TriageCommands::List { .. } => Some(
            RequestView::with(
                LIST_QUERY@,
                JsonView::object().with("filter"@, triage_filter(team)),
            ),
        ),
        TriageCommands::Claim { .. } => Some(RequestView::plain(resolve::VIEWER_QUERY@)),
        TriageCommands::Snooze { .. } => None,
    }
}

fn not_set() -> (r: Json)
    ensures
        r@ == unset(),
{
    Json::object().with("null", Json::Bool(true))
}

fn condition_on_team(team: &str) -> (r: Json)
    ensures
        r@ == team_condition(team@),
{
    let equal = Json::object().with("eq", Json::text(team));
    if text::is_uuid(team) {
        Json::object().with("id", equal)
    } else {
        Json::object().with("key", equal)
    }
}

fn filter_for(team: &Option<String>) -> (r: Json)
    ensures
        r@ == triage_filter(team.deep_view()),
{
    let mut kinds: Vec<String> = Vec::new();
    kinds.push("triage".to_string());
    kinds.push("backlog".to_string());
    assert(kinds.deep_view() =~= seq!["triage"@, "backlog"@]);
    let base = Json::object().with("assignee", not_set()).with("project", not_set()).with(
        "state",
        Json::object().with("type", Json::object().with("in", Json::texts(&kinds))),
    );
    match team {
        Some(team) => base.with("team", condition_on_team(team.as_str())),
        None => base,
    }
}

/// The request that a command starts with, given the team in force; nothing for
/// one that needs a date first.
pub fn start(command: &TriageCommands, team: &Option<String>) -> (r: Option<Request>)
    ensures
        match r {
            Some(request) => first_request(*command, team.deep_view()) == Some(request@),
            None => first_request(*command, team.deep_view()) is None,
        },
{
    match command {
        TriageCommands::List { .. } => Some(
            Request::with(LIST_QUERY, Json::object().with("filter", filter_for(team))),
        ),
        TriageCommands::Claim { .. } => Some(Request::plain(resolve::VIEWER_QUERY)),
        TriageCommands::Snooze { .. } => None,
    }
}

/// One row of the table of issues to sort.
#[derive(Debug)]
pub struct TriageRow {
    pub identifier: String,
    pub title: String,
    pub created: String,
    pub team: String,
}

#[verifier::ext_equal]
pub struct TriageRowView {
    pub identifier: Seq<char>,
    pub title: Seq<char>,
    pub created: Seq<char>,
    pub team: Seq<char>,
}

impl View for TriageRow {
    type V = TriageRowView;

    open spec fn view(&self) -> TriageRowView {
        TriageRowView {
            identifier: self.identifier@,
            title: self.title@,
            created: self.created@,
            team: self.team@,
        }
    }
}

pub open spec fn triage_row(issue: JsonView, width: Option<usize>) -> TriageRowView {
    TriageRowView {
        identifier: issue.at("identifier"@).text_or("-"@),
        title: text::shortened(issue.at("title"@).text_or("-"@), width),
        created: text::head(issue.at("createdAt"@).text_or("-"@), 10),
        team: issue.at("team"@).at("key"@).text_or("-"@),
    }
}

pub open spec fn triage_issues(response: JsonView) -> JsonView {
    response.at("data"@).at("issues"@).at("nodes"@)
}

/// The rows of the answer to a list command, one for each issue.
pub fn list_triage(response: &Json, width: Option<usize>) -> (r: Vec<TriageRow>)
    ensures
        r@.len() == triage_issues(response@).items().len(),
        forall|i: int|
            0 <= i < r@.len() ==> (#[trigger] r@[i])@ == triage_row(
                triage_issues(response@).items()[i],
                width,
            ),
{
    let issues = response.at("data").at("issues").at("nodes").items();
    let ghost all = json::json_views(issues@);
    let mut rows: Vec<TriageRow> = Vec::new();
    let mut i: usize = 0;
    while i < issues.len()
        invariant
            i <= issues@.len(),
            all == json::json_views(issues@),
            rows@.len() == i,
            forall|k: int| 0 <= k < i ==> (#[trigger] rows@[k])@ == triage_row(all[k], width),
        decreases issues@.len() - i,
    {
        let issue = &issues[i];
        assert(all[i as int] == issue@);
        rows.push(
            TriageRow {
                identifier: issue.at("identifier").text_or("-"),
                title: text::truncate(issue.at("title").text_or("-").as_str(), width),
                created: text::first_chars(issue.at("createdAt").text_or("-").as_str(), 10),
                team: issue.at("team").at("key").text_or("-"),
            },
        );
        i += 1;
    }
    rows
}

pub open spec fn viewer_id(response: JsonView) -> Option<Seq<char>> {
    response.at("data"@).at("viewer"@).at("id"@).as_str()
}

/// The ID of the user who claims an issue.
pub fn claimant(response: &Json) -> (r: Result<String, Failure>)
    ensures
        match viewer_id(response@) {
            Some(id) => r is Ok && r->Ok_0@ == id,
            None => r is Err && r->Err_0@ == FailureView::message(
                "Could not get current user"@,
            ),
        },
{
    match response.at("data").at("viewer").at("id").as_text() {
        Some(id) => Ok(id),
        None => Err(Failure::message("Could not get current user")),
    }
}

pub open spec fn states_question(id: Seq<char>) -> RequestView {
    RequestView::with(STATES_QUERY@, JsonView::object().with("id"@, JsonView::Text(id)))
}

/// The request for the states of the team of an issue.
pub fn states_request(id: &str) -> (r: Request)
    ensures
        r@ == states_question(id@),
{
    Request::with(STATES_QUERY, Json::object().with("id", Json::text(id)))
}

/// The first state of a type.
pub open spec fn first_of_type(states: Seq<JsonView>, state_type: Seq<char>) -> Option<JsonView>
    decreases states.len(),
{
    if states.len() == 0 {
        None
    } else if states[0].at("type"@).as_str() == Some(state_type) {
        Some(states[0])
    } else {
        first_of_type(states.drop_first(), state_type)
    }
}

fn find_type<'a>(states: &'a [Json], state_type: &str) -> (r: Option<&'a Json>)
    ensures
        match r {
            Some(state) => first_of_type(json::json_views(states@), state_type@) == Some(state@),
            None => first_of_type(json::json_views(states@), state_type@) is None,
        },
{
    let ghost all = json::json_views(states@);
    let mut i: usize = 0;
    assert(all.skip(0) =~= all);
    while i < states.len()
        invariant
            i <= states@.len(),
            all == json::json_views(states@),
            first_of_type(all, state_type@) == first_of_type(all.skip(i as int), state_type@),
        decreases states@.len() - i,
    {
        assert(all.skip(i as int)[0] == states@[i as int]@);
        assert(all.skip(i as int).drop_first() =~= all.skip(i + 1));
        match states[i].at("type").as_str() {
            Some(value) => {
                if same_text(value, state_type) {
                    return Some(&states[i]);
                }
            },
            None => {},
        }
        i += 1;
    }
    None
}

/// The state that a claimed issue is moved to: a backlog state, else an unstarted
/// one, where the team has one with an ID.
pub open spec fn claimed_state(states: Seq<JsonView>) -> Option<Seq<char>> {
    let backlog = first_of_type(states, "backlog"@);
    let chosen = if backlog is Some {
        backlog
    } else {
        first_of_type(states, "unstarted"@)
    };
    match chosen {
        Some(state) => state.at("id"@).as_str(),
        None => None,
    }
}

/// The request that claims an issue for a user, or why there is none.
pub open spec fn claim(response: JsonView, id: Seq<char>, user_id: Seq<char>) -> Result<
    RequestView,
    FailureView,
> {
    let issue = response.at("data"@).at("issue"@);
    if issue is Null {
        Err(FailureView::message("Issue not found: "@ + id))
    } else {
        Ok(
            RequestView::with(
                CLAIM_MUTATION@,
                JsonView::object().with("id"@, JsonView::Text(id)).with(
                    "input"@,
                    JsonView::object().with("assigneeId"@, JsonView::Text(user_id)).with_some(
                        "stateId"@,
                        claimed_state(issue.at("team"@).at("states"@).at("nodes"@).items()),
                    ),
                ),
            ),
        )
    }
}

/// The request that claims an issue for a user, from the answer to
/// `states_request`.
pub fn claim_issue(response: &Json, id: &str, user_id: &str) -> (r: Result<Request, Failure>)
    ensures
        match claim(response@, id@, user_id@) {
            Ok(request) => r is Ok && r->Ok_0@ == request,
            Err(failure) => r is Err && r->Err_0@ == failure,
        },
{
    let issue = response.at("data").at("issue");
    if issue.is_null() {
        return Err(Failure::message(joined2("Issue not found: ", id).as_str()));
    }
    let states = issue.at("team").at("states").at("nodes").items();
    let chosen = match find_type(states, "backlog") {
        Some(state) => Some(state),
        None => find_type(states, "unstarted"),
    };
    let state_id = match chosen {
        Some(state) => state.at("id").as_text(),
        None => None,
    };
    let input = Json::object().with("assigneeId", Json::text(user_id)).with_some(
        "stateId",
        &state_id,
    );
    Ok(
        Request::with(
            CLAIM_MUTATION,
            Json::object().with("id", Json::text(id)).with("input", input),
        ),
    )
}

pub open spec fn claim_report(response: JsonView, id: Seq<char>) -> Seq<char> {
    let issue = response.at("data"@).at("issueUpdate"@).at("issue"@);
    "Claimed "@ + issue.at("identifier"@).text_or(id) + " - "@ + issue.at("title"@).text_or(""@) + (
    " (moved to "@ + issue.at("state"@).at("name"@).text_or("backlog"@) + ")"@)
}

/// The line that reports a claim.
pub fn claimed_line(response: &Json, id: &str) -> (r: String)
    ensures
        r@ == claim_report(response@, id@),
{
    let issue = response.at("data").at("issueUpdate").at("issue");
    let state = issue.at("state").at("name").text_or("backlog");
    joined5(
        "Claimed ",
        issue.at("identifier").text_or(id).as_str(),
        " - ",
        issue.at("title").text_or("").as_str(),
        text::joined3(" (moved to ", state.as_str(), ")").as_str(),
    )
}

/// The days that a duration stands for: `1w` and `2w` are weeks, any other is a
/// count of days, and one day where it is none.
pub open spec fn days_of(duration: Seq<char>) -> int {
    if duration == "1w"@ {
        7
    } else if duration == "2w"@ {
        14
    } else {
        match text::within(
            text::signed_value(text::trim_end_char(duration, 'd')),
            i64::MIN as int,
            i64::MAX as int,
        ) {
            Some(n) => n,
            None => 1,
        }
    }
}

pub fn snooze_days(duration: &str) -> (r: i64)
    ensures
        r == days_of(duration@),
{
    if same_text(duration, "1w") {
        7
    } else if same_text(duration, "2w") {
        14
    } else {
        let count = text::trimmed_end_char(duration, 'd');
        match text::parse_i64(count.as_str()) {
            Some(n) => n,
            None => 1,
        }
    }
}

pub open spec fn snooze(id: Seq<char>, until: Seq<char>) -> RequestView {
    RequestView::with(
        SNOOZE_MUTATION@,
        JsonView::object().with("id"@, JsonView::Text(id)).with(
            "snoozedUntilAt"@,
            JsonView::Text(until),
        ),
    )
}

/// The request that snoozes an issue until a date.
pub fn snooze_until(id: &str, until: &str) -> (r: Request)
    ensures
        r@ == snooze(id@, until@),
{
    Request::with(
        SNOOZE_MUTATION,
        Json::object().with("id", Json::text(id)).with("snoozedUntilAt", Json::text(until)),
    )
}

/// The request that snoozes an issue for a duration from a time; nothing where the
/// time, or the one at which the snooze ends, has no date.
pub open spec fn snooze_from(id: Seq<char>, duration: Seq<char>, seconds: i64, nanos: u32) -> Option<
    RequestView,
> {
    match clock::days_later(seconds, nanos, days_of(duration) as i64) {
        Some(until) => Some(snooze(id, until)),
        None => None,
    }
}

/// A snooze starts at a time that has a date, and ends at one.
pub open spec fn snooze_ends(duration: Seq<char>, seconds: i64) -> bool {
    clock::has_date_later(seconds, days_of(duration) as i64)
}

/// The request that snoozes an issue for a duration from a time, in seconds since 1970
/// and nanoseconds.
pub fn snooze_at(id: &str, duration: &str, seconds: i64, nanos: u32) -> (r: Option<Request>)
    ensures
        match r {
            Some(request) => snooze_from(id@, duration@, seconds, nanos) == Some(request@),
            None => snooze_from(id@, duration@, seconds, nanos) is None,
        },
        clock::below_a_second(nanos) ==> (r is Some <==> snooze_ends(duration@, seconds)),
{
    match clock::rfc3339_days_later(seconds, nanos, snooze_days(duration)) {
        Some(until) => Some(snooze_until(id, until.as_str())),
        None => None,
    }
}

/// A result is the snooze of an issue for a duration from a time that a clock can
/// show: a request exactly where the snooze ends at a time that has a date.
pub open spec fn snoozes_from(
    r: Option<Request>,
    id: Seq<char>,
    duration: Seq<char>,
    seconds: i64,
    nanos: u32,
) -> bool {
    &&& clock::has_date(seconds as int)
    &&& clock::below_a_second(nanos)
    &&& r is Some <==> snooze_ends(duration, seconds)
    &&& match r {
        Some(request) => snooze_from(id, duration, seconds, nanos) == Some(request@),
        None => snooze_from(id, duration, seconds, nanos) is None,
    }
}

/// The request that snoozes an issue for a duration from now, by the machine's clock;
/// nothing where the snooze would end at a time that has no date.
pub fn snooze_issue(id: &str, duration: &str) -> (r: Option<Request>)
    ensures
        exists|seconds: i64, nanos: u32| #[trigger]
            snoozes_from(r, id@, duration@, seconds, nanos),
{
    let now: (i64, u32) = clock::utc_now();
    let r = snooze_at(id, duration, now.0, now.1);
    assert(snoozes_from(r, id@, duration@, now.0, now.1));
    r
}

pub open spec fn snoozed_text(id: Seq<char>, duration: Seq<char>) -> Seq<char> {
    "Snoozed "@ + id + " for "@ + duration
}

/// The line that reports a snooze.
pub fn snoozed_line(id: &str, duration: &str) -> (r: String)
    ensures
        r@ == snoozed_text(id@, duration@),
{
    joined4("Snoozed ", id, " for ", duration)
}

// ---------------------------------------------------------------------------
// What the commands ask for
// ---------------------------------------------------------------------------

/// A list asks for the issues in triage or in the backlog that nobody is assigned to and
/// that are in no project; of a team by its ID or by its key, as it is given.
pub proof fn list_asks_for_issues_to_sort(command: TriageCommands, team: Option<Seq<char>>)
    requires
        command is List,
    ensures
        ({
            let request = first_request(command, team);
            let filter = request->0.variables->0.at("filter"@);
            &&& request is Some
            &&& request->0.variables is Some
            &&& filter.at("assignee"@).at("null"@) == JsonView::Bool(true)
            &&& filter.at("project"@).at("null"@) == JsonView::Bool(true)
            &&& filter.at("state"@).at("type"@).at("in"@).items() == seq![
                JsonView::Text("triage"@),
                JsonView::Text("backlog"@),
            ]
            &&& team is None ==> filter.get("team"@) is None
            &&& team matches Some(name) ==> if text::uuid_shaped(name) {
                filter.at("team"@).at("id"@).at("eq"@) == JsonView::Text(name)
            } else {
                filter.at("team"@).at("key"@).at("eq"@) == JsonView::Text(name)
            }
        }),
{
    broadcast use json::group_fields;

    listed_issues_wait_to_be_sorted(team);
    reveal_strlit("assignee");
    reveal_strlit("project");
    reveal_strlit("state");
    reveal_strlit("team");
    assert("assignee"@.len() == 8 && "project"@.len() == 7 && "state"@.len() == 5 && "team"@.len()
        == 4);
    let filter = triage_filter(team);
    let kinds = JsonView::texts(seq!["triage"@, "backlog"@]);
    assert(filter.get("state"@) is Some);
    assert(filter.at("state"@).at("type"@).at("in"@) == kinds);
    assert(kinds.items() =~= seq![JsonView::Text("triage"@), JsonView::Text("backlog"@)]);
    assert(unset().get("null"@) == Some(JsonView::Bool(true)));
    if team is Some {
        let equal = JsonView::object().with("eq"@, JsonView::Text(team->0));
        assert(equal.get("eq"@) == Some(JsonView::Text(team->0)));
    }
}

/// A claim asks first who claims, and a snooze asks nothing first.
pub proof fn claim_asks_who_claims(command: TriageCommands, team: Option<Seq<char>>)
    ensures
        command is Claim ==> first_request(command, team) == Some(
            RequestView { query: "query { viewer { id } }"@, variables: None },
        ),
        command is Snooze ==> first_request(command, team) is None,
{
}

proof fn first_of_type_is_first(states: Seq<JsonView>, state_type: Seq<char>)
    ensures
        match first_of_type(states, state_type) {
            Some(state) => state.at("type"@) == JsonView::Text(state_type) && exists|i: int|
                0 <= i < states.len() && #[trigger] states[i] == state && forall|k: int|
                    0 <= k < i ==> (#[trigger] states[k]).at("type"@) != JsonView::Text(state_type),
            None => forall|k: int|
                0 <= k < states.len() ==> (#[trigger] states[k]).at("type"@) != JsonView::Text(
                    state_type,
                ),
        },
    decreases states.len(),
{
    if states.len() > 0 {
        if states[0].at("type"@) == JsonView::Text(state_type) {
            assert(states[0] == first_of_type(states, state_type)->0);
        } else {
            let rest = states.drop_first();
            first_of_type_is_first(rest, state_type);
            assert(forall|k: int| 0 < k < states.len() ==> #[trigger] states[k] == rest[k - 1]);
            if first_of_type(states, state_type) is Some {
                let state = first_of_type(states, state_type)->0;
                let i = choose|i: int|
                    0 <= i < rest.len() && #[trigger] rest[i] == state && forall|k: int|
                        0 <= k < i ==> (#[trigger] rest[k]).at("type"@) != JsonView::Text(
                            state_type,
                        );
                assert(states[i + 1] == state);
                assert forall|k: int| 0 <= k < i + 1 implies (#[trigger] states[k]).at("type"@)
                    != JsonView::Text(state_type) by {
                    if k > 0 {
                        assert(states[k] == rest[k - 1]);
                    }
                }
            }
        }
    }
}

/// A claimed issue is assigned to the user who claims it and moved to the first backlog state
/// of its team, or to the first unstarted one where there is no backlog state.
pub proof fn claim_assigns_and_moves_the_issue(
    response: JsonView,
    id: Seq<char>,
    user_id: Seq<char>,
    at: int,
)
    requires
        !(response.at("data"@).at("issue"@) is Null),
    ensures
        ({
            let states = response.at("data"@).at("issue"@).at("team"@).at("states"@).at(
                "nodes"@,
            ).items();
            let request = claim(response, id, user_id);
            let variables = request->Ok_0.variables->0;
            let input = variables.at("input"@);
            let first = |kind: Seq<char>|
                0 <= at < states.len() && states[at].at("type"@) == JsonView::Text(kind) && forall|
                    k: int,
                |
                    0 <= k < at ==> (#[trigger] states[k]).at("type"@) != JsonView::Text(kind);
            let none = |kind: Seq<char>|
                forall|k: int|
                    0 <= k < states.len() ==> (#[trigger] states[k]).at("type"@) != JsonView::Text(
                        kind,
                    );
            &&& request is Ok
            &&& variables.at("id"@) == JsonView::Text(id)
            &&& input.at("assigneeId"@) == JsonView::Text(user_id)
            &&& first("backlog"@) && states[at].at("id"@) is Text ==> input.at("stateId"@)
                == states[at].at("id"@)
            &&& none("backlog"@) && first("unstarted"@) && states[at].at("id"@) is Text
                ==> input.at("stateId"@) == states[at].at("id"@)
            &&& none("backlog"@) && none("unstarted"@) ==> input.get("stateId"@) is None
        }),
{
    broadcast use json::group_fields;

    reveal_strlit("id");
    reveal_strlit("input");
    reveal_strlit("assigneeId");
    reveal_strlit("stateId");
    assert("id"@.len() == 2 && "input"@.len() == 5 && "assigneeId"@.len() == 10 && "stateId"@.len()
        == 7);
    let states = response.at("data"@).at("issue"@).at("team"@).at("states"@).at("nodes"@).items();
    first_of_type_is_first(states, "backlog"@);
    first_of_type_is_first(states, "unstarted"@);
    let start = JsonView::object().with("assigneeId"@, JsonView::Text(user_id));
    let input = start.with_some("stateId"@, claimed_state(states));
    assert(start.get("assigneeId"@) == Some(JsonView::Text(user_id)));
    assert(input.get("assigneeId"@) == Some(JsonView::Text(user_id)));
    assert(start.get("stateId"@) is None);
    let variables = JsonView::object().with("id"@, JsonView::Text(id)).with("input"@, input);
    assert(variables.get("id"@) == Some(JsonView::Text(id)));
    assert(variables.get("input"@) == Some(input));
}

/// An issue that is not there is not claimed.
pub proof fn unknown_issue_is_not_claimed(response: JsonView, id: Seq<char>, user_id: Seq<char>)
    requires
        response.at("data"@).at("issue"@) is Null,
    ensures
        claim(response, id, user_id) is Err,
        text::contains_text(claim(response, id, user_id)->Err_0.shown(), id),
        states_question(id).variables is Some,
        states_question(id).variables->0.get("id"@) == Some(JsonView::Text(id)),
{
    broadcast use json::group_fields;

    let shown = "Issue not found: "@ + id;
    let from = "Issue not found: "@.len() as int;
    assert(shown.subrange(from, shown.len() as int) =~= id);
    text::subrange_occurs(shown, from, shown.len() as int);
}

/// One who claims is the user in the answer.
pub proof fn claimant_is_the_viewer(response: JsonView, id: Seq<char>)
    ensures
        viewer_id(response) == Some(id) <==> response.at("data"@).at("viewer"@).at("id"@)
            == JsonView::Text(id),
{
}

/// A duration of a number and `d` is that number of days, `1w` is a week and `2w` are two.
pub proof fn durations_are_days(days: i64)
    ensures
        days_of(text::signed_decimal(days as int).push('d')) == days,
        days_of(text::signed_decimal(days as int)) == days,
        days_of("1w"@) == 7,
        days_of("2w"@) == 14,
{
    let number = text::signed_decimal(days as int);
    text::written_number_is_read_back(days as int, 0);
    reveal_strlit("1w");
    reveal_strlit("2w");
    number_ends_in_a_digit(days as int);
    assert(number.push('d').drop_last() =~= number);
    assert(text::trim_end_char(number, 'd') == number);
    assert("1w"@[1] == 'w' && "2w"@[1] == 'w');
    assert("1w"@[0] == '1' && "2w"@[0] == '2');
    assert(number.push('d').last() == 'd');
    assert("1w"@.last() == 'w' && "2w"@.last() == 'w');
}

proof fn number_ends_in_a_digit(n: int)
    ensures
        text::signed_decimal(n).len() > 0,
        text::is_digit(text::signed_decimal(n).last()),
{
    let m = if n < 0 {
        (-n) as nat
    } else {
        n as nat
    };
    assert(text::decimal(m).len() > 0);
    assert(text::is_digit(text::decimal(m).last()));
    assert(text::signed_decimal(n).last() == text::decimal(m).last());
}

/// A snooze is of the issue, until the time that comes the days of the duration later.
pub proof fn snooze_ends_after_the_duration(
    id: Seq<char>,
    duration: Seq<char>,
    seconds: i64,
    nanos: u32,
    until: Seq<char>,
)
    ensures
        clock::days_later(seconds, nanos, days_of(duration) as i64) == Some(until) ==> {
            let request = snooze_from(id, duration, seconds, nanos);
            &&& request is Some
            &&& request->0.variables is Some
            &&& request->0.variables->0.at("id"@) == JsonView::Text(id)
            &&& request->0.variables->0.at("snoozedUntilAt"@) == JsonView::Text(until)
        },
        clock::days_later(seconds, nanos, days_of(duration) as i64) is None ==> snooze_from(
            id,
            duration,
            seconds,
            nanos,
        ) is None,
{
    broadcast use json::group_fields;

    reveal_strlit("id");
    reveal_strlit("snoozedUntilAt");
    assert("id"@.len() == 2 && "snoozedUntilAt"@.len() == 14);
    let start = JsonView::object().with("id"@, JsonView::Text(id));
    assert(start.get("id"@) == Some(JsonView::Text(id)));
}

/// A row shows the identifier, the title, the day of creation and the team of its issue.
pub proof fn row_shows_the_issue(issue: JsonView)
    ensures
        ({
            let row = triage_row(issue, None);
            &&& issue.at("identifier"@) is Text ==> row.identifier == issue.at(
                "identifier"@,
            )->Text_0
            &&& issue.at("title"@) is Text ==> row.title == issue.at("title"@)->Text_0
            &&& issue.at("createdAt"@) is Text && issue.at("createdAt"@)->Text_0.len() >= 10
                ==> row.created == issue.at("createdAt"@)->Text_0.take(10)
            &&& issue.at("team"@).at("key"@) is Text ==> row.team == issue.at("team"@).at(
                "key"@,
            )->Text_0
        }),
{
    if issue.at("createdAt"@) is Text && issue.at("createdAt"@)->Text_0.len() == 10 {
        assert(issue.at("createdAt"@)->Text_0.take(10) =~= issue.at("createdAt"@)->Text_0);
    }
}

/// The report of a claim names the issue, its title and its state.
pub proof fn claim_report_names_the_issue(response: JsonView, id: Seq<char>)
    ensures
        ({
            let issue = response.at("data"@).at("issueUpdate"@).at("issue"@);
            let line = claim_report(response, id);
            &&& issue.at("identifier"@) is Text && issue.at("title"@) is Text && issue.at(
                "state"@,
            ).at("name"@) is Text ==> line == "Claimed "@ + issue.at("identifier"@)->Text_0 + " - "@
                + issue.at("title"@)->Text_0 + (" (moved to "@ + issue.at("state"@).at(
                "name"@,
            )->Text_0 + ")"@)
            &&& !(issue.at("identifier"@) is Text) ==> text::starts_with(line, "Claimed "@ + id)
        }),
{
    let line = claim_report(response, id);
    let start = "Claimed "@ + id;
    if !(response.at("data"@).at("issueUpdate"@).at("issue"@).at("identifier"@) is Text) {
        assert(line.subrange(0, start.len() as int) =~= start);
    }
}

/// The report of a snooze names the issue and how long it sleeps.
pub proof fn snooze_is_told(id: Seq<char>, duration: Seq<char>)
    ensures
        text::contains_text(snoozed_text(id, duration), id),
        text::contains_text(snoozed_text(id, duration), duration),
{
    let said = snoozed_text(id, duration);
    let from = "Snoozed "@.len() as int;
    assert(said.subrange(from, from + id.len()) =~= id);
    text::subrange_occurs(said, from, from + id.len());
    let start = said.len() - duration.len();
    assert(said.subrange(start, said.len() as int) =~= duration);
    text::subrange_occurs(said, start, said.len() as int);
}

} // verus!
