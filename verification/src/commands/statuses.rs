//! Issue statuses of a team.
use vstd::prelude::*;
use vstd::string::*;

use crate::api;
use crate::api::{Request, RequestView};
use crate::commands::cycles;
use crate::commands::update;
use crate::commands::update::{UpdatePlan, UpdatePlanView};
use crate::error::{Failure, FailureView};
use crate::json;
use crate::json::{Json, JsonNumber, JsonNumberView, JsonView};
use crate::pagination::{PaginationOptions, PaginationOptionsView};
use crate::text;
use crate::text::{joined2, same_text};
use crate::types;

verus! {

pub fn safe_terminal_value(value: &str) -> (r: String)
    ensures
        r@ == text::scan_text(value@).1,
{
    text::sanitize_terminal_text(value)
}

pub enum StatusCommands {
    /// List all issue statuses for a team
    List {
        /// Team name or ID
        team: Option<String>,
    },
    /// Get details of a specific status
    Get {
        /// Status name(s) or ID(s)
        ids: Vec<String>,
        team: Option<String>,
    },
    /// Update a workflow state
    Update {
        /// Status name or ID
        id: String,
        team: Option<String>,
        fields: StatusFields,
        /// Preview without updating (dry run)
        dry_run: bool,
    },
}

/// The fields of a status that can be set.
#[derive(Debug)]
pub struct StatusFields {
    pub name: Option<String>,
    /// New color (hex)
    pub color: Option<String>,
    pub description: Option<String>,
}

pub const NO_IDS: &'static str =
    "No status IDs provided. Provide IDs as arguments or pipe them via stdin.\nExamples:\n  linear statuses get STATUS_ID -t ENG\n  printf '%s\\n' STATUS_ID OTHER_STATUS_ID | linear statuses get - -t ENG";

impl StatusCommands {
    /// The team that is given with a command.
    pub fn team(&self) -> (r: Option<String>)
        ensures
            r.deep_view() == (match *self {
                StatusCommands::List { team } => team.deep_view(),
                StatusCommands::Get { team, .. } => team.deep_view(),
                StatusCommands::Update { team, .. } => team.deep_view(),
            }),
    {
        match self {
            StatusCommands::List { team } => text::clone_text(team),
            StatusCommands::Get { team, .. } => text::clone_text(team),
            StatusCommands::Update { team, .. } => text::clone_text(team),
        }
    }

    /// Details need IDs.
    pub fn check(&self) -> (r: Result<(), Failure>)
        ensures
            if (self matches StatusCommands::Get { ids, .. } && ids@.len() == 0) {
                r is Err && r->Err_0@ == FailureView::message(NO_IDS@)
            } else {
                r is Ok
            },
    {
        match self {
            StatusCommands::Get { ids, .. } => if ids.len() == 0 {
                Err(Failure::message(NO_IDS))
            } else {
                Ok(())
            },
            _ => Ok(()),
        }
    }
}

/// A listing may come from the cache: the cache is in use and no page was asked
/// for in particular.
pub open spec fn cache_serves(no_cache: bool, options: PaginationOptionsView) -> bool {
    &&& !no_cache
    &&& options.after is None
    &&& options.before is None
    &&& !options.all
    &&& options.page_size is None
    &&& options.limit is None
}

pub fn can_use_cache(no_cache: bool, options: &PaginationOptions) -> (r: bool)
    ensures
        r == cache_serves(no_cache, options@),
{
    !no_cache && options.after.is_none() && options.before.is_none() && !options.all
        && options.page_size.is_none() && options.limit.is_none()
}

/// The statuses of a team, with its name.
#[derive(Debug)]
pub struct TeamStatuses {
    pub team_name: String,
    pub states: Vec<Json>,
}

#[verifier::ext_equal]
pub struct TeamStatusesView {
    pub team_name: Seq<char>,
    pub states: Seq<JsonView>,
}

impl View for TeamStatuses {
    type V = TeamStatusesView;

    open spec fn view(&self) -> TeamStatusesView {
        TeamStatusesView {
            team_name: self.team_name@,
            states: json::json_views(self.states@),
        }
    }
}

/// What the cache holds of the statuses of a team, where it holds any.
pub open spec fn cached_statuses(cached: Option<JsonView>) -> Option<TeamStatusesView> {
    match cached {
        Some(value) => if value.at("states"@).items().len() == 0 {
            None
        } else {
            Some(
                TeamStatusesView {
                    team_name: value.at("team_name"@).text_or(""@),
                    states: value.at("states"@).items(),
                },
            )
        },
        None => None,
    }
}

pub fn read_cached(cached: &Option<Json>) -> (r: Option<TeamStatuses>)
    ensures
        match r {
            Some(statuses) => cached_statuses(cached.deep_view()) == Some(statuses@),
            None => cached_statuses(cached.deep_view()) is None,
        },
{
    match cached {
        Some(value) => {
            let states = value.at("states").items();
            assert(json::json_views(states@).len() == states@.len());
            if states.len() == 0 {
                None
            } else {
                Some(
                    TeamStatuses {
                        team_name: value.at("team_name").text_or(""),
                        states: json::copy_all(states),
                    },
                )
            }
        },
        None => None,
    }
}

pub const LIST_QUERY: &'static str = r#"
            query($teamId: String!, $first: Int, $after: String, $last: Int, $before: String) {
                team(id: $teamId) {
                    states(first: $first, after: $after, last: $last, before: $before) {
                        nodes {
                            id
                            name
                            type
                            color
                            position
                            description
                        }
                        pageInfo {
                            hasNextPage
                            endCursor
                            hasPreviousPage
                            startCursor
                        }
                    }
                }
            }
        "#;

/// Statuses that are listed where no limit is given, and the size of a page.
pub const DEFAULT_STATUSES: usize = 100;

pub open spec fn kept_statuses(statuses: TeamStatusesView) -> JsonView {
    JsonView::object().with("team_name"@, JsonView::Text(statuses.team_name)).with(
        "states"@,
        JsonView::Array(statuses.states),
    )
}

/// What is kept in the cache of the statuses of a team.
pub fn cache_entry(statuses: &TeamStatuses) -> (r: Json)
    ensures
        r@ == kept_statuses(statuses@),
{
    Json::object().with("team_name", Json::text(statuses.team_name.as_str())).with(
        "states",
        Json::array(json::copy_all(statuses.states.as_slice())),
    )
}

pub open spec fn listing(statuses: TeamStatusesView) -> JsonView {
    JsonView::object().with("team"@, JsonView::Text(statuses.team_name)).with(
        "statuses"@,
        JsonView::Array(statuses.states),
    )
}

/// The JSON value that lists statuses.
pub fn list_payload(statuses: &TeamStatuses) -> (r: Json)
    ensures
        r@ == listing(statuses@),
{
    Json::object().with("team", Json::text(statuses.team_name.as_str())).with(
        "statuses",
        Json::array(json::copy_all(statuses.states.as_slice())),
    )
}

/// Statuses that were put in the cache are read back from it.
pub proof fn cached_statuses_are_read_back(statuses: TeamStatusesView)
    requires
        statuses.states.len() > 0,
    ensures
        cached_statuses(Some(kept_statuses(statuses))) == Some(statuses),
{
    reveal_strlit("team_name");
    reveal_strlit("states");
    assert("team_name"@.len() != "states"@.len());
    let named = JsonView::object().with("team_name"@, JsonView::Text(statuses.team_name));
    json::field_set_is_read_back(
        JsonView::object(),
        "team_name"@,
        JsonView::Text(statuses.team_name),
        "states"@,
    );
    json::field_set_is_read_back(
        named,
        "states"@,
        JsonView::Array(statuses.states),
        "team_name"@,
    );
}

/// How the type of a status is coloured.
#[derive(Debug, Clone, Copy, PartialEq, Eq, Structural)]
pub enum TypeStyle {
    Completed,
    Started,
    Canceled,
    Backlog,
    Unstarted,
    Other,
}

pub open spec fn type_style(status_type: Seq<char>) -> TypeStyle {
    if status_type == "completed"@ {
        TypeStyle::Completed
    } else if status_type == "started"@ {
        TypeStyle::Started
    } else if status_type == "canceled"@ || status_type == "cancelled"@ {
        TypeStyle::Canceled
    } else if status_type == "backlog"@ {
        TypeStyle::Backlog
    } else if status_type == "unstarted"@ {
        TypeStyle::Unstarted
    } else {
        TypeStyle::Other
    }
}

fn style_of(status_type: &str) -> (r: TypeStyle)
    ensures
        r == type_style(status_type@),
{
    if same_text(status_type, "completed") {
        TypeStyle::Completed
    } else if same_text(status_type, "started") {
        TypeStyle::Started
    } else if same_text(status_type, "canceled") || same_text(status_type, "cancelled") {
        TypeStyle::Canceled
    } else if same_text(status_type, "backlog") {
        TypeStyle::Backlog
    } else if same_text(status_type, "unstarted") {
        TypeStyle::Unstarted
    } else {
        TypeStyle::Other
    }
}

/// One row of the table of statuses.
#[derive(Debug)]
pub struct StatusRow {
    pub name: String,
    pub status_type: String,
    pub style: TypeStyle,
    pub color: String,
    pub position: Option<JsonNumber>,
    pub id: String,
}

#[verifier::ext_equal]
pub struct StatusRowView {
    pub name: Seq<char>,
    pub status_type: Seq<char>,
    pub style: TypeStyle,
    pub color: Seq<char>,
    pub position: Option<JsonNumberView>,
    pub id: Seq<char>,
}

impl View for StatusRow {
    type V = StatusRowView;

    open spec fn view(&self) -> StatusRowView {
        StatusRowView {
            name: self.name@,
            status_type: self.status_type@,
            style: self.style,
            color: self.color@,
            position: types::number_view(self.position),
            id: self.id@,
        }
    }
}

pub open spec fn number_in(value: JsonView) -> Option<JsonNumberView> {
    match value {
        JsonView::Number(n) => Some(n),
        _ => None,
    }
}

pub fn position_of(status: &Json) -> (r: Option<JsonNumber>)
    ensures
        types::number_view(r) == number_in(status@.at("position"@)),
{
    match status.at("position") {
        Json::Number(n) => Some(json::copy_number(n)),
        _ => None,
    }
}

pub open spec fn status_row(status: JsonView, width: Option<usize>) -> StatusRowView {
    StatusRowView {
        name: text::shortened(status.at("name"@).text_or(""@), width),
        status_type: status.at("type"@).text_or(""@),
        style: type_style(status.at("type"@).text_or(""@)),
        color: status.at("color"@).text_or(""@),
        position: number_in(status.at("position"@)),
        id: status.at("id"@).text_or(""@),
    }
}

/// The row of a status.
pub fn row_of_status(status: &Json, width: Option<usize>) -> (r: StatusRow)
    ensures
        r@ == status_row(status@, width),
{
    let status_type = status.at("type").text_or("");
    let style = style_of(status_type.as_str());
    StatusRow {
        name: text::truncate(status.at("name").text_or("").as_str(), width),
        status_type,
        style,
        color: status.at("color").text_or(""),
        position: position_of(status),
        id: status.at("id").text_or(""),
    }
}

/// The rows of the table of statuses, one for each.
pub fn list_statuses(states: &[Json], width: Option<usize>) -> (r: Vec<StatusRow>)
    ensures
        r@.len() == states@.len(),
        forall|i: int|
            0 <= i < states@.len() ==> (#[trigger] r@[i])@ == status_row(states@[i]@, width),
{
    let mut rows: Vec<StatusRow> = Vec::new();
    let mut i: usize = 0;
    while i < states.len()
        invariant
            i <= states@.len(),
            rows@.len() == i,
            forall|k: int| 0 <= k < i ==> (#[trigger] rows@[k])@ == status_row(states@[k]@, width),
        decreases states@.len() - i,
    {
        rows.push(row_of_status(&states[i], width));
        i += 1;
    }
    rows
}

pub const GET_QUERY: &'static str = r#"
        query($teamId: String!) {
            team(id: $teamId) {
                id
                name
                states {
                    nodes {
                        id
                        name
                        type
                        color
                        position
                        description
                    }
                }
            }
        }
    "#;

pub open spec fn statuses_question(team_id: Seq<char>) -> RequestView {
    RequestView::with(GET_QUERY@, cycles::for_team(team_id))
}

/// The request for all statuses of a team.
pub fn get_request(team_id: &str) -> (r: Request)
    ensures
        r@ == statuses_question(team_id@),
{
    Request::with(GET_QUERY, cycles::team_variables(team_id))
}

/// A status is meant by an ID, or by its name in any case.
pub open spec fn is_meant(status: JsonView, id: Seq<char>) -> bool {
    ||| status.at("id"@).as_str() == Some(id)
    ||| status.at("name"@).as_str() is Some && text::unicode_lowercase(
        status.at("name"@).as_str()->0,
    ) == text::unicode_lowercase(id)
}

pub open spec fn first_meant(states: Seq<JsonView>, id: Seq<char>) -> Option<JsonView>
    decreases states.len(),
{
    if states.len() == 0 {
        None
    } else if is_meant(states[0], id) {
        Some(states[0])
    } else {
        first_meant(states.drop_first(), id)
    }
}

fn find_status<'a>(states: &'a [Json], id: &str) -> (r: Option<&'a Json>)
    ensures
        match r {
            Some(status) => first_meant(json::json_views(states@), id@) == Some(status@),
            None => first_meant(json::json_views(states@), id@) is None,
        },
{
    let ghost all = json::json_views(states@);
    let lower_id = text::lowercase(id);
    let mut i: usize = 0;
    assert(all.skip(0) =~= all);
    while i < states.len()
        invariant
            i <= states@.len(),
            all == json::json_views(states@),
            lower_id@ == text::unicode_lowercase(id@),
            first_meant(all, id@) == first_meant(all.skip(i as int), id@),
        decreases states@.len() - i,
    {
        assert(all.skip(i as int)[0] == states@[i as int]@);
        assert(all.skip(i as int).drop_first() =~= all.skip(i + 1));
        let by_id = match states[i].at("id").as_str() {
            Some(value) => same_text(value, id),
            None => false,
        };
        let by_name = match states[i].at("name").as_str() {
            Some(name) => {
                let lower_name = text::lowercase(name);
                same_text(lower_name.as_str(), lower_id.as_str())
            },
            None => false,
        };
        if by_id || by_name {
            return Some(&states[i]);
        }
        i += 1;
    }
    None
}

/// The statuses that some IDs mean, and the IDs that mean none.
#[derive(Debug)]
pub struct FoundStatuses {
    pub found: Vec<Json>,
    pub missing: Vec<String>,
}

#[verifier::ext_equal]
pub struct FoundStatusesView {
    pub found: Seq<JsonView>,
    pub missing: Seq<Seq<char>>,
}

impl View for FoundStatuses {
    type V = FoundStatusesView;

    open spec fn view(&self) -> FoundStatusesView {
        FoundStatusesView {
            found: json::json_views(self.found@),
            missing: self.missing.deep_view(),
        }
    }
}

pub open spec fn found_statuses(states: Seq<JsonView>, ids: Seq<Seq<char>>) -> FoundStatusesView
    decreases ids.len(),
{
    if ids.len() == 0 {
        FoundStatusesView { found: Seq::empty(), missing: Seq::empty() }
    } else {
        let before = found_statuses(states, ids.drop_last());
        match first_meant(states, ids.last()) {
            Some(status) => FoundStatusesView { found: before.found.push(status), ..before },
            None => FoundStatusesView { missing: before.missing.push(ids.last()), ..before },
        }
    }
}

/// Every ID is found or missing.
pub proof fn every_id_is_found_or_missing(states: Seq<JsonView>, ids: Seq<Seq<char>>)
    ensures
        found_statuses(states, ids).found.len() + found_statuses(states, ids).missing.len()
            == ids.len(),
    decreases ids.len(),
{
    if ids.len() > 0 {
        every_id_is_found_or_missing(states, ids.drop_last());
    }
}

/// The statuses that some IDs mean among those in an answer.
pub open spec fn answered_statuses(
    response: JsonView,
    ids: Seq<Seq<char>>,
    team: Seq<char>,
) -> Result<FoundStatusesView, FailureView> {
    let data = response.at("data"@).at("team"@);
    if data is Null {
        Err(FailureView::message("Team not found: "@ + team))
    } else {
        Ok(found_statuses(data.at("states"@).at("nodes"@).items(), ids))
    }
}

/// The statuses that some IDs mean, from the answer to `get_request`.
pub fn get_statuses(response: &Json, ids: &Vec<String>, team: &str) -> (r: Result<
    FoundStatuses,
    Failure,
>)
    ensures
        match answered_statuses(response@, ids.deep_view(), team@) {
            Ok(statuses) => r is Ok && r->Ok_0@ == statuses,
            Err(failure) => r is Err && r->Err_0@ == failure,
        },
{
    let data = response.at("data").at("team");
    if data.is_null() {
        return Err(Failure::message(joined2("Team not found: ", team).as_str()));
    }
    let states = data.at("states").at("nodes").items();
    let ghost views = json::json_views(states@);
    let ghost all = ids.deep_view();
    let mut out = FoundStatuses { found: Vec::new(), missing: Vec::new() };
    let mut i: usize = 0;
    proof {
        assert(all.take(0).len() == 0);
        assert(out@.found =~= Seq::<JsonView>::empty());
        assert(out@.missing =~= Seq::<Seq<char>>::empty());
    }
    while i < ids.len()
        invariant
            i <= ids@.len(),
            views == json::json_views(states@),
            all == ids.deep_view(),
            all.len() == ids@.len(),
            out@ == found_statuses(views, all.take(i as int)),
        decreases ids@.len() - i,
    {
        assert(all.take(i + 1).drop_last() =~= all.take(i as int));
        assert(all.take(i + 1).last() == ids@[i as int]@);
        let ghost before = out@;
        match find_status(states, ids[i].as_str()) {
            Some(status) => {
                let status = status.copy();
                out.found.push(status);
                assert(out@.found =~= before.found.push(status@));
            },
            None => {
                out.missing.push(ids[i].clone());
                assert(out@.missing =~= before.missing.push(ids@[i as int]@));
            },
        }
        i += 1;
    }
    assert(all.take(i as int) =~= all);
    Ok(out)
}

pub open spec fn safe(s: Seq<char>) -> Seq<char> {
    text::scan_text(s).1
}

/// The lines that show a status under its name; the position is shown as given.
pub open spec fn detail_lines(status: JsonView, position: Seq<char>) -> Seq<Seq<char>> {
    let description = status.at("description"@).text_or(""@);
    let shown = if status.at("description"@).as_str() is Some && description.len() > 0 {
        seq!["Description: "@ + safe(description)]
    } else {
        Seq::empty()
    };
    seq![
        "Type: "@ + safe(status.at("type"@).text_or("-"@)),
        "Color: "@ + safe(status.at("color"@).text_or("-"@)),
        "Position: "@ + position,
    ] + shown + seq!["ID: "@ + safe(status.at("id"@).text_or("-"@))]
}

pub fn lines_of_status(status: &Json, position: &str) -> (r: Vec<String>)
    ensures
        r.deep_view() == detail_lines(status@, position@),
{
    let mut lines: Vec<String> = Vec::new();
    lines.push(
        joined2("Type: ", safe_terminal_value(status.at("type").text_or("-").as_str()).as_str()),
    );
    lines.push(
        joined2("Color: ", safe_terminal_value(status.at("color").text_or("-").as_str()).as_str()),
    );
    lines.push(joined2("Position: ", position));
    match status.at("description").as_str() {
        Some(description) => {
            if !description.is_empty() {
                lines.push(joined2("Description: ", safe_terminal_value(description).as_str()));
            }
        },
        None => {},
    }
    lines.push(
        joined2("ID: ", safe_terminal_value(status.at("id").text_or("-").as_str()).as_str()),
    );
    assert(lines.deep_view() =~= detail_lines(status@, position@));
    lines
}

pub const UPDATE_MUTATION: &'static str = r#"
        mutation($id: String!, $input: WorkflowStateUpdateInput!) {
            workflowStateUpdate(id: $id, input: $input) {
                success
                workflowState { id name color description }
            }
        }
    "#;

pub open spec fn status_input(fields: StatusFields) -> JsonView {
    JsonView::object().with_some("name"@, fields.name.deep_view()).with_some(
        "color"@,
        fields.color.deep_view(),
    ).with_some("description"@, fields.description.deep_view())
}

pub open spec fn status_update(
    state_id: Seq<char>,
    fields: StatusFields,
    dry_run: bool,
) -> UpdatePlanView {
    update::planned_update(UPDATE_MUTATION@, state_id, status_input(fields), dry_run)
}

/// Decides on an update of a status.
pub fn update_status(state_id: &str, fields: &StatusFields, dry_run: bool) -> (r: UpdatePlan)
    ensures
        r@ == status_update(state_id@, *fields, dry_run),
{
    let input = Json::object().with_some("name", &fields.name).with_some(
        "color",
        &fields.color,
    ).with_some("description", &fields.description);
    update::plan_update(UPDATE_MUTATION, state_id, input, dry_run)
}

pub open spec fn updated(response: JsonView) -> Result<JsonView, FailureView> {
    api::confirmation(
        response,
        "workflowStateUpdate"@,
        "workflowState"@,
        "Failed to update status"@,
    )
}

/// The status that was updated.
pub fn updated_status<'a>(response: &'a Json) -> (r: Result<&'a Json, Failure>)
    ensures
        cycles::part_result(r, updated(response@)),
{
    api::confirmed(
        response,
        "workflowStateUpdate",
        "workflowState",
        "Failed to update status",
    )
}

// ---------------------------------------------------------------------------
// What is found, sent and shown
// ---------------------------------------------------------------------------

/// A status is meant by a text: the text is its ID, or its name in any case.
pub open spec fn is_called(status: JsonView, id: Seq<char>) -> bool {
    ||| status.at("id"@) == JsonView::Text(id)
    ||| status.at("name"@) is Text && text::unicode_lowercase(status.at("name"@)->Text_0)
        == text::unicode_lowercase(id)
}

proof fn first_meant_is_first(states: Seq<JsonView>, id: Seq<char>)
    ensures
        match first_meant(states, id) {
            Some(status) => exists|i: int|
                0 <= i < states.len() && #[trigger] states[i] == status && is_called(status, id)
                    && forall|k: int| 0 <= k < i ==> !is_called(#[trigger] states[k], id),
            None => forall|k: int| 0 <= k < states.len() ==> !is_called(#[trigger] states[k], id),
        },
    decreases states.len(),
{
    if states.len() > 0 {
        assert(is_meant(states[0], id) <==> is_called(states[0], id));
        if is_meant(states[0], id) {
            assert(states[0] == first_meant(states, id)->0);
        } else {
            let rest = states.drop_first();
            first_meant_is_first(rest, id);
            assert(forall|k: int| 0 < k < states.len() ==> #[trigger] states[k] == rest[k - 1]);
            if first_meant(states, id) is Some {
                let status = first_meant(states, id)->0;
                let i = choose|i: int|
                    0 <= i < rest.len() && #[trigger] rest[i] == status && is_called(status, id)
                        && forall|k: int| 0 <= k < i ==> !is_called(#[trigger] rest[k], id);
                assert(states[i + 1] == status);
                assert forall|k: int| 0 <= k < i + 1 implies !is_called(#[trigger] states[k], id) by {
                    if k > 0 {
                        assert(states[k] == rest[k - 1]);
                    }
                }
            }
        }
    }
}

/// Of the statuses of the team in the answer the first one that is called by a text is found
/// for it, and a text that calls none is missing.
pub proof fn status_is_found_by_id_or_name(
    response: JsonView,
    id: Seq<char>,
    team: Seq<char>,
    at: int,
)
    requires
        !(response.at("data"@).at("team"@) is Null),
    ensures
        ({
            let states = response.at("data"@).at("team"@).at("states"@).at("nodes"@).items();
            let r = answered_statuses(response, seq![id], team);
            &&& r is Ok
            &&& 0 <= at < states.len() && is_called(states[at], id) && (forall|k: int|
                0 <= k < at ==> !is_called(#[trigger] states[k], id)) ==> r->Ok_0.found == seq![
                states[at],
            ] && r->Ok_0.missing.len() == 0
            &&& (forall|k: int| 0 <= k < states.len() ==> !is_called(#[trigger] states[k], id))
                ==> r->Ok_0.missing == seq![id] && r->Ok_0.found.len() == 0
        }),
{
    let states = response.at("data"@).at("team"@).at("states"@).at("nodes"@).items();
    first_meant_is_first(states, id);
    found_one_by_one(states, Seq::empty(), id);
    assert(Seq::<Seq<char>>::empty().push(id) =~= seq![id]);
    let found = found_statuses(states, seq![id]);
    let none = Seq::<JsonView>::empty();
    assert(found_statuses(states, Seq::empty()).found =~= none);
    if 0 <= at < states.len() && is_called(states[at], id) && (forall|k: int|
        0 <= k < at ==> !is_called(#[trigger] states[k], id)) {
        let status = first_meant(states, id)->0;
        assert(first_meant(states, id) is Some);
        let i = choose|i: int|
            0 <= i < states.len() && #[trigger] states[i] == status && is_called(status, id)
                && forall|k: int| 0 <= k < i ==> !is_called(#[trigger] states[k], id);
        assert(i == at);
        assert(found.found =~= seq![states[at]]);
    }
    if forall|k: int| 0 <= k < states.len() ==> !is_called(#[trigger] states[k], id) {
        assert(first_meant(states, id) is None);
        assert(found.missing =~= seq![id]);
    }
}

proof fn found_one_by_one(states: Seq<JsonView>, ids: Seq<Seq<char>>, id: Seq<char>)
    ensures
        found_statuses(states, ids.push(id)) == (match first_meant(states, id) {
            Some(status) => FoundStatusesView {
                found: found_statuses(states, ids).found.push(status),
                missing: found_statuses(states, ids).missing,
            },
            None => FoundStatusesView {
                found: found_statuses(states, ids).found,
                missing: found_statuses(states, ids).missing.push(id),
            },
        }),
{
    assert(ids.push(id).drop_last() =~= ids);
}

/// The texts are answered in their order, each as if it had been asked for alone.
pub proof fn statuses_are_found_in_order(
    states: Seq<JsonView>,
    ids: Seq<Seq<char>>,
    id: Seq<char>,
)
    ensures
        ({
            let before = found_statuses(states, ids);
            let alone = found_statuses(states, seq![id]);
            let after = found_statuses(states, ids.push(id));
            &&& after.found == before.found + alone.found
            &&& after.missing == before.missing + alone.missing
        }),
{
    found_one_by_one(states, ids, id);
    found_one_by_one(states, Seq::empty(), id);
    assert(Seq::<Seq<char>>::empty().push(id) =~= seq![id]);
    let before = found_statuses(states, ids);
    let alone = found_statuses(states, seq![id]);
    let after = found_statuses(states, ids.push(id));
    assert(after.found =~= before.found + alone.found);
    assert(after.missing =~= before.missing + alone.missing);
}

/// A listing comes from the cache only where the cache is in use and nothing of the pages
/// was asked for in particular.
pub proof fn cache_serves_plain_listings_only(no_cache: bool, options: PaginationOptionsView)
    ensures
        cache_serves(no_cache, options) <==> !no_cache && options.limit is None
            && options.after is None && options.before is None && options.page_size is None
            && !options.all,
        cached_statuses(None) is None,
{
}

/// An update is of the status that was named and sets exactly the fields that were given; a
/// dry run sends nothing.
pub proof fn status_is_sent_with_the_given_fields(state_id: Seq<char>, fields: StatusFields)
    ensures
        status_update(state_id, fields, false) is Nothing <==> fields.name is None
            && fields.color is None && fields.description is None,
        status_update(state_id, fields, false) matches UpdatePlanView::Send(request) ==> {
            let input = request.variables->0.at("input"@);
            let set = |key: Seq<char>, value: Option<String>|
                match value {
                    Some(s) => input.get(key) == Some(JsonView::Text(s@)),
                    None => input.get(key) is None,
                };
            &&& request.variables is Some
            &&& request.variables->0.get("id"@) == Some(JsonView::Text(state_id))
            &&& set("name"@, fields.name)
            &&& set("color"@, fields.color)
            &&& set("description"@, fields.description)
        },
        !(status_update(state_id, fields, true) is Send),
{
    broadcast use json::group_fields;

    reveal_strlit("name");
    reveal_strlit("color");
    reveal_strlit("description");
    assert("name"@.len() == 4 && "color"@.len() == 5 && "description"@.len() == 11);
    let input = status_input(fields);
    update::update_carries_the_id_and_the_input(UPDATE_MUTATION@, state_id, input);
    if input.is_empty_object() {
        assert(input->Object_0 =~= Seq::<(Seq<char>, JsonView)>::empty());
        assert(input.get("name"@) is None);
        assert(input.get("color"@) is None);
        assert(input.get("description"@) is None);
    }
}

/// A change of a status is reported only where its answer confirms it.
pub proof fn only_confirmed_changes_are_reported(response: JsonView)
    ensures
        updated(response) is Ok <==> response.at("data"@).at("workflowStateUpdate"@).at("success"@)
            == JsonView::Bool(true),
        updated(response) is Ok ==> updated(response)->Ok_0 == response.at("data"@).at(
            "workflowStateUpdate"@,
        ).at("workflowState"@),
{
}

/// A row shows the fields of the status, and the details show them without control
/// characters.
pub proof fn row_and_details_show_the_status(status: JsonView, position: Seq<char>)
    ensures
        ({
            let row = status_row(status, None);
            &&& status.at("name"@) is Text ==> row.name == status.at("name"@)->Text_0
            &&& status.at("type"@) is Text ==> row.status_type == status.at("type"@)->Text_0
            &&& status.at("color"@) is Text ==> row.color == status.at("color"@)->Text_0
            &&& status.at("id"@) is Text ==> row.id == status.at("id"@)->Text_0
            &&& status.at("position"@) is Number ==> row.position == Some(
                status.at("position"@)->Number_0,
            )
        }),
        ({
            let lines = detail_lines(status, position);
            &&& status.at("type"@) is Text ==> lines[0] == "Type: "@ + safe(
                status.at("type"@)->Text_0,
            )
            &&& status.at("color"@) is Text ==> lines[1] == "Color: "@ + safe(
                status.at("color"@)->Text_0,
            )
            &&& lines[2] == "Position: "@ + position
            &&& status.at("id"@) is Text ==> lines.last() == "ID: "@ + safe(
                status.at("id"@)->Text_0,
            )
            &&& status.at("description"@) is Text && status.at("description"@)->Text_0.len() > 0
                ==> lines[3] == "Description: "@ + safe(status.at("description"@)->Text_0)
        }),
{
}

/// The question for statuses names the team, and the listing holds its name and its
/// statuses.
pub proof fn question_and_listing_are_of_the_team(team_id: Seq<char>, statuses: TeamStatusesView)
    ensures
        statuses_question(team_id).variables is Some,
        statuses_question(team_id).variables->0.get("teamId"@) == Some(JsonView::Text(team_id)),
        listing(statuses).get("team"@) == Some(JsonView::Text(statuses.team_name)),
        listing(statuses).get("statuses"@) == Some(JsonView::Array(statuses.states)),
{
    broadcast use json::group_fields;

    reveal_strlit("team");
    reveal_strlit("statuses");
    assert("team"@.len() == 4 && "statuses"@.len() == 8);
}

/// The style of a status tells its type.
pub proof fn style_tells_the_type(status_type: Seq<char>)
    ensures
        type_style(status_type) is Completed <==> status_type == "completed"@,
        type_style(status_type) is Started <==> status_type == "started"@,
        type_style(status_type) is Canceled <==> status_type == "canceled"@ || status_type
            == "cancelled"@,
        type_style(status_type) is Backlog <==> status_type == "backlog"@,
        type_style(status_type) is Unstarted <==> status_type == "unstarted"@,
{
    reveal_strlit("completed");
    reveal_strlit("started");
    reveal_strlit("canceled");
    reveal_strlit("cancelled");
    reveal_strlit("backlog");
    reveal_strlit("unstarted");
    assert("completed"@.len() == 9 && "started"@.len() == 7 && "canceled"@.len() == 8);
    assert("cancelled"@.len() == 9 && "backlog"@.len() == 7 && "unstarted"@.len() == 9);
    assert("completed"@[1] != "cancelled"@[1]);
    assert("completed"@[0] != "unstarted"@[0] && "cancelled"@[0] != "unstarted"@[0]);
    assert("started"@[0] != "backlog"@[0]);
}

} // verus!
