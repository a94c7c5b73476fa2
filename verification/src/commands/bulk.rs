//! One operation on many issues.
use vstd::prelude::*;
use vstd::string::*;

use crate::api::{Request, RequestView};
use crate::error::{CliError, CliErrorView, ErrorKind, Failure, FailureView};
use crate::error;
use crate::json;
use crate::json::{Json, JsonNumberView, JsonView};
use crate::text;
use crate::text::{count_text, joined2, joined3, joined4, joined5};

verus! {

pub enum BulkCommands {
    /// Update the state of multiple issues
    UpdateState {
        /// The new state name or ID
        state: String,
        issues: Vec<String>,
    },
    /// Assign multiple issues to a user
    Assign {
        /// The user to assign (user ID, name, email, or "me")
        user: String,
        issues: Vec<String>,
    },
    /// Add a label to multiple issues
    Label {
        /// The label name or ID to add
        label: String,
        issues: Vec<String>,
    },
    /// Unassign multiple issues
    Unassign { issues: Vec<String> },
}

impl BulkCommands {
    pub open spec fn issue_ids(self) -> Seq<Seq<char>> {
        match self {
            BulkCommands::UpdateState { issues, .. } => issues.deep_view(),
            BulkCommands::Assign { issues, .. } => issues.deep_view(),
            BulkCommands::Label { issues, .. } => issues.deep_view(),
            BulkCommands::Unassign { issues } => issues.deep_view(),
        }
    }

    /// How the command is used.
    pub open spec fn example(self) -> Seq<char> {
        match self {
            BulkCommands::UpdateState { .. } => "linear bulk update-state Done -i LIN-1,LIN-2"@,
            BulkCommands::Assign { .. } => "linear bulk assign me -i LIN-1,LIN-2"@,
            BulkCommands::Label { .. } => "linear bulk label bug -i LIN-1,LIN-2"@,
            BulkCommands::Unassign { .. } => "linear bulk unassign -i LIN-1,LIN-2"@,
        }
    }

    pub open spec fn announced(self) -> Seq<char> {
        let count = text::decimal(self.issue_ids().len());
        match self {
            BulkCommands::UpdateState { state, .. } => "Updating state to '"@ + state@ + "' for "@
                + count + " issues..."@,
            BulkCommands::Assign { user, .. } => "Assigning "@ + count + " issues to '"@ + user@
                + "'..."@,
            BulkCommands::Label { label, .. } => "Adding label '"@ + label@ + "' to "@ + count
                + " issues..."@,
            BulkCommands::Unassign { .. } => "Unassigning "@ + count + " issues..."@,
        }
    }

    pub open spec fn done(self) -> Seq<char> {
        match self {
            BulkCommands::UpdateState { .. } => "state updated"@,
            BulkCommands::Assign { .. } => "assigned"@,
            BulkCommands::Label { .. } => "labeled"@,
            BulkCommands::Unassign { .. } => "unassigned"@,
        }
    }

    pub fn issues(&self) -> (r: &Vec<String>)
        ensures
            r.deep_view() == self.issue_ids(),
    {
        match self {
            BulkCommands::UpdateState { issues, .. } => issues,
            BulkCommands::Assign { issues, .. } => issues,
            BulkCommands::Label { issues, .. } => issues,
            BulkCommands::Unassign { issues } => issues,
        }
    }

    /// A command needs issues to work on.
    pub fn check_issues(&self) -> (r: Result<(), Failure>)
        ensures
            if self.issue_ids().len() == 0 {
                r is Err && r->Err_0@ == missing_issues(self.example())
            } else {
                r is Ok
            },
    {
        let issues = self.issues();
        assert(issues.deep_view().len() == issues@.len());
        if issues.len() == 0 {
            return missing_bulk_issues(
                match self {
                    BulkCommands::UpdateState { .. } =>
                        "linear bulk update-state Done -i LIN-1,LIN-2",
                    BulkCommands::Assign { .. } => "linear bulk assign me -i LIN-1,LIN-2",
                    BulkCommands::Label { .. } => "linear bulk label bug -i LIN-1,LIN-2",
                    BulkCommands::Unassign { .. } => "linear bulk unassign -i LIN-1,LIN-2",
                },
            );
        }
        Ok(())
    }

    /// The line that announces the work.
    pub fn heading(&self) -> (r: String)
        ensures
            r@ == self.announced(),
    {
        let issues = self.issues();
        assert(issues.deep_view().len() == issues@.len());
        let count = count_text(issues.len());
        match self {
            BulkCommands::UpdateState { state, .. } => joined5(
                "Updating state to '",
                state.as_str(),
                "' for ",
                count.as_str(),
                " issues...",
            ),
            BulkCommands::Assign { user, .. } => joined5(
                "Assigning ",
                count.as_str(),
                " issues to '",
                user.as_str(),
                "'...",
            ),
            BulkCommands::Label { label, .. } => joined5(
                "Adding label '",
                label.as_str(),
                "' to ",
                count.as_str(),
                " issues...",
            ),
            BulkCommands::Unassign { .. } => joined3("Unassigning ", count.as_str(), " issues..."),
        }
    }

    /// What is said of an issue that the command worked on.
    pub fn action(&self) -> (r: &'static str)
        ensures
            r@ == self.done(),
    {
        match self {
            BulkCommands::UpdateState { .. } => "state updated",
            BulkCommands::Assign { .. } => "assigned",
            BulkCommands::Label { .. } => "labeled",
            BulkCommands::Unassign { .. } => "unassigned",
        }
    }
}

pub open spec fn missing_issues(example: Seq<char>) -> FailureView {
    FailureView::message(
        "No issues specified. Provide issue IDs with -i/--issues.\nExample: "@ + example,
    )
}

/// The failure of a command without issues.
pub fn missing_bulk_issues(example: &str) -> (r: Result<(), Failure>)
    ensures
        r is Err,
        r->Err_0@ == missing_issues(example@),
{
    Err(
        Failure::message(
            joined2(
                "No issues specified. Provide issue IDs with -i/--issues.\nExample: ",
                example,
            ).as_str(),
        ),
    )
}

pub open spec fn unresolved(what: Seq<char>, name: Seq<char>, failure: FailureView) -> FailureView {
    failure.rewrapped("Failed to resolve "@ + what + " '"@ + name + ("': "@ + failure.shown()))
}

/// A name that is not resolved ends the command; the failure keeps its kind.
pub fn resolution_failure(what: &str, name: &str, failure: &Failure) -> (r: Failure)
    ensures
        r@ == unresolved(what@, name@, failure@),
{
    let shown = failure.to_string();
    let message = joined5(
        "Failed to resolve ",
        what,
        " '",
        name,
        joined2("': ", shown.as_str()).as_str(),
    );
    error::rewrap_with_message(failure, message.as_str())
}

/// What became of one issue.
#[derive(Debug)]
pub struct BulkResult {
    pub issue_id: String,
    pub success: bool,
    pub identifier: Option<String>,
    pub error: Option<String>,
}

#[verifier::ext_equal]
pub struct BulkResultView {
    pub issue_id: Seq<char>,
    pub success: bool,
    pub identifier: Option<Seq<char>>,
    pub error: Option<Seq<char>>,
}

impl View for BulkResult {
    type V = BulkResultView;

    open spec fn view(&self) -> BulkResultView {
        BulkResultView {
            issue_id: self.issue_id@,
            success: self.success,
            identifier: self.identifier.deep_view(),
            error: self.error.deep_view(),
        }
    }
}

impl BulkResultView {
    pub open spec fn failed(
        issue_id: Seq<char>,
        identifier: Option<Seq<char>>,
        error: Seq<char>,
    ) -> BulkResultView {
        BulkResultView { issue_id, success: false, identifier, error: Some(error) }
    }
}

fn failed(issue_id: &str, identifier: Option<String>, error: &str) -> (r: BulkResult)
    ensures
        r@ == BulkResultView::failed(issue_id@, identifier.deep_view(), error@),
{
    BulkResult {
        issue_id: issue_id.to_string(),
        success: false,
        identifier,
        error: Some(error.to_string()),
    }
}

pub const INFO_QUERY: &'static str = r#"
        query($id: String!) {
            issue(id: $id) {
                id
                identifier
                team {
                    id
                }
            }
        }
    "#;

pub const LABELS_QUERY: &'static str = r#"
        query($id: String!) {
            issue(id: $id) {
                id
                identifier
                labels {
                    nodes {
                        id
                    }
                }
            }
        }
    "#;

pub const UPDATE_MUTATION: &'static str = r#"
        mutation($id: String!, $input: IssueUpdateInput!) {
            issueUpdate(id: $id, input: $input) {
                success
                issue {
                    identifier
                    title
                }
            }
        }
    "#;

pub const LABEL_MUTATION: &'static str = r#"
        mutation($id: String!, $input: IssueUpdateInput!) {
            issueUpdate(id: $id, input: $input) {
                success
                issue {
                    identifier
                }
            }
        }
    "#;

/// What is done to each issue.
pub enum Change {
    /// Give it the state of a name.
    State(String),
    /// Assign it to a user of an ID, or to nobody.
    Assignee(Option<String>),
    /// Add the label of an ID.
    Label(String),
}

pub open spec fn first_question(change: Change, issue_id: Seq<char>) -> RequestView {
    RequestView::with(
        if change is Label {
            LABELS_QUERY@
        } else {
            INFO_QUERY@
        },
        JsonView::object().with("id"@, JsonView::Text(issue_id)),
    )
}

/// The first question about an issue.
pub fn info_request(change: &Change, issue_id: &str) -> (r: Request)
    ensures
        r@ == first_question(*change, issue_id@),
{
    let variables = Json::object().with("id", Json::text(issue_id));
    match change {
        Change::Label(_) => Request::with(LABELS_QUERY, variables),
        _ => Request::with(INFO_QUERY, variables),
    }
}

/// An issue: its ID, its team and its identifier.
#[derive(Debug)]
pub struct IssueInfo {
    pub uuid: String,
    pub team_id: String,
    pub identifier: Option<String>,
}

#[verifier::ext_equal]
pub struct IssueInfoView {
    pub uuid: Seq<char>,
    pub team_id: Seq<char>,
    pub identifier: Option<Seq<char>>,
}

impl View for IssueInfo {
    type V = IssueInfoView;

    open spec fn view(&self) -> IssueInfoView {
        IssueInfoView {
            uuid: self.uuid@,
            team_id: self.team_id@,
            identifier: self.identifier.deep_view(),
        }
    }
}

pub open spec fn issue_info(answer: Result<Json, Failure>, issue_id: Seq<char>) -> Result<
    IssueInfoView,
    FailureView,
> {
    match answer {
        Ok(response) => {
            let issue = response@.at("data"@).at("issue"@);
            if issue is Null {
                Err(FailureView::message("Issue not found: "@ + issue_id))
            } else if issue.at("id"@).as_str() is None {
                Err(FailureView::message("Failed to get issue ID"@))
            } else if issue.at("team"@).at("id"@).as_str() is None {
                Err(FailureView::message("Failed to get team ID"@))
            } else {
                Ok(
                    IssueInfoView {
                        uuid: issue.at("id"@).as_str()->0,
                        team_id: issue.at("team"@).at("id"@).as_str()->0,
                        identifier: issue.at("identifier"@).as_str(),
                    },
                )
            }
        },
        Err(failure) => Err(failure@),
    }
}

/// Reads an issue's ID, team and identifier from the answer to `info_request`.
pub fn get_issue_info(answer: Result<Json, Failure>, issue_id: &str) -> (r: Result<
    IssueInfo,
    Failure,
>)
    ensures
        match issue_info(answer, issue_id@) {
            Ok(info) => r is Ok && r->Ok_0@ == info,
            Err(failure) => r is Err && r->Err_0@ == failure,
        },
{
    let response = match answer {
        Ok(response) => response,
        Err(failure) => {
            return Err(failure);
        },
    };
    let issue = response.at("data").at("issue");
    if issue.is_null() {
        return Err(Failure::message(joined2("Issue not found: ", issue_id).as_str()));
    }
    let uuid = match issue.at("id").as_text() {
        Some(uuid) => uuid,
        None => {
            return Err(Failure::message("Failed to get issue ID"));
        },
    };
    let team_id = match issue.at("team").at("id").as_text() {
        Some(team_id) => team_id,
        None => {
            return Err(Failure::message("Failed to get team ID"));
        },
    };
    Ok(IssueInfo { uuid, team_id, identifier: issue.at("identifier").as_text() })
}

/// What is to be done next for an issue.
#[derive(Debug)]
pub enum BulkStep {
    /// Find the ID of the state in the team; it may be known under the key.
    FindState { info: IssueInfo, cache_key: String },
    /// Send the update; the identifier is what is known of it so far.
    Update { request: Request, identifier: Option<String> },
    Done(BulkResult),
}

#[verifier::ext_equal]
pub enum BulkStepView {
    FindState { info: IssueInfoView, cache_key: Seq<char> },
    Update { request: RequestView, identifier: Option<Seq<char>> },
    Done(BulkResultView),
}

impl View for BulkStep {
    type V = BulkStepView;

    open spec fn view(&self) -> BulkStepView {
        match self {
            BulkStep::FindState { info, cache_key } => BulkStepView::FindState {
                info: info@,
                cache_key: cache_key@,
            },
            BulkStep::Update { request, identifier } => BulkStepView::Update {
                request: request@,
                identifier: identifier.deep_view(),
            },
            BulkStep::Done(result) => BulkStepView::Done(result@),
        }
    }
}

pub open spec fn update_of(mutation: Seq<char>, uuid: Seq<char>, input: JsonView) -> RequestView {
    RequestView::with(
        mutation,
        JsonView::object().with("id"@, JsonView::Text(uuid)).with("input"@, input),
    )
}

fn update_request(mutation: &'static str, uuid: &str, input: Json) -> (r: Request)
    ensures
        r@ == update_of(mutation@, uuid@, input@),
{
    Request::with(
        mutation,
        Json::object().with("id", Json::text(uuid)).with("input", input),
    )
}

/// A list of labels with one more, unless it is there already.
pub open spec fn with_label(labels: Seq<Seq<char>>, label: Seq<char>) -> Seq<Seq<char>> {
    if labels.contains(label) {
        labels
    } else {
        labels.push(label)
    }
}

/// A label that is added is there, none is lost, and adding it again changes
/// nothing.
pub proof fn label_is_added_once(labels: Seq<Seq<char>>, label: Seq<char>)
    ensures
        with_label(labels, label).contains(label),
        with_label(with_label(labels, label), label) == with_label(labels, label),
        labels.is_prefix_of(with_label(labels, label)),
        with_label(labels, label).len() <= labels.len() + 1,
{
    if !labels.contains(label) {
        assert(labels.push(label)[labels.len() as int] == label);
    }
}

/// What follows the answer that holds the labels of an issue.
pub open spec fn label_step(
    label: Seq<char>,
    issue_id: Seq<char>,
    answer: Result<Json, Failure>,
) -> BulkStepView {
    match answer {
        Ok(response) => {
            let issue = response@.at("data"@).at("issue"@);
            if issue is Null {
                BulkStepView::Done(
                    BulkResultView::failed(issue_id, None, "Issue not found"@),
                )
            } else {
                let labels = json::texts_at(
                    issue.at("labels"@).at("nodes"@).items(),
                    "id"@,
                );
                BulkStepView::Update {
                    request: update_of(
                        LABEL_MUTATION@,
                        issue.at("id"@).text_or(issue_id),
                        JsonView::object().with(
                            "labelIds"@,
                            JsonView::texts(with_label(labels, label)),
                        ),
                    ),
                    identifier: issue.at("identifier"@).as_str(),
                }
            }
        },
        Err(failure) => BulkStepView::Done(
            BulkResultView::failed(issue_id, None, failure@.shown()),
        ),
    }
}

/// What follows the answer to the first question.
pub open spec fn step_after_info(
    change: Change,
    issue_id: Seq<char>,
    answer: Result<Json, Failure>,
) -> BulkStepView {
    match change {
        Change::Label(label) => label_step(label@, issue_id, answer),
        Change::State(state) => match issue_info(answer, issue_id) {
            Ok(info) => BulkStepView::FindState {
                info,
                cache_key: info.team_id + ":"@ + state@,
            },
            Err(failure) => BulkStepView::Done(
                BulkResultView::failed(issue_id, None, failure.shown()),
            ),
        },
        Change::Assignee(assignee) => match issue_info(answer, issue_id) {
            Ok(info) => BulkStepView::Update {
                request: update_of(
                    UPDATE_MUTATION@,
                    info.uuid,
                    JsonView::object().with(
                        "assigneeId"@,
                        JsonView::opt_text(assignee.deep_view()),
                    ),
                ),
                identifier: info.identifier,
            },
            Err(failure) => BulkStepView::Done(
                BulkResultView::failed(issue_id, None, failure.shown()),
            ),
        },
    }
}

fn add_label_to_issue(label: &str, issue_id: &str, answer: Result<Json, Failure>) -> (r: BulkStep)
    ensures
        r@ == label_step(label@, issue_id@, answer),
{
    let response = match answer {
        Ok(response) => response,
        Err(failure) => {
            return BulkStep::Done(failed(issue_id, None, failure.to_string().as_str()));
        },
    };
    let issue = response.at("data").at("issue");
    if issue.is_null() {
        return BulkStep::Done(failed(issue_id, None, "Issue not found"));
    }
    let uuid = issue.at("id").text_or(issue_id);
    let identifier = issue.at("identifier").as_text();
    let mut label_ids = json::collect_texts_at(issue.at("labels").at("nodes").items(), "id");
    if !text::texts_contain(&label_ids, label) {
        let ghost before = label_ids.deep_view();
        label_ids.push(label.to_string());
        assert(label_ids.deep_view() =~= before.push(label@));
    }
    let input = Json::object().with("labelIds", Json::texts(&label_ids));
    BulkStep::Update { request: update_request(LABEL_MUTATION, uuid.as_str(), input), identifier }
}

/// Decides what follows the answer to the first question about an issue.
pub fn after_info(change: &Change, issue_id: &str, answer: Result<Json, Failure>) -> (r: BulkStep)
    ensures
        r@ == step_after_info(*change, issue_id@, answer),
{
    match change {
        Change::Label(label) => add_label_to_issue(label.as_str(), issue_id, answer),
        Change::State(state) => match get_issue_info(answer, issue_id) {
            Ok(info) => {
                let cache_key = joined3(info.team_id.as_str(), ":", state.as_str());
                BulkStep::FindState { info, cache_key }
            },
            Err(failure) => BulkStep::Done(failed(issue_id, None, failure.to_string().as_str())),
        },
        Change::Assignee(assignee) => match get_issue_info(answer, issue_id) {
            Ok(info) => {
                let input = Json::object().with("assigneeId", Json::opt_text(assignee));
                BulkStep::Update {
                    request: update_request(UPDATE_MUTATION, info.uuid.as_str(), input),
                    identifier: info.identifier,
                }
            },
            Err(failure) => BulkStep::Done(failed(issue_id, None, failure.to_string().as_str())),
        },
    }
}

/// What follows once the ID of the state is known, or why it is not.
pub open spec fn step_after_state(
    issue_id: Seq<char>,
    info: IssueInfoView,
    state_id: Result<String, Failure>,
) -> BulkStepView {
    match state_id {
        Ok(id) => BulkStepView::Update {
            request: update_of(
                UPDATE_MUTATION@,
                info.uuid,
                JsonView::object().with("stateId"@, JsonView::Text(id@)),
            ),
            identifier: None,
        },
        Err(failure) => BulkStepView::Done(
            BulkResultView::failed(issue_id, info.identifier, failure@.shown()),
        ),
    }
}

/// Decides what follows once the ID of the state is known, or why it is not.
pub fn after_state(issue_id: &str, info: IssueInfo, state_id: Result<String, Failure>) -> (r:
    BulkStep)
    ensures
        r@ == step_after_state(issue_id@, info@, state_id),
{
    match state_id {
        Ok(id) => {
            let input = Json::object().with("stateId", Json::Text(id));
            BulkStep::Update {
                request: update_request(UPDATE_MUTATION, info.uuid.as_str(), input),
                identifier: None,
            }
        },
        Err(failure) => BulkStep::Done(
            failed(issue_id, info.identifier, failure.to_string().as_str()),
        ),
    }
}

/// What became of an issue whose update was answered; the identifier is the one
/// in the answer, else what was known of it.
pub open spec fn update_result(
    issue_id: Seq<char>,
    identifier: Option<Seq<char>>,
    answer: Result<Json, Failure>,
) -> BulkResultView {
    match answer {
        Ok(response) => {
            let updated = response@.at("data"@).at("issueUpdate"@);
            if updated.at("success"@).is_true() {
                BulkResultView {
                    issue_id,
                    success: true,
                    identifier: match updated.at("issue"@).at("identifier"@).as_str() {
                        Some(identifier) => Some(identifier),
                        None => identifier,
                    },
                    error: None,
                }
            } else {
                BulkResultView::failed(issue_id, identifier, "Update failed"@)
            }
        },
        Err(failure) => BulkResultView::failed(issue_id, identifier, failure@.shown()),
    }
}

pub fn after_update(issue_id: &str, identifier: Option<String>, answer: Result<Json, Failure>) -> (r:
    BulkResult)
    ensures
        r@ == update_result(issue_id@, identifier.deep_view(), answer),
{
    match answer {
        Ok(response) => {
            let updated = response.at("data").at("issueUpdate");
            if updated.at("success").is_true() {
                BulkResult {
                    issue_id: issue_id.to_string(),
                    success: true,
                    identifier: match updated.at("issue").at("identifier").as_text() {
                        Some(identifier) => Some(identifier),
                        None => identifier,
                    },
                    error: None,
                }
            } else {
                failed(issue_id, identifier, "Update failed")
            }
        },
        Err(failure) => failed(issue_id, identifier, failure.to_string().as_str()),
    }
}

/// An issue counts as worked on only once its update was answered with success,
/// and a failure always says why.
pub proof fn success_needs_a_confirmed_update(
    change: Change,
    issue_id: Seq<char>,
    identifier: Option<Seq<char>>,
    answer: Result<Json, Failure>,
)
    ensures
        step_after_info(change, issue_id, answer) matches BulkStepView::Done(result)
            ==> !result.success && result.error is Some,
        update_result(issue_id, identifier, answer).success <==> (answer is Ok
            && answer->Ok_0@.at("data"@).at("issueUpdate"@).at("success"@).is_true()),
        update_result(issue_id, identifier, answer).success <==> update_result(
            issue_id,
            identifier,
            answer,
        ).error is None,
{
}

/// How many results are failures.
pub open spec fn failures(results: Seq<BulkResult>) -> nat
    decreases results.len(),
{
    if results.len() == 0 {
        0
    } else {
        failures(results.drop_last()) + if results.last().success {
            0nat
        } else {
            1nat
        }
    }
}

/// The failures are no more than all results, and none only where every result
/// is a success.
pub proof fn no_failures_means_all_succeeded(results: Seq<BulkResult>)
    ensures
        failures(results) <= results.len(),
        failures(results) == 0 <==> forall|i: int|
            0 <= i < results.len() ==> (#[trigger] results[i]).success,
    decreases results.len(),
{
    if results.len() > 0 {
        let front = results.drop_last();
        no_failures_means_all_succeeded(front);
        assert(forall|i: int| 0 <= i < front.len() ==> front[i] == #[trigger] results[i]);
        assert(results.last() == results[results.len() - 1]);
        if failures(results) == 0 {
            assert forall|i: int| 0 <= i < results.len() implies (#[trigger] results[i]).success by {
                if i < front.len() {
                    assert(front[i].success);
                }
            }
        }
        if forall|i: int| 0 <= i < results.len() ==> (#[trigger] results[i]).success {
            assert forall|i: int| 0 <= i < front.len() implies (#[trigger] front[i]).success by {
                assert(results[i].success);
            }
        }
    }
}

pub fn count_failures(results: &[BulkResult]) -> (r: usize)
    ensures
        r == failures(results@),
        r <= results@.len(),
{
    let mut failed: usize = 0;
    let mut i: usize = 0;
    assert(results@.take(0).len() == 0);
    while i < results.len()
        invariant
            i <= results@.len(),
            failed <= i,
            failed == failures(results@.take(i as int)),
        decreases results@.len() - i,
    {
        assert(results@.take(i + 1).drop_last() =~= results@.take(i as int));
        if !results[i].success {
            failed += 1;
        }
        i += 1;
    }
    assert(results@.take(i as int) =~= results@);
    failed
}

pub open spec fn count_json(n: nat) -> JsonView {
    JsonView::Number(JsonNumberView::Unsigned(n as u64))
}

pub open spec fn result_json(result: BulkResultView) -> JsonView {
    JsonView::object().with("issue_id"@, JsonView::Text(result.issue_id)).with(
        "identifier"@,
        JsonView::opt_text(result.identifier),
    ).with("success"@, JsonView::Bool(result.success)).with(
        "error"@,
        JsonView::opt_text(result.error),
    )
}

/// The JSON value that reports the results of a command.
pub open spec fn summary_json(results: Seq<BulkResult>, action: Seq<char>) -> JsonView {
    JsonView::object().with("action"@, JsonView::Text(action)).with(
        "results"@,
        JsonView::Array(Seq::new(results.len(), |i: int| result_json(results[i]@))),
    ).with(
        "summary"@,
        JsonView::object().with("total"@, count_json(results.len())).with(
            "succeeded"@,
            count_json((results.len() - failures(results)) as nat),
        ).with("failed"@, count_json(failures(results))),
    )
}

fn json_of_result(result: &BulkResult) -> (r: Json)
    ensures
        r@ == result_json(result@),
{
    Json::object().with("issue_id", Json::text(result.issue_id.as_str())).with(
        "identifier",
        Json::opt_text(&result.identifier),
    ).with("success", Json::Bool(result.success)).with("error", Json::opt_text(&result.error))
}

pub fn summary_payload(results: &[BulkResult], action: &str) -> (r: Json)
    ensures
        r@ == summary_json(results@, action@),
{
    let failed = count_failures(results);
    let mut items: Vec<Json> = Vec::new();
    let mut i: usize = 0;
    while i < results.len()
        invariant
            i <= results@.len(),
            items@.len() == i,
            forall|k: int| 0 <= k < i ==> (#[trigger] items@[k])@ == result_json(results@[k]@),
        decreases results@.len() - i,
    {
        items.push(json_of_result(&results[i]));
        i += 1;
    }
    assert(json::json_views(items@) =~= Seq::new(
        results@.len(),
        |k: int| result_json(results@[k]@),
    ));
    let summary = Json::object().with("total", Json::number(results.len() as u64)).with(
        "succeeded",
        Json::number((results.len() - failed) as u64),
    ).with("failed", Json::number(failed as u64));
    Json::object().with("action", Json::text(action)).with("results", Json::array(items)).with(
        "summary",
        summary,
    )
}

/// The line that reports one result, cut to the widths for identifiers and errors.
pub open spec fn result_line(
    result: BulkResultView,
    action: Seq<char>,
    id_width: Option<usize>,
    err_width: Option<usize>,
) -> Seq<char> {
    if result.success {
        let id = match result.identifier {
            Some(identifier) => identifier,
            None => result.issue_id,
        };
        "  + "@ + text::shortened(id, id_width) + " "@ + action
    } else {
        let error = match result.error {
            Some(error) => error,
            None => "Unknown error"@,
        };
        "  x "@ + result.issue_id + " failed: "@ + text::shortened(error, err_width)
    }
}

pub fn line_of_result(
    result: &BulkResult,
    action: &str,
    id_width: Option<usize>,
    err_width: Option<usize>,
) -> (r: String)
    ensures
        r@ == result_line(result@, action@, id_width, err_width),
{
    if result.success {
        let id = match &result.identifier {
            Some(identifier) => text::truncate(identifier.as_str(), id_width),
            None => text::truncate(result.issue_id.as_str(), id_width),
        };
        joined4("  + ", id.as_str(), " ", action)
    } else {
        let error = match &result.error {
            Some(error) => text::truncate(error.as_str(), err_width),
            None => text::truncate("Unknown error", err_width),
        };
        joined4("  x ", result.issue_id.as_str(), " failed: ", error.as_str())
    }
}

pub open spec fn summed_up(results: Seq<BulkResult>) -> Seq<char> {
    "Summary: "@ + text::decimal((results.len() - failures(results)) as nat) + " succeeded, "@
        + text::decimal(failures(results)) + " failed"@
}

/// The line that sums the results up.
pub fn summary_line(results: &[BulkResult]) -> (r: String)
    ensures
        r@ == summed_up(results@),
{
    let failed = count_failures(results);
    joined5(
        "Summary: ",
        count_text(results.len() - failed).as_str(),
        " succeeded, ",
        count_text(failed).as_str(),
        " failed",
    )
}

/// The failure that a command ends with; none where every issue was worked on.
pub open spec fn exit_failure(results: Seq<BulkResult>) -> Option<FailureView> {
    if failures(results) == 0 {
        None
    } else {
        Some(
            FailureView::cli(
                CliErrorView::plain(
                    ErrorKind::General,
                    text::decimal(failures(results)) + " of "@ + text::decimal(results.len())
                        + " operations failed"@,
                ),
            ),
        )
    }
}

/// An error if any item failed, so that partial failures still exit non-zero.
pub fn bulk_exit_status(results: &[BulkResult]) -> (r: Result<(), Failure>)
    ensures
        match exit_failure(results@) {
            Some(failure) => r is Err && r->Err_0@ == failure,
            None => r is Ok,
        },
{
    let failed = count_failures(results);
    if failed > 0 {
        let message = joined4(
            count_text(failed).as_str(),
            " of ",
            count_text(results.len()).as_str(),
            " operations failed",
        );
        return Err(Failure::cli(CliError::general(message.as_str())));
    }
    Ok(())
}

// ---------------------------------------------------------------------------
// What is sent for a change, and what is told of it
// ---------------------------------------------------------------------------

proof fn update_carries_the_issue_and_the_input(mutation: Seq<char>, uuid: Seq<char>, input: JsonView)
    ensures
        ({
            let variables = update_of(mutation, uuid, input).variables;
            &&& variables is Some
            &&& variables->0.get("id"@) == Some(JsonView::Text(uuid))
            &&& variables->0.get("input"@) == Some(input)
        }),
{
    broadcast use json::group_fields;

    reveal_strlit("id");
    reveal_strlit("input");
    assert("id"@.len() != "input"@.len());
}

/// An answer tells of an issue: its ID, its team, and its identifier where it has one.
pub open spec fn tells_of(response: JsonView, uuid: Seq<char>, team_id: Seq<char>) -> bool {
    let issue = response.at("data"@).at("issue"@);
    &&& issue.at("id"@) == JsonView::Text(uuid)
    &&& issue.at("team"@).at("id"@) == JsonView::Text(team_id)
}

/// An assignment is sent for the issue in the answer and carries the user's ID, or null
/// where the issue is to be assigned to nobody.
pub proof fn assignment_carries_the_user(
    assignee: Option<String>,
    issue_id: Seq<char>,
    response: Json,
    uuid: Seq<char>,
    team_id: Seq<char>,
)
    requires
        tells_of(response@, uuid, team_id),
    ensures
        ({
            let step = step_after_info(Change::Assignee(assignee), issue_id, Ok(response));
            let variables = step->request.variables->0;
            &&& step is Update
            &&& step->request.variables is Some
            &&& variables.at("id"@) == JsonView::Text(uuid)
            &&& variables.at("input"@).get("assigneeId"@) == Some(
                match assignee {
                    Some(user) => JsonView::Text(user@),
                    None => JsonView::Null,
                },
            )
            &&& step->Update_identifier == response@.at("data"@).at("issue"@).at(
                "identifier"@,
            ).as_str()
        }),
{
    broadcast use json::group_fields;

    let input = JsonView::object().with("assigneeId"@, JsonView::opt_text(assignee.deep_view()));
    update_carries_the_issue_and_the_input(UPDATE_MUTATION@, uuid, input);
}

/// Assignments to two users are sent as two different requests, and neither is sent as the
/// request that assigns to nobody.
pub proof fn assignments_are_told_apart(
    user: String,
    other: String,
    issue_id: Seq<char>,
    response: Json,
    uuid: Seq<char>,
    team_id: Seq<char>,
)
    requires
        tells_of(response@, uuid, team_id),
    ensures
        user@ != other@ ==> step_after_info(
            Change::Assignee(Some(user)),
            issue_id,
            Ok(response),
        ) != step_after_info(Change::Assignee(Some(other)), issue_id, Ok(response)),
        step_after_info(Change::Assignee(Some(user)), issue_id, Ok(response)) != step_after_info(
            Change::Assignee(None),
            issue_id,
            Ok(response),
        ),
{
    assignment_carries_the_user(Some(user), issue_id, response, uuid, team_id);
    assignment_carries_the_user(Some(other), issue_id, response, uuid, team_id);
    assignment_carries_the_user(None, issue_id, response, uuid, team_id);
}

/// A change of state looks the state up in the team of the issue, and sends its ID for that
/// issue once it is known.
pub proof fn state_is_looked_up_in_the_team_and_sent(
    state: String,
    issue_id: Seq<char>,
    response: Json,
    uuid: Seq<char>,
    team_id: Seq<char>,
    state_id: String,
)
    requires
        tells_of(response@, uuid, team_id),
    ensures
        ({
            let step = step_after_info(Change::State(state), issue_id, Ok(response));
            let sent = step_after_state(issue_id, step->info, Ok(state_id));
            let variables = sent->request.variables->0;
            &&& step is FindState
            &&& step->info.team_id == team_id
            &&& step->info.uuid == uuid
            &&& step->cache_key == team_id + ":"@ + state@
            &&& sent is Update
            &&& variables.at("id"@) == JsonView::Text(uuid)
            &&& variables.at("input"@).get("stateId"@) == Some(JsonView::Text(state_id@))
        }),
{
    broadcast use json::group_fields;

    let input = JsonView::object().with("stateId"@, JsonView::Text(state_id@));
    update_carries_the_issue_and_the_input(UPDATE_MUTATION@, uuid, input);
}

/// A label is sent together with the labels that the issue has, each of them once more, and
/// no other.
pub proof fn label_is_sent_with_those_of_the_issue(
    label: String,
    issue_id: Seq<char>,
    response: Json,
    other: Seq<char>,
)
    requires
        !(response@.at("data"@).at("issue"@) is Null),
    ensures
        ({
            let issue = response@.at("data"@).at("issue"@);
            let nodes = issue.at("labels"@).at("nodes"@).items();
            let step = step_after_info(Change::Label(label), issue_id, Ok(response));
            let variables = step->request.variables->0;
            let sent = variables.at("input"@).at("labelIds"@).items();
            &&& step is Update
            &&& issue.at("id"@) is Text ==> variables.at("id"@) == issue.at("id"@)
            &&& sent.contains(JsonView::Text(label@))
            &&& sent.contains(JsonView::Text(other)) <==> other == label@ || exists|i: int|
                0 <= i < nodes.len() && (#[trigger] nodes[i]).at("id"@) == JsonView::Text(other)
        }),
{
    broadcast use json::group_fields;

    let issue = response@.at("data"@).at("issue"@);
    let nodes = issue.at("labels"@).at("nodes"@).items();
    let held = json::texts_at(nodes, "id"@);
    let all = with_label(held, label@);
    let input = JsonView::object().with("labelIds"@, JsonView::texts(all));
    update_carries_the_issue_and_the_input(
        LABEL_MUTATION@,
        issue.at("id"@).text_or(issue_id),
        input,
    );
    assert(input.get("labelIds"@) == Some(JsonView::texts(all)));
    json::texts_at_are_those_of_the_items(nodes, "id"@, other);
    label_is_added_once(held, label@);
    listed_text_is_sent(all, label@);
    listed_text_is_sent(all, other);
    if other != label@ {
        if all.contains(other) {
            let k = choose|k: int| 0 <= k < all.len() && all[k] == other;
            assert(k < held.len());
            assert(held[k] == other);
        }
        if held.contains(other) {
            let k = choose|k: int| 0 <= k < held.len() && held[k] == other;
            assert(all[k] == other);
        }
    }
}

proof fn listed_text_is_sent(list: Seq<Seq<char>>, s: Seq<char>)
    ensures
        JsonView::texts(list).items().contains(JsonView::Text(s)) <==> list.contains(s),
{
    let sent = JsonView::texts(list).items();
    if list.contains(s) {
        let k = choose|k: int| 0 <= k < list.len() && list[k] == s;
        assert(sent[k] == JsonView::Text(s));
    }
    if sent.contains(JsonView::Text(s)) {
        let k = choose|k: int| 0 <= k < sent.len() && sent[k] == JsonView::Text(s);
        assert(sent[k] == JsonView::Text(list[k]));
    }
}

/// An issue that is not there, or whose question failed, is told as failed, and nothing is
/// sent for it.
pub proof fn nothing_is_sent_for_an_unknown_issue(
    change: Change,
    issue_id: Seq<char>,
    answer: Result<Json, Failure>,
)
    requires
        answer matches Ok(response) ==> response@.at("data"@).at("issue"@) is Null,
    ensures
        ({
            let step = step_after_info(change, issue_id, answer);
            &&& step is Done
            &&& step->Done_0.issue_id == issue_id
            &&& !step->Done_0.success
            &&& answer matches Err(failure) ==> step->Done_0.error == Some(failure@.shown())
        }),
{
}

/// The first question asks about the issue that was named.
pub proof fn first_question_names_the_issue(change: Change, issue_id: Seq<char>)
    ensures
        first_question(change, issue_id).variables is Some,
        first_question(change, issue_id).variables->0.get("id"@) == Some(JsonView::Text(issue_id)),
        change is Label ==> first_question(change, issue_id).query == LABELS_QUERY@,
        !(change is Label) ==> first_question(change, issue_id).query == INFO_QUERY@,
{
    broadcast use json::group_fields;

}

/// A result tells of the issue that was named; a success under the identifier in the answer,
/// or what was known of it, and a failure with its reason.
pub proof fn result_tells_of_the_issue(
    issue_id: Seq<char>,
    identifier: Option<Seq<char>>,
    answer: Result<Json, Failure>,
)
    ensures
        ({
            let result = update_result(issue_id, identifier, answer);
            &&& result.issue_id == issue_id
            &&& answer matches Err(failure) ==> !result.success && result.error == Some(
                failure@.shown(),
            ) && result.identifier == identifier
            &&& answer matches Ok(response) ==> {
                let updated = response@.at("data"@).at("issueUpdate"@);
                &&& result.success <==> updated.at("success"@) == JsonView::Bool(true)
                &&& result.success && updated.at("issue"@).at("identifier"@) is Text
                    ==> result.identifier == Some(updated.at("issue"@).at("identifier"@)->Text_0)
                &&& result.success && !(updated.at("issue"@).at("identifier"@) is Text)
                    ==> result.identifier == identifier
            }
        }),
{
}

/// The failures are the results that are no successes; a command fails exactly where there
/// is one, and says how many there are.
pub proof fn failures_are_counted_and_told(results: Seq<BulkResult>)
    ensures
        failures(results) == results.filter(|result: BulkResult| !result.success).len(),
        exit_failure(results) is None <==> forall|i: int|
            0 <= i < results.len() ==> (#[trigger] results[i]).success,
        exit_failure(results) matches Some(failure) ==> text::starts_with(
            failure.shown(),
            text::decimal(failures(results)) + " of "@ + text::decimal(results.len()),
        ),
        text::contains_text(
            summed_up(results),
            text::decimal((results.len() - failures(results)) as nat) + " succeeded, "@
                + text::decimal(failures(results)) + " failed"@,
        ),
{
    failures_are_filtered(results);
    no_failures_means_all_succeeded(results);
    let told = text::decimal((results.len() - failures(results)) as nat) + " succeeded, "@
        + text::decimal(failures(results)) + " failed"@;
    let whole = summed_up(results);
    let from = "Summary: "@.len() as int;
    assert(whole.subrange(from, whole.len() as int) =~= told);
    text::subrange_occurs(whole, from, whole.len() as int);
    if failures(results) > 0 {
        let shown = exit_failure(results)->0.shown();
        let start = text::decimal(failures(results)) + " of "@ + text::decimal(results.len());
        assert(shown.subrange(0, start.len() as int) =~= start);
    }
}

proof fn failures_are_filtered(results: Seq<BulkResult>)
    ensures
        failures(results) == results.filter(|result: BulkResult| !result.success).len(),
    decreases results.len(),
{
    reveal(Seq::filter);
    if results.len() > 0 {
        failures_are_filtered(results.drop_last());
    }
}

/// The report holds every result in its place, and the numbers of the successes and of the
/// failures.
pub proof fn report_holds_every_result(results: Seq<BulkResult>, action: Seq<char>, i: int)
    requires
        0 <= i < results.len(),
        results.len() <= u64::MAX,
    ensures
        ({
            let report = summary_json(results, action);
            let item = report.at("results"@).items()[i];
            &&& report.at("action"@) == JsonView::Text(action)
            &&& report.at("results"@).items().len() == results.len()
            &&& item.at("issue_id"@) == JsonView::Text(results[i]@.issue_id)
            &&& item.at("success"@) == JsonView::Bool(results[i]@.success)
            &&& item.at("identifier"@) == JsonView::opt_text(results[i]@.identifier)
            &&& item.at("error"@) == JsonView::opt_text(results[i]@.error)
            &&& report.at("summary"@).at("total"@).as_u64() == Some(results.len() as u64)
            &&& report.at("summary"@).at("failed"@).as_u64() == Some(failures(results) as u64)
            &&& report.at("summary"@).at("succeeded"@).as_u64() == Some(
                (results.len() - failures(results)) as u64,
            )
        }),
{
    broadcast use json::group_fields;

    reveal_strlit("action");
    reveal_strlit("results");
    reveal_strlit("summary");
    reveal_strlit("issue_id");
    reveal_strlit("identifier");
    reveal_strlit("success");
    reveal_strlit("error");
    reveal_strlit("total");
    reveal_strlit("succeeded");
    reveal_strlit("failed");
    assert("action"@.len() == 6 && "results"@.len() == 7 && "summary"@.len() == 7);
    assert("results"@[0] != "summary"@[0]);
    assert("issue_id"@.len() == 8 && "identifier"@.len() == 10 && "success"@.len() == 7
        && "error"@.len() == 5);
    assert("total"@.len() == 5 && "succeeded"@.len() == 9 && "failed"@.len() == 6);
    no_failures_means_all_succeeded(results);
}

/// The line of a result names the issue, and tells what was done or why it failed.
pub proof fn line_tells_the_result(result: BulkResultView, action: Seq<char>)
    ensures
        ({
            let line = result_line(result, action, None, None);
            &&& result.success && result.identifier is Some ==> line == "  + "@
                + result.identifier->0 + " "@ + action
            &&& result.success && result.identifier is None ==> line == "  + "@ + result.issue_id
                + " "@ + action
            &&& !result.success && result.error is Some ==> line == "  x "@ + result.issue_id
                + " failed: "@ + result.error->0
        }),
{
}

/// What is announced names the state, the user or the label, and the number of issues.
pub proof fn heading_names_what_is_done(command: BulkCommands)
    ensures
        text::contains_text(command.announced(), text::decimal(command.issue_ids().len())),
        command matches BulkCommands::UpdateState { state, .. } ==> text::contains_text(
            command.announced(),
            state@,
        ),
        command matches BulkCommands::Assign { user, .. } ==> text::contains_text(
            command.announced(),
            user@,
        ),
        command matches BulkCommands::Label { label, .. } ==> text::contains_text(
            command.announced(),
            label@,
        ),
{
    let line = command.announced();
    let count = text::decimal(command.issue_ids().len());
    match command {
        BulkCommands::UpdateState { state, .. } => {
            let from = "Updating state to '"@.len() as int;
            assert(line.subrange(from, from + state@.len()) =~= state@);
            text::subrange_occurs(line, from, from + state@.len());
            let at = from + state@.len() + "' for "@.len();
            assert(line.subrange(at, at + count.len()) =~= count);
            text::subrange_occurs(line, at, at + count.len());
        },
        BulkCommands::Assign { user, .. } => {
            let from = "Assigning "@.len() as int;
            assert(line.subrange(from, from + count.len()) =~= count);
            text::subrange_occurs(line, from, from + count.len());
            let at = from + count.len() + " issues to '"@.len();
            assert(line.subrange(at, at + user@.len()) =~= user@);
            text::subrange_occurs(line, at, at + user@.len());
        },
        BulkCommands::Label { label, .. } => {
            let from = "Adding label '"@.len() as int;
            assert(line.subrange(from, from + label@.len()) =~= label@);
            text::subrange_occurs(line, from, from + label@.len());
            let at = from + label@.len() + "' to "@.len();
            assert(line.subrange(at, at + count.len()) =~= count);
            text::subrange_occurs(line, at, at + count.len());
        },
        BulkCommands::Unassign { .. } => {
            let from = "Unassigning "@.len() as int;
            assert(line.subrange(from, from + count.len()) =~= count);
            text::subrange_occurs(line, from, from + count.len());
        },
    }
}

/// A name that cannot be resolved is told with what it should name, and with the kind and the
/// delay of the error behind it.
pub proof fn unresolved_name_is_told(what: Seq<char>, name: Seq<char>, failure: FailureView)
    ensures
        unresolved(what, name, failure).cli_error() is Some <==> failure.cli_error() is Some,
        failure.cli_error() matches Some(before) ==> {
            let after = unresolved(what, name, failure).cli_error()->0;
            &&& after.kind == before.kind
            &&& after.details == before.details
            &&& after.retry_after == before.retry_after
            &&& text::contains_text(after.message, name)
            &&& text::contains_text(after.message, what)
        },
        failure.cli_error() is None ==> text::contains_text(
            unresolved(what, name, failure).shown(),
            name,
        ) && text::contains_text(unresolved(what, name, failure).shown(), what),
{
    let message = "Failed to resolve "@ + what + " '"@ + name + ("': "@ + failure.shown());
    let from = "Failed to resolve "@.len() as int;
    let to = from + what.len();
    assert(message.subrange(from, to) =~= what);
    text::subrange_occurs(message, from, to);
    let start = to + " '"@.len();
    assert(message.subrange(start, start + name.len()) =~= name);
    text::subrange_occurs(message, start, start + name.len());
}

} // verus!
