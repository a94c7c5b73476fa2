//! The objects of the API that commands show, read from JSON.
//!
//! A field that may be missing may also be null; a field of the wrong type makes
//! the object unreadable. Other fields are passed over.
use vstd::prelude::*;
use vstd::string::*;

use crate::json;
use crate::json::{Json, JsonNumber, JsonNumberView, JsonView};

verus! {

/// A text that may be missing: nothing where the value is neither.
pub open spec fn maybe_text(value: JsonView) -> Option<Option<Seq<char>>> {
    match value {
        JsonView::Null => Some(None),
        JsonView::Text(s) => Some(Some(s)),
        _ => None,
    }
}

pub open spec fn maybe_integer(value: JsonView) -> Option<Option<i64>> {
    match value {
        JsonView::Null => Some(None),
        _ => match value.as_i64() {
            Some(n) => Some(Some(n)),
            None => None,
        },
    }
}

pub open spec fn maybe_number(value: JsonView) -> Option<Option<JsonNumberView>> {
    match value {
        JsonView::Null => Some(None),
        JsonView::Number(n) => Some(Some(n)),
        _ => None,
    }
}

fn read_maybe_text(value: &Json) -> (r: Option<Option<String>>)
    ensures
        r.deep_view() == maybe_text(value@),
{
    match value {
        Json::Null => Some(None),
        Json::Text(s) => Some(Some(s.clone())),
        _ => None,
    }
}

fn read_maybe_integer(value: &Json) -> (r: Option<Option<i64>>)
    ensures
        r == maybe_integer(value@),
{
    if value.is_null() {
        return Some(None);
    }
    match value.as_i64() {
        Some(n) => Some(Some(n)),
        None => None,
    }
}

pub open spec fn number_view(n: Option<JsonNumber>) -> Option<JsonNumberView> {
    match n {
        Some(n) => Some(n@),
        None => None,
    }
}

fn read_maybe_number(value: &Json) -> (r: Option<Option<JsonNumber>>)
    ensures
        match r {
            Some(n) => maybe_number(value@) == Some(number_view(n)),
            None => maybe_number(value@) is None,
        },
{
    match value {
        Json::Null => Some(None),
        Json::Number(n) => Some(Some(json::copy_number(n))),
        _ => None,
    }
}

/// The state of an issue in its team's workflow.
#[derive(Debug)]
pub struct WorkflowState {
    pub id: String,
    pub name: String,
    pub state_type: Option<String>,
}

#[verifier::ext_equal]
pub struct WorkflowStateView {
    pub id: Seq<char>,
    pub name: Seq<char>,
    pub state_type: Option<Seq<char>>,
}

impl View for WorkflowState {
    type V = WorkflowStateView;

    open spec fn view(&self) -> WorkflowStateView {
        WorkflowStateView {
            id: self.id@,
            name: self.name@,
            state_type: self.state_type.deep_view(),
        }
    }
}

impl DeepView for WorkflowState {
    type V = WorkflowStateView;

    open spec fn deep_view(&self) -> WorkflowStateView {
        self@
    }
}

pub open spec fn workflow_state(value: JsonView) -> Option<WorkflowStateView> {
    match (
        value.at("id"@).as_str(),
        value.at("name"@).as_str(),
        maybe_text(value.at("type"@)),
    ) {
        (Some(id), Some(name), Some(state_type)) => Some(
            WorkflowStateView { id, name, state_type },
        ),
        _ => None,
    }
}

pub fn read_workflow_state(value: &Json) -> (r: Option<WorkflowState>)
    ensures
        r.deep_view() == workflow_state(value@),
{
    match (
        value.at("id").as_text(),
        value.at("name").as_text(),
        read_maybe_text(value.at("type")),
    ) {
        (Some(id), Some(name), Some(state_type)) => Some(WorkflowState { id, name, state_type }),
        _ => None,
    }
}

/// A mention of an issue.
#[derive(Debug)]
pub struct IssueRef {
    pub id: String,
    pub identifier: String,
    pub title: Option<String>,
    pub state: Option<WorkflowState>,
}

#[verifier::ext_equal]
pub struct IssueRefView {
    pub id: Seq<char>,
    pub identifier: Seq<char>,
    pub title: Option<Seq<char>>,
    pub state: Option<WorkflowStateView>,
}

impl View for IssueRef {
    type V = IssueRefView;

    open spec fn view(&self) -> IssueRefView {
        IssueRefView {
            id: self.id@,
            identifier: self.identifier@,
            title: self.title.deep_view(),
            state: self.state.deep_view(),
        }
    }
}

impl DeepView for IssueRef {
    type V = IssueRefView;

    open spec fn deep_view(&self) -> IssueRefView {
        self@
    }
}

pub open spec fn maybe_state(value: JsonView) -> Option<Option<WorkflowStateView>> {
    match value {
        JsonView::Null => Some(None),
        _ => match workflow_state(value) {
            Some(state) => Some(Some(state)),
            None => None,
        },
    }
}

fn read_maybe_state(value: &Json) -> (r: Option<Option<WorkflowState>>)
    ensures
        r.deep_view() == maybe_state(value@),
{
    if value.is_null() {
        return Some(None);
    }
    match read_workflow_state(value) {
        Some(state) => Some(Some(state)),
        None => None,
    }
}

pub open spec fn issue_ref(value: JsonView) -> Option<IssueRefView> {
    match (
        value.at("id"@).as_str(),
        value.at("identifier"@).as_str(),
        maybe_text(value.at("title"@)),
        maybe_state(value.at("state"@)),
    ) {
        (Some(id), Some(identifier), Some(title), Some(state)) => Some(
            IssueRefView { id, identifier, title, state },
        ),
        _ => None,
    }
}

pub fn read_issue_ref(value: &Json) -> (r: Option<IssueRef>)
    ensures
        r.deep_view() == issue_ref(value@),
{
    match (
        value.at("id").as_text(),
        value.at("identifier").as_text(),
        read_maybe_text(value.at("title")),
        read_maybe_state(value.at("state")),
    ) {
        (Some(id), Some(identifier), Some(title), Some(state)) => Some(
            IssueRef { id, identifier, title, state },
        ),
        _ => None,
    }
}

/// A relation between two issues.
#[derive(Debug)]
pub struct IssueRelation {
    pub id: String,
    pub relation_type: Option<String>,
    pub related_issue: Option<IssueRef>,
    pub issue: Option<IssueRef>,
}

#[verifier::ext_equal]
pub struct IssueRelationView {
    pub id: Seq<char>,
    pub relation_type: Option<Seq<char>>,
    pub related_issue: Option<IssueRefView>,
    pub issue: Option<IssueRefView>,
}

impl View for IssueRelation {
    type V = IssueRelationView;

    open spec fn view(&self) -> IssueRelationView {
        IssueRelationView {
            id: self.id@,
            relation_type: self.relation_type.deep_view(),
            related_issue: self.related_issue.deep_view(),
            issue: self.issue.deep_view(),
        }
    }
}

impl DeepView for IssueRelation {
    type V = IssueRelationView;

    open spec fn deep_view(&self) -> IssueRelationView {
        self@
    }
}

pub open spec fn maybe_issue(value: JsonView) -> Option<Option<IssueRefView>> {
    match value {
        JsonView::Null => Some(None),
        _ => match issue_ref(value) {
            Some(issue) => Some(Some(issue)),
            None => None,
        },
    }
}

fn read_maybe_issue(value: &Json) -> (r: Option<Option<IssueRef>>)
    ensures
        r.deep_view() == maybe_issue(value@),
{
    if value.is_null() {
        return Some(None);
    }
    match read_issue_ref(value) {
        Some(issue) => Some(Some(issue)),
        None => None,
    }
}

pub open spec fn issue_relation(value: JsonView) -> Option<IssueRelationView> {
    match (
        value.at("id"@).as_str(),
        maybe_text(value.at("type"@)),
        maybe_issue(value.at("relatedIssue"@)),
        maybe_issue(value.at("issue"@)),
    ) {
        (Some(id), Some(relation_type), Some(related_issue), Some(issue)) => Some(
            IssueRelationView { id, relation_type, related_issue, issue },
        ),
        _ => None,
    }
}

pub fn read_issue_relation(value: &Json) -> (r: Option<IssueRelation>)
    ensures
        r.deep_view() == issue_relation(value@),
{
    match (
        value.at("id").as_text(),
        read_maybe_text(value.at("type")),
        read_maybe_issue(value.at("relatedIssue")),
        read_maybe_issue(value.at("issue")),
    ) {
        (Some(id), Some(relation_type), Some(related_issue), Some(issue)) => Some(
            IssueRelation { id, relation_type, related_issue, issue },
        ),
        _ => None,
    }
}

/// A relation to an issue whose state has no ID is unreadable.
pub proof fn relation_needs_the_state_id(value: JsonView)
    requires
        value.at("relatedIssue"@).at("state"@) is Object,
        value.at("relatedIssue"@).at("state"@).at("id"@).as_str() is None,
    ensures
        issue_relation(value) is None,
{
}

/// A comment on an issue.
#[derive(Debug)]
pub struct Comment {
    pub id: String,
    pub body: Option<String>,
    pub created_at: Option<String>,
    /// Name of the author.
    pub user: Option<String>,
}

#[verifier::ext_equal]
pub struct CommentView {
    pub id: Seq<char>,
    pub body: Option<Seq<char>>,
    pub created_at: Option<Seq<char>>,
    pub user: Option<Seq<char>>,
}

impl View for Comment {
    type V = CommentView;

    open spec fn view(&self) -> CommentView {
        CommentView {
            id: self.id@,
            body: self.body.deep_view(),
            created_at: self.created_at.deep_view(),
            user: self.user.deep_view(),
        }
    }
}

impl DeepView for Comment {
    type V = CommentView;

    open spec fn deep_view(&self) -> CommentView {
        self@
    }
}

pub open spec fn maybe_name(value: JsonView) -> Option<Option<Seq<char>>> {
    match value {
        JsonView::Null => Some(None),
        _ => match value.at("name"@).as_str() {
            Some(name) => Some(Some(name)),
            None => None,
        },
    }
}

fn read_maybe_name(value: &Json) -> (r: Option<Option<String>>)
    ensures
        r.deep_view() == maybe_name(value@),
{
    if value.is_null() {
        return Some(None);
    }
    match value.at("name").as_text() {
        Some(name) => Some(Some(name)),
        None => None,
    }
}

pub open spec fn comment(value: JsonView) -> Option<CommentView> {
    match (
        value.at("id"@).as_str(),
        maybe_text(value.at("body"@)),
        maybe_text(value.at("createdAt"@)),
        maybe_name(value.at("user"@)),
    ) {
        (Some(id), Some(body), Some(created_at), Some(user)) => Some(
            CommentView { id, body, created_at, user },
        ),
        _ => None,
    }
}

pub fn read_comment(value: &Json) -> (r: Option<Comment>)
    ensures
        r.deep_view() == comment(value@),
{
    match (
        value.at("id").as_text(),
        read_maybe_text(value.at("body")),
        read_maybe_text(value.at("createdAt")),
        read_maybe_name(value.at("user")),
    ) {
        (Some(id), Some(body), Some(created_at), Some(user)) => Some(
            Comment { id, body, created_at, user },
        ),
        _ => None,
    }
}

/// A cycle of a team.
#[derive(Debug)]
pub struct Cycle {
    pub id: String,
    pub name: Option<String>,
    pub number: Option<i64>,
    pub description: Option<String>,
    pub starts_at: Option<String>,
    pub ends_at: Option<String>,
    pub completed_at: Option<String>,
    /// The part that is done, from nothing to one.
    pub progress: Option<JsonNumber>,
}

#[verifier::ext_equal]
pub struct CycleView {
    pub id: Seq<char>,
    pub name: Option<Seq<char>>,
    pub number: Option<i64>,
    pub description: Option<Seq<char>>,
    pub starts_at: Option<Seq<char>>,
    pub ends_at: Option<Seq<char>>,
    pub completed_at: Option<Seq<char>>,
    pub progress: Option<JsonNumberView>,
}

impl View for Cycle {
    type V = CycleView;

    open spec fn view(&self) -> CycleView {
        CycleView {
            id: self.id@,
            name: self.name.deep_view(),
            number: self.number,
            description: self.description.deep_view(),
            starts_at: self.starts_at.deep_view(),
            ends_at: self.ends_at.deep_view(),
            completed_at: self.completed_at.deep_view(),
            progress: number_view(self.progress),
        }
    }
}

impl DeepView for Cycle {
    type V = CycleView;

    open spec fn deep_view(&self) -> CycleView {
        self@
    }
}

pub open spec fn cycle(value: JsonView) -> Option<CycleView> {
    let texts = (
        value.at("id"@).as_str(),
        maybe_text(value.at("name"@)),
        maybe_text(value.at("description"@)),
    );
    let dates = (
        maybe_text(value.at("startsAt"@)),
        maybe_text(value.at("endsAt"@)),
        maybe_text(value.at("completedAt"@)),
    );
    let numbers = (maybe_integer(value.at("number"@)), maybe_number(value.at("progress"@)));
    match (texts, dates, numbers) {
        (
            (Some(id), Some(name), Some(description)),
            (Some(starts_at), Some(ends_at), Some(completed_at)),
            (Some(number), Some(progress)),
        ) => Some(
            CycleView {
                id,
                name,
                number,
                description,
                starts_at,
                ends_at,
                completed_at,
                progress,
            },
        ),
        _ => None,
    }
}

pub fn read_cycle(value: &Json) -> (r: Option<Cycle>)
    ensures
        r.deep_view() == cycle(value@),
{
    let texts = (
        value.at("id").as_text(),
        read_maybe_text(value.at("name")),
        read_maybe_text(value.at("description")),
    );
    let dates = (
        read_maybe_text(value.at("startsAt")),
        read_maybe_text(value.at("endsAt")),
        read_maybe_text(value.at("completedAt")),
    );
    let numbers = (
        read_maybe_integer(value.at("number")),
        read_maybe_number(value.at("progress")),
    );
    match (texts, dates, numbers) {
        (
            (Some(id), Some(name), Some(description)),
            (Some(starts_at), Some(ends_at), Some(completed_at)),
            (Some(number), Some(progress)),
        ) => Some(
            Cycle {
                id,
                name,
                number,
                description,
                starts_at,
                ends_at,
                completed_at,
                progress,
            },
        ),
        _ => None,
    }
}

/// A field may be left out or be a text, and is read as what it is.
pub open spec fn read_as(value: JsonView, read: Option<Seq<char>>) -> bool {
    match read {
        Some(s) => value == JsonView::Text(s),
        None => value is Null,
    }
}

/// What is read of a cycle stands in the fields of the same names.
pub proof fn cycle_is_read_field_by_field(value: JsonView)
    ensures
        cycle(value) matches Some(read) ==> {
            &&& value.at("id"@) == JsonView::Text(read.id)
            &&& read_as(value.at("name"@), read.name)
            &&& read_as(value.at("description"@), read.description)
            &&& read_as(value.at("startsAt"@), read.starts_at)
            &&& read_as(value.at("endsAt"@), read.ends_at)
            &&& read_as(value.at("completedAt"@), read.completed_at)
            &&& read.number matches Some(n) ==> value.at("number"@).as_i64() == Some(n)
            &&& read.number is None ==> value.at("number"@) is Null
            &&& read.progress matches Some(n) ==> value.at("progress"@) == JsonView::Number(n)
            &&& read.progress is None ==> value.at("progress"@) is Null
        },
        !(value.at("id"@) is Text) ==> cycle(value) is None,
{
}

/// What is read of a comment stands in the fields of the same names, and its author is the
/// name of its user.
pub proof fn comment_is_read_field_by_field(value: JsonView)
    ensures
        comment(value) matches Some(read) ==> {
            &&& value.at("id"@) == JsonView::Text(read.id)
            &&& read_as(value.at("body"@), read.body)
            &&& read_as(value.at("createdAt"@), read.created_at)
            &&& read.user matches Some(name) ==> value.at("user"@).at("name"@) == JsonView::Text(
                name,
            )
            &&& read.user is None ==> value.at("user"@) is Null
        },
        !(value.at("id"@) is Text) ==> comment(value) is None,
{
}

/// What is read of a mention of an issue, and of its state, stands in the fields of the same
/// names.
pub proof fn mention_is_read_field_by_field(value: JsonView)
    ensures
        issue_ref(value) matches Some(read) ==> {
            &&& value.at("id"@) == JsonView::Text(read.id)
            &&& value.at("identifier"@) == JsonView::Text(read.identifier)
            &&& read_as(value.at("title"@), read.title)
            &&& read.state is None ==> value.at("state"@) is Null
            &&& read.state matches Some(state) ==> {
                &&& value.at("state"@).at("id"@) == JsonView::Text(state.id)
                &&& value.at("state"@).at("name"@) == JsonView::Text(state.name)
                &&& read_as(value.at("state"@).at("type"@), state.state_type)
            }
        },
        workflow_state(value) matches Some(state) ==> {
            &&& value.at("id"@) == JsonView::Text(state.id)
            &&& value.at("name"@) == JsonView::Text(state.name)
            &&& read_as(value.at("type"@), state.state_type)
        },
{
}

/// What is read of a relation stands in the fields of the same names: the issue that it goes
/// out from and the one that it leads to are not exchanged.
pub proof fn relation_is_read_field_by_field(value: JsonView)
    ensures
        issue_relation(value) matches Some(read) ==> {
            &&& value.at("id"@) == JsonView::Text(read.id)
            &&& read_as(value.at("type"@), read.relation_type)
            &&& read.related_issue is None ==> value.at("relatedIssue"@) is Null
            &&& read.related_issue matches Some(issue) ==> value.at("relatedIssue"@).at("id"@)
                == JsonView::Text(issue.id) && value.at("relatedIssue"@).at("identifier"@)
                == JsonView::Text(issue.identifier)
            &&& read.issue is None ==> value.at("issue"@) is Null
            &&& read.issue matches Some(issue) ==> value.at("issue"@).at("id"@) == JsonView::Text(
                issue.id,
            ) && value.at("issue"@).at("identifier"@) == JsonView::Text(issue.identifier)
        },
{
}

/// A value is missing or is a text.
pub open spec fn is_text_or_missing(value: JsonView) -> bool {
    value is Null || value is Text
}

/// An object with an ID whose other fields are missing or of their type is read.
pub proof fn well_typed_objects_are_read(value: JsonView)
    requires
        value.at("id"@) is Text,
    ensures
        is_text_or_missing(value.at("name"@)) && is_text_or_missing(value.at("description"@))
            && is_text_or_missing(value.at("startsAt"@)) && is_text_or_missing(value.at("endsAt"@))
            && is_text_or_missing(value.at("completedAt"@)) && (value.at("number"@) is Null
            || value.at("number"@).as_i64() is Some) && (value.at("progress"@) is Null || value.at(
            "progress"@,
        ) is Number) ==> cycle(value) is Some,
        is_text_or_missing(value.at("body"@)) && is_text_or_missing(value.at("createdAt"@)) && (
        value.at("user"@) is Null || value.at("user"@).at("name"@) is Text) ==> comment(
            value,
        ) is Some,
        value.at("name"@) is Text && is_text_or_missing(value.at("type"@)) ==> workflow_state(
            value,
        ) is Some,
        value.at("identifier"@) is Text && is_text_or_missing(value.at("title"@)) && (value.at(
            "state"@,
        ) is Null || workflow_state(value.at("state"@)) is Some) ==> issue_ref(value) is Some,
        is_text_or_missing(value.at("type"@)) && (value.at("relatedIssue"@) is Null || issue_ref(
            value.at("relatedIssue"@),
        ) is Some) && (value.at("issue"@) is Null || issue_ref(value.at("issue"@)) is Some)
            ==> issue_relation(value) is Some,
{
}

} // verus!
