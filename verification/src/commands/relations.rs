//! Relations between issues, and parents.
use vstd::prelude::*;
use vstd::string::*;

use crate::api::{Request, RequestView};
use crate::error::{Failure, FailureView};
use crate::json;
use crate::json::{Json, JsonView};
use crate::text;
use crate::text::{joined2, joined4, joined5, same_text};
use crate::types;
use crate::types::{IssueRef, IssueRefView};

verus! {

#[derive(Debug, Copy, Clone, PartialEq, Eq, Structural)]
pub enum RelationType {
    /// Issue blocks another
    Blocks,
    /// Issue is blocked by another
    BlockedBy,
    /// Related issues
    Related,
    /// Duplicate of another issue
    Duplicate,
}

impl RelationType {
    pub open spec fn api_name(self) -> Seq<char> {
        match self {
            RelationType::Blocks | RelationType::BlockedBy => "blocks"@,
            RelationType::Related => "related"@,
            RelationType::Duplicate => "duplicate"@,
        }
    }

    pub open spec fn shown_name(self) -> Seq<char> {
        match self {
            RelationType::Blocks => "blocks"@,
            RelationType::BlockedBy => "blocked-by"@,
            RelationType::Related => "related"@,
            RelationType::Duplicate => "duplicate"@,
        }
    }

    /// Linear's relation types are `blocks`, `related` and `duplicate` only.
    /// There is no `blockedBy`: "A is blocked by B" is stored as "B blocks A".
    pub fn to_api_string(self) -> (r: &'static str)
        ensures
            r@ == self.api_name(),
    {
        match self {
            RelationType::Blocks | RelationType::BlockedBy => "blocks",
            RelationType::Related => "related",
            RelationType::Duplicate => "duplicate",
        }
    }

    /// Whether this relation is the inverse of the API's direction.
    pub fn is_inverted(self) -> (r: bool)
        ensures
            r == (self == RelationType::BlockedBy),
    {
        matches!(self, RelationType::BlockedBy)
    }

    pub fn display_name(self) -> (r: &'static str)
        ensures
            r@ == self.shown_name(),
    {
        match self {
            RelationType::Blocks => "blocks",
            RelationType::BlockedBy => "blocked-by",
            RelationType::Related => "related",
            RelationType::Duplicate => "duplicate",
        }
    }
}

/// The issue, the related issue and the type that a relation is stored with.
pub open spec fn endpoints(from: Seq<char>, relation: RelationType, to: Seq<char>) -> (
    Seq<char>,
    Seq<char>,
    Seq<char>,
) {
    if relation == RelationType::BlockedBy {
        (to, from, "blocks"@)
    } else {
        (from, to, relation.api_name())
    }
}

/// Resolves the issues and the type of a relation that is created.
///
/// `blocked-by` is sugar for inverted `blocks`: `A blocked-by B` is `B blocks A`.
pub fn resolve_relation_endpoints<'a>(from: &'a str, relation: RelationType, to: &'a str) -> (r: (
    &'a str,
    &'a str,
    &'static str,
))
    ensures
        (r.0@, r.1@, r.2@) == endpoints(from@, relation, to@),
{
    if relation.is_inverted() {
        (to, from, "blocks")
    } else {
        (from, to, relation.to_api_string())
    }
}

/// That one issue is blocked by another is stored as that the other blocks it,
/// and every other relation is stored as it is given.
pub proof fn blocked_by_is_inverted_blocks(
    a: Seq<char>,
    b: Seq<char>,
    relation: RelationType,
)
    ensures
        endpoints(a, RelationType::BlockedBy, b) == endpoints(b, RelationType::Blocks, a),
        relation != RelationType::BlockedBy ==> endpoints(a, relation, b) == (
            a,
            b,
            relation.shown_name(),
        ),
{
}

#[derive(Debug)]
pub enum RelationCommands {
    /// List issue relationships
    List {
        /// Issue identifier (e.g., LIN-123)
        id: String,
    },
    /// Add a relationship between issues
    Add {
        /// Source issue identifier
        from: String,
        relation: RelationType,
        /// Target issue identifier
        to: String,
    },
    /// Remove a relationship between issues
    Remove {
        /// Relation ID to remove
        id: String,
    },
    /// Set parent issue
    Parent {
        /// Child issue identifier
        child: String,
        /// Parent issue identifier
        parent: String,
    },
    /// Remove parent from issue
    Unparent {
        /// Issue identifier
        id: String,
    },
}

pub const LIST_QUERY: &'static str = r#"
        query($id: String!) {
            issue(id: $id) {
                id
                identifier
                title
                parent {
                    id
                    identifier
                    title
                    state { id name }
                }
                children {
                    nodes {
                        id
                        identifier
                        title
                        state { id name }
                    }
                }
                relations {
                    nodes {
                        id
                        type
                        relatedIssue {
                            id
                            identifier
                            title
                            state { id name }
                        }
                    }
                }
                inverseRelations {
                    nodes {
                        id
                        type
                        issue {
                            id
                            identifier
                            title
                            state { id name }
                        }
                    }
                }
            }
        }
    "#;

pub const ADD_MUTATION: &'static str = r#"
        mutation($issueId: String!, $relatedIssueId: String!, $type: IssueRelationType!) {
            issueRelationCreate(input: {
                issueId: $issueId
                relatedIssueId: $relatedIssueId
                type: $type
            }) {
                success
                issueRelation {
                    id
                    type
                    issue { identifier }
                    relatedIssue { identifier }
                }
            }
        }
    "#;

pub const REMOVE_MUTATION: &'static str = r#"
        mutation($id: String!) {
            issueRelationDelete(id: $id) {
                success
            }
        }
    "#;

pub const PARENT_MUTATION: &'static str = r#"
        mutation($id: String!, $parentId: String!) {
            issueUpdate(id: $id, input: { parentId: $parentId }) {
                success
                issue {
                    id
                    identifier
                    parent { identifier title }
                }
            }
        }
    "#;

pub const UNPARENT_MUTATION: &'static str = r#"
        mutation($id: String!) {
            issueUpdate(id: $id, input: { parentId: null }) {
                success
                issue {
                    id
                    identifier
                }
            }
        }
    "#;

pub open spec fn id_variables(id: Seq<char>) -> JsonView {
    JsonView::object().with("id"@, JsonView::Text(id))
}

impl RelationCommands {
    pub open spec fn request_view(self) -> RequestView {
        match self {
            RelationCommands::List { id } => RequestView::with(LIST_QUERY@, id_variables(id@)),
            RelationCommands::Add { from, relation, to } => {
                let (issue, related, name) = endpoints(from@, relation, to@);
                RequestView::with(
                    ADD_MUTATION@,
                    JsonView::object().with("issueId"@, JsonView::Text(issue)).with(
                        "relatedIssueId"@,
                        JsonView::Text(related),
                    ).with("type"@, JsonView::Text(name)),
                )
            },
            RelationCommands::Remove { id } => RequestView::with(
                REMOVE_MUTATION@,
                id_variables(id@),
            ),
            RelationCommands::Parent { child, parent } => RequestView::with(
                PARENT_MUTATION@,
                id_variables(child@).with("parentId"@, JsonView::Text(parent@)),
            ),
            RelationCommands::Unparent { id } => RequestView::with(
                UNPARENT_MUTATION@,
                id_variables(id@),
            ),
        }
    }

    /// The request that a command sends.
    pub fn request(&self) -> (r: Request)
        ensures
            r@ == self.request_view(),
    {
        match self {
            RelationCommands::List { id } => Request::with(
                LIST_QUERY,
                Json::object().with("id", Json::text(id.as_str())),
            ),
            RelationCommands::Add { from, relation, to } => {
                let (issue, related, name) = resolve_relation_endpoints(
                    from.as_str(),
                    *relation,
                    to.as_str(),
                );
                Request::with(
                    ADD_MUTATION,
                    Json::object().with("issueId", Json::text(issue)).with(
                        "relatedIssueId",
                        Json::text(related),
                    ).with("type", Json::text(name)),
                )
            },
            RelationCommands::Remove { id } => Request::with(
                REMOVE_MUTATION,
                Json::object().with("id", Json::text(id.as_str())),
            ),
            RelationCommands::Parent { child, parent } => Request::with(
                PARENT_MUTATION,
                Json::object().with("id", Json::text(child.as_str())).with(
                    "parentId",
                    Json::text(parent.as_str()),
                ),
            ),
            RelationCommands::Unparent { id } => Request::with(
                UNPARENT_MUTATION,
                Json::object().with("id", Json::text(id.as_str())),
            ),
        }
    }

    /// The field of the answer that a command reports.
    /// The part of an answer that reports on a command.
    pub open spec fn report_in(self, response: JsonView) -> JsonView {
        response.at("data"@).at(self.field())
    }

    pub open spec fn field(self) -> Seq<char> {
        match self {
            RelationCommands::List { .. } => "issue"@,
            RelationCommands::Add { .. } => "issueRelationCreate"@,
            RelationCommands::Remove { .. } => "issueRelationDelete"@,
            RelationCommands::Parent { .. } => "issueUpdate"@,
            RelationCommands::Unparent { .. } => "issueUpdate"@,
        }
    }

    /// The part of the answer that a command reports as JSON.
    pub fn reported<'a>(&self, response: &'a Json) -> (r: &'a Json)
        ensures
            r@ == self.report_in(response@),
    {
        let data = response.at("data");
        match self {
            RelationCommands::List { .. } => data.at("issue"),
            RelationCommands::Add { .. } => data.at("issueRelationCreate"),
            RelationCommands::Remove { .. } => data.at("issueRelationDelete"),
            RelationCommands::Parent { .. } => data.at("issueUpdate"),
            RelationCommands::Unparent { .. } => data.at("issueUpdate"),
        }
    }
}

/// The line that reports a relation that was created: in the order in which it
/// was given.
pub open spec fn created_line(
    from: Seq<char>,
    relation: RelationType,
    to: Seq<char>,
    created: JsonView,
) -> Seq<char> {
    let stored = created.at("issueRelation"@);
    let inverted = relation == RelationType::BlockedBy;
    let first = if inverted {
        "relatedIssue"@
    } else {
        "issue"@
    };
    let second = if inverted {
        "issue"@
    } else {
        "relatedIssue"@
    };
    "Created relation: "@ + stored.at(first).at("identifier"@).text_or(from) + (" "@
        + relation.shown_name() + " "@) + stored.at(second).at("identifier"@).text_or(to)
}

/// The line that reports what a command did, for those that change something.
pub open spec fn done_line(command: RelationCommands, reported: JsonView) -> Option<
    Seq<char>,
> {
    match command {
        RelationCommands::List { .. } => None,
        RelationCommands::Add { from, relation, to } => Some(
            created_line(from@, relation, to@, reported),
        ),
        RelationCommands::Remove { .. } => Some("Relation removed"@),
        RelationCommands::Parent { child, parent } => {
            let issue = reported.at("issue"@);
            Some(
                "Set parent of "@ + issue.at("identifier"@).text_or(child@) + " to "@ + issue.at(
                    "parent"@,
                ).at("identifier"@).text_or(parent@) + (" ("@ + issue.at("parent"@).at(
                    "title"@,
                ).text_or(""@) + ")"@),
            )
        },
        RelationCommands::Unparent { id } => Some(
            "Removed parent from "@ + reported.at("issue"@).at("identifier"@).text_or(id@),
        ),
    }
}

pub fn done_message(command: &RelationCommands, response: &Json) -> (r: Option<String>)
    ensures
        r.deep_view() == done_line(*command, command.report_in(response@)),
{
    let reported = command.reported(response);
    let line = match command {
        RelationCommands::List { .. } => {
            return None;
        },
        RelationCommands::Add { from, relation, to } => {
            let stored = reported.at("issueRelation");
            let (first, second) = if relation.is_inverted() {
                ("relatedIssue", "issue")
            } else {
                ("issue", "relatedIssue")
            };
            let from_id = stored.at(first).at("identifier").text_or(from.as_str());
            let to_id = stored.at(second).at("identifier").text_or(to.as_str());
            joined4(
                "Created relation: ",
                from_id.as_str(),
                text::joined3(" ", relation.display_name(), " ").as_str(),
                to_id.as_str(),
            )
        },
        RelationCommands::Remove { .. } => "Relation removed".to_string(),
        RelationCommands::Parent { child, parent } => {
            let issue = reported.at("issue");
            joined5(
                "Set parent of ",
                issue.at("identifier").text_or(child.as_str()).as_str(),
                " to ",
                issue.at("parent").at("identifier").text_or(parent.as_str()).as_str(),
                text::joined3(
                    " (",
                    issue.at("parent").at("title").text_or("").as_str(),
                    ")",
                ).as_str(),
            )
        },
        RelationCommands::Unparent { id } => joined2(
            "Removed parent from ",
            reported.at("issue").at("identifier").text_or(id.as_str()).as_str(),
        ),
    };
    Some(line)
}

/// The answer to `blocked-by` is reported from the side of the issue that was
/// named first.
pub proof fn created_relation_is_shown_as_given(
    from: Seq<char>,
    to: Seq<char>,
    created: JsonView,
)
    requires
        created.at("issueRelation"@).at("issue"@).at("identifier"@) == JsonView::Text(to),
        created.at("issueRelation"@).at("relatedIssue"@).at("identifier"@) == JsonView::Text(from),
    ensures
        created_line(from, RelationType::BlockedBy, to, created) == "Created relation: "@ + from + (
        " "@ + "blocked-by"@ + " "@) + to,
{
}

/// How a relation is shown.
#[derive(Debug)]
pub enum RelationLabel {
    Blocks,
    BlockedBy,
    Duplicate,
    Related,
    Other(String),
    Missing,
}

#[verifier::ext_equal]
pub enum RelationLabelView {
    Blocks,
    BlockedBy,
    Duplicate,
    Related,
    Other(Seq<char>),
    Missing,
}

impl View for RelationLabel {
    type V = RelationLabelView;

    open spec fn view(&self) -> RelationLabelView {
        match self {
            RelationLabel::Blocks => RelationLabelView::Blocks,
            RelationLabel::BlockedBy => RelationLabelView::BlockedBy,
            RelationLabel::Duplicate => RelationLabelView::Duplicate,
            RelationLabel::Related => RelationLabelView::Related,
            RelationLabel::Other(name) => RelationLabelView::Other(name@),
            RelationLabel::Missing => RelationLabelView::Missing,
        }
    }
}

impl RelationLabelView {
    pub open spec fn text(self) -> Seq<char> {
        match self {
            RelationLabelView::Blocks => "blocks"@,
            RelationLabelView::BlockedBy => "blocked by"@,
            RelationLabelView::Duplicate => "duplicate"@,
            RelationLabelView::Related => "related"@,
            RelationLabelView::Other(name) => name,
            RelationLabelView::Missing => "-"@,
        }
    }

    /// The same relation from the other side.
    pub open spec fn inverse(self) -> RelationLabelView {
        match self {
            RelationLabelView::Blocks => RelationLabelView::BlockedBy,
            RelationLabelView::BlockedBy => RelationLabelView::Blocks,
            _ => self,
        }
    }
}

impl RelationLabel {
    pub fn text(&self) -> (r: String)
        ensures
            r@ == self@.text(),
    {
        match self {
            RelationLabel::Blocks => "blocks".to_string(),
            RelationLabel::BlockedBy => "blocked by".to_string(),
            RelationLabel::Duplicate => "duplicate".to_string(),
            RelationLabel::Related => "related".to_string(),
            RelationLabel::Other(name) => name.clone(),
            RelationLabel::Missing => "-".to_string(),
        }
    }
}

/// How a relation of a stored type is shown at the issue that has it.
pub open spec fn outgoing_label(relation_type: Option<Seq<char>>) -> RelationLabelView {
    match relation_type {
        Some(name) => if name == "blocks"@ {
            RelationLabelView::Blocks
        } else if name == "blockedBy"@ {
            RelationLabelView::BlockedBy
        } else if name == "duplicate"@ {
            RelationLabelView::Duplicate
        } else if name == "related"@ {
            RelationLabelView::Related
        } else {
            RelationLabelView::Other(name)
        },
        None => RelationLabelView::Missing,
    }
}

/// How a relation is shown at one of its two issues: at the related one it is
/// turned round.
pub open spec fn label_at(relation_type: Option<Seq<char>>, incoming: bool) -> RelationLabelView {
    if incoming {
        outgoing_label(relation_type).inverse()
    } else {
        outgoing_label(relation_type)
    }
}

fn label_of(relation_type: &Option<String>, incoming: bool) -> (r: RelationLabel)
    ensures
        r@ == label_at(relation_type.deep_view(), incoming),
{
    match relation_type {
        Some(name) => if same_text(name.as_str(), "blocks") {
            if incoming {
                RelationLabel::BlockedBy
            } else {
                RelationLabel::Blocks
            }
        } else if same_text(name.as_str(), "blockedBy") {
            if incoming {
                RelationLabel::Blocks
            } else {
                RelationLabel::BlockedBy
            }
        } else if same_text(name.as_str(), "duplicate") {
            RelationLabel::Duplicate
        } else if same_text(name.as_str(), "related") {
            RelationLabel::Related
        } else {
            RelationLabel::Other(name.clone())
        },
        None => RelationLabel::Missing,
    }
}

/// The two ends of a relation show it as each other's inverse.
pub proof fn ends_show_inverse_labels(relation_type: Option<Seq<char>>)
    ensures
        label_at(relation_type, true) == label_at(relation_type, false).inverse(),
        label_at(relation_type, false) == label_at(relation_type, true).inverse(),
        label_at(Some("blocks"@), false) == RelationLabelView::Blocks,
        label_at(Some("blocks"@), true) == RelationLabelView::BlockedBy,
{
}

/// One row of the table of relations.
#[derive(Debug)]
pub struct RelationRow {
    pub relation_type: RelationLabel,
    pub issue: String,
    pub title: String,
    pub status: String,
}

#[verifier::ext_equal]
pub struct RelationRowView {
    pub relation_type: RelationLabelView,
    pub issue: Seq<char>,
    pub title: Seq<char>,
    pub status: Seq<char>,
}

impl View for RelationRow {
    type V = RelationRowView;

    open spec fn view(&self) -> RelationRowView {
        RelationRowView {
            relation_type: self.relation_type@,
            issue: self.issue@,
            title: self.title@,
            status: self.status@,
        }
    }
}

pub open spec fn title_of(issue: IssueRefView, width: Option<usize>) -> Seq<char> {
    text::shortened(
        match issue.title {
            Some(title) => title,
            None => "-"@,
        },
        width,
    )
}

pub open spec fn status_of(issue: IssueRefView) -> Seq<char> {
    match issue.state {
        Some(state) => state.name,
        None => "-"@,
    }
}

fn shown_title(issue: &IssueRef, width: Option<usize>) -> (r: String)
    ensures
        r@ == title_of(issue@, width),
{
    match &issue.title {
        Some(title) => text::truncate(title.as_str(), width),
        None => text::truncate("-", width),
    }
}

fn shown_status(issue: &IssueRef) -> (r: String)
    ensures
        r@ == status_of(issue@),
{
    match &issue.state {
        Some(state) => state.name.clone(),
        None => "-".to_string(),
    }
}

/// The line of an issue in a list.
pub open spec fn issue_line(issue: IssueRefView, width: Option<usize>) -> Seq<char> {
    "  "@ + issue.identifier + " - "@ + title_of(issue, width) + (" ("@ + status_of(issue) + ")"@)
}

fn line_of_issue(issue: &IssueRef, width: Option<usize>) -> (r: String)
    ensures
        r@ == issue_line(issue@, width),
{
    joined5(
        "  ",
        issue.identifier.as_str(),
        " - ",
        shown_title(issue, width).as_str(),
        text::joined3(" (", shown_status(issue).as_str(), ")").as_str(),
    )
}

/// The row of a relation; nothing where it, or the issue at its other end, cannot
/// be read.
pub open spec fn relation_row(node: JsonView, incoming: bool, width: Option<usize>) -> Option<
    RelationRowView,
> {
    match types::issue_relation(node) {
        Some(relation) => {
            let other = if incoming {
                relation.issue
            } else {
                relation.related_issue
            };
            match other {
                Some(issue) => Some(
                    RelationRowView {
                        relation_type: label_at(relation.relation_type, incoming),
                        issue: issue.identifier,
                        title: title_of(issue, width),
                        status: status_of(issue),
                    },
                ),
                None => None,
            }
        },
        None => None,
    }
}

pub open spec fn relation_rows(nodes: Seq<JsonView>, incoming: bool, width: Option<usize>) -> Seq<
    RelationRowView,
>
    decreases nodes.len(),
{
    if nodes.len() == 0 {
        Seq::empty()
    } else {
        let before = relation_rows(nodes.drop_last(), incoming, width);
        match relation_row(nodes.last(), incoming, width) {
            Some(row) => before.push(row),
            None => before,
        }
    }
}

pub open spec fn issue_lines(nodes: Seq<JsonView>, width: Option<usize>) -> Seq<Seq<char>>
    decreases nodes.len(),
{
    if nodes.len() == 0 {
        Seq::empty()
    } else {
        let before = issue_lines(nodes.drop_last(), width);
        match types::issue_ref(nodes.last()) {
            Some(issue) => before.push(issue_line(issue, width)),
            None => before,
        }
    }
}

pub open spec fn row_views(rows: Seq<RelationRow>) -> Seq<RelationRowView> {
    Seq::new(rows.len(), |i: int| rows[i]@)
}

fn row_of_relation(node: &Json, incoming: bool, width: Option<usize>) -> (r: Option<RelationRow>)
    ensures
        match r {
            Some(row) => relation_row(node@, incoming, width) == Some(row@),
            None => relation_row(node@, incoming, width) is None,
        },
{
    match types::read_issue_relation(node) {
        Some(relation) => {
            let label = label_of(&relation.relation_type, incoming);
            let other = if incoming {
                relation.issue
            } else {
                relation.related_issue
            };
            match other {
                Some(issue) => {
                    let title = shown_title(&issue, width);
                    let status = shown_status(&issue);
                    Some(
                        RelationRow {
                            relation_type: label,
                            issue: issue.identifier,
                            title,
                            status,
                        },
                    )
                },
                None => None,
            }
        },
        None => None,
    }
}

fn add_rows(rows: &mut Vec<RelationRow>, nodes: &[Json], incoming: bool, width: Option<usize>)
    ensures
        row_views(final(rows)@) == row_views(old(rows)@) + relation_rows(
            json::json_views(nodes@),
            incoming,
            width,
        ),
{
    let ghost all = json::json_views(nodes@);
    let ghost start = row_views(rows@);
    let mut i: usize = 0;
    assert(all.take(0).len() == 0);
    assert(row_views(rows@) =~= start + relation_rows(all.take(0), incoming, width));
    while i < nodes.len()
        invariant
            i <= nodes@.len(),
            all == json::json_views(nodes@),
            row_views(rows@) == start + relation_rows(all.take(i as int), incoming, width),
        decreases nodes@.len() - i,
    {
        assert(all.take(i + 1).drop_last() =~= all.take(i as int));
        assert(all.take(i + 1).last() == nodes@[i as int]@);
        let ghost before = row_views(rows@);
        match row_of_relation(&nodes[i], incoming, width) {
            Some(row) => {
                rows.push(row);
                assert(row_views(rows@) =~= before.push(row@));
            },
            None => {},
        }
        i += 1;
        assert(row_views(rows@) =~= start + relation_rows(all.take(i as int), incoming, width));
    }
    assert(all.take(i as int) =~= all);
}

fn lines_of_issues(nodes: &[Json], width: Option<usize>) -> (r: Vec<String>)
    ensures
        r.deep_view() == issue_lines(json::json_views(nodes@), width),
{
    let ghost all = json::json_views(nodes@);
    let mut lines = text::no_texts();
    let mut i: usize = 0;
    assert(all.take(0).len() == 0);
    while i < nodes.len()
        invariant
            i <= nodes@.len(),
            all == json::json_views(nodes@),
            lines.deep_view() == issue_lines(all.take(i as int), width),
        decreases nodes@.len() - i,
    {
        assert(all.take(i + 1).drop_last() =~= all.take(i as int));
        assert(all.take(i + 1).last() == nodes@[i as int]@);
        let ghost before = lines.deep_view();
        match types::read_issue_ref(&nodes[i]) {
            Some(issue) => {
                let line = line_of_issue(&issue, width);
                lines.push(line);
                assert(lines.deep_view() =~= before.push(line@));
            },
            None => {},
        }
        i += 1;
    }
    assert(all.take(i as int) =~= all);
    lines
}

/// The relations of an issue as they are shown.
#[derive(Debug)]
pub struct RelationReport {
    pub heading: String,
    /// The line of the parent.
    pub parent: Option<String>,
    /// The lines of the children, where the issue has any.
    pub children: Option<Vec<String>>,
    /// The relations of the issue, and then those that others have to it.
    pub rows: Vec<RelationRow>,
}

#[verifier::ext_equal]
pub struct RelationReportView {
    pub heading: Seq<char>,
    pub parent: Option<Seq<char>>,
    pub children: Option<Seq<Seq<char>>>,
    pub rows: Seq<RelationRowView>,
}

impl View for RelationReport {
    type V = RelationReportView;

    open spec fn view(&self) -> RelationReportView {
        RelationReportView {
            heading: self.heading@,
            parent: self.parent.deep_view(),
            children: self.children.deep_view(),
            rows: row_views(self.rows@),
        }
    }
}

pub open spec fn relation_report(issue: JsonView, id: Seq<char>, width: Option<usize>) -> RelationReportView {
    let children = issue.at("children"@).at("nodes"@).items();
    RelationReportView {
        heading: "Relations for "@ + issue.at("identifier"@).text_or(id) + " - "@ + issue.at(
            "title"@,
        ).text_or(""@),
        parent: match types::issue_ref(issue.at("parent"@)) {
            Some(parent) => Some(issue_line(parent, width)),
            None => None,
        },
        children: if children.len() == 0 {
            None
        } else {
            Some(issue_lines(children, width))
        },
        rows: relation_rows(issue.at("relations"@).at("nodes"@).items(), false, width)
            + relation_rows(issue.at("inverseRelations"@).at("nodes"@).items(), true, width),
    }
}

/// The JSON value that reports the relations of an issue.
pub open spec fn relation_payload(issue: JsonView) -> JsonView {
    JsonView::object().with(
        "issue"@,
        JsonView::object().with("id"@, issue.at("id"@)).with(
            "identifier"@,
            issue.at("identifier"@),
        ).with("title"@, issue.at("title"@)),
    ).with("parent"@, issue.at("parent"@)).with(
        "children"@,
        issue.at("children"@).at("nodes"@),
    ).with("relations"@, issue.at("relations"@).at("nodes"@)).with(
        "inverseRelations"@,
        issue.at("inverseRelations"@).at("nodes"@),
    )
}

pub open spec fn answered_issue(response: JsonView, id: Seq<char>) -> Result<
    JsonView,
    FailureView,
> {
    let issue = response.at("data"@).at("issue"@);
    if issue is Null {
        Err(FailureView::message("Issue not found: "@ + id))
    } else {
        Ok(issue)
    }
}

/// The issue in the answer to a list command.
pub fn listed_issue<'a>(response: &'a Json, id: &str) -> (r: Result<&'a Json, Failure>)
    ensures
        match answered_issue(response@, id@) {
            Ok(issue) => r is Ok && r->Ok_0@ == issue,
            Err(failure) => r is Err && r->Err_0@ == failure,
        },
{
    let issue = response.at("data").at("issue");
    if issue.is_null() {
        return Err(Failure::message(joined2("Issue not found: ", id).as_str()));
    }
    Ok(issue)
}

pub fn list_payload(issue: &Json) -> (r: Json)
    ensures
        r@ == relation_payload(issue@),
{
    Json::object().with(
        "issue",
        Json::object().with("id", issue.at("id").copy()).with(
            "identifier",
            issue.at("identifier").copy(),
        ).with("title", issue.at("title").copy()),
    ).with("parent", issue.at("parent").copy()).with(
        "children",
        issue.at("children").at("nodes").copy(),
    ).with("relations", issue.at("relations").at("nodes").copy()).with(
        "inverseRelations",
        issue.at("inverseRelations").at("nodes").copy(),
    )
}

/// Reads the relations of an issue for showing.
pub fn list_relations(issue: &Json, id: &str, width: Option<usize>) -> (r: RelationReport)
    ensures
        r@ == relation_report(issue@, id@, width),
{
    let heading = joined4(
        "Relations for ",
        issue.at("identifier").text_or(id).as_str(),
        " - ",
        issue.at("title").text_or("").as_str(),
    );
    let parent = match types::read_issue_ref(issue.at("parent")) {
        Some(parent) => Some(line_of_issue(&parent, width)),
        None => None,
    };
    let nodes = issue.at("children").at("nodes").items();
    assert(json::json_views(nodes@).len() == nodes@.len());
    let children = if nodes.len() == 0 {
        None
    } else {
        Some(lines_of_issues(nodes, width))
    };
    let mut rows: Vec<RelationRow> = Vec::new();
    assert(row_views(rows@) =~= Seq::<RelationRowView>::empty());
    add_rows(&mut rows, issue.at("relations").at("nodes").items(), false, width);
    add_rows(&mut rows, issue.at("inverseRelations").at("nodes").items(), true, width);
    let r = RelationReport { heading, parent, children, rows };
    assert(r@.rows =~= relation_report(issue@, id@, width).rows);
    r
}

// ---------------------------------------------------------------------------
// What the commands send and show
// ---------------------------------------------------------------------------

/// A relation is created from the issue that has it to the related one: `A blocks B` from A
/// to B, and `A blocked-by B` from B to A; every other relation in the order in which it was
/// given.
pub proof fn relation_is_sent_in_its_direction(from: String, relation: RelationType, to: String)
    ensures
        ({
            let sent = RelationCommands::Add { from, relation, to }.request_view().variables;
            let (source, target) = if relation == RelationType::BlockedBy {
                (to@, from@)
            } else {
                (from@, to@)
            };
            &&& sent is Some
            &&& sent->0.at("issueId"@) == JsonView::Text(source)
            &&& sent->0.at("relatedIssueId"@) == JsonView::Text(target)
            &&& sent->0.at("type"@) == JsonView::Text(
                match relation {
                    RelationType::Blocks | RelationType::BlockedBy => "blocks"@,
                    RelationType::Related => "related"@,
                    RelationType::Duplicate => "duplicate"@,
                },
            )
        }),
{
    broadcast use json::group_fields;

    reveal_strlit("issueId");
    reveal_strlit("relatedIssueId");
    reveal_strlit("type");
    assert("issueId"@.len() == 7 && "relatedIssueId"@.len() == 14 && "type"@.len() == 4);
    let (issue, related, name) = endpoints(from@, relation, to@);
    let a = JsonView::object().with("issueId"@, JsonView::Text(issue));
    let b = a.with("relatedIssueId"@, JsonView::Text(related));
    let c = b.with("type"@, JsonView::Text(name));
    assert(a.get("issueId"@) == Some(JsonView::Text(issue)));
    assert(b.get("issueId"@) == Some(JsonView::Text(issue)));
    assert(c.get("issueId"@) == Some(JsonView::Text(issue)));
    assert(b.get("relatedIssueId"@) == Some(JsonView::Text(related)));
    assert(c.get("relatedIssueId"@) == Some(JsonView::Text(related)));
    assert(c.get("type"@) == Some(JsonView::Text(name)));
}

/// Every other command names its issue, or the relation that it removes; a parent is set on
/// the child.
pub proof fn commands_name_their_issue(id: String, child: String, parent: String)
    ensures
        ({
            let id_sent = |command: RelationCommands|
                command.request_view().variables is Some
                    && command.request_view().variables->0.at("id"@) == JsonView::Text(id@);
            let set = RelationCommands::Parent { child, parent }.request_view().variables;
            &&& id_sent(RelationCommands::List { id })
            &&& id_sent(RelationCommands::Remove { id })
            &&& id_sent(RelationCommands::Unparent { id })
            &&& set is Some
            &&& set->0.at("id"@) == JsonView::Text(child@)
            &&& set->0.at("parentId"@) == JsonView::Text(parent@)
        }),
{
    broadcast use json::group_fields;

    reveal_strlit("id");
    reveal_strlit("parentId");
    assert("id"@.len() == 2 && "parentId"@.len() == 8);
    assert(id_variables(id@).get("id"@) == Some(JsonView::Text(id@)));
    let start = id_variables(child@);
    assert(start.get("id"@) == Some(JsonView::Text(child@)));
    assert(start.with("parentId"@, JsonView::Text(parent@)).get("id"@) == Some(
        JsonView::Text(child@),
    ));
}

/// A relation is shown at the issue that has it by its type and by the related issue, and at
/// the related issue by the inverse and by the issue that has it.
pub proof fn relation_row_shows_the_other_end(node: JsonView)
    ensures
        relation_row(node, false, None) matches Some(row) ==> {
            let other = node.at("relatedIssue"@);
            &&& other.at("identifier"@) == JsonView::Text(row.issue)
            &&& other.at("title"@) is Text ==> row.title == other.at("title"@)->Text_0
            &&& other.at("state"@) is Object ==> other.at("state"@).at("name"@) == JsonView::Text(
                row.status,
            )
            &&& node.at("type"@) == JsonView::Text("blocks"@) ==> row.relation_type.text()
                == "blocks"@
            &&& node.at("type"@) == JsonView::Text("duplicate"@) ==> row.relation_type.text()
                == "duplicate"@
            &&& node.at("type"@) == JsonView::Text("related"@) ==> row.relation_type.text()
                == "related"@
        },
        relation_row(node, true, None) matches Some(row) ==> {
            let other = node.at("issue"@);
            &&& other.at("identifier"@) == JsonView::Text(row.issue)
            &&& other.at("title"@) is Text ==> row.title == other.at("title"@)->Text_0
            &&& other.at("state"@) is Object ==> other.at("state"@).at("name"@) == JsonView::Text(
                row.status,
            )
            &&& node.at("type"@) == JsonView::Text("blocks"@) ==> row.relation_type.text()
                == "blocked by"@
            &&& node.at("type"@) == JsonView::Text("duplicate"@) ==> row.relation_type.text()
                == "duplicate"@
            &&& node.at("type"@) == JsonView::Text("related"@) ==> row.relation_type.text()
                == "related"@
        },
        types::issue_relation(node) is Some && !(node.at("relatedIssue"@) is Null) ==> relation_row(
            node,
            false,
            None,
        ) is Some,
        types::issue_relation(node) is Some && !(node.at("issue"@) is Null) ==> relation_row(
            node,
            true,
            None,
        ) is Some,
{
    types::relation_is_read_field_by_field(node);
    types::mention_is_read_field_by_field(node.at("relatedIssue"@));
    types::mention_is_read_field_by_field(node.at("issue"@));
    reveal_strlit("blocks");
    reveal_strlit("blockedBy");
    reveal_strlit("duplicate");
    reveal_strlit("related");
    assert("blocks"@.len() == 6 && "blockedBy"@.len() == 9 && "duplicate"@.len() == 9
        && "related"@.len() == 7);
    assert("blockedBy"@[0] != "duplicate"@[0]);
}

/// The rows of relations stand in the order of the relations that can be shown.
pub proof fn rows_follow_the_relations(
    nodes: Seq<JsonView>,
    node: JsonView,
    incoming: bool,
    width: Option<usize>,
)
    ensures
        relation_rows(Seq::empty(), incoming, width).len() == 0,
        relation_rows(nodes.push(node), incoming, width) == (match relation_row(
            node,
            incoming,
            width,
        ) {
            Some(row) => relation_rows(nodes, incoming, width).push(row),
            None => relation_rows(nodes, incoming, width),
        }),
        issue_lines(Seq::empty(), width).len() == 0,
        issue_lines(nodes.push(node), width) == (match types::issue_ref(node) {
            Some(issue) => issue_lines(nodes, width).push(issue_line(issue, width)),
            None => issue_lines(nodes, width),
        }),
{
    assert(nodes.push(node).drop_last() =~= nodes);
}

/// A report is of the issue: its identifier and title, its parent, its children, then its
/// own relations and those that others have to it.
pub proof fn report_is_of_the_issue(issue: JsonView, id: Seq<char>, width: Option<usize>)
    ensures
        ({
            let report = relation_report(issue, id, width);
            let own = issue.at("relations"@).at("nodes"@).items();
            let inverse = issue.at("inverseRelations"@).at("nodes"@).items();
            let children = issue.at("children"@).at("nodes"@).items();
            &&& issue.at("identifier"@) is Text && issue.at("title"@) is Text ==> report.heading
                == "Relations for "@ + issue.at("identifier"@)->Text_0 + " - "@ + issue.at(
                "title"@,
            )->Text_0
            &&& report.rows == relation_rows(own, false, width) + relation_rows(
                inverse,
                true,
                width,
            )
            &&& issue.at("parent"@) is Null ==> report.parent is None
            &&& types::issue_ref(issue.at("parent"@)) matches Some(parent) ==> report.parent
                == Some(issue_line(parent, width))
            &&& children.len() == 0 ==> report.children is None
            &&& children.len() > 0 ==> report.children == Some(issue_lines(children, width))
        }),
{
}

/// The line of an issue shows its identifier, its title and its state.
pub proof fn issue_line_shows_the_issue(issue: IssueRefView)
    ensures
        issue.title is Some && issue.state is Some ==> issue_line(issue, None) == "  "@
            + issue.identifier + " - "@ + issue.title->0 + (" ("@ + issue.state->0.name + ")"@),
        text::starts_with(issue_line(issue, None), "  "@ + issue.identifier),
{
    let line = issue_line(issue, None);
    let start = "  "@ + issue.identifier;
    assert(line.subrange(0, start.len() as int) =~= start);
}

/// The payload of a report holds the issue, its parent, its children and its relations, each
/// under its name.
pub proof fn payload_holds_each_part(issue: JsonView)
    ensures
        ({
            let payload = relation_payload(issue);
            &&& payload.at("issue"@).at("id"@) == issue.at("id"@)
            &&& payload.at("issue"@).at("identifier"@) == issue.at("identifier"@)
            &&& payload.at("issue"@).at("title"@) == issue.at("title"@)
            &&& payload.at("parent"@) == issue.at("parent"@)
            &&& payload.at("children"@) == issue.at("children"@).at("nodes"@)
            &&& payload.at("relations"@) == issue.at("relations"@).at("nodes"@)
            &&& payload.at("inverseRelations"@) == issue.at("inverseRelations"@).at("nodes"@)
        }),
{
    broadcast use json::group_fields;

    reveal_strlit("issue");
    reveal_strlit("parent");
    reveal_strlit("children");
    reveal_strlit("relations");
    reveal_strlit("inverseRelations");
    reveal_strlit("id");
    reveal_strlit("identifier");
    reveal_strlit("title");
    assert("issue"@.len() == 5 && "parent"@.len() == 6 && "children"@.len() == 8
        && "relations"@.len() == 9 && "inverseRelations"@.len() == 16);
    assert("id"@.len() == 2 && "identifier"@.len() == 10 && "title"@.len() == 5);
    let head = JsonView::object().with("id"@, issue.at("id"@)).with(
        "identifier"@,
        issue.at("identifier"@),
    ).with("title"@, issue.at("title"@));
    assert(head.get("id"@) == Some(issue.at("id"@)));
    assert(head.get("identifier"@) == Some(issue.at("identifier"@)));
    assert(head.get("title"@) == Some(issue.at("title"@)));
    let payload = relation_payload(issue);
    assert(payload.get("issue"@) == Some(head));
    assert(payload.get("parent"@) == Some(issue.at("parent"@)));
    assert(payload.get("children"@) == Some(issue.at("children"@).at("nodes"@)));
    assert(payload.get("relations"@) == Some(issue.at("relations"@).at("nodes"@)));
}

/// What was done is told of the issues in the answer; an issue that is not there is told.
pub proof fn done_line_names_the_issues(
    child: String,
    parent: String,
    reported: JsonView,
    response: JsonView,
    id: Seq<char>,
)
    ensures
        ({
            let issue = reported.at("issue"@);
            let line = done_line(RelationCommands::Parent { child, parent }, reported);
            &&& line is Some
            &&& issue.at("identifier"@) is Text && issue.at("parent"@).at("identifier"@) is Text
                ==> text::starts_with(
                line->0,
                "Set parent of "@ + issue.at("identifier"@)->Text_0 + " to "@ + issue.at(
                    "parent"@,
                ).at("identifier"@)->Text_0,
            )
            &&& issue.at("identifier"@) is Text ==> done_line(
                RelationCommands::Unparent { id: child },
                reported,
            ) == Some("Removed parent from "@ + issue.at("identifier"@)->Text_0)
        }),
        answered_issue(response, id) is Ok <==> !(response.at("data"@).at("issue"@) is Null),
        answered_issue(response, id) is Ok ==> answered_issue(response, id)->Ok_0 == response.at(
            "data"@,
        ).at("issue"@),
{
    let issue = reported.at("issue"@);
    let line = done_line(RelationCommands::Parent { child, parent }, reported)->0;
    if issue.at("identifier"@) is Text && issue.at("parent"@).at("identifier"@) is Text {
        let start = "Set parent of "@ + issue.at("identifier"@)->Text_0 + " to "@ + issue.at(
            "parent"@,
        ).at("identifier"@)->Text_0;
        assert(line.subrange(0, start.len() as int) =~= start);
    }
}

/// A relation that was created is reported between the two issues in the answer, in the
/// order in which it was given.
pub proof fn created_relation_names_both_issues(
    from: Seq<char>,
    relation: RelationType,
    to: Seq<char>,
    created: JsonView,
    source: Seq<char>,
    target: Seq<char>,
)
    requires
        created.at("issueRelation"@).at("issue"@).at("identifier"@) == JsonView::Text(source),
        created.at("issueRelation"@).at("relatedIssue"@).at("identifier"@) == JsonView::Text(
            target,
        ),
    ensures
        created_line(from, relation, to, created) == (match relation {
            RelationType::Blocks => "Created relation: "@ + source + (" "@ + "blocks"@ + " "@)
                + target,
            RelationType::BlockedBy => "Created relation: "@ + target + (" "@ + "blocked-by"@
                + " "@) + source,
            RelationType::Related => "Created relation: "@ + source + (" "@ + "related"@ + " "@)
                + target,
            RelationType::Duplicate => "Created relation: "@ + source + (" "@ + "duplicate"@ + " "@)
                + target,
        }),
{
}

/// The report on a command is read from the answer to what the command sent.
pub proof fn report_is_read_from_the_answer(command: RelationCommands, response: JsonView)
    ensures
        command is List ==> command.report_in(response) == response.at("data"@).at("issue"@),
        command is Add ==> command.report_in(response) == response.at("data"@).at(
            "issueRelationCreate"@,
        ),
        command is Remove ==> command.report_in(response) == response.at("data"@).at(
            "issueRelationDelete"@,
        ),
        command is Parent || command is Unparent ==> command.report_in(response) == response.at(
            "data"@,
        ).at("issueUpdate"@),
{
}

} // verus!
