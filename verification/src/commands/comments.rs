//! Comments on issues.
use vstd::prelude::*;
use vstd::string::*;

use crate::api;
use crate::api::{Request, RequestView};
use crate::error::{CliError, CliErrorView, ErrorKind, Failure, FailureView};
use crate::json;
use crate::json::{Json, JsonView};
use crate::text;
use crate::text::{joined2, joined3, joined4};
use crate::types;
use crate::types::{Comment, CommentView};

verus! {

pub fn safe_terminal_value(value: &str) -> (r: String)
    ensures
        r@ == text::scan_text(value@).1,
{
    text::sanitize_terminal_text(value)
}

pub enum CommentCommands {
    /// List comments for an issue
    List {
        /// Issue ID(s)
        issue_ids: Vec<String>,
    },
    /// Create a new comment on an issue
    Create {
        /// Issue ID to comment on
        issue_id: String,
        /// Comment body (Markdown supported)
        body: String,
        /// Parent comment ID to reply to (optional)
        parent_id: Option<String>,
    },
    /// Update an existing comment
    Update {
        /// Comment ID
        id: String,
        /// New comment body (Markdown supported)
        body: String,
    },
    /// Delete a comment
    Delete {
        /// Comment ID
        id: String,
        /// Skip confirmation
        force: bool,
    },
}

pub const NO_IDS: &'static str =
    "No issue IDs provided. Provide IDs as arguments or pipe them via stdin.\nExamples:\n  linear comments list LIN-123\n  printf '%s\\n' LIN-123 LIN-456 | linear comments list -";

pub const CREATE_MUTATION: &'static str = r#"
        mutation($input: CommentCreateInput!) {
            commentCreate(input: $input) {
                success
                comment {
                    id
                    body
                    createdAt
                    user { name }
                    issue { identifier title }
                }
            }
        }
    "#;

pub const UPDATE_MUTATION: &'static str = r#"
        mutation($id: String!, $input: CommentUpdateInput!) {
            commentUpdate(id: $id, input: $input) {
                success
                comment {
                    id
                    body
                    updatedAt
                    user { name }
                }
            }
        }
    "#;

pub const DELETE_MUTATION: &'static str = r#"
        mutation($id: String!) {
            commentDelete(id: $id) {
                success
            }
        }
    "#;

impl CommentCommands {
    pub open spec fn refusal(self, yes: bool) -> Option<Seq<char>> {
        match self {
            CommentCommands::List { issue_ids } => if issue_ids@.len() == 0 {
                Some(NO_IDS@)
            } else {
                None
            },
            CommentCommands::Delete { id, force } => if !force && !yes {
                Some(
                    "Delete requires --force flag. Use: linear comments delete "@ + id@
                        + " --force"@,
                )
            } else {
                None
            },
            _ => None,
        }
    }

    /// A list needs issues, and a deletion needs to be forced or agreed to.
    pub fn check(&self, yes: bool) -> (r: Result<(), Failure>)
        ensures
            match self.refusal(yes) {
                Some(message) => r is Err && r->Err_0@ == FailureView::message(message),
                None => r is Ok,
            },
    {
        match self {
            CommentCommands::List { issue_ids } => if issue_ids.len() == 0 {
                Err(Failure::message(NO_IDS))
            } else {
                Ok(())
            },
            CommentCommands::Delete { id, force } => if !*force && !yes {
                Err(
                    Failure::message(
                        joined3(
                            "Delete requires --force flag. Use: linear comments delete ",
                            id.as_str(),
                            " --force",
                        ).as_str(),
                    ),
                )
            } else {
                Ok(())
            },
            _ => Ok(()),
        }
    }

    pub open spec fn change_request(self) -> Option<RequestView> {
        match self {
            CommentCommands::List { .. } => None,
            CommentCommands::Create { issue_id, body, parent_id } => Some(
                RequestView::with(
                    CREATE_MUTATION@,
                    JsonView::object().with(
                        "input"@,
                        JsonView::object().with("issueId"@, JsonView::Text(issue_id@)).with(
                            "body"@,
                            JsonView::Text(body@),
                        ).with_some("parentId"@, parent_id.deep_view()),
                    ),
                ),
            ),
            CommentCommands::Update { id, body } => Some(
                RequestView::with(
                    UPDATE_MUTATION@,
                    JsonView::object().with("id"@, JsonView::Text(id@)).with(
                        "input"@,
                        JsonView::object().with("body"@, JsonView::Text(body@)),
                    ),
                ),
            ),
            CommentCommands::Delete { id, .. } => Some(
                RequestView::with(
                    DELETE_MUTATION@,
                    JsonView::object().with("id"@, JsonView::Text(id@)),
                ),
            ),
        }
    }

    /// The request of a command that changes something.
    pub fn request(&self) -> (r: Option<Request>)
        ensures
            match r {
                Some(request) => self.change_request() == Some(request@),
                None => self.change_request() is None,
            },
    {
        match self {
            CommentCommands::List { .. } => None,
            CommentCommands::Create { issue_id, body, parent_id } => Some(
                Request::with(
                    CREATE_MUTATION,
                    Json::object().with(
                        "input",
                        Json::object().with("issueId", Json::text(issue_id.as_str())).with(
                            "body",
                            Json::text(body.as_str()),
                        ).with_some("parentId", parent_id),
                    ),
                ),
            ),
            CommentCommands::Update { id, body } => Some(
                Request::with(
                    UPDATE_MUTATION,
                    Json::object().with("id", Json::text(id.as_str())).with(
                        "input",
                        Json::object().with("body", Json::text(body.as_str())),
                    ),
                ),
            ),
            CommentCommands::Delete { id, .. } => Some(
                Request::with(
                    DELETE_MUTATION,
                    Json::object().with("id", Json::text(id.as_str())),
                ),
            ),
        }
    }
}

pub open spec fn created(response: JsonView) -> Result<JsonView, FailureView> {
    api::confirmation(response, "commentCreate"@, "comment"@, "Failed to create comment"@)
}

pub open spec fn updated(response: JsonView) -> Result<JsonView, FailureView> {
    api::confirmation(response, "commentUpdate"@, "comment"@, "Failed to update comment"@)
}

pub open spec fn is_deleted(response: JsonView) -> bool {
    response.at("data"@).at("commentDelete"@).at("success"@).is_true()
}

/// The comment that was created.
pub fn created_comment<'a>(response: &'a Json) -> (r: Result<&'a Json, Failure>)
    ensures
        match created(response@) {
            Ok(comment) => r is Ok && r->Ok_0@ == comment,
            Err(failure) => r is Err && r->Err_0@ == failure,
        },
{
    api::confirmed(response, "commentCreate", "comment", "Failed to create comment")
}

/// The comment that was updated.
pub fn updated_comment<'a>(response: &'a Json) -> (r: Result<&'a Json, Failure>)
    ensures
        match updated(response@) {
            Ok(comment) => r is Ok && r->Ok_0@ == comment,
            Err(failure) => r is Err && r->Err_0@ == failure,
        },
{
    api::confirmed(response, "commentUpdate", "comment", "Failed to update comment")
}

/// Whether a comment was deleted.
pub fn deleted_comment(response: &Json) -> (r: Result<(), Failure>)
    ensures
        if is_deleted(response@) {
            r is Ok
        } else {
            r is Err && r->Err_0@ == FailureView::message("Failed to delete comment"@)
        },
{
    match api::confirmed(response, "commentDelete", "success", "Failed to delete comment") {
        Ok(_) => Ok(()),
        Err(failure) => Err(failure),
    }
}

pub open spec fn safe(s: Seq<char>) -> Seq<char> {
    text::scan_text(s).1
}

/// The lines that report a comment that was created.
pub open spec fn created_lines(comment: JsonView) -> Seq<Seq<char>> {
    let issue = comment.at("issue"@);
    let body = text::shortened(comment.at("body"@).text_or(""@), Some(80usize));
    let lines = seq![
        "Comment added to "@ + safe(issue.at("identifier"@).text_or(""@)) + " "@ + safe(
            issue.at("title"@).text_or(""@),
        ),
        "  ID: "@ + comment.at("id"@).text_or(""@),
        "  Author: "@ + safe(comment.at("user"@).at("name"@).text_or(""@)),
    ];
    if body.len() == 0 {
        lines
    } else {
        lines.push("  Body: "@ + body)
    }
}

pub fn lines_of_created(comment: &Json) -> (r: Vec<String>)
    ensures
        r.deep_view() == created_lines(comment@),
{
    let issue = comment.at("issue");
    let mut lines: Vec<String> = Vec::new();
    lines.push(
        joined4(
            "Comment added to ",
            safe_terminal_value(issue.at("identifier").text_or("").as_str()).as_str(),
            " ",
            safe_terminal_value(issue.at("title").text_or("").as_str()).as_str(),
        ),
    );
    lines.push(joined2("  ID: ", comment.at("id").text_or("").as_str()));
    lines.push(
        joined2(
            "  Author: ",
            safe_terminal_value(comment.at("user").at("name").text_or("").as_str()).as_str(),
        ),
    );
    let body = text::truncate(comment.at("body").text_or("").as_str(), Some(80));
    if !body.as_str().is_empty() {
        lines.push(joined2("  Body: ", body.as_str()));
    }
    assert(lines.deep_view() =~= created_lines(comment@));
    lines
}

pub const META_QUERY: &'static str = r#"
        query($issueId: String!) {
            issue(id: $issueId) {
                id
                identifier
                title
            }
        }
    "#;

pub const COMMENTS_QUERY: &'static str = r#"
        query($issueId: String!, $first: Int, $after: String, $last: Int, $before: String) {
            issue(id: $issueId) {
                comments(first: $first, after: $after, last: $last, before: $before) {
                    nodes {
                        id
                        body
                        createdAt
                        user { name email }
                        parent { id }
                    }
                    pageInfo {
                        hasNextPage
                        endCursor
                        hasPreviousPage
                        startCursor
                    }
                }
            }
        }
    "#;

/// Comments that are listed where no limit is given, and the size of a page.
pub const DEFAULT_COMMENTS: usize = 100;

pub open spec fn issue_variables(issue_id: Seq<char>) -> JsonView {
    JsonView::object().with("issueId"@, JsonView::Text(issue_id))
}

/// The variables of the query for comments.
pub fn comments_variables(issue_id: &str) -> (r: Json)
    ensures
        r@ == issue_variables(issue_id@),
{
    Json::object().with("issueId", Json::text(issue_id))
}

pub open spec fn issue_question(issue_id: Seq<char>) -> RequestView {
    RequestView::with(META_QUERY@, issue_variables(issue_id))
}

/// The request for an issue without its comments.
pub fn meta_request(issue_id: &str) -> (r: Request)
    ensures
        r@ == issue_question(issue_id@),
{
    Request::with(META_QUERY, comments_variables(issue_id))
}

pub open spec fn issue_missing(id: Seq<char>) -> FailureView {
    FailureView::cli(
        CliErrorView::plain(ErrorKind::NotFound, "Issue not found: "@ + id),
    )
}

pub open spec fn answered_issue(answer: Result<Json, Failure>, id: Seq<char>) -> Result<
    JsonView,
    FailureView,
> {
    match answer {
        Ok(response) => {
            let issue = response@.at("data"@).at("issue"@);
            if issue is Null {
                Err(issue_missing(id))
            } else {
                Ok(issue)
            }
        },
        Err(failure) => Err(failure@),
    }
}

/// The issue in the answer to `meta_request`; an issue that is missing is an
/// error of its own kind.
pub fn issue_from_meta(answer: Result<Json, Failure>, id: &str) -> (r: Result<Json, Failure>)
    ensures
        match answered_issue(answer, id@) {
            Ok(issue) => r is Ok && r->Ok_0@ == issue,
            Err(failure) => r is Err && r->Err_0@ == failure,
        },
{
    match answer {
        Ok(response) => {
            let issue = response.at("data").at("issue");
            if issue.is_null() {
                return Err(
                    Failure::cli(
                        CliError::not_found(joined2("Issue not found: ", id).as_str()),
                    ),
                );
            }
            Ok(issue.copy())
        },
        Err(failure) => Err(failure),
    }
}

pub open spec fn commented(issue: JsonView, comments: Seq<JsonView>) -> JsonView {
    issue.with("comments"@, JsonView::object().with("nodes"@, JsonView::Array(comments)))
}

/// An issue with its comments.
pub fn issue_with_comments(issue: Json, comments: Vec<Json>) -> (r: Json)
    requires
        issue@ is Object,
    ensures
        r@ == commented(issue@, json::json_views(comments@)),
{
    issue.with("comments", Json::object().with("nodes", Json::array(comments)))
}

/// What was fetched for an ID: the issue with its comments, or why there is none.
pub struct Fetched {
    pub id: String,
    pub outcome: Result<Json, Failure>,
}

/// A failure says that an issue is missing.
pub open spec fn says_missing(failure: FailureView) -> bool {
    failure.cli_error() is Some && failure.cli_error()->0.kind == ErrorKind::NotFound
}

fn is_missing(failure: &Failure) -> (r: bool)
    ensures
        r == says_missing(failure@),
{
    match failure.cli_error() {
        Some(error) => error.kind == ErrorKind::NotFound,
        None => false,
    }
}

/// What is said of an issue that was not fetched.
pub open spec fn fetch_note(fetched: Fetched) -> Option<Seq<char>> {
    match fetched.outcome {
        Ok(_) => None,
        Err(failure) => Some(
            if says_missing(failure@) {
                "Issue not found: "@ + fetched.id@
            } else {
                "Error fetching "@ + fetched.id@ + ": "@ + failure@.shown()
            },
        ),
    }
}

pub fn note_of(fetched: &Fetched) -> (r: Option<String>)
    ensures
        r.deep_view() == fetch_note(*fetched),
{
    match &fetched.outcome {
        Ok(_) => None,
        Err(failure) => if is_missing(failure) {
            Some(joined2("Issue not found: ", fetched.id.as_str()))
        } else {
            Some(
                joined4(
                    "Error fetching ",
                    fetched.id.as_str(),
                    ": ",
                    failure.to_string().as_str(),
                ),
            )
        },
    }
}

/// What was fetched, put together: the issues, the IDs of those that are missing,
/// and the first error of another kind.
pub struct Collected {
    pub issues: Vec<Json>,
    pub missing: Vec<String>,
    pub first_error: Option<Failure>,
}

#[verifier::ext_equal]
pub struct CollectedView {
    pub issues: Seq<JsonView>,
    pub missing: Seq<Seq<char>>,
    pub first_error: Option<FailureView>,
}

impl View for Collected {
    type V = CollectedView;

    open spec fn view(&self) -> CollectedView {
        CollectedView {
            issues: json::json_views(self.issues@),
            missing: self.missing.deep_view(),
            first_error: match self.first_error {
                Some(failure) => Some(failure@),
                None => None,
            },
        }
    }
}

pub open spec fn collected(fetched: Seq<Fetched>) -> CollectedView
    decreases fetched.len(),
{
    if fetched.len() == 0 {
        CollectedView { issues: Seq::empty(), missing: Seq::empty(), first_error: None }
    } else {
        let before = collected(fetched.drop_last());
        let last = fetched.last();
        match last.outcome {
            Ok(issue) => CollectedView { issues: before.issues.push(issue@), ..before },
            Err(failure) => if says_missing(failure@) {
                CollectedView { missing: before.missing.push(last.id@), ..before }
            } else if before.first_error is None {
                CollectedView { first_error: Some(failure@), ..before }
            } else {
                before
            },
        }
    }
}

pub fn collect(fetched: Vec<Fetched>) -> (r: Collected)
    ensures
        r@ == collected(fetched@),
{
    let ghost all = fetched@;
    let mut left = fetched;
    let mut out = Collected { issues: Vec::new(), missing: Vec::new(), first_error: None };
    let ghost mut done: int = 0;
    proof {
        assert(all.take(0).len() == 0);
        assert(all.skip(0) =~= all);
        assert(out@.issues =~= Seq::<JsonView>::empty());
        assert(out@.missing =~= Seq::<Seq<char>>::empty());
    }
    while left.len() > 0
        invariant
            0 <= done <= all.len(),
            left@ == all.skip(done),
            out@ == collected(all.take(done)),
        decreases left@.len(),
    {
        let one = left.remove(0);
        let ghost before = out@;
        proof {
            assert(one == all[done]);
            assert(all.take(done + 1).drop_last() =~= all.take(done));
            assert(all.take(done + 1).last() == one);
        }
        match one.outcome {
            Ok(issue) => {
                out.issues.push(issue);
                assert(out@.issues =~= before.issues.push(issue@));
            },
            Err(failure) => {
                if is_missing(&failure) {
                    out.missing.push(one.id);
                    assert(out@.missing =~= before.missing.push(one.id@));
                } else if out.first_error.is_none() {
                    out.first_error = Some(failure);
                }
            },
        }
        proof {
            done = done + 1;
            assert(left@ =~= all.skip(done));
        }
    }
    assert(all.take(done) =~= all);
    out
}

/// Aggregate exit status: a real fetch error, passed through unchanged, wins so
/// that its kind survives; otherwise missing issues are not found.
pub open spec fn status(first_error: Option<FailureView>, missing: Seq<Seq<char>>) -> Option<
    FailureView,
> {
    match first_error {
        Some(failure) => Some(failure),
        None => if missing.len() == 0 {
            None
        } else {
            Some(
                FailureView::cli(
                    CliErrorView::plain(
                        ErrorKind::NotFound,
                        "Issue(s) not found: "@ + text::join_with(missing, ", "@),
                    ),
                ),
            )
        },
    }
}

pub fn comments_status(first_error: Option<Failure>, missing: &Vec<String>) -> (r: Result<
    (),
    Failure,
>)
    ensures
        match status(
            (match first_error {
                Some(failure) => Some(failure@),
                None => None,
            }),
            missing.deep_view(),
        ) {
            Some(failure) => r is Err && r->Err_0@ == failure,
            None => r is Ok,
        },
{
    match first_error {
        Some(failure) => Err(failure),
        None => if missing.len() == 0 {
            Ok(())
        } else {
            Err(
                Failure::cli(
                    CliError::not_found(
                        joined2(
                            "Issue(s) not found: ",
                            text::join_texts(missing, ", ").as_str(),
                        ).as_str(),
                    ),
                ),
            )
        },
    }
}

/// A listing succeeds only where every issue was fetched; an error that is not
/// about a missing issue decides the status whatever else is missing.
pub proof fn real_error_wins_over_missing(fetched: Seq<Fetched>)
    ensures
        ({
            let all = collected(fetched);
            let end = status(all.first_error, all.missing);
            &&& end is None <==> forall|i: int|
                0 <= i < fetched.len() ==> (#[trigger] fetched[i]).outcome is Ok
            &&& (exists|i: int|
                0 <= i < fetched.len() && (#[trigger] fetched[i]).outcome is Err && !says_missing(
                    fetched[i].outcome->Err_0@,
                )) ==> end is Some && !says_missing(end->0)
            &&& all.issues.len() + all.missing.len() <= fetched.len()
        }),
    decreases fetched.len(),
{
    if fetched.len() > 0 {
        let front = fetched.drop_last();
        real_error_wins_over_missing(front);
        collected_first_error_is_real(front);
        collected_first_error_is_real(fetched);
        assert(forall|i: int| 0 <= i < front.len() ==> #[trigger] fetched[i] == front[i]);
        assert(fetched.last() == fetched[fetched.len() - 1]);
        let all = collected(fetched);
        let end = status(all.first_error, all.missing);
        if end is None {
            assert forall|i: int| 0 <= i < fetched.len() implies (
            #[trigger] fetched[i]).outcome is Ok by {
                if i < front.len() {
                    assert(front[i].outcome is Ok);
                }
            }
        }
        if forall|i: int| 0 <= i < fetched.len() ==> (#[trigger] fetched[i]).outcome is Ok {
            assert forall|i: int| 0 <= i < front.len() implies (
            #[trigger] front[i]).outcome is Ok by {
                assert(fetched[i].outcome is Ok);
            }
        }
        if exists|i: int|
            0 <= i < fetched.len() && (#[trigger] fetched[i]).outcome is Err && !says_missing(
                fetched[i].outcome->Err_0@,
            ) {
            let i = choose|i: int|
                0 <= i < fetched.len() && (#[trigger] fetched[i]).outcome is Err && !says_missing(
                    fetched[i].outcome->Err_0@,
                );
            if i < front.len() {
                assert(front[i].outcome is Err && !says_missing(front[i].outcome->Err_0@));
                assert(collected(front).first_error is Some) by {
                    collected_keeps_a_real_error(front, i);
                }
            }
        }
    }
}

proof fn collected_first_error_is_real(fetched: Seq<Fetched>)
    ensures
        collected(fetched).first_error is Some ==> !says_missing(collected(fetched).first_error->0),
    decreases fetched.len(),
{
    if fetched.len() > 0 {
        collected_first_error_is_real(fetched.drop_last());
    }
}

proof fn collected_keeps_a_real_error(fetched: Seq<Fetched>, i: int)
    requires
        0 <= i < fetched.len(),
        fetched[i].outcome is Err,
        !says_missing(fetched[i].outcome->Err_0@),
    ensures
        collected(fetched).first_error is Some,
    decreases fetched.len(),
{
    if i < fetched.len() - 1 {
        assert(fetched.drop_last()[i] == fetched[i]);
        collected_keeps_a_real_error(fetched.drop_last(), i);
    }
}

pub open spec fn payload(issues: Seq<JsonView>) -> JsonView {
    if issues.len() == 1 {
        issues[0]
    } else {
        JsonView::Array(issues)
    }
}

/// The JSON value that reports what was fetched: one issue by itself, else all of
/// them.
pub fn comments_payload(issues: &Vec<Json>) -> (r: Json)
    ensures
        r@ == payload(json::json_views(issues@)),
{
    if issues.len() == 1 {
        issues[0].copy()
    } else {
        Json::array(json::copy_all(issues.as_slice()))
    }
}

/// The identifier and the title that stand above the comments of an issue.
pub open spec fn heading(issue: JsonView) -> (Seq<char>, Seq<char>) {
    (safe(issue.at("identifier"@).text_or(""@)), safe(issue.at("title"@).text_or(""@)))
}

/// The line above the comments of an issue: its identifier, and its title.
pub fn comments_heading(issue: &Json) -> (r: (String, String))
    ensures
        (r.0@, r.1@) == heading(issue@),
{
    (
        safe_terminal_value(issue.at("identifier").text_or("").as_str()),
        safe_terminal_value(issue.at("title").text_or("").as_str()),
    )
}

/// One row of the table of comments.
#[derive(Debug)]
pub struct CommentRow {
    pub author: String,
    pub created_at: String,
    pub body: String,
    pub id: String,
}

#[verifier::ext_equal]
pub struct CommentRowView {
    pub author: Seq<char>,
    pub created_at: Seq<char>,
    pub body: Seq<char>,
    pub id: Seq<char>,
}

impl View for CommentRow {
    type V = CommentRowView;

    open spec fn view(&self) -> CommentRowView {
        CommentRowView {
            author: self.author@,
            created_at: self.created_at@,
            body: self.body@,
            id: self.id@,
        }
    }
}

pub open spec fn text_or_blank(value: Option<Seq<char>>) -> Seq<char> {
    match value {
        Some(s) => s,
        None => ""@,
    }
}

/// The row of a comment: its body on one line and cut, its date without the time.
pub open spec fn comment_row(comment: CommentView, width: Option<usize>) -> CommentRowView {
    CommentRowView {
        author: match comment.user {
            Some(name) => safe(name),
            None => "Unknown"@,
        },
        created_at: text::before_char(text_or_blank(comment.created_at), 'T'),
        body: text::on_one_line(text::shortened(text_or_blank(comment.body), width)),
        id: comment.id,
    }
}

pub open spec fn comment_rows(comments: Seq<JsonView>, width: Option<usize>) -> Seq<CommentRowView>
    decreases comments.len(),
{
    if comments.len() == 0 {
        Seq::empty()
    } else {
        let before = comment_rows(comments.drop_last(), width);
        match types::comment(comments.last()) {
            Some(comment) => before.push(comment_row(comment, width)),
            None => before,
        }
    }
}

pub open spec fn row_views(rows: Seq<CommentRow>) -> Seq<CommentRowView> {
    Seq::new(rows.len(), |i: int| rows[i]@)
}

fn row_of_comment(comment: Comment, width: Option<usize>) -> (r: CommentRow)
    ensures
        r@ == comment_row(comment@, width),
{
    let body = match &comment.body {
        Some(body) => text::truncate(body.as_str(), width),
        None => text::truncate("", width),
    };
    let created_at = match &comment.created_at {
        Some(date) => text::text_before(date.as_str(), 'T'),
        None => text::text_before("", 'T'),
    };
    let author = match &comment.user {
        Some(name) => safe_terminal_value(name.as_str()),
        None => "Unknown".to_string(),
    };
    CommentRow {
        author,
        created_at,
        body: text::line_breaks_to_spaces(body.as_str()),
        id: comment.id,
    }
}

/// The rows of comments; one that cannot be read is passed over.
pub fn rows_of_comments(comments: &[Json], width: Option<usize>) -> (r: Vec<CommentRow>)
    ensures
        row_views(r@) == comment_rows(json::json_views(comments@), width),
{
    let ghost all = json::json_views(comments@);
    let mut rows: Vec<CommentRow> = Vec::new();
    let mut i: usize = 0;
    assert(all.take(0).len() == 0);
    assert(row_views(rows@) =~= comment_rows(all.take(0), width));
    while i < comments.len()
        invariant
            i <= comments@.len(),
            all == json::json_views(comments@),
            row_views(rows@) == comment_rows(all.take(i as int), width),
        decreases comments@.len() - i,
    {
        assert(all.take(i + 1).drop_last() =~= all.take(i as int));
        assert(all.take(i + 1).last() == comments@[i as int]@);
        let ghost before = row_views(rows@);
        match types::read_comment(&comments[i]) {
            Some(comment) => {
                let row = row_of_comment(comment, width);
                rows.push(row);
                assert(row_views(rows@) =~= before.push(row@));
            },
            None => {},
        }
        i += 1;
    }
    assert(all.take(i as int) =~= all);
    rows
}

// ---------------------------------------------------------------------------
// What the commands send and show
// ---------------------------------------------------------------------------

/// A comment is created on its issue with its body, as a reply exactly where a comment to
/// reply to is given.
pub proof fn created_comment_carries_its_body(
    issue_id: String,
    body: String,
    parent_id: Option<String>,
)
    ensures
        ({
            let request = CommentCommands::Create { issue_id, body, parent_id }.change_request();
            let input = request->0.variables->0.at("input"@);
            &&& request is Some
            &&& request->0.variables is Some
            &&& input.get("issueId"@) == Some(JsonView::Text(issue_id@))
            &&& input.get("body"@) == Some(JsonView::Text(body@))
            &&& parent_id is None ==> input.get("parentId"@) is None
            &&& parent_id matches Some(parent) ==> input.get("parentId"@) == Some(
                JsonView::Text(parent@),
            )
        }),
{
    broadcast use json::group_fields;

    reveal_strlit("issueId");
    reveal_strlit("body");
    reveal_strlit("parentId");
    assert("issueId"@.len() == 7 && "body"@.len() == 4 && "parentId"@.len() == 8);
    let start = JsonView::object().with("issueId"@, JsonView::Text(issue_id@)).with(
        "body"@,
        JsonView::Text(body@),
    );
    let input = start.with_some("parentId"@, parent_id.deep_view());
    assert(start.get("issueId"@) == Some(JsonView::Text(issue_id@)));
    assert(start.get("body"@) == Some(JsonView::Text(body@)));
    assert(start.get("parentId"@) is None);
    assert(JsonView::object().with("input"@, input).get("input"@) == Some(input));
}

/// An update is of the comment that was named and carries the new body; a deletion is of the
/// comment that was named.
pub proof fn changed_comment_is_the_named_one(id: String, body: String, force: bool)
    ensures
        ({
            let request = CommentCommands::Update { id, body }.change_request();
            &&& request is Some
            &&& request->0.variables is Some
            &&& request->0.variables->0.at("id"@) == JsonView::Text(id@)
            &&& request->0.variables->0.at("input"@).at("body"@) == JsonView::Text(body@)
        }),
        ({
            let request = CommentCommands::Delete { id, force }.change_request();
            &&& request is Some
            &&& request->0.variables is Some
            &&& request->0.variables->0.at("id"@) == JsonView::Text(id@)
        }),
{
    broadcast use json::group_fields;

    reveal_strlit("id");
    reveal_strlit("input");
    assert("id"@.len() == 2 && "input"@.len() == 5);
    let start = JsonView::object().with("id"@, JsonView::Text(id@));
    let input = JsonView::object().with("body"@, JsonView::Text(body@));
    assert(start.get("id"@) == Some(JsonView::Text(id@)));
    assert(input.get("body"@) == Some(JsonView::Text(body@)));
    assert(start.with("input"@, input).get("id"@) == Some(JsonView::Text(id@)));
    assert(start.with("input"@, input).get("input"@) == Some(input));
}

/// A comment is deleted only where that was forced or agreed to, and a list needs issues;
/// nothing else is refused.
pub proof fn deletion_needs_consent(command: CommentCommands, yes: bool)
    ensures
        command matches CommentCommands::Delete { force, .. } ==> (command.refusal(yes) is None
            <==> force || yes),
        command matches CommentCommands::List { issue_ids } ==> (command.refusal(yes) is None
            <==> issue_ids@.len() > 0),
        command is Create || command is Update ==> command.refusal(yes) is None,
        command is List <==> command.change_request() is None,
{
}

/// A change is reported only where its answer confirms it.
pub proof fn only_confirmed_changes_are_reported(response: JsonView)
    ensures
        created(response) is Ok <==> response.at("data"@).at("commentCreate"@).at("success"@)
            == JsonView::Bool(true),
        created(response) is Ok ==> created(response)->Ok_0 == response.at("data"@).at(
            "commentCreate"@,
        ).at("comment"@),
        updated(response) is Ok <==> response.at("data"@).at("commentUpdate"@).at("success"@)
            == JsonView::Bool(true),
        updated(response) is Ok ==> updated(response)->Ok_0 == response.at("data"@).at(
            "commentUpdate"@,
        ).at("comment"@),
        is_deleted(response) <==> response.at("data"@).at("commentDelete"@).at("success"@)
            == JsonView::Bool(true),
{
}

/// The comments of an issue are asked for by its ID, and are added to the issue without a
/// change of its other fields; an issue that is not there is missing.
pub proof fn comments_are_added_to_the_issue(
    issue_id: Seq<char>,
    issue: JsonView,
    comments: Seq<JsonView>,
    other: Seq<char>,
    answer: Result<Json, Failure>,
)
    requires
        issue is Object,
        other != "comments"@,
    ensures
        issue_question(issue_id).variables is Some,
        issue_question(issue_id).variables->0.get("issueId"@) == Some(JsonView::Text(issue_id)),
        commented(issue, comments).at("comments"@).at("nodes"@).items() == comments,
        commented(issue, comments).get(other) == issue.get(other),
        answer matches Ok(response) ==> if response@.at("data"@).at("issue"@) is Null {
            answered_issue(answer, issue_id) is Err && says_missing(
                answered_issue(answer, issue_id)->Err_0,
            )
        } else {
            answered_issue(answer, issue_id) == Ok::<JsonView, FailureView>(
                response@.at("data"@).at("issue"@),
            )
        },
        answer matches Err(failure) ==> answered_issue(answer, issue_id) == Err::<
            JsonView,
            FailureView,
        >(failure@),
{
    broadcast use json::group_fields;

    let nodes = JsonView::object().with("nodes"@, JsonView::Array(comments));
    assert(nodes.get("nodes"@) == Some(JsonView::Array(comments)));
}

/// What was fetched is gathered in order: an issue among the issues, one that is missing
/// among the missing ones, and of the other errors the first.
pub proof fn fetched_issues_are_gathered_in_order(fetched: Seq<Fetched>, one: Fetched)
    ensures
        ({
            let before = collected(fetched);
            let after = collected(fetched.push(one));
            &&& match one.outcome {
                Ok(issue) => after.issues == before.issues.push(issue@) && after.missing
                    == before.missing && after.first_error == before.first_error,
                Err(failure) => {
                    &&& after.issues == before.issues
                    &&& failure@.cli_error() is Some && failure@.cli_error()->0.kind
                        == ErrorKind::NotFound ==> after.missing == before.missing.push(one.id@)
                        && after.first_error == before.first_error
                    &&& !(failure@.cli_error() is Some && failure@.cli_error()->0.kind
                        == ErrorKind::NotFound) ==> after.missing == before.missing
                        && after.first_error == (if before.first_error is Some {
                        before.first_error
                    } else {
                        Some(failure@)
                    })
                },
            }
        }),
        collected(Seq::empty()).issues.len() == 0,
        collected(Seq::empty()).missing.len() == 0,
        collected(Seq::empty()).first_error is None,
{
    assert(fetched.push(one).drop_last() =~= fetched);
}

/// What is said of an issue that was not fetched names it.
pub proof fn note_names_the_issue(fetched: Fetched)
    ensures
        fetch_note(fetched) is None <==> fetched.outcome is Ok,
        fetch_note(fetched) matches Some(note) ==> text::contains_text(note, fetched.id@),
        fetched.outcome matches Err(failure) ==> !says_missing(failure@) ==> fetch_note(fetched)
            == Some("Error fetching "@ + fetched.id@ + ": "@ + failure@.shown()),
{
    match fetched.outcome {
        Ok(_) => {},
        Err(failure) => {
            let note = fetch_note(fetched)->0;
            let from = if says_missing(failure@) {
                "Issue not found: "@.len() as int
            } else {
                "Error fetching "@.len() as int
            };
            assert(note.subrange(from, from + fetched.id@.len()) =~= fetched.id@);
            text::subrange_occurs(note, from, from + fetched.id@.len());
        },
    }
}

/// A row shows the author, the day, the body on one line and the ID of its comment.
pub proof fn row_shows_the_comment(comment: CommentView, date: Seq<char>, time: Seq<char>, i: int)
    requires
        !date.contains('T'),
    ensures
        ({
            let row = comment_row(comment, None);
            &&& row.id == comment.id
            &&& comment.user matches Some(name) ==> row.author == safe(name)
            &&& comment.created_at == Some(date.push('T') + time) ==> row.created_at == date
            &&& comment.body matches Some(body) ==> row.body.len() == body.len()
            &&& comment.body matches Some(body) ==> 0 <= i < body.len() ==> row.body[i] == (
            if body[i] == '\n' {
                ' '
            } else {
                body[i]
            })
        }),
{
    text::text_is_cut_at_the_character(date, 'T', time);
}

/// The rows of comments stand in the order of the comments that can be read.
pub proof fn rows_follow_the_comments(
    comments: Seq<JsonView>,
    comment: JsonView,
    width: Option<usize>,
)
    ensures
        comment_rows(Seq::empty(), width).len() == 0,
        comment_rows(comments.push(comment), width) == (match types::comment(comment) {
            Some(read) => comment_rows(comments, width).push(comment_row(read, width)),
            None => comment_rows(comments, width),
        }),
{
    assert(comments.push(comment).drop_last() =~= comments);
}

/// The report of a comment that was created shows its issue, its ID, its author and the
/// start of its body; the payload of one issue is the issue itself.
pub proof fn report_shows_the_comment(comment: JsonView, issues: Seq<JsonView>)
    ensures
        ({
            let lines = created_lines(comment);
            let issue = comment.at("issue"@);
            &&& issue.at("identifier"@) is Text && issue.at("title"@) is Text ==> lines[0]
                == "Comment added to "@ + safe(issue.at("identifier"@)->Text_0) + " "@ + safe(
                issue.at("title"@)->Text_0,
            )
            &&& comment.at("id"@) is Text ==> lines[1] == "  ID: "@ + comment.at("id"@)->Text_0
            &&& comment.at("user"@).at("name"@) is Text ==> lines[2] == "  Author: "@ + safe(
                comment.at("user"@).at("name"@)->Text_0,
            )
            &&& comment.at("body"@) is Text && 0 < comment.at("body"@)->Text_0.len() <= 80
                ==> lines.len() == 4 && lines[3] == "  Body: "@ + comment.at("body"@)->Text_0
        }),
        issues.len() == 1 ==> payload(issues) == issues[0],
        issues.len() != 1 ==> payload(issues) == JsonView::Array(issues),
{
}

/// The heading of the comments names their issue.
pub proof fn heading_names_the_issue(issue: JsonView)
    ensures
        issue.at("identifier"@) is Text ==> heading(issue).0 == safe(
            issue.at("identifier"@)->Text_0,
        ),
        issue.at("title"@) is Text ==> heading(issue).1 == safe(issue.at("title"@)->Text_0),
{
}

} // verus!
