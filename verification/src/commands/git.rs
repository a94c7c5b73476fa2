//! Branches, commits and pull requests of issues, in git and in Jujutsu.
use vstd::prelude::*;
use vstd::string::*;
use vstd::utf8;

use crate::api::{Request, RequestView};
use crate::error::{Failure, FailureView};
use crate::json::{Json, JsonView};
use crate::text;
use crate::text::{joined2, joined3, joined4, joined5};
use crate::vcs;

verus! {

// ---------------------------------------------------------------------------
// Version control systems
// ---------------------------------------------------------------------------

/// Version control system type
#[derive(Clone, Copy, Debug, PartialEq, Eq, Structural)]
pub enum Vcs {
    /// Git version control
    Git,
    /// Jujutsu (jj) version control
    Jj,
}

impl Vcs {
    pub open spec fn name(self) -> Seq<char> {
        match self {
            Vcs::Git => "git"@,
            Vcs::Jj => "jj"@,
        }
    }

    pub fn to_string(&self) -> (r: String)
        ensures
            r@ == self.name(),
    {
        match self {
            Vcs::Git => "git".to_string(),
            Vcs::Jj => "jj".to_string(),
        }
    }
}

#[derive(Debug)]
pub enum GitCommands {
    /// Checkout a branch for an issue (creates if doesn't exist)
    Checkout {
        /// Issue identifier (e.g., "LIN-123") or ID
        issue: String,
        /// Custom branch name (optional, uses issue's branch name by default)
        branch: Option<String>,
        /// Version control system to use (auto-detected by default)
        vcs: Option<Vcs>,
    },
    /// Show the branch name for an issue
    Branch { issue: String, vcs: Option<Vcs> },
    /// Create a branch for an issue without checking out
    Create { issue: String, branch: Option<String>, vcs: Option<Vcs> },
    /// Show commits with Linear issue trailers
    Commits {
        /// Number of commits to show
        limit: usize,
        vcs: Option<Vcs>,
    },
    /// Show the Linear review URL for an issue's pull request(s)
    ReviewUrl { issue: String },
    /// Create a GitHub PR from a Linear issue
    Pr {
        issue: String,
        /// Base branch to merge into
        base: String,
        /// Create a draft PR
        draft: bool,
        /// Open the PR in the browser after creation
        web: bool,
    },
}

impl GitCommands {
    /// Whether a command works in a repository, and the system that it is told to use there.
    pub fn repository(&self) -> (r: Option<Option<Vcs>>)
        ensures
            r == (match *self {
                GitCommands::Checkout { vcs, .. } => Some(vcs),
                GitCommands::Branch { vcs, .. } => Some(vcs),
                GitCommands::Create { vcs, .. } => Some(vcs),
                GitCommands::Commits { vcs, .. } => Some(vcs),
                GitCommands::ReviewUrl { .. } => None,
                GitCommands::Pr { .. } => None,
            }),
    {
        match self {
            GitCommands::Checkout { vcs, .. } => Some(*vcs),
            GitCommands::Branch { vcs, .. } => Some(*vcs),
            GitCommands::Create { vcs, .. } => Some(*vcs),
            GitCommands::Commits { vcs, .. } => Some(*vcs),
            GitCommands::ReviewUrl { .. } => None,
            GitCommands::Pr { .. } => None,
        }
    }
}

/// A sign of a version control system in the current directory.
#[derive(Clone, Copy, Debug, PartialEq, Eq, Structural)]
pub enum Probe {
    /// There is a `.jj` directory.
    JjDirectory,
    /// `jj status` succeeds.
    JjStatus,
    /// There is a `.git` directory.
    GitDirectory,
    /// `git status` succeeds.
    GitStatus,
}

/// What the search for the version control system comes to.
#[derive(Debug)]
pub enum Detection {
    Found(Vcs),
    /// The next sign to look for.
    Look(Probe),
    Failed(Failure),
}

#[verifier::ext_equal]
pub enum DetectionView {
    Found(Vcs),
    Look(Probe),
    Failed(FailureView),
}

impl View for Detection {
    type V = DetectionView;

    open spec fn view(&self) -> DetectionView {
        match self {
            Detection::Found(vcs) => DetectionView::Found(*vcs),
            Detection::Look(probe) => DetectionView::Look(*probe),
            Detection::Failed(failure) => DetectionView::Failed(failure@),
        }
    }
}

/// How the search begins.
pub open spec fn first_detection(vcs_flag: Option<Vcs>) -> DetectionView {
    match vcs_flag {
        Some(vcs) => DetectionView::Found(vcs),
        None => DetectionView::Look(Probe::JjDirectory),
    }
}

/// How the search goes on once a sign was looked for.
pub open spec fn detected(probe: Probe, found: bool) -> DetectionView {
    match (probe, found) {
        (Probe::JjDirectory, true) => DetectionView::Found(Vcs::Jj),
        (Probe::JjStatus, true) => DetectionView::Found(Vcs::Jj),
        (Probe::GitDirectory, true) => DetectionView::Found(Vcs::Git),
        (Probe::GitStatus, true) => DetectionView::Found(Vcs::Git),
        (Probe::JjDirectory, false) => DetectionView::Look(Probe::JjStatus),
        (Probe::JjStatus, false) => DetectionView::Look(Probe::GitDirectory),
        (Probe::GitDirectory, false) => DetectionView::Look(Probe::GitStatus),
        (Probe::GitStatus, false) => DetectionView::Failed(
            FailureView::message("Not in a git or jj repository"@),
        ),
    }
}

/// Begins the search: a system that the user asks for is taken as it is.
pub fn get_vcs(vcs_flag: Option<Vcs>) -> (r: Detection)
    ensures
        r@ == first_detection(vcs_flag),
{
    match vcs_flag {
        Some(vcs) => Detection::Found(vcs),
        None => Detection::Look(Probe::JjDirectory),
    }
}

/// Goes on with the search, given whether a sign is there. Jujutsu is looked for first, since
/// its repositories often are git repositories too.
pub fn detect_vcs(probe: Probe, found: bool) -> (r: Detection)
    ensures
        r@ == detected(probe, found),
{
    match (probe, found) {
        (Probe::JjDirectory, true) => Detection::Found(Vcs::Jj),
        (Probe::JjStatus, true) => Detection::Found(Vcs::Jj),
        (Probe::GitDirectory, true) => Detection::Found(Vcs::Git),
        (Probe::GitStatus, true) => Detection::Found(Vcs::Git),
        (Probe::JjDirectory, false) => Detection::Look(Probe::JjStatus),
        (Probe::JjStatus, false) => Detection::Look(Probe::GitDirectory),
        (Probe::GitDirectory, false) => Detection::Look(Probe::GitStatus),
        (Probe::GitStatus, false) => Detection::Failed(
            Failure::message("Not in a git or jj repository"),
        ),
    }
}

/// A program that is run for a command.
#[derive(Clone, Copy, Debug, PartialEq, Eq, Structural)]
pub enum Tool {
    Git,
    Jj,
    Gh,
}

impl Tool {
    pub open spec fn refusal(self) -> Seq<char> {
        match self {
            Tool::Git => "Git command failed: "@,
            Tool::Jj => "Jujutsu command failed: "@,
            Tool::Gh => "gh command failed: "@,
        }
    }
}

/// What a program that was run gives: what it wrote, trimmed, or what it complained of.
pub fn command_output(tool: Tool, success: bool, stdout: &str, stderr: &str) -> (r: Result<
    String,
    Failure,
>)
    ensures
        if success {
            r is Ok && r->Ok_0@ == text::trim(stdout@)
        } else {
            r is Err && r->Err_0@ == FailureView::message(tool.refusal() + text::trim(stderr@))
        },
{
    if success {
        Ok(text::trimmed(stdout))
    } else {
        let start = match tool {
            Tool::Git => "Git command failed: ",
            Tool::Jj => "Jujutsu command failed: ",
            Tool::Gh => "gh command failed: ",
        };
        Err(Failure::message(joined2(start, text::trimmed(stderr).as_str()).as_str()))
    }
}

// ---------------------------------------------------------------------------
// Issues
// ---------------------------------------------------------------------------

pub const ISSUE_QUERY: &'static str = r#"
        query($id: String!) {
            issue(id: $id) {
                id
                identifier
                title
                branchName
                url
            }
        }
    "#;

pub open spec fn issue_question(issue_id: Seq<char>) -> RequestView {
    RequestView::with(ISSUE_QUERY@, JsonView::object().with("id"@, JsonView::Text(issue_id)))
}

pub fn issue_request(issue_id: &str) -> (r: Request)
    ensures
        r@ == issue_question(issue_id@),
{
    Request::with(ISSUE_QUERY, Json::object().with("id", Json::text(issue_id)))
}

/// What a branch is made from.
#[derive(Debug)]
pub struct IssueInfo {
    pub identifier: String,
    pub title: String,
    /// The branch name that Linear suggests; empty where it suggests none.
    pub branch_name: String,
    pub url: String,
}

#[verifier::ext_equal]
pub struct IssueInfoView {
    pub identifier: Seq<char>,
    pub title: Seq<char>,
    pub branch_name: Seq<char>,
    pub url: Seq<char>,
}

impl View for IssueInfo {
    type V = IssueInfoView;

    open spec fn view(&self) -> IssueInfoView {
        IssueInfoView {
            identifier: self.identifier@,
            title: self.title@,
            branch_name: self.branch_name@,
            url: self.url@,
        }
    }
}

pub open spec fn issue_info(issue: JsonView) -> IssueInfoView {
    IssueInfoView {
        identifier: issue.at("identifier"@).text_or(""@),
        title: issue.at("title"@).text_or(""@),
        branch_name: issue.at("branchName"@).text_or(""@),
        url: issue.at("url"@).text_or(""@),
    }
}

/// What an answer says of the issue, or that it is not there.
pub open spec fn answered_info(issue_id: Seq<char>, response: JsonView) -> Result<
    IssueInfoView,
    FailureView,
> {
    let issue = response.at("data"@).at("issue"@);
    if issue is Null {
        Err(FailureView::message("Issue not found: "@ + issue_id))
    } else {
        Ok(issue_info(issue))
    }
}

/// The issue in the answer to `issue_request`.
pub fn get_issue_info(issue_id: &str, response: &Json) -> (r: Result<IssueInfo, Failure>)
    ensures
        match answered_info(issue_id@, response@) {
            Ok(info) => r is Ok && r->Ok_0@ == info,
            Err(failure) => r is Err && r->Err_0@ == failure,
        },
{
    let issue = response.at("data").at("issue");
    if issue.is_null() {
        return Err(Failure::message(joined2("Issue not found: ", issue_id).as_str()));
    }
    Ok(
        IssueInfo {
            identifier: issue.at("identifier").text_or(""),
            title: issue.at("title").text_or(""),
            branch_name: issue.at("branchName").text_or(""),
            url: issue.at("url").text_or(""),
        },
    )
}

pub open spec fn jj_description(info: IssueInfoView) -> Seq<char> {
    info.identifier + ": "@ + info.title + "\n\nLinear-Issue: "@ + (info.identifier
        + "\nLinear-URL: "@ + info.url)
}

/// Generates the commit description with the Linear issue trailer.
pub fn generate_jj_description(info: &IssueInfo) -> (r: String)
    ensures
        r@ == jj_description(info@),
{
    let end = joined3(info.identifier.as_str(), "\nLinear-URL: ", info.url.as_str());
    joined5(
        info.identifier.as_str(),
        ": ",
        info.title.as_str(),
        "\n\nLinear-Issue: ",
        end.as_str(),
    )
}

// ---------------------------------------------------------------------------
// Branches
// ---------------------------------------------------------------------------

/// The branch of an issue: the one that the user asks for, else the one that Linear suggests
/// where it is a valid name, else one made from the issue.
pub open spec fn chosen_branch(
    custom: Option<Seq<char>>,
    linear_valid: bool,
    info: IssueInfoView,
) -> Seq<char> {
    match custom {
        Some(branch) => branch,
        None => if info.branch_name.len() > 0 && linear_valid {
            info.branch_name
        } else {
            vcs::branch_name(info.identifier, info.title)
        },
    }
}

/// Chooses the branch of an issue, given what is found of the name that the user asks for, and
/// whether Linear's suggestion is a valid name.
pub fn choose_branch(
    custom: Option<String>,
    custom_check: Result<(), Failure>,
    linear_valid: bool,
    info: &IssueInfo,
) -> (r: Result<String, Failure>)
    ensures
        if custom is Some && custom_check is Err {
            r is Err && r->Err_0@ == custom_check->Err_0@
        } else {
            r is Ok && r->Ok_0@ == chosen_branch(custom.deep_view(), linear_valid, info@)
        },
{
    match custom {
        Some(branch) => match custom_check {
            Ok(_) => Ok(branch),
            Err(failure) => Err(failure),
        },
        None => if !info.branch_name.as_str().is_empty() && linear_valid {
            Ok(info.branch_name.clone())
        } else {
            Ok(vcs::generate_branch_name(info.identifier.as_str(), info.title.as_str()))
        },
    }
}

pub open spec fn bookmark_question(branch: Seq<char>, valid: bool) -> Option<Seq<Seq<char>>> {
    if valid {
        Some(seq!["bookmark"@, "list"@, branch])
    } else {
        None
    }
}

/// The arguments that show a bookmark; none where the branch has no valid name and there is
/// nothing to ask.
pub fn bookmark_query(branch: &str, valid: bool) -> (r: Option<Vec<String>>)
    ensures
        r.deep_view() == bookmark_question(branch@, valid),
{
    if !valid {
        return None;
    }
    let args = vec!["bookmark".to_string(), "list".to_string(), branch.to_string()];
    assert(args.deep_view() =~= bookmark_question(branch@, valid)->0);
    Some(args)
}

pub open spec fn any_starts_with(lines: Seq<Seq<char>>, start: Seq<char>) -> bool {
    exists|i: int| 0 <= i < lines.len() && text::starts_with(#[trigger] lines[i], start)
}

/// Some line of a listing begins with the name of a branch.
pub open spec fn listed(listing: Option<Seq<char>>, branch: Seq<char>) -> bool {
    match listing {
        Some(listing) => any_starts_with(text::lines_of(listing), branch),
        None => false,
    }
}

fn some_line_starts_with(lines: &Vec<String>, start: &str) -> (r: bool)
    ensures
        r == any_starts_with(lines.deep_view(), start@),
{
    let ghost all = lines.deep_view();
    let mut i: usize = 0;
    while i < lines.len()
        invariant
            i <= lines@.len(),
            all == lines.deep_view(),
            forall|k: int| 0 <= k < i ==> !text::starts_with(#[trigger] all[k], start@),
        decreases lines@.len() - i,
    {
        assert(all[i as int] == lines@[i as int]@);
        if text::text_starts_with(lines[i].as_str(), start) {
            return true;
        }
        i += 1;
    }
    false
}

/// Whether a bookmark exists, given what `bookmark_query` shows.
pub fn bookmark_exists(listing: &Option<String>, branch: &str) -> (r: bool)
    ensures
        r == listed(listing.deep_view(), branch@),
{
    match listing {
        Some(listing) => some_line_starts_with(&text::split_lines(listing.as_str()), branch),
        None => false,
    }
}

pub open spec fn current_branch_command(vcs: Vcs) -> Seq<Seq<char>> {
    match vcs {
        Vcs::Git => seq!["rev-parse"@, "--abbrev-ref"@, "HEAD"@],
        Vcs::Jj => seq!["log"@, "-r"@, "@"@, "--no-graph"@, "-T"@, "change_id.short()"@],
    }
}

/// The arguments that show the current branch, or the current change.
pub fn get_current_branch(vcs: Vcs) -> (r: Vec<String>)
    ensures
        r.deep_view() == current_branch_command(vcs),
{
    let args = match vcs {
        Vcs::Git => vec!["rev-parse".to_string(), "--abbrev-ref".to_string(), "HEAD".to_string()],
        Vcs::Jj => vec![
            "log".to_string(),
            "-r".to_string(),
            "@".to_string(),
            "--no-graph".to_string(),
            "-T".to_string(),
            "change_id.short()".to_string(),
        ],
    };
    assert(args.deep_view() =~= current_branch_command(vcs));
    args
}

/// One command that is run, with what is said before it.
#[derive(Debug)]
pub struct Step {
    pub note: &'static str,
    pub subject: String,
    pub args: Vec<String>,
}

#[verifier::ext_equal]
pub struct StepView {
    pub note: Seq<char>,
    pub subject: Seq<char>,
    pub args: Seq<Seq<char>>,
}

impl View for Step {
    type V = StepView;

    open spec fn view(&self) -> StepView {
        StepView { note: self.note@, subject: self.subject@, args: self.args.deep_view() }
    }
}

pub open spec fn step_views(steps: Seq<Step>) -> Seq<StepView> {
    Seq::new(steps.len(), |i: int| steps[i]@)
}

/// The commands that check a branch out, in order.
pub open spec fn checkout_plan(vcs: Vcs, exists_now: bool, branch: Seq<char>, info: IssueInfoView) -> Seq<
    StepView,
> {
    match (vcs, exists_now) {
        (Vcs::Git, true) => seq![
            StepView {
                note: "Checking out existing branch: "@,
                subject: branch,
                args: seq!["checkout"@, branch],
            },
        ],
        (Vcs::Git, false) => seq![
            StepView {
                note: "Creating and checking out branch: "@,
                subject: branch,
                args: seq!["checkout"@, "-b"@, branch],
            },
        ],
        (Vcs::Jj, true) => seq![
            StepView {
                note: "Switching to existing bookmark: "@,
                subject: branch,
                args: seq!["edit"@, branch],
            },
        ],
        (Vcs::Jj, false) => seq![
            StepView {
                note: "Creating new change for issue: "@,
                subject: info.identifier,
                args: seq!["new"@, "-m"@, jj_description(info)],
            },
            StepView {
                note: "Creating bookmark: "@,
                subject: branch,
                args: seq!["bookmark"@, "create"@, branch],
            },
        ],
    }
}

/// How a branch is checked out, given whether it exists.
pub fn checkout_issue(vcs: Vcs, exists_now: bool, branch: &str, info: &IssueInfo) -> (r: Vec<Step>)
    ensures
        step_views(r@) == checkout_plan(vcs, exists_now, branch@, info@),
{
    let steps = match (vcs, exists_now) {
        (Vcs::Git, true) => vec![
            Step {
                note: "Checking out existing branch: ",
                subject: branch.to_string(),
                args: vec!["checkout".to_string(), branch.to_string()],
            },
        ],
        (Vcs::Git, false) => vec![
            Step {
                note: "Creating and checking out branch: ",
                subject: branch.to_string(),
                args: vec!["checkout".to_string(), "-b".to_string(), branch.to_string()],
            },
        ],
        (Vcs::Jj, true) => vec![
            Step {
                note: "Switching to existing bookmark: ",
                subject: branch.to_string(),
                args: vec!["edit".to_string(), branch.to_string()],
            },
        ],
        (Vcs::Jj, false) => vec![
            Step {
                note: "Creating new change for issue: ",
                subject: info.identifier.clone(),
                args: vec!["new".to_string(), "-m".to_string(), generate_jj_description(info)],
            },
            Step {
                note: "Creating bookmark: ",
                subject: branch.to_string(),
                args: vec!["bookmark".to_string(), "create".to_string(), branch.to_string()],
            },
        ],
    };
    assert(step_views(steps@) =~~= checkout_plan(vcs, exists_now, branch@, info@));
    steps
}

pub open spec fn now_on_text(vcs: Vcs, current: Seq<char>) -> Seq<char> {
    (match vcs {
        Vcs::Git => "Now on branch: "@,
        Vcs::Jj => "Now on change: "@,
    }) + current
}

/// What is said of where a checkout ends.
pub fn now_on(vcs: Vcs, current: &str) -> (r: String)
    ensures
        r@ == now_on_text(vcs, current@),
{
    match vcs {
        Vcs::Git => joined2("Now on branch: ", current),
        Vcs::Jj => joined2("Now on change: ", current),
    }
}

/// How a branch is created without a checkout.
#[derive(Debug)]
pub enum CreatePlan {
    /// It is there already, and nothing is run.
    Exists { line: String },
    /// The arguments of the commands, in order, and what is said after them.
    Run { commands: Vec<Vec<String>>, line: String },
}

pub open spec fn create_commands(vcs: Vcs, branch: Seq<char>, info: IssueInfoView) -> Seq<
    Seq<Seq<char>>,
> {
    match vcs {
        Vcs::Git => seq![seq!["branch"@, branch]],
        Vcs::Jj => seq![
            seq!["new"@, "-m"@, jj_description(info)],
            seq!["bookmark"@, "create"@, branch],
            seq!["prev"@],
        ],
    }
}

#[verifier::ext_equal]
pub enum CreatePlanView {
    Exists { line: Seq<char> },
    Run { commands: Seq<Seq<Seq<char>>>, line: Seq<char> },
}

impl View for CreatePlan {
    type V = CreatePlanView;

    open spec fn view(&self) -> CreatePlanView {
        match self {
            CreatePlan::Exists { line } => CreatePlanView::Exists { line: line@ },
            CreatePlan::Run { commands, line } => CreatePlanView::Run {
                commands: commands.deep_view(),
                line: line@,
            },
        }
    }
}

pub open spec fn planned_branch(
    vcs: Vcs,
    exists_now: bool,
    branch: Seq<char>,
    info: IssueInfoView,
) -> CreatePlanView {
    if exists_now {
        CreatePlanView::Exists {
            line: (match vcs {
                Vcs::Git => "Branch already exists: "@,
                Vcs::Jj => "Bookmark already exists: "@,
            }) + branch,
        }
    } else {
        CreatePlanView::Run {
            commands: create_commands(vcs, branch, info),
            line: (match vcs {
                Vcs::Git => "Created branch: "@,
                Vcs::Jj => "Created bookmark: "@,
            }) + branch,
        }
    }
}

pub fn create_branch(vcs: Vcs, exists_now: bool, branch: &str, info: &IssueInfo) -> (r: CreatePlan)
    ensures
        r@ == planned_branch(vcs, exists_now, branch@, info@),
{
    if exists_now {
        let line = match vcs {
            Vcs::Git => joined2("Branch already exists: ", branch),
            Vcs::Jj => joined2("Bookmark already exists: ", branch),
        };
        return CreatePlan::Exists { line };
    }
    let commands = match vcs {
        Vcs::Git => vec![vec!["branch".to_string(), branch.to_string()]],
        Vcs::Jj => vec![
            vec!["new".to_string(), "-m".to_string(), generate_jj_description(info)],
            vec!["bookmark".to_string(), "create".to_string(), branch.to_string()],
            vec!["prev".to_string()],
        ],
    };
    assert(commands.deep_view() =~~= create_commands(vcs, branch@, info@));
    let line = match vcs {
        Vcs::Git => joined2("Created branch: ", branch),
        Vcs::Jj => joined2("Created bookmark: ", branch),
    };
    CreatePlan::Run { commands, line }
}

/// The names that an issue's branch may have, and its URL, each with its label.
pub open spec fn branch_rows(info: IssueInfoView) -> Seq<(Seq<char>, Seq<char>)> {
    let linear = if info.branch_name.len() > 0 {
        seq![("Linear branch: "@, info.branch_name)]
    } else {
        Seq::empty()
    };
    linear + seq![
        ("Generated:     "@, vcs::branch_name(info.identifier, info.title)),
        ("Issue URL:     "@, info.url),
    ]
}

pub open spec fn row_views(rows: Seq<(&'static str, String)>) -> Seq<(Seq<char>, Seq<char>)> {
    Seq::new(rows.len(), |i: int| (rows[i].0@, rows[i].1@))
}

pub fn show_branch(info: &IssueInfo) -> (r: Vec<(&'static str, String)>)
    ensures
        row_views(r@) == branch_rows(info@),
{
    let mut rows: Vec<(&'static str, String)> = Vec::new();
    if !info.branch_name.as_str().is_empty() {
        rows.push(("Linear branch: ", info.branch_name.clone()));
    }
    let generated = vcs::generate_branch_name(info.identifier.as_str(), info.title.as_str());
    rows.push(("Generated:     ", generated));
    rows.push(("Issue URL:     ", info.url.clone()));
    assert(row_views(rows@) =~= branch_rows(info@));
    rows
}

/// Which of the two names of an issue's branch is there.
#[derive(Clone, Copy, Debug, PartialEq, Eq, Structural)]
pub enum Presence {
    Linear,
    Generated,
    Neither,
}

/// What is said of the branch that is there.
pub fn presence_line(vcs: Vcs, presence: Presence) -> (r: &'static str)
    ensures
        r@ == (match (vcs, presence) {
            (Vcs::Git, Presence::Linear) => "Linear branch exists locally"@,
            (Vcs::Git, Presence::Generated) => "Generated branch exists locally"@,
            (Vcs::Git, Presence::Neither) => "No local branch found for this issue"@,
            (Vcs::Jj, Presence::Linear) => "Linear bookmark exists"@,
            (Vcs::Jj, Presence::Generated) => "Generated bookmark exists"@,
            (Vcs::Jj, Presence::Neither) => "No bookmark found for this issue"@,
        }),
{
    match (vcs, presence) {
        (Vcs::Git, Presence::Linear) => "Linear branch exists locally",
        (Vcs::Git, Presence::Generated) => "Generated branch exists locally",
        (Vcs::Git, Presence::Neither) => "No local branch found for this issue",
        (Vcs::Jj, Presence::Linear) => "Linear bookmark exists",
        (Vcs::Jj, Presence::Generated) => "Generated bookmark exists",
        (Vcs::Jj, Presence::Neither) => "No bookmark found for this issue",
    }
}

/// Linear's name is the first of the two that is looked for.
pub fn branch_presence(linear_exists: bool, generated_exists: bool) -> (r: Presence)
    ensures
        r == (if linear_exists {
            Presence::Linear
        } else if generated_exists {
            Presence::Generated
        } else {
            Presence::Neither
        }),
{
    if linear_exists {
        Presence::Linear
    } else if generated_exists {
        Presence::Generated
    } else {
        Presence::Neither
    }
}

// ---------------------------------------------------------------------------
// References to issues in commits
// ---------------------------------------------------------------------------

/// An issue identifier in square brackets.
pub const BRACKETED_ISSUE: &'static str = r"\[([A-Z]+-\d+)\]";

/// An issue identifier.
pub const PLAIN_ISSUE: &'static str = r"([A-Z]+-\d+)";

/// The text that the first group of a pattern takes in the first match in a text.
pub uninterp spec fn captured(pattern: Seq<char>, text: Seq<char>) -> Option<Seq<char>>;

/// `regex::Regex::captures` of a pattern, at its first group.
///
/// What the group takes, where the pattern matches anywhere, depends on the pattern and the text
/// alone, and is a part of the text.
#[verifier::external_body]
fn capture(pattern: &str, text: &str) -> (r: Option<String>)
    requires
        pattern@ == BRACKETED_ISSUE@ || pattern@ == PLAIN_ISSUE@,
    ensures
        r.deep_view() == captured(pattern@, text@),
        match r {
            Some(part) => text::contains_text(text@, part@),
            None => true,
        },
{
    let found = regex::Regex::new(pattern).ok()?.captures(text)?;
    found.get(1).map(|group| group.as_str().to_string())
}

/// What the first line with a `Linear-Issue:` trailer says.
pub open spec fn trailer(lines: Seq<Seq<char>>) -> Option<Seq<char>>
    decreases lines.len(),
{
    if lines.len() == 0 {
        None
    } else if text::starts_with(lines[0], "Linear-Issue:"@) {
        Some(text::trim(lines[0].skip("Linear-Issue:"@.len() as int)))
    } else {
        trailer(lines.drop_first())
    }
}

fn issue_trailer(message: &str) -> (r: Option<String>)
    ensures
        r.deep_view() == trailer(text::lines_of(message@)),
        match r {
            Some(id) => text::contains_text(message@, id@),
            None => true,
        },
{
    let lines = text::split_lines(message);
    let label = text::chars_of("Linear-Issue:").len();
    let ghost all = text::lines_of(message@);
    let mut i: usize = 0;
    assert(all.skip(0) =~= all);
    while i < lines.len()
        invariant
            i <= lines@.len(),
            all == lines.deep_view(),
            all == text::lines_of(message@),
            label == "Linear-Issue:"@.len(),
            trailer(all) == trailer(all.skip(i as int)),
        decreases lines@.len() - i,
    {
        assert(all[i as int] == lines@[i as int]@);
        assert(all.skip(i as int)[0] == all[i as int]);
        assert(all.skip(i as int).drop_first() =~= all.skip(i + 1));
        if text::text_starts_with(lines[i].as_str(), "Linear-Issue:") {
            let chars = text::chars_of(lines[i].as_str());
            let rest = text::string_of(&chars, label, chars.len());
            let id = text::trimmed(rest.as_str());
            proof {
                let line = all[i as int];
                assert(rest@ =~= line.skip(label as int));
                text::lines_occur(message@, i as int);
                text::subrange_occurs(line, label as int, line.len() as int);
                assert(line.subrange(label as int, line.len() as int) =~= rest@);
                text::trimmed_occurs(rest@);
                text::part_of_part(message@, line, rest@);
                text::part_of_part(message@, rest@, id@);
            }
            return Some(id);
        }
        i += 1;
    }
    None
}

/// The issue that a commit message names: in a trailer, else in brackets, else in the URL of an
/// issue, where the message holds one.
pub open spec fn named_issue(
    message: Seq<char>,
    bracketed: Option<Seq<char>>,
    in_url: Option<Seq<char>>,
) -> Option<Seq<char>> {
    match trailer(text::lines_of(message)) {
        Some(id) => Some(id),
        None => match bracketed {
            Some(id) => Some(id),
            None => if text::from_part(message, "linear.app/"@) is Some {
                in_url
            } else {
                None
            },
        },
    }
}

/// The issue that a commit message names, given what is found in brackets and in what follows
/// the start of a URL.
pub fn choose_issue(message: &str, bracketed: Option<String>, in_url: Option<String>) -> (r: Option<
    String,
>)
    ensures
        r.deep_view() == named_issue(message@, bracketed.deep_view(), in_url.deep_view()),
{
    match issue_trailer(message) {
        Some(id) => Some(id),
        None => match bracketed {
            Some(id) => Some(id),
            None => match text::text_from(message, "linear.app/") {
                Some(_) => in_url,
                None => None,
            },
        },
    }
}

/// What a message holds from the start of a URL of Linear on; empty where it holds none.
pub open spec fn url_part(message: Seq<char>) -> Seq<char> {
    match text::from_part(message, "linear.app/"@) {
        Some(rest) => rest,
        None => ""@,
    }
}

pub open spec fn linear_issue(message: Seq<char>) -> Option<Seq<char>> {
    named_issue(
        message,
        captured(BRACKETED_ISSUE@, message),
        captured(PLAIN_ISSUE@, url_part(message)),
    )
}

/// Extracts the Linear issue ID from a commit message, of which it is a part.
pub fn extract_linear_issue(message: &str) -> (r: Option<String>)
    ensures
        r.deep_view() == linear_issue(message@),
        match r {
            Some(id) => text::contains_text(message@, id@),
            None => true,
        },
{
    match issue_trailer(message) {
        Some(id) => {
            return Some(id);
        },
        None => {},
    }
    let bracketed = capture(BRACKETED_ISSUE, message);
    let rest = match text::text_from(message, "linear.app/") {
        Some(rest) => rest,
        None => "".to_string(),
    };
    let in_url = capture(PLAIN_ISSUE, rest.as_str());
    proof {
        text::from_part_occurs(message@, "linear.app/"@);
        if text::from_part(message@, "linear.app/"@) is Some && in_url is Some {
            text::part_of_part(message@, rest@, in_url->0@);
        }
    }
    choose_issue(message, bracketed, in_url)
}

proof fn generated_trailer(identifier: Seq<char>, rest: Seq<char>)
    requires
        !identifier.contains('\n'),
    ensures
        trailer(text::lines_of("Linear-Issue: "@ + identifier + "\n"@ + rest)) == Some(
            text::trim(identifier),
        ),
{
    reveal_strlit("Linear-Issue: ");
    reveal_strlit("Linear-Issue:");
    reveal_strlit("\n");
    let label = "Linear-Issue:"@;
    let line = "Linear-Issue: "@ + identifier;
    assert(!line.contains('\n')) by {
        if line.contains('\n') {
            let i = choose|i: int| 0 <= i < line.len() && line[i] == '\n';
            assert(i >= 14);
            assert(identifier[i - 14] == '\n');
        }
    }
    assert("Linear-Issue: "@ + identifier + "\n"@ + rest =~= line.push('\n') + rest);
    text::lines_behind_the_first(line, rest);
    let shown = text::without_return(line);
    assert(shown.subrange(0, 13) =~= label);
    assert(text::starts_with(shown, label));
    let lines = seq![shown] + text::lines_of(rest);
    assert(lines[0] == shown);
    text::trim_ignores_white_around(identifier, ' ');
    if identifier.len() > 0 && identifier.last() == '\r' {
        let cut = identifier.drop_last();
        assert(shown.skip(13) =~= seq![' '] + cut);
        text::trim_ignores_white_around(cut, ' ');
        text::trim_ignores_white_around(cut, '\r');
        assert(cut.push('\r') =~= identifier);
    } else {
        assert(shown.skip(13) =~= seq![' '] + identifier);
    }
}

/// A description that was generated for an issue names that issue, where the identifier and the
/// title each stand on one line and do not read as a trailer themselves.
pub proof fn generated_description_names_the_issue(info: IssueInfoView)
    requires
        !info.identifier.contains('\n'),
        !info.title.contains('\n'),
        !text::starts_with(info.identifier + ": "@ + info.title, "Linear-Issue:"@),
    ensures
        linear_issue(jj_description(info)) == Some(text::trim(info.identifier)),
{
    reveal_strlit(": ");
    reveal_strlit("\n");
    reveal_strlit("\n\nLinear-Issue: ");
    reveal_strlit("Linear-Issue: ");
    reveal_strlit("\nLinear-URL: ");
    reveal_strlit("Linear-URL: ");
    reveal_strlit("Linear-Issue:");
    let first = info.identifier + ": "@ + info.title;
    let tail = "Linear-URL: "@ + info.url;
    let named = "Linear-Issue: "@ + info.identifier + "\n"@ + tail;
    let none = Seq::<char>::empty();
    assert(!first.contains('\n')) by {
        if first.contains('\n') {
            let i = choose|i: int| 0 <= i < first.len() && first[i] == '\n';
            let n = info.identifier.len();
            if i < n {
                assert(info.identifier[i] == '\n');
            } else if i >= n + 2 {
                assert(info.title[i - n - 2] == '\n');
            }
        }
    }
    assert(jj_description(info) =~= first.push('\n') + (none.push('\n') + named));
    text::lines_behind_the_first(first, none.push('\n') + named);
    text::lines_behind_the_first(none, named);
    generated_trailer(info.identifier, tail);
    let shown = text::without_return(first);
    let label = "Linear-Issue:"@;
    assert(!text::starts_with(shown, label)) by {
        if text::starts_with(shown, label) {
            assert(first.subrange(0, 13) =~= shown.subrange(0, 13));
        }
    }
    let inner = seq![none] + text::lines_of(named);
    let lines = seq![shown] + inner;
    assert(text::without_return(none) == none);
    assert(!text::starts_with(none, label));
    assert(lines.drop_first() =~= inner);
    assert(inner.drop_first() =~= text::lines_of(named));
    assert(trailer(inner) == trailer(text::lines_of(named)));
    assert(trailer(lines) == trailer(inner));
}

// ---------------------------------------------------------------------------
// Commits
// ---------------------------------------------------------------------------

pub open spec fn log_command(vcs: Vcs, limit: usize) -> Seq<Seq<char>> {
    match vcs {
        Vcs::Git => seq![
            "log"@,
            "-"@ + text::decimal(limit as nat),
            "--format=%H|%s|%b%x00"@,
        ],
        Vcs::Jj => seq![
            "log"@,
            "-r"@,
            "ancestors(@, "@ + text::decimal(limit as nat) + ")"@,
            "--no-graph"@,
            "-T"@,
            r#"change_id.short() ++ " " ++ description.first_line() ++ "\n""#@,
        ],
    }
}

/// The arguments that show the latest commits.
pub fn log_args(vcs: Vcs, limit: usize) -> (r: Vec<String>)
    ensures
        r.deep_view() == log_command(vcs, limit),
{
    let count = text::count_text(limit);
    let args = match vcs {
        Vcs::Git => vec![
            "log".to_string(),
            joined2("-", count.as_str()),
            "--format=%H|%s|%b%x00".to_string(),
        ],
        Vcs::Jj => vec![
            "log".to_string(),
            "-r".to_string(),
            joined3("ancestors(@, ", count.as_str(), ")"),
            "--no-graph".to_string(),
            "-T".to_string(),
            r#"change_id.short() ++ " " ++ description.first_line() ++ "\n""#.to_string(),
        ],
    };
    assert(args.deep_view() =~= log_command(vcs, limit));
    args
}

/// A commit as it is listed.
#[derive(Debug)]
pub struct CommitLine {
    pub id: String,
    pub subject: String,
    /// Whether the commit refers to Linear.
    pub linked: bool,
    /// The issue that it names.
    pub issue: Option<String>,
}

#[verifier::ext_equal]
pub struct CommitLineView {
    pub id: Seq<char>,
    pub subject: Seq<char>,
    pub linked: bool,
    pub issue: Option<Seq<char>>,
}

impl View for CommitLine {
    type V = CommitLineView;

    open spec fn view(&self) -> CommitLineView {
        CommitLineView {
            id: self.id@,
            subject: self.subject@,
            linked: self.linked,
            issue: self.issue.deep_view(),
        }
    }
}

pub open spec fn commit_views(commits: Seq<CommitLine>) -> Seq<CommitLineView> {
    Seq::new(commits.len(), |i: int| commits[i]@)
}

/// The hash, the subject and the body in an entry of the log.
pub open spec fn entry_parts(entry: Seq<char>) -> Option<(Seq<char>, Seq<char>, Seq<char>)> {
    if text::trim(entry).len() == 0 {
        None
    } else {
        match text::after_char(entry, '|') {
            Some(rest) => Some(
                (
                    text::before_char(entry, '|'),
                    text::before_char(rest, '|'),
                    match text::after_char(rest, '|') {
                        Some(body) => body,
                        None => ""@,
                    },
                ),
            ),
            None => None,
        }
    }
}

fn split_entry(entry: &str) -> (r: Option<(String, String, String)>)
    ensures
        match (r, entry_parts(entry@)) {
            (Some(parts), Some(expected)) => (parts.0@, parts.1@, parts.2@) == expected,
            (None, None) => true,
            _ => false,
        },
{
    if text::trimmed(entry).as_str().is_empty() {
        return None;
    }
    match text::text_after(entry, '|') {
        Some(rest) => {
            let body = match text::text_after(rest.as_str(), '|') {
                Some(body) => body,
                None => "".to_string(),
            };
            Some((text::text_before(entry, '|'), text::text_before(rest.as_str(), '|'), body))
        },
        None => None,
    }
}

/// The first eight bytes of a hash.
pub open spec fn short_hash(hash: Seq<char>) -> Seq<char> {
    utf8::decode_utf8(utf8::encode_utf8(hash).subrange(0, 8))
}

/// The first eight bytes of a hash are whole characters, which those of a hash are.
pub open spec fn has_short_hash(hash: Seq<char>) -> bool {
    utf8::is_char_boundary(utf8::encode_utf8(hash), 8)
}

/// Whether a commit refers to Linear: by a trailer, by a URL, or by what may be an identifier in
/// brackets in its subject.
pub open spec fn refers_to_linear(subject: Seq<char>, message: Seq<char>) -> bool {
    ||| text::contains_text(message, "Linear-Issue:"@)
    ||| text::contains_text(message, "Linear-URL:"@)
    ||| text::contains_text(message, "linear.app/"@)
    ||| text::contains_text(subject, "["@) && text::contains_text(subject, "-"@)
}

pub open spec fn git_commit(
    hash: Seq<char>,
    subject: Seq<char>,
    body: Seq<char>,
    width: Option<usize>,
) -> CommitLineView {
    let message = subject + " "@ + body;
    let linked = refers_to_linear(subject, message);
    CommitLineView {
        id: short_hash(hash),
        subject: text::shortened(subject, width),
        linked,
        issue: if linked {
            linear_issue(message)
        } else {
            None
        },
    }
}

pub open spec fn git_entry(entry: Seq<char>, width: Option<usize>) -> Option<CommitLineView> {
    match entry_parts(entry) {
        Some((hash, subject, body)) => Some(git_commit(hash, subject, body, width)),
        None => None,
    }
}

pub open spec fn hash_fits(entry: Seq<char>) -> bool {
    match entry_parts(entry) {
        Some(parts) => has_short_hash(parts.0),
        None => true,
    }
}

/// Whether the hash in an entry of the log can be shortened.
pub fn can_shorten_hash(entry: &str) -> (r: bool)
    ensures
        r == hash_fits(entry@),
{
    match split_entry(entry) {
        Some(parts) => parts.0.as_str().is_char_boundary(8),
        None => true,
    }
}

/// The commit in an entry of git's log; an entry that is blank or has no subject is none.
pub fn commit_of_entry(entry: &str, width: Option<usize>) -> (r: Option<CommitLine>)
    requires
        hash_fits(entry@),
    ensures
        match (r, git_entry(entry@, width)) {
            (Some(commit), Some(expected)) => commit@ == expected,
            (None, None) => true,
            _ => false,
        },
{
    let parts = match split_entry(entry) {
        Some(parts) => parts,
        None => {
            return None;
        },
    };
    let whole = parts.0.as_str();
    let (id, _) = whole.split_at(8);
    proof {
        utf8::encode_utf8_decode_utf8(id@);
    }
    let subject = parts.1.as_str();
    let message = joined3(subject, " ", parts.2.as_str());
    let linked = text::text_contains(message.as_str(), "Linear-Issue:") || text::text_contains(
        message.as_str(),
        "Linear-URL:",
    ) || text::text_contains(message.as_str(), "linear.app/") || (text::text_contains(
        subject,
        "[",
    ) && text::text_contains(subject, "-"));
    let issue = if linked {
        extract_linear_issue(message.as_str())
    } else {
        None
    };
    Some(
        CommitLine {
            id: id.to_string(),
            subject: text::truncate(subject, width),
            linked,
            issue,
        },
    )
}

pub open spec fn git_entries(entries: Seq<Seq<char>>, width: Option<usize>) -> Seq<CommitLineView>
    decreases entries.len(),
{
    if entries.len() == 0 {
        Seq::empty()
    } else {
        let before = git_entries(entries.drop_last(), width);
        match git_entry(entries.last(), width) {
            Some(commit) => before.push(commit),
            None => before,
        }
    }
}

pub open spec fn all_hashes_fit(entries: Seq<Seq<char>>) -> bool {
    forall|i: int| 0 <= i < entries.len() ==> hash_fits(#[trigger] entries[i])
}

/// Whether every hash in git's log can be shortened.
pub fn can_shorten_hashes(output: &str) -> (r: bool)
    ensures
        r == all_hashes_fit(text::split_on(output@, '\0')),
{
    let entries = text::split_text(output, '\0');
    let ghost all = entries.deep_view();
    let mut i: usize = 0;
    while i < entries.len()
        invariant
            i <= entries@.len(),
            all == entries.deep_view(),
            all == text::split_on(output@, '\0'),
            forall|k: int| 0 <= k < i ==> hash_fits(#[trigger] all[k]),
        decreases entries@.len() - i,
    {
        assert(all[i as int] == entries@[i as int]@);
        if !can_shorten_hash(entries[i].as_str()) {
            assert(!hash_fits(text::split_on(output@, '\0')[i as int]));
            return false;
        }
        i += 1;
    }
    true
}

/// The commits in git's log.
pub fn git_commits(output: &str, width: Option<usize>) -> (r: Vec<CommitLine>)
    requires
        all_hashes_fit(text::split_on(output@, '\0')),
    ensures
        commit_views(r@) == git_entries(text::split_on(output@, '\0'), width),
{
    let entries = text::split_text(output, '\0');
    let ghost all = entries.deep_view();
    let mut commits: Vec<CommitLine> = Vec::new();
    let mut i: usize = 0;
    assert(all.take(0).len() == 0);
    assert(commit_views(commits@) =~= git_entries(all.take(0), width));
    while i < entries.len()
        invariant
            i <= entries@.len(),
            all == entries.deep_view(),
            all_hashes_fit(all),
            commit_views(commits@) == git_entries(all.take(i as int), width),
        decreases entries@.len() - i,
    {
        assert(all.take(i + 1).drop_last() =~= all.take(i as int));
        assert(all[i as int] == entries@[i as int]@);
        let ghost before = commit_views(commits@);
        match commit_of_entry(entries[i].as_str(), width) {
            Some(commit) => {
                commits.push(commit);
                assert(commit_views(commits@) =~= before.push(commit@));
            },
            None => {},
        }
        i += 1;
    }
    assert(all.take(i as int) =~= all);
    commits
}

/// The change and the first line of its description in a line of Jujutsu's log.
pub open spec fn change_parts(line: Seq<char>) -> Option<(Seq<char>, Seq<char>)> {
    if text::trim(line).len() == 0 {
        None
    } else {
        Some(
            (
                text::before_char(line, ' '),
                match text::after_char(line, ' ') {
                    Some(description) => description,
                    None => ""@,
                },
            ),
        )
    }
}

pub open spec fn changes(lines: Seq<Seq<char>>) -> Seq<(Seq<char>, Seq<char>)>
    decreases lines.len(),
{
    if lines.len() == 0 {
        Seq::empty()
    } else {
        let before = changes(lines.drop_last());
        match change_parts(lines.last()) {
            Some(change) => before.push(change),
            None => before,
        }
    }
}

pub open spec fn change_views(changes: Seq<(String, String)>) -> Seq<(Seq<char>, Seq<char>)> {
    Seq::new(changes.len(), |i: int| (changes[i].0@, changes[i].1@))
}

/// The changes in Jujutsu's log, each with the first line of its description.
pub fn jj_changes(output: &str) -> (r: Vec<(String, String)>)
    ensures
        change_views(r@) == changes(text::lines_of(output@)),
{
    let lines = text::split_lines(output);
    let ghost all = lines.deep_view();
    let mut out: Vec<(String, String)> = Vec::new();
    let mut i: usize = 0;
    assert(all.take(0).len() == 0);
    assert(change_views(out@) =~= changes(all.take(0)));
    while i < lines.len()
        invariant
            i <= lines@.len(),
            all == lines.deep_view(),
            change_views(out@) == changes(all.take(i as int)),
        decreases lines@.len() - i,
    {
        assert(all.take(i + 1).drop_last() =~= all.take(i as int));
        assert(all[i as int] == lines@[i as int]@);
        let ghost before = change_views(out@);
        let line = lines[i].as_str();
        if !text::trimmed(line).as_str().is_empty() {
            let description = match text::text_after(line, ' ') {
                Some(description) => description,
                None => "".to_string(),
            };
            let id = text::text_before(line, ' ');
            out.push((id, description));
            assert(change_views(out@) =~= before.push((id@, description@)));
        }
        i += 1;
    }
    assert(all.take(i as int) =~= all);
    out
}

/// The arguments that show the whole description of a change.
pub fn description_args(change_id: &str) -> (r: Vec<String>)
    ensures
        r.deep_view() == seq![
            "log"@,
            "-r"@,
            change_id@,
            "--no-graph"@,
            "-T"@,
            "description"@,
        ],
{
    let args = vec![
        "log".to_string(),
        "-r".to_string(),
        change_id.to_string(),
        "--no-graph".to_string(),
        "-T".to_string(),
        "description".to_string(),
    ];
    assert(args.deep_view() =~= seq![
        "log"@,
        "-r"@,
        change_id@,
        "--no-graph"@,
        "-T"@,
        "description"@,
    ]);
    args
}

pub open spec fn jj_commit(
    change_id: Seq<char>,
    description: Seq<char>,
    full: Seq<char>,
    width: Option<usize>,
) -> CommitLineView {
    let linked = text::contains_text(full, "Linear-Issue:"@) || text::contains_text(
        full,
        "Linear-URL:"@,
    );
    CommitLineView {
        id: change_id,
        subject: text::shortened(description, width),
        linked,
        issue: if linked {
            Some(
                match trailer(text::lines_of(full)) {
                    Some(id) => id,
                    None => ""@,
                },
            )
        } else {
            None
        },
    }
}

/// A change as it is listed, given its whole description.
pub fn commit_of_change(
    change_id: &str,
    description: &str,
    full: &str,
    width: Option<usize>,
) -> (r: CommitLine)
    ensures
        r@ == jj_commit(change_id@, description@, full@, width),
{
    let linked = text::text_contains(full, "Linear-Issue:") || text::text_contains(
        full,
        "Linear-URL:",
    );
    let issue = if linked {
        Some(
            match issue_trailer(full) {
                Some(id) => id,
                None => "".to_string(),
            },
        )
    } else {
        None
    };
    CommitLine {
        id: change_id.to_string(),
        subject: text::truncate(description, width),
        linked,
        issue,
    }
}

// ---------------------------------------------------------------------------
// Pull requests
// ---------------------------------------------------------------------------

pub open spec fn pr_title(info: IssueInfoView) -> Seq<char> {
    "["@ + info.identifier + "] "@ + info.title
}

pub fn title_of_pr(info: &IssueInfo) -> (r: String)
    ensures
        r@ == pr_title(info@),
{
    joined4("[", info.identifier.as_str(), "] ", info.title.as_str())
}

pub open spec fn pr_command(info: IssueInfoView, base: Seq<char>, draft: bool, web: bool) -> Seq<
    Seq<char>,
> {
    let flag = |given: bool, name: Seq<char>|
        if given {
            seq![name]
        } else {
            Seq::empty()
        };
    seq![
        "pr"@,
        "create"@,
        "--title"@,
        pr_title(info),
        "--body"@,
        "Linear: "@ + info.url,
        "--base"@,
        base,
    ] + flag(draft, "--draft"@) + flag(web, "--web"@)
}

/// The arguments that create a pull request for an issue.
pub fn create_pr(info: &IssueInfo, base: &str, draft: bool, web: bool) -> (r: Vec<String>)
    ensures
        r.deep_view() == pr_command(info@, base@, draft, web),
{
    let mut args = vec![
        "pr".to_string(),
        "create".to_string(),
        "--title".to_string(),
        title_of_pr(info),
        "--body".to_string(),
        joined2("Linear: ", info.url.as_str()),
        "--base".to_string(),
        base.to_string(),
    ];
    if draft {
        args.push("--draft".to_string());
    }
    if web {
        args.push("--web".to_string());
    }
    assert(args.deep_view() =~= pr_command(info@, base@, draft, web));
    args
}

pub open spec fn pr_text(result: Seq<char>) -> Seq<char> {
    if result.len() > 0 {
        "PR created: "@ + result
    } else {
        "PR created successfully!"@
    }
}

/// What is said of a pull request that was created.
pub fn pr_line(result: &str) -> (r: String)
    ensures
        r@ == pr_text(result@),
{
    if !result.is_empty() {
        joined2("PR created: ", result)
    } else {
        "PR created successfully!".to_string()
    }
}

// ---------------------------------------------------------------------------
// What a log says of issues
// ---------------------------------------------------------------------------

/// A line is the first one with a `Linear-Issue:` label.
pub open spec fn first_labelled(lines: Seq<Seq<char>>, at: int) -> bool {
    &&& 0 <= at < lines.len()
    &&& text::starts_with(lines[at], "Linear-Issue:"@)
    &&& forall|k: int| 0 <= k < at ==> !text::starts_with(#[trigger] lines[k], "Linear-Issue:"@)
}

proof fn trailer_is_on_the_first_labelled_line(lines: Seq<Seq<char>>, at: int)
    requires
        first_labelled(lines, at),
    ensures
        trailer(lines) == Some(text::trim(lines[at].skip(13))),
    decreases lines.len(),
{
    reveal_strlit("Linear-Issue:");
    assert("Linear-Issue:"@.len() == 13);
    if at > 0 {
        assert(!text::starts_with(lines[0], "Linear-Issue:"@));
        let rest = lines.drop_first();
        assert forall|k: int| 0 <= k < at - 1 implies !text::starts_with(
            #[trigger] rest[k],
            "Linear-Issue:"@,
        ) by {
            assert(!text::starts_with(lines[k + 1], "Linear-Issue:"@));
        }
        trailer_is_on_the_first_labelled_line(rest, at - 1);
    }
}

proof fn no_trailer_without_a_label(lines: Seq<Seq<char>>)
    requires
        forall|k: int|
            0 <= k < lines.len() ==> !text::starts_with(#[trigger] lines[k], "Linear-Issue:"@),
    ensures
        trailer(lines) is None,
    decreases lines.len(),
{
    if lines.len() > 0 {
        assert(!text::starts_with(lines[0], "Linear-Issue:"@));
        let rest = lines.drop_first();
        assert forall|k: int| 0 <= k < rest.len() implies !text::starts_with(
            #[trigger] rest[k],
            "Linear-Issue:"@,
        ) by {
            assert(!text::starts_with(lines[k + 1], "Linear-Issue:"@));
        }
        no_trailer_without_a_label(rest);
    }
}

proof fn labelled_message_holds_the_label(message: Seq<char>, at: int)
    requires
        0 <= at < text::lines_of(message).len(),
        text::starts_with(text::lines_of(message)[at], "Linear-Issue:"@),
    ensures
        text::contains_text(message, "Linear-Issue:"@),
{
    let line = text::lines_of(message)[at];
    text::lines_occur(message, at);
    assert(text::occurs_at(line, "Linear-Issue:"@, 0));
    text::part_of_part(message, line, "Linear-Issue:"@);
}

/// A commit whose subject and body, joined by a space, have a line that begins with
/// `Linear-Issue:` is listed as linked, with what follows the label on the first such line,
/// trimmed, for its issue.
pub proof fn labelled_commit_is_linked_to_its_issue(
    hash: Seq<char>,
    subject: Seq<char>,
    body: Seq<char>,
    width: Option<usize>,
    at: int,
)
    requires
        !hash.contains('|'),
        !subject.contains('|'),
        first_labelled(text::lines_of(subject + " "@ + body), at),
    ensures
        ({
            let entry = hash.push('|') + (subject.push('|') + body);
            let line = text::lines_of(subject + " "@ + body)[at];
            &&& git_entry(entry, width) is Some
            &&& git_entry(entry, width)->0.linked
            &&& git_entry(entry, width)->0.issue == Some(text::trim(line.skip(13)))
        }),
{
    let message = subject + " "@ + body;
    entry_is_divided(hash, subject, body, width);
    labelled_message_holds_the_label(message, at);
    trailer_is_on_the_first_labelled_line(text::lines_of(message), at);
}

proof fn entry_is_divided(
    hash: Seq<char>,
    subject: Seq<char>,
    body: Seq<char>,
    width: Option<usize>,
)
    requires
        !hash.contains('|'),
        !subject.contains('|'),
    ensures
        entry_parts(hash.push('|') + (subject.push('|') + body)) == Some((hash, subject, body)),
        git_entry(hash.push('|') + (subject.push('|') + body), width) == Some(
            git_commit(hash, subject, body, width),
        ),
{
    let entry = hash.push('|') + (subject.push('|') + body);
    assert(entry[hash.len() as int] == '|');
    text::ink_is_not_blank(entry, hash.len() as int);
    text::text_is_cut_at_the_character(hash, '|', subject.push('|') + body);
    text::text_is_cut_at_the_character(subject, '|', body);
}

/// An entry of the log is listed by the first eight characters of its hash and by its
/// subject, cut to the width. It is linked exactly where its message holds a trailer, a URL
/// of Linear, or a bracket and a hyphen in the subject, and names an issue only then.
pub proof fn entry_is_listed_by_hash_and_subject(
    hash: Seq<char>,
    subject: Seq<char>,
    body: Seq<char>,
    width: Option<usize>,
)
    requires
        !hash.contains('|'),
        !subject.contains('|'),
    ensures
        ({
            let entry = hash.push('|') + (subject.push('|') + body);
            let message = subject + " "@ + body;
            let commit = git_entry(entry, width)->0;
            &&& git_entry(entry, width) is Some
            &&& utf8::is_ascii_chars(hash) && hash.len() >= 8 ==> commit.id == hash.take(8)
            &&& width is None ==> commit.subject == subject
            &&& width matches Some(w) ==> subject.len() <= w ==> commit.subject == subject
            &&& width matches Some(w) ==> commit.subject.len() <= w
            &&& text::contains_text(message, "Linear-Issue:"@) ==> commit.linked
            &&& text::contains_text(message, "Linear-URL:"@) ==> commit.linked
            &&& text::contains_text(message, "linear.app/"@) ==> commit.linked
            &&& subject.contains('[') && subject.contains('-') ==> commit.linked
            &&& commit.linked ==> text::contains_text(message, "Linear-Issue:"@)
                || text::contains_text(message, "Linear-URL:"@) || text::contains_text(
                message,
                "linear.app/"@,
            ) || (subject.contains('[') && subject.contains('-'))
            &&& commit.issue is Some ==> commit.linked
        }),
{
    entry_is_divided(hash, subject, body, width);
    let commit = git_commit(hash, subject, body, width);
    if utf8::is_ascii_chars(hash) && hash.len() >= 8 {
        let start = hash.take(8);
        assert(utf8::is_ascii_chars(start));
        utf8::is_ascii_chars_encode_utf8(hash);
        utf8::is_ascii_chars_encode_utf8(start);
        assert(utf8::encode_utf8(hash).subrange(0, 8) =~= utf8::encode_utf8(start)) by {
            assert forall|i: int| 0 <= i < 8 implies utf8::encode_utf8(hash)[i]
                == utf8::encode_utf8(start)[i] by {
                assert(start[i] == hash[i]);
            }
        }
        utf8::encode_utf8_decode_utf8(start);
    }
    reveal_strlit("[");
    reveal_strlit("-");
    character_occurs(subject, '[', "["@);
    character_occurs(subject, '-', "-"@);
}

proof fn character_occurs(text: Seq<char>, c: char, part: Seq<char>)
    requires
        part.len() == 1,
        part[0] == c,
    ensures
        text.contains(c) <==> text::contains_text(text, part),
{
    if text.contains(c) {
        let i = choose|i: int| 0 <= i < text.len() && text[i] == c;
        assert(text.subrange(i, i + 1) =~= part);
        assert(text::occurs_at(text, part, i));
    }
    if text::contains_text(text, part) {
        let i = choose|i: int| text::occurs_at(text, part, i);
        assert(text.subrange(i, i + 1)[0] == c);
        assert(text[i] == c);
    }
}

/// Entries without a bar, and blank ones, are passed over, and the commits of a log are those
/// of its entries, in their order.
pub proof fn commits_are_listed_in_order(
    entry: Seq<char>,
    rest: Seq<char>,
    width: Option<usize>,
)
    requires
        !entry.contains('\0'),
    ensures
        ({
            let listed = git_entries(text::split_on(entry.push('\0') + rest, '\0'), width);
            let later = git_entries(text::split_on(rest, '\0'), width);
            match git_entry(entry, width) {
                Some(commit) => listed == seq![commit] + later,
                None => listed == later,
            }
        }),
        !entry.contains('|') ==> git_entry(entry, width) is None,
        text::trim(entry).len() == 0 ==> git_entry(entry, width) is None,
        entry.contains('|') ==> git_entry(entry, width) is Some,
{
    text::split_behind_separator(entry, '\0', rest);
    entries_behind_one(entry, text::split_on(rest, '\0'), width);
    if !entry.contains('|') {
        text::text_is_cut_at_the_character(entry, '|', Seq::empty());
    } else {
        let i = choose|i: int| 0 <= i < entry.len() && entry[i] == '|';
        text::ink_is_not_blank(entry, i);
        text::first_occurrence_divides_the_text(entry, '|');
    }
}

proof fn entries_behind_one(entry: Seq<char>, entries: Seq<Seq<char>>, width: Option<usize>)
    ensures
        git_entries(seq![entry] + entries, width) == (match git_entry(entry, width) {
            Some(commit) => seq![commit] + git_entries(entries, width),
            None => git_entries(entries, width),
        }),
    decreases entries.len(),
{
    let all = seq![entry] + entries;
    let first = match git_entry(entry, width) {
        Some(commit) => seq![commit],
        None => Seq::<CommitLineView>::empty(),
    };
    if entries.len() == 0 {
        assert(all.drop_last() =~= Seq::<Seq<char>>::empty());
        assert(git_entries(all.drop_last(), width) =~= Seq::<CommitLineView>::empty());
        assert(git_entries(all, width) =~= first);
        assert(first + git_entries(entries, width) =~= first);
    } else {
        entries_behind_one(entry, entries.drop_last(), width);
        assert(all.drop_last() =~= seq![entry] + entries.drop_last());
        assert(git_entries(all, width) =~= first + git_entries(entries, width));
    }
    assert(Seq::<CommitLineView>::empty() + git_entries(entries, width) =~= git_entries(
        entries,
        width,
    ));
}

/// A change whose description has a line that begins with `Linear-Issue:` is listed as
/// linked, with what follows the label on the first such line for its issue; one that holds
/// neither trailer is listed as it is.
pub proof fn labelled_change_is_linked_to_its_issue(
    change_id: Seq<char>,
    description: Seq<char>,
    full: Seq<char>,
    width: Option<usize>,
    at: int,
)
    ensures
        ({
            let commit = jj_commit(change_id, description, full, width);
            let lines = text::lines_of(full);
            &&& commit.id == change_id
            &&& width is None ==> commit.subject == description
            &&& first_labelled(lines, at) ==> commit.linked && commit.issue == Some(
                text::trim(lines[at].skip(13)),
            )
            &&& text::contains_text(full, "Linear-URL:"@) ==> commit.linked
            &&& commit.linked ==> text::contains_text(full, "Linear-Issue:"@)
                || text::contains_text(full, "Linear-URL:"@)
            &&& commit.issue is Some <==> commit.linked
        }),
{
    let lines = text::lines_of(full);
    if first_labelled(lines, at) {
        labelled_message_holds_the_label(full, at);
        trailer_is_on_the_first_labelled_line(lines, at);
    }
}

/// A line of Jujutsu's log gives a change and the first line of its description.
pub proof fn change_is_divided_at_the_space(id: Seq<char>, description: Seq<char>)
    requires
        !id.contains(' '),
        id.len() > 0,
        !text::is_white(id[0]),
    ensures
        change_parts(id.push(' ') + description) == Some((id, description)),
        change_parts(id) == Some((id, ""@)),
{
    text::text_is_cut_at_the_character(id, ' ', description);
    text::ink_is_not_blank(id, 0);
    let line = id.push(' ') + description;
    assert(line[0] == id[0]);
    text::ink_is_not_blank(line, 0);
}

/// A message has no line that begins with the label of a trailer.
pub open spec fn none_labelled(lines: Seq<Seq<char>>) -> bool {
    forall|k: int|
        0 <= k < lines.len() ==> !text::starts_with(#[trigger] lines[k], "Linear-Issue:"@)
}

/// The issue of a message is the one in its first trailer; without a trailer it is the one in
/// brackets, and only then one behind a URL of Linear, where there is such a URL.
pub proof fn trailer_wins_over_brackets_and_urls(message: Seq<char>, at: int, from: int)
    ensures
        first_labelled(text::lines_of(message), at) ==> linear_issue(message) == Some(
            text::trim(text::lines_of(message)[at].skip(13)),
        ),
        none_labelled(text::lines_of(message)) && captured(BRACKETED_ISSUE@, message) is Some
            ==> linear_issue(message) == captured(BRACKETED_ISSUE@, message),
        none_labelled(text::lines_of(message)) && captured(BRACKETED_ISSUE@, message) is None
            && !text::contains_text(message, "linear.app/"@) ==> linear_issue(message) is None,
        none_labelled(text::lines_of(message)) && captured(BRACKETED_ISSUE@, message) is None
            && text::first_occurrence(message, "linear.app/"@, Some(from)) ==> linear_issue(message)
            == captured(PLAIN_ISSUE@, message.skip(from)),
{
    let lines = text::lines_of(message);
    let url = "linear.app/"@;
    if first_labelled(lines, at) {
        trailer_is_on_the_first_labelled_line(lines, at);
    }
    if none_labelled(lines) {
        no_trailer_without_a_label(lines);
        text::text_from_a_part_begins_with_it(message, url);
        if text::from_part(message, url) is Some {
            let place = message.len() - text::from_part(message, url)->0.len();
            assert(text::occurs_at(message, url, place));
            assert(text::first_occurrence(message, url, Some(from)) ==> place == from);
        }
    }
}

/// The branch is the one that was asked for; else the one that Linear suggests, where it is
/// a name that can be used; else one that begins with the identifier in lower case.
pub proof fn branch_is_the_one_asked_for(
    custom: Seq<char>,
    linear_valid: bool,
    info: IssueInfoView,
)
    ensures
        chosen_branch(Some(custom), linear_valid, info) == custom,
        info.branch_name.len() > 0 && linear_valid ==> chosen_branch(None, linear_valid, info)
            == info.branch_name,
        info.branch_name.len() == 0 || !linear_valid ==> text::starts_with(
            chosen_branch(None, linear_valid, info),
            text::ascii_lower(info.identifier),
        ),
{
    let made = vcs::branch_name(info.identifier, info.title);
    let start = text::ascii_lower(info.identifier);
    assert(made.subrange(0, start.len() as int) =~= start);
}

/// A checkout ends on the branch: an existing one is taken as it is, and one that is not
/// there is created.
pub proof fn checkout_ends_on_the_branch(
    vcs: Vcs,
    exists_now: bool,
    branch: Seq<char>,
    info: IssueInfoView,
)
    ensures
        ({
            let steps = checkout_plan(vcs, exists_now, branch, info);
            let last = steps.last();
            &&& steps.len() > 0
            &&& last.subject == branch
            &&& last.args.last() == branch
            &&& exists_now ==> steps.len() == 1 && last.args.len() == 2
            &&& !exists_now && vcs == Vcs::Git ==> last.args == seq!["checkout"@, "-b"@, branch]
            &&& exists_now && vcs == Vcs::Git ==> last.args == seq!["checkout"@, branch]
            &&& exists_now && vcs == Vcs::Jj ==> last.args == seq!["edit"@, branch]
            &&& !exists_now && vcs == Vcs::Jj ==> last.args == seq!["bookmark"@, "create"@, branch]
                && steps.len() == 2 && steps[0].args == seq!["new"@, "-m"@, jj_description(info)]
        }),
{
}

/// Creating a branch makes that branch; in Jujutsu the new change is described by the issue,
/// and the working copy goes back to where it was.
pub proof fn branch_is_created_for_the_issue(vcs: Vcs, branch: Seq<char>, info: IssueInfoView)
    ensures
        ({
            let commands = create_commands(vcs, branch, info);
            &&& vcs == Vcs::Git ==> commands.len() == 1 && commands[0] == seq!["branch"@, branch]
            &&& vcs == Vcs::Jj ==> {
                &&& commands.len() == 3
                &&& commands[0].last() == jj_description(info)
                &&& commands[1] == seq!["bookmark"@, "create"@, branch]
                &&& commands[2] == seq!["prev"@]
            }
        }),
        text::starts_with(jj_description(info), info.identifier + ": "@ + info.title),
        text::contains_text(jj_description(info), "Linear-Issue: "@ + info.identifier),
        text::contains_text(jj_description(info), "Linear-URL: "@ + info.url),
{
    reveal_strlit("\n\nLinear-Issue: ");
    reveal_strlit("Linear-Issue: ");
    reveal_strlit("\nLinear-URL: ");
    reveal_strlit("Linear-URL: ");
    let whole = jj_description(info);
    let first = info.identifier + ": "@ + info.title;
    assert(whole.subrange(0, first.len() as int) =~= first);
    let named = "Linear-Issue: "@ + info.identifier;
    let from = first.len() + 2int;
    assert(whole.subrange(from, from + named.len()) =~= named);
    text::subrange_occurs(whole, from, from + named.len());
    let located = "Linear-URL: "@ + info.url;
    let last = whole.len() - located.len();
    assert(whole.subrange(last, whole.len() as int) =~= located);
    text::subrange_occurs(whole, last, whole.len() as int);
}

/// A pull request carries the identifier and the title of the issue, its URL and the base
/// branch, and is a draft, or opened in the browser, exactly where that was asked for.
pub proof fn pull_request_carries_the_issue(
    info: IssueInfoView,
    base: Seq<char>,
    draft: bool,
    web: bool,
)
    ensures
        ({
            let args = pr_command(info, base, draft, web);
            &&& args[0] == "pr"@ && args[1] == "create"@
            &&& args[2] == "--title"@ && args[3] == "["@ + info.identifier + "] "@ + info.title
            &&& args[4] == "--body"@ && text::contains_text(args[5], info.url)
            &&& args[6] == "--base"@ && args[7] == base
            &&& draft ==> args[8] == "--draft"@
            &&& web ==> args.last() == "--web"@
            &&& args.len() == 8 + (if draft {
                1int
            } else {
                0
            }) + (if web {
                1int
            } else {
                0
            })
        }),
{
    let body = "Linear: "@ + info.url;
    let from = "Linear: "@.len() as int;
    assert(body.subrange(from, body.len() as int) =~= info.url);
    text::subrange_occurs(body, from, body.len() as int);
}

/// The log is asked for as many commits as are wanted.
pub proof fn log_is_asked_for_the_limit(vcs: Vcs, limit: usize)
    ensures
        log_command(vcs, limit)[0] == "log"@,
        vcs == Vcs::Git ==> log_command(vcs, limit)[1] == "-"@ + text::decimal(limit as nat),
        vcs == Vcs::Jj ==> text::contains_text(
            log_command(vcs, limit)[2],
            text::decimal(limit as nat),
        ),
{
    let revision = "ancestors(@, "@ + text::decimal(limit as nat) + ")"@;
    let from = "ancestors(@, "@.len() as int;
    let number = text::decimal(limit as nat);
    assert(revision.subrange(from, from + number.len()) =~= number);
    text::subrange_occurs(revision, from, from + number.len());
}

/// The issue that a branch is made from is what the answer says of it.
pub proof fn issue_is_read_field_by_field(issue: JsonView)
    ensures
        issue.at("identifier"@) is Text ==> issue_info(issue).identifier == issue.at(
            "identifier"@,
        )->Text_0,
        issue.at("title"@) is Text ==> issue_info(issue).title == issue.at("title"@)->Text_0,
        issue.at("branchName"@) is Text ==> issue_info(issue).branch_name == issue.at(
            "branchName"@,
        )->Text_0,
        issue.at("url"@) is Text ==> issue_info(issue).url == issue.at("url"@)->Text_0,
        !(issue.at("branchName"@) is Text) ==> issue_info(issue).branch_name.len() == 0,
{
    reveal_strlit("");
}

/// A bookmark is there exactly where a line of the listing begins with its name.
pub proof fn bookmark_is_listed_by_its_name(listing: Seq<char>, branch: Seq<char>)
    ensures
        !listed(None, branch),
        listed(Some(listing), branch) <==> exists|i: int|
            0 <= i < text::lines_of(listing).len() && text::starts_with(
                #[trigger] text::lines_of(listing)[i],
                branch,
            ),
{
}

/// Which system a search ends with, given which signs there are, from a step of it on.
pub open spec fn search_from(
    step: DetectionView,
    signs: spec_fn(Probe) -> bool,
    steps: nat,
) -> Option<Vcs>
    decreases steps,
{
    match step {
        DetectionView::Found(vcs) => Some(vcs),
        DetectionView::Failed(_) => None,
        DetectionView::Look(probe) => if steps == 0 {
            None
        } else {
            search_from(detected(probe, signs(probe)), signs, (steps - 1) as nat)
        },
    }
}

/// The system that the user asks for is taken. Else it is Jujutsu where one of its signs is
/// there, else Git where one of its is, and there is none without any sign.
pub proof fn signs_decide_the_system(vcs_flag: Option<Vcs>, signs: spec_fn(Probe) -> bool)
    ensures
        ({
            let r = search_from(first_detection(vcs_flag), signs, 4);
            let jj = signs(Probe::JjDirectory) || signs(Probe::JjStatus);
            let git = signs(Probe::GitDirectory) || signs(Probe::GitStatus);
            &&& vcs_flag is Some ==> r == vcs_flag
            &&& vcs_flag is None && jj ==> r == Some(Vcs::Jj)
            &&& vcs_flag is None && !jj && git ==> r == Some(Vcs::Git)
            &&& vcs_flag is None && !jj && !git ==> r is None
        }),
{
    reveal_with_fuel(search_from, 5);
}

/// The issue is asked for by its id and read from the answer; one that is not there is named
/// in the failure.
pub proof fn asked_issue_is_the_one_read(issue_id: Seq<char>, response: JsonView)
    ensures
        issue_question(issue_id).variables is Some,
        issue_question(issue_id).variables->0.get("id"@) == Some(JsonView::Text(issue_id)),
        answered_info(issue_id, response) is Err <==> response.at("data"@).at("issue"@) is Null,
        answered_info(issue_id, response) matches Ok(info) ==> info == issue_info(
            response.at("data"@).at("issue"@),
        ),
        answered_info(issue_id, response) matches Err(failure) ==> text::contains_text(
            failure.shown(),
            issue_id,
        ),
{
    broadcast use crate::json::group_fields;

    let message = "Issue not found: "@ + issue_id;
    let from = "Issue not found: "@.len() as int;
    assert(message.subrange(from, message.len() as int) =~= issue_id);
    text::subrange_occurs(message, from, message.len() as int);
}

/// A branch that is there is not created again; either way what is said names it.
pub proof fn existing_branch_is_left_alone(
    vcs: Vcs,
    exists_now: bool,
    branch: Seq<char>,
    info: IssueInfoView,
)
    ensures
        ({
            let plan = planned_branch(vcs, exists_now, branch, info);
            let line = match plan {
                CreatePlanView::Exists { line } => line,
                CreatePlanView::Run { line, .. } => line,
            };
            &&& plan is Exists <==> exists_now
            &&& !exists_now ==> plan->commands == create_commands(vcs, branch, info)
            &&& text::contains_text(line, branch)
        }),
        bookmark_question(branch, true) matches Some(args) && args.last() == branch,
        bookmark_question(branch, false) is None,
{
    let line = match planned_branch(vcs, exists_now, branch, info) {
        CreatePlanView::Exists { line } => line,
        CreatePlanView::Run { line, .. } => line,
    };
    let from = line.len() - branch.len();
    assert(line.subrange(from, line.len() as int) =~= branch);
    text::subrange_occurs(line, from, line.len() as int);
}

/// What is said at the end names where the user is, and the pull request where it is known.
pub proof fn outcome_is_told(vcs: Vcs, current: Seq<char>, result: Seq<char>)
    ensures
        text::contains_text(now_on_text(vcs, current), current),
        result.len() > 0 ==> text::contains_text(pr_text(result), result),
{
    let now = now_on_text(vcs, current);
    let from = now.len() - current.len();
    assert(now.subrange(from, now.len() as int) =~= current);
    text::subrange_occurs(now, from, now.len() as int);
    if result.len() > 0 {
        let said = pr_text(result);
        let start = said.len() - result.len();
        assert(said.subrange(start, said.len() as int) =~= result);
        text::subrange_occurs(said, start, said.len() as int);
    }
}

/// The branches of an issue are shown: the one that Linear names, where there is one, the
/// generated one, and the URL of the issue.
pub proof fn branches_of_the_issue_are_shown(info: IssueInfoView)
    ensures
        ({
            let rows = branch_rows(info);
            &&& info.branch_name.len() > 0 ==> rows.len() == 3 && rows[0].1 == info.branch_name
            &&& info.branch_name.len() == 0 ==> rows.len() == 2
            &&& rows[rows.len() - 2].1 == vcs::branch_name(info.identifier, info.title)
            &&& rows.last().1 == info.url
        }),
{
}

} // verus!
