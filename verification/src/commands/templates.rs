//! Issue templates: those kept locally, and those of the workspace.
use vstd::prelude::*;
use vstd::string::*;

use crate::api;
use crate::api::{Request, RequestView};
use crate::commands::cycles;
use crate::commands::update;
use crate::commands::update::{UpdatePlan, UpdatePlanView};
use crate::error::{Failure, FailureView};
use crate::json;
use crate::json::{Json, JsonNumber, JsonNumberView, JsonView};
use crate::json_text;
use crate::name_map::NameMap;
use crate::priority;
use crate::text;
use crate::text::{clone_text, joined2, joined3, same_text};

verus! {

pub fn safe_terminal_value(value: &str) -> (r: String)
    ensures
        r@ == text::scan_text(value@).1,
{
    text::sanitize_terminal_text(value)
}

pub open spec fn safe(s: Seq<char>) -> Seq<char> {
    text::scan_text(s).1
}

/// Issue template structure for creating issues with predefined values
#[derive(Debug)]
pub struct IssueTemplate {
    /// Template name (used as identifier)
    pub name: String,
    /// Optional prefix to add to issue titles
    pub title_prefix: Option<String>,
    /// Default description for the issue
    pub description: Option<String>,
    /// Default priority (0=none, 1=urgent, 2=high, 3=normal, 4=low)
    pub default_priority: Option<i32>,
    /// Default labels to apply
    pub default_labels: Vec<String>,
    /// Default team name or ID
    pub team: Option<String>,
}

#[verifier::ext_equal]
pub struct IssueTemplateView {
    pub name: Seq<char>,
    pub title_prefix: Option<Seq<char>>,
    pub description: Option<Seq<char>>,
    pub default_priority: Option<i32>,
    pub default_labels: Seq<Seq<char>>,
    pub team: Option<Seq<char>>,
}

impl View for IssueTemplate {
    type V = IssueTemplateView;

    open spec fn view(&self) -> IssueTemplateView {
        IssueTemplateView {
            name: self.name@,
            title_prefix: self.title_prefix.deep_view(),
            description: self.description.deep_view(),
            default_priority: self.default_priority,
            default_labels: self.default_labels.deep_view(),
            team: self.team.deep_view(),
        }
    }
}

impl DeepView for IssueTemplate {
    type V = IssueTemplateView;

    open spec fn deep_view(&self) -> IssueTemplateView {
        self@
    }
}

impl Clone for IssueTemplate {
    fn clone(&self) -> (r: IssueTemplate)
        ensures
            r@ == self@,
    {
        IssueTemplate {
            name: self.name.clone(),
            title_prefix: clone_text(&self.title_prefix),
            description: clone_text(&self.description),
            default_priority: self.default_priority,
            default_labels: text::clone_texts(&self.default_labels),
            team: clone_text(&self.team),
        }
    }
}

/// Storage for all templates
pub struct TemplateStore {
    pub templates: NameMap<IssueTemplate>,
}

impl View for TemplateStore {
    type V = Map<Seq<char>, IssueTemplateView>;

    open spec fn view(&self) -> Map<Seq<char>, IssueTemplateView> {
        self.templates@
    }
}

impl Default for TemplateStore {
    fn default() -> (r: TemplateStore)
        ensures
            r@ == Map::<Seq<char>, IssueTemplateView>::empty(),
    {
        TemplateStore { templates: NameMap::new() }
    }
}

pub enum TemplateCommands {
    /// List available templates
    List,
    /// Create a new local template
    Create {
        /// Template name
        name: String,
        flags: TemplateFlags,
    },
    /// Show template details
    Show {
        /// Template name
        name: String,
    },
    /// Delete a template
    Delete {
        /// Template name
        name: String,
        /// Skip confirmation
        force: bool,
    },
    /// List Linear workspace templates
    RemoteList {
        /// Filter by type: issue, project, document
        template_type: Option<String>,
    },
    /// Get a Linear workspace template
    RemoteGet {
        /// Template ID
        id: String,
    },
    /// Create a Linear workspace template
    RemoteCreate {
        /// Template name
        name: String,
        /// Template type: issue, project, document
        template_type: String,
        /// Team key/name/ID (for issue templates)
        team: Option<String>,
        /// Template description
        description: Option<String>,
        /// Template data as JSON string
        data: Option<String>,
    },
    /// Update a Linear workspace template
    RemoteUpdate {
        /// Template ID
        id: String,
        /// New name
        name: Option<String>,
        /// New description
        description: Option<String>,
        /// New template data as JSON
        data: Option<String>,
    },
    /// Delete a Linear workspace template
    RemoteDelete {
        /// Template ID
        id: String,
        /// Skip confirmation
        force: bool,
    },
}

/// The values of a template that are given with the command.
#[derive(Debug)]
pub struct TemplateFlags {
    /// Prefix to add to issue titles
    pub title_prefix: Option<String>,
    /// Default issue description
    pub description: Option<String>,
    /// Default priority (0=none, 1=urgent, 2=high, 3=normal, 4=low)
    pub default_priority: Option<i32>,
    /// Default labels to apply
    pub labels: Vec<String>,
    /// Default team name, key, or ID
    pub team: Option<String>,
}

pub open spec fn stored(
    store: Map<Seq<char>, IssueTemplateView>,
    name: Seq<char>,
) -> Option<IssueTemplateView> {
    if store.contains_key(name) {
        Some(store[name])
    } else {
        None
    }
}

/// The template of a name.
pub fn get_template(store: &TemplateStore, name: &str) -> (r: Option<IssueTemplate>)
    ensures
        r.deep_view() == stored(store@, name@),
{
    match store.templates.get(name) {
        Some(template) => Some(template.clone()),
        None => None,
    }
}

/// A template as JSON; what it does not set is left out.
pub open spec fn template_json(template: IssueTemplateView) -> JsonView {
    let base = JsonView::object().with("name"@, JsonView::Text(template.name)).with_some(
        "title_prefix"@,
        template.title_prefix,
    ).with_some("description"@, template.description);
    let with_priority = match template.default_priority {
        Some(p) => base.with("default_priority"@, priority_json(p)),
        None => base,
    };
    let with_labels = if template.default_labels.len() == 0 {
        with_priority
    } else {
        with_priority.with("default_labels"@, JsonView::texts(template.default_labels))
    };
    with_labels.with_some("team"@, template.team)
}

pub open spec fn priority_json(p: i32) -> JsonView {
    if p >= 0 {
        JsonView::Number(JsonNumberView::Unsigned(p as u64))
    } else {
        JsonView::Number(JsonNumberView::Negative(p as i64))
    }
}

pub fn template_payload(template: &IssueTemplate) -> (r: Json)
    ensures
        r@ == template_json(template@),
{
    let mut out = Json::object().with("name", Json::text(template.name.as_str())).with_some(
        "title_prefix",
        &template.title_prefix,
    ).with_some("description", &template.description);
    match template.default_priority {
        Some(p) => {
            let number = if p >= 0 {
                Json::number(p as u64)
            } else {
                Json::Number(JsonNumber::Negative(p as i64))
            };
            out = out.with("default_priority", number);
        },
        None => {},
    }
    assert(template.default_labels.deep_view().len() == template.default_labels@.len());
    if template.default_labels.len() > 0 {
        out = out.with("default_labels", Json::texts(&template.default_labels));
    }
    out.with_some("team", &template.team)
}

/// The names of templates stand in order.
pub open spec fn ordered_by_name(templates: Seq<IssueTemplateView>) -> bool {
    forall|i: int, j: int|
        0 <= i <= j < templates.len() ==> text::comes_first(
            (#[trigger] templates[i]).name,
            (#[trigger] templates[j]).name,
        )
}

pub open spec fn template_views(templates: Seq<IssueTemplate>) -> Seq<IssueTemplateView> {
    Seq::new(templates.len(), |i: int| templates[i]@)
}

/// The templates of a store, in the order in which they were added.
pub open spec fn stored_templates(store: TemplateStore) -> Seq<IssueTemplateView> {
    Seq::new(store.templates.pairs().len(), |i: int| store.templates.pairs()[i].1)
}

fn insert_in_order(out: &mut Vec<IssueTemplate>, template: IssueTemplate)
    requires
        ordered_by_name(template_views(old(out)@)),
    ensures
        ordered_by_name(template_views(final(out)@)),
        template_views(final(out)@).to_multiset() == template_views(
            old(out)@,
        ).to_multiset().insert(template@),
{
    let ghost before = template_views(out@);
    let mut at: usize = out.len();
    while at > 0 && !text::text_comes_first(out[at - 1].name.as_str(), template.name.as_str())
        invariant
            at <= out@.len(),
            before == template_views(out@),
            forall|k: int|
                at <= k < before.len() ==> !text::comes_first(
                    (#[trigger] before[k]).name,
                    template@.name,
                ),
        decreases at,
    {
        assert(before[at - 1] == out@[at - 1]@);
        at -= 1;
    }
    let ghost stays = at > 0 ==> text::comes_first(before[at - 1].name, template@.name);
    assert(stays) by {
        if at > 0 {
            assert(before[at - 1] == out@[at - 1]@);
        }
    }
    out.insert(at, template);
    proof {
        let after = template_views(out@);
        let pos = at as int;
        assert(after =~= before.insert(pos, template@));
        vstd::seq_lib::to_multiset_insert(before, pos, template@);
        assert forall|i: int, j: int| 0 <= i <= j < after.len() implies text::comes_first(
            (#[trigger] after[i]).name,
            (#[trigger] after[j]).name,
        ) by {
            if i == pos && j == pos {
                text::text_order_is_total(template@.name, template@.name, template@.name);
            } else if i == pos {
                assert(after[j] == before[j - 1]);
                text::text_order_is_total(template@.name, before[j - 1].name, template@.name);
            } else if j == pos {
                assert(after[i] == before[i]);
                assert(text::comes_first(before[i].name, before[pos - 1].name));
                text::text_order_is_total(
                    before[i].name,
                    before[pos - 1].name,
                    template@.name,
                );
            } else {
                let a = if i < pos {
                    i
                } else {
                    i - 1
                };
                let b = if j < pos {
                    j
                } else {
                    j - 1
                };
                assert(after[i] == before[a]);
                assert(after[j] == before[b]);
            }
        }
    }
}

/// The templates of a store, ordered by name.
pub fn sorted_templates(store: &TemplateStore) -> (r: Vec<IssueTemplate>)
    ensures
        ordered_by_name(template_views(r@)),
        template_views(r@).to_multiset() == stored_templates(*store).to_multiset(),
{
    let ghost all = stored_templates(*store);
    let mut out: Vec<IssueTemplate> = Vec::new();
    let mut i: usize = 0;
    assert(template_views(out@) =~= all.take(0));
    while i < store.templates.len()
        invariant
            i <= all.len(),
            all == stored_templates(*store),
            all.len() == store.templates.pairs().len(),
            ordered_by_name(template_views(out@)),
            template_views(out@).to_multiset() == all.take(i as int).to_multiset(),
        decreases all.len() - i,
    {
        let template = store.templates.value_at(i).clone();
        proof {
            assert(all.take(i + 1) =~= all.take(i as int).push(template@));
            vstd::seq_lib::to_multiset_build(all.take(i as int), template@);
        }
        insert_in_order(&mut out, template);
        i += 1;
    }
    assert(all.take(i as int) =~= all);
    out
}

/// One row of the table of templates.
#[derive(Debug)]
pub struct TemplateRow {
    pub name: String,
    pub title_prefix: String,
    pub team: String,
    pub priority: String,
    pub labels: String,
}

pub open spec fn or_dash(value: Option<Seq<char>>) -> Seq<char> {
    match value {
        Some(s) => s,
        None => "-"@,
    }
}

/// What a row shows of the labels.
pub open spec fn shown_labels(labels: Seq<Seq<char>>, width: Option<usize>) -> Seq<char> {
    if labels.len() == 0 {
        "-"@
    } else {
        text::shortened(safe(text::join_with(labels, ", "@)), width)
    }
}

pub open spec fn wide_priority(p: Option<i32>) -> Option<i64> {
    match p {
        Some(p) => Some(p as i64),
        None => None,
    }
}

/// A row shows a template.
pub open spec fn row_shows(
    row: TemplateRow,
    template: IssueTemplateView,
    width: Option<usize>,
    labels_width: Option<usize>,
) -> bool {
    &&& row.name@ == text::shortened(safe(template.name), width)
    &&& row.title_prefix@ == text::shortened(safe(or_dash(template.title_prefix)), width)
    &&& row.team@ == text::shortened(safe(or_dash(template.team)), width)
    &&& priority::shows(wide_priority(template.default_priority), row.priority@)
    &&& row.labels@ == shown_labels(template.default_labels, labels_width)
}

fn text_or_dash(value: &Option<String>) -> (r: String)
    ensures
        r@ == or_dash(value.deep_view()),
{
    match value {
        Some(s) => s.clone(),
        None => "-".to_string(),
    }
}

fn shown(value: &str, width: Option<usize>) -> (r: String)
    ensures
        r@ == text::shortened(safe(value@), width),
{
    text::truncate(safe_terminal_value(value).as_str(), width)
}

fn widened(p: Option<i32>) -> (r: Option<i64>)
    ensures
        r == wide_priority(p),
{
    match p {
        Some(p) => Some(p as i64),
        None => None,
    }
}

fn row_of_template(template: &IssueTemplate, width: Option<usize>, labels_width: Option<usize>) -> (r:
    TemplateRow)
    ensures
        row_shows(r, template@, width, labels_width),
{
    assert(template.default_labels.deep_view().len() == template.default_labels@.len());
    let labels = if template.default_labels.len() == 0 {
        "-".to_string()
    } else {
        shown(text::join_texts(&template.default_labels, ", ").as_str(), labels_width)
    };
    TemplateRow {
        name: shown(template.name.as_str(), width),
        title_prefix: shown(text_or_dash(&template.title_prefix).as_str(), width),
        team: shown(text_or_dash(&template.team).as_str(), width),
        priority: priority::priority_to_string(widened(template.default_priority)),
        labels,
    }
}

/// The rows of the table of templates, one for each.
pub fn list_templates(
    templates: &Vec<IssueTemplate>,
    width: Option<usize>,
    labels_width: Option<usize>,
) -> (r: Vec<TemplateRow>)
    ensures
        r@.len() == templates@.len(),
        forall|i: int|
            0 <= i < r@.len() ==> row_shows(
                #[trigger] r@[i],
                templates@[i]@,
                width,
                labels_width,
            ),
{
    let mut rows: Vec<TemplateRow> = Vec::new();
    let mut i: usize = 0;
    while i < templates.len()
        invariant
            i <= templates@.len(),
            rows@.len() == i,
            forall|k: int|
                0 <= k < i ==> row_shows(
                    #[trigger] rows@[k],
                    templates@[k]@,
                    width,
                    labels_width,
                ),
        decreases templates@.len() - i,
    {
        rows.push(row_of_template(&templates[i], width, labels_width));
        i += 1;
    }
    rows
}

pub const EXISTS: &'static str =
    "Template already exists. Delete it first or choose a different name.";

pub open spec fn bad_priority(p: i32) -> Seq<char> {
    "Invalid priority: "@ + text::signed_decimal(p as int)
        + ". Use 0=none, 1=urgent, 2=high, 3=normal, or 4=low."@
}

/// Why a template cannot be created.
pub open spec fn create_fault(
    store: Map<Seq<char>, IssueTemplateView>,
    name: Seq<char>,
    flags: TemplateFlags,
) -> Option<Seq<char>> {
    if store.contains_key(name) {
        Some(EXISTS@)
    } else if flags.default_priority is Some && !(0 <= flags.default_priority->0 <= 4) {
        Some(bad_priority(flags.default_priority->0))
    } else {
        None
    }
}

pub open spec fn has_values(flags: TemplateFlags) -> bool {
    ||| flags.title_prefix is Some
    ||| flags.description is Some
    ||| flags.default_priority is Some
    ||| flags.labels@.len() > 0
    ||| flags.team is Some
}

/// The template that flags describe: no priority stands for none, and labels are
/// trimmed.
pub open spec fn template_of_flags(name: Seq<char>, flags: TemplateFlags) -> IssueTemplateView {
    IssueTemplateView {
        name,
        title_prefix: flags.title_prefix.deep_view(),
        description: flags.description.deep_view(),
        default_priority: match flags.default_priority {
            Some(p) => if p == 0 {
                None
            } else {
                Some(p)
            },
            None => None,
        },
        default_labels: text::trimmed_non_empty(flags.labels.deep_view()),
        team: flags.team.deep_view(),
    }
}

/// How a template is created.
#[derive(Debug)]
pub enum CreatePlan {
    /// The values are asked for.
    Ask,
    /// The template is only shown.
    Preview(Json),
    Store(IssueTemplate),
}

#[verifier::ext_equal]
pub enum CreatePlanView {
    Ask,
    Preview(JsonView),
    Store(IssueTemplateView),
}

impl View for CreatePlan {
    type V = CreatePlanView;

    open spec fn view(&self) -> CreatePlanView {
        match self {
            CreatePlan::Ask => CreatePlanView::Ask,
            CreatePlan::Preview(payload) => CreatePlanView::Preview(payload@),
            CreatePlan::Store(template) => CreatePlanView::Store(template@),
        }
    }
}

/// How a template is created from flags that have no fault.
pub open spec fn planned_template(
    name: Seq<char>,
    flags: TemplateFlags,
    for_machines: bool,
    dry_run: bool,
) -> CreatePlanView {
    let template = template_of_flags(name, flags);
    if dry_run {
        CreatePlanView::Preview(dry_run_payload(template))
    } else if has_values(flags) || for_machines {
        CreatePlanView::Store(template)
    } else {
        CreatePlanView::Ask
    }
}

pub open spec fn dry_run_payload(template: IssueTemplateView) -> JsonView {
    JsonView::object().with("dry_run"@, JsonView::Bool(true)).with(
        "would_create"@,
        template_json(template),
    )
}

fn template_from_flags(name: &str, flags: &TemplateFlags) -> (r: IssueTemplate)
    ensures
        r@ == template_of_flags(name@, *flags),
{
    let default_priority = match flags.default_priority {
        Some(p) => if p == 0 {
            None
        } else {
            Some(p)
        },
        None => None,
    };
    IssueTemplate {
        name: name.to_string(),
        title_prefix: clone_text(&flags.title_prefix),
        description: clone_text(&flags.description),
        default_priority,
        default_labels: text::trim_all(&flags.labels),
        team: clone_text(&flags.team),
    }
}

/// Decides how a template is created: from the flags where there are any, where
/// the output is for machines, or in a dry run; else by asking.
pub fn create_template(
    store: &TemplateStore,
    name: &str,
    flags: &TemplateFlags,
    for_machines: bool,
    dry_run: bool,
) -> (r: Result<CreatePlan, Failure>)
    ensures
        match create_fault(store@, name@, *flags) {
            Some(message) => r is Err && r->Err_0@ == FailureView::message(message),
            None => r is Ok && r->Ok_0@ == planned_template(name@, *flags, for_machines, dry_run),
        },
{
    if store.templates.contains(name) {
        return Err(Failure::message(EXISTS));
    }
    match flags.default_priority {
        Some(p) => {
            if p < 0 || p > 4 {
                return Err(
                    Failure::message(
                        joined3(
                            "Invalid priority: ",
                            text::signed_text(p as i64).as_str(),
                            ". Use 0=none, 1=urgent, 2=high, 3=normal, or 4=low.",
                        ).as_str(),
                    ),
                );
            }
        },
        None => {},
    }
    let values = flags.title_prefix.is_some() || flags.description.is_some()
        || flags.default_priority.is_some() || flags.labels.len() > 0 || flags.team.is_some();
    if dry_run {
        let template = template_from_flags(name, flags);
        let payload = Json::object().with("dry_run", Json::Bool(true)).with(
            "would_create",
            template_payload(&template),
        );
        return Ok(CreatePlan::Preview(payload));
    }
    if values || for_machines {
        return Ok(CreatePlan::Store(template_from_flags(name, flags)));
    }
    Ok(CreatePlan::Ask)
}

/// What was answered when the values of a template were asked for.
pub struct TemplateAnswers {
    pub title_prefix: String,
    pub description: String,
    /// Position in the list of priorities, none first.
    pub priority: usize,
    pub team: String,
    /// Separated by commas.
    pub labels: String,
}

pub open spec fn given(answer: Seq<char>) -> Option<Seq<char>> {
    if answer.len() == 0 {
        None
    } else {
        Some(answer)
    }
}

pub open spec fn template_of_answers(name: Seq<char>, answers: TemplateAnswers) -> IssueTemplateView {
    IssueTemplateView {
        name,
        title_prefix: given(answers.title_prefix@),
        description: given(answers.description@),
        default_priority: if 1 <= answers.priority <= 4 {
            Some(answers.priority as i32)
        } else {
            None
        },
        default_labels: if answers.labels@.len() == 0 {
            Seq::empty()
        } else {
            text::list_items(answers.labels@)
        },
        team: given(answers.team@),
    }
}

fn answer(s: &String) -> (r: Option<String>)
    ensures
        r.deep_view() == given(s@),
{
    if s.as_str().is_empty() {
        None
    } else {
        Some(s.clone())
    }
}

/// The template that answers describe; an empty answer leaves a value out.
pub fn template_from_answers(name: &str, answers: &TemplateAnswers) -> (r: IssueTemplate)
    ensures
        r@ == template_of_answers(name@, *answers),
{
    let default_priority = if answers.priority >= 1 && answers.priority <= 4 {
        Some(answers.priority as i32)
    } else {
        None
    };
    let default_labels = if answers.labels.as_str().is_empty() {
        text::no_texts()
    } else {
        text::split_list(answers.labels.as_str())
    };
    IssueTemplate {
        name: name.to_string(),
        title_prefix: answer(&answers.title_prefix),
        description: answer(&answers.description),
        default_priority,
        default_labels,
        team: answer(&answers.team),
    }
}

/// Keeps a template under its name.
pub fn store_template(store: &mut TemplateStore, name: &str, template: IssueTemplate)
    ensures
        final(store)@ == old(store)@.insert(name@, template@),
{
    store.templates.insert(name, template);
}

/// The lines that show a template under its name; the priority is shown as given.
pub open spec fn detail_lines(template: IssueTemplateView, priority: Seq<char>) -> Seq<Seq<char>> {
    let safe_or_dash = |value: Option<Seq<char>>|
        match value {
            Some(s) => safe(s),
            None => "-"@,
        };
    seq![
        "Title Prefix: "@ + safe_or_dash(template.title_prefix),
        "Description:  "@ + safe_or_dash(template.description),
        "Priority:     "@ + priority,
        "Team:         "@ + safe_or_dash(template.team),
        "Labels:       "@ + if template.default_labels.len() == 0 {
            "-"@
        } else {
            safe(text::join_with(template.default_labels, ", "@))
        },
    ]
}

fn safe_text_or_dash(value: &Option<String>) -> (r: String)
    ensures
        r@ == (match value.deep_view() {
            Some(s) => safe(s),
            None => "-"@,
        }),
{
    match value {
        Some(s) => safe_terminal_value(s.as_str()),
        None => "-".to_string(),
    }
}

/// Shows the template of a name.
pub fn show_template(store: &TemplateStore, name: &str) -> (r: Result<IssueTemplate, Failure>)
    ensures
        match stored(store@, name@) {
            Some(template) => r is Ok && r->Ok_0@ == template,
            None => r is Err && r->Err_0@ == FailureView::message("Template not found"@),
        },
{
    match get_template(store, name) {
        Some(template) => Ok(template),
        None => Err(Failure::message("Template not found")),
    }
}

pub fn lines_of_template(template: &IssueTemplate) -> (r: Vec<String>)
    ensures
        exists|shown: Seq<char>|
            priority::shows(wide_priority(template@.default_priority), shown) && r.deep_view()
                == #[trigger] detail_lines(template@, shown),
{
    let shown = priority::priority_to_string(widened(template.default_priority));
    assert(template.default_labels.deep_view().len() == template.default_labels@.len());
    let labels = if template.default_labels.len() == 0 {
        "-".to_string()
    } else {
        safe_terminal_value(text::join_texts(&template.default_labels, ", ").as_str())
    };
    let mut lines: Vec<String> = Vec::new();
    lines.push(joined2("Title Prefix: ", safe_text_or_dash(&template.title_prefix).as_str()));
    lines.push(joined2("Description:  ", safe_text_or_dash(&template.description).as_str()));
    lines.push(joined2("Priority:     ", shown.as_str()));
    lines.push(joined2("Team:         ", safe_text_or_dash(&template.team).as_str()));
    lines.push(joined2("Labels:       ", labels.as_str()));
    assert(lines.deep_view() =~= detail_lines(template@, shown@));
    lines
}

/// Why a template is not deleted.
pub open spec fn delete_fault(
    store: Map<Seq<char>, IssueTemplateView>,
    name: Seq<char>,
    force: bool,
    yes: bool,
) -> Option<Seq<char>> {
    if !store.contains_key(name) {
        Some("Template not found"@)
    } else if !force && !yes {
        Some("Delete requires --force flag. Use: linear templates delete "@ + name + " --force"@)
    } else {
        None
    }
}

/// The templates that are left after a deletion.
pub open spec fn left_templates(
    store: Map<Seq<char>, IssueTemplateView>,
    name: Seq<char>,
    force: bool,
    yes: bool,
) -> Map<Seq<char>, IssueTemplateView> {
    if delete_fault(store, name, force, yes) is None {
        store.remove(name)
    } else {
        store
    }
}

/// Deletes the template of a name; it must be forced or agreed to.
pub fn delete_template(store: &mut TemplateStore, name: &str, force: bool, yes: bool) -> (r: Result<
    (),
    Failure,
>)
    ensures
        match delete_fault(old(store)@, name@, force, yes) {
            Some(message) => r is Err && r->Err_0@ == FailureView::message(message),
            None => r is Ok,
        },
        final(store)@ == left_templates(old(store)@, name@, force, yes),
{
    if !store.templates.contains(name) {
        return Err(Failure::message("Template not found"));
    }
    if !force && !yes {
        return Err(
            Failure::message(
                joined3(
                    "Delete requires --force flag. Use: linear templates delete ",
                    name,
                    " --force",
                ).as_str(),
            ),
        );
    }
    let _ = store.templates.remove(name);
    Ok(())
}

pub open spec fn deleted_json(name: Seq<char>) -> JsonView {
    JsonView::object().with("deleted"@, JsonView::Text(name))
}

/// The JSON value that reports a deletion.
pub fn deleted_payload(name: &str) -> (r: Json)
    ensures
        r@ == deleted_json(name@),
{
    Json::object().with("deleted", Json::text(name))
}

/// A template that was stored is found, is not stored again, and is gone once it
/// was deleted; other templates stay as they are. No template that comes from
/// flags has a priority outside the range.
pub proof fn stored_template_is_found_until_deleted(
    store: Map<Seq<char>, IssueTemplateView>,
    name: Seq<char>,
    flags: TemplateFlags,
    other: Seq<char>,
)
    requires
        create_fault(store, name, flags) is None,
    ensures
        ({
            let template = template_of_flags(name, flags);
            let after = store.insert(name, template);
            &&& after.contains_key(name) && after[name] == template
            &&& create_fault(after, name, flags) == Some(EXISTS@)
            &&& other != name ==> after.contains_key(other) == store.contains_key(other)
            &&& other != name && store.contains_key(other) ==> after[other] == store[other]
            &&& after.remove(name) == store
            &&& template.default_priority is Some ==> 1 <= template.default_priority->0 <= 4
        }),
{
    assert(store.insert(name, template_of_flags(name, flags)).remove(name) =~= store);
}

pub const REMOTE_LIST_QUERY: &'static str = r#"
        query {
            templates {
                nodes {
                    id
                    name
                    type
                    description
                    team { name }
                    createdAt
                }
            }
        }
    "#;

pub const REMOTE_GET_QUERY: &'static str = r#"
        query($id: String!) {
            template(id: $id) {
                id
                name
                type
                description
                templateData
                team { name key }
                creator { name }
                createdAt
                updatedAt
            }
        }
    "#;

pub const REMOTE_CREATE_MUTATION: &'static str = r#"
        mutation($input: TemplateCreateInput!) {
            templateCreate(input: $input) {
                success
                template { id name }
            }
        }
    "#;

pub const REMOTE_UPDATE_MUTATION: &'static str = r#"
        mutation($id: String!, $input: TemplateUpdateInput!) {
            templateUpdate(id: $id, input: $input) {
                success
                template { id name }
            }
        }
    "#;

pub const REMOTE_DELETE_MUTATION: &'static str = r#"
        mutation($id: String!) {
            templateDelete(id: $id) {
                success
            }
        }
    "#;

/// A template of the workspace is of a type, in any case.
pub open spec fn of_type(node: JsonView, template_type: Seq<char>) -> bool {
    node.at("type"@).as_str() is Some && text::unicode_lowercase(node.at("type"@).as_str()->0)
        == text::unicode_lowercase(template_type)
}

/// The templates of the workspace that are listed: of a type, or all.
pub open spec fn listed_templates(nodes: Seq<JsonView>, template_type: Option<Seq<char>>) -> Seq<
    JsonView,
> {
    match template_type {
        Some(t) => nodes.filter(|node: JsonView| of_type(node, t)),
        None => nodes,
    }
}

fn keep_type(nodes: &[Json], template_type: &str) -> (r: Vec<Json>)
    ensures
        json::json_views(r@) == listed_templates(json::json_views(nodes@), Some(template_type@)),
{
    let ghost all = json::json_views(nodes@);
    let ghost kept = Some(template_type@);
    let lower = text::lowercase(template_type);
    let mut out: Vec<Json> = Vec::new();
    let mut i: usize = 0;
    reveal(Seq::filter);
    assert(all.take(0).len() == 0);
    assert(json::json_views(out@) =~= listed_templates(all.take(0), kept));
    while i < nodes.len()
        invariant
            i <= nodes@.len(),
            all == json::json_views(nodes@),
            kept == Some(template_type@),
            lower@ == text::unicode_lowercase(template_type@),
            json::json_views(out@) == listed_templates(all.take(i as int), kept),
        decreases nodes@.len() - i,
    {
        reveal(Seq::filter);
        assert(all.take(i + 1).drop_last() =~= all.take(i as int));
        assert(all.take(i + 1).last() == nodes@[i as int]@);
        let ghost before = json::json_views(out@);
        match nodes[i].at("type").as_str() {
            Some(value) => {
                let lower_value = text::lowercase(value);
                if same_text(lower_value.as_str(), lower.as_str()) {
                    let node = nodes[i].copy();
                    out.push(node);
                    assert(json::json_views(out@) =~= before.push(node@));
                }
            },
            None => {},
        }
        i += 1;
    }
    assert(all.take(i as int) =~= all);
    out
}

pub open spec fn answered_templates(response: JsonView) -> Seq<JsonView> {
    response.at("data"@).at("templates"@).at("nodes"@).items()
}

/// The templates of the workspace that are listed, from the answer to a list
/// request.
pub fn remote_list_templates(response: &Json, template_type: &Option<String>) -> (r: Vec<Json>)
    ensures
        json::json_views(r@) == listed_templates(
            answered_templates(response@),
            template_type.deep_view(),
        ),
{
    let nodes = response.at("data").at("templates").at("nodes").items();
    match template_type {
        Some(t) => keep_type(nodes, t.as_str()),
        None => json::copy_all(nodes),
    }
}

/// One row of the table of the workspace's templates.
#[derive(Debug)]
pub struct RemoteTemplateRow {
    pub name: String,
    pub template_type: String,
    pub team: String,
    pub created: String,
    pub id: String,
}

#[verifier::ext_equal]
pub struct RemoteTemplateRowView {
    pub name: Seq<char>,
    pub template_type: Seq<char>,
    pub team: Seq<char>,
    pub created: Seq<char>,
    pub id: Seq<char>,
}

impl View for RemoteTemplateRow {
    type V = RemoteTemplateRowView;

    open spec fn view(&self) -> RemoteTemplateRowView {
        RemoteTemplateRowView {
            name: self.name@,
            template_type: self.template_type@,
            team: self.team@,
            created: self.created@,
            id: self.id@,
        }
    }
}

pub open spec fn remote_row(
    node: JsonView,
    width: Option<usize>,
    team_width: Option<usize>,
) -> RemoteTemplateRowView {
    RemoteTemplateRowView {
        name: text::shortened(safe(node.at("name"@).text_or(""@)), width),
        template_type: node.at("type"@).text_or("-"@),
        team: text::shortened(safe(node.at("team"@).at("name"@).text_or("-"@)), team_width),
        created: cycles::date_part(node.at("createdAt"@).as_str()),
        id: node.at("id"@).text_or(""@),
    }
}

/// The row of a template of the workspace.
pub fn row_of_remote(node: &Json, width: Option<usize>, team_width: Option<usize>) -> (r:
    RemoteTemplateRow)
    ensures
        r@ == remote_row(node@, width, team_width),
{
    RemoteTemplateRow {
        name: shown(node.at("name").text_or("").as_str(), width),
        template_type: node.at("type").text_or("-"),
        team: shown(node.at("team").at("name").text_or("-").as_str(), team_width),
        created: cycles::date_text(&node.at("createdAt").as_text()),
        id: node.at("id").text_or(""),
    }
}

pub open spec fn remote_question(id: Seq<char>) -> RequestView {
    RequestView::with(REMOTE_GET_QUERY@, JsonView::object().with("id"@, JsonView::Text(id)))
}

/// The request for a template of the workspace.
pub fn remote_get_request(id: &str) -> (r: Request)
    ensures
        r@ == remote_question(id@),
{
    Request::with(REMOTE_GET_QUERY, Json::object().with("id", Json::text(id)))
}

pub open spec fn answered_template(response: JsonView, id: Seq<char>) -> Result<
    JsonView,
    FailureView,
> {
    cycles::present(response.at("data"@).at("template"@), "Template not found: "@ + id)
}

/// The template in the answer to `remote_get_request`.
pub fn remote_get_template<'a>(response: &'a Json, id: &str) -> (r: Result<&'a Json, Failure>)
    ensures
        cycles::part_result(r, answered_template(response@, id@)),
{
    let template = response.at("data").at("template");
    if template.is_null() {
        return Err(Failure::message(joined2("Template not found: ", id).as_str()));
    }
    Ok(template)
}

pub open spec fn labelled(label: Seq<char>, value: Option<Seq<char>>) -> Seq<Seq<char>> {
    match value {
        Some(value) => seq![label + safe(value)],
        None => Seq::empty(),
    }
}

pub open spec fn not_empty(value: Option<Seq<char>>) -> Option<Seq<char>> {
    match value {
        Some(s) => if s.len() == 0 {
            None
        } else {
            Some(s)
        },
        None => None,
    }
}

/// The lines that show a template of the workspace under its name.
pub open spec fn remote_lines(template: JsonView, id: Seq<char>) -> Seq<Seq<char>> {
    let team = match template.at("team"@).at("name"@).as_str() {
        Some(name) => seq![
            "Team: "@ + safe(name) + (" ("@ + safe(template.at("team"@).at("key"@).text_or(""@))
                + ")"@),
        ],
        None => Seq::empty(),
    };
    seq!["Type: "@ + safe(template.at("type"@).text_or("-"@))] + labelled(
        "Description: "@,
        not_empty(template.at("description"@).as_str()),
    ) + team + labelled("Creator: "@, template.at("creator"@).at("name"@).as_str()) + seq![
        "Created: "@ + cycles::date_part(template.at("createdAt"@).as_str()),
        "ID: "@ + id,
    ]
}

pub fn lines_of_remote(template: &Json, id: &str) -> (r: Vec<String>)
    ensures
        r.deep_view() == remote_lines(template@, id@),
{
    let mut lines: Vec<String> = Vec::new();
    lines.push(
        joined2("Type: ", safe_terminal_value(template.at("type").text_or("-").as_str()).as_str()),
    );
    match template.at("description").as_str() {
        Some(description) => {
            if !description.is_empty() {
                lines.push(joined2("Description: ", safe_terminal_value(description).as_str()));
            }
        },
        None => {},
    }
    match template.at("team").at("name").as_str() {
        Some(name) => {
            let key = template.at("team").at("key").text_or("");
            lines.push(
                joined3(
                    "Team: ",
                    safe_terminal_value(name).as_str(),
                    joined3(" (", safe_terminal_value(key.as_str()).as_str(), ")").as_str(),
                ),
            );
        },
        None => {},
    }
    match template.at("creator").at("name").as_str() {
        Some(creator) => {
            lines.push(joined2("Creator: ", safe_terminal_value(creator).as_str()));
        },
        None => {},
    }
    let created = cycles::date_text(&template.at("createdAt").as_text());
    lines.push(joined2("Created: ", created.as_str()));
    lines.push(joined2("ID: ", id));
    assert(lines.deep_view() =~= remote_lines(template@, id@));
    lines
}

pub const BAD_DATA: &'static str = "Invalid JSON for --data. Provide valid JSON string.";

/// The object with the template data set, where data is given; the data must be
/// JSON.
pub open spec fn with_data(object: JsonView, data: Option<Result<JsonView, Seq<char>>>) -> Result<
    JsonView,
    FailureView,
> {
    match data {
        Some(Ok(value)) => Ok(object.with("templateData"@, value)),
        Some(Err(fault)) => Err(FailureView::message(fault).with_context(BAD_DATA@)),
        None => Ok(object),
    }
}

pub open spec fn parsed_data(data: Option<Seq<char>>) -> Option<Result<JsonView, Seq<char>>> {
    match data {
        Some(s) => Some(json_text::parsed_json(s)),
        None => None,
    }
}

pub open spec fn data_view(data: Option<Result<Json, String>>) -> Option<
    Result<JsonView, Seq<char>>,
> {
    match data {
        Some(Ok(value)) => Some(Ok(value@)),
        Some(Err(fault)) => Some(Err(fault@)),
        None => None,
    }
}

fn set_data(object: Json, data: Option<Result<Json, String>>) -> (r: Result<Json, Failure>)
    ensures
        match with_data(object@, data_view(data)) {
            Ok(value) => r is Ok && r->Ok_0@ == value,
            Err(failure) => r is Err && r->Err_0@ == failure,
        },
{
    match data {
        Some(Ok(value)) => Ok(object.with("templateData", value)),
        Some(Err(fault)) => Err(Failure::message(fault.as_str()).with_context(BAD_DATA)),
        None => Ok(object),
    }
}

fn parse_data(data: &Option<String>) -> (r: Option<Result<Json, String>>)
    ensures
        data_view(r) == parsed_data(data.deep_view()),
{
    match data {
        Some(s) => Some(json_text::parse_json(s.as_str())),
        None => None,
    }
}

pub open spec fn create_input(
    name: Seq<char>,
    template_type: Seq<char>,
    team_id: Option<Seq<char>>,
    description: Option<Seq<char>>,
) -> JsonView {
    JsonView::object().with("name"@, JsonView::Text(name)).with(
        "type"@,
        JsonView::Text(template_type),
    ).with_some("teamId"@, team_id).with_some("description"@, description)
}

/// The request that creates a template of the workspace with an input.
pub open spec fn remote_creation(input: JsonView) -> RequestView {
    RequestView::with(REMOTE_CREATE_MUTATION@, JsonView::object().with("input"@, input))
}

/// The request that creates a template of the workspace, given the data as JSON.
pub fn remote_create_with(
    name: &str,
    template_type: &str,
    team_id: &Option<String>,
    description: &Option<String>,
    data: Option<Result<Json, String>>,
) -> (r: Result<Request, Failure>)
    ensures
        match with_data(
            create_input(name@, template_type@, team_id.deep_view(), description.deep_view()),
            data_view(data),
        ) {
            Ok(input) => r is Ok && r->Ok_0@ == remote_creation(input),
            Err(failure) => r is Err && r->Err_0@ == failure,
        },
{
    let base = Json::object().with("name", Json::text(name)).with(
        "type",
        Json::text(template_type),
    ).with_some("teamId", team_id).with_some("description", description);
    match set_data(base, data) {
        Ok(input) => Ok(
            Request::with(REMOTE_CREATE_MUTATION, Json::object().with("input", input)),
        ),
        Err(failure) => Err(failure),
    }
}

/// The request that creates a template of the workspace.
pub fn remote_create_template(
    name: &str,
    template_type: &str,
    team_id: &Option<String>,
    description: &Option<String>,
    data: &Option<String>,
) -> (r: Result<Request, Failure>)
    ensures
        match with_data(
            create_input(name@, template_type@, team_id.deep_view(), description.deep_view()),
            parsed_data(data.deep_view()),
        ) {
            Ok(input) => r is Ok && r->Ok_0@ == remote_creation(input),
            Err(failure) => r is Err && r->Err_0@ == failure,
        },
{
    remote_create_with(name, template_type, team_id, description, parse_data(data))
}

pub open spec fn update_input(name: Option<Seq<char>>, description: Option<Seq<char>>) -> JsonView {
    JsonView::object().with_some("name"@, name).with_some("description"@, description)
}

pub open spec fn remote_update(id: Seq<char>, input: JsonView) -> UpdatePlanView {
    update::planned_update(REMOTE_UPDATE_MUTATION@, id, input, false)
}

/// Decides on an update of a template of the workspace, given the data as JSON.
pub fn remote_update_with(
    id: &str,
    name: &Option<String>,
    description: &Option<String>,
    data: Option<Result<Json, String>>,
) -> (r: Result<UpdatePlan, Failure>)
    ensures
        match with_data(
            update_input(name.deep_view(), description.deep_view()),
            data_view(data),
        ) {
            Ok(input) => r is Ok && r->Ok_0@ == remote_update(id@, input),
            Err(failure) => r is Err && r->Err_0@ == failure,
        },
{
    let base = Json::object().with_some("name", name).with_some("description", description);
    match set_data(base, data) {
        Ok(input) => Ok(update::plan_update(REMOTE_UPDATE_MUTATION, id, input, false)),
        Err(failure) => Err(failure),
    }
}

/// Decides on an update of a template of the workspace.
pub fn remote_update_template(
    id: &str,
    name: &Option<String>,
    description: &Option<String>,
    data: &Option<String>,
) -> (r: Result<UpdatePlan, Failure>)
    ensures
        match with_data(
            update_input(name.deep_view(), description.deep_view()),
            parsed_data(data.deep_view()),
        ) {
            Ok(input) => r is Ok && r->Ok_0@ == remote_update(id@, input),
            Err(failure) => r is Err && r->Err_0@ == failure,
        },
{
    remote_update_with(id, name, description, parse_data(data))
}

pub open spec fn remote_deletion(id: Seq<char>, force: bool, yes: bool) -> Result<
    RequestView,
    FailureView,
> {
    if force || yes {
        Ok(
            RequestView::with(
                REMOTE_DELETE_MUTATION@,
                JsonView::object().with("id"@, JsonView::Text(id)),
            ),
        )
    } else {
        Err(
            FailureView::message(
                "Delete requires --force flag. Use: linear templates remote-delete "@ + id
                    + " --force"@,
            ),
        )
    }
}

/// The request that deletes a template of the workspace; it must be forced or
/// agreed to.
pub fn remote_delete_template(id: &str, force: bool, yes: bool) -> (r: Result<Request, Failure>)
    ensures
        match remote_deletion(id@, force, yes) {
            Ok(request) => r is Ok && r->Ok_0@ == request,
            Err(failure) => r is Err && r->Err_0@ == failure,
        },
{
    if !force && !yes {
        return Err(
            Failure::message(
                joined3(
                    "Delete requires --force flag. Use: linear templates remote-delete ",
                    id,
                    " --force",
                ).as_str(),
            ),
        );
    }
    Ok(Request::with(REMOTE_DELETE_MUTATION, Json::object().with("id", Json::text(id))))
}

pub open spec fn created(response: JsonView) -> Result<JsonView, FailureView> {
    api::confirmation(response, "templateCreate"@, "template"@, "Failed to create template"@)
}

pub open spec fn updated(response: JsonView) -> Result<JsonView, FailureView> {
    api::confirmation(response, "templateUpdate"@, "template"@, "Failed to update template"@)
}

pub open spec fn is_deleted(response: JsonView) -> bool {
    response.at("data"@).at("templateDelete"@).at("success"@).is_true()
}

/// The template of the workspace that was created.
pub fn remote_created<'a>(response: &'a Json) -> (r: Result<&'a Json, Failure>)
    ensures
        cycles::part_result(r, created(response@)),
{
    api::confirmed(response, "templateCreate", "template", "Failed to create template")
}

/// The template of the workspace that was updated.
pub fn remote_updated<'a>(response: &'a Json) -> (r: Result<&'a Json, Failure>)
    ensures
        cycles::part_result(r, updated(response@)),
{
    api::confirmed(response, "templateUpdate", "template", "Failed to update template")
}

/// Whether a template of the workspace was deleted.
pub fn remote_deleted(response: &Json, id: &str) -> (r: Result<(), Failure>)
    ensures
        if is_deleted(response@) {
            r is Ok
        } else {
            r is Err && r->Err_0@ == FailureView::message("Failed to delete template "@ + id@)
        },
{
    if response.at("data").at("templateDelete").at("success").is_true() {
        Ok(())
    } else {
        Err(Failure::message(joined2("Failed to delete template ", id).as_str()))
    }
}

// ---------------------------------------------------------------------------
// What a template holds, and what is sent and shown of it
// ---------------------------------------------------------------------------

/// A template that is made from flags holds each of them; no priority stands for none.
pub proof fn flags_become_the_template(name: Seq<char>, flags: TemplateFlags)
    ensures
        ({
            let template = template_of_flags(name, flags);
            &&& template.name == name
            &&& template.title_prefix == flags.title_prefix.deep_view()
            &&& template.description == flags.description.deep_view()
            &&& template.team == flags.team.deep_view()
            &&& flags.default_priority == Some(0i32) ==> template.default_priority is None
            &&& flags.default_priority is None ==> template.default_priority is None
            &&& flags.default_priority matches Some(p) ==> p != 0 ==> template.default_priority
                == Some(p)
            &&& flags.labels@.len() == 0 ==> template.default_labels.len() == 0
            &&& forall|label: Seq<char>|
                flags.labels.deep_view() == seq![label] && text::trim(label).len() > 0
                    ==> template.default_labels == seq![#[trigger] text::trim(label)]
        }),
{
    reveal_with_fuel(text::trimmed_non_empty, 3);
    assert forall|label: Seq<char>|
        flags.labels.deep_view() == seq![label] && text::trim(
            label,
        ).len() > 0 implies template_of_flags(name, flags).default_labels == seq![
        #[trigger] text::trim(label),
    ] by {
        let one = seq![label];
        assert(one.drop_last() =~= Seq::<Seq<char>>::empty());
        assert(text::trimmed_non_empty(one) =~= seq![text::trim(label)]);
    }
}

/// A template that is made from answers holds each answer that is not empty; the priority is
/// the place in the list, none for the first.
pub proof fn answers_become_the_template(name: Seq<char>, answers: TemplateAnswers)
    ensures
        ({
            let template = template_of_answers(name, answers);
            &&& template.name == name
            &&& answers.title_prefix@.len() > 0 ==> template.title_prefix == Some(
                answers.title_prefix@,
            )
            &&& answers.title_prefix@.len() == 0 ==> template.title_prefix is None
            &&& answers.description@.len() > 0 ==> template.description == Some(
                answers.description@,
            )
            &&& answers.description@.len() == 0 ==> template.description is None
            &&& answers.team@.len() > 0 ==> template.team == Some(answers.team@)
            &&& answers.team@.len() == 0 ==> template.team is None
            &&& answers.priority == 0 ==> template.default_priority is None
            &&& 1 <= answers.priority <= 4 ==> (template.default_priority matches Some(p) && p
                == answers.priority)
            &&& answers.labels@.len() > 0 ==> template.default_labels == text::list_items(
                answers.labels@,
            )
        }),
{
}

/// A template is refused exactly where its name is taken or its priority is out of range. A
/// dry run stores nothing; without one a template that sets something is stored, and one that
/// sets nothing is asked for unless the output is for machines.
pub proof fn creation_is_refused_previewed_stored_or_asked_for(
    store: Map<Seq<char>, IssueTemplateView>,
    name: Seq<char>,
    flags: TemplateFlags,
    for_machines: bool,
    dry_run: bool,
)
    ensures
        create_fault(store, name, flags) is Some <==> store.contains_key(name) || (
        flags.default_priority matches Some(p) && (p < 0 || p > 4)),
        ({
            let plan = planned_template(name, flags, for_machines, dry_run);
            let sets = flags.title_prefix is Some || flags.description is Some
                || flags.default_priority is Some || flags.labels@.len() > 0 || flags.team is Some;
            &&& plan is Preview <==> dry_run
            &&& plan is Store <==> !dry_run && (sets || for_machines)
            &&& plan is Ask <==> !dry_run && !sets && !for_machines
            &&& plan matches CreatePlanView::Store(template) ==> template == template_of_flags(
                name,
                flags,
            )
            &&& plan matches CreatePlanView::Preview(payload) ==> payload.at("dry_run"@)
                == JsonView::Bool(true) && payload.at("would_create"@) == template_json(
                template_of_flags(name, flags),
            )
        }),
{
    broadcast use json::group_fields;

    reveal_strlit("dry_run");
    reveal_strlit("would_create");
    assert("dry_run"@.len() == 7 && "would_create"@.len() == 12);
    let payload = dry_run_payload(template_of_flags(name, flags));
    assert(payload.get("dry_run"@) == Some(JsonView::Bool(true)));
}

/// A template is deleted exactly where it is there and that was forced or agreed to, and no
/// other is.
pub proof fn deletion_needs_the_template_and_consent(
    store: Map<Seq<char>, IssueTemplateView>,
    name: Seq<char>,
    force: bool,
    yes: bool,
    other: Seq<char>,
)
    ensures
        delete_fault(store, name, force, yes) is None <==> store.contains_key(name) && (force
            || yes),
        delete_fault(store, name, force, yes) is None ==> !left_templates(
            store,
            name,
            force,
            yes,
        ).contains_key(name),
        delete_fault(store, name, force, yes) is Some ==> left_templates(store, name, force, yes)
            == store,
        other != name ==> left_templates(store, name, force, yes).contains_key(other)
            == store.contains_key(other),
        other != name && store.contains_key(other) ==> left_templates(
            store,
            name,
            force,
            yes,
        )[other] == store[other],
{
}

proof fn template_keys_differ()
    ensures
        ({
            let keys = seq![
                "name"@,
                "title_prefix"@,
                "description"@,
                "default_priority"@,
                "default_labels"@,
                "team"@,
            ];
            forall|i: int, j: int|
                0 <= i < keys.len() && 0 <= j < keys.len() && i != j ==> #[trigger] keys[i]
                    != #[trigger] keys[j]
        }),
{
    reveal_strlit("name");
    reveal_strlit("title_prefix");
    reveal_strlit("description");
    reveal_strlit("default_priority");
    reveal_strlit("default_labels");
    reveal_strlit("team");
    assert("name"@.len() == 4 && "title_prefix"@.len() == 12 && "description"@.len() == 11);
    assert("default_priority"@.len() == 16 && "default_labels"@.len() == 14 && "team"@.len() == 4);
    assert("name"@[0] != "team"@[0]);
}

/// The JSON value of a template holds every value that the template sets, and no other.
pub proof fn template_is_written_field_by_field(template: IssueTemplateView)
    ensures
        ({
            let value = template_json(template);
            let set = |key: Seq<char>, given: Option<Seq<char>>|
                match given {
                    Some(s) => value.get(key) == Some(JsonView::Text(s)),
                    None => value.get(key) is None,
                };
            &&& value.get("name"@) == Some(JsonView::Text(template.name))
            &&& set("title_prefix"@, template.title_prefix)
            &&& set("description"@, template.description)
            &&& set("team"@, template.team)
            &&& template.default_priority is None ==> value.get("default_priority"@) is None
            &&& template.default_priority matches Some(p) ==> value.at(
                "default_priority"@,
            ).as_i64() == Some(p as i64)
            &&& template.default_labels.len() == 0 ==> value.get("default_labels"@) is None
            &&& template.default_labels.len() > 0 ==> value.get("default_labels"@) == Some(
                JsonView::texts(template.default_labels),
            )
        }),
{
    broadcast use json::group_fields;

    template_keys_differ();
    let keys = seq![
        "name"@,
        "title_prefix"@,
        "description"@,
        "default_priority"@,
        "default_labels"@,
        "team"@,
    ];
    assert(keys[0] == "name"@);
    assert(keys[1] == "title_prefix"@);
    assert(keys[2] == "description"@);
    assert(keys[3] == "default_priority"@);
    assert(keys[4] == "default_labels"@);
    assert(keys[5] == "team"@);
    let value = template_json(template);
    if template.default_priority is Some {
        assert(value.get("default_priority"@) == Some(
            priority_json(template.default_priority->0),
        ));
    }
}

/// The details of a template show its prefix, its description, its team and its labels.
pub proof fn details_show_the_template(template: IssueTemplateView, priority: Seq<char>)
    ensures
        ({
            let lines = detail_lines(template, priority);
            &&& template.title_prefix matches Some(s) ==> lines[0] == "Title Prefix: "@ + safe(s)
            &&& template.description matches Some(s) ==> lines[1] == "Description:  "@ + safe(s)
            &&& lines[2] == "Priority:     "@ + priority
            &&& template.team matches Some(s) ==> lines[3] == "Team:         "@ + safe(s)
            &&& template.default_labels.len() > 0 ==> lines[4] == "Labels:       "@ + safe(
                text::join_with(template.default_labels, ", "@),
            )
        }),
{
}

/// A row shows the fields of its template in their columns.
pub proof fn row_shows_the_fields(row: TemplateRow, template: IssueTemplateView)
    requires
        row_shows(row, template, None, None),
    ensures
        row.name@ == safe(template.name),
        template.title_prefix matches Some(s) ==> row.title_prefix@ == safe(s),
        template.team matches Some(s) ==> row.team@ == safe(s),
        template.default_labels.len() > 0 ==> row.labels@ == safe(
            text::join_with(template.default_labels, ", "@),
        ),
{
}

proof fn remote_keys_differ()
    ensures
        "name"@ != "type"@,
        "name"@ != "teamId"@,
        "name"@ != "description"@,
        "name"@ != "templateData"@,
        "type"@ != "teamId"@,
        "type"@ != "description"@,
        "type"@ != "templateData"@,
        "teamId"@ != "description"@,
        "teamId"@ != "templateData"@,
        "description"@ != "templateData"@,
        "id"@ != "input"@,
{
    reveal_strlit("name");
    reveal_strlit("type");
    reveal_strlit("teamId");
    reveal_strlit("description");
    reveal_strlit("templateData");
    reveal_strlit("id");
    reveal_strlit("input");
    assert("name"@.len() == 4 && "type"@.len() == 4 && "teamId"@.len() == 6);
    assert("description"@.len() == 11 && "templateData"@.len() == 12);
    assert("id"@.len() == 2 && "input"@.len() == 5);
    assert("name"@[0] != "type"@[0]);
}

/// A template of the workspace is created with its name and its type, with the team, the
/// description and the data where they are given, and with nothing else; data that is no JSON
/// is refused.
pub proof fn remote_template_is_sent_as_given(
    name: Seq<char>,
    template_type: Seq<char>,
    team_id: Option<Seq<char>>,
    description: Option<Seq<char>>,
    data: Option<Result<JsonView, Seq<char>>>,
)
    ensures
        ({
            let input = with_data(create_input(name, template_type, team_id, description), data);
            let set = |key: Seq<char>, given: Option<Seq<char>>|
                match given {
                    Some(s) => input->Ok_0.get(key) == Some(JsonView::Text(s)),
                    None => input->Ok_0.get(key) is None,
                };
            &&& input is Err <==> (data is Some && data->0 is Err)
            &&& input is Ok ==> {
                &&& remote_creation(input->Ok_0).variables is Some
                &&& remote_creation(input->Ok_0).variables->0.get("input"@) == Some(input->Ok_0)
                &&& set("name"@, Some(name))
                &&& set("type"@, Some(template_type))
                &&& set("teamId"@, team_id)
                &&& set("description"@, description)
                &&& data is None ==> input->Ok_0.get("templateData"@) is None
                &&& data matches Some(Ok(value)) ==> input->Ok_0.get("templateData"@) == Some(value)
            }
        }),
{
    broadcast use json::group_fields;

    remote_keys_differ();
    let base = create_input(name, template_type, team_id, description);
    assert(base is Object);
    assert(base.get("templateData"@) is None);
    assert(base.get("name"@) == Some(JsonView::Text(name)));
    assert(base.get("type"@) == Some(JsonView::Text(template_type)));
}

/// An update of a template of the workspace is of the template that was named and sets
/// exactly what is given; one that sets nothing does nothing.
pub proof fn remote_update_is_sent_as_given(
    id: Seq<char>,
    name: Option<Seq<char>>,
    description: Option<Seq<char>>,
    data: Option<Result<JsonView, Seq<char>>>,
)
    ensures
        ({
            let input = with_data(update_input(name, description), data);
            let plan = remote_update(id, input->Ok_0);
            let set = |object: JsonView, key: Seq<char>, given: Option<Seq<char>>|
                match given {
                    Some(s) => object.get(key) == Some(JsonView::Text(s)),
                    None => object.get(key) is None,
                };
            &&& input is Err <==> (data is Some && data->0 is Err)
            &&& input is Ok ==> {
                &&& plan is Nothing <==> name is None && description is None && data is None
                &&& plan matches UpdatePlanView::Send(request) ==> {
                    let sent = request.variables->0.at("input"@);
                    &&& request.variables is Some
                    &&& request.variables->0.get("id"@) == Some(JsonView::Text(id))
                    &&& set(sent, "name"@, name)
                    &&& set(sent, "description"@, description)
                    &&& data matches Some(Ok(value)) ==> sent.get("templateData"@) == Some(value)
                }
                &&& !(plan is Preview)
            }
        }),
{
    broadcast use json::group_fields;

    remote_keys_differ();
    let base = update_input(name, description);
    let input = with_data(base, data)->Ok_0;
    assert(base is Object);
    assert(base.get("templateData"@) is None);
    update::update_carries_the_id_and_the_input(REMOTE_UPDATE_MUTATION@, id, input);
    if with_data(base, data) is Ok && input.is_empty_object() {
        assert(input->Object_0 =~= Seq::<(Seq<char>, JsonView)>::empty());
        assert(input.get("name"@) is None);
        assert(input.get("description"@) is None);
        assert(input.get("templateData"@) is None);
    }
}

/// A template of the workspace is deleted only where that was forced or agreed to; questions
/// and deletions name it, and a change is reported only where its answer confirms it.
pub proof fn remote_changes_are_named_and_confirmed(
    id: Seq<char>,
    force: bool,
    yes: bool,
    response: JsonView,
)
    ensures
        remote_deletion(id, force, yes) is Ok <==> force || yes,
        remote_deletion(id, force, yes) matches Ok(request) ==> request.variables is Some
            && request.variables->0.get("id"@) == Some(JsonView::Text(id)),
        remote_question(id).variables is Some,
        remote_question(id).variables->0.get("id"@) == Some(JsonView::Text(id)),
        created(response) is Ok <==> response.at("data"@).at("templateCreate"@).at("success"@)
            == JsonView::Bool(true),
        created(response) is Ok ==> created(response)->Ok_0 == response.at("data"@).at(
            "templateCreate"@,
        ).at("template"@),
        updated(response) is Ok <==> response.at("data"@).at("templateUpdate"@).at("success"@)
            == JsonView::Bool(true),
        updated(response) is Ok ==> updated(response)->Ok_0 == response.at("data"@).at(
            "templateUpdate"@,
        ).at("template"@),
        is_deleted(response) <==> response.at("data"@).at("templateDelete"@).at("success"@)
            == JsonView::Bool(true),
{
    broadcast use json::group_fields;

}

/// With a type the templates of that type are listed, in any case of the type and in their
/// order; without one all are.
pub proof fn templates_of_the_type_are_listed(
    nodes: Seq<JsonView>,
    node: JsonView,
    template_type: Seq<char>,
)
    ensures
        listed_templates(nodes, None) == nodes,
        listed_templates(Seq::empty(), Some(template_type)).len() == 0,
        node.at("type"@) is Text && text::unicode_lowercase(node.at("type"@)->Text_0)
            == text::unicode_lowercase(template_type) ==> listed_templates(
            nodes.push(node),
            Some(template_type),
        ) == listed_templates(nodes, Some(template_type)).push(node),
        !(node.at("type"@) is Text && text::unicode_lowercase(node.at("type"@)->Text_0)
            == text::unicode_lowercase(template_type)) ==> listed_templates(
            nodes.push(node),
            Some(template_type),
        ) == listed_templates(nodes, Some(template_type)),
{
    reveal(Seq::filter);
    assert(nodes.push(node).drop_last() =~= nodes);
}

/// A row and the details of a template of the workspace show its fields.
pub proof fn remote_template_is_shown(node: JsonView, id: Seq<char>)
    ensures
        ({
            let row = remote_row(node, None, None);
            &&& node.at("name"@) is Text ==> row.name == safe(node.at("name"@)->Text_0)
            &&& node.at("type"@) is Text ==> row.template_type == node.at("type"@)->Text_0
            &&& node.at("team"@).at("name"@) is Text ==> row.team == safe(
                node.at("team"@).at("name"@)->Text_0,
            )
            &&& node.at("id"@) is Text ==> row.id == node.at("id"@)->Text_0
            &&& row.created == cycles::date_part(node.at("createdAt"@).as_str())
        }),
        ({
            let lines = remote_lines(node, id);
            &&& node.at("type"@) is Text ==> lines[0] == "Type: "@ + safe(node.at("type"@)->Text_0)
            &&& lines.last() == "ID: "@ + id
            &&& node.at("creator"@).at("name"@) is Text ==> lines.contains(
                "Creator: "@ + safe(node.at("creator"@).at("name"@)->Text_0),
            )
        }),
{
    let lines = remote_lines(node, id);
    if node.at("creator"@).at("name"@) is Text {
        assert(lines[lines.len() - 3] == "Creator: "@ + safe(
            node.at("creator"@).at("name"@)->Text_0,
        ));
    }
}

/// A template is found by its name exactly where it is stored, one that was deleted is not
/// found any more, and what is said of a deletion names it.
pub proof fn stored_template_is_found_by_name(
    store: Map<Seq<char>, IssueTemplateView>,
    name: Seq<char>,
    template: IssueTemplateView,
    other: Seq<char>,
)
    ensures
        stored(store.insert(name, template), name) == Some(template),
        other != name ==> stored(store.insert(name, template), other) == stored(store, other),
        stored(left_templates(store, name, true, false), name) is None,
        other != name ==> stored(left_templates(store, name, true, false), other) == stored(
            store,
            other,
        ),
        deleted_json(name).get("deleted"@) == Some(JsonView::Text(name)),
{
    broadcast use json::group_fields;

}

/// The templates of the workspace are read from the answer; one that is not there is named in
/// the failure.
pub proof fn remote_templates_are_read_from_the_answer(response: JsonView, id: Seq<char>)
    ensures
        response.at("data"@).at("templates"@).at("nodes"@) is Array ==> answered_templates(response)
            == response.at("data"@).at("templates"@).at("nodes"@)->Array_0,
        answered_template(response, id) is Err <==> response.at("data"@).at("template"@) is Null,
        answered_template(response, id) matches Ok(template) ==> template == response.at(
            "data"@,
        ).at("template"@),
        answered_template(response, id) matches Err(failure) ==> text::contains_text(
            failure.shown(),
            id,
        ),
{
    let message = "Template not found: "@ + id;
    let from = "Template not found: "@.len() as int;
    assert(message.subrange(from, message.len() as int) =~= id);
    text::subrange_occurs(message, from, message.len() as int);
}

/// The details of a template of the workspace show its description, its team with the key of
/// that, and the date of its creation.
pub proof fn remote_details_show_each_field(template: JsonView, id: Seq<char>)
    ensures
        ({
            let lines = remote_lines(template, id);
            let description = template.at("description"@);
            let team = template.at("team"@);
            &&& description is Text && description->Text_0.len() > 0 ==> lines[1]
                == "Description: "@ + safe(description->Text_0)
            &&& team.at("name"@) is Text && team.at("key"@) is Text ==> lines.contains(
                "Team: "@ + safe(team.at("name"@)->Text_0) + (" ("@ + safe(
                    team.at("key"@)->Text_0,
                ) + ")"@),
            )
            &&& lines[lines.len() - 2] == "Created: "@ + cycles::date_part(
                template.at("createdAt"@).as_str(),
            )
        }),
{
    let lines = remote_lines(template, id);
    let description = template.at("description"@);
    let team = template.at("team"@);
    if team.at("name"@) is Text && team.at("key"@) is Text {
        let at: int = if description is Text && description->Text_0.len() > 0 {
            2
        } else {
            1
        };
        assert(lines[at] == "Team: "@ + safe(team.at("name"@)->Text_0) + (" ("@ + safe(
            team.at("key"@)->Text_0,
        ) + ")"@));
    }
}

/// A deletion that was not agreed to is refused with the command that would force it.
pub proof fn refused_deletion_names_the_template(
    store: Map<Seq<char>, IssueTemplateView>,
    name: Seq<char>,
    id: Seq<char>,
)
    requires
        store.contains_key(name),
    ensures
        delete_fault(store, name, false, false) is Some,
        text::contains_text(delete_fault(store, name, false, false)->0, name),
        remote_deletion(id, false, false) is Err,
        text::contains_text(remote_deletion(id, false, false)->Err_0.shown(), id),
{
    let message = delete_fault(store, name, false, false)->0;
    let from = "Delete requires --force flag. Use: linear templates delete "@.len() as int;
    assert(message.subrange(from, from + name.len()) =~= name);
    text::subrange_occurs(message, from, from + name.len());
    let remote = remote_deletion(id, false, false)->Err_0.shown();
    let start = "Delete requires --force flag. Use: linear templates remote-delete "@.len() as int;
    assert(remote.subrange(start, start + id.len()) =~= id);
    text::subrange_occurs(remote, start, start + id.len());
}

} // verus!
