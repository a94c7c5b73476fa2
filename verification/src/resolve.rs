//! Turning what a user types into the ID that the API wants.
use vstd::prelude::*;
use vstd::string::*;

use crate::api::{Request, RequestView};
use crate::error::{Failure, FailureView};
use crate::json;
use crate::json::{Json, JsonView};
use crate::json_path;
use crate::pagination::{PaginationOptions, PaginationOptionsView};
use crate::text;
use crate::text::{eq_ignore_case, is_uuid, joined2, joined3};

verus! {

/// An item has a given text in a field, in any case; a field that is no text
/// counts as an empty one.
pub open spec fn named(item: JsonView, field: Seq<char>, input: Seq<char>) -> bool {
    text::same_ignoring_case(item.at(field).text_or(""@), input)
}

/// The ID of the first item that has a text in one of two fields, and an ID.
pub open spec fn first_id(
    items: Seq<JsonView>,
    a: Seq<char>,
    b: Seq<char>,
    input: Seq<char>,
) -> Option<Seq<char>>
    decreases items.len(),
{
    if items.len() == 0 {
        None
    } else if (named(items[0], a, input) || named(items[0], b, input)) && items[0].at(
        "id"@,
    ).as_str() is Some {
        items[0].at("id"@).as_str()
    } else {
        first_id(items.drop_first(), a, b, input)
    }
}

/// The first item that has a given text in a field, in any case.
pub open spec fn first_with(items: Seq<JsonView>, field: Seq<char>, input: Seq<char>) -> Option<
    JsonView,
>
    decreases items.len(),
{
    if items.len() == 0 {
        None
    } else if items[0].at(field).as_str() is Some && text::same_ignoring_case(
        items[0].at(field).as_str()->0,
        input,
    ) {
        Some(items[0])
    } else {
        first_with(items.drop_first(), field, input)
    }
}

pub open spec fn id_of(item: Option<JsonView>) -> Option<Seq<char>> {
    match item {
        Some(item) => item.at("id"@).as_str(),
        None => None,
    }
}

/// A team is found by its key, and by its name where no key fits.
pub open spec fn team_id(teams: Seq<JsonView>, team: Seq<char>) -> Option<Seq<char>> {
    let by_key = id_of(first_with(teams, "key"@, team));
    if by_key is Some {
        by_key
    } else {
        id_of(first_with(teams, "name"@, team))
    }
}

/// A project is found by its name, and by its slug where no name fits.
pub open spec fn project_id(projects: Seq<JsonView>, project: Seq<char>) -> Option<Seq<char>> {
    let by_name = first_id(projects, "name"@, "name"@, project);
    if by_name is Some {
        by_name
    } else {
        first_id(projects, "slugId"@, "slugId"@, project)
    }
}

fn find_first_id(items: &[Json], a: &str, b: &str, input: &str) -> (r: Option<String>)
    ensures
        r.deep_view() == first_id(json::json_views(items@), a@, b@, input@),
{
    let ghost all = json::json_views(items@);
    let mut i: usize = 0;
    assert(all.skip(0) =~= all);
    while i < items.len()
        invariant
            i <= items@.len(),
            all == json::json_views(items@),
            first_id(all, a@, b@, input@) == first_id(all.skip(i as int), a@, b@, input@),
        decreases items@.len() - i,
    {
        assert(all.skip(i as int)[0] == items@[i as int]@);
        assert(all.skip(i as int).drop_first() =~= all.skip(i + 1));
        let item = &items[i];
        if eq_ignore_case(item.at(a).text_or("").as_str(), input) || eq_ignore_case(
            item.at(b).text_or("").as_str(),
            input,
        ) {
            match item.at("id").as_text() {
                Some(id) => {
                    return Some(id);
                },
                None => {},
            }
        }
        i += 1;
    }
    None
}

fn find_first_with<'a>(items: &'a [Json], field: &str, input: &str) -> (r: Option<&'a Json>)
    ensures
        match r {
            Some(item) => first_with(json::json_views(items@), field@, input@) == Some(item@),
            None => first_with(json::json_views(items@), field@, input@) is None,
        },
{
    let ghost all = json::json_views(items@);
    let mut i: usize = 0;
    assert(all.skip(0) =~= all);
    while i < items.len()
        invariant
            i <= items@.len(),
            all == json::json_views(items@),
            first_with(all, field@, input@) == first_with(all.skip(i as int), field@, input@),
        decreases items@.len() - i,
    {
        assert(all.skip(i as int)[0] == items@[i as int]@);
        assert(all.skip(i as int).drop_first() =~= all.skip(i + 1));
        match items[i].at(field).as_str() {
            Some(value) => {
                if eq_ignore_case(value, input) {
                    return Some(&items[i]);
                }
            },
            None => {},
        }
        i += 1;
    }
    None
}

pub fn find_team_id(teams: &[Json], team: &str) -> (r: Option<String>)
    ensures
        r.deep_view() == team_id(json::json_views(teams@), team@),
{
    match find_first_with(teams, "key", team) {
        Some(item) => {
            match item.at("id").as_text() {
                Some(id) => {
                    return Some(id);
                },
                None => {},
            }
        },
        None => {},
    }
    match find_first_with(teams, "name", team) {
        Some(item) => item.at("id").as_text(),
        None => None,
    }
}

pub fn find_user_id(users: &[Json], user: &str) -> (r: Option<String>)
    ensures
        r.deep_view() == first_id(json::json_views(users@), "name"@, "email"@, user@),
{
    find_first_id(users, "name", "email", user)
}

pub fn find_label_id(labels: &[Json], label: &str) -> (r: Option<String>)
    ensures
        r.deep_view() == first_id(json::json_views(labels@), "name"@, "name"@, label@),
{
    find_first_id(labels, "name", "name", label)
}

pub fn find_project_id(projects: &[Json], project: &str) -> (r: Option<String>)
    ensures
        r.deep_view() == project_id(json::json_views(projects@), project@),
{
    match find_first_id(projects, "name", "name", project) {
        Some(id) => Some(id),
        None => find_first_id(projects, "slugId", "slugId", project),
    }
}

pub fn find_view_id(views: &[Json], view: &str) -> (r: Option<String>)
    ensures
        r.deep_view() == first_id(json::json_views(views@), "name"@, "name"@, view@),
{
    find_first_id(views, "name", "name", view)
}

/// An ID that was found is the ID of an item that has the text in one of the
/// fields, and no item before it has both that and an ID.
pub proof fn found_id_belongs_to_first_match(
    items: Seq<JsonView>,
    a: Seq<char>,
    b: Seq<char>,
    input: Seq<char>,
)
    ensures
        match first_id(items, a, b, input) {
            Some(id) => exists|i: int|
                0 <= i < items.len() && (named(#[trigger] items[i], a, input) || named(
                    items[i],
                    b,
                    input,
                )) && items[i].at("id"@).as_str() == Some(id) && forall|k: int|
                    0 <= k < i ==> !((named(#[trigger] items[k], a, input) || named(
                        items[k],
                        b,
                        input,
                    )) && items[k].at("id"@).as_str() is Some),
            None => forall|k: int|
                0 <= k < items.len() ==> !((named(#[trigger] items[k], a, input) || named(
                    items[k],
                    b,
                    input,
                )) && items[k].at("id"@).as_str() is Some),
        },
    decreases items.len(),
{
    if items.len() > 0 {
        let rest = items.drop_first();
        let fits = |item: JsonView|
            (named(item, a, input) || named(item, b, input)) && item.at("id"@).as_str() is Some;
        if !fits(items[0]) {
            found_id_belongs_to_first_match(rest, a, b, input);
            assert(forall|k: int| 0 < k < items.len() ==> #[trigger] items[k] == rest[k - 1]);
            match first_id(items, a, b, input) {
                Some(id) => {
                    let i = choose|i: int|
                        0 <= i < rest.len() && (named(#[trigger] rest[i], a, input) || named(
                            rest[i],
                            b,
                            input,
                        )) && rest[i].at("id"@).as_str() == Some(id) && forall|k: int|
                            0 <= k < i ==> !((named(#[trigger] rest[k], a, input) || named(
                                rest[k],
                                b,
                                input,
                            )) && rest[k].at("id"@).as_str() is Some);
                    assert(items[i + 1] == rest[i]);
                    assert forall|k: int| 0 <= k < i + 1 implies !((named(
                        #[trigger] items[k],
                        a,
                        input,
                    ) || named(items[k], b, input)) && items[k].at("id"@).as_str() is Some) by {
                        if k > 0 {
                            assert(items[k] == rest[k - 1]);
                        }
                    }
                },
                None => {},
            }
        }
    }
}

/// What an ID can be asked for by a name.
#[derive(Debug, Clone, Copy, PartialEq, Eq, Structural)]
pub enum Entity {
    Team,
    User,
    Label,
    Project,
    View,
}

pub const TEAM_FILTERED: &'static str = r#"
            query($team: String!) {
                teams(first: 50, filter: { or: [{ key: { eqIgnoreCase: $team } }, { name: { eqIgnoreCase: $team } }] }) {
                    nodes { id key name }
                }
            }
        "#;

pub const TEAM_PAGED: &'static str = r#"
            query($first: Int, $after: String) {
                teams(first: $first, after: $after) {
                    nodes { id key name }
                    pageInfo { hasNextPage endCursor }
                }
            }
        "#;

pub const USER_FILTERED: &'static str = r#"
            query($user: String!) {
                users(first: 50, filter: { or: [{ name: { eqIgnoreCase: $user } }, { email: { eqIgnoreCase: $user } }] }) {
                    nodes { id name email }
                }
            }
        "#;

pub const USER_PAGED: &'static str = r#"
            query($first: Int, $after: String) {
                users(first: $first, after: $after) {
                    nodes { id name email }
                    pageInfo { hasNextPage endCursor }
                }
            }
        "#;

pub const LABEL_FILTERED: &'static str = r#"
            query($label: String!) {
                issueLabels(first: 50, filter: { name: { eqIgnoreCase: $label } }) {
                    nodes { id name }
                }
            }
        "#;

pub const LABEL_PAGED: &'static str = r#"
            query($first: Int, $after: String) {
                issueLabels(first: $first, after: $after) {
                    nodes { id name }
                    pageInfo { hasNextPage endCursor }
                }
            }
        "#;

pub const PROJECT_FILTERED: &'static str = r#"
            query($project: String!) {
                projects(first: 50, filter: { name: { eqIgnoreCase: $project } }) {
                    nodes { id name slugId }
                }
            }
            "#;

pub const PROJECT_PAGED: &'static str = r#"
        query($first: Int, $after: String) {
            projects(first: $first, after: $after) {
                nodes { id name slugId }
                pageInfo { hasNextPage endCursor }
            }
        }
        "#;

pub const VIEW_FILTERED: &'static str = r#"
            query($view: String!) {
                customViews(first: 50, filter: { name: { eqIgnoreCase: $view } }) {
                    nodes { id name }
                }
            }
        "#;

pub const VIEW_PAGED: &'static str = r#"
            query($first: Int, $after: String) {
                customViews(first: $first, after: $after) {
                    nodes { id name }
                    pageInfo { hasNextPage endCursor }
                }
            }
        "#;

pub const VIEWER_QUERY: &'static str = "query { viewer { id } }";

impl Entity {
    /// The ID among some items that a text stands for.
    pub open spec fn id_in(self, items: Seq<JsonView>, input: Seq<char>) -> Option<Seq<char>> {
        match self {
            Entity::Team => team_id(items, input),
            Entity::User => first_id(items, "name"@, "email"@, input),
            Entity::Label => first_id(items, "name"@, "name"@, input),
            Entity::Project => project_id(items, input),
            Entity::View => first_id(items, "name"@, "name"@, input),
        }
    }

    /// The field of a response that holds the items.
    pub open spec fn collection_name(self) -> Seq<char> {
        match self {
            Entity::Team => "teams"@,
            Entity::User => "users"@,
            Entity::Label => "issueLabels"@,
            Entity::Project => "projects"@,
            Entity::View => "customViews"@,
        }
    }

    pub open spec fn filtered(self, input: Seq<char>) -> RequestView {
        let (query, name) = match self {
            Entity::Team => (TEAM_FILTERED@, "team"@),
            Entity::User => (USER_FILTERED@, "user"@),
            Entity::Label => (LABEL_FILTERED@, "label"@),
            Entity::Project => (PROJECT_FILTERED@, "project"@),
            Entity::View => (VIEW_FILTERED@, "view"@),
        };
        RequestView::with(query, JsonView::object().with(name, JsonView::Text(input)))
    }

    pub open spec fn paged(self) -> Seq<char> {
        match self {
            Entity::Team => TEAM_PAGED@,
            Entity::User => USER_PAGED@,
            Entity::Label => LABEL_PAGED@,
            Entity::Project => PROJECT_PAGED@,
            Entity::View => VIEW_PAGED@,
        }
    }

    /// What is said where nothing fits.
    pub open spec fn missing(self, input: Seq<char>) -> Seq<char> {
        match self {
            Entity::Team => "Team not found: "@ + input
                + ". Use linear-cli t list to see available teams."@,
            Entity::User => "User not found: "@ + input,
            Entity::Label => "Label not found: "@ + input,
            Entity::Project => "Could not resolve project \""@ + input
                + "\". Tip: try using the project's slugId (UUID) instead:\n  linear-cli issues update <ID> --project \"<slugId>\"\nYou can find project slugIds via: linear-cli projects list"@,
            Entity::View => "Custom view not found: "@ + input
                + ". Use linear-cli views list to see available views."@,
        }
    }

    pub open spec fn nodes_path(self) -> Seq<Seq<char>> {
        seq!["data"@, self.collection_name(), "nodes"@]
    }

    fn find(self, items: &[Json], input: &str) -> (r: Option<String>)
        ensures
            r.deep_view() == self.id_in(json::json_views(items@), input@),
    {
        match self {
            Entity::Team => find_team_id(items, input),
            Entity::User => find_user_id(items, input),
            Entity::Label => find_label_id(items, input),
            Entity::Project => find_project_id(items, input),
            Entity::View => find_view_id(items, input),
        }
    }

    /// The field of a response that holds the items of a kind.
    pub fn collection(self) -> (r: &'static str)
        ensures
            r@ == self.collection_name(),
    {
        match self {
            Entity::Team => "teams",
            Entity::User => "users",
            Entity::Label => "issueLabels",
            Entity::Project => "projects",
            Entity::View => "customViews",
        }
    }

    /// The request for the items that have a name.
    pub fn filtered_request(self, input: &str) -> (r: Request)
        ensures
            r@ == self.filtered(input@),
    {
        let (query, name) = match self {
            Entity::Team => (TEAM_FILTERED, "team"),
            Entity::User => (USER_FILTERED, "user"),
            Entity::Label => (LABEL_FILTERED, "label"),
            Entity::Project => (PROJECT_FILTERED, "project"),
            Entity::View => (VIEW_FILTERED, "view"),
        };
        Request::with(query, Json::object().with(name, Json::text(input)))
    }

    /// The query for all items, page by page.
    pub fn paged_query(self) -> (r: &'static str)
        ensures
            r@ == self.paged(),
    {
        match self {
            Entity::Team => TEAM_PAGED,
            Entity::User => USER_PAGED,
            Entity::Label => LABEL_PAGED,
            Entity::Project => PROJECT_PAGED,
            Entity::View => VIEW_PAGED,
        }
    }

    fn not_found(self, input: &str) -> (r: String)
        ensures
            r@ == self.missing(input@),
    {
        match self {
            Entity::Team => joined3(
                "Team not found: ",
                input,
                ". Use linear-cli t list to see available teams.",
            ),
            Entity::User => joined2("User not found: ", input),
            Entity::Label => joined2("Label not found: ", input),
            Entity::Project => joined3(
                "Could not resolve project \"",
                input,
                "\". Tip: try using the project's slugId (UUID) instead:\n  linear-cli issues update <ID> --project \"<slugId>\"\nYou can find project slugIds via: linear-cli projects list",
            ),
            Entity::View => joined3(
                "Custom view not found: ",
                input,
                ". Use linear-cli views list to see available views.",
            ),
        }
    }
}

/// How all items are walked: every page, 250 at a time.
pub fn lookup_pagination() -> (r: PaginationOptions)
    ensures
        r@ == (PaginationOptionsView {
            limit: None,
            after: None,
            before: None,
            page_size: Some(250),
            all: true,
        }),
{
    PaginationOptions { limit: None, after: None, before: None, page_size: Some(250), all: true }
}

/// What has happened in the search for an ID.
pub enum Lookup {
    Started,
    /// What the cache holds; nothing where it holds nothing.
    CacheRead(Option<Json>),
    /// The answer to the question who the user is.
    ViewerAnswered(Result<Json, Failure>),
    /// The answer to the filtered request.
    FilteredAnswered(Result<Json, Failure>),
    /// All items, page by page.
    Walked(Result<Vec<Json>, Failure>),
}

/// What is to be done next.
pub enum LookupStep {
    Found(String),
    Failed(Failure),
    ReadCache,
    AskViewer,
    AskFiltered,
    WalkPages,
}

#[verifier::ext_equal]
pub enum LookupStepView {
    Found(Seq<char>),
    Failed(FailureView),
    ReadCache,
    AskViewer,
    AskFiltered,
    WalkPages,
}

impl View for LookupStep {
    type V = LookupStepView;

    open spec fn view(&self) -> LookupStepView {
        match self {
            LookupStep::Found(id) => LookupStepView::Found(id@),
            LookupStep::Failed(failure) => LookupStepView::Failed(failure@),
            LookupStep::ReadCache => LookupStepView::ReadCache,
            LookupStep::AskViewer => LookupStepView::AskViewer,
            LookupStep::AskFiltered => LookupStepView::AskFiltered,
            LookupStep::WalkPages => LookupStepView::WalkPages,
        }
    }
}

pub open spec fn found_or(id: Option<Seq<char>>, other: LookupStepView) -> LookupStepView {
    match id {
        Some(id) => LookupStepView::Found(id),
        None => other,
    }
}

/// The search for an ID: an ID is taken as it is; else the cache, the filtered
/// request and at last all items are searched. A project's filtered request may
/// fail without ending the search.
pub open spec fn lookup_step(
    entity: Entity,
    input: Seq<char>,
    no_cache: bool,
    event: Lookup,
) -> LookupStepView {
    match event {
        Lookup::Started => if entity == Entity::User && text::same_ignoring_case(input, "me"@) {
            LookupStepView::AskViewer
        } else if text::uuid_shaped(input) {
            LookupStepView::Found(input)
        } else if no_cache {
            LookupStepView::AskFiltered
        } else {
            LookupStepView::ReadCache
        },
        Lookup::CacheRead(cached) => match cached {
            Some(items) => found_or(
                entity.id_in(items@.items(), input),
                LookupStepView::AskFiltered,
            ),
            None => LookupStepView::AskFiltered,
        },
        Lookup::ViewerAnswered(answer) => match answer {
            Ok(response) => found_or(
                response@.at("data"@).at("viewer"@).at("id"@).as_str(),
                LookupStepView::Failed(FailureView::message("Could not fetch current user ID"@)),
            ),
            Err(failure) => LookupStepView::Failed(failure@),
        },
        Lookup::FilteredAnswered(answer) => match answer {
            Ok(response) => found_or(
                entity.id_in(json_path::nodes_at(response@, entity.nodes_path()), input),
                LookupStepView::WalkPages,
            ),
            Err(failure) => if entity == Entity::Project {
                LookupStepView::WalkPages
            } else {
                LookupStepView::Failed(failure@)
            },
        },
        Lookup::Walked(walk) => match walk {
            Ok(items) => found_or(
                entity.id_in(json::json_views(items@), input),
                LookupStepView::Failed(FailureView::message(entity.missing(input))),
            ),
            Err(failure) => LookupStepView::Failed(failure@),
        },
    }
}

/// What the cache is to keep after an event: all items that were walked, unless
/// the cache is not to be used.
pub open spec fn kept_items(no_cache: bool, event: Lookup) -> Option<JsonView> {
    match event {
        Lookup::Walked(Ok(items)) => if no_cache {
            None
        } else {
            Some(JsonView::Array(json::json_views(items@)))
        },
        _ => None,
    }
}

/// What is written to the cache after an event, before the search goes on.
pub fn items_to_keep(no_cache: bool, event: &Lookup) -> (r: Option<Json>)
    ensures
        r.deep_view() == kept_items(no_cache, *event),
{
    match event {
        Lookup::Walked(Ok(items)) => {
            if no_cache {
                return None;
            }
            let r = Json::Array(json::copy_all(items.as_slice()));
            assert(r@->Array_0 =~= json::json_views(items@));
            Some(r)
        },
        _ => None,
    }
}

/// Decides what is done next in the search for an ID. What `items_to_keep` gives
/// for the event is written to the cache before that.
pub fn resolve_id(entity: Entity, input: &str, no_cache: bool, event: Lookup) -> (r: LookupStep)
    ensures
        r@ == lookup_step(entity, input@, no_cache, event),
{
    match event {
        Lookup::Started => if entity == Entity::User && eq_ignore_case(input, "me") {
            LookupStep::AskViewer
        } else if is_uuid(input) {
            LookupStep::Found(input.to_string())
        } else if no_cache {
            LookupStep::AskFiltered
        } else {
            LookupStep::ReadCache
        },
        Lookup::CacheRead(cached) => match cached {
            Some(items) => match entity.find(items.items(), input) {
                Some(id) => LookupStep::Found(id),
                None => LookupStep::AskFiltered,
            },
            None => LookupStep::AskFiltered,
        },
        Lookup::ViewerAnswered(answer) => match answer {
            Ok(response) => match response.at("data").at("viewer").at("id").as_text() {
                Some(id) => LookupStep::Found(id),
                None => LookupStep::Failed(Failure::message("Could not fetch current user ID")),
            },
            Err(failure) => LookupStep::Failed(failure),
        },
        Lookup::FilteredAnswered(answer) => match answer {
            Ok(response) => {
                let path = ["data", entity.collection(), "nodes"];
                let nodes = json_path::get_nodes(&response, &path);
                assert(path.deep_view() =~= entity.nodes_path());
                match entity.find(nodes.as_slice(), input) {
                    Some(id) => LookupStep::Found(id),
                    None => LookupStep::WalkPages,
                }
            },
            Err(failure) => if entity == Entity::Project {
                LookupStep::WalkPages
            } else {
                LookupStep::Failed(failure)
            },
        },
        Lookup::Walked(walk) => match walk {
            Ok(items) => match entity.find(items.as_slice(), input) {
                Some(id) => LookupStep::Found(id),
                None => LookupStep::Failed(
                    Failure::message(entity.not_found(input).as_str()),
                ),
            },
            Err(failure) => LookupStep::Failed(failure),
        },
    }
}

/// What a walk has found is found in the cache from then on: where the items were
/// kept, the search ends with the same ID as soon as the cache is read.
pub proof fn kept_items_are_found_again(
    entity: Entity,
    input: Seq<char>,
    walk: Result<Vec<Json>, Failure>,
    cached: Json,
)
    requires
        kept_items(false, Lookup::Walked(walk)) == Some(cached@),
        lookup_step(entity, input, false, Lookup::Walked(walk)) is Found,
    ensures
        lookup_step(entity, input, false, Lookup::CacheRead(Some(cached))) == lookup_step(
            entity,
            input,
            false,
            Lookup::Walked(walk),
        ),
{
}

/// What is looked up among all items ends the search: a walk is followed by no
/// further question, and an ID that was typed is never asked about.
pub proof fn lookup_ends_with_the_walk(
    entity: Entity,
    input: Seq<char>,
    no_cache: bool,
    walk: Result<Vec<Json>, Failure>,
)
    ensures
        lookup_step(entity, input, no_cache, Lookup::Walked(walk)) is Found || lookup_step(
            entity,
            input,
            no_cache,
            Lookup::Walked(walk),
        ) is Failed,
        text::uuid_shaped(input) ==> lookup_step(entity, input, no_cache, Lookup::Started)
            == LookupStepView::Found(input),
{
    if text::uuid_shaped(input) {
        reveal_strlit("me");
        assert(input.len() == 36);
        assert(!text::same_ignoring_case(input, "me"@)) by {
            assert(text::ascii_lower(input).len() == 36);
            assert(text::ascii_lower("me"@).len() == 2);
        }
    }
}

pub const STATES_QUERY: &'static str = r#"
        query($teamId: String!) {
            team(id: $teamId) {
                states {
                    nodes {
                        id
                        name
                    }
                }
            }
        }
    "#;

pub open spec fn states_question(team_id: Seq<char>) -> RequestView {
    RequestView::with(STATES_QUERY@, JsonView::object().with("teamId"@, JsonView::Text(team_id)))
}

/// The request for the states of a team.
pub fn team_states_request(team_id: &str) -> (r: Request)
    ensures
        r@ == states_question(team_id@),
{
    Request::with(STATES_QUERY, Json::object().with("teamId", Json::text(team_id)))
}

pub open spec fn state_missing(state: Seq<char>) -> Seq<char> {
    "State '"@ + state + "' not found for team"@
}

/// The ID of a state that needs no question.
pub fn given_state_id(state: &str) -> (r: Option<String>)
    ensures
        match r {
            Some(id) => text::uuid_shaped(state@) && id@ == state@,
            None => !text::uuid_shaped(state@),
        },
{
    if is_uuid(state) {
        Some(state.to_string())
    } else {
        None
    }
}

/// The states in the answer to `team_states_request`.
pub open spec fn team_states(response: JsonView) -> Seq<JsonView> {
    response.at("data"@).at("team"@).at("states"@).at("nodes"@).items()
}

/// The ID of the state of a name among the states in the answer.
pub open spec fn found_state(response: JsonView, state: Seq<char>) -> Option<Seq<char>> {
    first_id(team_states(response), "name"@, "name"@, state)
}

/// The ID of a state of a team, from the answer to `team_states_request`. States
/// are team-scoped in Linear.
pub fn resolve_state_id(response: &Json, state: &str) -> (r: Result<String, Failure>)
    ensures
        match found_state(response@, state@) {
            Some(id) => r is Ok && r->Ok_0@ == id,
            None => r is Err && r->Err_0@ == FailureView::message(state_missing(state@)),
        },
{
    let states = response.at("data").at("team").at("states").at("nodes").items();
    match find_first_id(states, "name", "name", state) {
        Some(id) => Ok(id),
        None => Err(
            Failure::message(joined3("State '", state, "' not found for team").as_str()),
        ),
    }
}

// ---------------------------------------------------------------------------
// What a search finds
// ---------------------------------------------------------------------------

/// An item is called by a text: the text is the value of one of the fields that items of
/// its kind are searched by, in any case of the letters.
pub open spec fn is_called(entity: Entity, item: JsonView, input: Seq<char>) -> bool {
    let has = |field: Seq<char>| text::same_ignoring_case(item.at(field).text_or(""@), input);
    match entity {
        Entity::Team => has("key"@) || has("name"@),
        Entity::User => has("name"@) || has("email"@),
        Entity::Project => has("name"@) || has("slugId"@),
        Entity::Label | Entity::View => has("name"@),
    }
}

/// One of some items has an ID, and is called by a text.
pub open spec fn one_is(
    entity: Entity,
    items: Seq<JsonView>,
    input: Seq<char>,
    id: Seq<char>,
) -> bool {
    exists|i: int|
        0 <= i < items.len() && (#[trigger] items[i]).at("id"@) == JsonView::Text(id) && is_called(
            entity,
            items[i],
            input,
        )
}

proof fn first_with_is_first(items: Seq<JsonView>, field: Seq<char>, input: Seq<char>)
    ensures
        match first_with(items, field, input) {
            Some(item) => exists|i: int|
                0 <= i < items.len() && #[trigger] items[i] == item && item.at(field) is Text
                    && text::same_ignoring_case(item.at(field)->Text_0, input) && forall|k: int|
                    0 <= k < i ==> !((#[trigger] items[k]).at(field) is Text
                        && text::same_ignoring_case(items[k].at(field)->Text_0, input)),
            None => forall|k: int|
                0 <= k < items.len() ==> !((#[trigger] items[k]).at(field) is Text
                    && text::same_ignoring_case(items[k].at(field)->Text_0, input)),
        },
    decreases items.len(),
{
    if items.len() > 0 {
        let rest = items.drop_first();
        if !(items[0].at(field) is Text && text::same_ignoring_case(
            items[0].at(field)->Text_0,
            input,
        )) {
            first_with_is_first(rest, field, input);
            assert(forall|k: int| 0 < k < items.len() ==> #[trigger] items[k] == rest[k - 1]);
            match first_with(items, field, input) {
                Some(item) => {
                    let i = choose|i: int|
                        0 <= i < rest.len() && #[trigger] rest[i] == item && item.at(field) is Text
                            && text::same_ignoring_case(item.at(field)->Text_0, input) && forall|
                            k: int,
                        |
                            0 <= k < i ==> !((#[trigger] rest[k]).at(field) is Text
                                && text::same_ignoring_case(rest[k].at(field)->Text_0, input));
                    assert(items[i + 1] == item);
                    assert forall|k: int| 0 <= k < i + 1 implies !((#[trigger] items[k]).at(
                        field,
                    ) is Text && text::same_ignoring_case(
                        items[k].at(field)->Text_0,
                        input,
                    )) by {
                        if k > 0 {
                            assert(items[k] == rest[k - 1]);
                        }
                    }
                },
                None => {},
            }
        } else {
            assert(items[0] == first_with(items, field, input)->0);
        }
    }
}

/// An ID is found among items only where one of them has it and is called by the text.
pub proof fn found_item_is_called_so(entity: Entity, items: Seq<JsonView>, input: Seq<char>)
    ensures
        entity.id_in(items, input) matches Some(id) ==> one_is(entity, items, input, id),
{
    found_id_belongs_to_first_match(items, "name"@, "email"@, input);
    found_id_belongs_to_first_match(items, "name"@, "name"@, input);
    found_id_belongs_to_first_match(items, "slugId"@, "slugId"@, input);
    first_with_is_first(items, "key"@, input);
    first_with_is_first(items, "name"@, input);
}

/// An item that has an ID and is called by the text is enough for an ID to be found, where
/// every item has an ID.
pub proof fn called_item_is_found(
    entity: Entity,
    items: Seq<JsonView>,
    input: Seq<char>,
    at: int,
)
    requires
        input.len() > 0,
        0 <= at < items.len(),
        is_called(entity, items[at], input),
        forall|k: int| 0 <= k < items.len() ==> (#[trigger] items[k]).at("id"@) is Text,
    ensures
        entity.id_in(items, input) is Some,
{
    found_id_belongs_to_first_match(items, "name"@, "email"@, input);
    found_id_belongs_to_first_match(items, "name"@, "name"@, input);
    found_id_belongs_to_first_match(items, "slugId"@, "slugId"@, input);
    first_with_is_first(items, "key"@, input);
    first_with_is_first(items, "name"@, input);
    reveal_strlit("");
    assert(text::ascii_lower(input).len() == input.len());
    assert(text::ascii_lower(""@).len() == 0);
    assert(!text::same_ignoring_case(""@, input));
    assert(items[at].at("id"@) is Text);
}

/// Of several items that are called by the text the first one is taken, where all of them
/// have IDs: a team by its key before its name, a project by its name before its slug.
pub proof fn first_called_item_wins(
    entity: Entity,
    items: Seq<JsonView>,
    input: Seq<char>,
    at: int,
    field: Seq<char>,
)
    requires
        input.len() > 0,
        0 <= at < items.len(),
        forall|k: int| 0 <= k < items.len() ==> (#[trigger] items[k]).at("id"@) is Text,
        field == (if entity == Entity::Team {
            "key"@
        } else {
            "name"@
        }),
        text::same_ignoring_case(items[at].at(field).text_or(""@), input),
        forall|k: int|
            0 <= k < at ==> !text::same_ignoring_case(
                (#[trigger] items[k]).at(field).text_or(""@),
                input,
            ),
        entity == Entity::User ==> forall|k: int|
            0 <= k < at ==> !text::same_ignoring_case(
                (#[trigger] items[k]).at("email"@).text_or(""@),
                input,
            ),
    ensures
        entity.id_in(items, input) == Some(items[at].at("id"@)->Text_0),
{
    reveal_strlit("");
    assert(text::ascii_lower(input).len() == input.len());
    assert(text::ascii_lower(""@).len() == 0);
    assert(!text::same_ignoring_case(""@, input));
    assert(items[at].at("id"@) is Text);
    found_id_belongs_to_first_match(items, "name"@, "email"@, input);
    found_id_belongs_to_first_match(items, "name"@, "name"@, input);
    first_with_is_first(items, "key"@, input);
    match entity {
        Entity::Team => {
            let item = first_with(items, "key"@, input)->0;
            let i = choose|i: int|
                0 <= i < items.len() && #[trigger] items[i] == item && item.at("key"@) is Text
                    && text::same_ignoring_case(item.at("key"@)->Text_0, input) && forall|k: int|
                    0 <= k < i ==> !((#[trigger] items[k]).at("key"@) is Text
                        && text::same_ignoring_case(items[k].at("key"@)->Text_0, input));
            assert(items[at].at("key"@) is Text);
            if i < at {
                assert(!text::same_ignoring_case(items[i].at("key"@).text_or(""@), input));
            }
            assert(i == at);
        },
        _ => {
            let other = if entity == Entity::User {
                "email"@
            } else {
                "name"@
            };
            let id = first_id(items, "name"@, other, input)->0;
            let i = choose|i: int|
                0 <= i < items.len() && (named(#[trigger] items[i], "name"@, input) || named(
                    items[i],
                    other,
                    input,
                )) && items[i].at("id"@).as_str() == Some(id) && forall|k: int|
                    0 <= k < i ==> !((named(#[trigger] items[k], "name"@, input) || named(
                        items[k],
                        other,
                        input,
                    )) && items[k].at("id"@).as_str() is Some);
            if i < at {
                assert(!text::same_ignoring_case(items[i].at("name"@).text_or(""@), input));
            }
            if at < i {
                assert(named(items[at], "name"@, input));
            }
            assert(i == at);
        },
    }
}

/// The items of a kind in a response.
pub open spec fn answered_items(entity: Entity, response: JsonView) -> Seq<JsonView> {
    let all = response.at("data"@);
    match entity {
        Entity::Team => all.at("teams"@).at("nodes"@).items(),
        Entity::User => all.at("users"@).at("nodes"@).items(),
        Entity::Label => all.at("issueLabels"@).at("nodes"@).items(),
        Entity::Project => all.at("projects"@).at("nodes"@).items(),
        Entity::View => all.at("customViews"@).at("nodes"@).items(),
    }
}

/// A search that ends after the filtered answer, the cache or the walk ends with the ID of
/// an item that they hold and that is called by the text; the text itself is taken for an
/// ID only where it has the shape of one.
pub proof fn search_ends_with_an_id_of_an_item(
    entity: Entity,
    input: Seq<char>,
    no_cache: bool,
    event: Lookup,
)
    ensures
        lookup_step(entity, input, no_cache, event) matches LookupStepView::Found(id) ==> match event {
            Lookup::Started => id == input && text::uuid_shaped(input),
            Lookup::CacheRead(Some(cached)) => one_is(entity, cached@.items(), input, id),
            Lookup::CacheRead(None) => false,
            Lookup::ViewerAnswered(Ok(response)) => response@.at("data"@).at("viewer"@).at("id"@)
                == JsonView::Text(id),
            Lookup::ViewerAnswered(Err(_)) => false,
            Lookup::FilteredAnswered(Ok(response)) => one_is(
                entity,
                answered_items(entity, response@),
                input,
                id,
            ),
            Lookup::FilteredAnswered(Err(_)) => false,
            Lookup::Walked(Ok(items)) => one_is(entity, json::json_views(items@), input, id),
            Lookup::Walked(Err(_)) => false,
        },
{
    match event {
        Lookup::CacheRead(Some(cached)) => {
            found_item_is_called_so(entity, cached@.items(), input);
        },
        Lookup::FilteredAnswered(Ok(response)) => {
            let collection = entity.collection_name();
            json_path::nodes_are_three_fields_deep(response@, "data"@, collection, "nodes"@);
            found_item_is_called_so(entity, answered_items(entity, response@), input);
        },
        Lookup::Walked(Ok(items)) => {
            found_item_is_called_so(entity, json::json_views(items@), input);
        },
        _ => {},
    }
}

/// The cache, the filtered answer and the walk give the same ID for the same items.
pub proof fn same_items_give_the_same_id(
    entity: Entity,
    input: Seq<char>,
    no_cache: bool,
    cached: Json,
    response: Json,
    items: Vec<Json>,
)
    requires
        cached@.items() == json::json_views(items@),
        answered_items(entity, response@) == json::json_views(items@),
    ensures
        ({
            let from_cache = lookup_step(entity, input, no_cache, Lookup::CacheRead(Some(cached)));
            let filtered = lookup_step(
                entity,
                input,
                no_cache,
                Lookup::FilteredAnswered(Ok(response)),
            );
            let walked = lookup_step(entity, input, no_cache, Lookup::Walked(Ok(items)));
            &&& from_cache is Found <==> filtered is Found
            &&& filtered is Found <==> walked is Found
            &&& walked is Found ==> from_cache == walked && filtered == walked
        }),
{
    json_path::nodes_are_three_fields_deep(
        response@,
        "data"@,
        entity.collection_name(),
        "nodes"@,
    );
}

/// Where an item that is called by the text is among those that were answered, cached or
/// walked, and all of them have IDs, the search ends with an ID.
pub proof fn search_ends_where_an_item_is_called_so(
    entity: Entity,
    input: Seq<char>,
    no_cache: bool,
    event: Lookup,
    items: Seq<JsonView>,
    at: int,
)
    requires
        input.len() > 0,
        match event {
            Lookup::CacheRead(Some(cached)) => items == cached@.items(),
            Lookup::FilteredAnswered(Ok(response)) => items == answered_items(entity, response@),
            Lookup::Walked(Ok(walked)) => items == json::json_views(walked@),
            _ => false,
        },
        0 <= at < items.len(),
        is_called(entity, items[at], input),
        forall|k: int| 0 <= k < items.len() ==> (#[trigger] items[k]).at("id"@) is Text,
    ensures
        lookup_step(entity, input, no_cache, event) is Found,
{
    called_item_is_found(entity, items, input, at);
    match event {
        Lookup::FilteredAnswered(Ok(response)) => {
            let collection = entity.collection_name();
            json_path::nodes_are_three_fields_deep(response@, "data"@, collection, "nodes"@);
        },
        _ => {},
    }
}

/// A text that is no ID is looked for in the cache, then by a filtered request and at last
/// among all items; the cache is not read where it is not to be used. `me` is the user who
/// asks.
pub proof fn search_tries_its_sources_in_order(
    entity: Entity,
    input: Seq<char>,
    no_cache: bool,
    cached: Json,
    response: Json,
)
    requires
        !text::uuid_shaped(input),
    ensures
        ({
            let first = lookup_step(entity, input, no_cache, Lookup::Started);
            if entity == Entity::User && text::same_ignoring_case(input, "me"@) {
                first is AskViewer
            } else if no_cache {
                first is AskFiltered
            } else {
                first is ReadCache
            }
        }),
        lookup_step(entity, input, no_cache, Lookup::CacheRead(None)) is AskFiltered,
        ({
            let step = lookup_step(entity, input, no_cache, Lookup::CacheRead(Some(cached)));
            step is Found || step is AskFiltered
        }),
        ({
            let step = lookup_step(
                entity,
                input,
                no_cache,
                Lookup::FilteredAnswered(Ok(response)),
            );
            step is Found || step is WalkPages
        }),
{
}

/// A failed request ends the search with its failure, but for the filtered request for a
/// project, after which all projects are walked.
pub proof fn failures_end_the_search(
    entity: Entity,
    input: Seq<char>,
    no_cache: bool,
    failure: Failure,
)
    ensures
        lookup_step(entity, input, no_cache, Lookup::ViewerAnswered(Err(failure)))
            == LookupStepView::Failed(failure@),
        lookup_step(entity, input, no_cache, Lookup::Walked(Err(failure)))
            == LookupStepView::Failed(failure@),
        lookup_step(entity, input, no_cache, Lookup::FilteredAnswered(Err(failure))) == (
        if entity == Entity::Project {
            LookupStepView::WalkPages
        } else {
            LookupStepView::Failed(failure@)
        }),
{
}

/// The filtered request asks for what was typed: it carries the text, and requests for two
/// texts differ.
pub proof fn filtered_request_carries_the_text(entity: Entity, input: Seq<char>, other: Seq<char>)
    ensures
        ({
            let sent = entity.filtered(input).variables;
            &&& sent is Some
            &&& sent->0.at(
                match entity {
                    Entity::Team => "team"@,
                    Entity::User => "user"@,
                    Entity::Label => "label"@,
                    Entity::Project => "project"@,
                    Entity::View => "view"@,
                },
            ) == JsonView::Text(input)
        }),
        input != other ==> entity.filtered(input) != entity.filtered(other),
{
    broadcast use json::group_fields;

    let name = match entity {
        Entity::Team => "team"@,
        Entity::User => "user"@,
        Entity::Label => "label"@,
        Entity::Project => "project"@,
        Entity::View => "view"@,
    };
    assert(entity.filtered(input).variables->0.at(name) == JsonView::Text(input));
    assert(entity.filtered(other).variables->0.at(name) == JsonView::Text(other));
}

/// What is said where nothing was found names what was typed.
pub proof fn missing_names_the_text(entity: Entity, input: Seq<char>)
    ensures
        exists|from: int|
            0 <= from <= entity.missing(input).len() - input.len() && #[trigger] entity.missing(
                input,
            ).subrange(from, from + input.len()) == input,
{
    let whole = entity.missing(input);
    let from = match entity {
        Entity::Team => "Team not found: "@.len(),
        Entity::User => "User not found: "@.len(),
        Entity::Label => "Label not found: "@.len(),
        Entity::Project => "Could not resolve project \""@.len(),
        Entity::View => "Custom view not found: "@.len(),
    } as int;
    assert(whole.subrange(from, from + input.len()) =~= input);
}

/// A state is found by its name among the states of the team in the answer: the ID is that
/// of a state of that name, and one is found where a state of that name has an ID.
pub proof fn state_is_found_by_its_name(response: JsonView, state: Seq<char>)
    ensures
        ({
            let states = response.at("data"@).at("team"@).at("states"@).at("nodes"@).items();
            match found_state(response, state) {
                Some(id) => exists|i: int|
                    0 <= i < states.len() && (#[trigger] states[i]).at("id"@) == JsonView::Text(id)
                        && text::same_ignoring_case(states[i].at("name"@).text_or(""@), state),
                None => forall|i: int|
                    0 <= i < states.len() && (#[trigger] states[i]).at("id"@) is Text
                        ==> !text::same_ignoring_case(states[i].at("name"@).text_or(""@), state),
            }
        }),
{
    let states = response.at("data"@).at("team"@).at("states"@).at("nodes"@).items();
    found_id_belongs_to_first_match(states, "name"@, "name"@, state);
    match found_state(response, state) {
        Some(id) => {},
        None => {
            assert forall|i: int|
                0 <= i < states.len() && (#[trigger] states[i]).at(
                    "id"@,
                ) is Text implies !text::same_ignoring_case(
                states[i].at("name"@).text_or(""@),
                state,
            ) by {
                assert(!(named(states[i], "name"@, state) && states[i].at(
                    "id"@,
                ).as_str() is Some));
            }
        },
    }
}

/// The states are asked for by the id of their team.
pub proof fn states_are_those_of_the_team(team_id: Seq<char>)
    ensures
        states_question(team_id).variables is Some,
        states_question(team_id).variables->0.get("teamId"@) == Some(JsonView::Text(team_id)),
{
    broadcast use json::group_fields;

}

} // verus!
