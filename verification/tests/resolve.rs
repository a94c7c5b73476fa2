use linear_cli::error::Failure;
use linear_cli::json::Json;
use linear_cli::json_text::parse_json;
use linear_cli::resolve::{
    find_label_id, find_project_id, find_team_id, find_user_id, find_view_id, given_state_id,
    items_to_keep, lookup_pagination, resolve_id, resolve_state_id, team_states_request, Entity, Lookup,
    LookupStep,
};

fn items(text: &str) -> Vec<Json> {
    parse_json(text).unwrap().items().to_vec()
}

fn json(text: &str) -> Json {
    parse_json(text).unwrap()
}

const UUID: &str = "12345678-1234-1234-1234-1234567890ab";

#[test]
fn team_is_found_by_key_before_name() {
    let teams = items(
        r#"[{"id":"1","key":"OPS","name":"ENG"},{"id":"2","key":"eng","name":"Engineering"}]"#,
    );
    assert_eq!(find_team_id(&teams, "ENG").as_deref(), Some("2"));
    assert_eq!(find_team_id(&teams, "engineering").as_deref(), Some("2"));
    assert_eq!(find_team_id(&teams, "nope"), None);
}

#[test]
fn others_are_found_by_their_names() {
    let users = items(r#"[{"id":"1","name":"Jo","email":"jo@x"}]"#);
    assert_eq!(find_user_id(&users, "JO").as_deref(), Some("1"));
    assert_eq!(find_user_id(&users, "jo@X").as_deref(), Some("1"));
    let labels = items(r#"[{"id":"l","name":"Bug"}]"#);
    assert_eq!(find_label_id(&labels, "bug").as_deref(), Some("l"));
    let views = items(r#"[{"id":"v","name":"Mine"}]"#);
    assert_eq!(find_view_id(&views, "mine").as_deref(), Some("v"));
    let projects = items(r#"[{"id":"p","name":"Alpha","slugId":"alpha-1"}]"#);
    assert_eq!(find_project_id(&projects, "ALPHA").as_deref(), Some("p"));
}

#[test]
fn typed_id_is_taken_as_it_is() {
    match resolve_id(Entity::Team, UUID, false, Lookup::Started) {
        LookupStep::Found(id) => assert_eq!(id, UUID),
        _ => panic!("an ID needs no lookup"),
    }
    assert_eq!(given_state_id(UUID).as_deref(), Some(UUID));
    assert!(given_state_id("Done").is_none());
}

#[test]
fn lookup_goes_from_cache_to_filter_to_walk() {
    assert!(matches!(
        resolve_id(Entity::Team, "ENG", false, Lookup::Started),
        LookupStep::ReadCache
    ));
    assert!(matches!(
        resolve_id(Entity::Team, "ENG", true, Lookup::Started),
        LookupStep::AskFiltered
    ));
    let cached = Some(json(r#"[{"id":"1","key":"ENG"}]"#));
    match resolve_id(Entity::Team, "eng", false, Lookup::CacheRead(cached)) {
        LookupStep::Found(id) => assert_eq!(id, "1"),
        _ => panic!("the cache holds it"),
    }
    assert!(matches!(
        resolve_id(Entity::Team, "eng", false, Lookup::CacheRead(None)),
        LookupStep::AskFiltered
    ));
    let empty = Ok(json(r#"{"data":{"teams":{"nodes":[]}}}"#));
    assert!(matches!(
        resolve_id(Entity::Team, "eng", false, Lookup::FilteredAnswered(empty)),
        LookupStep::WalkPages
    ));
    match resolve_id(Entity::Team, "eng", false, Lookup::Walked(Ok(vec![]))) {
        LookupStep::Failed(failure) => assert!(failure.to_string().contains("eng")),
        _ => panic!("there is no such team"),
    }
}

#[test]
fn failed_filter_ends_all_lookups_but_those_of_projects() {
    let failed = || Lookup::FilteredAnswered(Err(Failure::message("no")));
    assert!(matches!(
        resolve_id(Entity::Project, "x", false, failed()),
        LookupStep::WalkPages
    ));
    assert!(matches!(
        resolve_id(Entity::Label, "x", false, failed()),
        LookupStep::Failed(_)
    ));
}

#[test]
fn walked_items_are_kept_and_found_again() {
    let walked = Lookup::Walked(Ok(items(r#"[{"id":"1","key":"ENG"}]"#)));
    assert!(items_to_keep(true, &walked).is_none());
    let kept = items_to_keep(false, &walked);
    assert_eq!(kept, Some(json(r#"[{"id":"1","key":"ENG"}]"#)));
    match resolve_id(Entity::Team, "eng", false, Lookup::CacheRead(kept)) {
        LookupStep::Found(id) => assert_eq!(id, "1"),
        _ => panic!("the cache holds it"),
    }
    let failed = Lookup::Walked(Err(Failure::message("offline")));
    assert!(items_to_keep(false, &failed).is_none());
    assert!(items_to_keep(false, &Lookup::Started).is_none());
}

#[test]
fn me_is_the_viewer() {
    assert!(matches!(
        resolve_id(Entity::User, "ME", false, Lookup::Started),
        LookupStep::AskViewer
    ));
    let answer = Ok(json(r#"{"data":{"viewer":{"id":"u1"}}}"#));
    match resolve_id(Entity::User, "me", false, Lookup::ViewerAnswered(answer)) {
        LookupStep::Found(id) => assert_eq!(id, "u1"),
        _ => panic!("the viewer is known"),
    }
}

#[test]
fn states_belong_to_a_team() {
    let response = json(
        r#"{"data":{"team":{"states":{"nodes":[{"id":"s1","name":"Done"}]}}}}"#,
    );
    assert_eq!(resolve_state_id(&response, "done").unwrap(), "s1");
    assert_eq!(
        resolve_state_id(&response, "Nope").unwrap_err().to_string(),
        "State 'Nope' not found for team"
    );
    let variables = team_states_request("t1").variables.unwrap();
    assert_eq!(variables.at("teamId").as_str(), Some("t1"));
    assert!(lookup_pagination().all);
    assert_eq!(Entity::Label.collection(), "issueLabels");
    assert!(Entity::Team.filtered_request("ENG").variables.is_some());
    assert!(Entity::View.paged_query().contains("pageInfo"));
}
