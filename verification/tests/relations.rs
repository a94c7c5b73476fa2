use linear_cli::commands::relations::{
    done_message, list_payload, list_relations, listed_issue, resolve_relation_endpoints,
    RelationCommands, RelationType,
};
use linear_cli::json::Json;
use linear_cli::json_text::parse_json;
use linear_cli::types::read_issue_relation;

fn json(text: &str) -> Json {
    parse_json(text).unwrap()
}

#[test]
fn test_relation_type_blocks() {
    assert_eq!(RelationType::Blocks.to_api_string(), "blocks");
    assert!(!RelationType::Blocks.is_inverted());
    assert_eq!(RelationType::Blocks.display_name(), "blocks");
}

#[test]
fn test_relation_type_blocked_by_maps_to_blocks() {
    // Linear has no blockedBy enum; CLI maps it to inverted blocks.
    assert_eq!(RelationType::BlockedBy.to_api_string(), "blocks");
    assert!(RelationType::BlockedBy.is_inverted());
    assert_eq!(RelationType::BlockedBy.display_name(), "blocked-by");
}

#[test]
fn test_relation_type_related() {
    assert_eq!(RelationType::Related.to_api_string(), "related");
}

#[test]
fn test_relation_type_duplicate() {
    assert_eq!(RelationType::Duplicate.to_api_string(), "duplicate");
}

#[test]
fn test_resolve_relation_endpoints_blocks() {
    let (issue_id, related_id, api_type) =
        resolve_relation_endpoints("A", RelationType::Blocks, "B");
    assert_eq!(issue_id, "A");
    assert_eq!(related_id, "B");
    assert_eq!(api_type, "blocks");
}

#[test]
fn test_resolve_relation_endpoints_blocked_by_swaps() {
    // A blocked-by B  ==  B blocks A
    let (issue_id, related_id, api_type) =
        resolve_relation_endpoints("A", RelationType::BlockedBy, "B");
    assert_eq!(issue_id, "B");
    assert_eq!(related_id, "A");
    assert_eq!(api_type, "blocks");
}

#[test]
fn test_relation_node_deserializes_with_state_id() {
    let value = json(
        r#"{
            "id": "rel1",
            "type": "blocks",
            "relatedIssue": {
                "id": "issue2",
                "identifier": "LIN-2",
                "title": "Blocked task",
                "state": { "id": "state1", "name": "In Progress" }
            }
        }"#,
    );
    let rel = read_issue_relation(&value).unwrap();
    assert_eq!(rel.relation_type.as_deref(), Some("blocks"));
    let related = rel.related_issue.as_ref().unwrap();
    assert_eq!(related.identifier, "LIN-2");
    assert_eq!(related.state.as_ref().unwrap().name, "In Progress");
}

#[test]
fn test_relation_node_fails_without_state_id() {
    // state { name } only (no id) should fail IssueRef deserialization
    let value = json(
        r#"{
            "id": "rel1",
            "type": "blocks",
            "relatedIssue": {
                "id": "issue2",
                "identifier": "LIN-2",
                "title": "Blocked task",
                "state": { "name": "In Progress" }
            }
        }"#,
    );
    // This should fail because WorkflowState requires id
    assert!(read_issue_relation(&value).is_none());
}

fn issue() -> Json {
    json(
        r#"{
            "id": "i1", "identifier": "LIN-1", "title": "One",
            "parent": {"id": "i0", "identifier": "LIN-0", "title": "Root"},
            "children": {"nodes": [{"id": "i3", "identifier": "LIN-3", "title": "Leaf"}]},
            "relations": {"nodes": [
                {"id": "r1", "type": "blocks",
                 "relatedIssue": {"id": "i2", "identifier": "LIN-2", "title": "Two",
                                  "state": {"id": "s", "name": "Todo"}}}
            ]},
            "inverseRelations": {"nodes": [
                {"id": "r2", "type": "blocks",
                 "issue": {"id": "i4", "identifier": "LIN-4", "title": "Four",
                           "state": {"id": "s", "name": "Done"}}}
            ]}
        }"#,
    )
}

#[test]
fn both_ends_of_a_relation_show_inverse_labels() {
    let report = list_relations(&issue(), "LIN-1", None);
    assert_eq!(report.rows.len(), 2);
    assert_eq!(report.rows[0].relation_type.text(), "blocks");
    assert_eq!(report.rows[0].issue, "LIN-2");
    assert_eq!(report.rows[0].status, "Todo");
    assert_eq!(report.rows[1].relation_type.text(), "blocked by");
    assert_eq!(report.rows[1].issue, "LIN-4");
    assert!(report.heading.contains("LIN-1"));
    assert!(report.parent.unwrap().contains("LIN-0"));
    assert!(report.children.unwrap()[0].contains("LIN-3"));
    assert!(list_payload(&issue()).is_object());
}

#[test]
fn unknown_issue_has_no_relations() {
    let response = json(r#"{"data":{"issue":null}}"#);
    assert_eq!(
        listed_issue(&response, "LIN-9").unwrap_err().to_string(),
        "Issue not found: LIN-9"
    );
}

#[test]
fn blocked_by_is_sent_as_inverted_blocks() {
    let add = RelationCommands::Add {
        from: "LIN-1".to_string(),
        relation: RelationType::BlockedBy,
        to: "LIN-2".to_string(),
    };
    let variables = add.request().variables.unwrap();
    assert_eq!(variables.at("issueId").as_str(), Some("LIN-2"));
    assert_eq!(variables.at("relatedIssueId").as_str(), Some("LIN-1"));
    assert_eq!(variables.at("type").as_str(), Some("blocks"));
}

#[test]
fn parent_is_set_and_removed() {
    let set = RelationCommands::Parent {
        child: "LIN-2".to_string(),
        parent: "LIN-1".to_string(),
    };
    let variables = set.request().variables.unwrap();
    assert_eq!(variables.at("id").as_str(), Some("LIN-2"));
    assert_eq!(variables.at("parentId").as_str(), Some("LIN-1"));
    let unset = RelationCommands::Unparent {
        id: "LIN-2".to_string(),
    };
    let variables = unset.request().variables.unwrap();
    assert_eq!(variables.at("id").as_str(), Some("LIN-2"));
    assert!(variables.get("parentId").is_none());
    let answer = json(r#"{"data":{"issueUpdate":{"issue":{"identifier":"LIN-2x"}}}}"#);
    assert_eq!(
        done_message(&unset, &answer).as_deref(),
        Some("Removed parent from LIN-2x")
    );
    let list = RelationCommands::List {
        id: "LIN-2".to_string(),
    };
    assert!(done_message(&list, &answer).is_none());
}
