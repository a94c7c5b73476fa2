use linear_cli::commands::templates::{
    create_template, delete_template, deleted_payload, get_template, lines_of_template,
    list_templates, remote_create_template, remote_delete_template, remote_deleted,
    remote_get_template, remote_list_templates, remote_update_template, safe_terminal_value,
    show_template, sorted_templates, store_template, template_from_answers, template_payload,
    CreatePlan, IssueTemplate, TemplateAnswers, TemplateFlags, TemplateStore,
};
use linear_cli::commands::update::UpdatePlan;
use linear_cli::json::Json;
use linear_cli::json_text::parse_json;
use linear_cli::name_map::NameMap;

fn json(text: &str) -> Json {
    parse_json(text).unwrap()
}

fn template(name: &str) -> IssueTemplate {
    IssueTemplate {
        name: name.to_string(),
        title_prefix: Some("[BUG]".to_string()),
        description: None,
        default_priority: Some(2),
        default_labels: vec!["bug".to_string()],
        team: None,
    }
}

fn store(names: &[&str]) -> TemplateStore {
    let mut store = TemplateStore {
        templates: NameMap::new(),
    };
    for name in names {
        store_template(&mut store, name, template(name));
    }
    store
}

fn flags() -> TemplateFlags {
    TemplateFlags {
        title_prefix: None,
        description: None,
        default_priority: None,
        labels: vec![],
        team: None,
    }
}

#[test]
fn templates_test_safe_terminal_value_removes_escape_sequences() {
    assert_eq!(safe_terminal_value("bad\u{1b}[31mname\u{1b}[0m"), "badname");
}

#[test]
fn templates_are_sorted_by_name() {
    let sorted = sorted_templates(&store(&["c", "a", "b"]));
    let names: Vec<&str> = sorted.iter().map(|t| t.name.as_str()).collect();
    assert_eq!(names, vec!["a", "b", "c"]);
    let rows = list_templates(&sorted, None, None);
    assert_eq!(rows[0].title_prefix, "[BUG]");
    assert_eq!(rows[0].team, "-");
    assert_eq!(rows[0].labels, "bug");
}

#[test]
fn template_is_found_until_it_is_deleted() {
    let mut store = store(&["a"]);
    assert_eq!(get_template(&store, "a").unwrap().name, "a");
    assert!(show_template(&store, "b").is_err());
    assert!(delete_template(&mut store, "a", false, false).is_err());
    delete_template(&mut store, "a", true, false).unwrap();
    assert!(get_template(&store, "a").is_none());
    assert!(delete_template(&mut store, "a", true, false).is_err());
    assert!(deleted_payload("a").is_object());
}

#[test]
fn template_is_created_from_flags_or_answers() {
    let empty = store(&[]);
    assert!(matches!(
        create_template(&empty, "a", &flags(), false, false),
        Ok(CreatePlan::Ask)
    ));
    assert!(matches!(
        create_template(&empty, "a", &flags(), true, false),
        Ok(CreatePlan::Store(_))
    ));
    match create_template(&empty, "a", &flags(), false, true).unwrap() {
        CreatePlan::Preview(payload) => assert!(payload.at("dry_run").is_true()),
        other => panic!("{:?}", other),
    }
    let mut given = flags();
    given.default_priority = Some(0);
    given.labels = vec![" x ".to_string(), " ".to_string()];
    match create_template(&empty, "a", &given, false, false).unwrap() {
        CreatePlan::Store(made) => {
            assert_eq!(made.default_priority, None);
            assert_eq!(made.default_labels, vec!["x"]);
        }
        other => panic!("{:?}", other),
    }
}

#[test]
fn template_faults_are_reported() {
    assert_eq!(
        create_template(&store(&["a"]), "a", &flags(), false, false)
            .unwrap_err()
            .to_string(),
        "Template already exists. Delete it first or choose a different name."
    );
    let mut bad = flags();
    bad.default_priority = Some(5);
    assert_eq!(
        create_template(&store(&[]), "a", &bad, false, false)
            .unwrap_err()
            .to_string(),
        "Invalid priority: 5. Use 0=none, 1=urgent, 2=high, 3=normal, or 4=low."
    );
}

#[test]
fn answers_make_a_template() {
    let answers = TemplateAnswers {
        title_prefix: String::new(),
        description: "d".to_string(),
        priority: 1,
        team: "ENG".to_string(),
        labels: "a, ,b".to_string(),
    };
    let made = template_from_answers("n", &answers);
    assert_eq!(made.title_prefix, None);
    assert_eq!(made.default_priority, Some(1));
    assert_eq!(made.default_labels, vec!["a", "b"]);
    let payload = template_payload(&made);
    assert_eq!(payload.at("name").as_str(), Some("n"));
    assert!(payload.get("title_prefix").is_none());
    assert!(!lines_of_template(&made).is_empty());
}

#[test]
fn remote_templates_are_filtered_by_type() {
    let response = json(
        r#"{"data":{"templates":{"nodes":[{"id":"1","type":"issue"},{"id":"2","type":"project"}]}}}"#,
    );
    assert_eq!(remote_list_templates(&response, &None).len(), 2);
    let only = remote_list_templates(&response, &Some("ISSUE".to_string()));
    assert_eq!(only.len(), 1);
    assert!(remote_get_template(&json(r#"{"data":{"template":null}}"#), "x").is_err());
}

#[test]
fn remote_template_data_has_to_be_json() {
    let bad = Some("{".to_string());
    let failure = remote_create_template("n", "issue", &None, &None, &bad).unwrap_err();
    assert_eq!(
        failure.to_string(),
        "Invalid JSON for --data. Provide valid JSON string."
    );
    let good = Some(r#"{"title":"T"}"#.to_string());
    let request = remote_create_template("n", "issue", &None, &None, &good).unwrap();
    let input = request.variables.unwrap();
    assert_eq!(
        input.at("input").at("templateData").at("title").as_str(),
        Some("T")
    );
    assert!(matches!(
        remote_update_template("x", &None, &None, &None),
        Ok(UpdatePlan::Nothing)
    ));
    assert!(remote_update_template("x", &None, &None, &bad).is_err());
}

#[test]
fn remote_template_is_deleted_by_force() {
    assert_eq!(
        remote_delete_template("x", false, false)
            .unwrap_err()
            .to_string(),
        "Delete requires --force flag. Use: linear templates remote-delete x --force"
    );
    assert!(remote_delete_template("x", true, false).is_ok());
    assert_eq!(
        remote_deleted(&json("{}"), "x").unwrap_err().to_string(),
        "Failed to delete template x"
    );
}
