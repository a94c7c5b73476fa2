use linear_cli::commands::import::{
    build_issue_input, create_request, create_requests, csv_table_rows, import_heading,
    import_plan, import_result, import_summary, json_value_rows, parse_csv_rows, parse_json_rows,
    place_text, preview_lines, read_create_answer, result_with_notation, sort_results, tally,
    CreateAnswer, CsvTable,
    Estimate, ImportCommands, ImportPlan, ImportResult, ImportRow, Resolved,
};
use linear_cli::error::Failure;
use linear_cli::json::Json;
use linear_cli::json_text::parse_json;

fn json(text: &str) -> Json {
    parse_json(text).unwrap()
}

fn row(title: &str) -> ImportRow {
    ImportRow {
        title: title.to_string(),
        description: None,
        priority: None,
        status: None,
        assignee: None,
        labels: vec![],
        estimate: None,
        due_date: None,
    }
}

#[test]
fn import_commands_name_their_source() {
    let command = ImportCommands::Csv {
        file: "a.csv".to_string(),
        team: "ENG".to_string(),
        dry_run: true,
    };
    assert_eq!(command.file(), "a.csv");
    assert_eq!(command.team(), "ENG");
    assert!(command.is_dry_run());
}

#[test]
fn csv_rows_are_read() {
    let bytes = b"Title,PRIORITY,labels,due_date,estimate\nFix,2,\"bug, ui,\",2024-01-01,3\n,1,,,\nPlain,x,,,\n";
    let rows = parse_csv_rows(bytes).unwrap();
    assert_eq!(rows.rows.len(), 2);
    assert_eq!(rows.skipped, vec![2]);
    assert_eq!(rows.rows[0].title, "Fix");
    assert_eq!(rows.rows[0].priority, Some(2));
    assert_eq!(rows.rows[0].labels, vec!["bug", "ui"]);
    assert_eq!(rows.rows[0].due_date.as_deref(), Some("2024-01-01"));
    match &rows.rows[0].estimate {
        Some(Estimate::Text(text)) => assert_eq!(text, "3"),
        other => panic!("{:?}", other),
    }
    assert_eq!(rows.rows[1].priority, None);
    assert!(rows.rows[1].labels.is_empty());
}

#[test]
fn csv_needs_a_title_column() {
    assert_eq!(
        parse_csv_rows(b"name,status\na,b\n").unwrap_err().to_string(),
        "CSV file must have a 'title' column. Found columns: name, status"
    );
}

#[test]
fn uneven_csv_row_fails_the_import() {
    let failure = parse_csv_rows(b"title,status\na,b\nc\n").unwrap_err();
    assert_eq!(failure.to_string(), "Failed to parse CSV row 2");
    let table = CsvTable {
        headers: vec!["title".to_string()],
        records: vec![Ok(vec!["a".to_string()]), Err("bad".to_string())],
    };
    assert_eq!(
        csv_table_rows(&table).unwrap_err().to_string(),
        "Failed to parse CSV row 2"
    );
}

#[test]
fn json_rows_are_read() {
    let rows = parse_json_rows(
        r#"[{"title":"A","priority":1,"labels":["x","y"]},{"title":""},{"title":"B","labels":"p, q"}]"#,
        "f.json",
    )
    .unwrap();
    assert_eq!(rows.rows.len(), 2);
    assert_eq!(rows.skipped, vec![2]);
    assert_eq!(rows.rows[0].labels, vec!["x", "y"]);
    assert_eq!(rows.rows[1].labels, vec!["p", "q"]);
    let one = json_value_rows(json(r#"{"title":"Only"}"#)).unwrap();
    assert_eq!(one.rows[0].title, "Only");
}

#[test]
fn json_file_has_to_hold_issues() {
    assert_eq!(
        parse_json_rows("3", "f.json").unwrap_err().to_string(),
        "JSON file must contain an array of issue objects or a single object"
    );
    assert!(parse_json_rows("{", "f.json")
        .unwrap_err()
        .to_string()
        .contains("f.json"));
}

#[test]
fn import_is_announced_and_previewed() {
    assert_eq!(import_heading(1, "ENG"), "Importing 1 issue into team ENG...");
    assert_eq!(
        import_heading(3, "ENG"),
        "Importing 3 issues into team ENG..."
    );
    assert_eq!(place_text(0, 12), "[1/12]");
    let mut shown = row("T");
    shown.description = Some("x".repeat(81));
    shown.priority = Some(-1);
    shown.labels = vec!["a".to_string(), "b".to_string()];
    assert_eq!(
        preview_lines(&shown, &Some("2.5".to_string())),
        vec![
            format!("    Description: {}...", "x".repeat(80)),
            "    Priority:    -1".to_string(),
            "    Labels:      a, b".to_string(),
            "    Estimate:    2.5".to_string()
        ]
    );
}

#[test]
fn unresolved_names_are_warned_of() {
    let mut named = row("T");
    named.status = Some("Todo".to_string());
    named.labels = vec!["bug".to_string(), "ghost".to_string()];
    let resolved = Resolved {
        state: Some(Err(Failure::message("no such state"))),
        assignee: None,
        labels: vec![
            Ok("label-1".to_string()),
            Err(Failure::message("no such label")),
        ],
        estimate: None,
        due_date: None,
    };
    let (input, warnings) = build_issue_input(&named, "team-1", &resolved, 0, 2);
    assert_eq!(input.at("title").as_str(), Some("T"));
    assert_eq!(input.at("teamId").as_str(), Some("team-1"));
    assert!(input.get("stateId").is_none());
    assert_eq!(input.at("labelIds").items().len(), 1);
    assert_eq!(warnings.len(), 2);
    assert!(warnings[0].contains("Todo"));
    assert!(warnings[1].contains("ghost"));
    let variables = create_request(input).variables.unwrap();
    assert_eq!(variables.at("input").at("title").as_str(), Some("T"));
}

#[test]
fn create_answers_become_results() {
    let made = read_create_answer(Ok(json(
        r#"{"data":{"issueCreate":{"success":true,"issue":{"identifier":"LIN-1","url":"u"}}}}"#,
    )));
    let result = import_result(0, "T", made);
    assert_eq!(result.outcome, Ok("LIN-1".to_string()));
    let refused = read_create_answer(Ok(json(
        r#"{"data":{"issueCreate":{"success":false,"error":"why"}}}"#,
    )));
    assert!(matches!(refused, CreateAnswer::Refused(Some(_))));
    assert_eq!(
        import_result(0, "T", refused).outcome,
        Err("\"why\"".to_string())
    );
    let silent = read_create_answer(Ok(json(r#"{"data":{}}"#)));
    assert_eq!(
        import_result(0, "T", silent).outcome,
        Err("Unknown error".to_string())
    );
    let failed = read_create_answer(Err(Failure::message("offline")));
    assert_eq!(
        import_result(0, "T", failed).outcome,
        Err("offline".to_string())
    );
}

#[test]
fn refusals_are_told_in_json() {
    let told = |body: &str| import_result(0, "T", read_create_answer(Ok(json(body)))).outcome;
    assert_eq!(
        told(r#"{"data":{"issueCreate":{"errors":[{"message":"no \"x\"","code":-4,"by":1.5}]}}}"#),
        Err(r#"[{"by":1.5,"code":-4,"message":"no \"x\""}]"#.to_string())
    );
    assert_eq!(
        told(r#"{"data":{"issueCreate":{"error":null,"errors":[1]}}}"#),
        Err("null".to_string())
    );
    assert_eq!(
        told(r#"{"data":{"issueCreate":{"error":[true,7]}}}"#),
        Err("[true,7]".to_string())
    );
    let refused = CreateAnswer::Refused(Some(Json::Null));
    assert_eq!(
        result_with_notation(3, "T", refused, "as told").outcome,
        Err("as told".to_string())
    );
}

#[test]
fn results_are_reported_in_row_order() {
    let result = |index: usize, ok: bool| ImportResult {
        index,
        title: format!("t{}", index),
        outcome: if ok {
            Ok("LIN".to_string())
        } else {
            Err("no".to_string())
        },
    };
    let sorted = sort_results(vec![result(2, true), result(0, false), result(1, true)]);
    let order: Vec<usize> = sorted.iter().map(|r| r.index).collect();
    assert_eq!(order, vec![0, 1, 2]);
    assert_eq!(tally(&sorted), (2, 1));
    assert_eq!(import_summary(2, 1), "Created 2 issues (1 failed)");
    assert_eq!(import_summary(1, 0), "Created 1 issue");
}

#[test]
fn nothing_is_created_without_rows_or_in_a_dry_run() {
    assert_eq!(import_plan(0, false), ImportPlan::Nothing);
    assert_eq!(import_plan(0, true), ImportPlan::Nothing);
    assert_eq!(import_plan(2, true), ImportPlan::Preview);
    assert_eq!(import_plan(2, false), ImportPlan::Create);
}

#[test]
fn one_issue_is_created_for_each_row() {
    let mut second = row("B");
    second.labels = vec!["ghost".to_string()];
    let rows = vec![row("A"), second];
    let resolved = |labels| Resolved {
        state: None,
        assignee: None,
        labels,
        estimate: None,
        due_date: None,
    };
    let missing = vec![Err(Failure::message("no such label"))];
    let (requests, warnings) =
        create_requests(&rows, "team-1", &vec![resolved(vec![]), resolved(missing)]);
    let titles: Vec<String> = requests
        .iter()
        .map(|r| r.variables.as_ref().unwrap().at("input").at("title").text_or(""))
        .collect();
    assert_eq!(titles, vec!["A", "B"]);
    assert_eq!(
        warnings,
        vec!["[2/2] Warning: Could not resolve label 'ghost': no such label"]
    );
}
