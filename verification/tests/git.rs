use linear_cli::commands::git::{
    bookmark_exists, bookmark_query, branch_presence, can_shorten_hash, can_shorten_hashes,
    checkout_issue, choose_branch, choose_issue, command_output, commit_of_change,
    commit_of_entry, create_branch, create_pr, description_args, detect_vcs,
    extract_linear_issue, generate_jj_description, get_current_branch, get_issue_info, get_vcs,
    git_commits, issue_request, jj_changes, log_args, now_on, pr_line, presence_line,
    show_branch, title_of_pr, CreatePlan, Detection, GitCommands, IssueInfo, Presence, Probe,
    Tool, Vcs,
};
use linear_cli::error::Failure;
use linear_cli::json::Json;
use linear_cli::json_text::parse_json;
use linear_cli::vcs::generate_branch_name;

fn json(text: &str) -> Json {
    parse_json(text).unwrap()
}

fn info() -> IssueInfo {
    IssueInfo {
        identifier: "LIN-7".to_string(),
        title: "Fix bug".to_string(),
        branch_name: "me/lin-7".to_string(),
        url: "https://linear.app/acme/issue/LIN-7".to_string(),
    }
}

#[test]
fn test_generate_branch_name_simple() {
    assert_eq!(
        generate_branch_name("LIN-123", "Fix bug"),
        "lin-123/fix-bug"
    );
}

#[test]
fn test_generate_branch_name_special_chars() {
    assert_eq!(
        generate_branch_name("LIN-456", "Add feature: user auth!"),
        "lin-456/add-feature-user-auth"
    );
}

#[test]
fn test_generate_branch_name_long_title() {
    let long_title = "This is a very long title that should be truncated because it exceeds the maximum length";
    let result = generate_branch_name("LIN-789", long_title);
    // Format is identifier/slug, identifier is 7 chars + 1 slash = 8 chars
    // Slug should be max 50 chars
    assert!(result.len() <= 58, "Branch name too long: {}", result);
    assert!(result.starts_with("lin-789/"));
}

#[test]
fn test_generate_branch_name_unicode() {
    // Unicode chars get removed (not alphanumeric)
    let result = generate_branch_name("LIN-100", "Fix emoji 🎉 handling");
    assert_eq!(result, "lin-100/fix-emoji-handling");
}

#[test]
fn test_generate_branch_name_multiple_spaces() {
    assert_eq!(
        generate_branch_name("ENG-42", "Fix   multiple   spaces"),
        "eng-42/fix-multiple-spaces"
    );
}

#[test]
fn test_generate_branch_name_leading_trailing_special() {
    assert_eq!(
        generate_branch_name("DEV-1", "  --Fix bug--  "),
        "dev-1/fix-bug"
    );
}

#[test]
fn cut_slug_does_not_end_in_a_hyphen() {
    let title = format!("{} tail", "x".repeat(49));
    assert_eq!(
        generate_branch_name("A-1", &title),
        format!("a-1/{}", "x".repeat(49))
    );
    assert_eq!(generate_branch_name("A-1", "!!!"), "a-1/");
}

#[test]
fn systems_are_looked_for_in_order() {
    assert!(matches!(get_vcs(Some(Vcs::Git)), Detection::Found(Vcs::Git)));
    assert!(matches!(
        get_vcs(None),
        Detection::Look(Probe::JjDirectory)
    ));
    assert!(matches!(
        detect_vcs(Probe::JjDirectory, false),
        Detection::Look(Probe::JjStatus)
    ));
    assert!(matches!(
        detect_vcs(Probe::JjStatus, true),
        Detection::Found(Vcs::Jj)
    ));
    assert!(matches!(
        detect_vcs(Probe::GitDirectory, true),
        Detection::Found(Vcs::Git)
    ));
    match detect_vcs(Probe::GitStatus, false) {
        Detection::Failed(failure) => {
            assert_eq!(failure.to_string(), "Not in a git or jj repository")
        }
        other => panic!("{:?}", other),
    }
    assert_eq!(Vcs::Git.to_string(), "git");
    assert_eq!(Vcs::Jj.to_string(), "jj");
}

#[test]
fn only_some_commands_work_in_a_repository() {
    let commits = GitCommands::Commits {
        limit: 10,
        vcs: Some(Vcs::Jj),
    };
    assert_eq!(commits.repository(), Some(Some(Vcs::Jj)));
    let review = GitCommands::ReviewUrl {
        issue: "LIN-1".to_string(),
    };
    assert_eq!(review.repository(), None);
}

#[test]
fn tool_output_is_trimmed() {
    assert_eq!(
        command_output(Tool::Jj, true, " out \n", "").unwrap(),
        "out"
    );
    assert_eq!(
        command_output(Tool::Jj, false, "", " bad \n")
            .unwrap_err()
            .to_string(),
        "Jujutsu command failed: bad"
    );
    assert_eq!(
        command_output(Tool::Gh, false, "", "no")
            .unwrap_err()
            .to_string(),
        "gh command failed: no"
    );
}

#[test]
fn issue_of_a_branch_is_read() {
    let response = json(
        r#"{"data":{"issue":{"id":"u","identifier":"LIN-7","title":"Fix bug","branchName":"b"}}}"#,
    );
    let info = get_issue_info("LIN-7", &response).unwrap();
    assert_eq!(info.identifier, "LIN-7");
    assert_eq!(info.url, "");
    let missing = json(r#"{"data":{"issue":null}}"#);
    assert_eq!(
        get_issue_info("LIN-8", &missing).unwrap_err().to_string(),
        "Issue not found: LIN-8"
    );
    let variables = issue_request("LIN-7").variables.unwrap();
    assert_eq!(variables.at("id").as_str(), Some("LIN-7"));
}

#[test]
fn branch_is_chosen_in_order() {
    let custom = Some("mine".to_string());
    assert_eq!(
        choose_branch(custom.clone(), Ok(()), true, &info()).unwrap(),
        "mine"
    );
    assert_eq!(
        choose_branch(custom, Err(Failure::message("bad name")), true, &info())
            .unwrap_err()
            .to_string(),
        "bad name"
    );
    assert_eq!(
        choose_branch(None, Ok(()), true, &info()).unwrap(),
        "me/lin-7"
    );
    assert_eq!(
        choose_branch(None, Ok(()), false, &info()).unwrap(),
        "lin-7/fix-bug"
    );
}

#[test]
fn bookmarks_are_found_in_a_listing() {
    let listing = Some("other: abc\nlin-7/fix-bug: xyz 123\n".to_string());
    assert!(bookmark_exists(&listing, "lin-7/fix-bug"));
    assert!(!bookmark_exists(&listing, "lin-8"));
    assert!(!bookmark_exists(&None, "lin-7"));
    assert!(!bookmark_exists(&Some(String::new()), ""));
    assert_eq!(
        bookmark_query("b", true).unwrap(),
        vec!["bookmark", "list", "b"]
    );
    assert!(bookmark_query("b", false).is_none());
}

#[test]
fn checkout_runs_these_commands() {
    let steps = checkout_issue(Vcs::Git, true, "b", &info());
    assert_eq!(steps.len(), 1);
    assert_eq!(steps[0].args, vec!["checkout", "b"]);
    let steps = checkout_issue(Vcs::Git, false, "b", &info());
    assert_eq!(steps[0].args, vec!["checkout", "-b", "b"]);
    let steps = checkout_issue(Vcs::Jj, true, "b", &info());
    assert_eq!(steps[0].args, vec!["edit", "b"]);
    let steps = checkout_issue(Vcs::Jj, false, "b", &info());
    assert_eq!(steps.len(), 2);
    assert_eq!(steps[0].args[2], generate_jj_description(&info()));
    assert_eq!(steps[1].args, vec!["bookmark", "create", "b"]);
    assert_eq!(now_on(Vcs::Git, "b"), "Now on branch: b");
    assert_eq!(
        get_current_branch(Vcs::Git),
        vec!["rev-parse", "--abbrev-ref", "HEAD"]
    );
}

#[test]
fn branch_is_created_once() {
    match create_branch(Vcs::Git, true, "b", &info()) {
        CreatePlan::Exists { line } => assert_eq!(line, "Branch already exists: b"),
        other => panic!("{:?}", other),
    }
    match create_branch(Vcs::Jj, false, "b", &info()) {
        CreatePlan::Run { commands, line } => {
            assert_eq!(commands.len(), 3);
            assert_eq!(commands[2], vec!["prev"]);
            assert_eq!(line, "Created bookmark: b");
        }
        other => panic!("{:?}", other),
    }
}

#[test]
fn branch_names_are_shown() {
    let rows = show_branch(&info());
    assert_eq!(rows[0], ("Linear branch: ", "me/lin-7".to_string()));
    assert_eq!(rows[1], ("Generated:     ", "lin-7/fix-bug".to_string()));
    assert_eq!(
        presence_line(Vcs::Git, branch_presence(true, true)),
        "Linear branch exists locally"
    );
    assert_eq!(
        presence_line(Vcs::Jj, branch_presence(false, true)),
        "Generated bookmark exists"
    );
    assert_eq!(branch_presence(false, false), Presence::Neither);
}

#[test]
fn issue_is_extracted_from_trailer_brackets_or_url() {
    assert_eq!(
        extract_linear_issue("[ABC-1] x\n\nLinear-Issue: LIN-9 \nmore").as_deref(),
        Some("LIN-9")
    );
    assert_eq!(
        extract_linear_issue("fix [ABC-12] thing").as_deref(),
        Some("ABC-12")
    );
    assert_eq!(
        extract_linear_issue("X-1 see https://linear.app/acme/issue/LIN-42/title").as_deref(),
        Some("LIN-42")
    );
    assert_eq!(extract_linear_issue("ABC-1 without brackets"), None);
    assert_eq!(extract_linear_issue("[abc-1] in lower case"), None);
}

#[test]
fn found_references_are_used_in_order() {
    let some = |s: &str| Some(s.to_string());
    assert_eq!(
        choose_issue("Linear-Issue: T-1", some("B-1"), some("U-1")).as_deref(),
        Some("T-1")
    );
    assert_eq!(
        choose_issue("x linear.app/", some("B-1"), some("U-1")).as_deref(),
        Some("B-1")
    );
    assert_eq!(
        choose_issue("x linear.app/", None, some("U-1")).as_deref(),
        Some("U-1")
    );
    assert_eq!(choose_issue("x", None, some("U-1")), None);
}

#[test]
fn generated_description_is_read_back() {
    let description = generate_jj_description(&info());
    assert_eq!(
        description,
        "LIN-7: Fix bug\n\nLinear-Issue: LIN-7\nLinear-URL: https://linear.app/acme/issue/LIN-7"
    );
    assert_eq!(
        extract_linear_issue(&description).as_deref(),
        Some("LIN-7")
    );
}

#[test]
fn git_log_is_read() {
    let output = "0123456789abcdef|[LIN-1] Fix|body\0\n1123456789abcdef|Plain subject|\0\nnohash\0 \n2123456789abcdef|Sub|see linear.app/x\0";
    assert!(can_shorten_hashes(output));
    let commits = git_commits(output, None);
    assert_eq!(commits.len(), 3);
    assert_eq!(commits[0].id, "01234567");
    assert_eq!(commits[0].subject, "[LIN-1] Fix");
    assert!(commits[0].linked);
    assert_eq!(commits[0].issue.as_deref(), Some("LIN-1"));
    assert!(!commits[1].linked);
    assert_eq!(commits[2].issue, None);
    assert!(commits[2].linked);
    assert!(!can_shorten_hash("short|x"));
    assert!(commit_of_entry("   ", None).is_none());
}

#[test]
fn log_commands_hold_the_limit() {
    assert_eq!(
        log_args(Vcs::Git, 10),
        vec!["log", "-10", "--format=%H|%s|%b%x00"]
    );
    let jj = log_args(Vcs::Jj, 5);
    assert_eq!(jj[2], "ancestors(@, 5)");
    assert_eq!(
        jj[5],
        "change_id.short() ++ \" \" ++ description.first_line() ++ \"\\n\""
    );
    assert_eq!(description_args("abc")[2], "abc");
}

#[test]
fn jj_log_is_read() {
    let changes = jj_changes("abc first line\n\nxyz\r\n");
    assert_eq!(
        changes,
        vec![
            ("abc".to_string(), "first line".to_string()),
            ("xyz".to_string(), String::new())
        ]
    );
    let linked = commit_of_change("abc", "first", "first\n\nLinear-Issue: LIN-3", None);
    assert!(linked.linked);
    assert_eq!(linked.issue.as_deref(), Some("LIN-3"));
    let url_only = commit_of_change("abc", "first", "Linear-URL: x", None);
    assert_eq!(url_only.issue.as_deref(), Some(""));
    let plain = commit_of_change("abc", "first", "first", None);
    assert!(!plain.linked);
}

#[test]
fn pull_request_is_created_with_these_arguments() {
    assert_eq!(title_of_pr(&info()), "[LIN-7] Fix bug");
    assert_eq!(
        create_pr(&info(), "main", true, false),
        vec![
            "pr",
            "create",
            "--title",
            "[LIN-7] Fix bug",
            "--body",
            "Linear: https://linear.app/acme/issue/LIN-7",
            "--base",
            "main",
            "--draft"
        ]
    );
    assert_eq!(pr_line("url"), "PR created: url");
    assert_eq!(pr_line(""), "PR created successfully!");
}
