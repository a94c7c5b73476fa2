use linear_cli::commands::reviews::{
    attached_pr_urls, line_of_review, merge_review_entries, review_entries,
    review_entries_from_notifications, review_request, show_review_url, wanted_reviews,
    ReviewStep, ReviewWalk,
};
use linear_cli::json::Json;
use linear_cli::json_text::parse_json;

fn json(text: &str) -> Json {
    parse_json(text).unwrap()
}

fn issue_with_sessions(sessions: &str) -> Json {
    json(&format!(
        r#"{{ "identifier": "LIN-123", "agentSessions": {{ "nodes": {} }} }}"#,
        sessions
    ))
}

fn pr_link(slug: &str, number: u64) -> String {
    format!(
        r#"{{ "pullRequest": {{
            "slugId": "{}",
            "number": {},
            "status": "open",
            "url": "https://github.com/acme/app/pull/{}",
            "title": "Fix the thing"
        }} }}"#,
        slug, number, number
    )
}

fn review_url(entry: &Json) -> &str {
    entry.at("reviewUrl").as_str().unwrap()
}

#[test]
fn test_attached_pr_urls_keeps_github_pull_requests_only() {
    let issue = json(
        r#"{ "attachments": { "nodes": [
            { "sourceType": "github", "url": "https://github.com/acme/app/pull/183" },
            { "sourceType": "github", "url": "https://github.com/acme/app/pull/183" },
            { "sourceType": "github", "url": "https://github.com/acme/app/issues/12" },
            { "sourceType": "sentry", "url": "https://sentry.io/acme/app/pull/1" },
            { "sourceType": "github", "url": "https://github.com/acme/app/pull/184" }
        ]}}"#,
    );

    assert_eq!(
        attached_pr_urls(&issue),
        vec![
            "https://github.com/acme/app/pull/183",
            "https://github.com/acme/app/pull/184"
        ]
    );
}

#[test]
fn test_review_entries_from_notifications_uses_the_notification_url() {
    let nodes = vec![
        json(
            r#"{
                "__typename": "IssueNotification",
                "url": "https://linear.app/acme/issue/LIN-1"
            }"#,
        ),
        json(
            r#"{
                "__typename": "PullRequestNotification",
                "url": "https://linear.app/acme/review/fix-the-thing-72e2bba2372a",
                "pullRequest": {
                    "url": "https://github.com/acme/app/pull/183",
                    "number": 183, "status": "open", "title": "Fix the thing"
                }
            }"#,
        ),
        json(
            r#"{
                "__typename": "PullRequestNotification",
                "url": "https://linear.app/acme/review/someone-elses-pr-aaaaaaaaaaaa",
                "pullRequest": { "url": "https://github.com/acme/app/pull/999", "number": 999 }
            }"#,
        ),
    ];
    let wanted = vec!["https://github.com/acme/app/pull/183".to_string()];

    let entries = review_entries_from_notifications(&nodes, &wanted);

    assert_eq!(entries.len(), 1, "only the requested pull request matches");
    assert_eq!(
        review_url(&entries[0]),
        "https://linear.app/acme/review/fix-the-thing-72e2bba2372a",
        "the notification's URL is used verbatim, not reassembled from the slug"
    );
    assert_eq!(entries[0].at("number").as_u64(), Some(183));
}

#[test]
fn test_review_entries_from_notifications_drops_a_comment_anchor() {
    let nodes = vec![json(
        r#"{
            "__typename": "PullRequestNotification",
            "url": "https://linear.app/acme/review/fix-the-thing-72e2bba2372a#comment-5f63aa7c",
            "pullRequest": { "url": "https://github.com/acme/app/pull/183", "number": 183 }
        }"#,
    )];
    let wanted = vec!["https://github.com/acme/app/pull/183".to_string()];

    let entries = review_entries_from_notifications(&nodes, &wanted);

    assert_eq!(
        review_url(&entries[0]),
        "https://linear.app/acme/review/fix-the-thing-72e2bba2372a",
        "a comment notification must still yield the review page URL"
    );
}

#[test]
fn test_merge_review_entries_prefers_the_first_entry_per_pull_request() {
    let merged = merge_review_entries(vec![
        json(r#"{ "url": "https://github.com/acme/app/pull/1", "reviewUrl": "from-notification" }"#),
        json(r#"{ "url": "https://github.com/acme/app/pull/1", "reviewUrl": "from-agent-session" }"#),
        json(r#"{ "url": "https://github.com/acme/app/pull/2", "reviewUrl": "other" }"#),
    ]);

    assert_eq!(merged.len(), 2);
    assert_eq!(review_url(&merged[0]), "from-notification");
    assert_eq!(review_url(&merged[1]), "other");
}

#[test]
fn test_review_entries_builds_review_url_from_slug() {
    let issue = issue_with_sessions(&format!(
        r#"[ {{ "pullRequests": {{ "nodes": [{}] }} }} ]"#,
        pr_link("7ffd27854fd2", 183)
    ));

    let entries = review_entries("acme", &issue);

    assert_eq!(entries.len(), 1);
    assert_eq!(
        review_url(&entries[0]),
        "https://linear.app/acme/review/7ffd27854fd2"
    );
    assert_eq!(entries[0].at("number").as_u64(), Some(183));
    assert_eq!(
        entries[0].at("url").as_str(),
        Some("https://github.com/acme/app/pull/183")
    );
}

#[test]
fn test_review_entries_dedupes_a_pr_linked_by_several_sessions() {
    let issue = issue_with_sessions(&format!(
        r#"[
            {{ "pullRequests": {{ "nodes": [{}] }} }},
            {{ "pullRequests": {{ "nodes": [{}, {}] }} }}
        ]"#,
        pr_link("aaa111", 7),
        pr_link("aaa111", 7),
        pr_link("bbb222", 8)
    ));

    let entries = review_entries("acme", &issue);

    assert_eq!(entries.len(), 2, "the repeated pull request is listed once");
    assert_eq!(
        review_url(&entries[0]),
        "https://linear.app/acme/review/aaa111"
    );
    assert_eq!(
        review_url(&entries[1]),
        "https://linear.app/acme/review/bbb222"
    );
}

#[test]
fn test_review_entries_empty_without_sessions_or_slug() {
    assert!(review_entries("acme", &issue_with_sessions("[]")).is_empty());

    // A session with no linked pull request, and a link whose slug is missing or
    // blank: all unresolvable, and none of them may produce a bogus URL.
    let unresolvable = issue_with_sessions(
        r#"[
            { "pullRequests": { "nodes": [] } },
            { "pullRequests": { "nodes": [{ "pullRequest": { "number": 1 } }] } },
            { "pullRequests": { "nodes": [{ "pullRequest": { "slugId": "", "number": 2 } }] } }
        ]"#,
    );
    assert!(review_entries("acme", &unresolvable).is_empty());
}

fn feed(pr: u64, more: bool) -> Json {
    json(&format!(
        r#"{{"data":{{"notifications":{{
            "pageInfo":{{"hasNextPage":{},"endCursor":"c{}"}},
            "nodes":[{{"url":"https://linear.app/acme/review/r{}",
                       "pullRequest":{{"url":"https://github.com/a/b/pull/{}"}}}}]
        }}}}}}"#,
        more, pr, pr, pr
    ))
}

fn urls(numbers: &[u64]) -> Vec<String> {
    numbers
        .iter()
        .map(|n| format!("https://github.com/a/b/pull/{}", n))
        .collect()
}

#[test]
fn feed_is_read_until_all_are_found() {
    let wanted = urls(&[1, 2]);
    let walk = ReviewWalk::start();
    let variables = walk.request().variables.unwrap();
    assert!(variables.get("after").unwrap().is_null());
    let walk = match walk.absorb(&feed(1, true), &wanted) {
        ReviewStep::More(walk) => walk,
        ReviewStep::Done(_) => panic!("one is missing"),
    };
    let variables = walk.request().variables.unwrap();
    assert_eq!(variables.at("after").as_str(), Some("c1"));
    match walk.absorb(&feed(2, true), &wanted) {
        ReviewStep::Done(entries) => assert_eq!(entries.len(), 2),
        ReviewStep::More(_) => panic!("all are found"),
    }
}

#[test]
fn feed_is_read_for_five_pages_at_most() {
    let wanted = urls(&[1]);
    let mut walk = ReviewWalk::start();
    for _ in 0..4 {
        walk = match walk.absorb(&feed(9, true), &wanted) {
            ReviewStep::More(walk) => walk,
            ReviewStep::Done(_) => panic!("there are pages left"),
        };
    }
    match walk.absorb(&feed(9, true), &wanted) {
        ReviewStep::Done(entries) => assert!(entries.is_empty()),
        ReviewStep::More(_) => panic!("five pages are read"),
    }
    assert!(matches!(
        ReviewWalk::start().absorb(&feed(9, false), &wanted),
        ReviewStep::Done(_)
    ));
}

#[test]
fn merging_twice_changes_nothing() {
    let entries = || {
        vec![
            json(r#"{"url":"a","reviewUrl":"1"}"#),
            json(r#"{"reviewUrl":"2"}"#),
            json(r#"{"reviewUrl":"3"}"#),
            json(r#"{"url":"a","reviewUrl":"4"}"#),
        ]
    };
    let once = merge_review_entries(entries());
    let twice = merge_review_entries(merge_review_entries(entries()));
    assert_eq!(once.len(), 3);
    assert_eq!(once, twice);
}

#[test]
fn notification_takes_precedence_over_session() {
    let response = json(&format!(
        r#"{{"data":{{"organization":{{"urlKey":"acme"}},"issue":{{
            "identifier":"LIN-1",
            "attachments":{{"nodes":[{{"sourceType":"github","url":"https://github.com/acme/app/pull/7"}}]}},
            "agentSessions":{{"nodes":[{{"pullRequests":{{"nodes":[{}]}}}}]}}
        }}}}}}"#,
        pr_link("slug7", 7)
    ));
    let wanted = wanted_reviews("LIN-1", &response).unwrap();
    assert_eq!(wanted, vec!["https://github.com/acme/app/pull/7"]);
    let notified = vec![json(
        r#"{"url":"https://github.com/acme/app/pull/7","reviewUrl":"whole"}"#,
    )];
    let entries = show_review_url("LIN-1", &response, notified).unwrap();
    assert_eq!(entries.len(), 1);
    assert_eq!(line_of_review(&entries[0]), "whole");
    let entries = show_review_url("LIN-1", &response, vec![]).unwrap();
    assert_eq!(
        line_of_review(&entries[0]),
        "https://linear.app/acme/review/slug7"
    );
}

#[test]
fn missing_reviews_are_explained() {
    let none = json(r#"{"data":{"issue":{"identifier":"LIN-1"}}}"#);
    assert_eq!(
        show_review_url("uuid", &none, vec![]).unwrap_err().to_string(),
        "No review URL for LIN-1: no pull request is linked to this issue. Use the GitHub PR URL instead."
    );
    let linked = json(
        r#"{"data":{"issue":{"attachments":{"nodes":[
            {"sourceType":"github","url":"https://github.com/acme/app/pull/7"}]}}}}"#,
    );
    assert_eq!(
        show_review_url("LIN-2", &linked, vec![]).unwrap_err().to_string(),
        "No review URL for LIN-2: Linear exposes a review URL through pull request notifications, and none of the 1 linked pull request(s) has one in the last 5 pages of the feed. Use the GitHub PR URL instead."
    );
    let missing = json(r#"{"data":{"issue":null}}"#);
    assert_eq!(
        wanted_reviews("LIN-3", &missing).unwrap_err().to_string(),
        "Issue not found: LIN-3"
    );
    assert!(review_request("LIN-3").query.contains("agentSessions"));
}
