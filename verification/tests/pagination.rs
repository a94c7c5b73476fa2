use linear_cli::json::Json;
use linear_cli::json_text::parse_json;
use linear_cli::pagination::{Pager, PagerStep, PaginationOptions, Stream};

fn json(text: &str) -> Json {
    parse_json(text).unwrap()
}

#[test]
fn test_pagination_options_default() {
    let opts = PaginationOptions::default();
    assert!(opts.limit.is_none());
    assert!(opts.after.is_none());
    assert!(opts.before.is_none());
    assert!(opts.page_size.is_none());
    assert!(!opts.all);
}

#[test]
fn test_with_default_limit_sets_limit_when_none() {
    let opts = PaginationOptions::default();
    let result = opts.with_default_limit(50);
    assert_eq!(result.limit, Some(50));
}

#[test]
fn test_with_default_limit_preserves_existing_limit() {
    let opts = PaginationOptions {
        limit: Some(10),
        ..Default::default()
    };
    let result = opts.with_default_limit(50);
    assert_eq!(result.limit, Some(10));
}

#[test]
fn test_with_default_limit_skipped_when_all() {
    let opts = PaginationOptions {
        all: true,
        ..Default::default()
    };
    let result = opts.with_default_limit(50);
    assert!(result.limit.is_none());
}

#[test]
fn test_with_default_all_sets_all_when_unbounded() {
    // No --limit and no --all: upgrade to fetch every page (detail-view
    // default — this is the projects-truncation fix).
    let opts = PaginationOptions::default();
    let result = opts.with_default_all();
    assert!(result.all);
    assert!(result.limit.is_none());
}

#[test]
fn test_with_default_all_preserves_explicit_limit() {
    // An explicit --limit is a deliberate cap; don't upgrade it to all.
    let opts = PaginationOptions {
        limit: Some(10),
        ..Default::default()
    };
    let result = opts.with_default_all();
    assert!(!result.all);
    assert_eq!(result.limit, Some(10));
}

#[test]
fn test_with_default_all_preserves_explicit_all() {
    let opts = PaginationOptions {
        all: true,
        ..Default::default()
    };
    let result = opts.with_default_all();
    assert!(result.all);
    assert!(result.limit.is_none());
}

#[test]
fn test_with_default_all_carries_through_cursor_and_page_size() {
    // Other pagination fields ride along when we upgrade to all.
    let opts = PaginationOptions {
        after: Some("cursor".to_string()),
        page_size: Some(25),
        ..Default::default()
    };
    let result = opts.with_default_all();
    assert!(result.all);
    assert_eq!(result.after.as_deref(), Some("cursor"));
    assert_eq!(result.page_size, Some(25));
}

#[test]
fn test_effective_page_size_default() {
    let opts = PaginationOptions::default();
    assert_eq!(opts.effective_page_size(100), 100);
}

#[test]
fn test_effective_page_size_custom() {
    let opts = PaginationOptions {
        page_size: Some(25),
        ..Default::default()
    };
    assert_eq!(opts.effective_page_size(100), 25);
}

#[test]
fn test_effective_page_size_minimum_one() {
    let opts = PaginationOptions {
        page_size: Some(0),
        ..Default::default()
    };
    assert_eq!(opts.effective_page_size(100), 1);
}

const NODES: &[&str] = &["data", "issues", "nodes"];
const INFO: &[&str] = &["data", "issues", "pageInfo"];

fn page(ids: &[&str], next: Option<&str>) -> Json {
    let nodes: Vec<String> = ids.iter().map(|id| format!(r#"{{"id":"{}"}}"#, id)).collect();
    let info = match next {
        Some(cursor) => format!(r#"{{"hasNextPage":true,"endCursor":"{}"}}"#, cursor),
        None => r#"{"hasNextPage":false,"endCursor":null}"#.to_string(),
    };
    json(&format!(
        r#"{{"data":{{"issues":{{"nodes":[{}],"pageInfo":{}}}}}}}"#,
        nodes.join(","),
        info
    ))
}

fn ids(items: &[Json]) -> Vec<String> {
    items
        .iter()
        .map(|item| item.at("id").as_str().unwrap().to_string())
        .collect()
}

#[test]
fn walk_gathers_pages_up_to_the_limit() {
    let options = PaginationOptions {
        limit: Some(3),
        ..Default::default()
    };
    let pager = Pager::start(&options, 2);
    let base = json(r#"{"team":"T"}"#);
    let first = pager.variables(&base);
    assert_eq!(first.at("team").as_str(), Some("T"));
    assert_eq!(first.at("first").as_u64(), Some(2));
    let pager = match pager.absorb(&page(&["a", "b"], Some("c1")), NODES, INFO) {
        PagerStep::More(pager) => pager,
        PagerStep::Done(_) => panic!("there is more to read"),
    };
    let second = pager.variables(&base);
    assert_eq!(second.at("first").as_u64(), Some(1));
    assert_eq!(second.at("after").as_str(), Some("c1"));
    match pager.absorb(&page(&["c", "d"], Some("c2")), NODES, INFO) {
        PagerStep::Done(items) => assert_eq!(ids(&items), vec!["a", "b", "c"]),
        PagerStep::More(_) => panic!("the limit is reached"),
    }
}

#[test]
fn walk_without_bounds_reads_one_page() {
    let pager = Pager::start(&PaginationOptions::default(), 2);
    match pager.absorb(&page(&["a"], Some("c1")), NODES, INFO) {
        PagerStep::Done(items) => assert_eq!(ids(&items), vec!["a"]),
        PagerStep::More(_) => panic!("one page is read"),
    }
}

#[test]
fn walk_of_all_pages_ends_with_the_last() {
    let options = PaginationOptions {
        all: true,
        ..Default::default()
    };
    let mut pager = Pager::start(&options, 2);
    for _ in 0..3 {
        pager = match pager.absorb(&page(&["x"], Some("c")), NODES, INFO) {
            PagerStep::More(pager) => pager,
            PagerStep::Done(_) => panic!("there is more to read"),
        };
    }
    match pager.absorb(&page(&["y"], None), NODES, INFO) {
        PagerStep::Done(items) => assert_eq!(ids(&items), vec!["x", "x", "x", "y"]),
        PagerStep::More(_) => panic!("the last page is read"),
    }
}

#[test]
fn walk_goes_backward_from_a_before_cursor() {
    let options = PaginationOptions {
        before: Some("end".to_string()),
        limit: Some(5),
        ..Default::default()
    };
    let variables = Pager::start(&options, 2).variables(&Json::object());
    assert_eq!(variables.at("last").as_u64(), Some(2));
    assert_eq!(variables.at("before").as_str(), Some("end"));
    assert!(variables.get("first").is_none());
}

#[test]
fn stream_hands_out_batches_up_to_the_limit() {
    let options = PaginationOptions {
        limit: Some(3),
        ..Default::default()
    };
    let stream = Stream::start(&options, 2);
    assert!(!stream.finished());
    let step = stream.absorb(&page(&["a", "b"], Some("c1")), NODES, INFO);
    assert_eq!(ids(&step.batch.unwrap()), vec!["a", "b"]);
    let next = step.next.unwrap();
    assert_eq!(next.total(), 2);
    let step = next.absorb(&page(&["c", "d"], Some("c2")), NODES, INFO);
    assert_eq!(ids(&step.batch.unwrap()), vec!["c"]);
    assert_eq!(step.total, 3);
}

#[test]
fn stream_hands_on_no_empty_batch() {
    let options = PaginationOptions {
        all: true,
        ..Default::default()
    };
    let step = Stream::start(&options, 2).absorb(&page(&[], Some("c1")), NODES, INFO);
    assert!(step.batch.is_none());
    assert!(step.next.is_none());
    assert_eq!(step.total, 0);
}

#[test]
fn batches_hold_what_a_walk_gathers() {
    let options = PaginationOptions {
        limit: Some(4),
        ..Default::default()
    };
    let pages = [
        page(&["a", "b"], Some("c1")),
        page(&["c"], Some("c2")),
        page(&["d", "e"], None),
    ];
    let mut pager = Some(Pager::start(&options, 2));
    let mut gathered = vec![];
    let mut stream = Some(Stream::start(&options, 2));
    let mut handed_on = vec![];
    for page in &pages {
        if let Some(walk) = pager.take() {
            match walk.absorb(page, NODES, INFO) {
                PagerStep::More(next) => pager = Some(next),
                PagerStep::Done(items) => gathered = ids(&items),
            }
        }
        if let Some(batches) = stream.take() {
            let step = batches.absorb(page, NODES, INFO);
            handed_on.extend(ids(&step.batch.unwrap()));
            stream = step.next;
        }
    }
    assert_eq!(gathered, vec!["a", "b", "c", "d"]);
    assert_eq!(handed_on, gathered);
}
