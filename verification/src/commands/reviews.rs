//! The Linear review pages of an issue's pull requests.
use vstd::prelude::*;
use vstd::string::*;

use crate::api::{Request, RequestView};
use crate::error::{Failure, FailureView};
use crate::json;
use crate::json::{Json, JsonView};
use crate::text;
use crate::text::{joined2, joined4, joined5, same_text};

verus! {

// ---------------------------------------------------------------------------
// Pull requests that are attached to an issue
// ---------------------------------------------------------------------------

/// The URL of an attachment that is a GitHub pull request.
pub open spec fn pull_url(node: JsonView) -> Option<Seq<char>> {
    match node.at("url"@).as_str() {
        Some(url) => if node.at("sourceType"@).as_str() == Some("github"@) && text::contains_text(
            url,
            "/pull/"@,
        ) {
            Some(url)
        } else {
            None
        },
        None => None,
    }
}

/// The URLs of the pull requests among some attachments, each once, where it first stands.
pub open spec fn distinct_pull_urls(nodes: Seq<JsonView>) -> Seq<Seq<char>>
    decreases nodes.len(),
{
    if nodes.len() == 0 {
        Seq::empty()
    } else {
        let before = distinct_pull_urls(nodes.drop_last());
        match pull_url(nodes.last()) {
            Some(url) => if before.contains(url) {
                before
            } else {
                before.push(url)
            },
            None => before,
        }
    }
}

pub open spec fn pr_urls(issue: JsonView) -> Seq<Seq<char>> {
    distinct_pull_urls(issue.at("attachments"@).at("nodes"@).items())
}

fn github_pull_url(node: &Json) -> (r: Option<String>)
    ensures
        r.deep_view() == pull_url(node@),
{
    let from_github = match node.at("sourceType").as_str() {
        Some(source) => same_text(source, "github"),
        None => false,
    };
    match node.at("url").as_str() {
        Some(url) => if from_github && text::text_contains(url, "/pull/") {
            Some(url.to_string())
        } else {
            None
        },
        None => None,
    }
}

/// GitHub pull request URLs attached to an issue.
///
/// Linear links a pull request to an issue as a `github` attachment as soon as it detects the
/// branch, so this covers every pull request of the issue. The attachment carries no review
/// slug, which is why the slug is looked up separately.
pub fn attached_pr_urls(issue: &Json) -> (r: Vec<String>)
    ensures
        r.deep_view() == pr_urls(issue@),
{
    let nodes = issue.at("attachments").at("nodes").items();
    let ghost all = json::json_views(nodes@);
    let mut urls: Vec<String> = Vec::new();
    let mut i: usize = 0;
    assert(all.take(0).len() == 0);
    assert(urls.deep_view() =~= distinct_pull_urls(all.take(0)));
    while i < nodes.len()
        invariant
            i <= nodes@.len(),
            all == json::json_views(nodes@),
            urls.deep_view() == distinct_pull_urls(all.take(i as int)),
        decreases nodes@.len() - i,
    {
        assert(all.take(i + 1).drop_last() =~= all.take(i as int));
        assert(all.take(i + 1).last() == nodes@[i as int]@);
        let ghost before = urls.deep_view();
        match github_pull_url(&nodes[i]) {
            Some(url) => {
                if !text::texts_contain(&urls, url.as_str()) {
                    urls.push(url);
                    assert(urls.deep_view() =~= before.push(url@));
                }
            },
            None => {},
        }
        i += 1;
    }
    assert(all.take(i as int) =~= all);
    urls
}

proof fn pull_urls_are_distinct(nodes: Seq<JsonView>)
    ensures
        distinct_pull_urls(nodes).no_duplicates(),
        forall|url: Seq<char>| #[trigger]
            distinct_pull_urls(nodes).contains(url) <==> exists|i: int|
                0 <= i < nodes.len() && pull_url(#[trigger] nodes[i]) == Some(url),
    decreases nodes.len(),
{
    if nodes.len() > 0 {
        let rest = nodes.drop_last();
        let before = distinct_pull_urls(rest);
        let after = distinct_pull_urls(nodes);
        pull_urls_are_distinct(rest);
        assert(forall|i: int| 0 <= i < rest.len() ==> #[trigger] nodes[i] == rest[i]);
        assert forall|url: Seq<char>| #[trigger] after.contains(url) <==> exists|i: int|
            0 <= i < nodes.len() && pull_url(#[trigger] nodes[i]) == Some(url) by {
            if after.contains(url) {
                if before.contains(url) {
                    let i = choose|i: int|
                        0 <= i < rest.len() && pull_url(#[trigger] rest[i]) == Some(url);
                    assert(pull_url(nodes[i]) == Some(url));
                } else {
                    let k = choose|k: int| 0 <= k < after.len() && after[k] == url;
                    assert(k == before.len() || before[k] == url);
                    assert(pull_url(nodes[nodes.len() - 1]) == Some(url));
                }
            }
            if exists|i: int| 0 <= i < nodes.len() && pull_url(#[trigger] nodes[i]) == Some(url) {
                let i = choose|i: int|
                    0 <= i < nodes.len() && pull_url(#[trigger] nodes[i]) == Some(url);
                if i < rest.len() {
                    assert(pull_url(rest[i]) == Some(url));
                    assert(before.contains(url));
                    let k = choose|k: int| 0 <= k < before.len() && before[k] == url;
                    assert(after[k] == url);
                } else if !before.contains(url) {
                    assert(after[after.len() - 1] == url);
                }
            }
        }
    }
}

/// The URLs of an issue's pull requests hold every GitHub pull request among its attachments,
/// each once, and nothing else.
pub proof fn every_pull_request_is_listed_once(issue: JsonView)
    ensures
        pr_urls(issue).no_duplicates(),
        forall|url: Seq<char>| #[trigger]
            pr_urls(issue).contains(url) <==> exists|i: int|
                0 <= i < issue.at("attachments"@).at("nodes"@).items().len() && pull_url(
                    #[trigger] issue.at("attachments"@).at("nodes"@).items()[i],
                ) == Some(url),
{
    pull_urls_are_distinct(issue.at("attachments"@).at("nodes"@).items());
}

// ---------------------------------------------------------------------------
// Review entries
// ---------------------------------------------------------------------------

/// What is said of one review: its page and its pull request.
pub open spec fn review_entry(review_url: Seq<char>, url: JsonView, pr: JsonView) -> JsonView {
    JsonView::object().with("reviewUrl"@, JsonView::Text(review_url)).with(
        "number"@,
        pr.at("number"@),
    ).with("status"@, pr.at("status"@)).with("url"@, url).with("title"@, pr.at("title"@))
}

fn entry_of(review_url: &str, url: Json, pr: &Json) -> (r: Json)
    ensures
        r@ == review_entry(review_url@, url@, pr@),
{
    Json::object().with("reviewUrl", Json::text(review_url)).with(
        "number",
        pr.at("number").copy(),
    ).with("status", pr.at("status").copy()).with("url", url).with("title", pr.at("title").copy())
}

/// The review that a notification is about, where it is about a wanted pull request. What
/// follows a `#` points into the review page and is left out.
pub open spec fn notified_review(node: JsonView, wanted: Seq<Seq<char>>) -> Option<JsonView> {
    let pr = node.at("pullRequest"@);
    match (pr.at("url"@).as_str(), node.at("url"@).as_str()) {
        (Some(pr_url), Some(review_url)) => if wanted.contains(pr_url) && review_url.len() > 0 {
            Some(
                review_entry(
                    text::before_char(review_url, '#'),
                    JsonView::Text(pr_url),
                    pr,
                ),
            )
        } else {
            None
        },
        _ => None,
    }
}

pub open spec fn notified_reviews(nodes: Seq<JsonView>, wanted: Seq<Seq<char>>) -> Seq<JsonView>
    decreases nodes.len(),
{
    if nodes.len() == 0 {
        Seq::empty()
    } else {
        let before = notified_reviews(nodes.drop_last(), wanted);
        match notified_review(nodes.last(), wanted) {
            Some(entry) => before.push(entry),
            None => before,
        }
    }
}

fn review_in(node: &Json, pr_urls: &Vec<String>) -> (r: Option<Json>)
    ensures
        r.deep_view() == notified_review(node@, pr_urls.deep_view()),
{
    let pr = node.at("pullRequest");
    let pr_url = match pr.at("url").as_str() {
        Some(pr_url) => pr_url,
        None => {
            return None;
        },
    };
    if !text::texts_contain(pr_urls, pr_url) {
        return None;
    }
    let review_url = match node.at("url").as_str() {
        Some(review_url) => review_url,
        None => {
            return None;
        },
    };
    if review_url.is_empty() {
        return None;
    }
    let page = text::text_before(review_url, '#');
    Some(entry_of(page.as_str(), Json::text(pr_url), pr))
}

/// Picks out the review URLs for some pull requests from a page of notifications.
///
/// A `PullRequestNotification` is the one public place that pairs a pull request with its
/// Linear review URL, and it carries that URL whole rather than requiring it to be assembled.
pub fn review_entries_from_notifications(nodes: &[Json], pr_urls: &Vec<String>) -> (r: Vec<Json>)
    ensures
        json::json_views(r@) == notified_reviews(json::json_views(nodes@), pr_urls.deep_view()),
{
    let ghost all = json::json_views(nodes@);
    let mut entries: Vec<Json> = Vec::new();
    let mut i: usize = 0;
    assert(all.take(0).len() == 0);
    assert(json::json_views(entries@) =~= Seq::<JsonView>::empty());
    while i < nodes.len()
        invariant
            i <= nodes@.len(),
            all == json::json_views(nodes@),
            json::json_views(entries@) == notified_reviews(
                all.take(i as int),
                pr_urls.deep_view(),
            ),
        decreases nodes@.len() - i,
    {
        assert(all.take(i + 1).drop_last() =~= all.take(i as int));
        assert(all.take(i + 1).last() == nodes@[i as int]@);
        let ghost before = json::json_views(entries@);
        match review_in(&nodes[i], pr_urls) {
            Some(entry) => {
                entries.push(entry);
                assert(json::json_views(entries@) =~= before.push(entry@));
            },
            None => {},
        }
        i += 1;
    }
    assert(all.take(i as int) =~= all);
    entries
}

/// The pull request that an entry is about.
pub open spec fn entry_url(entry: JsonView) -> Seq<char> {
    entry.at("url"@).text_or(""@)
}

pub open spec fn entry_urls(entries: Seq<JsonView>) -> Seq<Seq<char>> {
    Seq::new(entries.len(), |i: int| entry_url(entries[i]))
}

/// Some entries without those about a pull request that an earlier one is about.
pub open spec fn merged(entries: Seq<JsonView>) -> Seq<JsonView>
    decreases entries.len(),
{
    if entries.len() == 0 {
        Seq::empty()
    } else {
        let before = merged(entries.drop_last());
        let url = entry_url(entries.last());
        if url.len() > 0 && entry_urls(before).contains(url) {
            before
        } else {
            before.push(entries.last())
        }
    }
}

/// Merges review entries, keeping the first entry seen per pull request URL.
pub fn merge_review_entries(entries: Vec<Json>) -> (r: Vec<Json>)
    ensures
        json::json_views(r@) == merged(json::json_views(entries@)),
{
    let ghost all = json::json_views(entries@);
    let mut seen: Vec<String> = Vec::new();
    let mut kept: Vec<Json> = Vec::new();
    let mut i: usize = 0;
    assert(all.take(0).len() == 0);
    assert(json::json_views(kept@) =~= Seq::<JsonView>::empty());
    assert(seen.deep_view() =~= entry_urls(Seq::<JsonView>::empty()));
    while i < entries.len()
        invariant
            i <= entries@.len(),
            all == json::json_views(entries@),
            json::json_views(kept@) == merged(all.take(i as int)),
            seen.deep_view() == entry_urls(json::json_views(kept@)),
        decreases entries@.len() - i,
    {
        assert(all.take(i + 1).drop_last() =~= all.take(i as int));
        assert(all.take(i + 1).last() == entries@[i as int]@);
        let ghost before = json::json_views(kept@);
        let ghost seen_before = seen.deep_view();
        let url = entries[i].at("url").text_or("");
        if url.as_str().is_empty() || !text::texts_contain(&seen, url.as_str()) {
            let entry = entries[i].copy();
            kept.push(entry);
            seen.push(url);
            assert(json::json_views(kept@) =~= before.push(entry@));
            assert(seen.deep_view() =~= seen_before.push(url@));
            assert(entry_urls(before.push(entry@)) =~= entry_urls(before).push(url@));
        }
        i += 1;
    }
    assert(all.take(i as int) =~= all);
    kept
}

/// No two entries are about one pull request.
pub open spec fn one_entry_per_url(entries: Seq<JsonView>) -> bool {
    forall|i: int, j: int|
        0 <= i < j < entries.len() && entry_url(#[trigger] entries[i]).len() > 0 ==> entry_url(
            entries[i],
        ) != entry_url(#[trigger] entries[j])
}

proof fn merged_has_one_entry_per_url(entries: Seq<JsonView>)
    ensures
        one_entry_per_url(merged(entries)),
        forall|k: int| 0 <= k < merged(entries).len() ==> entries.contains(#[trigger] merged(entries)[k]),
    decreases entries.len(),
{
    if entries.len() > 0 {
        let rest = entries.drop_last();
        let before = merged(rest);
        let after = merged(entries);
        merged_has_one_entry_per_url(rest);
        assert forall|k: int| 0 <= k < after.len() implies entries.contains(#[trigger] after[k]) by {
            if k < before.len() {
                assert(rest.contains(before[k]));
                let i = choose|i: int| 0 <= i < rest.len() && rest[i] == before[k];
                assert(entries[i] == after[k]);
            } else {
                assert(entries[entries.len() - 1] == after[k]);
            }
        }
        assert forall|i: int, j: int|
            0 <= i < j < after.len() && entry_url(#[trigger] after[i]).len() > 0 implies entry_url(
            after[i],
        ) != entry_url(#[trigger] after[j]) by {
            if j == before.len() {
                assert(entry_urls(before)[i] == entry_url(after[i]));
            }
        }
    }
}

proof fn merging_distinct_entries_changes_nothing(entries: Seq<JsonView>)
    requires
        one_entry_per_url(entries),
    ensures
        merged(entries) == entries,
    decreases entries.len(),
{
    if entries.len() > 0 {
        let rest = entries.drop_last();
        assert(forall|i: int| 0 <= i < rest.len() ==> #[trigger] rest[i] == entries[i]);
        merging_distinct_entries_changes_nothing(rest);
        let url = entry_url(entries.last());
        if url.len() > 0 && entry_urls(rest).contains(url) {
            let i = choose|i: int| 0 <= i < rest.len() && entry_urls(rest)[i] == url;
            assert(entry_url(entries[i]) == entry_url(entries[entries.len() - 1]));
        }
        assert(rest.push(entries.last()) =~= entries);
    } else {
        assert(merged(entries) =~= entries);
    }
}

/// Merging leaves one entry per pull request, adds none, and leaves merged entries as they are.
pub proof fn merging_is_idempotent(entries: Seq<JsonView>)
    ensures
        one_entry_per_url(merged(entries)),
        forall|k: int| 0 <= k < merged(entries).len() ==> entries.contains(#[trigger] merged(entries)[k]),
        merged(merged(entries)) == merged(entries),
{
    merged_has_one_entry_per_url(entries);
    merging_distinct_entries_changes_nothing(merged(entries));
}

/// The first entry about a pull request is the one that merging keeps.
pub proof fn merging_keeps_the_first_entry(entries: Seq<JsonView>, at: int)
    requires
        0 <= at < entries.len(),
        forall|k: int|
            0 <= k < at ==> entry_url(#[trigger] entries[k]) != entry_url(entries[at]),
    ensures
        merged(entries).contains(entries[at]),
    decreases entries.len(),
{
    let rest = entries.drop_last();
    let before = merged(rest);
    if at < rest.len() {
        assert(forall|k: int| 0 <= k < rest.len() ==> #[trigger] rest[k] == entries[k]);
        merging_keeps_the_first_entry(rest, at);
        let k = choose|k: int| 0 <= k < before.len() && before[k] == rest[at];
        assert(merged(entries)[k] == entries[at]);
    } else {
        let url = entry_url(entries.last());
        merged_has_one_entry_per_url(rest);
        if entry_urls(before).contains(url) {
            let i = choose|i: int| 0 <= i < before.len() && entry_urls(before)[i] == url;
            assert(rest.contains(before[i]));
            let k = choose|k: int| 0 <= k < rest.len() && rest[k] == before[i];
            assert(entry_url(entries[k]) == url);
        }
        assert(merged(entries).last() == entries[at]);
    }
}

// ---------------------------------------------------------------------------
// Agent sessions
// ---------------------------------------------------------------------------

/// The links to pull requests of some agent sessions, one session after the other.
pub open spec fn session_links(sessions: Seq<JsonView>) -> Seq<JsonView>
    decreases sessions.len(),
{
    if sessions.len() == 0 {
        Seq::empty()
    } else {
        session_links(sessions.drop_last()) + sessions.last().at("pullRequests"@).at(
            "nodes"@,
        ).items()
    }
}

pub open spec fn slug_of(pr: JsonView) -> Seq<char> {
    pr.at("slugId"@).text_or(""@)
}

pub open spec fn slugs_of(prs: Seq<JsonView>) -> Seq<Seq<char>> {
    Seq::new(prs.len(), |i: int| slug_of(prs[i]))
}

/// The pull requests with a slug behind some links, each slug once, where it first stands.
pub open spec fn linked_prs(links: Seq<JsonView>) -> Seq<JsonView>
    decreases links.len(),
{
    if links.len() == 0 {
        Seq::empty()
    } else {
        let before = linked_prs(links.drop_last());
        let pr = links.last().at("pullRequest"@);
        if slug_of(pr).len() == 0 || slugs_of(before).contains(slug_of(pr)) {
            before
        } else {
            before.push(pr)
        }
    }
}

pub open spec fn review_page(url_key: Seq<char>, slug: Seq<char>) -> Seq<char> {
    "https://linear.app/"@ + url_key + "/review/"@ + slug
}

pub open spec fn entries_of(url_key: Seq<char>, prs: Seq<JsonView>) -> Seq<JsonView> {
    Seq::new(
        prs.len(),
        |i: int| review_entry(review_page(url_key, slug_of(prs[i])), prs[i].at("url"@), prs[i]),
    )
}

pub open spec fn session_entries(url_key: Seq<char>, issue: JsonView) -> Seq<JsonView> {
    entries_of(
        url_key,
        linked_prs(session_links(issue.at("agentSessions"@).at("nodes"@).items())),
    )
}

/// Adds the entries of the links of one session.
fn add_links(url_key: &str, links: &[Json], seen: &mut Vec<String>, entries: &mut Vec<Json>, Ghost(
    done,
): Ghost<Seq<JsonView>>)
    requires
        old(seen).deep_view() == slugs_of(linked_prs(done)),
        json::json_views(old(entries)@) == entries_of(url_key@, linked_prs(done)),
    ensures
        final(seen).deep_view() == slugs_of(linked_prs(done + json::json_views(links@))),
        json::json_views(final(entries)@) == entries_of(
            url_key@,
            linked_prs(done + json::json_views(links@)),
        ),
{
    let ghost all = json::json_views(links@);
    let mut i: usize = 0;
    assert(done + all.take(0) =~= done);
    while i < links.len()
        invariant
            i <= links@.len(),
            all == json::json_views(links@),
            seen.deep_view() == slugs_of(linked_prs(done + all.take(i as int))),
            json::json_views(entries@) == entries_of(
                url_key@,
                linked_prs(done + all.take(i as int)),
            ),
        decreases links@.len() - i,
    {
        let ghost now = done + all.take(i + 1);
        assert(now.drop_last() =~= done + all.take(i as int));
        assert(now.last() == links@[i as int]@);
        let ghost prs = linked_prs(now.drop_last());
        let pr = links[i].at("pullRequest");
        let slug = pr.at("slugId").text_or("");
        if !slug.as_str().is_empty() && !text::texts_contain(seen, slug.as_str()) {
            let ghost seen_before = seen.deep_view();
            let ghost entries_before = json::json_views(entries@);
            let page = joined4("https://linear.app/", url_key, "/review/", slug.as_str());
            let entry = entry_of(page.as_str(), pr.at("url").copy(), pr);
            seen.push(slug);
            entries.push(entry);
            assert(seen.deep_view() =~= seen_before.push(slug@));
            assert(json::json_views(entries@) =~= entries_before.push(entry@));
            assert(slugs_of(prs.push(pr@)) =~= slugs_of(prs).push(slug@));
            assert(entries_of(url_key@, prs.push(pr@)) =~= entries_of(url_key@, prs).push(entry@));
        }
        i += 1;
    }
    assert(all.take(i as int) =~= all);
}

/// Builds review entries from the agent sessions attached to an issue.
///
/// This is the fallback for a pull request with no notification: an agent session exposes the
/// slug of a pull request directly, from which the review URL can be assembled. One pull request
/// can be linked by several sessions, hence the de-duplication by slug.
pub fn review_entries(url_key: &str, issue: &Json) -> (r: Vec<Json>)
    ensures
        json::json_views(r@) == session_entries(url_key@, issue@),
{
    let sessions = issue.at("agentSessions").at("nodes").items();
    let ghost all = json::json_views(sessions@);
    let mut seen: Vec<String> = Vec::new();
    let mut entries: Vec<Json> = Vec::new();
    let mut i: usize = 0;
    assert(all.take(0).len() == 0);
    assert(seen.deep_view() =~= slugs_of(Seq::<JsonView>::empty()));
    assert(json::json_views(entries@) =~= entries_of(url_key@, Seq::<JsonView>::empty()));
    while i < sessions.len()
        invariant
            i <= sessions@.len(),
            all == json::json_views(sessions@),
            seen.deep_view() == slugs_of(linked_prs(session_links(all.take(i as int)))),
            json::json_views(entries@) == entries_of(
                url_key@,
                linked_prs(session_links(all.take(i as int))),
            ),
        decreases sessions@.len() - i,
    {
        assert(all.take(i + 1).drop_last() =~= all.take(i as int));
        assert(all.take(i + 1).last() == sessions@[i as int]@);
        let links = sessions[i].at("pullRequests").at("nodes").items();
        add_links(
            url_key,
            links,
            &mut seen,
            &mut entries,
            Ghost(session_links(all.take(i as int))),
        );
        i += 1;
    }
    assert(all.take(i as int) =~= all);
    entries
}

proof fn linked_slugs_are_distinct(links: Seq<JsonView>)
    ensures
        slugs_of(linked_prs(links)).no_duplicates(),
        forall|i: int|
            0 <= i < linked_prs(links).len() ==> slug_of(#[trigger] linked_prs(links)[i]).len() > 0,
    decreases links.len(),
{
    if links.len() > 0 {
        linked_slugs_are_distinct(links.drop_last());
        let before = linked_prs(links.drop_last());
        let pr = links.last().at("pullRequest"@);
        assert(slugs_of(before.push(pr)) =~= slugs_of(before).push(slug_of(pr)));
    }
}

/// A pull request that several sessions link is listed once, and one without a slug not at all.
pub proof fn linked_pull_requests_are_listed_once(url_key: Seq<char>, issue: JsonView)
    ensures
        ({
            let prs = linked_prs(session_links(issue.at("agentSessions"@).at("nodes"@).items()));
            &&& session_entries(url_key, issue).len() == prs.len()
            &&& slugs_of(prs).no_duplicates()
            &&& !slugs_of(prs).contains(Seq::empty())
        }),
{
    let prs = linked_prs(session_links(issue.at("agentSessions"@).at("nodes"@).items()));
    linked_slugs_are_distinct(session_links(issue.at("agentSessions"@).at("nodes"@).items()));
    assert forall|i: int| 0 <= i < prs.len() implies #[trigger] slugs_of(prs)[i] != Seq::<
        char,
    >::empty() by {
        assert(slug_of(prs[i]).len() > 0);
    }
}

// ---------------------------------------------------------------------------
// The walk of the notification feed
// ---------------------------------------------------------------------------

/// How many pages of notifications are read before giving up.
///
/// The notification feed has no server-side filter for pull requests, so it is walked
/// newest-first; a pull request whose last notification is older than this falls through to the
/// agent sessions.
pub const REVIEW_NOTIFICATION_PAGES: usize = 5;

pub const NOTIFICATIONS_QUERY: &'static str = r#"
        query($after: String) {
            notifications(first: 100, after: $after, includeArchived: true) {
                pageInfo { hasNextPage endCursor }
                nodes {
                    __typename
                    ... on PullRequestNotification {
                        url
                        pullRequest { url number status title }
                    }
                }
            }
        }
    "#;

/// How far the walk has come.
#[derive(Debug)]
pub struct ReviewWalk {
    pub entries: Vec<Json>,
    pub cursor: Option<String>,
    /// How many pages may still be read.
    pub pages_left: usize,
}

#[verifier::ext_equal]
pub struct ReviewWalkView {
    pub entries: Seq<JsonView>,
    pub cursor: Option<Seq<char>>,
    pub pages_left: usize,
}

impl View for ReviewWalk {
    type V = ReviewWalkView;

    open spec fn view(&self) -> ReviewWalkView {
        ReviewWalkView {
            entries: json::json_views(self.entries@),
            cursor: self.cursor.deep_view(),
            pages_left: self.pages_left,
        }
    }
}

/// Whether the walk goes on after a page.
#[derive(Debug)]
pub enum ReviewStep {
    More(ReviewWalk),
    Done(Vec<Json>),
}

#[verifier::ext_equal]
pub enum ReviewStepView {
    More(ReviewWalkView),
    Done(Seq<JsonView>),
}

impl View for ReviewStep {
    type V = ReviewStepView;

    open spec fn view(&self) -> ReviewStepView {
        match self {
            ReviewStep::More(walk) => ReviewStepView::More(walk@),
            ReviewStep::Done(entries) => ReviewStepView::Done(json::json_views(entries@)),
        }
    }
}

impl ReviewWalkView {
    pub open spec fn start() -> ReviewWalkView {
        ReviewWalkView {
            entries: Seq::empty(),
            cursor: None,
            pages_left: REVIEW_NOTIFICATION_PAGES,
        }
    }

    /// The request for the next page.
    pub open spec fn question(self) -> RequestView {
        RequestView::with(
            NOTIFICATIONS_QUERY@,
            JsonView::object().with("after"@, JsonView::opt_text(self.cursor)),
        )
    }

    /// The walk ends where every wanted pull request has an entry, with the last page of the
    /// feed, and with the last page that may be read.
    pub open spec fn absorb(self, response: JsonView, wanted: Seq<Seq<char>>) -> ReviewStepView {
        let page = response.at("data"@).at("notifications"@);
        let entries = merged(self.entries + notified_reviews(page.at("nodes"@).items(), wanted));
        if entries.len() == wanted.len() || !page.at("pageInfo"@).at("hasNextPage"@).is_true()
            || self.pages_left <= 1 {
            ReviewStepView::Done(entries)
        } else {
            ReviewStepView::More(
                ReviewWalkView {
                    entries,
                    cursor: page.at("pageInfo"@).at("endCursor"@).as_str(),
                    pages_left: (self.pages_left - 1) as usize,
                },
            )
        }
    }

    /// What the walk ends with on given responses; nothing where it has not ended with the last
    /// of them.
    pub open spec fn run(self, responses: Seq<JsonView>, wanted: Seq<Seq<char>>) -> Option<
        Seq<JsonView>,
    >
        decreases responses.len(),
    {
        if responses.len() == 0 {
            None
        } else {
            match self.absorb(responses[0], wanted) {
                ReviewStepView::Done(entries) => Some(entries),
                ReviewStepView::More(next) => next.run(responses.drop_first(), wanted),
            }
        }
    }
}

impl ReviewWalk {
    pub fn start() -> (r: ReviewWalk)
        ensures
            r@ == ReviewWalkView::start(),
    {
        let r = ReviewWalk {
            entries: Vec::new(),
            cursor: None,
            pages_left: REVIEW_NOTIFICATION_PAGES,
        };
        assert(r@ =~= ReviewWalkView::start());
        r
    }

    /// The request for the next page.
    pub fn request(&self) -> (r: Request)
        ensures
            r@ == self@.question(),
    {
        Request::with(
            NOTIFICATIONS_QUERY,
            Json::object().with("after", Json::opt_text(&self.cursor)),
        )
    }

    /// Takes in a page of notifications.
    pub fn absorb(self, response: &Json, pr_urls: &Vec<String>) -> (r: ReviewStep)
        ensures
            r@ == self@.absorb(response@, pr_urls.deep_view()),
    {
        let page = response.at("data").at("notifications");
        let mut found = review_entries_from_notifications(page.at("nodes").items(), pr_urls);
        let mut entries = self.entries;
        let ghost before = json::json_views(entries@);
        let ghost new = json::json_views(found@);
        entries.append(&mut found);
        assert(json::json_views(entries@) =~= before + new);
        let entries = merge_review_entries(entries);
        if entries.len() == pr_urls.len() || !page.at("pageInfo").at("hasNextPage").is_true()
            || self.pages_left <= 1 {
            ReviewStep::Done(entries)
        } else {
            ReviewStep::More(
                ReviewWalk {
                    entries,
                    cursor: page.at("pageInfo").at("endCursor").as_text(),
                    pages_left: self.pages_left - 1,
                },
            )
        }
    }
}

/// The walk never reads more pages than it may: it has ended where as many are answered.
pub proof fn walk_ends_within_its_pages(
    walk: ReviewWalkView,
    responses: Seq<JsonView>,
    wanted: Seq<Seq<char>>,
)
    requires
        responses.len() > 0,
        responses.len() >= walk.pages_left,
    ensures
        walk.run(responses, wanted) is Some,
    decreases responses.len(),
{
    match walk.absorb(responses[0], wanted) {
        ReviewStepView::Done(_) => {},
        ReviewStepView::More(next) => {
            walk_ends_within_its_pages(next, responses.drop_first(), wanted);
        },
    }
}

/// Every entry is about one of the wanted pull requests.
pub open spec fn all_wanted(entries: Seq<JsonView>, wanted: Seq<Seq<char>>) -> bool {
    forall|i: int| 0 <= i < entries.len() ==> wanted.contains(entry_url(#[trigger] entries[i]))
}

proof fn entry_keeps_the_url(review_url: Seq<char>, url: Seq<char>, pr: JsonView)
    ensures
        entry_url(review_entry(review_url, JsonView::Text(url), pr)) == url,
{
    reveal_strlit("url");
    reveal_strlit("title");
    let start = JsonView::object().with("reviewUrl"@, JsonView::Text(review_url)).with(
        "number"@,
        pr.at("number"@),
    ).with("status"@, pr.at("status"@));
    let set = start.with("url"@, JsonView::Text(url));
    assert("url"@.len() != "title"@.len());
    json::field_set_is_read_back(start, "url"@, JsonView::Text(url), "url"@);
    json::field_set_is_read_back(set, "title"@, pr.at("title"@), "url"@);
}

proof fn notified_reviews_are_wanted(nodes: Seq<JsonView>, wanted: Seq<Seq<char>>)
    ensures
        all_wanted(notified_reviews(nodes, wanted), wanted),
    decreases nodes.len(),
{
    if nodes.len() > 0 {
        notified_reviews_are_wanted(nodes.drop_last(), wanted);
        let node = nodes.last();
        if notified_review(node, wanted) is Some {
            let pr = node.at("pullRequest"@);
            entry_keeps_the_url(
                text::before_char(node.at("url"@).as_str()->0, '#'),
                pr.at("url"@).as_str()->0,
                pr,
            );
        }
    }
}

proof fn page_keeps_wanted(walk: ReviewWalkView, nodes: Seq<JsonView>, wanted: Seq<Seq<char>>)
    requires
        all_wanted(walk.entries, wanted),
    ensures
        all_wanted(merged(walk.entries + notified_reviews(nodes, wanted)), wanted),
        one_entry_per_url(merged(walk.entries + notified_reviews(nodes, wanted))),
{
    let new = notified_reviews(nodes, wanted);
    let entries = walk.entries + new;
    notified_reviews_are_wanted(nodes, wanted);
    merged_has_one_entry_per_url(entries);
    assert forall|i: int| 0 <= i < merged(entries).len() implies wanted.contains(
        entry_url(#[trigger] merged(entries)[i]),
    ) by {
        let k = choose|k: int| 0 <= k < entries.len() && entries[k] == merged(entries)[i];
        if k < walk.entries.len() {
            assert(entries[k] == walk.entries[k]);
        } else {
            assert(entries[k] == new[k - walk.entries.len()]);
        }
    }
}

/// What the walk ends with is about the wanted pull requests alone, with one entry for each.
pub proof fn walk_finds_only_what_is_wanted(
    walk: ReviewWalkView,
    responses: Seq<JsonView>,
    wanted: Seq<Seq<char>>,
)
    requires
        all_wanted(walk.entries, wanted),
    ensures
        match walk.run(responses, wanted) {
            Some(entries) => all_wanted(entries, wanted) && one_entry_per_url(entries),
            None => true,
        },
    decreases responses.len(),
{
    if responses.len() > 0 {
        let nodes = responses[0].at("data"@).at("notifications"@).at("nodes"@).items();
        page_keeps_wanted(walk, nodes, wanted);
        match walk.absorb(responses[0], wanted) {
            ReviewStepView::Done(_) => {},
            ReviewStepView::More(next) => {
                walk_finds_only_what_is_wanted(next, responses.drop_first(), wanted);
            },
        }
    }
}

// ---------------------------------------------------------------------------
// The review pages of an issue
// ---------------------------------------------------------------------------

pub const REVIEW_QUERY: &'static str = r#"
        query($id: String!) {
            organization { urlKey }
            issue(id: $id) {
                identifier
                attachments { nodes { url sourceType } }
                agentSessions {
                    nodes {
                        pullRequests {
                            nodes {
                                pullRequest { slugId url number status title }
                            }
                        }
                    }
                }
            }
        }
    "#;

pub open spec fn review_question(issue_id: Seq<char>) -> RequestView {
    RequestView::with(REVIEW_QUERY@, JsonView::object().with("id"@, JsonView::Text(issue_id)))
}

pub fn review_request(issue_id: &str) -> (r: Request)
    ensures
        r@ == review_question(issue_id@),
{
    Request::with(REVIEW_QUERY, Json::object().with("id", Json::text(issue_id)))
}

pub open spec fn issue_missing(issue_id: Seq<char>) -> FailureView {
    FailureView::message("Issue not found: "@ + issue_id)
}

/// The pull requests whose reviews are looked up.
pub open spec fn wanted_urls(issue_id: Seq<char>, response: JsonView) -> Result<
    Seq<Seq<char>>,
    FailureView,
> {
    let issue = response.at("data"@).at("issue"@);
    if issue is Null {
        Err(issue_missing(issue_id))
    } else {
        Ok(pr_urls(issue))
    }
}

/// The pull requests of an issue whose reviews are looked up in the notification feed; none
/// means that the feed is not read.
pub fn wanted_reviews(issue_id: &str, response: &Json) -> (r: Result<Vec<String>, Failure>)
    ensures
        match wanted_urls(issue_id@, response@) {
            Ok(urls) => r is Ok && r->Ok_0.deep_view() == urls,
            Err(failure) => r is Err && r->Err_0@ == failure,
        },
{
    let issue = response.at("data").at("issue");
    if issue.is_null() {
        return Err(Failure::message(joined2("Issue not found: ", issue_id).as_str()));
    }
    Ok(attached_pr_urls(issue))
}

/// Why there is no review page.
pub open spec fn no_review_reason(count: nat) -> Seq<char> {
    if count == 0 {
        "no pull request is linked to this issue"@
    } else {
        "Linear exposes a review URL through pull request notifications, and none of the "@
            + text::decimal(count) + " linked pull request(s) has one in the last "@
            + text::decimal(REVIEW_NOTIFICATION_PAGES as nat) + " pages of the feed"@
    }
}

pub open spec fn no_review(issue_id: Seq<char>, issue: JsonView) -> FailureView {
    FailureView::message(
        "No review URL for "@ + issue.at("identifier"@).text_or(issue_id) + ": "@
            + no_review_reason(pr_urls(issue).len()) + ". Use the GitHub PR URL instead."@,
    )
}

/// The reviews of an issue: those that the notifications gave, then those of its agent sessions.
pub open spec fn all_reviews(response: JsonView, notified: Seq<JsonView>) -> Seq<JsonView> {
    let data = response.at("data"@);
    merged(
        notified + session_entries(
            data.at("organization"@).at("urlKey"@).text_or(""@),
            data.at("issue"@),
        ),
    )
}

/// What is shown of the reviews of an issue, or why nothing is.
pub open spec fn shown_reviews(
    issue_id: Seq<char>,
    response: JsonView,
    notified: Seq<JsonView>,
) -> Result<Seq<JsonView>, FailureView> {
    let issue = response.at("data"@).at("issue"@);
    let entries = all_reviews(response, notified);
    if issue is Null {
        Err(issue_missing(issue_id))
    } else if entries.len() == 0 {
        Err(no_review(issue_id, issue))
    } else {
        Ok(entries)
    }
}

/// The review entries of an issue, given what the notifications gave.
pub fn show_review_url(issue_id: &str, response: &Json, notified: Vec<Json>) -> (r: Result<
    Vec<Json>,
    Failure,
>)
    ensures
        match shown_reviews(issue_id@, response@, json::json_views(notified@)) {
            Ok(entries) => r is Ok && json::json_views(r->Ok_0@) == entries,
            Err(failure) => r is Err && r->Err_0@ == failure,
        },
{
    let pr_urls = match wanted_reviews(issue_id, response) {
        Ok(pr_urls) => pr_urls,
        Err(failure) => {
            return Err(failure);
        },
    };
    let data = response.at("data");
    let issue = data.at("issue");
    let url_key = data.at("organization").at("urlKey").text_or("");
    let mut sessions = review_entries(url_key.as_str(), issue);
    let ghost from_sessions = json::json_views(sessions@);
    let mut entries = notified;
    entries.append(&mut sessions);
    assert(json::json_views(entries@) =~= json::json_views(notified@) + from_sessions);
    let entries = merge_review_entries(entries);
    if entries.len() == 0 {
        let reason = if pr_urls.len() == 0 {
            "no pull request is linked to this issue".to_string()
        } else {
            joined5(
                "Linear exposes a review URL through pull request notifications, and none of the ",
                text::count_text(pr_urls.len()).as_str(),
                " linked pull request(s) has one in the last ",
                text::count_text(REVIEW_NOTIFICATION_PAGES).as_str(),
                " pages of the feed",
            )
        };
        let name = issue.at("identifier").text_or(issue_id);
        let message = joined5(
            "No review URL for ",
            name.as_str(),
            ": ",
            reason.as_str(),
            ". Use the GitHub PR URL instead.",
        );
        return Err(Failure::message(message.as_str()));
    }
    Ok(entries)
}

pub open spec fn review_line(entry: JsonView) -> Seq<char> {
    entry.at("reviewUrl"@).text_or(""@)
}

/// The line that shows a review entry.
pub fn line_of_review(entry: &Json) -> (r: String)
    ensures
        r@ == review_line(entry@),
{
    entry.at("reviewUrl").text_or("")
}

/// A review that a notification gave takes precedence over one of an agent session.
pub proof fn notifications_take_precedence(
    response: JsonView,
    notified: Seq<JsonView>,
    at: int,
)
    requires
        one_entry_per_url(notified),
        0 <= at < notified.len(),
        entry_url(notified[at]).len() > 0,
    ensures
        all_reviews(response, notified).contains(notified[at]),
        one_entry_per_url(all_reviews(response, notified)),
{
    let data = response.at("data"@);
    let entries = notified + session_entries(
        data.at("organization"@).at("urlKey"@).text_or(""@),
        data.at("issue"@),
    );
    assert(forall|k: int| 0 <= k < notified.len() ==> #[trigger] entries[k] == notified[k]);
    assert forall|k: int| 0 <= k < at implies entry_url(#[trigger] entries[k]) != entry_url(
        entries[at],
    ) by {
        if entry_url(notified[k]).len() > 0 {
            assert(entry_url(notified[k]) != entry_url(notified[at]));
        }
    }
    merging_keeps_the_first_entry(entries, at);
    merged_has_one_entry_per_url(entries);
}

// ---------------------------------------------------------------------------
// What is read of pull requests and reviews, and what is shown
// ---------------------------------------------------------------------------

/// An attachment is a pull request exactly where it comes from GitHub and its URL is that of
/// a pull request, and is then known by that URL.
pub proof fn pull_requests_are_told_by_source_and_url(node: JsonView)
    ensures
        pull_url(node) is Some <==> node.at("sourceType"@) == JsonView::Text("github"@) && node.at(
            "url"@,
        ) is Text && text::contains_text(node.at("url"@)->Text_0, "/pull/"@),
        pull_url(node) matches Some(url) ==> node.at("url"@) == JsonView::Text(url),
{
}

/// An entry holds its review page, the URL of its pull request, and the number, the status
/// and the title of that, and is shown by its review page.
pub proof fn entry_tells_the_review(review_url: Seq<char>, url: JsonView, pr: JsonView)
    ensures
        ({
            let entry = review_entry(review_url, url, pr);
            &&& entry.get("reviewUrl"@) == Some(JsonView::Text(review_url))
            &&& entry.get("url"@) == Some(url)
            &&& entry.get("number"@) == Some(pr.at("number"@))
            &&& entry.get("status"@) == Some(pr.at("status"@))
            &&& entry.get("title"@) == Some(pr.at("title"@))
            &&& review_line(entry) == review_url
        }),
{
    broadcast use json::group_fields;

    reveal_strlit("reviewUrl");
    reveal_strlit("number");
    reveal_strlit("status");
    reveal_strlit("url");
    reveal_strlit("title");
    assert("reviewUrl"@.len() == 9 && "number"@.len() == 6 && "status"@.len() == 6);
    assert("url"@.len() == 3 && "title"@.len() == 5);
    assert("number"@[0] != "status"@[0]);
    let entry = review_entry(review_url, url, pr);
    assert(entry.get("reviewUrl"@) == Some(JsonView::Text(review_url)));
}

/// A notification about a wanted pull request gives an entry with its page, up to a `#`; any
/// other gives none.
pub proof fn notification_gives_its_review(
    node: JsonView,
    wanted: Seq<Seq<char>>,
    url: Seq<char>,
    page: Seq<char>,
)
    requires
        node.at("pullRequest"@).at("url"@) == JsonView::Text(url),
        node.at("url"@) == JsonView::Text(page),
        page.len() > 0,
    ensures
        notified_review(node, wanted) is Some <==> wanted.contains(url),
        notified_review(node, wanted) matches Some(entry) ==> {
            &&& review_line(entry) == text::before_char(page, '#')
            &&& entry_url(entry) == url
            &&& entry.at("number"@) == node.at("pullRequest"@).at("number"@)
            &&& entry.at("status"@) == node.at("pullRequest"@).at("status"@)
            &&& entry.at("title"@) == node.at("pullRequest"@).at("title"@)
        },
{
    entry_tells_the_review(
        text::before_char(page, '#'),
        JsonView::Text(url),
        node.at("pullRequest"@),
    );
}

/// The reviews of a page of notifications are those of its notifications, in order.
pub proof fn notifications_are_read_in_order(
    nodes: Seq<JsonView>,
    node: JsonView,
    wanted: Seq<Seq<char>>,
)
    ensures
        notified_reviews(Seq::empty(), wanted).len() == 0,
        notified_review(node, wanted) matches Some(entry) ==> notified_reviews(
            nodes.push(node),
            wanted,
        ) == notified_reviews(nodes, wanted).push(entry),
        notified_review(node, wanted) is None ==> notified_reviews(nodes.push(node), wanted)
            == notified_reviews(nodes, wanted),
{
    assert(nodes.push(node).drop_last() =~= nodes);
}

proof fn sessions_link_all(sessions: Seq<JsonView>, at: int, k: int)
    requires
        0 <= at < sessions.len(),
        0 <= k < sessions[at].at("pullRequests"@).at("nodes"@).items().len(),
    ensures
        session_links(sessions).contains(sessions[at].at("pullRequests"@).at("nodes"@).items()[k]),
    decreases sessions.len(),
{
    let rest = sessions.drop_last();
    let link = sessions[at].at("pullRequests"@).at("nodes"@).items()[k];
    if at < rest.len() {
        sessions_link_all(rest, at, k);
        let i = choose|i: int| 0 <= i < session_links(rest).len() && session_links(rest)[i] == link;
        assert(session_links(sessions)[i] == link);
    } else {
        assert(session_links(sessions)[session_links(rest).len() + k] == link);
    }
}

proof fn links_list_all(links: Seq<JsonView>, at: int)
    requires
        0 <= at < links.len(),
        slug_of(links[at].at("pullRequest"@)).len() > 0,
    ensures
        slugs_of(linked_prs(links)).contains(slug_of(links[at].at("pullRequest"@))),
    decreases links.len(),
{
    let rest = links.drop_last();
    let before = linked_prs(rest);
    let slug = slug_of(links[at].at("pullRequest"@));
    let pr = links.last().at("pullRequest"@);
    assert(slugs_of(before.push(pr)) =~= slugs_of(before).push(slug_of(pr)));
    if at < rest.len() {
        links_list_all(rest, at);
        let i = choose|i: int| 0 <= i < before.len() && slugs_of(before)[i] == slug;
        assert(slugs_of(linked_prs(links))[i] == slug);
    } else if !slugs_of(before).contains(slug) {
        assert(slugs_of(linked_prs(links))[before.len() as int] == slug);
    }
}

/// Every pull request with a slug that an agent session of an issue links has an entry, whose
/// page is made of the key of the workspace and the slug.
pub proof fn linked_pull_requests_are_listed(
    url_key: Seq<char>,
    issue: JsonView,
    at: int,
    k: int,
) -> (place: int)
    requires
        0 <= at < issue.at("agentSessions"@).at("nodes"@).items().len(),
        0 <= k < issue.at("agentSessions"@).at("nodes"@).items()[at].at("pullRequests"@).at(
            "nodes"@,
        ).items().len(),
        ({
            let session = issue.at("agentSessions"@).at("nodes"@).items()[at];
            let link = session.at("pullRequests"@).at("nodes"@).items()[k];
            link.at("pullRequest"@).at("slugId"@) is Text && link.at("pullRequest"@).at(
                "slugId"@,
            )->Text_0.len() > 0
        }),
    ensures
        ({
            let session = issue.at("agentSessions"@).at("nodes"@).items()[at];
            let link = session.at("pullRequests"@).at("nodes"@).items()[k];
            let entries = session_entries(url_key, issue);
            &&& 0 <= place < entries.len()
            &&& review_line(entries[place]) == "https://linear.app/"@ + url_key + "/review/"@
                + link.at("pullRequest"@).at("slugId"@)->Text_0
        }),
{
    let sessions = issue.at("agentSessions"@).at("nodes"@).items();
    let link = sessions[at].at("pullRequests"@).at("nodes"@).items()[k];
    let links = session_links(sessions);
    let prs = linked_prs(links);
    sessions_link_all(sessions, at, k);
    let i = choose|i: int| 0 <= i < links.len() && links[i] == link;
    links_list_all(links, i);
    let slug = slug_of(link.at("pullRequest"@));
    let place = choose|j: int| 0 <= j < prs.len() && slugs_of(prs)[j] == slug;
    assert(slug_of(prs[place]) == slug);
    entry_tells_the_review(review_page(url_key, slug), prs[place].at("url"@), prs[place]);
    place
}

/// An entry of an agent session tells the pull request that it is for.
pub proof fn session_entries_tell_their_pull_request(
    url_key: Seq<char>,
    issue: JsonView,
    place: int,
)
    requires
        0 <= place < session_entries(url_key, issue).len(),
    ensures
        ({
            let prs = linked_prs(session_links(issue.at("agentSessions"@).at("nodes"@).items()));
            let entry = session_entries(url_key, issue)[place];
            &&& entry.at("url"@) == prs[place].at("url"@)
            &&& entry.at("number"@) == prs[place].at("number"@)
            &&& entry.at("status"@) == prs[place].at("status"@)
            &&& entry.at("title"@) == prs[place].at("title"@)
        }),
{
    let prs = linked_prs(session_links(issue.at("agentSessions"@).at("nodes"@).items()));
    entry_tells_the_review(
        review_page(url_key, slug_of(prs[place])),
        prs[place].at("url"@),
        prs[place],
    );
}

/// The walk starts with the newest notifications and nothing found, and reads at most five
/// pages; each request asks for what stands behind the cursor of the page before.
pub proof fn walk_asks_behind_the_last_page(
    walk: ReviewWalkView,
    response: JsonView,
    wanted: Seq<Seq<char>>,
    cursor: Seq<char>,
)
    requires
        response.at("data"@).at("notifications"@).at("pageInfo"@).at("endCursor"@)
            == JsonView::Text(cursor),
    ensures
        ReviewWalkView::start().question().variables is Some,
        ReviewWalkView::start().question().variables->0.get("after"@) == Some(JsonView::Null),
        ReviewWalkView::start().entries.len() == 0,
        ReviewWalkView::start().pages_left == 5,
        walk.absorb(response, wanted) matches ReviewStepView::More(next) ==> {
            &&& next.question().variables is Some
            &&& next.question().variables->0.get("after"@) == Some(JsonView::Text(cursor))
            &&& next.pages_left + 1 == walk.pages_left
        },
{
    broadcast use json::group_fields;

}

/// The walk goes on exactly where a wanted pull request has no entry yet, the feed has more
/// pages and one more may be read; either way it holds the first entry that was found of each
/// pull request.
pub proof fn walk_goes_on_while_reviews_are_missing(
    walk: ReviewWalkView,
    response: JsonView,
    wanted: Seq<Seq<char>>,
)
    ensures
        ({
            let page = response.at("data"@).at("notifications"@);
            let found = walk.entries + notified_reviews(page.at("nodes"@).items(), wanted);
            let step = walk.absorb(response, wanted);
            let held = match step {
                ReviewStepView::More(next) => next.entries,
                ReviewStepView::Done(entries) => entries,
            };
            &&& step is More <==> held.len() != wanted.len() && page.at("pageInfo"@).at(
                "hasNextPage"@,
            ) == JsonView::Bool(true) && walk.pages_left > 1
            &&& one_entry_per_url(held)
            &&& forall|at: int|
                0 <= at < found.len() && (forall|k: int|
                    0 <= k < at ==> entry_url(#[trigger] found[k]) != entry_url(found[at]))
                    ==> held.contains(#[trigger] found[at])
        }),
{
    let page = response.at("data"@).at("notifications"@);
    let found = walk.entries + notified_reviews(page.at("nodes"@).items(), wanted);
    merged_has_one_entry_per_url(found);
    assert forall|at: int|
        0 <= at < found.len() && (forall|k: int|
            0 <= k < at ==> entry_url(#[trigger] found[k]) != entry_url(
                found[at],
            )) implies merged(found).contains(#[trigger] found[at]) by {
        merging_keeps_the_first_entry(found, at);
    }
}

/// The reviews are asked for by the id of the issue, and an issue that is not there is named
/// in the failure.
pub proof fn reviews_are_of_the_issue(
    issue_id: Seq<char>,
    response: JsonView,
    notified: Seq<JsonView>,
)
    ensures
        review_question(issue_id).variables is Some,
        review_question(issue_id).variables->0.get("id"@) == Some(JsonView::Text(issue_id)),
        response.at("data"@).at("issue"@) is Null ==> {
            &&& wanted_urls(issue_id, response) is Err
            &&& text::contains_text(wanted_urls(issue_id, response)->Err_0.shown(), issue_id)
            &&& shown_reviews(issue_id, response, notified) is Err
            &&& text::contains_text(
                shown_reviews(issue_id, response, notified)->Err_0.shown(),
                issue_id,
            )
        },
        !(response.at("data"@).at("issue"@) is Null) ==> {
            &&& wanted_urls(issue_id, response) is Ok
            &&& shown_reviews(issue_id, response, notified) matches Ok(entries) ==> entries.len()
                > 0 && one_entry_per_url(entries) && forall|i: int|
                0 <= i < entries.len() ==> notified.contains(#[trigger] entries[i])
                    || session_entries(
                    response.at("data"@).at("organization"@).at("urlKey"@).text_or(""@),
                    response.at("data"@).at("issue"@),
                ).contains(entries[i])
        },
        !(response.at("data"@).at("issue"@) is Null) && notified.len() > 0 ==> shown_reviews(
            issue_id,
            response,
            notified,
        ) is Ok,
{
    broadcast use json::group_fields;

    let missing = issue_missing(issue_id).shown();
    let from = "Issue not found: "@.len() as int;
    assert(missing.subrange(from, missing.len() as int) =~= issue_id);
    text::subrange_occurs(missing, from, missing.len() as int);
    let data = response.at("data"@);
    let sessions = session_entries(
        data.at("organization"@).at("urlKey"@).text_or(""@),
        data.at("issue"@),
    );
    let all = notified + sessions;
    let entries = all_reviews(response, notified);
    merging_is_idempotent(all);
    assert forall|i: int| 0 <= i < entries.len() implies notified.contains(#[trigger] entries[i])
        || sessions.contains(entries[i]) by {
        let k = choose|k: int| 0 <= k < all.len() && all[k] == entries[i];
        if k < notified.len() {
            assert(notified[k] == entries[i]);
        } else {
            assert(sessions[k - notified.len()] == entries[i]);
        }
    }
    if notified.len() > 0 {
        merging_keeps_the_first_entry(all, 0);
        assert(entries.contains(all[0]));
    }
}

/// A failure to find a review names the issue, says whether it has pull requests and how many.
pub proof fn missing_reviews_are_explained(issue_id: Seq<char>, issue: JsonView, name: Seq<char>)
    requires
        issue.at("identifier"@) == JsonView::Text(name),
    ensures
        text::contains_text(no_review(issue_id, issue).shown(), name),
        text::contains_text(
            no_review(issue_id, issue).shown(),
            no_review_reason(pr_urls(issue).len()),
        ),
        pr_urls(issue).len() > 0 ==> text::contains_text(
            no_review_reason(pr_urls(issue).len()),
            text::decimal(pr_urls(issue).len()),
        ),
        pr_urls(issue).len() == 0 ==> no_review_reason(pr_urls(issue).len())
            == "no pull request is linked to this issue"@,
{
    let shown = no_review(issue_id, issue).shown();
    let count = pr_urls(issue).len();
    let reason = no_review_reason(count);
    let from = "No review URL for "@.len() as int;
    assert(shown.subrange(from, from + name.len()) =~= name);
    text::subrange_occurs(shown, from, from + name.len());
    let after = from + name.len() + ": "@.len();
    assert(shown.subrange(after, after + reason.len()) =~= reason);
    text::subrange_occurs(shown, after, after + reason.len());
    if count > 0 {
        let start =
            "Linear exposes a review URL through pull request notifications, and none of the "@.len() as int;
        let end = start + text::decimal(count).len();
        assert(reason.subrange(start, end) =~= text::decimal(count));
        text::subrange_occurs(reason, start, end);
    }
}

} // verus!
