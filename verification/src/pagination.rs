//! Walking the pages of a connection: what each request asks for, when the walk
//! ends and what it has gathered.
use vstd::prelude::*;
use vstd::string::*;

use crate::json;
use crate::json::{Json, JsonNumberView, JsonView};
use crate::json_path;
use crate::text::clone_text;

verus! {

#[derive(Debug)]
pub struct PaginationOptions {
    pub limit: Option<usize>,
    pub after: Option<String>,
    pub before: Option<String>,
    pub page_size: Option<usize>,
    pub all: bool,
}

#[verifier::ext_equal]
pub struct PaginationOptionsView {
    pub limit: Option<usize>,
    pub after: Option<Seq<char>>,
    pub before: Option<Seq<char>>,
    pub page_size: Option<usize>,
    pub all: bool,
}

impl View for PaginationOptions {
    type V = PaginationOptionsView;

    open spec fn view(&self) -> PaginationOptionsView {
        PaginationOptionsView {
            limit: self.limit,
            after: self.after.deep_view(),
            before: self.before.deep_view(),
            page_size: self.page_size,
            all: self.all,
        }
    }
}

impl PaginationOptionsView {
    /// Neither a limit nor every page was asked for.
    pub open spec fn unbounded(self) -> bool {
        !self.all && self.limit is None
    }

    pub open spec fn with_default_limit(self, default_limit: usize) -> PaginationOptionsView {
        if self.unbounded() {
            PaginationOptionsView { limit: Some(default_limit), ..self }
        } else {
            self
        }
    }

    pub open spec fn with_default_all(self) -> PaginationOptionsView {
        if self.unbounded() {
            PaginationOptionsView { all: true, ..self }
        } else {
            self
        }
    }

    pub open spec fn effective_page_size(self, default_page_size: usize) -> usize {
        let size = match self.page_size {
            Some(size) => size,
            None => default_page_size,
        };
        if size == 0 {
            1
        } else {
            size
        }
    }

    /// How many items may be gathered in all.
    pub open spec fn cap(self) -> Option<usize> {
        if self.all {
            None
        } else {
            self.limit
        }
    }
}

impl Default for PaginationOptions {
    fn default() -> (r: PaginationOptions)
        ensures
            r@ == (PaginationOptionsView {
                limit: None,
                after: None,
                before: None,
                page_size: None,
                all: false,
            }),
    {
        PaginationOptions { limit: None, after: None, before: None, page_size: None, all: false }
    }
}

impl Clone for PaginationOptions {
    fn clone(&self) -> (r: PaginationOptions)
        ensures
            r@ == self@,
    {
        PaginationOptions {
            limit: self.limit,
            after: clone_text(&self.after),
            before: clone_text(&self.before),
            page_size: self.page_size,
            all: self.all,
        }
    }
}

impl PaginationOptions {
    /// An unbounded request gets a limit; any other is passed through.
    pub fn with_default_limit(&self, default_limit: usize) -> (r: PaginationOptions)
        ensures
            r@ == self@.with_default_limit(default_limit),
    {
        let mut options = self.clone();
        if !options.all && options.limit.is_none() {
            options.limit = Some(default_limit);
        }
        options
    }

    /// The dual of `with_default_limit`: an unbounded request (no limit, not all)
    /// is upgraded to fetch every page. An explicit limit, or all, is passed
    /// through untouched.
    pub fn with_default_all(&self) -> (r: PaginationOptions)
        ensures
            r@ == self@.with_default_all(),
    {
        let mut options = self.clone();
        if !options.all && options.limit.is_none() {
            options.all = true;
        }
        options
    }

    /// The page size asked for, or the default one; at least one.
    pub fn effective_page_size(&self, default_page_size: usize) -> (r: usize)
        ensures
            r == self@.effective_page_size(default_page_size),
    {
        let size: usize = match self.page_size {
            Some(size) => size,
            None => default_page_size,
        };
        if size == 0 {
            1
        } else {
            size
        }
    }
}

/// Both defaults leave a bounded request alone, and neither changes what the
/// other has bounded: the one that comes first decides.
pub proof fn first_default_decides(options: PaginationOptionsView, a: usize, b: usize)
    ensures
        !options.unbounded() ==> options.with_default_limit(a) == options
            && options.with_default_all() == options,
        options.with_default_limit(a).with_default_limit(b) == options.with_default_limit(a),
        options.with_default_limit(a).with_default_all() == options.with_default_limit(a),
        options.with_default_all().with_default_limit(b) == options.with_default_all(),
        options.with_default_all().with_default_all() == options.with_default_all(),
        !options.with_default_limit(a).unbounded(),
        !options.with_default_all().unbounded(),
{
}

/// How many items the next page is asked for: a page, but no more than are
/// still wanted, and at least one.
pub open spec fn batch_size(cap: Option<usize>, seen: nat, page_size: usize) -> int {
    let wanted = match cap {
        Some(cap) => if seen >= cap {
            0
        } else if cap - seen < page_size {
            cap - seen
        } else {
            page_size as int
        },
        None => page_size as int,
    };
    if wanted < 1 {
        1
    } else {
        wanted
    }
}

fn next_batch_size(cap: Option<usize>, seen: usize, page_size: usize) -> (r: usize)
    ensures
        r == batch_size(cap, seen as nat, page_size),
{
    let wanted: usize = match cap {
        Some(cap) => if seen >= cap {
            0
        } else if cap - seen < page_size {
            cap - seen
        } else {
            page_size
        },
        None => page_size,
    };
    if wanted < 1 {
        1
    } else {
        wanted
    }
}

/// An object with the fields of another set in it, in their order.
pub open spec fn merged(object: JsonView, fields: Seq<(Seq<char>, JsonView)>) -> JsonView
    decreases fields.len(),
{
    if fields.len() == 0 {
        object
    } else {
        merged(object, fields.drop_last()).with(fields.last().0, fields.last().1)
    }
}

pub open spec fn fields_of(value: JsonView) -> Seq<(Seq<char>, JsonView)> {
    match value {
        JsonView::Object(fields) => fields,
        _ => Seq::empty(),
    }
}

fn merge(object: Json, base: &Json) -> (r: Json)
    ensures
        r@ == merged(object@, fields_of(base@)),
{
    let mut out = object;
    match base {
        Json::Object(fields) => {
            let ghost all = fields_of(base@);
            let mut i: usize = 0;
            assert(all.take(0).len() == 0);
            while i < fields.len()
                invariant
                    i <= fields@.len(),
                    all.len() == fields@.len(),
                    forall|k: int|
                        0 <= k < all.len() ==> #[trigger] all[k] == (fields@[k].0@, fields@[k].1@),
                    out@ == merged(object@, all.take(i as int)),
                decreases fields@.len() - i,
            {
                assert(all.take(i + 1).drop_last() =~= all.take(i as int));
                assert(all.take(i + 1).last() == all[i as int]);
                out = out.with(fields[i].0.as_str(), fields[i].1.copy());
                i += 1;
            }
            assert(all.take(i as int) =~= all);
        },
        _ => {},
    }
    out
}

/// The variables that ask for one page: its size and the cursor, and then the
/// variables of the query, which win.
pub open spec fn page_variables(
    forward: bool,
    size: int,
    cursor: Option<Seq<char>>,
    base: JsonView,
) -> JsonView {
    let number = JsonView::Number(JsonNumberView::Unsigned(size as u64));
    let paging = if forward {
        JsonView::object().with("first"@, number).with_some("after"@, cursor)
    } else {
        JsonView::object().with("last"@, number).with_some("before"@, cursor)
    };
    merged(paging, fields_of(base))
}

fn variables_for_page(forward: bool, size: usize, cursor: &Option<String>, base: &Json) -> (r: Json)
    ensures
        r@ == page_variables(forward, size as int, cursor.deep_view(), base@),
{
    let paging = if forward {
        Json::object().with("first", Json::number(size as u64)).with_some("after", cursor)
    } else {
        Json::object().with("last", Json::number(size as u64)).with_some("before", cursor)
    };
    merge(paging, base)
}

/// The cursor of the page that follows in the direction of the walk, if the
/// page information says that there is one.
pub open spec fn next_cursor(info: Option<JsonView>, forward: bool) -> Option<Seq<char>> {
    match info {
        Some(info) => {
            let flag = if forward {
                "hasNextPage"@
            } else {
                "hasPreviousPage"@
            };
            let cursor = if forward {
                "endCursor"@
            } else {
                "startCursor"@
            };
            if info.at(flag).is_true() {
                info.at(cursor).as_str()
            } else {
                None
            }
        },
        None => None,
    }
}

fn following_cursor(info: Option<&Json>, forward: bool) -> (r: Option<String>)
    ensures
        r.deep_view() == next_cursor(
            (match info {
                Some(j) => Some(j@),
                None => None,
            }),
            forward,
        ),
{
    match info {
        Some(info) => {
            let more = if forward {
                info.at("hasNextPage").is_true()
            } else {
                info.at("hasPreviousPage").is_true()
            };
            if !more {
                None
            } else if forward {
                info.at("endCursor").as_text()
            } else {
                info.at("startCursor").as_text()
            }
        },
        None => None,
    }
}

/// A walk over the pages of a connection, with what it has gathered so far.
pub struct Pager {
    items: Vec<Json>,
    cap: Option<usize>,
    cursor: Option<String>,
    forward: bool,
    page_size: usize,
    follow: bool,
}

#[verifier::ext_equal]
pub struct PagerView {
    pub items: Seq<JsonView>,
    pub cap: Option<usize>,
    pub cursor: Option<Seq<char>>,
    pub forward: bool,
    pub page_size: usize,
    pub follow: bool,
}

impl View for Pager {
    type V = PagerView;

    closed spec fn view(&self) -> PagerView {
        PagerView {
            items: json::json_views(self.items@),
            cap: self.cap,
            cursor: self.cursor.deep_view(),
            forward: self.forward,
            page_size: self.page_size,
            follow: self.follow,
        }
    }
}

/// Whether the walk goes on after a page.
pub enum PagerStep {
    More(Pager),
    Done(Vec<Json>),
}

#[verifier::ext_equal]
pub enum PagerStepView {
    More(PagerView),
    Done(Seq<JsonView>),
}

impl View for PagerStep {
    type V = PagerStepView;

    open spec fn view(&self) -> PagerStepView {
        match self {
            PagerStep::More(pager) => PagerStepView::More(pager@),
            PagerStep::Done(items) => PagerStepView::Done(json::json_views(items@)),
        }
    }
}

impl PagerView {
    /// The walk that some options ask for: backward only where there is a
    /// `before` cursor and no `after` cursor.
    pub open spec fn start(options: PaginationOptionsView, default_page_size: usize) -> PagerView {
        let forward = options.before is None || options.after is Some;
        PagerView {
            items: Seq::empty(),
            cap: options.cap(),
            cursor: if forward {
                options.after
            } else {
                options.before
            },
            forward,
            page_size: options.effective_page_size(default_page_size),
            follow: !options.unbounded(),
        }
    }

    pub open spec fn variables(self, base: JsonView) -> JsonView {
        page_variables(
            self.forward,
            batch_size(self.cap, self.items.len(), self.page_size),
            self.cursor,
            base,
        )
    }

    pub open spec fn absorb(
        self,
        response: JsonView,
        nodes_path: Seq<Seq<char>>,
        page_info_path: Seq<Seq<char>>,
    ) -> PagerStepView {
        let items = self.items + json_path::nodes_at(response, nodes_path);
        let cursor = next_cursor(json_path::at_path(response, page_info_path), self.forward);
        if self.cap is Some && self.cap->0 <= items.len() {
            PagerStepView::Done(items.take(self.cap->0 as int))
        } else if self.follow && cursor is Some {
            PagerStepView::More(PagerView { items, cursor, ..self })
        } else {
            PagerStepView::Done(items)
        }
    }

    /// What the walk ends with on given responses; nothing where it has not
    /// ended with the last of them.
    pub open spec fn run(
        self,
        responses: Seq<JsonView>,
        nodes_path: Seq<Seq<char>>,
        page_info_path: Seq<Seq<char>>,
    ) -> Option<Seq<JsonView>>
        decreases responses.len(),
    {
        if responses.len() == 0 {
            None
        } else {
            match self.absorb(responses[0], nodes_path, page_info_path) {
                PagerStepView::Done(items) => Some(items),
                PagerStepView::More(next) => next.run(
                    responses.drop_first(),
                    nodes_path,
                    page_info_path,
                ),
            }
        }
    }

    /// How many of the responses the walk asks for.
    pub open spec fn pages(
        self,
        responses: Seq<JsonView>,
        nodes_path: Seq<Seq<char>>,
        page_info_path: Seq<Seq<char>>,
    ) -> nat
        decreases responses.len(),
    {
        if responses.len() == 0 {
            0
        } else {
            match self.absorb(responses[0], nodes_path, page_info_path) {
                PagerStepView::Done(_) => 1,
                PagerStepView::More(next) => 1 + next.pages(
                    responses.drop_first(),
                    nodes_path,
                    page_info_path,
                ),
            }
        }
    }
}

/// The nodes of all the responses, in order.
pub open spec fn all_nodes(responses: Seq<JsonView>, nodes_path: Seq<Seq<char>>) -> Seq<JsonView>
    decreases responses.len(),
{
    if responses.len() == 0 {
        Seq::empty()
    } else {
        json_path::nodes_at(responses[0], nodes_path) + all_nodes(
            responses.drop_first(),
            nodes_path,
        )
    }
}

/// A sequence cut to a cap.
pub open spec fn capped(items: Seq<JsonView>, cap: Option<usize>) -> Seq<JsonView> {
    if cap is Some && cap->0 <= items.len() {
        items.take(cap->0 as int)
    } else {
        items
    }
}

impl Pager {
    pub fn start(options: &PaginationOptions, default_page_size: usize) -> (r: Pager)
        ensures
            r@ == PagerView::start(options@, default_page_size),
    {
        let forward = options.before.is_none() || options.after.is_some();
        let r = Pager {
            items: Vec::new(),
            cap: if options.all {
                None
            } else {
                options.limit
            },
            cursor: if forward {
                clone_text(&options.after)
            } else {
                clone_text(&options.before)
            },
            forward,
            page_size: options.effective_page_size(default_page_size),
            follow: options.all || options.limit.is_some(),
        };
        assert(r@.items =~= Seq::<JsonView>::empty());
        r
    }

    /// The variables of the next request.
    pub fn variables(&self, base: &Json) -> (r: Json)
        ensures
            r@ == self@.variables(base@),
    {
        let size: usize = next_batch_size(self.cap, self.items.len(), self.page_size);
        variables_for_page(self.forward, size, &self.cursor, base)
    }

    /// Takes the response to that request in.
    pub fn absorb(self, response: &Json, nodes_path: &[&str], page_info_path: &[&str]) -> (r:
        PagerStep)
        ensures
            r@ == self@.absorb(response@, nodes_path.deep_view(), page_info_path.deep_view()),
    {
        let ghost before = self@;
        let ghost nodes = json_path::nodes_at(response@, nodes_path.deep_view());
        let mut items = self.items;
        let mut page = json_path::get_nodes(response, nodes_path);
        items.append(&mut page);
        assert(json::json_views(items@) =~= before.items + nodes);
        match self.cap {
            Some(cap) => {
                if cap <= items.len() {
                    items.truncate(cap);
                    assert(json::json_views(items@) =~= (before.items + nodes).take(cap as int));
                    return PagerStep::Done(items);
                }
            },
            None => {},
        }
        if !self.follow {
            return PagerStep::Done(items);
        }
        match following_cursor(json_path::get_path(response, page_info_path), self.forward) {
            Some(cursor) => PagerStep::More(
                Pager {
                    items,
                    cap: self.cap,
                    cursor: Some(cursor),
                    forward: self.forward,
                    page_size: self.page_size,
                    follow: self.follow,
                },
            ),
            None => PagerStep::Done(items),
        }
    }
}

/// A walk ends with the nodes of the pages that it read, in order, cut to its
/// cap.
pub proof fn walk_gathers_the_pages(
    pager: PagerView,
    responses: Seq<JsonView>,
    nodes_path: Seq<Seq<char>>,
    page_info_path: Seq<Seq<char>>,
)
    requires
        pager.run(responses, nodes_path, page_info_path) is Some,
    ensures
        pager.pages(responses, nodes_path, page_info_path) <= responses.len(),
        pager.run(responses, nodes_path, page_info_path)->0 == capped(
            pager.items + all_nodes(
                responses.take(pager.pages(responses, nodes_path, page_info_path) as int),
                nodes_path,
            ),
            pager.cap,
        ),
    decreases responses.len(),
{
    let count = pager.pages(responses, nodes_path, page_info_path);
    let read = responses.take(count as int);
    let nodes = json_path::nodes_at(responses[0], nodes_path);
    match pager.absorb(responses[0], nodes_path, page_info_path) {
        PagerStepView::Done(items) => {
            assert(read.drop_first() =~= Seq::<JsonView>::empty());
            assert(read[0] == responses[0]);
            assert(all_nodes(read.drop_first(), nodes_path) =~= Seq::<JsonView>::empty());
            assert(all_nodes(read, nodes_path) =~= nodes);
        },
        PagerStepView::More(next) => {
            let rest = responses.drop_first();
            walk_gathers_the_pages(next, rest, nodes_path, page_info_path);
            let later = rest.take((count - 1) as int);
            assert(read.drop_first() =~= later);
            assert(read[0] == responses[0]);
            assert(pager.items + all_nodes(read, nodes_path) =~= next.items + all_nodes(
                later,
                nodes_path,
            ));
        },
    }
}

/// A walk with a cap ends with no more items than the cap.
pub proof fn walk_keeps_to_the_limit(
    options: PaginationOptionsView,
    default_page_size: usize,
    responses: Seq<JsonView>,
    nodes_path: Seq<Seq<char>>,
    page_info_path: Seq<Seq<char>>,
)
    requires
        !options.all,
        options.limit is Some,
        PagerView::start(options, default_page_size).run(responses, nodes_path, page_info_path)
            is Some,
    ensures
        PagerView::start(options, default_page_size).run(
            responses,
            nodes_path,
            page_info_path,
        )->0.len() <= options.limit->0,
{
    walk_gathers_the_pages(
        PagerView::start(options, default_page_size),
        responses,
        nodes_path,
        page_info_path,
    );
}

/// An unbounded request reads one page and keeps all of it.
pub proof fn unbounded_walk_reads_one_page(
    options: PaginationOptionsView,
    default_page_size: usize,
    response: JsonView,
    nodes_path: Seq<Seq<char>>,
    page_info_path: Seq<Seq<char>>,
)
    requires
        options.unbounded(),
    ensures
        PagerView::start(options, default_page_size).absorb(response, nodes_path, page_info_path)
            == PagerStepView::Done(json_path::nodes_at(response, nodes_path)),
{
    assert(Seq::<JsonView>::empty() + json_path::nodes_at(response, nodes_path)
        =~= json_path::nodes_at(response, nodes_path));
}

/// A request asks for at least one item and at most a page, and for no more
/// than are still wanted while any are.
pub proof fn batch_size_is_bounded(cap: Option<usize>, seen: nat, page_size: usize)
    requires
        page_size >= 1,
    ensures
        1 <= batch_size(cap, seen, page_size) <= page_size,
        cap is Some && seen < cap->0 ==> batch_size(cap, seen, page_size) <= cap->0 - seen,
{
}

/// With both cursors the walk goes forward from the `after` cursor.
pub proof fn both_cursors_go_forward(options: PaginationOptionsView, default_page_size: usize)
    requires
        options.after is Some,
        options.before is Some,
    ensures
        PagerView::start(options, default_page_size).forward,
        PagerView::start(options, default_page_size).cursor == options.after,
{
}

/// A forward walk that hands each page on instead of gathering them.
pub struct Stream {
    total: usize,
    cap: Option<usize>,
    cursor: Option<String>,
    page_size: usize,
    follow: bool,
}

#[verifier::ext_equal]
pub struct StreamView {
    pub total: nat,
    pub cap: Option<usize>,
    pub cursor: Option<Seq<char>>,
    pub page_size: usize,
    pub follow: bool,
}

impl View for Stream {
    type V = StreamView;

    closed spec fn view(&self) -> StreamView {
        StreamView {
            total: self.total as nat,
            cap: self.cap,
            cursor: self.cursor.deep_view(),
            page_size: self.page_size,
            follow: self.follow,
        }
    }
}

/// What a response brings: the batch to hand on, if it holds anything, how many
/// items that makes in all, and the walk that goes on, if it does.
pub struct StreamStep {
    pub batch: Option<Vec<Json>>,
    pub total: usize,
    pub next: Option<Stream>,
}

#[verifier::ext_equal]
pub struct StreamStepView {
    pub batch: Option<Seq<JsonView>>,
    pub total: nat,
    pub next: Option<StreamView>,
}

impl View for StreamStep {
    type V = StreamStepView;

    open spec fn view(&self) -> StreamStepView {
        StreamStepView {
            batch: match self.batch {
                Some(batch) => Some(json::json_views(batch@)),
                None => None,
            },
            total: self.total as nat,
            next: match self.next {
                Some(stream) => Some(stream@),
                None => None,
            },
        }
    }
}

/// The items of a batch that is handed on, and none where none is.
pub open spec fn batch_items(batch: Option<Seq<JsonView>>) -> Seq<JsonView> {
    match batch {
        Some(items) => items,
        None => Seq::empty(),
    }
}

impl StreamView {
    pub open spec fn start(options: PaginationOptionsView, default_page_size: usize) -> StreamView {
        StreamView {
            total: 0,
            cap: options.cap(),
            cursor: options.after,
            page_size: options.effective_page_size(default_page_size),
            follow: !options.unbounded(),
        }
    }

    /// The cap has been reached: nothing more is asked for.
    pub open spec fn finished(self) -> bool {
        self.cap is Some && self.total >= self.cap->0
    }

    pub open spec fn variables(self, base: JsonView) -> JsonView {
        page_variables(
            true,
            batch_size(self.cap, self.total, self.page_size),
            self.cursor,
            base,
        )
    }

    /// The nodes of a response that are still wanted.
    pub open spec fn batch(self, response: JsonView, nodes_path: Seq<Seq<char>>) -> Seq<JsonView> {
        let nodes = json_path::nodes_at(response, nodes_path);
        match self.cap {
            Some(cap) => if self.total >= cap {
                Seq::empty()
            } else if nodes.len() > cap - self.total {
                nodes.take(cap - self.total)
            } else {
                nodes
            },
            None => nodes,
        }
    }

    pub open spec fn absorb(
        self,
        response: JsonView,
        nodes_path: Seq<Seq<char>>,
        page_info_path: Seq<Seq<char>>,
    ) -> StreamStepView {
        let batch = self.batch(response, nodes_path);
        let total = self.total + batch.len();
        let cursor = next_cursor(json_path::at_path(response, page_info_path), true);
        let next = StreamView { total, cursor, ..self };
        StreamStepView {
            batch: if batch.len() > 0 {
                Some(batch)
            } else {
                None
            },
            total,
            next: if batch.len() > 0 && !next.finished() && self.follow && cursor is Some {
                Some(next)
            } else {
                None
            },
        }
    }

    /// What the batches that the walk hands on hold, one after the other.
    pub open spec fn handed_on(
        self,
        responses: Seq<JsonView>,
        nodes_path: Seq<Seq<char>>,
        page_info_path: Seq<Seq<char>>,
    ) -> Seq<JsonView>
        decreases responses.len(),
    {
        if responses.len() == 0 || self.finished() {
            Seq::empty()
        } else {
            let step = self.absorb(responses[0], nodes_path, page_info_path);
            match step.next {
                Some(next) => batch_items(step.batch) + next.handed_on(
                    responses.drop_first(),
                    nodes_path,
                    page_info_path,
                ),
                None => batch_items(step.batch),
            }
        }
    }
}

impl Stream {
    pub fn start(options: &PaginationOptions, default_page_size: usize) -> (r: Stream)
        ensures
            r@ == StreamView::start(options@, default_page_size),
    {
        Stream {
            total: 0,
            cap: if options.all {
                None
            } else {
                options.limit
            },
            cursor: clone_text(&options.after),
            page_size: options.effective_page_size(default_page_size),
            follow: options.all || options.limit.is_some(),
        }
    }

    pub fn finished(&self) -> (r: bool)
        ensures
            r == self@.finished(),
    {
        match self.cap {
            Some(cap) => self.total >= cap,
            None => false,
        }
    }

    /// How many items have been handed on so far.
    pub fn total(&self) -> (r: usize)
        ensures
            r == self@.total,
    {
        self.total
    }

    /// The variables of the next request.
    pub fn variables(&self, base: &Json) -> (r: Json)
        ensures
            r@ == self@.variables(base@),
    {
        let size: usize = next_batch_size(self.cap, self.total, self.page_size);
        variables_for_page(true, size, &self.cursor, base)
    }

    /// Takes the response to that request in. The count of all items must fit.
    pub fn absorb(self, response: &Json, nodes_path: &[&str], page_info_path: &[&str]) -> (r:
        StreamStep)
        requires
            self@.total + json_path::nodes_at(response@, nodes_path.deep_view()).len()
                <= usize::MAX,
        ensures
            r@ == self@.absorb(response@, nodes_path.deep_view(), page_info_path.deep_view()),
    {
        let ghost before = self@;
        let ghost nodes = json_path::nodes_at(response@, nodes_path.deep_view());
        let mut batch = json_path::get_nodes(response, nodes_path);
        assert(batch@.len() == json::json_views(batch@).len());
        match self.cap {
            Some(cap) => {
                let left: usize = if self.total >= cap {
                    0
                } else {
                    cap - self.total
                };
                if batch.len() > left {
                    batch.truncate(left);
                }
                assert(json::json_views(batch@) =~= before.batch(
                    response@,
                    nodes_path.deep_view(),
                ));
            },
            None => {},
        }
        assert(batch@.len() == json::json_views(batch@).len());
        let total: usize = self.total + batch.len();
        let finished = match self.cap {
            Some(cap) => total >= cap,
            None => false,
        };
        if batch.len() == 0 {
            return StreamStep { batch: None, total, next: None };
        }
        if finished || !self.follow {
            return StreamStep { batch: Some(batch), total, next: None };
        }
        match following_cursor(json_path::get_path(response, page_info_path), true) {
            Some(cursor) => StreamStep {
                batch: Some(batch),
                total,
                next: Some(
                    Stream {
                        total,
                        cap: self.cap,
                        cursor: Some(cursor),
                        page_size: self.page_size,
                        follow: self.follow,
                    },
                ),
            },
            None => StreamStep { batch: Some(batch), total, next: None },
        }
    }
}

/// A stream hands on no more items than its cap leaves room for.
pub proof fn stream_keeps_to_the_limit(
    stream: StreamView,
    responses: Seq<JsonView>,
    nodes_path: Seq<Seq<char>>,
    page_info_path: Seq<Seq<char>>,
)
    requires
        stream.cap is Some,
        stream.total <= stream.cap->0,
    ensures
        stream.total + stream.handed_on(responses, nodes_path, page_info_path).len()
            <= stream.cap->0,
    decreases responses.len(),
{
    if responses.len() > 0 && !stream.finished() {
        let step = stream.absorb(responses[0], nodes_path, page_info_path);
        if step.next is Some {
            stream_keeps_to_the_limit(
                step.next->0,
                responses.drop_first(),
                nodes_path,
                page_info_path,
            );
        }
    }
}

/// A walk that gathers and a stream are at the same place: both go forward from the
/// same cursor, with as many items behind them.
pub open spec fn in_step(pager: PagerView, stream: StreamView) -> bool {
    &&& pager.forward
    &&& pager.items.len() == stream.total
    &&& pager.cap == stream.cap
    &&& pager.cursor == stream.cursor
    &&& pager.page_size == stream.page_size
    &&& pager.follow == stream.follow
    &&& pager.cap is Some ==> pager.items.len() <= pager.cap->0
}

/// No page without nodes comes before one with nodes.
pub open spec fn without_gap(responses: Seq<JsonView>, nodes_path: Seq<Seq<char>>) -> bool {
    forall|i: int, j: int|
        0 <= i < j < responses.len() && (#[trigger] json_path::nodes_at(
            responses[i],
            nodes_path,
        )).len() == 0 ==> (#[trigger] json_path::nodes_at(responses[j], nodes_path)).len() == 0
}

proof fn no_nodes_in_empty_pages(responses: Seq<JsonView>, nodes_path: Seq<Seq<char>>)
    requires
        forall|i: int|
            0 <= i < responses.len() ==> (#[trigger] json_path::nodes_at(
                responses[i],
                nodes_path,
            )).len() == 0,
    ensures
        all_nodes(responses, nodes_path).len() == 0,
    decreases responses.len(),
{
    if responses.len() > 0 {
        let rest = responses.drop_first();
        assert forall|i: int| 0 <= i < rest.len() implies (#[trigger] json_path::nodes_at(
            rest[i],
            nodes_path,
        )).len() == 0 by {
            assert(rest[i] == responses[i + 1]);
        }
        no_nodes_in_empty_pages(rest, nodes_path);
        assert(json_path::nodes_at(responses[0], nodes_path).len() == 0);
    }
}

/// A stream that is in step with a walk hands on what the walk goes on to gather.
proof fn stream_follows_the_walk(
    pager: PagerView,
    stream: StreamView,
    responses: Seq<JsonView>,
    nodes_path: Seq<Seq<char>>,
    page_info_path: Seq<Seq<char>>,
)
    requires
        in_step(pager, stream),
        pager.run(responses, nodes_path, page_info_path) is Some,
        without_gap(
            responses.take(pager.pages(responses, nodes_path, page_info_path) as int),
            nodes_path,
        ),
    ensures
        pager.run(responses, nodes_path, page_info_path)->0 == pager.items + stream.handed_on(
            responses,
            nodes_path,
            page_info_path,
        ),
    decreases responses.len(),
{
    let nodes = json_path::nodes_at(responses[0], nodes_path);
    let rest = responses.drop_first();
    let count = pager.pages(responses, nodes_path, page_info_path);
    let read = responses.take(count as int);
    let result = pager.run(responses, nodes_path, page_info_path)->0;
    let handed = stream.handed_on(responses, nodes_path, page_info_path);
    walk_gathers_the_pages(pager, responses, nodes_path, page_info_path);
    if stream.finished() {
        assert(result =~= pager.items + handed);
    } else if nodes.len() == 0 {
        assert(read[0] == responses[0]);
        assert forall|i: int| 0 <= i < read.len() implies (#[trigger] json_path::nodes_at(
            read[i],
            nodes_path,
        )).len() == 0 by {
            assert(json_path::nodes_at(read[0], nodes_path).len() == 0);
        }
        no_nodes_in_empty_pages(read, nodes_path);
        assert(handed =~= Seq::<JsonView>::empty());
        assert(result =~= pager.items + handed);
    } else {
        let step = stream.absorb(responses[0], nodes_path, page_info_path);
        match pager.absorb(responses[0], nodes_path, page_info_path) {
            PagerStepView::Done(items) => {
                assert(result =~= pager.items + handed);
            },
            PagerStepView::More(next) => {
                let later = rest.take((count - 1) as int);
                assert(read.drop_first() =~= later);
                assert forall|i: int, j: int|
                    0 <= i < j < later.len() && (#[trigger] json_path::nodes_at(
                        later[i],
                        nodes_path,
                    )).len() == 0 implies (#[trigger] json_path::nodes_at(
                    later[j],
                    nodes_path,
                )).len() == 0 by {
                    assert(later[i] == read[i + 1]);
                    assert(later[j] == read[j + 1]);
                }
                stream_follows_the_walk(next, step.next->0, rest, nodes_path, page_info_path);
                assert(result =~= pager.items + handed);
            },
        }
    }
}

/// On the same forward pages a stream hands on, batch after batch, exactly the items
/// that a walk gathers, where no page without nodes comes before one with nodes; and
/// both ask for the first page in the same way.
pub proof fn batches_are_what_a_walk_gathers(
    options: PaginationOptionsView,
    default_page_size: usize,
    base: JsonView,
    responses: Seq<JsonView>,
    nodes_path: Seq<Seq<char>>,
    page_info_path: Seq<Seq<char>>,
)
    requires
        PagerView::start(options, default_page_size).forward,
        PagerView::start(options, default_page_size).run(responses, nodes_path, page_info_path)
            is Some,
        without_gap(
            responses.take(
                PagerView::start(options, default_page_size).pages(
                    responses,
                    nodes_path,
                    page_info_path,
                ) as int,
            ),
            nodes_path,
        ),
    ensures
        PagerView::start(options, default_page_size).run(responses, nodes_path, page_info_path)->0
            == StreamView::start(options, default_page_size).handed_on(
            responses,
            nodes_path,
            page_info_path,
        ),
        PagerView::start(options, default_page_size).variables(base) == StreamView::start(
            options,
            default_page_size,
        ).variables(base),
{
    let pager = PagerView::start(options, default_page_size);
    let stream = StreamView::start(options, default_page_size);
    stream_follows_the_walk(pager, stream, responses, nodes_path, page_info_path);
    let handed = stream.handed_on(responses, nodes_path, page_info_path);
    assert(pager.items + handed =~= handed);
}

// ---------------------------------------------------------------------------
// What the requests of a walk ask for
// ---------------------------------------------------------------------------

/// A field that none of the merged fields sets stays as it was.
proof fn merged_keeps(object: JsonView, fields: Seq<(Seq<char>, JsonView)>, key: Seq<char>)
    requires
        object is Object,
        forall|k: int| 0 <= k < fields.len() ==> (#[trigger] fields[k]).0 != key,
    ensures
        merged(object, fields) is Object,
        merged(object, fields).get(key) == object.get(key),
    decreases fields.len(),
{
    broadcast use json::group_fields;

    if fields.len() > 0 {
        let rest = fields.drop_last();
        assert forall|k: int| 0 <= k < rest.len() implies (#[trigger] rest[k]).0 != key by {
            assert(fields[k].0 != key);
        }
        merged_keeps(object, rest, key);
        assert(fields[fields.len() - 1].0 != key);
    }
}

/// A field that the merged fields set is the one that they set it to.
proof fn merged_sets(object: JsonView, fields: Seq<(Seq<char>, JsonView)>, at: int)
    requires
        object is Object,
        0 <= at < fields.len(),
        forall|k: int| at < k < fields.len() ==> (#[trigger] fields[k]).0 != fields[at].0,
    ensures
        merged(object, fields).get(fields[at].0) == Some(fields[at].1),
        merged(object, fields) is Object,
    decreases fields.len(),
{
    broadcast use json::group_fields;

    let rest = fields.drop_last();
    if at < fields.len() - 1 {
        assert forall|k: int| at < k < rest.len() implies (#[trigger] rest[k]).0 != rest[at].0 by {
            assert(fields[k].0 != fields[at].0);
        }
        merged_sets(object, rest, at);
        assert(fields[fields.len() - 1].0 != fields[at].0);
    }
}

proof fn paging_keys_differ()
    ensures
        "first"@ != "after"@,
        "first"@ != "last"@,
        "first"@ != "before"@,
        "after"@ != "last"@,
        "after"@ != "before"@,
        "last"@ != "before"@,
{
    reveal_strlit("first");
    reveal_strlit("after");
    reveal_strlit("last");
    reveal_strlit("before");
    assert("first"@[0] != "after"@[0]);
    assert("first"@.len() == 5);
    assert("after"@.len() == 5);
    assert("last"@.len() == 4);
    assert("before"@.len() == 6);
}

/// What the variables of a page hold under the names of the paging variables that
/// the base leaves alone.
proof fn paging_variables(forward: bool, size: int, cursor: Option<Seq<char>>, base: JsonView)
    ensures
        ({
            let variables = page_variables(forward, size, cursor, base);
            let number = Some(JsonView::Number(JsonNumberView::Unsigned(size as u64)));
            let text = match cursor {
                Some(c) => Some(JsonView::Text(c)),
                None => None,
            };
            &&& variables is Object
            &&& base.get("first"@) is None ==> variables.get("first"@) == (if forward {
                number
            } else {
                None
            })
            &&& base.get("last"@) is None ==> variables.get("last"@) == (if forward {
                None
            } else {
                number
            })
            &&& base.get("after"@) is None ==> variables.get("after"@) == (if forward {
                text
            } else {
                None
            })
            &&& base.get("before"@) is None ==> variables.get("before"@) == (if forward {
                None
            } else {
                text
            })
        }),
{
    broadcast use json::group_fields;

    paging_keys_differ();
    let fields = fields_of(base);
    let number = JsonView::Number(JsonNumberView::Unsigned(size as u64));
    let sized = if forward {
        JsonView::object().with("first"@, number)
    } else {
        JsonView::object().with("last"@, number)
    };
    let paging = if forward {
        sized.with_some("after"@, cursor)
    } else {
        sized.with_some("before"@, cursor)
    };
    json::field_index_is_first(fields, "first"@);
    json::field_index_is_first(fields, "last"@);
    json::field_index_is_first(fields, "after"@);
    json::field_index_is_first(fields, "before"@);
    assert(JsonView::object() is Object);
    assert(sized is Object);
    assert(paging is Object);
    if base.get("first"@) is None {
        merged_keeps(paging, fields, "first"@);
    }
    if base.get("last"@) is None {
        merged_keeps(paging, fields, "last"@);
    }
    if base.get("after"@) is None {
        merged_keeps(paging, fields, "after"@);
    }
    if base.get("before"@) is None {
        merged_keeps(paging, fields, "before"@);
    }
    merged_is_object(paging, fields);
}

proof fn merged_is_object(object: JsonView, fields: Seq<(Seq<char>, JsonView)>)
    requires
        object is Object,
    ensures
        merged(object, fields) is Object,
    decreases fields.len(),
{
    if fields.len() > 0 {
        merged_is_object(object, fields.drop_last());
    }
}

/// A walk and a stream start behind the `after` cursor that was given, whether or not
/// there is a `before` cursor, and their first request asks for the pages that follow it.
pub proof fn walk_starts_behind_the_given_cursor(
    options: PaginationOptionsView,
    default_page_size: usize,
    base: JsonView,
    cursor: Seq<char>,
)
    requires
        options.after == Some(cursor),
    ensures
        ({
            let walk = PagerView::start(options, default_page_size).variables(base);
            let stream = StreamView::start(options, default_page_size).variables(base);
            &&& base.get("after"@) is None ==> walk.get("after"@) == Some(JsonView::Text(cursor))
            &&& base.get("after"@) is None ==> stream.get("after"@) == Some(JsonView::Text(cursor))
            &&& base.get("first"@) is None ==> walk.get("first"@) is Some
            &&& base.get("first"@) is None ==> stream.get("first"@) is Some
            &&& base.get("before"@) is None ==> walk.get("before"@) is None
            &&& base.get("before"@) is None ==> stream.get("before"@) is None
            &&& base.get("last"@) is None ==> walk.get("last"@) is None
            &&& base.get("last"@) is None ==> stream.get("last"@) is None
        }),
{
    let walk = PagerView::start(options, default_page_size);
    let stream = StreamView::start(options, default_page_size);
    paging_variables(
        true,
        batch_size(walk.cap, walk.items.len(), walk.page_size),
        options.after,
        base,
    );
    paging_variables(
        true,
        batch_size(stream.cap, stream.total, stream.page_size),
        options.after,
        base,
    );
}

/// A `before` cursor without an `after` cursor starts a walk backward: its first request
/// asks for the last items before that cursor.
pub proof fn lone_before_cursor_goes_backward(
    options: PaginationOptionsView,
    default_page_size: usize,
    base: JsonView,
    cursor: Seq<char>,
)
    requires
        options.after is None,
        options.before == Some(cursor),
    ensures
        ({
            let walk = PagerView::start(options, default_page_size).variables(base);
            &&& base.get("before"@) is None ==> walk.get("before"@) == Some(JsonView::Text(cursor))
            &&& base.get("last"@) is None ==> walk.get("last"@) is Some
            &&& base.get("after"@) is None ==> walk.get("after"@) is None
            &&& base.get("first"@) is None ==> walk.get("first"@) is None
        }),
{
    let walk = PagerView::start(options, default_page_size);
    paging_variables(
        false,
        batch_size(walk.cap, walk.items.len(), walk.page_size),
        options.before,
        base,
    );
}

/// Without a cursor the first request asks for the first items, from the beginning.
pub proof fn walk_without_cursor_starts_at_the_beginning(
    options: PaginationOptionsView,
    default_page_size: usize,
    base: JsonView,
)
    requires
        options.after is None,
    ensures
        ({
            let walk = PagerView::start(options, default_page_size).variables(base);
            let stream = StreamView::start(options, default_page_size).variables(base);
            &&& options.before is None && base.get("after"@) is None ==> walk.get("after"@) is None
            &&& options.before is None && base.get("first"@) is None ==> walk.get("first"@) is Some
            &&& base.get("after"@) is None ==> stream.get("after"@) is None
            &&& base.get("first"@) is None ==> stream.get("first"@) is Some
        }),
{
    let walk = PagerView::start(options, default_page_size);
    let stream = StreamView::start(options, default_page_size);
    paging_variables(
        true,
        batch_size(walk.cap, walk.items.len(), walk.page_size),
        None,
        base,
    );
    paging_variables(
        true,
        batch_size(stream.cap, stream.total, stream.page_size),
        None,
        base,
    );
}

/// The first request asks for as many items as a page holds, or for as many as are
/// wanted where those are fewer, and for at least one.
pub proof fn first_request_asks_for_what_is_wanted(
    options: PaginationOptionsView,
    default_page_size: usize,
    base: JsonView,
)
    requires
        base.get("first"@) is None,
        base.get("last"@) is None,
    ensures
        ({
            let walk = PagerView::start(options, default_page_size).variables(base);
            let stream = StreamView::start(options, default_page_size).variables(base);
            let asked = if options.before is Some && options.after is None {
                walk.at("last"@).as_u64()
            } else {
                walk.at("first"@).as_u64()
            };
            &&& asked is Some
            &&& asked->0 >= 1
            &&& stream.at("first"@).as_u64() == asked
            &&& options.page_size matches Some(size) ==> size >= 1 ==> asked->0 <= size
            &&& options.page_size is None && default_page_size >= 1 ==> asked->0
                <= default_page_size
            &&& !options.all && options.limit is Some && options.limit->0 >= 1 ==> asked->0
                <= options.limit->0
            &&& options.all || options.limit is None ==> match options.page_size {
                Some(size) => size >= 1 ==> asked->0 == size,
                None => default_page_size >= 1 ==> asked->0 == default_page_size,
            }
            &&& options.limit matches Some(limit) ==> !options.all ==> match options.page_size {
                Some(size) => size >= 1 && limit >= 1 ==> asked->0 == size || asked->0 == limit,
                None => default_page_size >= 1 && limit >= 1 ==> asked->0 == default_page_size
                    || asked->0 == limit,
            }
        }),
{
    let walk = PagerView::start(options, default_page_size);
    let stream = StreamView::start(options, default_page_size);
    paging_variables(
        walk.forward,
        batch_size(walk.cap, walk.items.len(), walk.page_size),
        walk.cursor,
        base,
    );
    paging_variables(
        true,
        batch_size(stream.cap, stream.total, stream.page_size),
        stream.cursor,
        base,
    );
}

/// The variables of the query reach every request, and nothing of the paging takes
/// their place.
pub proof fn base_variables_win(pager: PagerView, stream: StreamView, base: JsonView, at: int)
    requires
        base is Object,
        0 <= at < base->Object_0.len(),
        forall|i: int, j: int|
            0 <= i < j < base->Object_0.len() ==> (#[trigger] base->Object_0[i]).0 != (
            #[trigger] base->Object_0[j]).0,
    ensures
        pager.variables(base).get(base->Object_0[at].0) == Some(base->Object_0[at].1),
        stream.variables(base).get(base->Object_0[at].0) == Some(base->Object_0[at].1),
{
    broadcast use json::group_fields;

    let fields = base->Object_0;
    let pager_size = JsonView::Number(
        JsonNumberView::Unsigned(
            batch_size(pager.cap, pager.items.len(), pager.page_size) as u64,
        ),
    );
    let pager_paging = if pager.forward {
        JsonView::object().with("first"@, pager_size).with_some("after"@, pager.cursor)
    } else {
        JsonView::object().with("last"@, pager_size).with_some("before"@, pager.cursor)
    };
    let stream_size = JsonView::Number(
        JsonNumberView::Unsigned(
            batch_size(stream.cap, stream.total, stream.page_size) as u64,
        ),
    );
    let stream_paging = JsonView::object().with("first"@, stream_size).with_some(
        "after"@,
        stream.cursor,
    );
    merged_sets(pager_paging, fields, at);
    merged_sets(stream_paging, fields, at);
}

/// After a page that says that another follows it, a walk that is not done asks for the
/// page behind its end cursor, and has the nodes of the page behind those it had.
pub proof fn walk_goes_on_behind_the_page(
    pager: PagerView,
    response: JsonView,
    nodes_path: Seq<Seq<char>>,
    page_info_path: Seq<Seq<char>>,
    base: JsonView,
    info: JsonView,
    cursor: Seq<char>,
)
    requires
        pager.forward,
        pager.follow,
        json_path::at_path(response, page_info_path) == Some(info),
        info.at("hasNextPage"@) == JsonView::Bool(true),
        info.at("endCursor"@) == JsonView::Text(cursor),
        pager.cap matches Some(cap) ==> pager.items.len() + json_path::nodes_at(
            response,
            nodes_path,
        ).len() < cap,
        base.get("after"@) is None,
    ensures
        ({
            let step = pager.absorb(response, nodes_path, page_info_path);
            &&& step is More
            &&& step->More_0.variables(base).get("after"@) == Some(JsonView::Text(cursor))
            &&& step->More_0.items == pager.items + json_path::nodes_at(response, nodes_path)
            &&& step->More_0.cap == pager.cap
            &&& step->More_0.follow
            &&& step->More_0.forward
            &&& step->More_0.page_size == pager.page_size
        }),
{
    let next = pager.absorb(response, nodes_path, page_info_path)->More_0;
    paging_variables(
        true,
        batch_size(next.cap, next.items.len(), next.page_size),
        next.cursor,
        base,
    );
}

/// After a page that says that another precedes it, a backward walk that is not done asks
/// for the page before its start cursor.
pub proof fn backward_walk_goes_on_before_the_page(
    pager: PagerView,
    response: JsonView,
    nodes_path: Seq<Seq<char>>,
    page_info_path: Seq<Seq<char>>,
    base: JsonView,
    info: JsonView,
    cursor: Seq<char>,
)
    requires
        !pager.forward,
        pager.follow,
        json_path::at_path(response, page_info_path) == Some(info),
        info.at("hasPreviousPage"@) == JsonView::Bool(true),
        info.at("startCursor"@) == JsonView::Text(cursor),
        pager.cap matches Some(cap) ==> pager.items.len() + json_path::nodes_at(
            response,
            nodes_path,
        ).len() < cap,
        base.get("before"@) is None,
    ensures
        ({
            let step = pager.absorb(response, nodes_path, page_info_path);
            &&& step is More
            &&& step->More_0.variables(base).get("before"@) == Some(JsonView::Text(cursor))
            &&& step->More_0.items == pager.items + json_path::nodes_at(response, nodes_path)
            &&& step->More_0.cap == pager.cap
            &&& step->More_0.follow
            &&& !step->More_0.forward
            &&& step->More_0.page_size == pager.page_size
        }),
{
    let next = pager.absorb(response, nodes_path, page_info_path)->More_0;
    paging_variables(
        false,
        batch_size(next.cap, next.items.len(), next.page_size),
        next.cursor,
        base,
    );
}

/// A walk ends with a page that no other follows, or whose follower has no cursor, and
/// keeps every node up to there unless there are more than are wanted.
pub proof fn walk_ends_with_the_last_page(
    pager: PagerView,
    response: JsonView,
    nodes_path: Seq<Seq<char>>,
    page_info_path: Seq<Seq<char>>,
)
    requires
        match json_path::at_path(response, page_info_path) {
            Some(info) => if pager.forward {
                info.at("hasNextPage"@) != JsonView::Bool(true) || !(info.at(
                    "endCursor"@,
                ) is Text)
            } else {
                info.at("hasPreviousPage"@) != JsonView::Bool(true) || !(info.at(
                    "startCursor"@,
                ) is Text)
            },
            None => true,
        },
    ensures
        ({
            let gathered = pager.items + json_path::nodes_at(response, nodes_path);
            match pager.absorb(response, nodes_path, page_info_path) {
                PagerStepView::More(_) => false,
                PagerStepView::Done(items) => match pager.cap {
                    Some(cap) if cap < gathered.len() => items == gathered.take(cap as int),
                    _ => items == gathered,
                },
            }
        }),
{
    let gathered = pager.items + json_path::nodes_at(response, nodes_path);
    if pager.cap is Some && pager.cap->0 == gathered.len() {
        assert(gathered.take(pager.cap->0 as int) =~= gathered);
    }
}

/// Whatever the page says, a walk ends as soon as it has what is wanted.
pub proof fn walk_ends_at_the_limit(
    options: PaginationOptionsView,
    default_page_size: usize,
    response: JsonView,
    nodes_path: Seq<Seq<char>>,
    page_info_path: Seq<Seq<char>>,
    limit: usize,
)
    requires
        !options.all,
        options.limit == Some(limit),
        json_path::nodes_at(response, nodes_path).len() >= limit,
    ensures
        PagerView::start(options, default_page_size).absorb(response, nodes_path, page_info_path)
            == PagerStepView::Done(
            json_path::nodes_at(response, nodes_path).take(limit as int),
        ),
        limit > 0 ==> StreamView::start(options, default_page_size).absorb(
            response,
            nodes_path,
            page_info_path,
        ).next is None,
        limit > 0 ==> StreamView::start(options, default_page_size).absorb(
            response,
            nodes_path,
            page_info_path,
        ).batch == Some(json_path::nodes_at(response, nodes_path).take(limit as int)),
{
    let nodes = json_path::nodes_at(response, nodes_path);
    assert(Seq::<JsonView>::empty() + nodes =~= nodes);
    if nodes.len() == limit {
        assert(nodes.take(limit as int) =~= nodes);
    }
}

/// A walk for every page, and one with a limit that a page does not reach, go on while
/// another page follows; so does a stream, where the page has nodes.
pub proof fn bounded_walks_follow_the_pages(
    options: PaginationOptionsView,
    default_page_size: usize,
    response: JsonView,
    nodes_path: Seq<Seq<char>>,
    page_info_path: Seq<Seq<char>>,
    base: JsonView,
    info: JsonView,
    cursor: Seq<char>,
)
    requires
        options.before is None || options.after is Some,
        options.all || (options.limit is Some && json_path::nodes_at(response, nodes_path).len()
            < options.limit->0),
        json_path::at_path(response, page_info_path) == Some(info),
        info.at("hasNextPage"@) == JsonView::Bool(true),
        info.at("endCursor"@) == JsonView::Text(cursor),
        base.get("after"@) is None,
    ensures
        ({
            let nodes = json_path::nodes_at(response, nodes_path);
            let walk = PagerView::start(options, default_page_size).absorb(
                response,
                nodes_path,
                page_info_path,
            );
            let stream = StreamView::start(options, default_page_size).absorb(
                response,
                nodes_path,
                page_info_path,
            );
            &&& walk is More
            &&& walk->More_0.items == nodes
            &&& walk->More_0.variables(base).get("after"@) == Some(JsonView::Text(cursor))
            &&& nodes.len() > 0 ==> {
                &&& stream.batch == Some(nodes)
                &&& stream.total == nodes.len()
                &&& stream.next is Some
                &&& stream.next->0.total == nodes.len()
                &&& stream.next->0.variables(base).get("after"@) == Some(JsonView::Text(cursor))
            }
            &&& nodes.len() == 0 ==> stream.batch is None && stream.next is None
        }),
{
    let nodes = json_path::nodes_at(response, nodes_path);
    assert(Seq::<JsonView>::empty() + nodes =~= nodes);
    walk_goes_on_behind_the_page(
        PagerView::start(options, default_page_size),
        response,
        nodes_path,
        page_info_path,
        base,
        info,
        cursor,
    );
    let step = StreamView::start(options, default_page_size).absorb(
        response,
        nodes_path,
        page_info_path,
    );
    if step.next is Some {
        let next = step.next->0;
        paging_variables(
            true,
            batch_size(next.cap, next.total, next.page_size),
            next.cursor,
            base,
        );
    }
}

/// A stream ends with a page that no other follows, after handing on its nodes.
pub proof fn stream_ends_with_the_last_page(
    stream: StreamView,
    response: JsonView,
    nodes_path: Seq<Seq<char>>,
    page_info_path: Seq<Seq<char>>,
)
    requires
        stream.cap is None,
        match json_path::at_path(response, page_info_path) {
            Some(info) => info.at("hasNextPage"@) != JsonView::Bool(true) || !(info.at(
                "endCursor"@,
            ) is Text),
            None => true,
        },
    ensures
        ({
            let step = stream.absorb(response, nodes_path, page_info_path);
            let nodes = json_path::nodes_at(response, nodes_path);
            &&& step.next is None
            &&& step.total == stream.total + nodes.len()
            &&& nodes.len() > 0 ==> step.batch == Some(nodes)
        }),
{
}

/// Later requests of a walk ask for no more than are still wanted.
pub proof fn later_requests_ask_for_the_rest(pager: PagerView, stream: StreamView, base: JsonView)
    requires
        base.get("first"@) is None,
        base.get("last"@) is None,
        pager.page_size >= 1,
        stream.page_size >= 1,
    ensures
        ({
            let asked = pager.variables(base).at(
                if pager.forward {
                    "first"@
                } else {
                    "last"@
                },
            ).as_u64();
            &&& asked is Some
            &&& 1 <= asked->0 <= pager.page_size
            &&& pager.cap is None ==> asked->0 == pager.page_size
            &&& pager.cap matches Some(cap) ==> pager.items.len() < cap ==> asked->0 <= cap
                - pager.items.len() && (asked->0 == pager.page_size || asked->0 == cap
                - pager.items.len())
        }),
        ({
            let asked = stream.variables(base).at("first"@).as_u64();
            &&& asked is Some
            &&& 1 <= asked->0 <= stream.page_size
            &&& stream.cap is None ==> asked->0 == stream.page_size
            &&& stream.cap matches Some(cap) ==> stream.total < cap ==> asked->0 <= cap
                - stream.total && (asked->0 == stream.page_size || asked->0 == cap - stream.total)
        }),
{
    paging_variables(
        pager.forward,
        batch_size(pager.cap, pager.items.len(), pager.page_size),
        pager.cursor,
        base,
    );
    paging_variables(
        true,
        batch_size(stream.cap, stream.total, stream.page_size),
        stream.cursor,
        base,
    );
}

/// A default only bounds a request that has no bound; the cursors and the page size ride
/// along.
pub proof fn defaults_keep_cursors_and_page_size(options: PaginationOptionsView, limit: usize)
    ensures
        ({
            let limited = options.with_default_limit(limit);
            let whole = options.with_default_all();
            &&& limited.after == options.after && whole.after == options.after
            &&& limited.before == options.before && whole.before == options.before
            &&& limited.page_size == options.page_size && whole.page_size == options.page_size
            &&& limited.all == options.all
            &&& whole.limit == options.limit
            &&& options.limit is Some ==> limited.limit == options.limit && whole.all
                == options.all
            &&& options.all ==> limited.limit == options.limit && whole.all
            &&& options.limit is None && !options.all ==> limited.limit == Some(limit) && whole.all
        }),
{
}

/// A page holds as many items as was asked for, else the default number, and at least one.
pub proof fn page_size_is_the_given_one(options: PaginationOptionsView, default_page_size: usize)
    ensures
        options.effective_page_size(default_page_size) >= 1,
        options.page_size matches Some(size) ==> size >= 1 ==> options.effective_page_size(
            default_page_size,
        ) == size,
        options.page_size is None && default_page_size >= 1 ==> options.effective_page_size(
            default_page_size,
        ) == default_page_size,
        options.page_size == Some(0usize) ==> options.effective_page_size(default_page_size) == 1,
{
}

} // verus!
