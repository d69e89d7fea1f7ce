//! The decisions of the paginated fetch: which page to ask for next, and
//! how each answer extends the ordered rows. The caller performs each
//! request and hands back what came of it.
use vstd::prelude::*;
use crate::model::{
    reply_count_of,     copy_opt_text, opt_text, push_reply_rows, records_view, reply_items, reply_parent, reply_records,
    thread_items, thread_reply_parent, thread_top_record, top_record, CommentRecord, RecordView,
    ReplyPage, ThreadItem, ThreadPage,
};

verus! {

/// Why a fetch stopped without finishing.
pub enum FetchError {
    /// The API answered with a status outside 2xx, and this body.
    Status { code: u16, body: String },
    /// The request could not be sent, or its answer could not be decoded.
    Transport { message: String },
}

/// What the caller is to do next.
pub enum Request {
    /// Fetch a page of threads, from the start or from a cursor.
    Threads { cursor: Option<String> },
    /// Fetch a page of replies to `parent_id`, from the start or from a cursor.
    Replies { parent_id: String, cursor: Option<String> },
    /// Every page has been read.
    Done,
    /// The fetch failed; nothing more is to be asked.
    Failed { error: FetchError },
}

pub ghost enum RequestView {
    Threads { cursor: Option<Seq<char>> },
    Replies { parent_id: Seq<char>, cursor: Option<Seq<char>> },
    Done,
    Failed { error: FetchError },
}

impl View for Request {
    type V = RequestView;

    open spec fn view(&self) -> RequestView {
        match self {
            Request::Threads { cursor } => RequestView::Threads { cursor: opt_text(*cursor) },
            Request::Replies { parent_id, cursor } => RequestView::Replies {
                parent_id: parent_id@,
                cursor: opt_text(*cursor),
            },
            Request::Done => RequestView::Done,
            Request::Failed { error } => RequestView::Failed { error: *error },
        }
    }
}

/// The state of a fetch of every comment of one video.
pub struct Fetcher {
    video_id: String,
    rows: Vec<CommentRecord>,
    items: Vec<ThreadItem>,
    next_item: usize,
    thread_cursor: Option<String>,
    request: Request,
}

pub ghost struct FetchView {
    /// The video whose comments are fetched.
    pub video: Seq<char>,
    /// The rows so far, in output order.
    pub rows: Seq<RecordView>,
    /// The items of the thread page being worked through.
    pub items: Seq<ThreadItem>,
    /// The first of `items` not yet handled.
    pub next_item: int,
    /// The cursor of the thread page after the current one.
    pub thread_cursor: Option<Seq<char>>,
    /// What is to be done next.
    pub request: RequestView,
}

impl View for Fetcher {
    type V = FetchView;

    closed spec fn view(&self) -> FetchView {
        FetchView {
            video: self.video_id@,
            rows: records_view(self.rows@),
            items: self.items@,
            next_item: self.next_item as int,
            thread_cursor: opt_text(self.thread_cursor),
            request: self.request@,
        }
    }
}

/// The state in which a fetch of `video` starts: ask for the first thread page.
pub open spec fn initial(video: Seq<char>) -> FetchView {
    FetchView {
        video,
        rows: Seq::empty(),
        items: Seq::empty(),
        next_item: 0,
        thread_cursor: None,
        request: RequestView::Threads { cursor: None },
    }
}

/// Works through the rest of the current thread page: each item adds its
/// top-level row, and the first that reports replies stops here to ask for
/// them. At the end of the page, ask for the next one or finish.
pub open spec fn advance(s: FetchView) -> FetchView
    decreases s.items.len() - s.next_item,
{
    if s.next_item < 0 || s.next_item >= s.items.len() {
        FetchView {
            request: match s.thread_cursor {
                Some(c) => RequestView::Threads { cursor: Some(c) },
                None => RequestView::Done,
            },
            ..s
        }
    } else {
        let item = s.items[s.next_item];
        let rows = match thread_top_record(item, s.video) {
            Some(r) => s.rows.push(r),
            None => s.rows,
        };
        let s2 = FetchView { rows, next_item: s.next_item + 1, ..s };
        match thread_reply_parent(item) {
            Some(p) => FetchView { request: RequestView::Replies { parent_id: p, cursor: None }, ..s2 },
            None => advance(s2),
        }
    }
}

/// The state after a page of threads arrives.
pub open spec fn after_thread_page(s: FetchView, page: ThreadPage) -> FetchView {
    advance(
        FetchView {
            items: thread_items(page),
            next_item: 0,
            thread_cursor: opt_text(page.next_page_token),
            ..s
        },
    )
}

/// The state after a page of replies arrives: its rows follow those so far;
/// then ask for the next page of replies, or go on with the thread page.
pub open spec fn after_reply_page(s: FetchView, page: ReplyPage) -> FetchView {
    let parent = s.request->Replies_parent_id;
    let s2 = FetchView { rows: s.rows + reply_records(reply_items(page), parent, s.video), ..s };
    match opt_text(page.next_page_token) {
        Some(c) => FetchView { request: RequestView::Replies { parent_id: parent, cursor: Some(c) }, ..s2 },
        None => advance(s2),
    }
}

/// The state after a request failed: the fetch ends with that error.
pub open spec fn after_failure(s: FetchView, error: FetchError) -> FetchView {
    FetchView { request: RequestView::Failed { error }, ..s }
}

/// What a fetch hands out: its rows once done, its error once failed, and
/// nothing before either.
pub open spec fn outcome(s: FetchView) -> Option<Result<Seq<RecordView>, FetchError>> {
    match s.request {
        RequestView::Done => Some(Ok(s.rows)),
        RequestView::Failed { error } => Some(Err(error)),
        _ => None,
    }
}

/// The number of items asked for in each page request, the most the API allows.
pub open spec fn spec_page_size() -> u32 {
    100
}

/// The number of items asked for in each page request.
pub fn page_size() -> (r: u32)
    ensures
        r == spec_page_size(),
{
    100
}

pub open spec fn well_formed(s: FetchView) -> bool {
    0 <= s.next_item <= s.items.len()
}

impl Fetcher {
    pub closed spec fn inv(&self) -> bool {
        well_formed(self@)
    }

    /// Starts a fetch of every comment of `video_id`.
    pub fn new(video_id: String) -> (r: Fetcher)
        ensures
            r@ == initial(video_id@),
            r.inv(),
    {
        let r = Fetcher {
            video_id,
            rows: Vec::new(),
            items: Vec::new(),
            next_item: 0,
            thread_cursor: None,
            request: Request::Threads { cursor: None },
        };
        assert(records_view(r.rows@) =~= Seq::empty());
        r
    }

    /// What the caller is to do next.
    pub fn next_request(&self) -> (r: &Request)
        ensures
            r@ == self@.request,
    {
        &self.request
    }

    /// The video whose comments are fetched.
    pub fn video_id(&self) -> (r: &String)
        ensures
            r@ == self@.video,
    {
        &self.video_id
    }

    /// The rows gathered so far.
    pub fn rows(&self) -> (r: &Vec<CommentRecord>)
        ensures
            records_view(r@) == self@.rows,
    {
        &self.rows
    }

    fn advance(&mut self)
        requires
            old(self).inv(),
        ensures
            final(self).inv(),
            final(self)@ == advance(old(self)@),
    {
        while self.next_item < self.items.len()
            invariant
                self.inv(),
                advance(self@) == advance(old(self)@),
            decreases self.items@.len() - self.next_item,
        {
            let i = self.next_item;
            let ghost s = self@;
            let top = top_record(&self.items[i], &self.video_id);
            let parent = reply_parent(&self.items[i]);
            match top {
                Some(rec) => {
                    let ghost before = self.rows@;
                    self.rows.push(rec);
                    assert(records_view(self.rows@) =~= records_view(before).push(rec@));
                },
                None => {},
            }
            self.next_item = i + 1;
            match parent {
                Some(p) => {
                    self.request = Request::Replies { parent_id: p, cursor: None };
                    return;
                },
                None => {},
            }
            assert(self@ == FetchView { rows: self@.rows, next_item: s.next_item + 1, ..s });
        }
        let cursor = copy_opt_text(&self.thread_cursor);
        match cursor {
            Some(c) => {
                self.request = Request::Threads { cursor: Some(c) };
            },
            None => {
                self.request = Request::Done;
            },
        }
    }

    /// Takes in the page of threads that was asked for.
    pub fn feed_thread_page(&mut self, page: ThreadPage)
        requires
            old(self).inv(),
            old(self)@.request is Threads,
        ensures
            final(self).inv(),
            final(self)@ == after_thread_page(old(self)@, page),
    {
        let ghost p = page;
        let ThreadPage { items, next_page_token } = page;
        self.items = match items {
            Some(v) => v,
            None => Vec::new(),
        };
        assert(self.items@ == thread_items(p));
        self.next_item = 0;
        self.thread_cursor = next_page_token;
        self.advance();
    }

    /// Takes in the page of replies that was asked for.
    pub fn feed_reply_page(&mut self, page: ReplyPage)
        requires
            old(self).inv(),
            old(self)@.request is Replies,
        ensures
            final(self).inv(),
            final(self)@ == after_reply_page(old(self)@, page),
    {
        let parent = match &self.request {
            Request::Replies { parent_id, .. } => parent_id.clone(),
            _ => String::new(),
        };
        push_reply_rows(&mut self.rows, &page, &parent, &self.video_id);
        match page.next_page_token {
            Some(c) => {
                self.request = Request::Replies { parent_id: parent, cursor: Some(c) };
            },
            None => {
                self.advance();
            },
        }
    }

    /// Records that the pending request failed; the fetch ends there.
    pub fn feed_failure(&mut self, error: FetchError)
        requires
            old(self).inv(),
        ensures
            final(self).inv(),
            final(self)@ == after_failure(old(self)@, error),
    {
        self.request = Request::Failed { error };
    }

    /// The outcome of the fetch: every row once it is done, its error once it
    /// failed. Before either, `None`.
    pub fn finish(self) -> (r: Option<Result<Vec<CommentRecord>, FetchError>>)
        ensures
            match r {
                Some(Ok(rows)) => outcome(self@) == Some(Ok::<Seq<RecordView>, FetchError>(records_view(rows@))),
                Some(Err(e)) => outcome(self@) == Some(Err::<Seq<RecordView>, FetchError>(e)),
                None => outcome(self@) is None,
            },
    {
        match self.request {
            Request::Done => Some(Ok(self.rows)),
            Request::Failed { error } => Some(Err(error)),
            _ => None,
        }
    }
}

/// The state after a run of reply pages arrives, one after the other.
pub open spec fn after_reply_pages(s: FetchView, pages: Seq<ReplyPage>) -> FetchView
    decreases pages.len(),
{
    if pages.len() == 0 {
        s
    } else {
        after_reply_page(after_reply_pages(s, pages.drop_last()), pages.last())
    }
}

/// The rows of a run of reply pages, page after page.
pub open spec fn reply_rows_of_pages(pages: Seq<ReplyPage>, parent: Seq<char>, video: Seq<char>) -> Seq<RecordView>
    decreases pages.len(),
{
    if pages.len() == 0 {
        Seq::empty()
    } else {
        reply_rows_of_pages(pages.drop_last(), parent, video) + reply_records(reply_items(pages.last()), parent, video)
    }
}

/// A thread item that has details and a top-level comment, but no comment ID.
pub open spec fn lacks_id(item: ThreadItem) -> bool {
    match item.snippet {
        Some(ts) => match ts.top_level_comment {
            Some(t) => match t.id {
                Some(id) => id@.len() == 0,
                None => true,
            },
            None => false,
        },
        None => false,
    }
}

/// A thread item without details, or without a top-level comment.
pub open spec fn lacks_comment(item: ThreadItem) -> bool {
    match item.snippet {
        Some(ts) => ts.top_level_comment is None,
        None => true,
    }
}

proof fn lemma_advance_ignores_request(s: FetchView, r: RequestView)
    ensures
        advance(FetchView { request: r, ..s }) == advance(s),
    decreases s.items.len() - s.next_item,
{
    if 0 <= s.next_item < s.items.len() {
        let item = s.items[s.next_item];
        let rows = match thread_top_record(item, s.video) {
            Some(x) => s.rows.push(x),
            None => s.rows,
        };
        let s2 = FetchView { rows, next_item: s.next_item + 1, ..s };
        lemma_advance_ignores_request(s2, r);
    }
}

proof fn lemma_reply_prefix(s: FetchView, parent: Seq<char>, pages: Seq<ReplyPage>, k: int)
    requires
        s.request == (RequestView::Replies { parent_id: parent, cursor: None }),
        0 <= k < pages.len(),
        forall|i: int| 0 <= i < pages.len() - 1 ==> (#[trigger] pages[i]).next_page_token is Some,
    ensures
        after_reply_pages(s, pages.take(k)) == (FetchView {
            rows: s.rows + reply_rows_of_pages(pages.take(k), parent, s.video),
            request: if k == 0 {
                s.request
            } else {
                RequestView::Replies { parent_id: parent, cursor: opt_text(pages[k - 1].next_page_token) }
            },
            ..s
        }),
    decreases k,
{
    if k == 0 {
        assert(pages.take(0) =~= Seq::<ReplyPage>::empty());
        assert(s.rows + Seq::empty() =~= s.rows);
    } else {
        lemma_reply_prefix(s, parent, pages, k - 1);
        assert(pages.take(k).drop_last() =~= pages.take(k - 1));
        assert(pages.take(k).last() == pages[k - 1]);
        let prev = reply_rows_of_pages(pages.take(k - 1), parent, s.video);
        let last = reply_records(reply_items(pages[k - 1]), parent, s.video);
        assert(s.rows + prev + last =~= s.rows + (prev + last));
    }
}

/// Pagination ends: of a run of reply pages in which every page but the last
/// carries a cursor, each page but the last leads to one more request for
/// the same parent, and after the last the rows of every page follow the
/// earlier rows, in page order, and the thread page is taken up again.
/// With no thread item left and no further thread page, the fetch is done.
pub proof fn lemma_reply_pagination_ends(s: FetchView, parent: Seq<char>, pages: Seq<ReplyPage>)
    requires
        s.request == (RequestView::Replies { parent_id: parent, cursor: None }),
        pages.len() >= 1,
        forall|i: int| 0 <= i < pages.len() - 1 ==> (#[trigger] pages[i]).next_page_token is Some,
        pages.last().next_page_token is None,
    ensures
        forall|k: int|
            1 <= k < pages.len() ==> (#[trigger] after_reply_pages(s, pages.take(k))).request == (RequestView::Replies {
                parent_id: parent,
                cursor: opt_text(pages[k - 1].next_page_token),
            }),
        after_reply_pages(s, pages) == advance(FetchView { rows: s.rows + reply_rows_of_pages(pages, parent, s.video), ..s }),
        s.next_item >= s.items.len() && s.thread_cursor is None ==> after_reply_pages(s, pages).request == RequestView::Done,
{
    assert forall|k: int| 1 <= k < pages.len() implies (#[trigger] after_reply_pages(s, pages.take(k))).request == (RequestView::Replies {
        parent_id: parent,
        cursor: opt_text(pages[k - 1].next_page_token),
    }) by {
        lemma_reply_prefix(s, parent, pages, k);
    }
    let n = pages.len() - 1;
    lemma_reply_prefix(s, parent, pages, n);
    assert(pages.drop_last() =~= pages.take(n));
    let pre = after_reply_pages(s, pages.take(n));
    let all = s.rows + reply_rows_of_pages(pages, parent, s.video);
    assert(pre.request->Replies_parent_id == parent);
    assert(pre.rows + reply_records(reply_items(pages.last()), parent, s.video) =~= all);
    let s2 = FetchView { rows: all, ..pre };
    assert(after_reply_pages(s, pages) == advance(s2));
    lemma_advance_ignores_request(FetchView { rows: all, ..s }, pre.request);
    assert(s2 == FetchView { request: pre.request, ..FetchView { rows: all, ..s } });
}

/// A thread item whose top-level comment has no ID adds no top-level row,
/// yet where it reports replies they are still asked for, under the ID it
/// has (empty where it has none).
pub proof fn lemma_idless_thread_still_fetches_replies(s: FetchView, page: ThreadPage)
    requires
        thread_items(page).len() > 0,
        lacks_id(thread_items(page)[0]),
        reply_count_of(thread_items(page)[0].snippet->Some_0) > 0,
    ensures
        after_thread_page(s, page).rows == s.rows,
        after_thread_page(s, page).request == (RequestView::Replies {
            parent_id: thread_reply_parent(thread_items(page)[0])->Some_0,
            cursor: None,
        }),
{
}

/// A failed request ends the fetch with its error, on whichever page it
/// comes: no further request is asked for, and the outcome is that error, so
/// none of the rows gathered so far is handed out.
pub proof fn lemma_failure_ends_fetch(s: FetchView, error: FetchError)
    ensures
        after_failure(s, error).request == (RequestView::Failed { error }),
        !(after_failure(s, error).request is Threads),
        !(after_failure(s, error).request is Replies),
        outcome(after_failure(s, error)) == Some(Err::<Seq<RecordView>, FetchError>(error)),
{
}

/// A thread item without details or without a top-level comment is skipped:
/// it adds no row and asks for no replies, and the page goes on with the
/// next item.
pub proof fn lemma_commentless_thread_is_skipped(s: FetchView)
    requires
        0 <= s.next_item < s.items.len(),
        lacks_comment(s.items[s.next_item]),
    ensures
        advance(s) == advance(FetchView { next_item: s.next_item + 1, ..s }),
{
}

/// The top-level rows of a run of thread items, in order.
pub open spec fn top_rows(items: Seq<ThreadItem>, video: Seq<char>) -> Seq<RecordView>
    decreases items.len(),
{
    if items.len() == 0 {
        Seq::empty()
    } else {
        match thread_top_record(items[0], video) {
            Some(r) => seq![r] + top_rows(items.drop_first(), video),
            None => top_rows(items.drop_first(), video),
        }
    }
}

/// The state after a run of thread pages arrives, one after the other.
pub open spec fn after_thread_pages(s: FetchView, pages: Seq<ThreadPage>) -> FetchView
    decreases pages.len(),
{
    if pages.len() == 0 {
        s
    } else {
        after_thread_page(after_thread_pages(s, pages.drop_last()), pages.last())
    }
}

/// The top-level rows of a run of thread pages, page after page.
pub open spec fn top_rows_of_pages(pages: Seq<ThreadPage>, video: Seq<char>) -> Seq<RecordView>
    decreases pages.len(),
{
    if pages.len() == 0 {
        Seq::empty()
    } else {
        top_rows_of_pages(pages.drop_last(), video) + top_rows(thread_items(pages.last()), video)
    }
}

/// No item of any of the pages reports replies.
pub open spec fn no_replies(pages: Seq<ThreadPage>) -> bool {
    forall|i: int, j: int|
        0 <= i < pages.len() && 0 <= j < thread_items(pages[i]).len() ==> thread_reply_parent(
            #[trigger] thread_items(pages[i])[j],
        ) is None
}

proof fn lemma_advance_without_replies(s: FetchView)
    requires
        0 <= s.next_item <= s.items.len(),
        forall|j: int| s.next_item <= j < s.items.len() ==> thread_reply_parent(#[trigger] s.items[j]) is None,
    ensures
        advance(s).rows == s.rows + top_rows(s.items.subrange(s.next_item, s.items.len() as int), s.video),
        advance(s).request == match s.thread_cursor {
            Some(c) => RequestView::Threads { cursor: Some(c) },
            None => RequestView::Done,
        },
        advance(s).video == s.video,
    decreases s.items.len() - s.next_item,
{
    let rest = s.items.subrange(s.next_item, s.items.len() as int);
    if s.next_item == s.items.len() {
        assert(rest =~= Seq::<ThreadItem>::empty());
        assert(s.rows + Seq::empty() =~= s.rows);
    } else {
        let item = s.items[s.next_item];
        let rows = match thread_top_record(item, s.video) {
            Some(r) => s.rows.push(r),
            None => s.rows,
        };
        let s2 = FetchView { rows, next_item: s.next_item + 1, ..s };
        lemma_advance_without_replies(s2);
        assert(rest.drop_first() =~= s.items.subrange(s.next_item + 1, s.items.len() as int));
        assert(rest[0] == item);
        let tail = top_rows(rest.drop_first(), s.video);
        match thread_top_record(item, s.video) {
            Some(r) => {
                assert(s.rows.push(r) + tail =~= s.rows + (seq![r] + tail));
            },
            None => {},
        }
    }
}

proof fn lemma_thread_prefix(s: FetchView, pages: Seq<ThreadPage>, k: int)
    requires
        s.request == (RequestView::Threads { cursor: None }),
        0 <= k < pages.len(),
        forall|i: int| 0 <= i < pages.len() - 1 ==> (#[trigger] pages[i]).next_page_token is Some,
        no_replies(pages),
    ensures
        after_thread_pages(s, pages.take(k)).rows == s.rows + top_rows_of_pages(pages.take(k), s.video),
        after_thread_pages(s, pages.take(k)).video == s.video,
        after_thread_pages(s, pages.take(k)).request == if k == 0 {
            s.request
        } else {
            RequestView::Threads { cursor: opt_text(pages[k - 1].next_page_token) }
        },
    decreases k,
{
    if k == 0 {
        assert(pages.take(0) =~= Seq::<ThreadPage>::empty());
        assert(s.rows + Seq::empty() =~= s.rows);
    } else {
        lemma_thread_prefix(s, pages, k - 1);
        lemma_thread_page_without_replies(after_thread_pages(s, pages.take(k - 1)), pages, k - 1);
        assert(pages.take(k).drop_last() =~= pages.take(k - 1));
        assert(pages.take(k).last() == pages[k - 1]);
        let prev = top_rows_of_pages(pages.take(k - 1), s.video);
        let last = top_rows(thread_items(pages[k - 1]), s.video);
        assert(s.rows + prev + last =~= s.rows + (prev + last));
    }
}

proof fn lemma_thread_page_without_replies(t: FetchView, pages: Seq<ThreadPage>, i: int)
    requires
        0 <= i < pages.len(),
        no_replies(pages),
    ensures
        after_thread_page(t, pages[i]).rows == t.rows + top_rows(thread_items(pages[i]), t.video),
        after_thread_page(t, pages[i]).video == t.video,
        after_thread_page(t, pages[i]).request == match opt_text(pages[i].next_page_token) {
            Some(c) => RequestView::Threads { cursor: Some(c) },
            None => RequestView::Done,
        },
{
    let items = thread_items(pages[i]);
    let t2 = FetchView { items, next_item: 0, thread_cursor: opt_text(pages[i].next_page_token), ..t };
    assert forall|j: int| t2.next_item <= j < t2.items.len() implies thread_reply_parent(#[trigger] t2.items[j]) is None by {
        assert(thread_reply_parent(thread_items(pages[i])[j]) is None);
    }
    lemma_advance_without_replies(t2);
    assert(items.subrange(0, items.len() as int) =~= items);
}

/// Pagination ends: of a run of thread pages in which every page but the
/// last carries a cursor and no item reports replies, each page but the
/// last leads to one more request, from its cursor; after the last the fetch
/// is done, with the top-level rows of every page in page order.
pub proof fn lemma_thread_pagination_ends(s: FetchView, pages: Seq<ThreadPage>)
    requires
        s.request == (RequestView::Threads { cursor: None }),
        pages.len() >= 1,
        forall|i: int| 0 <= i < pages.len() - 1 ==> (#[trigger] pages[i]).next_page_token is Some,
        pages.last().next_page_token is None,
        no_replies(pages),
    ensures
        forall|k: int|
            1 <= k < pages.len() ==> (#[trigger] after_thread_pages(s, pages.take(k))).request == (RequestView::Threads {
                cursor: opt_text(pages[k - 1].next_page_token),
            }),
        after_thread_pages(s, pages).request == RequestView::Done,
        after_thread_pages(s, pages).rows == s.rows + top_rows_of_pages(pages, s.video),
{
    assert forall|k: int| 1 <= k < pages.len() implies (#[trigger] after_thread_pages(s, pages.take(k))).request == (RequestView::Threads {
        cursor: opt_text(pages[k - 1].next_page_token),
    }) by {
        lemma_thread_prefix(s, pages, k);
    }
    let n = pages.len() - 1;
    lemma_thread_prefix(s, pages, n);
    assert(pages.drop_last() =~= pages.take(n));
    let pre = after_thread_pages(s, pages.take(n));
    lemma_thread_page_without_replies(pre, pages, n);
    let prev = top_rows_of_pages(pages.take(n), s.video);
    let last = top_rows(thread_items(pages[n]), s.video);
    assert(s.rows + prev + last =~= s.rows + (prev + last));
}

} // verus!
