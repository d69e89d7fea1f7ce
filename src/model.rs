//! The decoded wire shape of the comment API's pages, the output record, and
//! the projection from one to the other.
use vstd::prelude::*;

verus! {

/// The channel reference of a comment's author.
pub struct AuthorChannelId {
    pub value: Option<String>,
}

/// The details of one comment, every field as the API sent it.
pub struct CommentSnippet {
    pub author_display_name: Option<String>,
    pub author_channel_id: Option<AuthorChannelId>,
    pub published_at: Option<String>,
    pub like_count: Option<i64>,
    pub text_display: Option<String>,
}

/// The comment that opens a thread.
pub struct TopLevelComment {
    pub id: Option<String>,
    pub snippet: Option<CommentSnippet>,
}

/// The details of one thread.
pub struct ThreadSnippet {
    pub top_level_comment: Option<TopLevelComment>,
    pub total_reply_count: Option<i64>,
}

/// One item of a page of threads.
pub struct ThreadItem {
    pub snippet: Option<ThreadSnippet>,
}

/// One page of threads, with the cursor of the next page if there is one.
pub struct ThreadPage {
    pub items: Option<Vec<ThreadItem>>,
    pub next_page_token: Option<String>,
}

/// One item of a page of replies.
pub struct ReplyItem {
    pub id: Option<String>,
    pub snippet: Option<CommentSnippet>,
}

/// One page of replies, with the cursor of the next page if there is one.
pub struct ReplyPage {
    pub items: Option<Vec<ReplyItem>>,
    pub next_page_token: Option<String>,
}

/// One output row: a top-level comment (empty `parent_id`) or a reply.
pub struct CommentRecord {
    pub comment_id: String,
    pub parent_id: String,
    pub video_id: String,
    pub author: String,
    pub author_channel_id: String,
    pub published_at: String,
    pub like_count: i64,
    pub text: String,
}

pub ghost struct RecordView {
    pub comment_id: Seq<char>,
    pub parent_id: Seq<char>,
    pub video_id: Seq<char>,
    pub author: Seq<char>,
    pub author_channel_id: Seq<char>,
    pub published_at: Seq<char>,
    pub like_count: int,
    pub text: Seq<char>,
}

impl View for CommentRecord {
    type V = RecordView;

    open spec fn view(&self) -> RecordView {
        RecordView {
            comment_id: self.comment_id@,
            parent_id: self.parent_id@,
            video_id: self.video_id@,
            author: self.author@,
            author_channel_id: self.author_channel_id@,
            published_at: self.published_at@,
            like_count: self.like_count as int,
            text: self.text@,
        }
    }
}

pub open spec fn records_view(v: Seq<CommentRecord>) -> Seq<RecordView> {
    v.map_values(|r: CommentRecord| r@)
}

/// An optional text, with absence read as the empty text.
pub open spec fn text_or_empty(o: Option<String>) -> Seq<char> {
    match o {
        Some(s) => s@,
        None => Seq::empty(),
    }
}

/// An optional text, as an optional character sequence.
pub open spec fn opt_text(o: Option<String>) -> Option<Seq<char>> {
    match o {
        Some(s) => Some(s@),
        None => None,
    }
}

pub open spec fn channel_of(c: Option<AuthorChannelId>) -> Seq<char> {
    match c {
        Some(a) => text_or_empty(a.value),
        None => Seq::empty(),
    }
}

/// The row for a comment's details, with absent texts empty and an absent
/// like count 0.
pub open spec fn record_of(s: CommentSnippet, id: Seq<char>, parent: Seq<char>, video: Seq<char>) -> RecordView {
    RecordView {
        comment_id: id,
        parent_id: parent,
        video_id: video,
        author: text_or_empty(s.author_display_name),
        author_channel_id: channel_of(s.author_channel_id),
        published_at: text_or_empty(s.published_at),
        like_count: match s.like_count {
            Some(n) => n as int,
            None => 0,
        },
        text: text_or_empty(s.text_display),
    }
}

/// The top-level row of a thread item: present where the item has details,
/// a top-level comment with a non-empty ID, and that comment's details.
pub open spec fn thread_top_record(item: ThreadItem, video: Seq<char>) -> Option<RecordView> {
    match item.snippet {
        Some(ts) => match ts.top_level_comment {
            Some(t) => match t.id {
                Some(id) => if id@.len() > 0 {
                    match t.snippet {
                        Some(cs) => Some(record_of(cs, id@, Seq::empty(), video)),
                        None => None,
                    }
                } else {
                    None
                },
                None => None,
            },
            None => None,
        },
        None => None,
    }
}

pub open spec fn reply_count_of(ts: ThreadSnippet) -> int {
    match ts.total_reply_count {
        Some(n) => n as int,
        None => 0,
    }
}

/// The parent whose replies a thread item asks for: where the item has a
/// top-level comment and reports a positive reply count, that comment's ID
/// (empty where the comment has none).
pub open spec fn thread_reply_parent(item: ThreadItem) -> Option<Seq<char>> {
    match item.snippet {
        Some(ts) => match ts.top_level_comment {
            Some(t) => if reply_count_of(ts) > 0 {
                Some(text_or_empty(t.id))
            } else {
                None
            },
            None => None,
        },
        None => None,
    }
}

/// The row of a reply item: present where the item has details.
pub open spec fn reply_record(item: ReplyItem, parent: Seq<char>, video: Seq<char>) -> Option<RecordView> {
    match item.snippet {
        Some(cs) => Some(record_of(cs, text_or_empty(item.id), parent, video)),
        None => None,
    }
}

/// The rows of a run of reply items, in order.
pub open spec fn reply_records(items: Seq<ReplyItem>, parent: Seq<char>, video: Seq<char>) -> Seq<RecordView>
    decreases items.len(),
{
    if items.len() == 0 {
        Seq::empty()
    } else {
        let prev = reply_records(items.drop_last(), parent, video);
        match reply_record(items.last(), parent, video) {
            Some(r) => prev.push(r),
            None => prev,
        }
    }
}

pub open spec fn thread_items(p: ThreadPage) -> Seq<ThreadItem> {
    match p.items {
        Some(v) => v@,
        None => Seq::empty(),
    }
}

pub open spec fn reply_items(p: ReplyPage) -> Seq<ReplyItem> {
    match p.items {
        Some(v) => v@,
        None => Seq::empty(),
    }
}

/// Copies an optional text, absence giving the empty text.
pub fn text_or_default(o: &Option<String>) -> (r: String)
    ensures
        r@ == text_or_empty(*o),
{
    match o {
        Some(s) => s.clone(),
        None => String::new(),
    }
}

/// Copies an optional text.
pub fn copy_opt_text(o: &Option<String>) -> (r: Option<String>)
    ensures
        opt_text(r) == opt_text(*o),
{
    match o {
        Some(s) => Some(s.clone()),
        None => None,
    }
}

/// Projects a comment's details onto a row.
pub fn project(s: &CommentSnippet, comment_id: String, parent_id: String, video_id: String) -> (r: CommentRecord)
    ensures
        r@ == record_of(*s, comment_id@, parent_id@, video_id@),
{
    let author_channel_id = match &s.author_channel_id {
        Some(a) => text_or_default(&a.value),
        None => String::new(),
    };
    CommentRecord {
        comment_id,
        parent_id,
        video_id,
        author: text_or_default(&s.author_display_name),
        author_channel_id,
        published_at: text_or_default(&s.published_at),
        like_count: match s.like_count {
            Some(n) => n,
            None => 0,
        },
        text: text_or_default(&s.text_display),
    }
}

/// The top-level row of a thread item, if it yields one.
pub fn top_record(item: &ThreadItem, video_id: &String) -> (r: Option<CommentRecord>)
    ensures
        match r {
            Some(rec) => thread_top_record(*item, video_id@) == Some(rec@),
            None => thread_top_record(*item, video_id@) is None,
        },
{
    let ts = match &item.snippet {
        Some(ts) => ts,
        None => return None,
    };
    let t = match &ts.top_level_comment {
        Some(t) => t,
        None => return None,
    };
    let id = match &t.id {
        Some(id) => id,
        None => return None,
    };
    if id.as_str().unicode_len() == 0 {
        return None;
    }
    match &t.snippet {
        Some(cs) => Some(project(cs, id.clone(), String::new(), video_id.clone())),
        None => None,
    }
}

/// The parent whose replies a thread item asks for, if any.
pub fn reply_parent(item: &ThreadItem) -> (r: Option<String>)
    ensures
        opt_text(r) == thread_reply_parent(*item),
{
    match &item.snippet {
        Some(ts) => {
            let count: i64 = match ts.total_reply_count {
                Some(n) => n,
                None => 0,
            };
            match &ts.top_level_comment {
                Some(t) => if count > 0 {
                    Some(text_or_default(&t.id))
                } else {
                    None
                },
                None => None,
            }
        },
        None => None,
    }
}

/// Appends the rows of a page of replies to `rows`, in page order.
pub fn push_reply_rows(rows: &mut Vec<CommentRecord>, page: &ReplyPage, parent_id: &String, video_id: &String)
    ensures
        records_view(final(rows)@) == records_view(old(rows)@) + reply_records(reply_items(*page), parent_id@, video_id@),
{
    let items = match &page.items {
        Some(v) => v,
        None => {
            assert(records_view(rows@) + Seq::empty() =~= records_view(rows@));
            return;
        },
    };
    let ghost start = records_view(rows@);
    let n = items.len();
    let mut i: usize = 0;
    assert(items@.subrange(0, 0) =~= Seq::<ReplyItem>::empty());
    assert(start + Seq::empty() =~= start);
    while i < n
        invariant
            n == items@.len(),
            i <= n,
            records_view(rows@) == start + reply_records(items@.subrange(0, i as int), parent_id@, video_id@),
        decreases n - i,
    {
        let item = &items[i];
        proof {
            assert(items@.subrange(0, i + 1).drop_last() =~= items@.subrange(0, i as int));
            assert(items@.subrange(0, i + 1).last() == items@[i as int]);
        }
        match &item.snippet {
            Some(cs) => {
                let rec = project(cs, text_or_default(&item.id), parent_id.clone(), video_id.clone());
                let ghost before = rows@;
                rows.push(rec);
                proof {
                    assert(records_view(rows@) =~= records_view(before).push(rec@));
                    assert((start + reply_records(items@.subrange(0, i as int), parent_id@, video_id@)).push(rec@)
                        =~= start + reply_records(items@.subrange(0, i as int), parent_id@, video_id@).push(rec@));
                }
            },
            None => {},
        }
        i = i + 1;
    }
    assert(items@.subrange(0, n as int) =~= items@);
}

} // verus!
