use youtube_comment_scraper::fetch::{FetchError, Fetcher, Request};
use youtube_comment_scraper::model::{
    AuthorChannelId, CommentRecord, CommentSnippet, ReplyItem, ReplyPage, ThreadItem, ThreadPage, ThreadSnippet,
    TopLevelComment,
};

fn snippet(text: &str) -> CommentSnippet {
    CommentSnippet {
        author_display_name: Some(format!("author of {}", text)),
        author_channel_id: Some(AuthorChannelId { value: Some("UC1".to_string()) }),
        published_at: Some("2024-01-01T00:00:00Z".to_string()),
        like_count: Some(3),
        text_display: Some(text.to_string()),
    }
}

fn thread(id: Option<&str>, replies: i64) -> ThreadItem {
    ThreadItem {
        snippet: Some(ThreadSnippet {
            top_level_comment: Some(TopLevelComment { id: id.map(|s| s.to_string()), snippet: Some(snippet("top")) }),
            total_reply_count: Some(replies),
        }),
    }
}

fn reply(id: &str) -> ReplyItem {
    ReplyItem { id: Some(id.to_string()), snippet: Some(snippet(id)) }
}

fn ids(rows: &[CommentRecord]) -> Vec<(String, String)> {
    rows.iter().map(|r| (r.comment_id.clone(), r.parent_id.clone())).collect()
}

fn done_rows(f: Fetcher) -> Vec<CommentRecord> {
    match f.finish() {
        Some(Ok(rows)) => rows,
        _ => panic!("fetch not done"),
    }
}

#[test]
fn replies_follow_their_thread() {
    let mut f = Fetcher::new("vid123".to_string());
    assert!(matches!(f.next_request(), Request::Threads { cursor: None }));
    f.feed_thread_page(ThreadPage {
        items: Some(vec![thread(Some("t1"), 2), thread(Some("t2"), 0)]),
        next_page_token: None,
    });
    match f.next_request() {
        Request::Replies { parent_id, cursor: None } => assert_eq!(parent_id, "t1"),
        _ => panic!("expected a request for replies"),
    }
    f.feed_reply_page(ReplyPage { items: Some(vec![reply("r1a"), reply("r1b")]), next_page_token: None });
    assert!(matches!(f.next_request(), Request::Done));
    let rows = done_rows(f);
    let s = |a: &str, b: &str| (a.to_string(), b.to_string());
    assert_eq!(ids(&rows), vec![s("t1", ""), s("r1a", "t1"), s("r1b", "t1"), s("t2", "")]);
    assert!(rows.iter().all(|r| r.video_id == "vid123"));
}

#[test]
fn thread_pages_are_followed_to_the_last() {
    let mut f = Fetcher::new("vid123".to_string());
    let mut requests = 0;
    let pages = vec![
        (vec![thread(Some("a"), 0)], Some("p2")),
        (vec![thread(Some("b"), 0), thread(Some("c"), 0)], Some("p3")),
        (vec![thread(Some("d"), 0)], None),
    ];
    let mut pages = pages.into_iter();
    loop {
        match f.next_request() {
            Request::Threads { cursor } => {
                requests += 1;
                let (items, next) = pages.next().expect("too many requests");
                if requests > 1 {
                    assert!(cursor.is_some());
                }
                f.feed_thread_page(ThreadPage { items: Some(items), next_page_token: next.map(|s| s.to_string()) });
            }
            Request::Done => break,
            _ => panic!("unexpected request"),
        }
    }
    assert_eq!(requests, 3);
    let rows = done_rows(f);
    let got: Vec<String> = rows.iter().map(|r| r.comment_id.clone()).collect();
    assert_eq!(got, vec!["a", "b", "c", "d"]);
}

#[test]
fn reply_pages_are_followed_to_the_last() {
    let mut f = Fetcher::new("v".to_string());
    f.feed_thread_page(ThreadPage { items: Some(vec![thread(Some("t"), 5)]), next_page_token: None });
    let mut requests = 0;
    let mut cursors = Vec::new();
    while let Request::Replies { cursor, .. } = f.next_request() {
        cursors.push(cursor.clone());
        requests += 1;
        let next = if requests < 3 { Some(format!("c{}", requests)) } else { None };
        f.feed_reply_page(ReplyPage { items: Some(vec![reply(&format!("r{}", requests))]), next_page_token: next });
    }
    assert_eq!(requests, 3);
    assert_eq!(cursors, vec![None, Some("c1".to_string()), Some("c2".to_string())]);
    let rows = done_rows(f);
    let got: Vec<String> = rows.iter().map(|r| r.comment_id.clone()).collect();
    assert_eq!(got, vec!["t", "r1", "r2", "r3"]);
}

#[test]
fn thread_without_id_still_fetches_replies() {
    let mut f = Fetcher::new("v".to_string());
    f.feed_thread_page(ThreadPage {
        items: Some(vec![thread(None, 1), thread(Some(""), 0), thread(Some("t2"), 0)]),
        next_page_token: None,
    });
    match f.next_request() {
        Request::Replies { parent_id, cursor: None } => assert_eq!(parent_id, ""),
        _ => panic!("expected a request for replies"),
    }
    assert!(f.rows().is_empty());
    f.feed_reply_page(ReplyPage { items: Some(vec![reply("orphan")]), next_page_token: None });
    let rows = done_rows(f);
    let s = |a: &str, b: &str| (a.to_string(), b.to_string());
    assert_eq!(ids(&rows), vec![s("orphan", ""), s("t2", "")]);
}

#[test]
fn items_without_details_are_skipped() {
    let mut f = Fetcher::new("v".to_string());
    f.feed_thread_page(ThreadPage {
        items: Some(vec![
            ThreadItem { snippet: None },
            ThreadItem {
                snippet: Some(ThreadSnippet {
                    top_level_comment: Some(TopLevelComment { id: Some("x".to_string()), snippet: None }),
                    total_reply_count: None,
                }),
            },
            thread(Some("t"), 1),
        ]),
        next_page_token: None,
    });
    f.feed_reply_page(ReplyPage {
        items: Some(vec![ReplyItem { id: Some("gone".to_string()), snippet: None }, ReplyItem { id: None, snippet: Some(snippet("anon")) }]),
        next_page_token: None,
    });
    let rows = done_rows(f);
    let s = |a: &str, b: &str| (a.to_string(), b.to_string());
    assert_eq!(ids(&rows), vec![s("t", ""), s("", "t")]);
}

#[test]
fn absent_fields_become_defaults() {
    let mut f = Fetcher::new("v".to_string());
    f.feed_thread_page(ThreadPage {
        items: Some(vec![ThreadItem {
            snippet: Some(ThreadSnippet {
                top_level_comment: Some(TopLevelComment {
                    id: Some("t".to_string()),
                    snippet: Some(CommentSnippet {
                        author_display_name: None,
                        author_channel_id: Some(AuthorChannelId { value: None }),
                        published_at: None,
                        like_count: None,
                        text_display: None,
                    }),
                }),
                total_reply_count: None,
            }),
        }]),
        next_page_token: None,
    });
    let rows = done_rows(f);
    assert_eq!(rows.len(), 1);
    let r = &rows[0];
    assert_eq!(r.author, "");
    assert_eq!(r.author_channel_id, "");
    assert_eq!(r.published_at, "");
    assert_eq!(r.like_count, 0);
    assert_eq!(r.text, "");
}

#[test]
fn projected_fields_are_kept() {
    let mut f = Fetcher::new("v".to_string());
    f.feed_thread_page(ThreadPage { items: Some(vec![thread(Some("t"), 0)]), next_page_token: None });
    let rows = done_rows(f);
    let r = &rows[0];
    assert_eq!(r.author, "author of top");
    assert_eq!(r.author_channel_id, "UC1");
    assert_eq!(r.published_at, "2024-01-01T00:00:00Z");
    assert_eq!(r.like_count, 3);
    assert_eq!(r.text, "top");
}

#[test]
fn failure_ends_the_fetch() {
    let mut f = Fetcher::new("v".to_string());
    f.feed_thread_page(ThreadPage { items: Some(vec![thread(Some("t"), 1)]), next_page_token: Some("n".to_string()) });
    f.feed_failure(FetchError::Status { code: 403, body: "quota".to_string() });
    assert!(matches!(f.next_request(), Request::Failed { .. }));
    match f.finish() {
        Some(Err(FetchError::Status { code, body })) => {
            assert_eq!(code, 403);
            assert_eq!(body, "quota");
        }
        _ => panic!("expected the status error"),
    }
}

#[test]
fn unfinished_fetch_has_no_outcome() {
    let f = Fetcher::new("v".to_string());
    assert!(f.finish().is_none());
}

#[test]
fn empty_page_finishes() {
    let mut f = Fetcher::new("v".to_string());
    f.feed_thread_page(ThreadPage { items: None, next_page_token: None });
    assert!(done_rows(f).is_empty());
}

#[test]
fn thread_without_top_level_comment_is_skipped() {
    let mut f = Fetcher::new("v".to_string());
    f.feed_thread_page(ThreadPage {
        items: Some(vec![
            ThreadItem { snippet: Some(ThreadSnippet { top_level_comment: None, total_reply_count: Some(2) }) },
            thread(Some("t2"), 0),
        ]),
        next_page_token: Some("next".to_string()),
    });
    match f.next_request() {
        Request::Threads { cursor: Some(c) } => assert_eq!(c, "next"),
        _ => panic!("expected the next thread page"),
    }
    f.feed_thread_page(ThreadPage { items: Some(vec![]), next_page_token: None });
    let rows = done_rows(f);
    let s = |a: &str, b: &str| (a.to_string(), b.to_string());
    assert_eq!(ids(&rows), vec![s("t2", "")]);
}

#[test]
fn page_size_is_the_api_maximum() {
    assert_eq!(youtube_comment_scraper::fetch::page_size(), 100);
}

