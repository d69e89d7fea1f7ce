use youtube_comment_scraper::fetch::Request;
use youtube_comment_scraper::scrape::{default_out_path_for, plan_scrape, ScrapeError, ScrapePlan};

/// Runs a plan to its end against a transport that only counts requests.
fn run_counting(plan: Result<ScrapePlan, ScrapeError>, calls: &mut usize) -> Result<usize, ScrapeError> {
    let mut plan = plan?;
    loop {
        match plan.fetcher.next_request() {
            Request::Threads { .. } => {
                *calls += 1;
                plan.fetcher.feed_thread_page(youtube_comment_scraper::model::ThreadPage {
                    items: None,
                    next_page_token: None,
                });
            }
            _ => return Ok(plan.fetcher.rows().len()),
        }
    }
}

#[test]
fn blank_api_key_is_refused_before_any_request() {
    for key in ["", "   ", "\t\n"] {
        let mut calls = 0;
        let r = run_counting(plan_scrape(key, "abc123DEF_-", None), &mut calls);
        assert!(matches!(r, Err(ScrapeError::MissingApiKey)));
        assert_eq!(calls, 0);
    }
}

#[test]
fn unresolved_video_is_refused_before_any_request() {
    let mut calls = 0;
    let r = run_counting(plan_scrape("key", "a", None), &mut calls);
    assert!(matches!(r, Err(ScrapeError::UnresolvedVideo)));
    assert_eq!(calls, 0);
}

#[test]
fn valid_plan_fetches() {
    let mut calls = 0;
    let r = run_counting(plan_scrape("key", "https://youtu.be/abc123DEF_-", None), &mut calls);
    assert!(matches!(r, Ok(0)));
    assert_eq!(calls, 1);
}

#[test]
fn default_and_given_out_path() {
    let p = plan_scrape("key", " abc123DEF_- ", None).ok().unwrap();
    assert_eq!(p.video_id, "abc123DEF_-");
    assert_eq!(p.out_path, "abc123DEF_-.csv");
    let p = plan_scrape("key", "abc123DEF_-", Some("out/x.csv".to_string())).ok().unwrap();
    assert_eq!(p.out_path, "out/x.csv");
    assert_eq!(default_out_path_for("zz"), "zz.csv");
}
