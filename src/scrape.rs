//! The entry of a run: checks the credential, resolves the video and picks
//! the output path before any request is made.
use vstd::prelude::*;
use crate::fetch::{initial, Fetcher};
use crate::resolve::{parse_video_id, resolved};
use crate::text::{trim, trim_text};

verus! {

/// Why a run could not start.
pub enum ScrapeError {
    /// The API credential is empty or white space only.
    MissingApiKey,
    /// The input names no video.
    UnresolvedVideo,
}

/// A run ready to fetch: the video, where its rows go, and the fetch itself.
pub struct ScrapePlan {
    pub video_id: String,
    pub out_path: String,
    pub fetcher: Fetcher,
}

/// The file name used when the caller names none: `<video id>.csv`.
pub open spec fn default_out_path(video: Seq<char>) -> Seq<char> {
    video + seq!['.', 'c', 's', 'v']
}

/// The file name used when the caller names none.
pub fn default_out_path_for(video_id: &str) -> (r: String)
    ensures
        r@ == default_out_path(video_id@),
{
    proof {
        reveal_strlit(".csv");
    }
    let r = String::from_str(video_id).concat(".csv");
    assert(r@ =~= default_out_path(video_id@));
    r
}

/// Checks the credential, resolves `video` and settles the output path.
/// A blank credential is refused before anything else, so no request can be
/// made with it.
pub fn plan_scrape(api_key: &str, video: &str, out: Option<String>) -> (r: Result<ScrapePlan, ScrapeError>)
    ensures
        (r == Err::<ScrapePlan, ScrapeError>(ScrapeError::MissingApiKey)) <==> trim(api_key@).len() == 0,
        (r == Err::<ScrapePlan, ScrapeError>(ScrapeError::UnresolvedVideo)) <==> (trim(api_key@).len() > 0
            && resolved(video@) is None),
        match r {
            Ok(plan) => {
                &&& resolved(video@) == Some(plan.video_id@)
                &&& plan.out_path@ == match out {
                    Some(p) => p@,
                    None => default_out_path(plan.video_id@),
                }
                &&& plan.fetcher@ == initial(plan.video_id@)
                &&& plan.fetcher.inv()
            },
            Err(_) => true,
        },
{
    let key = trim_text(api_key);
    if key.as_str().unicode_len() == 0 {
        return Err(ScrapeError::MissingApiKey);
    }
    let video_id = match parse_video_id(video) {
        Some(id) => id,
        None => return Err(ScrapeError::UnresolvedVideo),
    };
    let out_path = match out {
        Some(p) => p,
        None => default_out_path_for(video_id.as_str()),
    };
    let fetcher = Fetcher::new(video_id.clone());
    Ok(ScrapePlan { video_id, out_path, fetcher })
}

} // verus!
