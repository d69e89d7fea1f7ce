//! Turns a bare video ID or a video URL into the canonical video ID.
use vstd::prelude::*;
use crate::text::{contains, contains_text, is_ascii_alnum, strip_leading_slashes, strip_slashes, trim, trim_end, trim_start, trim_text};

verus! {

/// The parts of a parsed URL that the resolver reads.
pub struct UrlParts {
    /// The host, where the URL has one.
    pub host: Option<String>,
    /// The path, percent-encoded as written.
    pub path: String,
    /// The decoded query pairs, in order.
    pub query: Vec<(String, String)>,
    /// The path segments, where the URL can be a base.
    pub segments: Option<Vec<String>>,
}

pub ghost struct UrlView {
    pub host: Option<Seq<char>>,
    pub path: Seq<char>,
    pub query: Seq<(Seq<char>, Seq<char>)>,
    pub segments: Option<Seq<Seq<char>>>,
}

pub open spec fn pairs_view(q: Seq<(String, String)>) -> Seq<(Seq<char>, Seq<char>)> {
    q.map_values(|p: (String, String)| (p.0@, p.1@))
}

pub open spec fn strings_view(s: Seq<String>) -> Seq<Seq<char>> {
    s.map_values(|x: String| x@)
}

impl View for UrlParts {
    type V = UrlView;

    open spec fn view(&self) -> UrlView {
        UrlView {
            host: match self.host {
                Some(h) => Some(h@),
                None => None,
            },
            path: self.path@,
            query: pairs_view(self.query@),
            segments: match self.segments {
                Some(s) => Some(strings_view(s@)),
                None => None,
            },
        }
    }
}

/// What the `url` crate makes of a text: `None` where it is no URL.
pub uninterp spec fn parsed_url(s: Seq<char>) -> Option<UrlView>;

/// Relies on `url::Url::parse` to parse `s`, and on the parsed URL's
/// `host_str`, `path`, `query_pairs` and `path_segments` to read it.
#[verifier::external_body]
fn split_url(s: &str) -> (r: Option<UrlParts>)
    ensures
        match r {
            Some(p) => parsed_url(s@) == Some(p@),
            None => parsed_url(s@) is None,
        },
{
    let u = url::Url::parse(s).ok()?;
    Some(UrlParts {
        host: u.host_str().map(|h| h.to_string()),
        path: u.path().to_string(),
        query: u.query_pairs().map(|(k, v)| (k.into_owned(), v.into_owned())).collect(),
        segments: u.path_segments().map(|it| it.map(|x| x.to_string()).collect()),
    })
}

pub open spec fn is_id_char(c: char) -> bool {
    is_ascii_alnum(c) || c == '-' || c == '_'
}

/// The shape a video ID must have: 6 to 32 ASCII letters, digits, `-` or `_`.
pub open spec fn is_video_id(s: Seq<char>) -> bool {
    6 <= s.len() <= 32 && forall|i: int| 0 <= i < s.len() ==> is_id_char(#[trigger] s[i])
}

/// The marker that makes an input read as a URL.
pub open spec fn scheme_marker() -> Seq<char> {
    seq!['h', 't', 't', 'p']
}

/// The host fragment of short links.
pub open spec fn short_link_host() -> Seq<char> {
    seq!['y', 'o', 'u', 't', 'u', '.', 'b', 'e']
}

pub open spec fn video_key() -> Seq<char> {
    seq!['v']
}

pub open spec fn shorts_segment() -> Seq<char> {
    seq!['s', 'h', 'o', 'r', 't', 's']
}

/// The value of the first pair whose name is `key`.
pub open spec fn first_value(q: Seq<(Seq<char>, Seq<char>)>, key: Seq<char>) -> Option<Seq<char>>
    decreases q.len(),
{
    if q.len() == 0 {
        None
    } else if q[0].0 == key {
        Some(q[0].1)
    } else {
        first_value(q.drop_first(), key)
    }
}

/// The segment that follows the first segment equal to `key`.
pub open spec fn segment_after(s: Seq<Seq<char>>, key: Seq<char>) -> Option<Seq<char>>
    decreases s.len(),
{
    if s.len() == 0 {
        None
    } else if s[0] == key {
        if s.len() > 1 {
            Some(s[1])
        } else {
            None
        }
    } else {
        segment_after(s.drop_first(), key)
    }
}

/// The ID candidate a URL offers: the path of a short link, else the `v`
/// query value, else the segment after `shorts`.
pub open spec fn url_candidate(u: UrlView) -> Option<Seq<char>> {
    let host = match u.host {
        Some(h) => h,
        None => Seq::empty(),
    };
    if contains(host, short_link_host()) {
        Some(strip_slashes(u.path))
    } else if first_value(u.query, video_key()) is Some {
        first_value(u.query, video_key())
    } else {
        match u.segments {
            Some(s) => segment_after(s, shorts_segment()),
            None => None,
        }
    }
}

/// The video ID a parsed URL names, where its candidate has the ID shape.
pub open spec fn url_video_id(u: UrlView) -> Option<Seq<char>> {
    match url_candidate(u) {
        Some(c) => if is_video_id(c) {
            Some(c)
        } else {
            None
        },
        None => None,
    }
}

/// The canonical video ID of a user's input, if it has one.
pub open spec fn resolved(input: Seq<char>) -> Option<Seq<char>> {
    let t = trim(input);
    if t.len() == 0 {
        None
    } else if is_video_id(t) && !contains(t, scheme_marker()) {
        Some(t)
    } else {
        match parsed_url(t) {
            Some(u) => url_video_id(u),
            None => None,
        }
    }
}

/// Whether `value` has the shape of a video ID.
pub fn is_probable_video_id(value: &str) -> (r: bool)
    ensures
        r == is_video_id(value@),
{
    let n = value.unicode_len();
    if n < 6 || n > 32 {
        return false;
    }
    let mut i: usize = 0;
    while i < n
        invariant
            n == value@.len(),
            i <= n,
            forall|k: int| 0 <= k < i ==> is_id_char(#[trigger] value@[k]),
        decreases n - i,
    {
        let c = value.get_char(i);
        let ok = ('a' <= c && c <= 'z') || ('A' <= c && c <= 'Z') || ('0' <= c && c <= '9')
            || c == '-' || c == '_';
        if !ok {
            return false;
        }
        i = i + 1;
    }
    true
}

fn first_query_value(q: &Vec<(String, String)>, key: &String) -> (r: Option<String>)
    ensures
        match r {
            Some(v) => first_value(pairs_view(q@), key@) == Some(v@),
            None => first_value(pairs_view(q@), key@) is None,
        },
{
    let n = q.len();
    let mut i: usize = 0;
    assert(pairs_view(q@).subrange(0, n as int) =~= pairs_view(q@));
    while i < n
        invariant
            n == q@.len(),
            i <= n,
            first_value(pairs_view(q@), key@) == first_value(pairs_view(q@).subrange(i as int, n as int), key@),
        decreases n - i,
    {
        let t = Ghost(pairs_view(q@).subrange(i as int, n as int));
        assert(t@[0] == (q@[i as int].0@, q@[i as int].1@));
        if q[i].0 == *key {
            return Some(q[i].1.clone());
        }
        assert(t@.drop_first() =~= pairs_view(q@).subrange(i + 1, n as int));
        i = i + 1;
    }
    None
}

fn next_segment(s: &Vec<String>, key: &String) -> (r: Option<String>)
    ensures
        match r {
            Some(v) => segment_after(strings_view(s@), key@) == Some(v@),
            None => segment_after(strings_view(s@), key@) is None,
        },
{
    let n = s.len();
    let mut i: usize = 0;
    assert(strings_view(s@).subrange(0, n as int) =~= strings_view(s@));
    while i < n
        invariant
            n == s@.len(),
            i <= n,
            segment_after(strings_view(s@), key@) == segment_after(strings_view(s@).subrange(i as int, n as int), key@),
        decreases n - i,
    {
        let t = Ghost(strings_view(s@).subrange(i as int, n as int));
        assert(t@[0] == s@[i as int]@);
        if s[i] == *key {
            if i + 1 < n {
                assert(t@[1] == s@[i + 1]@);
                return Some(s[i + 1].clone());
            }
            return None;
        }
        assert(t@.drop_first() =~= strings_view(s@).subrange(i + 1, n as int));
        i = i + 1;
    }
    None
}

/// The video ID that a parsed URL names, if any.
pub fn video_id_from_url(u: &UrlParts) -> (r: Option<String>)
    ensures
        match r {
            Some(id) => url_video_id(u@) == Some(id@),
            None => url_video_id(u@) is None,
        },
{
    let host_marker = "youtu.be";
    proof {
        reveal_strlit("youtu.be");
        assert(host_marker@ =~= short_link_host());
    }
    let on_short_host = match &u.host {
        Some(h) => contains_text(h.as_str(), host_marker),
        None => {
            proof {
                reveal_strlit("");
            }
            contains_text("", host_marker)
        },
    };
    let candidate = if on_short_host {
        Some(strip_leading_slashes(u.path.as_str()))
    } else {
        let key = String::from_str("v");
        proof {
            reveal_strlit("v");
            assert(key@ =~= video_key());
        }
        match first_query_value(&u.query, &key) {
            Some(v) => Some(v),
            None => match &u.segments {
                Some(s) => {
                    let shorts = String::from_str("shorts");
                    proof {
                        reveal_strlit("shorts");
                        assert(shorts@ =~= shorts_segment());
                    }
                    next_segment(s, &shorts)
                },
                None => None,
            },
        }
    };
    match candidate {
        Some(c) => if is_probable_video_id(c.as_str()) {
            Some(c)
        } else {
            None
        },
        None => None,
    }
}

/// Resolves free-form input (a bare ID, a short link, a watch URL or a
/// shorts URL) to the canonical video ID; `None` where nothing matches.
pub fn parse_video_id(input: &str) -> (r: Option<String>)
    ensures
        match r {
            Some(id) => resolved(input@) == Some(id@),
            None => resolved(input@) is None,
        },
{
    let trimmed = trim_text(input);
    if trimmed.as_str().unicode_len() == 0 {
        return None;
    }
    let marker = "http";
    proof {
        reveal_strlit("http");
        assert(marker@ =~= scheme_marker());
    }
    if is_probable_video_id(trimmed.as_str()) && !contains_text(trimmed.as_str(), marker) {
        return Some(trimmed);
    }
    match split_url(trimmed.as_str()) {
        Some(u) => video_id_from_url(&u),
        None => None,
    }
}

proof fn lemma_id_has_no_blanks(s: Seq<char>)
    requires
        is_video_id(s),
    ensures
        trim(s) == s,
{
    assert(is_id_char(s[0]));
    assert(trim_start(s) == s);
    assert(is_id_char(s[s.len() - 1]));
    assert(trim_end(s) == s);
}

/// An input that already has the shape of a video ID and does not read as a
/// URL resolves to itself.
pub proof fn lemma_bare_id_resolves_to_itself(s: Seq<char>)
    requires
        is_video_id(s),
        !contains(s, scheme_marker()),
    ensures
        resolved(s) == Some(s),
{
    lemma_id_has_no_blanks(s);
}

} // verus!
