//! The requests sent to Launch Library 2: the feed configuration and the
//! query address of each feed.
use vstd::prelude::*;
use crate::launch_library::state::{default_refresh_interval, Interval};
use crate::text::{concat_str, decimal, decimal_string};
use crate::time::{add_days, days_later, format_rfc3339, rfc3339_text, UtcTimestamp};

verus! {

/// Where the feeds are fetched from, how many items a request asks for, how
/// many days ahead it looks, how often the feeds are refreshed, and whether
/// launch pads are marked on the globe.
pub struct LaunchLibraryConfig {
    pub base_url: String,
    pub limit: usize,
    pub window_days: i64,
    pub refresh_interval: Interval,
    pub show_pad_markers: bool,
}

impl Default for LaunchLibraryConfig {
    /// The Launch Library 2.3.0 API, ten items, thirty days ahead, refreshed
    /// every thirty minutes, with pad markers shown.
    fn default() -> (r: Self)
        ensures
            r.base_url@ == "https://ll.thespacedevs.com/2.3.0"@,
            r.limit == 10,
            r.window_days == 30,
            r.refresh_interval == (Interval { secs: 1800, nanos: 0 }),
            r.show_pad_markers,
    {
        LaunchLibraryConfig {
            base_url: String::from_str("https://ll.thespacedevs.com/2.3.0"),
            limit: 10,
            window_days: 30,
            refresh_interval: default_refresh_interval(),
            show_pad_markers: true,
        }
    }
}

pub open spec fn text_pairs(v: Seq<(String, String)>) -> Seq<(Seq<char>, Seq<char>)> {
    v.map_values(|p: (String, String)| (p.0@, p.1@))
}

/// The address `reqwest::Url` makes of a base address and query pairs, or
/// `None` where it cannot parse the base.
pub uninterp spec fn query_url_text(base: Seq<char>, pairs: Seq<(Seq<char>, Seq<char>)>) -> Option<Seq<char>>;

/// `reqwest::Url::parse(base)`, then `query_pairs_mut().extend_pairs(pairs)`
/// (form-urlencoded), written out by `to_string`; `None` where the base does
/// not parse.  The address is named, not described.
#[verifier::external_body]
fn query_url(base: &str, pairs: &Vec<(String, String)>) -> (r: Option<String>)
    ensures
        match r {
            Some(u) => query_url_text(base@, text_pairs(pairs@)) == Some(u@),
            None => query_url_text(base@, text_pairs(pairs@)) is None,
        },
{
    let mut url = match reqwest::Url::parse(base) {
        Ok(u) => u,
        Err(_) => return None,
    };
    url.query_pairs_mut().extend_pairs(pairs.iter());
    Some(url.to_string())
}

/// The query of a feed over `[start, end]`: items whose `field` lies in that
/// span, ordered by it, at most `limit` of them, in the given `mode`.
pub open spec fn feed_pairs(
    field: Seq<char>,
    mode: Seq<char>,
    start: UtcTimestamp,
    end: UtcTimestamp,
    limit: usize,
) -> Seq<(Seq<char>, Seq<char>)> {
    seq![
        (field + "__gte"@, rfc3339_text(start)),
        (field + "__lte"@, rfc3339_text(end)),
        ("ordering"@, field),
        ("limit"@, decimal(limit as nat)),
        ("mode"@, mode),
    ]
}

/// The address of a feed's request at `now`: `<base>/<path>/` queried from
/// `now` to `window_days` days later.  `None` where chrono has no such
/// instants or the address does not parse (where the request cannot be made).
pub open spec fn feed_url_spec(
    base: Seq<char>,
    limit: usize,
    window_days: i64,
    now: UtcTimestamp,
    path: Seq<char>,
    field: Seq<char>,
    mode: Seq<char>,
) -> Option<Seq<char>> {
    match days_later(now, window_days) {
        Some(end) => if crate::time::chrono_instant(end.secs, end.nanos) is Some {
            query_url_text(base + "/"@ + path + "/"@, feed_pairs(field, mode, now, end, limit))
        } else {
            None
        },
        None => None,
    }
}

/// The address of a feed's request (see `feed_url_spec`).
fn feed_url(
    config: &LaunchLibraryConfig,
    now: UtcTimestamp,
    path: &str,
    field: &str,
    mode: &str,
) -> (r: Option<String>)
    ensures
        match r {
            Some(u) => feed_url_spec(config.base_url@, config.limit, config.window_days, now, path@, field@, mode@)
                == Some(u@),
            None => feed_url_spec(config.base_url@, config.limit, config.window_days, now, path@, field@, mode@) is None,
        },
{
    let end = match add_days(now, config.window_days) {
        Some(e) => e,
        None => return None,
    };
    let start_text = match format_rfc3339(now) {
        Some(t) => t,
        None => return None,
    };
    let end_text = match format_rfc3339(end) {
        Some(t) => t,
        None => return None,
    };
    let a = concat_str(config.base_url.as_str(), "/");
    let b = concat_str(a.as_str(), path);
    let base = concat_str(b.as_str(), "/");
    let mut pairs: Vec<(String, String)> = Vec::new();
    pairs.push((concat_str(field, "__gte"), start_text));
    pairs.push((concat_str(field, "__lte"), end_text));
    pairs.push((String::from_str("ordering"), String::from_str(field)));
    pairs.push((String::from_str("limit"), decimal_string(config.limit as u64)));
    pairs.push((String::from_str("mode"), String::from_str(mode)));
    proof {
        reveal_strlit("ordering");
        reveal_strlit("limit");
        reveal_strlit("mode");
    }
    assert(text_pairs(pairs@) =~= feed_pairs(field@, mode@, now, end, config.limit));
    assert(base@ =~= config.base_url@ + "/"@ + path@ + "/"@);
    query_url(base.as_str(), &pairs)
}

/// The address of the launches request at `now`: launches whose `net` time
/// lies in the window, in detailed mode (see `feed_url_spec`).
pub fn build_launches_url(config: &LaunchLibraryConfig, now: UtcTimestamp) -> (r: Option<String>)
    ensures
        match r {
            Some(u) => feed_url_spec(
                config.base_url@,
                config.limit,
                config.window_days,
                now,
                "launches"@,
                "net"@,
                "detailed"@,
            ) == Some(u@),
            None => feed_url_spec(
                config.base_url@,
                config.limit,
                config.window_days,
                now,
                "launches"@,
                "net"@,
                "detailed"@,
            ) is None,
        },
{
    feed_url(config, now, "launches", "net", "detailed")
}

/// The address of the events request at `now`: events whose `date` lies in
/// the window, in list mode (see `feed_url_spec`).
pub fn build_events_url(config: &LaunchLibraryConfig, now: UtcTimestamp) -> (r: Option<String>)
    ensures
        match r {
            Some(u) => feed_url_spec(
                config.base_url@,
                config.limit,
                config.window_days,
                now,
                "events"@,
                "date"@,
                "list"@,
            ) == Some(u@),
            None => feed_url_spec(
                config.base_url@,
                config.limit,
                config.window_days,
                now,
                "events"@,
                "date"@,
                "list"@,
            ) is None,
        },
{
    feed_url(config, now, "events", "date", "list")
}

} // verus!
