//! When the Launch Library feeds are requested again, and what their
//! answers change.
use vstd::prelude::*;
use crate::launch_library::parse::{EventSummary, LaunchSummary};
use crate::text::concat_str;
use crate::time::{duration_at_least, duration_since_at_least, utc_now, UtcTimestamp, NANOS_PER_SEC};

verus! {

/// The two feeds.
#[derive(Clone, Copy, Debug, PartialEq, Eq, Structural)]
pub enum LaunchLibraryFeed {
    Launches,
    Events,
}

/// A span of time as `chrono::TimeDelta` holds it: whole seconds and the
/// nanoseconds on top of them.
#[derive(Clone, Copy, Debug, PartialEq, Eq, Structural)]
pub struct Interval {
    pub secs: i64,
    pub nanos: u32,
}

impl Interval {
    pub open spec fn wf(self) -> bool {
        self.nanos < NANOS_PER_SEC
    }
}

/// How often the feeds are requested: every 30 minutes.
pub fn default_refresh_interval() -> (r: Interval)
    ensures
        r == (Interval { secs: 1800, nanos: 0 }),
{
    Interval { secs: 1800, nanos: 0 }
}

/// Request and loading bookkeeping of the two feeds.
pub struct LaunchLibraryState {
    pub last_launch_request: Option<UtcTimestamp>,
    pub last_event_request: Option<UtcTimestamp>,
    pub last_launch_update: Option<UtcTimestamp>,
    pub last_event_update: Option<UtcTimestamp>,
    pub is_loading_launches: bool,
    pub is_loading_events: bool,
    pub launch_error: Option<String>,
    pub event_error: Option<String>,
    pub force_refresh: bool,
}

/// The launches and events last received.
pub struct LaunchLibraryData {
    pub launches: Vec<LaunchSummary>,
    pub events: Vec<EventSummary>,
}

/// An answer of the worker.
pub enum LaunchLibraryResult {
    Launches(Vec<LaunchSummary>),
    Events(Vec<EventSummary>),
    Error { feed: LaunchLibraryFeed, error: String },
}

/// Which feeds a poll requests.
#[derive(Clone, Copy, Debug, PartialEq, Eq, Structural)]
pub struct PollPlan {
    pub launches: bool,
    pub events: bool,
}

/// A feed is due when a refresh is forced, when it was never requested, or
/// when its last request is at least one refresh interval old.
pub open spec fn due(last: Option<UtcTimestamp>, now: UtcTimestamp, refresh: Interval, force: bool) -> bool {
    force || match last {
        Some(t) => duration_at_least(now, t, refresh.secs as int, refresh.nanos as int),
        None => true,
    }
}

pub open spec fn opt_wf(t: Option<UtcTimestamp>) -> bool {
    t matches Some(x) ==> x.wf()
}

pub open spec fn opt_text(o: Option<String>) -> Option<Seq<char>> {
    match o {
        Some(s) => Some(s@),
        None => None,
    }
}

/// Whether a feed is due (see `due`).
pub fn fetch_due(last: Option<UtcTimestamp>, now: UtcTimestamp, refresh: Interval, force: bool) -> (r: bool)
    requires
        opt_wf(last),
        now.wf(),
        refresh.wf(),
    ensures
        r == due(last, now, refresh, force),
{
    if force {
        return true;
    }
    match last {
        Some(t) => duration_since_at_least(now, t, refresh.secs, refresh.nanos),
        None => true,
    }
}

impl LaunchLibraryState {
    /// Nothing requested, loaded or failed yet.
    pub fn new() -> (r: LaunchLibraryState)
        ensures
            r.last_launch_request is None,
            r.last_event_request is None,
            r.last_launch_update is None,
            r.last_event_update is None,
            !r.is_loading_launches,
            !r.is_loading_events,
            r.launch_error is None,
            r.event_error is None,
            !r.force_refresh,
    {
        LaunchLibraryState {
            last_launch_request: None,
            last_event_request: None,
            last_launch_update: None,
            last_event_update: None,
            is_loading_launches: false,
            is_loading_events: false,
            launch_error: None,
            event_error: None,
            force_refresh: false,
        }
    }

    pub open spec fn wf(&self) -> bool {
        opt_wf(self.last_launch_request) && opt_wf(self.last_event_request)
    }

    /// The feeds a poll at `now` requests.
    pub fn poll_plan(&self, now: UtcTimestamp, refresh: Interval) -> (r: PollPlan)
        requires
            self.wf(),
            now.wf(),
            refresh.wf(),
        ensures
            r.launches == due(self.last_launch_request, now, refresh, self.force_refresh),
            r.events == due(self.last_event_request, now, refresh, self.force_refresh),
    {
        PollPlan {
            launches: fetch_due(self.last_launch_request, now, refresh, self.force_refresh),
            events: fetch_due(self.last_event_request, now, refresh, self.force_refresh),
        }
    }

    /// Records how queueing a request for `feed` at `now` went: on success
    /// the request time is kept, the feed is loading and its error cleared;
    /// on failure the error says why and the feed is not loading.
    pub fn record_queued(&mut self, feed: LaunchLibraryFeed, now: UtcTimestamp, failure: Option<String>)
        ensures
            feed == LaunchLibraryFeed::Launches ==> {
                &&& failure is None ==> final(self).last_launch_request == Some(now) && final(self).is_loading_launches
                    && final(self).launch_error is None
                &&& failure matches Some(e) ==> final(self).last_launch_request == old(self).last_launch_request
                    && !final(self).is_loading_launches && opt_text(final(self).launch_error) == Some(
                    "Failed to queue launches fetch: "@ + e@,
                )
                &&& final(self).last_event_request == old(self).last_event_request
                &&& final(self).is_loading_events == old(self).is_loading_events
                &&& final(self).event_error == old(self).event_error
            },
            feed == LaunchLibraryFeed::Events ==> {
                &&& failure is None ==> final(self).last_event_request == Some(now) && final(self).is_loading_events
                    && final(self).event_error is None
                &&& failure matches Some(e) ==> final(self).last_event_request == old(self).last_event_request
                    && !final(self).is_loading_events && opt_text(final(self).event_error) == Some(
                    "Failed to queue events fetch: "@ + e@,
                )
                &&& final(self).last_launch_request == old(self).last_launch_request
                &&& final(self).is_loading_launches == old(self).is_loading_launches
                &&& final(self).launch_error == old(self).launch_error
            },
            final(self).last_launch_update == old(self).last_launch_update,
            final(self).last_event_update == old(self).last_event_update,
            final(self).force_refresh == old(self).force_refresh,
    {
        match feed {
            LaunchLibraryFeed::Launches => match failure {
                None => {
                    self.last_launch_request = Some(now);
                    self.is_loading_launches = true;
                    self.launch_error = None;
                },
                Some(e) => {
                    self.launch_error = Some(concat_str("Failed to queue launches fetch: ", e.as_str()));
                    self.is_loading_launches = false;
                },
            },
            LaunchLibraryFeed::Events => match failure {
                None => {
                    self.last_event_request = Some(now);
                    self.is_loading_events = true;
                    self.event_error = None;
                },
                Some(e) => {
                    self.event_error = Some(concat_str("Failed to queue events fetch: ", e.as_str()));
                    self.is_loading_events = false;
                },
            },
        }
    }

    /// Ends a poll: a forced refresh has been served.
    pub fn finish_poll(&mut self)
        ensures
            !final(self).force_refresh,
            final(self).last_launch_request == old(self).last_launch_request,
            final(self).last_event_request == old(self).last_event_request,
            final(self).last_launch_update == old(self).last_launch_update,
            final(self).last_event_update == old(self).last_event_update,
            final(self).is_loading_launches == old(self).is_loading_launches,
            final(self).is_loading_events == old(self).is_loading_events,
            final(self).launch_error == old(self).launch_error,
            final(self).event_error == old(self).event_error,
    {
        self.force_refresh = false;
    }

    /// What applying an answer does to the states before and after, where
    /// `stamp` is the update time recorded for a feed that took new data.
    pub open spec fn applied(
        s0: LaunchLibraryState,
        d0: LaunchLibraryData,
        msg: LaunchLibraryResult,
        stamp: Option<UtcTimestamp>,
        s1: LaunchLibraryState,
        d1: LaunchLibraryData,
    ) -> bool {
        match msg {
            LaunchLibraryResult::Launches(l) => {
                &&& d1.launches@ == l@
                &&& d1.events@ == d0.events@
                &&& s1.last_launch_update == stamp
                &&& !s1.is_loading_launches
                &&& s1.launch_error is None
                &&& s1.last_event_update == s0.last_event_update
                &&& s1.is_loading_events == s0.is_loading_events
                &&& s1.event_error == s0.event_error
            },
            LaunchLibraryResult::Events(e) => {
                &&& d1.events@ == e@
                &&& d1.launches@ == d0.launches@
                &&& s1.last_event_update == stamp
                &&& !s1.is_loading_events
                &&& s1.event_error is None
                &&& s1.last_launch_update == s0.last_launch_update
                &&& s1.is_loading_launches == s0.is_loading_launches
                &&& s1.launch_error == s0.launch_error
            },
            LaunchLibraryResult::Error { feed, error } => {
                &&& d1.launches@ == d0.launches@
                &&& d1.events@ == d0.events@
                &&& s1.last_launch_update == s0.last_launch_update
                &&& s1.last_event_update == s0.last_event_update
                &&& feed == LaunchLibraryFeed::Launches ==> opt_text(s1.launch_error) == Some(error@)
                    && !s1.is_loading_launches && s1.event_error == s0.event_error && s1.is_loading_events
                    == s0.is_loading_events
                &&& feed == LaunchLibraryFeed::Events ==> opt_text(s1.event_error) == Some(error@)
                    && !s1.is_loading_events && s1.launch_error == s0.launch_error && s1.is_loading_launches
                    == s0.is_loading_launches
            },
        }
    }
}

/// Applies an answer received at `now`: new launches or events replace
/// the old ones, mark the feed updated and clear its error; an error is
/// recorded for its feed.  Either way the feed stops loading, and the
/// other feed is left as it was.
pub fn apply_launch_library_result_at(
    state: &mut LaunchLibraryState,
    data: &mut LaunchLibraryData,
    msg: LaunchLibraryResult,
    now: UtcTimestamp,
)
    ensures
        final(state).last_launch_request == old(state).last_launch_request,
        final(state).last_event_request == old(state).last_event_request,
        final(state).force_refresh == old(state).force_refresh,
        LaunchLibraryState::applied(*old(state), *old(data), msg, Some(now), *final(state), *final(data)),
{
    apply_stamped(state, data, msg, Some(now));
}

/// Applies an answer, recording `stamp` as the update time of a feed that
/// took new data.
fn apply_stamped(
    state: &mut LaunchLibraryState,
    data: &mut LaunchLibraryData,
    msg: LaunchLibraryResult,
    stamp: Option<UtcTimestamp>,
)
    ensures
        final(state).last_launch_request == old(state).last_launch_request,
        final(state).last_event_request == old(state).last_event_request,
        final(state).force_refresh == old(state).force_refresh,
        LaunchLibraryState::applied(*old(state), *old(data), msg, stamp, *final(state), *final(data)),
{
    match msg {
        LaunchLibraryResult::Launches(launches) => {
            data.launches = launches;
            state.last_launch_update = stamp;
            state.is_loading_launches = false;
            state.launch_error = None;
        },
        LaunchLibraryResult::Events(events) => {
            data.events = events;
            state.last_event_update = stamp;
            state.is_loading_events = false;
            state.event_error = None;
        },
        LaunchLibraryResult::Error { feed, error } => match feed {
            LaunchLibraryFeed::Launches => {
                state.launch_error = Some(error);
                state.is_loading_launches = false;
            },
            LaunchLibraryFeed::Events => {
                state.event_error = Some(error);
                state.is_loading_events = false;
            },
        },
    }
}

/// Applies an answer as it arrives, stamped with the current time; where the
/// system clock cannot be read, a feed that took new data records no update
/// time.
pub fn apply_launch_library_results(state: &mut LaunchLibraryState, data: &mut LaunchLibraryData, msg: LaunchLibraryResult)
    ensures
        final(state).last_launch_request == old(state).last_launch_request,
        final(state).last_event_request == old(state).last_event_request,
        final(state).force_refresh == old(state).force_refresh,
        exists|stamp: Option<UtcTimestamp>|
            (stamp matches Some(t) ==> t.wf()) && #[trigger] LaunchLibraryState::applied(
                *old(state),
                *old(data),
                msg,
                stamp,
                *final(state),
                *final(data),
            ),
{
    let stamp = utc_now();
    apply_stamped(state, data, msg, stamp);
    assert(LaunchLibraryState::applied(*old(state), *old(data), msg, stamp, *state, *data));
}


/// A forced refresh requests a feed whatever its last request, and a feed
/// never requested is due.
pub proof fn forced_or_never_requested_is_due(last: Option<UtcTimestamp>, now: UtcTimestamp, refresh: Interval)
    ensures
        due(last, now, refresh, true),
        due(None, now, refresh, false),
{
}

/// A feed whose request was queued at `t` is requested again, unforced,
/// exactly once a refresh interval has passed since `t`; in particular not
/// at `t` itself when the interval is positive.
pub proof fn queued_feed_waits_one_interval(t: UtcTimestamp, now: UtcTimestamp, refresh: Interval)
    requires
        refresh.wf(),
    ensures
        due(Some(t), now, refresh, false) <==> crate::time::duration_since_ns(now, t) >= refresh.secs
            * 1_000_000_000 + refresh.nanos,
        (refresh.secs > 0 || refresh.nanos > 0) && refresh.secs >= 0 ==> !due(Some(t), t, refresh, false),
{
    assert(refresh.secs > 0 ==> refresh.secs * 1_000_000_000 > 0) by (nonlinear_arith);
}

} // verus!
