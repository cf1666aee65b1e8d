//! When each space-weather feed is requested again, and what the answers
//! change in the data the viewer shows.
use vstd::prelude::*;
use crate::time::{is_before, UtcTimestamp};

verus! {

/// Nanoseconds per second, for the monotonic clock.
pub const TICKS_PER_SEC: i64 = 1_000_000_000;

/// The four feeds.
#[derive(Clone, Copy, Debug, PartialEq, Eq, Structural)]
pub enum SpaceWeatherFeed {
    Ovation,
    Kp,
    Mag,
    Plasma,
}

/// A request to the worker.
#[derive(Clone, Copy, Debug, PartialEq, Eq, Structural)]
pub enum SpaceWeatherCommand {
    FetchOvation,
    FetchKp,
    FetchMag,
    FetchPlasma,
}

/// How often each feed is requested, in nanoseconds of the monotonic clock.
#[derive(Clone, Copy, Debug, PartialEq, Eq, Structural)]
pub struct RefreshConfig {
    pub ovation_refresh: u64,
    pub kp_refresh: u64,
    pub solar_wind_refresh: u64,
}

/// Every 10 minutes for the aurora, every 15 for Kp, every 2 for the solar wind.
pub fn default_refresh_config() -> (r: RefreshConfig)
    ensures
        r == (RefreshConfig {
            ovation_refresh: 600_000_000_000,
            kp_refresh: 900_000_000_000,
            solar_wind_refresh: 120_000_000_000,
        }),
{
    RefreshConfig {
        ovation_refresh: 600_000_000_000,
        kp_refresh: 900_000_000_000,
        solar_wind_refresh: 120_000_000_000,
    }
}

/// The last request of each feed, as readings of the monotonic clock
/// (nanoseconds from an origin the program picks), and the last error of each.
pub struct SpaceWeatherState {
    pub last_ovation_request: i64,
    pub last_kp_request: i64,
    pub last_mag_request: i64,
    pub last_plasma_request: i64,
    pub ovation_error: Option<String>,
    pub kp_error: Option<String>,
    pub mag_error: Option<String>,
    pub plasma_error: Option<String>,
}

/// `now.duration_since(last)`, which is zero when `last` is later.
pub open spec fn elapsed(now: i64, last: i64) -> int {
    if now > last {
        now - last
    } else {
        0
    }
}

/// Whether a feed last requested at `last` is due at `now`.
pub open spec fn feed_due(now: i64, last: i64, refresh: u64) -> bool {
    elapsed(now, last) >= refresh
}

/// Whether a feed is due (see `feed_due`).
pub fn is_due(now: i64, last: i64, refresh: u64) -> (r: bool)
    ensures
        r == feed_due(now, last, refresh),
{
    let e: i128 = if now > last { (now as i128) - (last as i128) } else { 0 };
    e >= refresh as i128
}

/// The state after a poll at `now`: each due feed is stamped with `now`.
pub open spec fn polled(s: SpaceWeatherState, now: i64, c: RefreshConfig) -> (i64, i64, i64, i64) {
    (
        if feed_due(now, s.last_ovation_request, c.ovation_refresh) { now } else { s.last_ovation_request },
        if feed_due(now, s.last_kp_request, c.kp_refresh) { now } else { s.last_kp_request },
        if feed_due(now, s.last_mag_request, c.solar_wind_refresh) { now } else { s.last_mag_request },
        if feed_due(now, s.last_plasma_request, c.solar_wind_refresh) { now } else { s.last_plasma_request },
    )
}

/// The requests a poll at `now` sends, in the order aurora, Kp, magnetometer,
/// plasma.
pub open spec fn poll_commands(s: SpaceWeatherState, now: i64, c: RefreshConfig) -> Seq<SpaceWeatherCommand> {
    (if feed_due(now, s.last_ovation_request, c.ovation_refresh) {
        seq![SpaceWeatherCommand::FetchOvation]
    } else {
        Seq::empty()
    }) + (if feed_due(now, s.last_kp_request, c.kp_refresh) {
        seq![SpaceWeatherCommand::FetchKp]
    } else {
        Seq::empty()
    }) + (if feed_due(now, s.last_mag_request, c.solar_wind_refresh) {
        seq![SpaceWeatherCommand::FetchMag]
    } else {
        Seq::empty()
    }) + (if feed_due(now, s.last_plasma_request, c.solar_wind_refresh) {
        seq![SpaceWeatherCommand::FetchPlasma]
    } else {
        Seq::empty()
    })
}

impl SpaceWeatherState {
    /// A state whose feeds are all an hour old at `now`, so that the first
    /// poll requests them.
    pub fn new(now: i64) -> (r: SpaceWeatherState)
        requires
            now >= i64::MIN + 3600 * TICKS_PER_SEC,
        ensures
            r.last_ovation_request == now - 3600 * TICKS_PER_SEC,
            r.last_kp_request == now - 3600 * TICKS_PER_SEC,
            r.last_mag_request == now - 3600 * TICKS_PER_SEC,
            r.last_plasma_request == now - 3600 * TICKS_PER_SEC,
            r.ovation_error is None,
            r.kp_error is None,
            r.mag_error is None,
            r.plasma_error is None,
    {
        let last = now - 3600 * TICKS_PER_SEC;
        SpaceWeatherState {
            last_ovation_request: last,
            last_kp_request: last,
            last_mag_request: last,
            last_plasma_request: last,
            ovation_error: None,
            kp_error: None,
            mag_error: None,
            plasma_error: None,
        }
    }

}

/// Requests each feed whose refresh interval has passed, and stamps it.
pub fn poll_space_weather(state: &mut SpaceWeatherState, now: i64, config: RefreshConfig) -> (r: Vec<SpaceWeatherCommand>)
    ensures
        r@ == poll_commands(*old(state), now, config),
        (final(state).last_ovation_request, final(state).last_kp_request, final(state).last_mag_request,
            final(state).last_plasma_request) == polled(*old(state), now, config),
        final(state).ovation_error == old(state).ovation_error,
        final(state).kp_error == old(state).kp_error,
        final(state).mag_error == old(state).mag_error,
        final(state).plasma_error == old(state).plasma_error,
{
    let mut out: Vec<SpaceWeatherCommand> = Vec::new();
    if is_due(now, state.last_ovation_request, config.ovation_refresh) {
        state.last_ovation_request = now;
        out.push(SpaceWeatherCommand::FetchOvation);
    }
    let ghost a = out@;
    if is_due(now, state.last_kp_request, config.kp_refresh) {
        state.last_kp_request = now;
        out.push(SpaceWeatherCommand::FetchKp);
    }
    let ghost b = out@;
    if is_due(now, state.last_mag_request, config.solar_wind_refresh) {
        state.last_mag_request = now;
        out.push(SpaceWeatherCommand::FetchMag);
    }
    let ghost c = out@;
    if is_due(now, state.last_plasma_request, config.solar_wind_refresh) {
        state.last_plasma_request = now;
        out.push(SpaceWeatherCommand::FetchPlasma);
    }
    assert(out@ =~= poll_commands(*old(state), now, config));
    out
}

/// The aurora data the viewer draws; `f32` values as bits.
pub struct AuroraGrid {
    /// (latitude, longitude, intensity) points of a table feed.
    pub points: Vec<(u32, u32, u32)>,
    /// Row-major cell intensities of a grid feed.
    pub grid_values: Vec<u32>,
    pub grid_width: usize,
    pub grid_height: usize,
    pub lon_min: u32,
    pub lat_min: u32,
    pub lon_step: u32,
    pub lat_step: u32,
    pub max_value: u32,
    pub updated_utc: Option<UtcTimestamp>,
}

impl AuroraGrid {
    /// An empty grid: no points or cells, every bound, step and the greatest
    /// value at `0.0` (bits `0`), no time tag.
    pub fn empty() -> (r: AuroraGrid)
        ensures
            r.points@.len() == 0,
            r.grid_values@.len() == 0,
            r.grid_width == 0,
            r.grid_height == 0,
            r.lon_min == 0,
            r.lat_min == 0,
            r.lon_step == 0,
            r.lat_step == 0,
            r.max_value == 0,
            r.updated_utc is None,
    {
        AuroraGrid {
            points: Vec::new(),
            grid_values: Vec::new(),
            grid_width: 0,
            grid_height: 0,
            lon_min: 0,
            lat_min: 0,
            lon_step: 0,
            lat_step: 0,
            max_value: 0,
            updated_utc: None,
        }
    }

    /// Whether the grid holds anything worth reporting when it arrives.
    pub open spec fn has_content(&self) -> bool {
        self.grid_width > 0 || self.points@.len() > 0 || self.grid_values@.len() > 0
    }
}

/// The latest Kp index (`f32` bits) and its time tag.
#[derive(Clone, Copy, Debug, PartialEq, Eq, Structural)]
pub struct KpIndex {
    pub value: Option<u32>,
    pub timestamp: Option<UtcTimestamp>,
}

/// The latest solar-wind readings (`f32` bits) and the latest time tag of
/// either solar-wind feed.
#[derive(Clone, Copy, Debug, PartialEq, Eq, Structural)]
pub struct SolarWind {
    pub bt: Option<u32>,
    pub bz: Option<u32>,
    pub speed: Option<u32>,
    pub density: Option<u32>,
    pub timestamp: Option<UtcTimestamp>,
}

/// An answer of the worker.
pub enum SpaceWeatherResult {
    Ovation { grid: AuroraGrid },
    Kp { kp: KpIndex },
    Mag { bt: Option<u32>, bz: Option<u32>, timestamp: Option<UtcTimestamp> },
    Plasma { speed: Option<u32>, density: Option<u32>, timestamp: Option<UtcTimestamp> },
    Error { feed: SpaceWeatherFeed, error: String },
}

/// The data the viewer shows.
pub struct SpaceWeatherData {
    pub aurora: AuroraGrid,
    pub kp: KpIndex,
    pub solar_wind: SolarWind,
}

/// The later of a kept time tag and an incoming one.
pub open spec fn merged_timestamp(current: Option<UtcTimestamp>, incoming: Option<UtcTimestamp>) -> Option<
    UtcTimestamp,
> {
    match incoming {
        None => current,
        Some(i) => match current {
            Some(e) => if e.before(i) {
                Some(i)
            } else {
                current
            },
            None => Some(i),
        },
    }
}

/// Keeps the later time tag: an incoming one replaces the current one only
/// when it is later.
pub fn update_timestamp(current: &mut Option<UtcTimestamp>, incoming: Option<UtcTimestamp>)
    ensures
        *final(current) == merged_timestamp(*old(current), incoming),
{
    let i = match incoming {
        Some(i) => i,
        None => return,
    };
    match *current {
        Some(e) => {
            if is_before(e, i) {
                *current = Some(i);
            }
        },
        None => {
            *current = Some(i);
        },
    }
}

pub open spec fn opt_text(o: Option<String>) -> Option<Seq<char>> {
    match o {
        Some(s) => Some(s@),
        None => None,
    }
}

impl SpaceWeatherState {
    /// The error kept for a feed.
    pub open spec fn error_of(&self, feed: SpaceWeatherFeed) -> Option<String> {
        match feed {
            SpaceWeatherFeed::Ovation => self.ovation_error,
            SpaceWeatherFeed::Kp => self.kp_error,
            SpaceWeatherFeed::Mag => self.mag_error,
            SpaceWeatherFeed::Plasma => self.plasma_error,
        }
    }

    /// The feed an answer belongs to.
    pub open spec fn feed_of(msg: SpaceWeatherResult) -> SpaceWeatherFeed {
        match msg {
            SpaceWeatherResult::Ovation { .. } => SpaceWeatherFeed::Ovation,
            SpaceWeatherResult::Kp { .. } => SpaceWeatherFeed::Kp,
            SpaceWeatherResult::Mag { .. } => SpaceWeatherFeed::Mag,
            SpaceWeatherResult::Plasma { .. } => SpaceWeatherFeed::Plasma,
            SpaceWeatherResult::Error { feed, .. } => feed,
        }
    }
}

/// Applies an answer: data replaces the shown data of its feed (the
/// solar-wind time tag only moves forward) and clears the feed's error;
/// an error is kept for its feed.  Other feeds are left as they were.
/// Returns whether this is the first grid with content, which is worth
/// reporting; `grid_reported` remembers that one was.
pub fn apply_space_weather_results(
    state: &mut SpaceWeatherState,
    data: &mut SpaceWeatherData,
    msg: SpaceWeatherResult,
    grid_reported: &mut bool,
) -> (r: bool)
    ensures
        r == (msg matches SpaceWeatherResult::Ovation { grid } && !*old(grid_reported) && grid.has_content()),
        *final(grid_reported) == (*old(grid_reported) || r),
        forall|f: SpaceWeatherFeed|
            f != SpaceWeatherState::feed_of(msg) ==> #[trigger] final(state).error_of(f) == old(state).error_of(f),
        match msg {
            SpaceWeatherResult::Error { feed, error } => opt_text(final(state).error_of(feed)) == Some(error@),
            _ => final(state).error_of(SpaceWeatherState::feed_of(msg)) is None,
        },
        final(state).last_ovation_request == old(state).last_ovation_request,
        final(state).last_kp_request == old(state).last_kp_request,
        final(state).last_mag_request == old(state).last_mag_request,
        final(state).last_plasma_request == old(state).last_plasma_request,
        match msg {
            SpaceWeatherResult::Ovation { grid } => final(data).aurora == grid && final(data).kp == old(data).kp
                && final(data).solar_wind == old(data).solar_wind,
            SpaceWeatherResult::Kp { kp } => final(data).kp == kp && final(data).aurora == old(data).aurora
                && final(data).solar_wind == old(data).solar_wind,
            SpaceWeatherResult::Mag { bt, bz, timestamp } => final(data).solar_wind == (SolarWind {
                bt,
                bz,
                timestamp: merged_timestamp(old(data).solar_wind.timestamp, timestamp),
                ..old(data).solar_wind
            }) && final(data).kp == old(data).kp && final(data).aurora == old(data).aurora,
            SpaceWeatherResult::Plasma { speed, density, timestamp } => final(data).solar_wind == (SolarWind {
                speed,
                density,
                timestamp: merged_timestamp(old(data).solar_wind.timestamp, timestamp),
                ..old(data).solar_wind
            }) && final(data).kp == old(data).kp && final(data).aurora == old(data).aurora,
            SpaceWeatherResult::Error { .. } => final(data).kp == old(data).kp && final(data).aurora
                == old(data).aurora && final(data).solar_wind == old(data).solar_wind,
        },
{
    match msg {
        SpaceWeatherResult::Ovation { grid } => {
            let report = !*grid_reported && (grid.grid_width > 0 || grid.points.len() > 0
                || grid.grid_values.len() > 0);
            if report {
                *grid_reported = true;
            }
            data.aurora = grid;
            state.ovation_error = None;
            report
        },
        SpaceWeatherResult::Kp { kp } => {
            data.kp = kp;
            state.kp_error = None;
            false
        },
        SpaceWeatherResult::Mag { bt, bz, timestamp } => {
            data.solar_wind.bt = bt;
            data.solar_wind.bz = bz;
            update_timestamp(&mut data.solar_wind.timestamp, timestamp);
            state.mag_error = None;
            false
        },
        SpaceWeatherResult::Plasma { speed, density, timestamp } => {
            data.solar_wind.speed = speed;
            data.solar_wind.density = density;
            update_timestamp(&mut data.solar_wind.timestamp, timestamp);
            state.plasma_error = None;
            false
        },
        SpaceWeatherResult::Error { feed, error } => {
            match feed {
                SpaceWeatherFeed::Ovation => state.ovation_error = Some(error),
                SpaceWeatherFeed::Kp => state.kp_error = Some(error),
                SpaceWeatherFeed::Mag => state.mag_error = Some(error),
                SpaceWeatherFeed::Plasma => state.plasma_error = Some(error),
            }
            false
        },
    }
}

/// The solar-wind time tag never moves back: after an update it is the later
/// of the kept and the incoming tag.
pub proof fn timestamp_never_moves_back(current: Option<UtcTimestamp>, incoming: Option<UtcTimestamp>)
    ensures
        current matches Some(e) ==> merged_timestamp(current, incoming) matches Some(m) && !m.before(e),
        incoming matches Some(i) ==> merged_timestamp(current, incoming) matches Some(m) && !m.before(i),
        merged_timestamp(current, incoming) == current || merged_timestamp(current, incoming) == incoming,
{
}

/// How long ago, at clock reading `now`, a request stamped `last` was made:
/// `now.duration_since(last)`, which is zero when `last` is later.
pub open spec fn age(now: i64, last: i64) -> int {
    if now > last {
        now - last
    } else {
        0
    }
}

/// Each feed is requested by a poll exactly when its last request is at
/// least its own refresh interval old (the aurora its `ovation_refresh`, Kp
/// its `kp_refresh`, the magnetometer and plasma feeds `solar_wind_refresh`),
/// whatever the other feeds' intervals and requests; a requested feed is
/// stamped with the poll's time and any other keeps its stamp.
pub proof fn each_feed_follows_its_own_interval(s: SpaceWeatherState, now: i64, c: RefreshConfig)
    ensures
        poll_commands(s, now, c).contains(SpaceWeatherCommand::FetchOvation) <==> age(now, s.last_ovation_request)
            >= c.ovation_refresh,
        poll_commands(s, now, c).contains(SpaceWeatherCommand::FetchKp) <==> age(now, s.last_kp_request)
            >= c.kp_refresh,
        poll_commands(s, now, c).contains(SpaceWeatherCommand::FetchMag) <==> age(now, s.last_mag_request)
            >= c.solar_wind_refresh,
        poll_commands(s, now, c).contains(SpaceWeatherCommand::FetchPlasma) <==> age(now, s.last_plasma_request)
            >= c.solar_wind_refresh,
        polled(s, now, c).0 == (if age(now, s.last_ovation_request) >= c.ovation_refresh {
            now
        } else {
            s.last_ovation_request
        }),
        polled(s, now, c).1 == (if age(now, s.last_kp_request) >= c.kp_refresh {
            now
        } else {
            s.last_kp_request
        }),
        polled(s, now, c).2 == (if age(now, s.last_mag_request) >= c.solar_wind_refresh {
            now
        } else {
            s.last_mag_request
        }),
        polled(s, now, c).3 == (if age(now, s.last_plasma_request) >= c.solar_wind_refresh {
            now
        } else {
            s.last_plasma_request
        }),
{
    let cmds = poll_commands(s, now, c);
    let o = age(now, s.last_ovation_request) >= c.ovation_refresh;
    let k = age(now, s.last_kp_request) >= c.kp_refresh;
    let m = age(now, s.last_mag_request) >= c.solar_wind_refresh;
    let p = age(now, s.last_plasma_request) >= c.solar_wind_refresh;
    let a = if o { seq![SpaceWeatherCommand::FetchOvation] } else { Seq::empty() };
    let b = if k { seq![SpaceWeatherCommand::FetchKp] } else { Seq::empty() };
    let d = if m { seq![SpaceWeatherCommand::FetchMag] } else { Seq::empty() };
    let e = if p { seq![SpaceWeatherCommand::FetchPlasma] } else { Seq::empty() };
    assert(cmds =~= a + b + d + e);
    let all = a + b + d + e;
    assert forall|x: SpaceWeatherCommand| all.contains(x) <==> (a.contains(x) || b.contains(x) || d.contains(x)
        || e.contains(x)) by {
        if all.contains(x) {
            let i = choose|i: int| 0 <= i < all.len() && all[i] == x;
            if i < a.len() {
                assert(a[i] == x);
            } else if i < a.len() + b.len() {
                assert(b[i - a.len()] == x);
            } else if i < a.len() + b.len() + d.len() {
                assert(d[i - a.len() - b.len()] == x);
            } else {
                assert(e[i - a.len() - b.len() - d.len()] == x);
            }
        }
        if a.contains(x) {
            let i = choose|i: int| 0 <= i < a.len() && a[i] == x;
            assert(all[i] == x);
        }
        if b.contains(x) {
            let i = choose|i: int| 0 <= i < b.len() && b[i] == x;
            assert(all[a.len() + i] == x);
        }
        if d.contains(x) {
            let i = choose|i: int| 0 <= i < d.len() && d[i] == x;
            assert(all[a.len() + b.len() + i] == x);
        }
        if e.contains(x) {
            let i = choose|i: int| 0 <= i < e.len() && e[i] == x;
            assert(all[a.len() + b.len() + d.len() + i] == x);
        }
    }
    if o {
        assert(a[0] == SpaceWeatherCommand::FetchOvation);
    }
    if k {
        assert(b[0] == SpaceWeatherCommand::FetchKp);
    }
    if m {
        assert(d[0] == SpaceWeatherCommand::FetchMag);
    }
    if p {
        assert(e[0] == SpaceWeatherCommand::FetchPlasma);
    }
}

/// A poll stamps every feed it requests, so a second poll at the same time
/// requests nothing when every refresh interval is positive.
pub proof fn poll_is_idempotent(s: SpaceWeatherState, now: i64, c: RefreshConfig)
    requires
        c.ovation_refresh > 0,
        c.kp_refresh > 0,
        c.solar_wind_refresh > 0,
    ensures
        ({
            let (o, k, m, p) = polled(s, now, c);
            let s2 = SpaceWeatherState {
                last_ovation_request: o,
                last_kp_request: k,
                last_mag_request: m,
                last_plasma_request: p,
                ..s
            };
            poll_commands(s2, now, c).len() == 0
        }),
{
    let (o, k, m, p) = polled(s, now, c);
    let s2 = SpaceWeatherState {
        last_ovation_request: o,
        last_kp_request: k,
        last_mag_request: m,
        last_plasma_request: p,
        ..s
    };
    assert(poll_commands(s2, now, c) =~= Seq::<SpaceWeatherCommand>::empty());
}

/// A feed stamped at `t` is not requested again before its refresh interval
/// has passed, and is once it has.
pub proof fn stamped_feed_waits_one_interval(t: i64, later: i64, refresh: u64)
    requires
        t <= later,
    ensures
        feed_due(later, t, refresh) <==> later - t >= refresh,
{
}

} // verus!
