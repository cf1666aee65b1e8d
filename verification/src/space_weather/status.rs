//! What the space-weather panel says about the data: the latest time tag
//! and how old the aurora forecast is.
use vstd::prelude::*;
use crate::text::{concat_str, decimal, decimal_string};
use crate::floatbits::{f32_lt, lt, ZERO};
use crate::space_weather::state::AuroraGrid;
use crate::time::{duration_since, duration_since_ns, is_before, UtcTimestamp, NANOS_PER_SEC};

verus! {

/// The latest of the time tags that are there.
pub open spec fn latest_of(times: Seq<Option<UtcTimestamp>>) -> Option<UtcTimestamp>
    decreases times.len(),
{
    if times.len() == 0 {
        None
    } else {
        let rest = latest_of(times.drop_last());
        match times.last() {
            None => rest,
            Some(t) => match rest {
                Some(r) => if r.before(t) {
                    Some(t)
                } else {
                    rest
                },
                None => Some(t),
            },
        }
    }
}

/// The latest of the time tags that are there (`Iterator::max` over them).
pub fn latest_time(times: &[Option<UtcTimestamp>]) -> (r: Option<UtcTimestamp>)
    ensures
        r == latest_of(times@),
{
    let mut best: Option<UtcTimestamp> = None;
    let mut i: usize = 0;
    while i < times.len()
        invariant
            i <= times.len(),
            best == latest_of(times@.take(i as int)),
        decreases times.len() - i,
    {
        assert(times@.take(i + 1).drop_last() =~= times@.take(i as int));
        assert(times@.take(i + 1).last() == times@[i as int]);
        if let Some(t) = times[i] {
            match best {
                Some(b) => {
                    if is_before(b, t) {
                        best = Some(t);
                    }
                },
                None => {
                    best = Some(t);
                },
            }
        }
        i += 1;
    }
    assert(times@.take(times.len() as int) =~= times@);
    best
}

/// Integer division rounding toward zero, as Rust's `/`.
pub open spec fn div_toward_zero(a: int, b: int) -> int {
    if a >= 0 {
        a / b
    } else {
        -((-a) / b)
    }
}

/// `(now - forecast).num_minutes()`: whole minutes, rounded toward zero.
pub open spec fn age_minutes(now: UtcTimestamp, forecast: UtcTimestamp) -> int {
    div_toward_zero(div_toward_zero(duration_since_ns(now, forecast), NANOS_PER_SEC as int), 60)
}

/// How old the aurora forecast is at the simulated time.
#[derive(Clone, Copy, Debug, PartialEq, Eq, Structural)]
pub enum ForecastStatus {
    /// The simulated time is this many minutes before the forecast.
    Ahead(u64),
    /// More than an hour old.
    Expired,
    /// More than 45 minutes old.
    ExpiringSoon,
    /// This many minutes old.
    Age(u64),
}

/// The status of a forecast by its age in minutes.
pub open spec fn status_of_age(age: int) -> ForecastStatus {
    if age < 0 {
        ForecastStatus::Ahead((-age) as u64)
    } else if age > 60 {
        ForecastStatus::Expired
    } else if age > 45 {
        ForecastStatus::ExpiringSoon
    } else {
        ForecastStatus::Age(age as u64)
    }
}

/// The status of the forecast issued at `forecast`, seen at `now`.
pub fn forecast_status(forecast: UtcTimestamp, now: UtcTimestamp) -> (r: ForecastStatus)
    requires
        forecast.wf(),
        now.wf(),
    ensures
        r == status_of_age(age_minutes(now, forecast)),
{
    let (s, n) = duration_since(now, forecast);
    // Whole seconds toward zero, as `TimeDelta::num_seconds`.
    let secs: i128 = if s < 0 && n > 0 { s + 1 } else { s };
    proof {
        let ns = duration_since_ns(now, forecast);
        assert(ns == s * 1_000_000_000 + n);
        if ns >= 0 {
            assert(secs == ns / 1_000_000_000) by (nonlinear_arith)
                requires
                    ns == s * 1_000_000_000 + n,
                    0 <= n < 1_000_000_000,
                    ns >= 0,
                    secs == (if s < 0 && n > 0 { s + 1 } else { s as int }),
            ;
        } else {
            assert(secs == -((-ns) / 1_000_000_000)) by (nonlinear_arith)
                requires
                    ns == s * 1_000_000_000 + n,
                    0 <= n < 1_000_000_000,
                    ns < 0,
                    secs == (if s < 0 && n > 0 { s + 1 } else { s as int }),
            ;
        }
    }
    let mins: i128 = if secs >= 0 { secs / 60 } else { -((-secs) / 60) };
    if mins < 0 {
        ForecastStatus::Ahead((-mins) as u64)
    } else if mins > 60 {
        ForecastStatus::Expired
    } else if mins > 45 {
        ForecastStatus::ExpiringSoon
    } else {
        ForecastStatus::Age(mins as u64)
    }
}

/// The text of a status.
pub open spec fn status_text(s: ForecastStatus) -> Seq<char> {
    match s {
        ForecastStatus::Ahead(m) => "Forecast: "@ + decimal(m as nat) + " min ahead"@,
        ForecastStatus::Expired => "⚠ Forecast expired"@,
        ForecastStatus::ExpiringSoon => "⚠ Forecast expiring soon"@,
        ForecastStatus::Age(m) => "Forecast age: "@ + decimal(m as nat) + " min"@,
    }
}

impl ForecastStatus {
    /// The text the panel shows for the status.
    pub fn text(&self) -> (r: String)
        ensures
            r@ == status_text(*self),
    {
        match self {
            ForecastStatus::Ahead(m) => {
                let head = concat_str("Forecast: ", decimal_string(*m).as_str());
                let r = concat_str(head.as_str(), " min ahead");
                assert(r@ == "Forecast: "@ + decimal(*m as nat) + " min ahead"@);
                r
            },
            ForecastStatus::Expired => String::from_str("⚠ Forecast expired"),
            ForecastStatus::ExpiringSoon => String::from_str("⚠ Forecast expiring soon"),
            ForecastStatus::Age(m) => {
                let head = concat_str("Forecast age: ", decimal_string(*m).as_str());
                concat_str(head.as_str(), " min")
            },
        }
    }
}

/// How long an OVATION forecast stays valid: 60 minutes.
pub const FORECAST_VALIDITY_SECS: i64 = 3600;

/// The last instant `chrono::DateTime<Utc>` holds: the end of year 262142,
/// in whole seconds since the Unix epoch.
pub const MAX_INSTANT_SECS: i64 = 8_210_266_876_799;

/// `forecast + TimeDelta::minutes(60)`: an hour later; an instant inside a
/// leap second leaves the leap second on the way.
pub open spec fn forecast_end(f: UtcTimestamp) -> UtcTimestamp {
    if f.nanos >= NANOS_PER_SEC {
        UtcTimestamp { secs: (f.secs + FORECAST_VALIDITY_SECS) as i64, nanos: (f.nanos - NANOS_PER_SEC) as u32 }
    } else {
        UtcTimestamp { secs: (f.secs + FORECAST_VALIDITY_SECS) as i64, nanos: f.nanos }
    }
}

/// Whether the forecast still holds at the simulated time: there is one and
/// the simulated time is at most an hour past it.
pub open spec fn forecast_valid(updated: Option<UtcTimestamp>, sim_now: UtcTimestamp) -> bool {
    match updated {
        Some(f) => !forecast_end(f).before(sim_now),
        None => false,
    }
}

/// Whether the aurora overlay is shown: it is enabled, has data, is not
/// transparent (`alpha > 0.0`, as `f32` bits), and its forecast still holds.
pub fn sync_aurora_visibility(enabled: bool, alpha: u32, grid: &AuroraGrid, sim_now: UtcTimestamp) -> (r: bool)
    requires
        grid.updated_utc matches Some(f) ==> f.wf() && f.secs <= MAX_INSTANT_SECS - FORECAST_VALIDITY_SECS,
    ensures
        r == (enabled && (grid.grid_values@.len() > 0 || grid.points@.len() > 0) && lt(ZERO, alpha)
            && forecast_valid(grid.updated_utc, sim_now)),
{
    let has_data = grid.grid_values.len() > 0 || grid.points.len() > 0;
    let is_valid = match grid.updated_utc {
        Some(f) => {
            let end = if f.nanos >= 1_000_000_000 {
                UtcTimestamp { secs: f.secs + 3600, nanos: f.nanos - 1_000_000_000 }
            } else {
                UtcTimestamp { secs: f.secs + 3600, nanos: f.nanos }
            };
            !is_before(end, sim_now)
        },
        None => false,
    };
    enabled && has_data && f32_lt(ZERO, alpha) && is_valid
}

} // verus!
