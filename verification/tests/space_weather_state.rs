use bevyearth::time::utc_from_clock;
use bevyearth::space_weather::state::{
    apply_space_weather_results, default_refresh_config, poll_space_weather, update_timestamp, AuroraGrid, KpIndex, SolarWind, SpaceWeatherCommand,
    SpaceWeatherData, SpaceWeatherFeed, SpaceWeatherResult, SpaceWeatherState,
};
use bevyearth::time::UtcTimestamp;

const SEC: i64 = 1_000_000_000;

fn at(secs: i64) -> UtcTimestamp {
    UtcTimestamp { secs, nanos: 0 }
}

#[test]
fn polls_follow_each_interval() {
    let config = default_refresh_config();
    let mut state = SpaceWeatherState::new(0);
    let first = poll_space_weather(&mut state, 0, config);
    assert_eq!(
        first,
        vec![
            SpaceWeatherCommand::FetchOvation,
            SpaceWeatherCommand::FetchKp,
            SpaceWeatherCommand::FetchMag,
            SpaceWeatherCommand::FetchPlasma
        ]
    );
    assert!(poll_space_weather(&mut state, 0, config).is_empty());
    assert_eq!(
        poll_space_weather(&mut state, 120 * SEC, config),
        vec![SpaceWeatherCommand::FetchMag, SpaceWeatherCommand::FetchPlasma]
    );
    assert_eq!(poll_space_weather(&mut state, 600 * SEC, config).first(), Some(&SpaceWeatherCommand::FetchOvation));
    // A clock reading earlier than the last request counts as no time passed.
    assert!(poll_space_weather(&mut state, -5 * SEC, config).is_empty());
}

#[test]
fn timestamps_only_move_forward() {
    let mut t = None;
    update_timestamp(&mut t, Some(at(10)));
    assert_eq!(t, Some(at(10)));
    update_timestamp(&mut t, Some(at(5)));
    assert_eq!(t, Some(at(10)));
    update_timestamp(&mut t, None);
    assert_eq!(t, Some(at(10)));
    update_timestamp(&mut t, Some(UtcTimestamp { secs: 10, nanos: 1 }));
    assert_eq!(t, Some(UtcTimestamp { secs: 10, nanos: 1 }));
}

#[test]
fn answers_update_their_feed_only() {
    let mut state = SpaceWeatherState::new(0);
    let mut data = SpaceWeatherData {
        aurora: AuroraGrid::empty(),
        kp: KpIndex { value: None, timestamp: None },
        solar_wind: SolarWind { bt: None, bz: None, speed: None, density: None, timestamp: None },
    };
    let mut reported = false;
    apply_space_weather_results(
        &mut state,
        &mut data,
        SpaceWeatherResult::Error { feed: SpaceWeatherFeed::Kp, error: "kp: no valid rows".to_string() },
        &mut reported,
    );
    assert_eq!(state.kp_error.as_deref(), Some("kp: no valid rows"));
    apply_space_weather_results(
        &mut state,
        &mut data,
        SpaceWeatherResult::Mag { bt: Some(5.5f32.to_bits()), bz: None, timestamp: Some(at(100)) },
        &mut reported,
    );
    apply_space_weather_results(
        &mut state,
        &mut data,
        SpaceWeatherResult::Plasma { speed: Some(400f32.to_bits()), density: None, timestamp: Some(at(50)) },
        &mut reported,
    );
    assert_eq!(data.solar_wind.bt, Some(5.5f32.to_bits()));
    assert_eq!(data.solar_wind.speed, Some(400f32.to_bits()));
    assert_eq!(data.solar_wind.timestamp, Some(at(100)));
    assert_eq!(state.kp_error.as_deref(), Some("kp: no valid rows"));
    apply_space_weather_results(
        &mut state,
        &mut data,
        SpaceWeatherResult::Kp { kp: KpIndex { value: Some(3f32.to_bits()), timestamp: None } },
        &mut reported,
    );
    assert_eq!(state.kp_error, None);
    let mut grid = AuroraGrid::empty();
    assert!(!apply_space_weather_results(&mut state, &mut data, SpaceWeatherResult::Ovation { grid }, &mut reported));
    grid = AuroraGrid::empty();
    grid.grid_width = 2;
    assert!(apply_space_weather_results(&mut state, &mut data, SpaceWeatherResult::Ovation { grid }, &mut reported));
    grid = AuroraGrid::empty();
    grid.grid_width = 3;
    assert!(!apply_space_weather_results(&mut state, &mut data, SpaceWeatherResult::Ovation { grid }, &mut reported));
    assert_eq!(data.aurora.grid_width, 3);
}

use bevyearth::space_weather::status::{forecast_status, latest_time, ForecastStatus};

#[test]
fn forecast_ages_and_texts() {
    let f = at(1_000_000);
    assert_eq!(forecast_status(f, at(1_000_000 + 59)), ForecastStatus::Age(0));
    assert_eq!(forecast_status(f, at(1_000_000 + 45 * 60)), ForecastStatus::Age(45));
    assert_eq!(forecast_status(f, at(1_000_000 + 46 * 60)), ForecastStatus::ExpiringSoon);
    assert_eq!(forecast_status(f, at(1_000_000 + 61 * 60)), ForecastStatus::Expired);
    assert_eq!(forecast_status(f, at(1_000_000 - 119)), ForecastStatus::Ahead(1));
    assert_eq!(forecast_status(f, at(1_000_000 - 59)), ForecastStatus::Age(0));
    assert_eq!(
        forecast_status(f, UtcTimestamp { secs: 1_000_000 - 60, nanos: 500_000_000 }),
        ForecastStatus::Age(0)
    );
    assert_eq!(ForecastStatus::Ahead(3).text(), "Forecast: 3 min ahead");
    assert_eq!(ForecastStatus::Age(12).text(), "Forecast age: 12 min");
    assert_eq!(ForecastStatus::Expired.text(), "⚠ Forecast expired");
    assert_eq!(ForecastStatus::ExpiringSoon.text(), "⚠ Forecast expiring soon");
}

#[test]
fn latest_of_three_times() {
    assert_eq!(latest_time(&[None, None, None]), None);
    assert_eq!(latest_time(&[Some(at(5)), None, Some(at(3))]), Some(at(5)));
    assert_eq!(latest_time(&[Some(at(5)), Some(at(9)), Some(at(3))]), Some(at(9)));
}

use bevyearth::space_weather::status::sync_aurora_visibility;

#[test]
fn aurora_visibility() {
    let mut grid = AuroraGrid::empty();
    let alpha = 0.6f32.to_bits();
    assert!(!sync_aurora_visibility(true, alpha, &grid, at(0)));
    grid.grid_values = vec![1.0f32.to_bits()];
    assert!(!sync_aurora_visibility(true, alpha, &grid, at(0)));
    grid.updated_utc = Some(at(10_000));
    assert!(sync_aurora_visibility(true, alpha, &grid, at(10_000 + 3600)));
    assert!(!sync_aurora_visibility(true, alpha, &grid, UtcTimestamp { secs: 10_000 + 3600, nanos: 1 }));
    assert!(sync_aurora_visibility(true, alpha, &grid, at(5)));
    assert!(!sync_aurora_visibility(false, alpha, &grid, at(10_000)));
    assert!(!sync_aurora_visibility(true, 0, &grid, at(10_000)));
    assert!(!sync_aurora_visibility(true, (-0.5f32).to_bits(), &grid, at(10_000)));
    // Inside a leap second the hour ends at the same fraction past the next second.
    grid.updated_utc = Some(UtcTimestamp { secs: 10_000, nanos: 1_500_000_000 });
    assert!(sync_aurora_visibility(true, alpha, &grid, UtcTimestamp { secs: 13_600, nanos: 500_000_000 }));
    assert!(!sync_aurora_visibility(true, alpha, &grid, UtcTimestamp { secs: 13_600, nanos: 500_000_001 }));
}

#[test]
fn clock_readings_agree_with_chrono() {
    let last = chrono::NaiveDate::from_ymd_opt(262_142, 12, 31)
        .unwrap()
        .and_hms_opt(23, 59, 59)
        .unwrap()
        .and_utc()
        .timestamp() as u64;
    let cases: [(u64, u32); 10] = [
        (0, 0),
        (1_700_000_000, 999_999_999),
        (1_700_000_039, 1_500_000_000),
        (1_700_000_040, 1_500_000_000),
        (59, 2_000_000_000),
        (last, 0),
        (last + 1, 0),
        (u64::MAX, 0),
        (i64::MAX as u64, 0),
        (i64::MAX as u64 + 1, 0),
    ];
    for &(s, n) in &cases {
        let ours = utc_from_clock(Some((s, n)));
        let theirs = chrono::DateTime::from_timestamp(s as i64, n)
            .map(|dt| UtcTimestamp { secs: dt.timestamp(), nanos: dt.timestamp_subsec_nanos() });
        assert_eq!(ours, theirs, "reading {} {}", s, n);
    }
    assert_eq!(utc_from_clock(None), None);
    assert!(utc_from_clock(Some((u64::MAX, 0))).is_some());
}
