use bevyearth::tle::fetcher::{group_status_message, http_status_message, no_pair_message, tle_url};
use bevyearth::time::UtcTimestamp;
use bevyearth::tle::cache::{CachedTle, TleCache};
use bevyearth::tle::fetcher::{
    clean_tle_lines, parse_tle_pairs, select_tle_entry, tle_fetch_outcome, tle_group_outcome, tle_norad,
    TleFetchOutcome, TleSelection,
};
use bevyearth::tle::parser::{parse_tle_epoch_fields, TleEpochFields};
use chrono::{Duration, Utc};

fn stamp(t: chrono::DateTime<Utc>) -> UtcTimestamp {
    UtcTimestamp { secs: t.timestamp(), nanos: t.timestamp_subsec_nanos() }
}

fn entry(norad: u32, epoch: chrono::DateTime<Utc>) -> CachedTle {
    CachedTle {
        norad,
        name: Some("ISS (ZARYA)".to_string()),
        line1: "1 25544U 98067A   26044.51782528".to_string(),
        line2: "2 25544  51.6416 247.4627 0006703".to_string(),
        epoch_utc: stamp(epoch),
        cached_at: stamp(Utc::now()),
    }
}

#[test]
fn test_cache_validation() {
    let cache = TleCache::with_dir("/tmp/bevyearth-tle-cache-validation".to_string(), 7);
    let valid_entry = entry(25544, Utc::now() - Duration::days(3));
    assert!(cache.is_valid(&valid_entry));
    let expired_entry = entry(25544, Utc::now() - Duration::days(10));
    assert!(!cache.is_valid(&expired_entry));
}

#[test]
fn test_cache_with_custom_expiration() {
    let cache = TleCache::with_dir("/tmp/bevyearth-tle-cache-custom".to_string(), 1);
    let old_entry = entry(44444, Utc::now() - Duration::days(2));
    assert!(!cache.is_valid(&old_entry));
    let cache30 = TleCache::with_dir("/tmp/bevyearth-tle-cache-custom-30".to_string(), 30);
    assert!(cache30.is_valid(&old_entry));
}

#[test]
fn cache_validity_at_a_fixed_time() {
    let cache = TleCache::with_dir("cache".to_string(), 7);
    let now = UtcTimestamp { secs: 1_700_000_000, nanos: 0 };
    let mut e = entry(1, Utc::now());
    e.epoch_utc = UtcTimestamp { secs: 1_700_000_000 - 7 * 86_400 + 1, nanos: 0 };
    assert!(cache.is_valid_at(&e, now));
    e.epoch_utc = UtcTimestamp { secs: 1_700_000_000 - 7 * 86_400, nanos: 0 };
    assert!(!cache.is_valid_at(&e, now));
    e.epoch_utc = UtcTimestamp { secs: 1_700_000_000 + 86_400, nanos: 0 };
    assert!(cache.is_valid_at(&e, now));
}

#[test]
fn cache_paths() {
    let cache = TleCache::with_dir("/home/u/.cache/tle".to_string(), 7);
    assert_eq!(cache.cache_path(25544), "/home/u/.cache/tle/25544.json");
    let cache = TleCache::with_dir("dir/".to_string(), 7);
    assert_eq!(cache.cache_path(0), "dir/0.json");
    assert_eq!(cache.cache_dir(), "dir/");
    assert_eq!(cache.expiration_days(), 7);
}

#[test]
fn test_parse_tle_epoch() {
    let line1 = "1 25544U 98067A   08264.51782528 -.00002182  00000-0 -11606-4 0  2927";
    match parse_tle_epoch_fields(line1) {
        TleEpochFields::Fields { year, day_of_year, fraction } => {
            assert_eq!(year, 2008);
            assert_eq!(day_of_year, 264);
            assert_eq!(fraction, "51782528");
        }
        _ => panic!("expected epoch fields"),
    }
    assert!(matches!(parse_tle_epoch_fields("too short"), TleEpochFields::Invalid));
}

#[test]
fn tle_epoch_century_and_missing_fraction() {
    let line1 = "1 00005U 58002B   58300          ";
    match parse_tle_epoch_fields(line1) {
        TleEpochFields::Fields { year, day_of_year, fraction } => {
            assert_eq!(year, 1958);
            assert_eq!(day_of_year, 300);
            assert_eq!(fraction, "0");
        }
        _ => panic!("expected epoch fields"),
    }
}

const BODY: &str = "\u{feff}ISS (ZARYA)\r\n1 25544U 98067A   08264.51782528 -.00002182  00000-0 -11606-4 0  2927\r\n2 25544  51.6416 247.4627 0006703 130.5360 325.0288 15.72125391563537\r\n\r\n1 00005U 58002B   00179.78495062  .00000023  00000-0  28098-4 0  4753\n2 00005  34.2682 348.7242 1859667 331.7664  19.3264 10.82419157413667\n";

#[test]
fn clean_lines_and_pairs() {
    let lines = clean_tle_lines(BODY);
    assert_eq!(lines.len(), 5);
    assert_eq!(lines[0], "ISS (ZARYA)");
    let pairs = parse_tle_pairs(&lines);
    assert_eq!(pairs.len(), 2);
    assert_eq!(pairs[0].name.as_deref(), Some("ISS (ZARYA)"));
    assert_eq!(pairs[0].norad, 25544);
    assert_eq!(pairs[1].name, None);
    assert_eq!(pairs[1].norad, 5);
    assert_eq!(tle_norad("1 25544U"), 25544);
    assert!(matches!(select_tle_entry(&pairs, 5), TleSelection::Found(1)));
    assert!(matches!(select_tle_entry(&pairs, 7), TleSelection::Missing));
}

#[test]
fn fetch_outcomes() {
    match tle_fetch_outcome(25544, true, BODY) {
        TleFetchOutcome::Found { name, line1, .. } => {
            assert_eq!(name.as_deref(), Some("ISS (ZARYA)"));
            assert!(line1.starts_with("1 25544U"));
        }
        _ => panic!("expected the entry"),
    }
    assert!(matches!(tle_fetch_outcome(25544, false, BODY), TleFetchOutcome::HttpStatus));
    match tle_fetch_outcome(12345, true, "a\nb\nc\nd\ne\nf\ng\n") {
        TleFetchOutcome::NoValidPair { sample } => assert_eq!(sample, "a\nb\nc\nd\ne\nf"),
        _ => panic!("expected no pair"),
    }
    assert_eq!(tle_group_outcome(true, BODY).map(|v| v.len()), Some(2));
    assert!(tle_group_outcome(false, BODY).is_none());
}

use bevyearth::tle::store::{
    choose_epoch, display_name, fail_record, group_failure_message, new_record, refresh_record, SatRecord,
};

const ISS_L1: &str = "1 25544U 98067A   08264.51782528 -.00002182  00000-0 -11606-4 0  2927";
const ISS_L2: &str = "2 25544  51.6416 247.4627 0006703 130.5360 325.0288 15.72125391563537";

#[test]
fn satellite_records() {
    assert_eq!(display_name(None, 42), "NORAD 42");
    assert_eq!(display_name(Some("ISS".to_string()), 42), "ISS");
    let epoch = UtcTimestamp { secs: 1_222_000_000, nanos: 0 };
    let rec = new_record(25544, None, ISS_L1, ISS_L2, epoch);
    assert_eq!(rec.name.as_deref(), Some("NORAD 25544"));
    assert!(rec.propagator.is_some());
    assert_eq!(rec.error, None);
    let bad = new_record(1, Some("X".to_string()), "1 garbage", "2 garbage", epoch);
    assert!(bad.propagator.is_none());
    assert_eq!(bad.error, None);

    let mut rec = SatRecord { name: None, epoch_utc: None, propagator: None, error: Some("old".to_string()) };
    assert!(refresh_record(&mut rec, 25544, Some("ISS (ZARYA)".to_string()), ISS_L1, ISS_L2, epoch));
    assert_eq!(rec.error, None);
    assert_eq!(rec.epoch_utc, Some(epoch));
    assert!(!refresh_record(&mut rec, 25544, None, "1 garbage", ISS_L2, epoch));
    assert!(rec.propagator.is_none());
    assert!(rec.error.as_deref().unwrap().starts_with("TLE parse error"));
    assert_eq!(rec.name.as_deref(), Some("NORAD 25544"));

    fail_record(&mut rec, "HTTP 404".to_string());
    assert_eq!(rec.error.as_deref(), Some("HTTP 404"));
    assert_eq!(rec.epoch_utc, None);
    assert_eq!(rec.name.as_deref(), Some("NORAD 25544"));
    assert_eq!(group_failure_message("timeout"), "Group fetch failed: timeout");
    assert_eq!(choose_epoch(None, epoch), epoch);
    assert_eq!(choose_epoch(Some(UtcTimestamp { secs: 1, nanos: 0 }), epoch).secs, 1);
}

use bevyearth::tle::store::{color_seed, fetch_queue_message, parse_norad_input, plan_add, AddError};
use std::collections::HashMap;

#[test]
fn adding_satellites_by_number() {
    let mut items: HashMap<u32, ()> = HashMap::new();
    assert_eq!(parse_norad_input(" 25544 "), Some(25544));
    assert_eq!(parse_norad_input("+7"), Some(7));
    assert_eq!(parse_norad_input("-7"), None);
    assert_eq!(parse_norad_input("4294967296"), None);
    assert_eq!(plan_add("abc", &items), Err(AddError::InvalidId));
    assert_eq!(plan_add("25544", &items), Ok((25544, 25544u32.wrapping_mul(1664525).wrapping_add(1013904223))));
    items.insert(25544, ());
    assert_eq!(plan_add(" 25544", &items), Err(AddError::AlreadyAdded));
    assert_eq!(AddError::InvalidId.message(), "Invalid NORAD ID");
    assert_eq!(AddError::AlreadyAdded.message(), "Satellite already added");
    assert_eq!(color_seed(0), 1013904223);
    assert_eq!(color_seed(u32::MAX), u32::MAX.wrapping_mul(1664525).wrapping_add(1013904223));
    assert_eq!(fetch_queue_message(5, "closed"), "Failed to fetch NORAD 5: closed");
}

use bevyearth::panel::RightPanelUI;
use bevyearth::tle::store::{process_fetch_result, FetchEffect, FetchResultMsg, SatEntry};

fn success(norad: u32, name: Option<&str>, line1: &str, line2: &str) -> FetchResultMsg {
    FetchResultMsg::Success {
        norad,
        name: name.map(|n| n.to_string()),
        line1: line1.to_string(),
        line2: line2.to_string(),
        epoch_utc: UtcTimestamp { secs: 100, nanos: 0 },
        group: Some("weather".to_string()),
    }
}

#[test]
fn fetch_results_update_the_store() {
    let mut store: HashMap<u32, SatEntry> = HashMap::new();
    let color = (1, 2, 3);
    // A failure for a satellite not in the store changes nothing.
    let effect = process_fetch_result(
        &mut store,
        FetchResultMsg::Failure { norad: 25544, error: "HTTP 404".to_string() },
        None,
        color,
    );
    assert_eq!(effect, FetchEffect::UnknownFailure { norad: 25544 });
    assert!(store.is_empty());
    // A success adds it with the colour and group given.
    let effect = process_fetch_result(&mut store, success(25544, None, ISS_L1, ISS_L2), None, color);
    assert_eq!(effect, FetchEffect::Added { norad: 25544 });
    let e = &store[&25544];
    assert_eq!(e.record.name.as_deref(), Some("NORAD 25544"));
    assert_eq!(e.record.epoch_utc, Some(UtcTimestamp { secs: 100, nanos: 0 }));
    assert_eq!(e.color, color);
    assert_eq!(e.group_url.as_deref(), Some("weather"));
    // A second success refreshes it, keeping colour and group.
    let line_epoch = Some(UtcTimestamp { secs: 7, nanos: 0 });
    let effect =
        process_fetch_result(&mut store, success(25544, Some("ISS"), ISS_L1, ISS_L2), line_epoch, (9, 9, 9));
    assert_eq!(effect, FetchEffect::Refreshed { norad: 25544, built: true });
    let e = &store[&25544];
    assert_eq!(e.record.name.as_deref(), Some("ISS"));
    assert_eq!(e.record.epoch_utc, line_epoch);
    assert_eq!(e.color, color);
    // A failure for it is recorded.
    let effect = process_fetch_result(
        &mut store,
        FetchResultMsg::Failure { norad: 25544, error: "HTTP 500".to_string() },
        None,
        color,
    );
    assert_eq!(effect, FetchEffect::Failed { norad: 25544 });
    assert_eq!(store[&25544].record.error.as_deref(), Some("HTTP 500"));
    assert!(store[&25544].record.propagator.is_none());
    assert_eq!(store.len(), 1);
    let effect = process_fetch_result(
        &mut store,
        FetchResultMsg::GroupFailure { group: "g".to_string(), error: "timeout".to_string() },
        None,
        color,
    );
    assert_eq!(effect, FetchEffect::GroupFailed);
    let mut ui = RightPanelUI::new();
    ui.group_loading = true;
    ui.finish_group(Some("timeout"));
    assert!(!ui.group_loading);
    assert_eq!(ui.error.as_deref(), Some("Group fetch failed: timeout"));
    ui.group_loading = true;
    ui.finish_group(None);
    assert!(!ui.group_loading);
}

#[test]
fn checksum_column_below_zero_digit_is_a_checksum_error() {
    let epoch = UtcTimestamp { secs: 1_222_000_000, nanos: 0 };
    let l1_plus = format!("{}+", &ISS_L1[..68]);
    let l2_dot = format!("{}.", &ISS_L2[..68]);
    let mut rec = SatRecord { name: None, epoch_utc: None, propagator: None, error: None };
    assert!(!refresh_record(&mut rec, 25544, None, &l1_plus, ISS_L2, epoch));
    assert_eq!(
        rec.error.as_deref(),
        Some("TLE parse error: Bad line checksum on TLE line 1 between characters 68 and 69")
    );
    assert!(!refresh_record(&mut rec, 25544, None, ISS_L1, &l2_dot, epoch));
    assert_eq!(
        rec.error.as_deref(),
        Some("TLE parse error: Bad line checksum on TLE line 2 between characters 68 and 69")
    );
    // A wrong checksum digit gets the same text from the SGP4 crate itself.
    let l1_wrong = format!("{}3", &ISS_L1[..68]);
    assert!(!refresh_record(&mut rec, 25544, None, &l1_wrong, ISS_L2, epoch));
    assert_eq!(
        rec.error.as_deref(),
        Some("TLE parse error: Bad line checksum on TLE line 1 between characters 68 and 69")
    );
    let fresh = new_record(25544, None, &l1_plus, ISS_L2, epoch);
    assert!(fresh.propagator.is_none());
    assert!(new_record(25544, None, ISS_L1, ISS_L2, epoch).propagator.is_some());
}

#[test]
fn cleaning_strips_all_whitespace_and_byte_order_marks() {
    let lines = clean_tle_lines("\u{feff}\tISS (ZARYA)\t\r\n \u{a0}\n\u{2003}1 25544U\u{3000}\n\t\n");
    assert_eq!(lines, vec!["ISS (ZARYA)".to_string(), "1 25544U".to_string()]);
    assert!(clean_tle_lines("\t").is_empty());
}

#[test]
fn the_clock_reads_after_the_epoch() {
    let now = bevyearth::time::utc_now().unwrap();
    assert!(now.secs > 1_600_000_000);
    assert!(now.nanos < 1_000_000_000);
    let cache = TleCache::with_dir("cache".to_string(), 14);
    assert!(cache.is_valid(&entry(25544, Utc::now())));
    assert!(!cache.is_valid(&entry(25544, Utc::now() - Duration::days(30))));
}

use bevyearth::tle::parser::tle_epoch_utc;
use chrono::TimeZone;

fn midnight(y: i32, m: u32, d: u32) -> i64 {
    Utc.with_ymd_and_hms(y, m, d, 0, 0, 0).unwrap().timestamp()
}

#[test]
fn tle_epoch_instants() {
    // 2008, day 264 is September 20th.
    assert_eq!(
        tle_epoch_utc(2008, 264, 44_740, 104_192_000),
        Some(UtcTimestamp { secs: midnight(2008, 9, 20) + 44_740, nanos: 104_192_000 })
    );
    // A rounded-up nanosecond count is carried into the seconds.
    assert_eq!(
        tle_epoch_utc(2008, 264, 10, 1_000_000_000),
        Some(UtcTimestamp { secs: midnight(2008, 9, 20) + 11, nanos: 0 })
    );
    // Days past the end of the year run on into the next; years before 1970 count back.
    assert_eq!(tle_epoch_utc(2023, 366, 0, 0), Some(UtcTimestamp { secs: midnight(2024, 1, 1), nanos: 0 }));
    assert_eq!(tle_epoch_utc(1958, 300, 0, 0), Some(UtcTimestamp { secs: midnight(1958, 10, 27), nanos: 0 }));
    assert!(midnight(1958, 10, 27) < 0);
    // Out of chrono's range.
    assert_eq!(tle_epoch_utc(i32::MAX, 1, 0, 0), None);
}

fn chrono_day_start(year: i32, day_of_year: i32) -> Option<i64> {
    let jan1 = chrono::NaiveDate::from_ymd_opt(year, 1, 1)?;
    let date = jan1.checked_add_signed(chrono::TimeDelta::days((day_of_year - 1) as i64))?;
    Some(date.and_hms_opt(0, 0, 0)?.and_utc().timestamp())
}

#[test]
fn day_starts_agree_with_chrono_across_its_calendar() {
    let years = [
        i32::MIN, -262_144, -262_143, -262_142, -100_001, -401, -400, -1, 0, 1, 4, 100, 1600, 1899, 1900, 1957,
        1969, 1970, 1971, 1972, 2000, 2024, 2100, 99_999, 262_141, 262_142, 262_143, i32::MAX,
    ];
    let days = [i32::MIN + 1, -1_000_000, -366, -1, 0, 1, 59, 60, 365, 366, 367, 1_000_000, i32::MAX];
    for &y in &years {
        for &d in &days {
            let ours = tle_epoch_utc(y, d, 0, 0).map(|t| t.secs);
            assert_eq!(ours, chrono_day_start(y, d), "year {} day {}", y, d);
        }
    }
}

#[test]
fn cache_paths_use_the_separator_given() {
    let win = TleCache::with_dir("C:\\cache\\tle".to_string(), 7);
    assert_eq!(win.cache_path_in(5, '\\'), "C:\\cache\\tle\\5.json");
    let trailing = TleCache::with_dir("C:\\cache\\".to_string(), 7);
    assert_eq!(trailing.cache_path_in(5, '\\'), "C:\\cache\\5.json");
    let slash = TleCache::with_dir("dir/".to_string(), 7);
    assert_eq!(slash.cache_path_in(5, '\\'), "dir/5.json");
    assert_eq!(slash.cache_path_in(5, '/'), "dir/5.json");
    // This platform's separator, as `PathBuf::join` uses it.
    let here = TleCache::with_dir("dir".to_string(), 7);
    let expected = std::path::Path::new("dir").join("5.json");
    assert_eq!(here.cache_path(5), expected.to_string_lossy());
}

#[test]
fn fetch_addresses_and_failure_texts() {
    assert_eq!(tle_url(25544), "https://celestrak.org/NORAD/elements/gp.php?CATNR=25544&FORMAT=TLE");
    assert_eq!(no_pair_message(7, "a\nb"), "No valid TLE pair found for 7. Sample: a\nb");
    assert_eq!(http_status_message("404 Not Found"), "HTTP 404 Not Found after parse");
    assert_eq!(group_status_message("500 Internal Server Error"), "HTTP 500 Internal Server Error for group fetch");
}

#[test]
fn test_cache_expiration() {
    let cache = TleCache::with_dir("/tmp/bevyearth-tle-cache-expiration".to_string(), 7);
    // An entry with an old epoch (10 days ago).
    let old_entry = CachedTle {
        norad: 88888,
        name: Some("OLD SATELLITE".to_string()),
        line1: "1 88888U 24001A   26044.51782528  .00000000  00000-0  00000-0 0  9999".to_string(),
        line2: "2 88888  51.6416 247.4627 0006703 290.1234  69.8765 15.48919393123456".to_string(),
        epoch_utc: stamp(Utc::now() - Duration::days(10)),
        cached_at: stamp(Utc::now()),
    };
    // Should be marked as expired.
    assert!(!cache.is_valid(&old_entry));
}

#[test]
fn cache_separator_is_the_platforms() {
    let cache = TleCache::with_dir("dir".to_string(), 7);
    assert_eq!(cache.separator(), std::path::MAIN_SEPARATOR);
    assert_eq!(cache.cache_path(25544), format!("dir{}25544.json", std::path::MAIN_SEPARATOR));
    assert_ne!(cache.cache_path(12), cache.cache_path(2));
}

#[test]
fn low_checksum_byte_reports_sgp4s_first_failing_check() {
    let epoch = UtcTimestamp { secs: 1_222_000_000, nanos: 0 };
    let mut rec = SatRecord { name: None, epoch_utc: None, propagator: None, error: None };
    // Line 1 starts with '3': the first-character check fails before the checksum.
    let l1 = format!("3{}+", &ISS_L1[1..68]);
    assert!(!refresh_record(&mut rec, 25544, None, &l1, ISS_L2, epoch));
    assert_eq!(
        rec.error.as_deref(),
        Some("TLE parse error: Bad first character on TLE line 1 between characters 0 and 1")
    );
    // Line 1's checksum digit is wrong and line 2 ends below '0': line 1 is reported.
    let l1_wrong = format!("{}3", &ISS_L1[..68]);
    let l2_dot = format!("{}.", &ISS_L2[..68]);
    assert!(!refresh_record(&mut rec, 25544, None, &l1_wrong, &l2_dot, epoch));
    assert_eq!(
        rec.error.as_deref(),
        Some("TLE parse error: Bad line checksum on TLE line 1 between characters 68 and 69")
    );
}
