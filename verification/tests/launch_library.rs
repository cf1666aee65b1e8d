use bevyearth::launch_library::pads::build_pad_markers;
use bevyearth::launch_library::parse::LaunchSummary;
use bevyearth::launch_library::request::{build_events_url, build_launches_url, LaunchLibraryConfig};
use bevyearth::json::{JsonNumber, JsonText, JsonValue};
use bevyearth::launch_library::parse::{
    extract_items, extract_name, get_f64, get_i64, get_string, parse_events, parse_launches,
};
use bevyearth::launch_library::state::{
    apply_launch_library_result_at, apply_launch_library_results, default_refresh_interval, fetch_due, Interval, LaunchLibraryData, LaunchLibraryFeed,
    LaunchLibraryResult, LaunchLibraryState,
};
use bevyearth::time::UtcTimestamp;

fn text(s: &str) -> JsonText {
    JsonText {
        text: s.to_string(),
        f32_bits: s.parse::<f32>().ok().map(f32::to_bits),
        trimmed_f32_bits: s.trim().parse::<f32>().ok().map(f32::to_bits),
        f64_bits: s.parse::<f64>().ok().map(f64::to_bits),
    }
}

fn convert(v: &serde_json::Value) -> JsonValue {
    match v {
        serde_json::Value::Null => JsonValue::Null,
        serde_json::Value::Bool(b) => JsonValue::Bool(*b),
        serde_json::Value::Number(n) => {
            let f = n.as_f64().unwrap();
            let g = f as f32;
            JsonValue::Number(JsonNumber {
                repr: text(&n.to_string()),
                as_i64: n.as_i64(),
                as_f64_bits: f.to_bits(),
                as_f32_bits: g.to_bits(),
                scaled_key: (g * 1000.0).round() as i32,
            })
        }
        serde_json::Value::String(s) => JsonValue::String(text(s)),
        serde_json::Value::Array(items) => JsonValue::Array(items.iter().map(convert).collect()),
        serde_json::Value::Object(map) => {
            JsonValue::Object(map.iter().map(|(k, v)| (text(k), convert(v))).collect())
        }
    }
}

fn json(body: &str) -> JsonValue {
    convert(&serde_json::from_str::<serde_json::Value>(body).unwrap())
}

const LAUNCHES: &str = r#"{"count": 2, "results": [
  {"id": 42, "name": "Falcon 9 | Starlink", "net": "2025-03-01T12:30:00Z",
   "pad": {"id": "87", "name": "SLC-40", "latitude": "28.5618571", "longitude": -80.577366,
           "location": {"name": "Cape Canaveral, FL, USA"}},
   "launch_service_provider": {"name": "SpaceX"},
   "mission": {"name": "Starlink Group 12", "orbit": {"name": "Low Earth Orbit"}}},
  {"net": "not a date", "location": "Somewhere", "service_provider": {"name": "Rocket Lab"},
   "orbit": {"name": "SSO"}}
]}"#;

#[test]
fn launches_are_read_field_by_field() {
    let launches = parse_launches(&json(LAUNCHES));
    assert_eq!(launches.len(), 2);
    let a = &launches[0];
    assert_eq!(a.id, Some(42));
    assert_eq!(a.name, "Falcon 9 | Starlink");
    assert_eq!(a.net_utc, Some(UtcTimestamp { secs: 1_740_832_200, nanos: 0 }));
    assert_eq!(a.pad_id, Some(87));
    assert_eq!(a.pad_name.as_deref(), Some("SLC-40"));
    assert_eq!(a.pad_lat.map(f64::from_bits), Some(28.5618571));
    assert_eq!(a.pad_lon.map(f64::from_bits), Some(-80.577366));
    assert_eq!(a.pad_location_name.as_deref(), Some("Cape Canaveral, FL, USA"));
    assert_eq!(a.provider_name.as_deref(), Some("SpaceX"));
    assert_eq!(a.mission_name.as_deref(), Some("Starlink Group 12"));
    assert_eq!(a.orbit_name.as_deref(), Some("Low Earth Orbit"));
    let b = &launches[1];
    assert_eq!(b.name, "Unnamed Launch");
    assert_eq!(b.id, None);
    assert_eq!(b.net_utc, None);
    assert_eq!(b.pad_location_name.as_deref(), Some("Somewhere"));
    assert_eq!(b.provider_name.as_deref(), Some("Rocket Lab"));
    assert_eq!(b.orbit_name.as_deref(), Some("SSO"));
    assert_eq!(b.mission_name, None);
}

#[test]
fn events_fall_back_to_net() {
    let body = r#"[{"id": 7, "name": "Spacewalk", "net": "2025-01-02T03:04:05Z",
                    "location": {"name": "ISS"}, "type": {"id": 2, "name": "EVA"},
                    "description": "US EVA 91"},
                   {"date": "2025-01-01T00:00:00Z", "net": "2026-01-01T00:00:00Z", "type": "Docking"}]"#;
    let events = parse_events(&json(body));
    assert_eq!(events.len(), 2);
    assert_eq!(events[0].date_utc, Some(UtcTimestamp { secs: 1_735_787_045, nanos: 0 }));
    assert_eq!(events[0].location.as_deref(), Some("ISS"));
    assert_eq!(events[0].event_type.as_deref(), Some("EVA"));
    assert_eq!(events[0].description.as_deref(), Some("US EVA 91"));
    assert_eq!(events[1].name, "Unnamed Event");
    assert_eq!(events[1].date_utc, Some(UtcTimestamp { secs: 1_735_689_600, nanos: 0 }));
    assert_eq!(events[1].event_type.as_deref(), Some("Docking"));
}

#[test]
fn item_helpers() {
    let v = json(r#"{"a": "x", "n": 5, "s": "-12", "f": "1.5", "bad": "1e", "arr": [1]}"#);
    assert_eq!(get_string(&v, "a").as_deref(), Some("x"));
    assert_eq!(get_string(&v, "n"), None);
    assert_eq!(get_i64(&v, "n"), Some(5));
    assert_eq!(get_i64(&v, "s"), Some(-12));
    assert_eq!(get_i64(&v, "bad"), None);
    assert_eq!(get_f64(&v, "f").map(f64::from_bits), Some(1.5));
    assert_eq!(get_f64(&v, "n").map(f64::from_bits), Some(5.0));
    assert_eq!(extract_name(&json(r#""plain""#)).as_deref(), Some("plain"));
    assert_eq!(extract_name(&json("3")), None);
    assert_eq!(extract_items(&json("[1, 2, 3]")).len(), 3);
    assert_eq!(extract_items(&json(r#"{"results": "none"}"#)).len(), 0);
    assert_eq!(extract_items(&json(r#"{"other": [1]}"#)).len(), 0);
}

fn at(secs: i64) -> UtcTimestamp {
    UtcTimestamp { secs, nanos: 0 }
}

#[test]
fn polling_and_answers() {
    let refresh = default_refresh_interval();
    assert_eq!(refresh, Interval { secs: 1800, nanos: 0 });
    let mut state = LaunchLibraryState::new();
    let plan = state.poll_plan(at(1000), refresh);
    assert!(plan.launches && plan.events);
    state.record_queued(LaunchLibraryFeed::Launches, at(1000), None);
    state.record_queued(LaunchLibraryFeed::Events, at(1000), Some("channel closed".to_string()));
    state.finish_poll();
    assert!(state.is_loading_launches);
    assert!(!state.is_loading_events);
    assert_eq!(state.event_error.as_deref(), Some("Failed to queue events fetch: channel closed"));
    let plan = state.poll_plan(at(2799), refresh);
    assert!(!plan.launches && plan.events);
    assert!(state.poll_plan(at(2800), refresh).launches);
    state.force_refresh = true;
    assert!(state.poll_plan(at(1001), refresh).launches);
    state.finish_poll();
    assert!(!state.force_refresh);

    let mut data = LaunchLibraryData { launches: Vec::new(), events: Vec::new() };
    let launches = parse_launches(&json(LAUNCHES));
    apply_launch_library_result_at(&mut state, &mut data, LaunchLibraryResult::Launches(launches), at(1100));
    assert_eq!(data.launches.len(), 2);
    assert_eq!(state.last_launch_update, Some(at(1100)));
    assert!(!state.is_loading_launches);
    apply_launch_library_results(
        &mut state,
        &mut data,
        LaunchLibraryResult::Error { feed: LaunchLibraryFeed::Launches, error: "HTTP 500".to_string() },
    );
    assert_eq!(state.launch_error.as_deref(), Some("HTTP 500"));
    assert_eq!(data.launches.len(), 2);
    assert!(fetch_due(None, at(0), refresh, false));
}

fn original_url(base: &str, path: &str, field: &str, mode: &str, limit: usize, days: i64, secs: i64) -> String {
    let now = chrono::DateTime::from_timestamp(secs, 0).unwrap();
    let mut url = reqwest::Url::parse(&format!("{}/{}/", base, path)).unwrap();
    let end = now + chrono::Duration::days(days);
    url.query_pairs_mut()
        .append_pair(&format!("{}__gte", field), &now.to_rfc3339())
        .append_pair(&format!("{}__lte", field), &end.to_rfc3339())
        .append_pair("ordering", field)
        .append_pair("limit", &limit.to_string())
        .append_pair("mode", mode);
    url.to_string()
}

#[test]
fn request_addresses() {
    let config = LaunchLibraryConfig::default();
    assert_eq!(config.base_url, "https://ll.thespacedevs.com/2.3.0");
    assert_eq!((config.limit, config.window_days, config.show_pad_markers), (10, 30, true));
    assert_eq!(config.refresh_interval, Interval { secs: 1800, nanos: 0 });
    let now = UtcTimestamp { secs: 1_700_000_000, nanos: 0 };
    assert_eq!(
        build_launches_url(&config, now).unwrap(),
        "https://ll.thespacedevs.com/2.3.0/launches/?net__gte=2023-11-14T22%3A13%3A20%2B00%3A00\
         &net__lte=2023-12-14T22%3A13%3A20%2B00%3A00&ordering=net&limit=10&mode=detailed"
    );
    assert_eq!(
        build_events_url(&config, now).unwrap(),
        original_url(&config.base_url, "events", "date", "list", 10, 30, 1_700_000_000)
    );
    assert_eq!(
        build_launches_url(&config, now).unwrap(),
        original_url(&config.base_url, "launches", "net", "detailed", 10, 30, 1_700_000_000)
    );
    let bad = LaunchLibraryConfig { base_url: "not a url".to_string(), ..LaunchLibraryConfig::default() };
    assert_eq!(build_launches_url(&bad, now), None);
    let far = LaunchLibraryConfig { window_days: i64::MAX, ..LaunchLibraryConfig::default() };
    assert_eq!(build_events_url(&far, now), None);
}

fn chrono_events_url(base: &str, days: i64, secs: i64, nanos: u32) -> Option<String> {
    let now = chrono::DateTime::from_timestamp(secs, nanos)?;
    let end = now.checked_add_signed(chrono::TimeDelta::try_days(days)?)?;
    let mut url = reqwest::Url::parse(&format!("{}/events/", base)).ok()?;
    url.query_pairs_mut()
        .append_pair("date__gte", &now.to_rfc3339())
        .append_pair("date__lte", &end.to_rfc3339())
        .append_pair("ordering", "date")
        .append_pair("limit", "10")
        .append_pair("mode", "list");
    Some(url.to_string())
}

#[test]
fn request_windows_agree_with_chrono() {
    let base = "https://ll.thespacedevs.com/2.3.0";
    // 2016-12-31T23:59:59 with 1.5 s of nanoseconds is inside a leap second.
    let instants: [(i64, u32); 5] = [
        (1_700_000_000, 0),
        (1_700_000_000, 999_999_999),
        (1_483_228_799, 1_500_000_000),
        (-8_000_000_000_000, 0),
        (8_210_266_876_799, 0),
    ];
    let windows: [i64; 9] = [-365_000, -3, -1, 0, 1, 30, 95_000_000, i64::MAX, i64::MIN];
    for &(secs, nanos) in &instants {
        for &days in &windows {
            let config = LaunchLibraryConfig { window_days: days, ..LaunchLibraryConfig::default() };
            let ours = build_events_url(&config, UtcTimestamp { secs, nanos });
            assert_eq!(ours, chrono_events_url(base, days, secs, nanos), "{} {} {}", secs, nanos, days);
        }
    }
}

fn launch(pad_id: Option<i64>, pad_name: Option<&str>, coords: Option<(f64, f64)>, net: Option<i64>) -> LaunchSummary {
    LaunchSummary {
        id: None,
        name: "launch".to_string(),
        net_utc: net.map(|secs| UtcTimestamp { secs, nanos: 0 }),
        pad_id,
        pad_name: pad_name.map(|n| n.to_string()),
        pad_lat: coords.map(|c| c.0.to_bits()),
        pad_lon: coords.map(|c| c.1.to_bits()),
        pad_location_name: None,
        provider_name: None,
        mission_name: None,
        orbit_name: None,
    }
}

#[test]
fn launches_are_grouped_by_pad() {
    let launches = vec![
        launch(Some(87), Some("LC-39A"), Some((28.6, -80.6)), Some(2_000)),
        launch(None, None, None, Some(1)),
        launch(None, Some("SLC-4E"), Some((34.632, -120.611)), None),
        launch(Some(87), Some("renamed"), Some((0.0, 0.0)), Some(1_000)),
        launch(Some(-5), None, Some((1.0, 2.0)), None),
        launch(None, Some("SLC-4E"), Some((34.632, -120.611)), Some(3_000)),
        launch(Some(87), Some("LC-39A"), Some((28.6, -80.6)), None),
    ];
    let coords: Vec<String> = launches
        .iter()
        .map(|l| match (l.pad_lat, l.pad_lon) {
            (Some(a), Some(b)) => format!("{:.3}:{:.3}", f64::from_bits(a), f64::from_bits(b)),
            _ => String::new(),
        })
        .collect();
    let markers = build_pad_markers(&launches, &coords);
    assert_eq!(markers.len(), 3);
    assert_eq!(markers[0].pad_key, "id:87");
    assert_eq!(markers[0].pad_name, "LC-39A");
    assert_eq!(f64::from_bits(markers[0].pad_lat), 28.6);
    assert_eq!(markers[0].launch_count, 3);
    assert_eq!(markers[0].next_net, Some(UtcTimestamp { secs: 1_000, nanos: 0 }));
    assert_eq!(markers[1].pad_key, "name:SLC-4E:34.632:-120.611");
    assert_eq!(markers[1].launch_count, 2);
    assert_eq!(markers[1].next_net, Some(UtcTimestamp { secs: 3_000, nanos: 0 }));
    assert_eq!(markers[2].pad_key, "id:-5");
    assert_eq!(markers[2].pad_name, "Launch Pad");
    assert_eq!(markers[2].next_net, None);
}
