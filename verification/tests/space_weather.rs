use bevyearth::space_weather::feeds::{ovation_feed_at, ovation_from_table_at};
use bevyearth::space_weather::ovation::parse_ovation_object_at;
use bevyearth::json::{JsonNumber, JsonText, JsonValue};
use bevyearth::space_weather::feeds::{
    kp_from_table, mag_from_table, ovation_feed, ovation_from_table, plasma_from_table, AuroraData,
    FeedError, OvationFeedError,
};
use bevyearth::space_weather::fetcher::{
    find_column, get_cell, header_looks_numeric, infer_ovation_columns, normalize_key, parse_json_table,
    cell_number, TableError,
};
use bevyearth::space_weather::grid::{build_index_map, min_key_step};
use bevyearth::space_weather::ovation::{parse_ovation_object, OvationError};
use bevyearth::space_weather::readings::{
    latest_numeric, latest_numeric_with_time, latest_timestamp, parse_timestamp,
};
use bevyearth::time::UtcTimestamp;
use chrono::TimeZone;

fn text(s: &str) -> JsonText {
    JsonText {
        text: s.to_string(),
        f32_bits: s.parse::<f32>().ok().map(f32::to_bits),
        trimmed_f32_bits: s.trim().parse::<f32>().ok().map(f32::to_bits),
        f64_bits: s.parse::<f64>().ok().map(f64::to_bits),
    }
}

fn convert(v: &serde_json::Value) -> JsonValue {
    match v {
        serde_json::Value::Null => JsonValue::Null,
        serde_json::Value::Bool(b) => JsonValue::Bool(*b),
        serde_json::Value::Number(n) => {
            let f = n.as_f64().unwrap();
            let g = f as f32;
            JsonValue::Number(JsonNumber {
                repr: text(&n.to_string()),
                as_i64: n.as_i64(),
                as_f64_bits: f.to_bits(),
                as_f32_bits: g.to_bits(),
                scaled_key: (g * 1000.0).round() as i32,
            })
        }
        serde_json::Value::String(s) => JsonValue::String(text(s)),
        serde_json::Value::Array(items) => JsonValue::Array(items.iter().map(convert).collect()),
        serde_json::Value::Object(map) => {
            JsonValue::Object(map.iter().map(|(k, v)| (text(k), convert(v))).collect())
        }
    }
}

fn json(body: &str) -> JsonValue {
    convert(&serde_json::from_str::<serde_json::Value>(body).unwrap())
}

fn value(bits: u32) -> f32 {
    f32::from_bits(bits)
}

fn utc(y: i32, mo: u32, d: u32, h: u32, mi: u32, s: u32) -> UtcTimestamp {
    let t = chrono::Utc.with_ymd_and_hms(y, mo, d, h, mi, s).unwrap();
    UtcTimestamp { secs: t.timestamp(), nanos: t.timestamp_subsec_nanos() }
}

#[test]
fn parse_table_array_rows() {
    let body = r#"[["time_tag","kp"],["2024-01-01 00:00:00","2.33"]]"#;
    let table = parse_json_table(&json(body)).ok().unwrap();
    let header: Vec<&str> = table.header.iter().map(|t| t.text.as_str()).collect();
    assert_eq!(header, vec!["time_tag", "kp"]);
    assert_eq!(table.rows.len(), 1);
    assert_eq!(table.rows[0][1].text, "2.33");
}

#[test]
fn parse_kp_latest() {
    let body = r#"[["time_tag","kp"],["2024-01-01 00:00:00","1.0"],["2024-01-01 03:00:00","2.67"]]"#;
    let table = parse_json_table(&json(body)).ok().unwrap();
    let kp_idx = find_column(&table.header, &["kp"]).unwrap();
    let time_idx = find_column(&table.header, &["time_tag"]);
    let (bits, _) = latest_numeric_with_time(&table.rows, kp_idx, time_idx).unwrap();
    assert!((value(bits) - 2.67).abs() < 1e-4);
}

#[test]
fn parse_ovation_points() {
    let body = r#"[["lat","lon","aurora"],["65.0","-150.0","42"],["66.0","-151.0","0"]]"#;
    let table = parse_json_table(&json(body)).ok().unwrap();
    let lat_idx = find_column(&table.header, &["lat"]).unwrap();
    let lon_idx = find_column(&table.header, &["lon"]).unwrap();
    let value_idx = find_column(&table.header, &["aurora"]).unwrap();
    let mut points = Vec::new();
    for row in table.rows.iter() {
        let lat = value(cell_number(row, lat_idx).unwrap());
        let lon = value(cell_number(row, lon_idx).unwrap());
        let v = value(cell_number(row, value_idx).unwrap());
        points.push((lat, lon, v));
    }
    assert_eq!(points.len(), 2);
    assert_eq!(points[0].0, 65.0);
}

#[test]
fn parse_ovation_object_coordinates_grid() {
    let body = r#"{
        "Forecast Time": "2024-01-01 00:00:00",
        "coordinates": [
            [0, -90, 1.0],
            [1, -90, 2.0],
            [0, -89, 3.0],
            [1, -89, 4.0]
        ]
    }"#;
    let grid = parse_ovation_object(&json(body)).ok().unwrap();
    assert_eq!(grid.cells.lon_keys.len(), 2);
    assert_eq!(grid.cells.lat_keys.len(), 2);
    assert_eq!(grid.cells.values.len(), 4);
    assert!((value(grid.cells.max_value) - 4.0).abs() < 1e-4);
    assert!(((grid.cells.lon_keys[0] as f32) / 1000.0 - 0.0).abs() < 1e-4);
    assert!(((grid.cells.lat_keys[0] as f32) / 1000.0 + 90.0).abs() < 1e-4);
    let lon_step = grid.lon_step.map(|s| s as f32 / 1000.0).unwrap_or(1.0);
    let lat_step = grid.lat_step.map(|s| s as f32 / 1000.0).unwrap_or(1.0);
    assert!((lon_step - 1.0).abs() < 1e-4);
    assert!((lat_step - 1.0).abs() < 1e-4);
    assert!((value(grid.cells.values[0]) - 1.0).abs() < 1e-4);
    assert!((value(grid.cells.values[1]) - 2.0).abs() < 1e-4);
    assert!((value(grid.cells.values[2]) - 3.0).abs() < 1e-4);
    assert!((value(grid.cells.values[3]) - 4.0).abs() < 1e-4);
    assert_eq!(grid.updated_utc, Some(utc(2024, 1, 1, 0, 0, 0)));
}

#[test]
fn parse_ovation_geojson_like() {
    let body = r#"{
        "features": [
            { "geometry": { "coordinates": [10, 50, 5.0] } },
            { "geometry": { "coordinates": [11, 50, 6.0] } }
        ]
    }"#;
    let grid = parse_ovation_object(&json(body)).ok().unwrap();
    assert_eq!(grid.cells.lon_keys.len(), 2);
    assert_eq!(grid.cells.lat_keys.len(), 1);
    assert!((value(grid.cells.max_value) - 6.0).abs() < 1e-4);
}

#[test]
fn ovation_object_keeps_greatest_value_per_cell() {
    let body = r#"{"coordinates": [[5, 10, 1.0], [5, 10, 7.5], [5, 10, 2.0], [6, 10, 0.5]]}"#;
    let grid = parse_ovation_object(&json(body)).ok().unwrap();
    assert_eq!(grid.cells.lon_keys, vec![5000, 6000]);
    assert_eq!(grid.cells.lat_keys, vec![10000]);
    assert_eq!(value(grid.cells.values[0]), 7.5);
    assert_eq!(value(grid.cells.values[1]), 0.5);
    assert_eq!(value(grid.cells.max_value), 7.5);
}

#[test]
fn ovation_object_reads_latitude_first_triples() {
    // 200 is no latitude, so only the latitude-first reading applies.
    let body = r#"{"data": [[45, 200, 3.0], [46, 200, 4.0]]}"#;
    let grid = parse_ovation_object(&json(body)).ok().unwrap();
    assert_eq!(grid.cells.lon_keys, vec![200000]);
    assert_eq!(grid.cells.lat_keys, vec![45000, 46000]);
    assert_eq!(grid.lat_step, Some(1000));
    assert_eq!(grid.lon_step, None);
}

#[test]
fn ovation_object_errors() {
    assert_eq!(parse_ovation_object(&json("[1, 2, 3]")).err(), Some(OvationError::NotObject));
    assert_eq!(
        parse_ovation_object(&json(r#"{"coordinates": [["a", "b", "c"]]}"#)).err(),
        Some(OvationError::EmptyCoordinates)
    );
    assert_eq!(OvationError::NotObject.message(), "ovation: expected json object");
    assert_eq!(OvationError::EmptyCoordinates.message(), "ovation: empty coordinates");
}

#[test]
fn ovation_feed_falls_back_to_table() {
    let body = r#"[["lat","lon","aurora","time_tag"],["65.0","-150.0","42","2024-03-01 12:00:00"],["66.0","-151.0","7","2024-03-01 12:05:00"]]"#;
    match ovation_feed(&json(body)) {
        Ok(AuroraData::Points(t)) => {
            assert_eq!(t.points.len(), 2);
            assert_eq!(value(t.points[1].1), -151.0);
            assert_eq!(value(t.max_value), 42.0);
            assert_eq!(t.updated_utc, Some(utc(2024, 3, 1, 12, 5, 0)));
        }
        _ => panic!("expected table points"),
    }
    match ovation_feed(&json(r#"{"coordinates": [[1, 2, 3.0]]}"#)) {
        Ok(AuroraData::Grid(g)) => assert_eq!(g.cells.values.len(), 1),
        _ => panic!("expected a grid"),
    }
    match ovation_feed(&json("[]")) {
        Err(OvationFeedError::Table(TableError::EmptyTable)) => {}
        _ => panic!("expected an empty table error"),
    }
}

#[test]
fn ovation_table_infers_columns_from_numeric_header() {
    let body = r#"[["10.0","20.0","5"],["11.0","21.0","6"],["12.0","22.0","7"]]"#;
    let table = parse_json_table(&json(body)).ok().unwrap();
    assert!(header_looks_numeric(&table.header));
    let t = ovation_from_table(&table).ok().unwrap();
    assert_eq!(t.points.len(), 3);
    assert_eq!(value(t.points[0].0), 10.0);
    assert_eq!(value(t.points[0].1), 20.0);
    assert_eq!(value(t.max_value), 7.0);
}

#[test]
fn ovation_table_missing_columns() {
    let table = parse_json_table(&json(r#"[["a","b"],["x","y"]]"#)).ok().unwrap();
    assert_eq!(ovation_from_table(&table).err(), Some(FeedError::MissingLatitude));
    let table = parse_json_table(&json(r#"[["lat","b"],["1","y"]]"#)).ok().unwrap();
    assert_eq!(ovation_from_table(&table).err(), Some(FeedError::MissingLongitude));
    let table = parse_json_table(&json(r#"[["lat","lon"],["1","2"]]"#)).ok().unwrap();
    assert_eq!(ovation_from_table(&table).err(), Some(FeedError::MissingIntensity));
    assert_eq!(FeedError::MissingIntensity.message(), "ovation: missing intensity column");
}

#[test]
fn kp_errors_and_value() {
    let table = parse_json_table(&json(r#"[["time_tag","a_running"],["2024-01-01 00:00:00","3"]]"#))
        .ok()
        .unwrap();
    assert_eq!(kp_from_table(&table).err(), Some(FeedError::MissingKpColumn));
    let table = parse_json_table(&json(r#"[["time_tag","kp"],["2024-01-01 00:00:00","null"]]"#))
        .ok()
        .unwrap();
    assert_eq!(kp_from_table(&table).err(), Some(FeedError::NoKpRows));
    assert_eq!(FeedError::NoKpRows.message(), "kp: no valid rows");
    let table = parse_json_table(&json(
        r#"[["time_tag","Kp"],["2024-01-01 00:00:00","1.0"],["2024-01-01 03:00:00.000","2.67"]]"#,
    ))
    .ok()
    .unwrap();
    let (bits, ts) = kp_from_table(&table).ok().unwrap();
    assert!((value(bits) - 2.67).abs() < 1e-4);
    assert_eq!(ts, Some(utc(2024, 1, 1, 3, 0, 0)));
}

#[test]
fn mag_and_plasma_readings() {
    let body = r#"[["time_tag","bx_gsm","bz_gsm","bt"],["2024-01-01 00:00:00","1","-2.5","4"],["2024-01-01 00:01:00","1","","5.5"]]"#;
    let table = parse_json_table(&json(body)).ok().unwrap();
    let (bt, bz, ts) = mag_from_table(&table).ok().unwrap();
    assert_eq!(bt.map(value), Some(5.5));
    assert_eq!(bz.map(value), Some(-2.5));
    assert_eq!(ts, Some(utc(2024, 1, 1, 0, 1, 0)));
    let body = r#"[["time_tag","density","speed","temperature"],["2024-01-01 00:00:00","3.1","410.2","1"]]"#;
    let table = parse_json_table(&json(body)).ok().unwrap();
    let (speed, density, _) = plasma_from_table(&table).ok().unwrap();
    assert_eq!(speed.map(value), Some(410.2));
    assert_eq!(density.map(value), Some(3.1));
    let table = parse_json_table(&json(r#"[["time_tag","x"],["2024-01-01 00:00:00","1"]]"#)).ok().unwrap();
    assert_eq!(mag_from_table(&table).err(), Some(FeedError::MissingMagValues));
    assert_eq!(plasma_from_table(&table).err(), Some(FeedError::MissingPlasmaValues));
    assert_eq!(FeedError::MissingMagValues.message(), "mag: missing bt/bz values");
}

#[test]
fn timestamps_in_three_layouts() {
    assert_eq!(parse_timestamp("2024-01-01T00:00:00Z"), Some(utc(2024, 1, 1, 0, 0, 0)));
    assert_eq!(parse_timestamp(" 2024-01-01 10:20:30 "), Some(utc(2024, 1, 1, 10, 20, 30)));
    let t = parse_timestamp("2024-01-01 10:20:30.250").unwrap();
    assert_eq!(t.secs, utc(2024, 1, 1, 10, 20, 30).secs);
    assert_eq!(t.nanos, 250_000_000);
    assert_eq!(parse_timestamp("null"), None);
    assert_eq!(parse_timestamp("   "), None);
    assert_eq!(parse_timestamp("yesterday"), None);
}

#[test]
fn latest_values_scan_from_the_end() {
    let rows = vec![
        vec![text("2024-01-01 00:00:00"), text("1.5")],
        vec![text("bad"), text("2.5")],
        vec![text(""), text("null")],
    ];
    assert_eq!(latest_numeric(&rows, 1).map(value), Some(2.5));
    assert_eq!(latest_numeric(&rows, 5), None);
    assert_eq!(latest_numeric_with_time(&rows, 1, Some(0)).map(|(v, t)| (value(v), t)), Some((2.5, None)));
    assert_eq!(latest_timestamp(&rows, Some(0)), Some(utc(2024, 1, 1, 0, 0, 0)));
    assert_eq!(latest_timestamp(&rows, None), None);
}

#[test]
fn index_map_and_steps() {
    let m = build_index_map(&[-5000, 0, 2000, 9000]);
    assert_eq!(m.len(), 4);
    assert_eq!(m[&2000], 2);
    let m = build_index_map(&[7, 8, 7]);
    assert_eq!(m[&7], 2);
    assert_eq!(m[&8], 1);
    assert_eq!(min_key_step(&[-5000, 0, 2000, 9000]), Some(2000));
    assert_eq!(min_key_step(&[3]), None);
    assert_eq!(min_key_step(&[4, 4]), None);
    assert_eq!(min_key_step(&[0, i32::MAX]), None);
}

#[test]
fn column_lookup_and_cells() {
    assert_eq!(normalize_key(" Time-Tag/UTC "), "timetagutc");
    let header = vec![text("Time Tag"), text("Bz_GSM"), text("bt")];
    assert_eq!(find_column(&header, &["bz"]), Some(1));
    assert_eq!(find_column(&header, &["time_tag", "bt"]), Some(0));
    assert_eq!(find_column(&header, &["speed"]), None);
    let row = vec![text("  4.5 "), text("null"), text(" ")];
    assert_eq!(get_cell(&row, 0), Some("4.5"));
    assert_eq!(get_cell(&row, 1), None);
    assert_eq!(get_cell(&row, 2), None);
    assert_eq!(get_cell(&row, 3), None);
    assert_eq!(cell_number(&row, 0).map(value), Some(4.5));
}

#[test]
fn header_numeric_and_inference() {
    assert!(!header_looks_numeric(&[]));
    assert!(header_looks_numeric(&[text("1"), text("2"), text("x")]));
    assert!(!header_looks_numeric(&[text("1"), text("y"), text("x")]));
    assert!(header_looks_numeric(&[text("5")]));
    let rows = vec![
        vec![text("60"), text("-150"), text("3")],
        vec![text("61"), text("-149"), text("0")],
    ];
    assert_eq!(infer_ovation_columns(&rows), Some((0, 1, 2)));
    assert_eq!(infer_ovation_columns(&[]), None);
    let rows = vec![vec![text("a"), text("b")]];
    assert_eq!(infer_ovation_columns(&rows), None);
}

#[test]
fn table_error_texts() {
    assert_eq!(TableError::EmptyTable.message().as_deref(), Some("empty json table"));
    assert_eq!(TableError::NotArray.message().as_deref(), Some("expected json array"));
    let keys = vec!["alpha".to_string(), "beta".to_string()];
    assert_eq!(
        TableError::ObjectWithoutArray(keys).message().as_deref(),
        Some("expected json array (object keys: alpha, beta)")
    );
    assert_eq!(
        TableError::UnexpectedString("short".to_string()).message().as_deref(),
        Some("expected json array (string: short)")
    );
    let long = "x".repeat(130);
    assert_eq!(
        TableError::UnexpectedString(long).message(),
        Some(format!("expected json array (string: {}...)", "x".repeat(120)))
    );
    let cut = format!("{}é{}", "x".repeat(119), "y".repeat(10));
    assert_eq!(TableError::UnexpectedString(cut).message(), None);
    match parse_json_table(&json(r#"{"error": "  rate limited "}"#)) {
        Err(TableError::Message(m)) => assert_eq!(m, "rate limited"),
        _ => panic!("expected the error message"),
    }
    match parse_json_table(&json(r#"{"b": 1, "a": 2}"#)) {
        Err(e) => assert_eq!(e.message().as_deref(), Some("expected json array (object keys: a, b)")),
        _ => panic!("expected an error"),
    }
}

fn set_first_key(v: &mut JsonValue, key: i32) {
    if let JsonValue::Array(items) = v {
        if let Some(JsonValue::Number(n)) = items.get_mut(0) {
            n.scaled_key = key;
        }
    }
}

#[test]
fn ovation_object_reports_steps_beyond_i32() {
    let mut doc = json(r#"{"coordinates": [[5, 10, 1.0], [6, 10, 2.0]]}"#);
    if let JsonValue::Object(es) = &mut doc {
        if let JsonValue::Array(triples) = &mut es[0].1 {
            set_first_key(&mut triples[0], i32::MIN);
            set_first_key(&mut triples[1], i32::MAX);
        }
    }
    match parse_ovation_object(&doc) {
        Err(e) => {
            assert_eq!(e, OvationError::StepOverflow);
            assert_eq!(e.message(), "ovation: coordinate step out of range");
        }
        Ok(_) => panic!("expected a step overflow"),
    }
    assert_eq!(OvationError::GridTooLarge.message(), "ovation: grid too large");
}

#[test]
fn object_table_header_follows_the_objects_key_order() {
    let doc = JsonValue::Array(vec![JsonValue::Object(vec![
        (text("b"), JsonValue::String(text("1"))),
        (text("a"), JsonValue::String(text("2"))),
    ])]);
    let table = parse_json_table(&doc).ok().unwrap();
    assert_eq!(table.header[0].text, "b");
    assert_eq!(table.header[1].text, "a");
    assert_eq!(table.rows[0][0].text, "1");
}

#[test]
fn aurora_time_falls_back_to_the_reading_given() {
    let now = Some(UtcTimestamp { secs: 1_700_000_000, nanos: 0 });
    let grid = parse_ovation_object_at(&json(r#"{"coordinates": [[5, 10, 1.0]]}"#), now).ok().unwrap();
    assert_eq!(grid.updated_utc, now);
    let tagged = r#"{"Forecast Time": "2024-01-01T00:00:00Z", "coordinates": [[5, 10, 1.0]]}"#;
    let grid = parse_ovation_object_at(&json(tagged), now).ok().unwrap();
    assert_eq!(grid.updated_utc, Some(utc(2024, 1, 1, 0, 0, 0)));
    assert_eq!(parse_ovation_object_at(&json(r#"{"coordinates": [[5, 10, 1.0]]}"#), None).ok().unwrap().updated_utc, None);
    let untagged = r#"[["lat","lon","aurora"],["65.0","-150.0","42"]]"#;
    match ovation_feed_at(&json(untagged), now) {
        Ok(AuroraData::Points(t)) => assert_eq!(t.updated_utc, now),
        _ => panic!("expected table points"),
    }
    let table = parse_json_table(&json(untagged)).ok().unwrap();
    assert_eq!(ovation_from_table_at(&table, None).ok().unwrap().updated_utc, None);
    // Without a reading given, the clock's is used.
    let read = ovation_from_table(&table).ok().unwrap().updated_utc.unwrap();
    assert!(read.secs > 1_600_000_000);
}
