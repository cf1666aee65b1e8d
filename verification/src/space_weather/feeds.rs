//! What each SWPC feed yields from its table: the aurora points of an
//! OVATION table, the latest Kp index, and the latest solar-wind readings.
use vstd::prelude::*;
use crate::floatbits::{f32_lt, lt, ZERO};
use crate::json::{JsonText, JsonValue, TextReading};
use crate::space_weather::fetcher::{
    cell_number, cell_number_spec, find_column, find_column_spec, header_looks_numeric, header_matches,
    header_looks_numeric_spec, header_texts, infer_ovation_columns, infer_ovation_columns_spec, rows_view,
    strs_ref_view, texts_view, JsonTable,
};
use crate::space_weather::readings::{
    latest_numeric, latest_numeric_spec, latest_numeric_with_time, latest_numeric_with_time_spec,
    latest_timestamp, latest_timestamp_spec,
};
use crate::space_weather::fetcher::{json_table_spec, parse_json_table, table_result_view, TableError, TableSpec};
use crate::space_weather::ovation::{grid_outcome, ovation_grid_error, ovation_points, parse_ovation_object_at, OvationGrid};
use crate::time::{utc_now, UtcTimestamp};

verus! {

// ----------------------------------------------------------------------------
// Columns
// ----------------------------------------------------------------------------

/// The first header cell at or after `i` that one of the names matches.
pub open spec fn column_from(header: Seq<Seq<char>>, names: Seq<Seq<char>>, i: int) -> Option<usize>
    decreases header.len() - i,
{
    if i < 0 || i >= header.len() {
        None
    } else if header_matches(header[i], names) {
        Some(i as usize)
    } else {
        column_from(header, names, i + 1)
    }
}

/// The column of a table that one of the names denotes (`find_column`).
pub open spec fn column_of(header: Seq<TextReading>, names: Seq<Seq<char>>) -> Option<usize> {
    column_from(header.map_values(|t: TextReading| t.text), names, 0)
}

/// `find_column`'s answer is the first matching column.
proof fn lemma_find_column(h: Seq<Seq<char>>, names: Seq<Seq<char>>, r: Option<usize>, i: int)
    requires
        find_column_spec(h, names, r),
        h.len() <= usize::MAX,
        0 <= i <= h.len(),
        forall|k: int| 0 <= k < i ==> !header_matches(#[trigger] h[k], names),
    ensures
        r == column_from(h, names, i),
    decreases h.len() - i,
{
    if i < h.len() && !header_matches(h[i], names) {
        lemma_find_column(h, names, r, i + 1);
    }
}

/// The column one of the names denotes.
fn named_column(header: &[JsonText], names: &[&str], Ghost(spec_names): Ghost<Seq<Seq<char>>>) -> (r: Option<usize>)
    requires
        strs_ref_view(names@) == spec_names,
    ensures
        r == column_of(texts_view(header@), spec_names),
{
    let r = find_column(header, names);
    proof {
        assert(header_texts(header@) =~= texts_view(header@).map_values(|t: TextReading| t.text));
        assert(header_texts(header@).len() == header.len());
        lemma_find_column(header_texts(header@), spec_names, r, 0);
    }
    r
}

/// Names of a latitude column.
pub open spec fn lat_names() -> Seq<Seq<char>> {
    seq![
        "lat"@,
        "latitude"@,
        "lat_deg"@,
        "latitude_deg"@,
        "geomagnetic_latitude"@,
        "magnetic_latitude"@,
        "mlat"@,
    ]
}

/// Names of a longitude column.
pub open spec fn lon_names() -> Seq<Seq<char>> {
    seq![
        "lon"@,
        "longitude"@,
        "lon_deg"@,
        "longitude_deg"@,
        "geomagnetic_longitude"@,
        "magnetic_longitude"@,
        "mlon"@,
    ]
}

/// Names of an aurora intensity column.
pub open spec fn value_names() -> Seq<Seq<char>> {
    seq!["aurora"@, "probability"@, "intensity"@, "power"@, "value"@]
}

/// Names of a time column.
pub open spec fn time_names() -> Seq<Seq<char>> {
    seq!["time_tag"@, "timestamp"@, "time"@]
}

/// Names of a Kp column.
pub open spec fn kp_names() -> Seq<Seq<char>> {
    seq!["kp"@, "kp_index"@]
}

/// Names of a total field (Bt) column.
pub open spec fn bt_names() -> Seq<Seq<char>> {
    seq!["bt"@, "bt_gsm"@]
}

/// Names of a north-south field (Bz) column.
pub open spec fn bz_names() -> Seq<Seq<char>> {
    seq!["bz_gsm"@, "bz"@, "bz_gse"@]
}

/// Names of a solar-wind speed column.
pub open spec fn speed_names() -> Seq<Seq<char>> {
    seq!["speed"@, "proton_speed"@]
}

/// Names of a solar-wind density column.
pub open spec fn density_names() -> Seq<Seq<char>> {
    seq!["density"@, "proton_density"@]
}

fn lat_column(header: &[JsonText]) -> (r: Option<usize>)
    ensures
        r == column_of(texts_view(header@), lat_names()),
{
    let names: [&str; 7] = [
        "lat",
        "latitude",
        "lat_deg",
        "latitude_deg",
        "geomagnetic_latitude",
        "magnetic_latitude",
        "mlat",
    ];
    assert(strs_ref_view(names@) =~= lat_names());
    named_column(header, &names, Ghost(lat_names()))
}

fn lon_column(header: &[JsonText]) -> (r: Option<usize>)
    ensures
        r == column_of(texts_view(header@), lon_names()),
{
    let names: [&str; 7] = [
        "lon",
        "longitude",
        "lon_deg",
        "longitude_deg",
        "geomagnetic_longitude",
        "magnetic_longitude",
        "mlon",
    ];
    assert(strs_ref_view(names@) =~= lon_names());
    named_column(header, &names, Ghost(lon_names()))
}

fn value_column(header: &[JsonText]) -> (r: Option<usize>)
    ensures
        r == column_of(texts_view(header@), value_names()),
{
    let names: [&str; 5] = ["aurora", "probability", "intensity", "power", "value"];
    assert(strs_ref_view(names@) =~= value_names());
    named_column(header, &names, Ghost(value_names()))
}

fn time_column(header: &[JsonText]) -> (r: Option<usize>)
    ensures
        r == column_of(texts_view(header@), time_names()),
{
    let names: [&str; 3] = ["time_tag", "timestamp", "time"];
    assert(strs_ref_view(names@) =~= time_names());
    named_column(header, &names, Ghost(time_names()))
}

/// Why a feed's table yields nothing.
#[derive(Debug, PartialEq, Eq, Structural)]
pub enum FeedError {
    MissingLatitude,
    MissingLongitude,
    MissingIntensity,
    MissingKpColumn,
    NoKpRows,
    MissingMagValues,
    MissingPlasmaValues,
}

/// The text of each feed error.
pub open spec fn feed_error_text(e: FeedError) -> Seq<char> {
    match e {
        FeedError::MissingLatitude => "ovation: missing latitude column"@,
        FeedError::MissingLongitude => "ovation: missing longitude column"@,
        FeedError::MissingIntensity => "ovation: missing intensity column"@,
        FeedError::MissingKpColumn => "kp: missing kp column"@,
        FeedError::NoKpRows => "kp: no valid rows"@,
        FeedError::MissingMagValues => "mag: missing bt/bz values"@,
        FeedError::MissingPlasmaValues => "plasma: missing speed/density values"@,
    }
}

impl FeedError {
    /// The text of the error.
    pub fn message(&self) -> (r: String)
        ensures
            r@ == feed_error_text(*self),
    {
        match self {
            FeedError::MissingLatitude => String::from_str("ovation: missing latitude column"),
            FeedError::MissingLongitude => String::from_str("ovation: missing longitude column"),
            FeedError::MissingIntensity => String::from_str("ovation: missing intensity column"),
            FeedError::MissingKpColumn => String::from_str("kp: missing kp column"),
            FeedError::NoKpRows => String::from_str("kp: no valid rows"),
            FeedError::MissingMagValues => String::from_str("mag: missing bt/bz values"),
            FeedError::MissingPlasmaValues => String::from_str("plasma: missing speed/density values"),
        }
    }
}

// ----------------------------------------------------------------------------
// OVATION tables
// ----------------------------------------------------------------------------

/// Whether one of the three named columns is missing.
pub open spec fn named_columns_incomplete(header: Seq<TextReading>) -> bool {
    column_of(header, lat_names()) is None || column_of(header, lon_names()) is None || column_of(
        header,
        value_names(),
    ) is None
}

/// The rows an OVATION table is read from: its data rows, preceded by the
/// header row when a named column is missing and the header holds numbers.
pub open spec fn ovation_rows(header: Seq<TextReading>, rows: Seq<Seq<TextReading>>) -> Seq<Seq<TextReading>> {
    if named_columns_incomplete(header) && header_looks_numeric_spec(header) {
        seq![header] + rows
    } else {
        rows
    }
}

/// The (latitude, longitude, intensity) columns: the named ones, unless one
/// is missing and the columns can be told from the data, which then decides
/// all three.
pub open spec fn ovation_columns(header: Seq<TextReading>, rows: Seq<Seq<TextReading>>) -> (
    Option<usize>,
    Option<usize>,
    Option<usize>,
) {
    let named = (column_of(header, lat_names()), column_of(header, lon_names()), column_of(header, value_names()));
    if named_columns_incomplete(header) {
        match infer_ovation_columns_spec(ovation_rows(header, rows)) {
            Some((a, b, c)) => (Some(a), Some(b), Some(c)),
            None => named,
        }
    } else {
        named
    }
}

/// The (latitude, longitude, value) numbers of a row, when all three are there.
pub open spec fn row_point(row: Seq<TextReading>, lat: int, lon: int, value: int) -> Option<(u32, u32, u32)> {
    match (cell_number_spec(row, lat), cell_number_spec(row, lon), cell_number_spec(row, value)) {
        (Some(a), Some(b), Some(c)) => Some((a, b, c)),
        _ => None,
    }
}

/// The points of the rows that have all three numbers, in order.
pub open spec fn table_points(rows: Seq<Seq<TextReading>>, lat: int, lon: int, value: int) -> Seq<(u32, u32, u32)>
    decreases rows.len(),
{
    if rows.len() == 0 {
        Seq::empty()
    } else {
        let before = table_points(rows.drop_last(), lat, lon, value);
        match row_point(rows.last(), lat, lon, value) {
            Some(p) => before.push(p),
            None => before,
        }
    }
}

/// The greatest intensity, starting from `0.0` (`f32` comparison on bits).
pub open spec fn points_max(points: Seq<(u32, u32, u32)>) -> u32
    decreases points.len(),
{
    if points.len() == 0 {
        ZERO
    } else {
        let cur = points_max(points.drop_last());
        if lt(cur, points.last().2) {
            points.last().2
        } else {
            cur
        }
    }
}

proof fn lemma_points_max_not_nan(points: Seq<(u32, u32, u32)>)
    ensures
        !crate::floatbits::is_nan(points_max(points)),
    decreases points.len(),
{
    if points.len() > 0 {
        lemma_points_max_not_nan(points.drop_last());
    }
}

/// The greatest intensity reported is not less than that of any point.
pub proof fn points_max_bounds_points(points: Seq<(u32, u32, u32)>, i: int)
    requires
        0 <= i < points.len(),
    ensures
        !lt(points_max(points), points[i].2),
    decreases points.len(),
{
    let pre = points.drop_last();
    lemma_points_max_not_nan(pre);
    if i < points.len() - 1 {
        assert(pre[i] == points[i]);
        points_max_bounds_points(pre, i);
    }
}

/// The aurora points of an OVATION table.
pub struct TablePoints {
    /// (latitude, longitude, intensity), as `f32` bits.
    pub points: Vec<(u32, u32, u32)>,
    /// The greatest intensity, as `f32` bits.
    pub max_value: u32,
    /// The latest time tag of the rows, else the time the table was read
    /// (`None` where the clock could not be read).
    pub updated_utc: Option<UtcTimestamp>,
}

/// A copy of a row.
fn copy_row(row: &Vec<JsonText>) -> (r: Vec<JsonText>)
    ensures
        texts_view(r@) == texts_view(row@),
{
    let mut out: Vec<JsonText> = Vec::new();
    let mut i: usize = 0;
    while i < row.len()
        invariant
            i <= row.len(),
            texts_view(out@) =~= texts_view(row@.take(i as int)),
        decreases row.len() - i,
    {
        let d = row[i].duplicate();
        let ghost before = out@;
        out.push(d);
        assert(texts_view(out@) =~= texts_view(before).push(d@));
        assert(row@.take(i + 1) =~= row@.take(i as int).push(row@[i as int]));
        assert(texts_view(row@.take(i + 1)) =~= texts_view(row@.take(i as int)).push(row@[i as int]@));
        i += 1;
    }
    assert(row@.take(row.len() as int) =~= row@);
    out
}

/// The rows an OVATION table is read from (`ovation_rows`).
fn ovation_rows_of(table: &JsonTable, incomplete: bool) -> (r: Vec<Vec<JsonText>>)
    requires
        incomplete == named_columns_incomplete(texts_view(table.header@)),
    ensures
        rows_view(r@) == ovation_rows(texts_view(table.header@), rows_view(table.rows@)),
{
    let mut out: Vec<Vec<JsonText>> = Vec::new();
    let lead = incomplete && header_looks_numeric(table.header.as_slice());
    if lead {
        out.push(copy_row(&table.header));
    }
    let ghost start = rows_view(out@);
    let mut i: usize = 0;
    while i < table.rows.len()
        invariant
            i <= table.rows.len(),
            start == (if lead { seq![texts_view(table.header@)] } else { Seq::<Seq<TextReading>>::empty() }),
            rows_view(out@) =~= start + rows_view(table.rows@.take(i as int)),
        decreases table.rows.len() - i,
    {
        let c = copy_row(&table.rows[i]);
        let ghost before = out@;
        out.push(c);
        assert(rows_view(out@) =~= rows_view(before).push(texts_view(c@)));
        assert(table.rows@.take(i + 1) =~= table.rows@.take(i as int).push(table.rows@[i as int]));
        assert(rows_view(table.rows@.take(i + 1)) =~= rows_view(table.rows@.take(i as int)).push(
            texts_view(table.rows@[i as int]@),
        ));
        i += 1;
    }
    assert(table.rows@.take(table.rows.len() as int) =~= table.rows@);
    out
}

/// The points of the rows that have all three numbers, and their greatest
/// intensity.
fn collect_table_points(rows: &[Vec<JsonText>], lat_idx: usize, lon_idx: usize, value_idx: usize) -> (r: (
    Vec<(u32, u32, u32)>,
    u32,
))
    ensures
        r.0@ == table_points(rows_view(rows@), lat_idx as int, lon_idx as int, value_idx as int),
        r.1 == points_max(r.0@),
{
    let ghost rv = rows_view(rows@);
    let mut points: Vec<(u32, u32, u32)> = Vec::new();
    let mut max_value: u32 = ZERO;
    let mut i: usize = 0;
    while i < rows.len()
        invariant
            i <= rows.len(),
            rv == rows_view(rows@),
            points@ == table_points(rv.take(i as int), lat_idx as int, lon_idx as int, value_idx as int),
            max_value == points_max(points@),
        decreases rows.len() - i,
    {
        let ghost nxt = rv.take(i + 1);
        assert(nxt.drop_last() =~= rv.take(i as int));
        assert(nxt.last() == rv[i as int]);
        assert(rv[i as int] == texts_view(rows@[i as int]@));
        let row = rows[i].as_slice();
        let lat = cell_number(row, lat_idx);
        let lon = cell_number(row, lon_idx);
        let value = cell_number(row, value_idx);
        if let (Some(a), Some(b), Some(c)) = (lat, lon, value) {
            let ghost before = points@;
            if f32_lt(max_value, c) {
                max_value = c;
            }
            points.push((a, b, c));
            assert(points@.drop_last() =~= before);
        }
        i += 1;
    }
    assert(rv.take(rows.len() as int) =~= rv);
    (points, max_value)
}

/// What reading an OVATION table gives: the first missing column as an
/// error, else the points of the rows that have all three numbers, their
/// greatest intensity and the latest time tag, else `now` (the clock's
/// reading when read).
pub open spec fn points_outcome(
    header: Seq<TextReading>,
    data: Seq<Seq<TextReading>>,
    r: Result<TablePoints, FeedError>,
    now: Option<UtcTimestamp>,
) -> bool {
    let rows = ovation_rows(header, data);
    match ovation_columns(header, data) {
        (None, _, _) => r == Err::<TablePoints, FeedError>(FeedError::MissingLatitude),
        (Some(_), None, _) => r == Err::<TablePoints, FeedError>(FeedError::MissingLongitude),
        (Some(_), Some(_), None) => r == Err::<TablePoints, FeedError>(FeedError::MissingIntensity),
        (Some(a), Some(b), Some(c)) => r matches Ok(t) && t.points@ == table_points(rows, a as int, b as int, c as int)
            && t.max_value == points_max(t.points@) && t.updated_utc == match latest_timestamp_spec(
            rows,
            column_of(header, time_names()),
        ) {
            Some(ts) => Some(ts),
            None => now,
        },
    }
}

/// Reads the aurora points of an OVATION table: finds (or infers) the
/// latitude, longitude and intensity columns, keeps the rows that have all
/// three numbers, and takes the latest time tag, else the clock's reading
/// (see `ovation_from_table_at`).
pub fn ovation_from_table(table: &JsonTable) -> (r: Result<TablePoints, FeedError>)
    ensures
        exists|now: Option<UtcTimestamp>|
            (now matches Some(t) ==> t.wf()) && #[trigger] points_outcome(
                texts_view(table.header@),
                rows_view(table.rows@),
                r,
                now,
            ),
{
    let now = utc_now();
    let r = ovation_from_table_at(table, now);
    assert(points_outcome(texts_view(table.header@), rows_view(table.rows@), r, now));
    r
}

/// Reads the aurora points of an OVATION table (see `ovation_from_table`),
/// taking `now` as its time when no row has a time tag.
pub fn ovation_from_table_at(table: &JsonTable, now: Option<UtcTimestamp>) -> (r: Result<TablePoints, FeedError>)
    ensures
        points_outcome(texts_view(table.header@), rows_view(table.rows@), r, now),
{
    let ghost header = texts_view(table.header@);
    let mut lat_idx = lat_column(table.header.as_slice());
    let mut lon_idx = lon_column(table.header.as_slice());
    let mut value_idx = value_column(table.header.as_slice());
    let time_idx = time_column(table.header.as_slice());
    let incomplete = lat_idx.is_none() || lon_idx.is_none() || value_idx.is_none();
    let rows = ovation_rows_of(table, incomplete);
    if incomplete {
        if let Some((lat, lon, value)) = infer_ovation_columns(rows.as_slice()) {
            lat_idx = Some(lat);
            lon_idx = Some(lon);
            value_idx = Some(value);
        }
    }
    let lat_idx = match lat_idx {
        Some(i) => i,
        None => return Err(FeedError::MissingLatitude),
    };
    let lon_idx = match lon_idx {
        Some(i) => i,
        None => return Err(FeedError::MissingLongitude),
    };
    let value_idx = match value_idx {
        Some(i) => i,
        None => return Err(FeedError::MissingIntensity),
    };
    let (points, max_value) = collect_table_points(rows.as_slice(), lat_idx, lon_idx, value_idx);
    let updated_utc = match latest_timestamp(rows.as_slice(), time_idx) {
        Some(t) => Some(t),
        None => now,
    };
    Ok(TablePoints { points, max_value, updated_utc })
}

// ----------------------------------------------------------------------------
// Kp index and solar wind
// ----------------------------------------------------------------------------

fn kp_column(header: &[JsonText]) -> (r: Option<usize>)
    ensures
        r == column_of(texts_view(header@), kp_names()),
{
    let names: [&str; 2] = ["kp", "kp_index"];
    assert(strs_ref_view(names@) =~= kp_names());
    named_column(header, &names, Ghost(kp_names()))
}

fn bt_column(header: &[JsonText]) -> (r: Option<usize>)
    ensures
        r == column_of(texts_view(header@), bt_names()),
{
    let names: [&str; 2] = ["bt", "bt_gsm"];
    assert(strs_ref_view(names@) =~= bt_names());
    named_column(header, &names, Ghost(bt_names()))
}

fn bz_column(header: &[JsonText]) -> (r: Option<usize>)
    ensures
        r == column_of(texts_view(header@), bz_names()),
{
    let names: [&str; 3] = ["bz_gsm", "bz", "bz_gse"];
    assert(strs_ref_view(names@) =~= bz_names());
    named_column(header, &names, Ghost(bz_names()))
}

fn speed_column(header: &[JsonText]) -> (r: Option<usize>)
    ensures
        r == column_of(texts_view(header@), speed_names()),
{
    let names: [&str; 2] = ["speed", "proton_speed"];
    assert(strs_ref_view(names@) =~= speed_names());
    named_column(header, &names, Ghost(speed_names()))
}

fn density_column(header: &[JsonText]) -> (r: Option<usize>)
    ensures
        r == column_of(texts_view(header@), density_names()),
{
    let names: [&str; 2] = ["density", "proton_density"];
    assert(strs_ref_view(names@) =~= density_names());
    named_column(header, &names, Ghost(density_names()))
}

/// The latest Kp value of a table, with its time tag.
pub open spec fn kp_spec(header: Seq<TextReading>, rows: Seq<Seq<TextReading>>) -> Result<
    (u32, Option<UtcTimestamp>),
    FeedError,
> {
    match column_of(header, kp_names()) {
        None => Err(FeedError::MissingKpColumn),
        Some(k) => match latest_numeric_with_time_spec(rows, k as int, column_of(header, time_names())) {
            None => Err(FeedError::NoKpRows),
            Some(x) => Ok(x),
        },
    }
}

/// Reads the latest Kp index (as `f32` bits) and its time tag.
pub fn kp_from_table(table: &JsonTable) -> (r: Result<(u32, Option<UtcTimestamp>), FeedError>)
    ensures
        r == kp_spec(texts_view(table.header@), rows_view(table.rows@)),
{
    let kp_idx = match kp_column(table.header.as_slice()) {
        Some(i) => i,
        None => return Err(FeedError::MissingKpColumn),
    };
    let time_idx = time_column(table.header.as_slice());
    match latest_numeric_with_time(table.rows.as_slice(), kp_idx, time_idx) {
        Some(x) => Ok(x),
        None => Err(FeedError::NoKpRows),
    }
}

/// The latest number of the column one of the names denotes.
pub open spec fn latest_named(header: Seq<TextReading>, rows: Seq<Seq<TextReading>>, names: Seq<Seq<char>>) -> Option<u32> {
    match column_of(header, names) {
        Some(i) => latest_numeric_spec(rows, i as int),
        None => None,
    }
}

/// Two readings of a solar-wind table and the latest time tag; an error
/// when neither reading is there.
pub open spec fn wind_spec(
    header: Seq<TextReading>,
    rows: Seq<Seq<TextReading>>,
    first: Seq<Seq<char>>,
    second: Seq<Seq<char>>,
    missing: FeedError,
) -> Result<(Option<u32>, Option<u32>, Option<UtcTimestamp>), FeedError> {
    let a = latest_named(header, rows, first);
    let b = latest_named(header, rows, second);
    if a is None && b is None {
        Err(missing)
    } else {
        Ok((a, b, latest_timestamp_spec(rows, column_of(header, time_names()))))
    }
}

fn latest_in(rows: &[Vec<JsonText>], idx: Option<usize>) -> (r: Option<u32>)
    ensures
        r == match idx {
            Some(i) => latest_numeric_spec(rows_view(rows@), i as int),
            None => None,
        },
{
    match idx {
        Some(i) => latest_numeric(rows, i),
        None => None,
    }
}

/// Reads the latest total field (Bt) and north-south field (Bz), as `f32`
/// bits, and the latest time tag of the magnetometer table.
pub fn mag_from_table(table: &JsonTable) -> (r: Result<(Option<u32>, Option<u32>, Option<UtcTimestamp>), FeedError>)
    ensures
        r == wind_spec(
            texts_view(table.header@),
            rows_view(table.rows@),
            bt_names(),
            bz_names(),
            FeedError::MissingMagValues,
        ),
{
    let bt = latest_in(table.rows.as_slice(), bt_column(table.header.as_slice()));
    let bz = latest_in(table.rows.as_slice(), bz_column(table.header.as_slice()));
    let timestamp = latest_timestamp(table.rows.as_slice(), time_column(table.header.as_slice()));
    if bt.is_none() && bz.is_none() {
        return Err(FeedError::MissingMagValues);
    }
    Ok((bt, bz, timestamp))
}

/// Reads the latest solar-wind speed and density, as `f32` bits, and the
/// latest time tag of the plasma table.
pub fn plasma_from_table(table: &JsonTable) -> (r: Result<(Option<u32>, Option<u32>, Option<UtcTimestamp>), FeedError>)
    ensures
        r == wind_spec(
            texts_view(table.header@),
            rows_view(table.rows@),
            speed_names(),
            density_names(),
            FeedError::MissingPlasmaValues,
        ),
{
    let speed = latest_in(table.rows.as_slice(), speed_column(table.header.as_slice()));
    let density = latest_in(table.rows.as_slice(), density_column(table.header.as_slice()));
    let timestamp = latest_timestamp(table.rows.as_slice(), time_column(table.header.as_slice()));
    if speed.is_none() && density.is_none() {
        return Err(FeedError::MissingPlasmaValues);
    }
    Ok((speed, density, timestamp))
}

// ----------------------------------------------------------------------------
// The OVATION feed
// ----------------------------------------------------------------------------

/// What the OVATION feed yields: a grid, or the points of a table.
pub enum AuroraData {
    Grid(OvationGrid),
    Points(TablePoints),
}

/// Why the OVATION feed yields nothing.
pub enum OvationFeedError {
    /// The document is not a table.
    Table(TableError),
    /// The table lacks a column.
    Feed(FeedError),
}

/// Whether the document is an object whose coordinate triples make a grid.
pub open spec fn grid_readable(v: JsonValue) -> bool {
    v matches JsonValue::Object(es) && ovation_grid_error(ovation_points(es@)) is None
}

/// What reading the OVATION feed gives, with `now` as the time used when
/// the document gives none.
pub open spec fn feed_outcome(value: JsonValue, r: Result<AuroraData, OvationFeedError>, now: Option<UtcTimestamp>) -> bool {
    &&& grid_readable(value) ==> (r matches Ok(AuroraData::Grid(g)) && grid_outcome(value->Object_0@, g, now))
    &&& !grid_readable(value) ==> match json_table_spec(value) {
        TableSpec::Table { header, rows } => match r {
            Ok(AuroraData::Points(t)) => points_outcome(header, rows, Ok(t), now),
            Err(OvationFeedError::Feed(e)) => points_outcome(header, rows, Err(e), now),
            _ => false,
        },
        other => r matches Err(OvationFeedError::Table(e)) && table_result_view(Err(e)) == other,
    }
}

/// Reads the OVATION feed: as a grid of coordinate triples when the document
/// is an object whose triples make one, else as a table of rows; the time is
/// the document's, else the clock's reading (see `ovation_feed_at`).
pub fn ovation_feed(value: &JsonValue) -> (r: Result<AuroraData, OvationFeedError>)
    ensures
        exists|now: Option<UtcTimestamp>| (now matches Some(t) ==> t.wf()) && #[trigger] feed_outcome(*value, r, now),
{
    let now = utc_now();
    let r = ovation_feed_at(value, now);
    assert(feed_outcome(*value, r, now));
    r
}

/// Reads the OVATION feed (see `ovation_feed`), taking `now` as its time
/// when the document gives none.
pub fn ovation_feed_at(value: &JsonValue, now: Option<UtcTimestamp>) -> (r: Result<AuroraData, OvationFeedError>)
    ensures
        feed_outcome(*value, r, now),
{
    if let Ok(grid) = parse_ovation_object_at(value, now) {
        return Ok(AuroraData::Grid(grid));
    }
    let table = match parse_json_table(value) {
        Ok(t) => t,
        Err(e) => return Err(OvationFeedError::Table(e)),
    };
    match ovation_from_table_at(&table, now) {
        Ok(points) => Ok(AuroraData::Points(points)),
        Err(e) => Err(OvationFeedError::Feed(e)),
    }
}

} // verus!
