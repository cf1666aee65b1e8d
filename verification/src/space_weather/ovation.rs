//! The OVATION aurora document: coordinate triples found anywhere in a JSON
//! object, laid out on the grid of their distinct coordinates.
use vstd::prelude::*;
use crate::floatbits::{f32_le, in_lat_range, in_lon_range, MINUS_180, MINUS_90, PLUS_360, PLUS_90};
use crate::json::{get_member, member_get, JsonText, JsonValue};
use crate::space_weather::grid::{
    build_grid_cells, cells_hold, gap_too_wide, lemma_steps_fit_iff, steps_fit_check, lat_keys_of, lists_in_order, lon_keys_of, max_value_spec, min_key_step,
    min_step_spec, GridCells,
};
use crate::space_weather::readings::{parse_timestamp, timestamp_spec};
use crate::time::{utc_now, UtcTimestamp};

verus! {

/// Three leading numbers of an array: the first two as `f32` bits with their
/// scaled keys, the third as the value.
#[derive(Clone, Copy, PartialEq, Eq, Structural)]
pub struct Candidate {
    pub first: u32,
    pub first_key: i32,
    pub second: u32,
    pub second_key: i32,
    pub value: u32,
}

/// The candidate that an array starting with three numbers makes.
pub open spec fn leading_triple(items: Seq<JsonValue>) -> Option<Candidate> {
    if items.len() >= 3 {
        match (items[0], items[1], items[2]) {
            (JsonValue::Number(a), JsonValue::Number(b), JsonValue::Number(c)) => Some(
                Candidate {
                    first: a.as_f32_bits,
                    first_key: a.scaled_key,
                    second: b.as_f32_bits,
                    second_key: b.scaled_key,
                    value: c.as_f32_bits,
                },
            ),
            _ => None,
        }
    } else {
        None
    }
}

/// A candidate read as (longitude, latitude, value).
pub open spec fn is_lonlat(t: Candidate) -> bool {
    in_lon_range(t.first) && in_lat_range(t.second)
}

/// A candidate read as (latitude, longitude, value).
pub open spec fn is_latlon(t: Candidate) -> bool {
    in_lat_range(t.first) && in_lon_range(t.second)
}

pub open spec fn pair_concat(
    p: (Seq<Candidate>, Seq<Candidate>),
    q: (Seq<Candidate>, Seq<Candidate>),
) -> (Seq<Candidate>, Seq<Candidate>) {
    (p.0 + q.0, p.1 + q.1)
}

/// The (longitude-first, latitude-first) candidates found in a value: an
/// array that starts with three numbers is one candidate (kept in each list
/// whose ranges it fits) and is not searched further; any other array, and
/// an object, is searched member by member, in order.
pub open spec fn value_candidates(v: JsonValue) -> (Seq<Candidate>, Seq<Candidate>)
    decreases v, 1nat,
{
    match v {
        JsonValue::Array(items) => match leading_triple(items@) {
            Some(t) => (
                if is_lonlat(t) { seq![t] } else { Seq::empty() },
                if is_latlon(t) { seq![t] } else { Seq::empty() },
            ),
            None => items_candidates(items@),
        },
        JsonValue::Object(es) => members_candidates(es@),
        _ => (Seq::empty(), Seq::empty()),
    }
}

/// The candidates of the items of an array, in order.
pub open spec fn items_candidates(items: Seq<JsonValue>) -> (Seq<Candidate>, Seq<Candidate>)
    decreases items, 0nat,
{
    if items.len() == 0 {
        (Seq::empty(), Seq::empty())
    } else {
        pair_concat(items_candidates(items.drop_last()), value_candidates(items.last()))
    }
}

/// The candidates of the members of an object, in order.
pub open spec fn members_candidates(es: Seq<(JsonText, JsonValue)>) -> (Seq<Candidate>, Seq<Candidate>)
    decreases es, 0nat,
{
    if es.len() == 0 {
        (Seq::empty(), Seq::empty())
    } else {
        pair_concat(members_candidates(es.drop_last()), value_candidates(es.last().1))
    }
}

/// `(-180.0..=360.0).contains(&v)` on the bits of an `f32`.
fn lon_range(b: u32) -> (r: bool)
    ensures
        r == in_lon_range(b),
{
    f32_le(MINUS_180, b) && f32_le(b, PLUS_360)
}

/// `(-90.0..=90.0).contains(&v)` on the bits of an `f32`.
fn lat_range(b: u32) -> (r: bool)
    ensures
        r == in_lat_range(b),
{
    f32_le(MINUS_90, b) && f32_le(b, PLUS_90)
}

/// The candidate that an array starting with three numbers makes.
fn leading_triple_of(items: &Vec<JsonValue>) -> (r: Option<Candidate>)
    ensures
        r == leading_triple(items@),
{
    if items.len() < 3 {
        return None;
    }
    match (&items[0], &items[1], &items[2]) {
        (JsonValue::Number(a), JsonValue::Number(b), JsonValue::Number(c)) => Some(
            Candidate {
                first: a.as_f32_bits,
                first_key: a.scaled_key,
                second: b.as_f32_bits,
                second_key: b.scaled_key,
                value: c.as_f32_bits,
            },
        ),
        _ => None,
    }
}

/// Appends the candidates found in `value` to the two lists.
pub fn collect_candidate_triples(value: &JsonValue, lonlat: &mut Vec<Candidate>, latlon: &mut Vec<Candidate>)
    ensures
        final(lonlat)@ == old(lonlat)@ + value_candidates(*value).0,
        final(latlon)@ == old(latlon)@ + value_candidates(*value).1,
    decreases *value, 1nat,
{
    match value {
        JsonValue::Array(items) => {
            if let Some(t) = leading_triple_of(items) {
                if lon_range(t.first) && lat_range(t.second) {
                    lonlat.push(t);
                }
                if lat_range(t.first) && lon_range(t.second) {
                    latlon.push(t);
                }
                proof {
                    assert(final(lonlat)@ =~= old(lonlat)@ + value_candidates(*value).0);
                    assert(final(latlon)@ =~= old(latlon)@ + value_candidates(*value).1);
                }
                return;
            }
            let mut i: usize = 0;
            assert(items@.take(0) =~= Seq::<JsonValue>::empty());
            while i < items.len()
                invariant
                    i <= items.len(),
                    *value == JsonValue::Array(*items),
                    value_candidates(*value) == items_candidates(items@),
                    lonlat@ == old(lonlat)@ + items_candidates(items@.take(i as int)).0,
                    latlon@ == old(latlon)@ + items_candidates(items@.take(i as int)).1,
                decreases items.len() - i,
            {
                let ghost nxt = items@.take(i + 1);
                assert(nxt.drop_last() =~= items@.take(i as int));
                assert(nxt.last() == items@[i as int]);
                collect_candidate_triples(&items[i], lonlat, latlon);
                assert(lonlat@ =~= old(lonlat)@ + items_candidates(nxt).0);
                assert(latlon@ =~= old(latlon)@ + items_candidates(nxt).1);
                i += 1;
            }
            assert(items@.take(items.len() as int) =~= items@);
        },
        JsonValue::Object(es) => {
            let mut i: usize = 0;
            assert(es@.take(0) =~= Seq::<(JsonText, JsonValue)>::empty());
            while i < es.len()
                invariant
                    i <= es.len(),
                    *value == JsonValue::Object(*es),
                    value_candidates(*value) == members_candidates(es@),
                    lonlat@ == old(lonlat)@ + members_candidates(es@.take(i as int)).0,
                    latlon@ == old(latlon)@ + members_candidates(es@.take(i as int)).1,
                decreases es.len() - i,
            {
                let ghost nxt = es@.take(i + 1);
                assert(nxt.drop_last() =~= es@.take(i as int));
                assert(nxt.last() == es@[i as int]);
                collect_candidate_triples(&es[i].1, lonlat, latlon);
                assert(lonlat@ =~= old(lonlat)@ + members_candidates(nxt).0);
                assert(latlon@ =~= old(latlon)@ + members_candidates(nxt).1);
                i += 1;
            }
            assert(es@.take(es.len() as int) =~= es@);
        },
        _ => {
            assert(lonlat@ =~= old(lonlat)@ + value_candidates(*value).0);
            assert(latlon@ =~= old(latlon)@ + value_candidates(*value).1);
        },
    }
}

// ----------------------------------------------------------------------------
// The document
// ----------------------------------------------------------------------------

/// Members that hold the coordinates, in the order they are looked for.
pub open spec fn root_keys() -> Seq<Seq<char>> {
    seq!["coordinates"@, "features"@, "data"@, "values"@, "rows"@, "records"@, "items"@]
}

/// The value of the first member among `root_keys()[i..]` that the object has.
pub open spec fn root_from(es: Seq<(JsonText, JsonValue)>, i: int) -> Option<JsonValue>
    decreases root_keys().len() - i,
{
    if i < 0 || i >= root_keys().len() {
        None
    } else if member_get(es, root_keys()[i]) is Some {
        member_get(es, root_keys()[i])
    } else {
        root_from(es, i + 1)
    }
}

/// The candidates of the document: those under the first coordinate member
/// there is, else those of all members.
pub open spec fn document_candidates(es: Seq<(JsonText, JsonValue)>) -> (Seq<Candidate>, Seq<Candidate>) {
    match root_from(es, 0) {
        Some(root) => value_candidates(root),
        None => members_candidates(es),
    }
}

/// Whether the longitude-first reading is used: it is, unless the
/// latitude-first one finds more candidates.
pub open spec fn uses_lonlat(es: Seq<(JsonText, JsonValue)>) -> bool {
    document_candidates(es).0.len() >= document_candidates(es).1.len()
}

/// A candidate as (longitude key, latitude key, value).
pub open spec fn oriented(t: Candidate, lonlat: bool) -> (i32, i32, u32) {
    if lonlat {
        (t.first_key, t.second_key, t.value)
    } else {
        (t.second_key, t.first_key, t.value)
    }
}

/// The grid points of the document, in the order they were found.
pub open spec fn ovation_points(es: Seq<(JsonText, JsonValue)>) -> Seq<(i32, i32, u32)> {
    let lonlat = uses_lonlat(es);
    let chosen = if lonlat { document_candidates(es).0 } else { document_candidates(es).1 };
    chosen.map_values(|t: Candidate| oriented(t, lonlat))
}

/// The grid of the points has no more cells than a `usize` counts.
pub open spec fn grid_fits(points: Seq<(i32, i32, u32)>) -> bool {
    lon_keys_of(points).len() * lat_keys_of(points).len() <= usize::MAX
}

/// Why the points of a document make no grid, if they do not: there are
/// none, the grid is too large to count, or neighbouring keys of an axis lie
/// too far apart to subtract.
pub open spec fn ovation_grid_error(points: Seq<(i32, i32, u32)>) -> Option<OvationError> {
    if points.len() == 0 {
        Some(OvationError::EmptyCoordinates)
    } else if !grid_fits(points) {
        Some(OvationError::GridTooLarge)
    } else if gap_too_wide(lon_keys_of(points)) || gap_too_wide(lat_keys_of(points)) {
        Some(OvationError::StepOverflow)
    } else {
        None
    }
}

/// Members that may hold the time of the forecast, in the order they are
/// looked for.
pub open spec fn time_keys() -> Seq<Seq<char>> {
    seq![
        "Forecast Time"@,
        "Observation Time"@,
        "forecast_time"@,
        "observation_time"@,
        "time_tag"@,
        "timestamp"@,
        "time"@,
    ]
}

/// The time tag held by a member that is a string.
pub open spec fn member_time(es: Seq<(JsonText, JsonValue)>, key: Seq<char>) -> Option<UtcTimestamp> {
    match member_get(es, key) {
        Some(JsonValue::String(t)) => timestamp_spec(t.text@),
        _ => None,
    }
}

/// The first readable time tag among `time_keys()[i..]`.
pub open spec fn time_from(es: Seq<(JsonText, JsonValue)>, i: int) -> Option<UtcTimestamp>
    decreases time_keys().len() - i,
{
    if i < 0 || i >= time_keys().len() {
        None
    } else if member_time(es, time_keys()[i]) is Some {
        member_time(es, time_keys()[i])
    } else {
        time_from(es, i + 1)
    }
}

/// Why a document is not an OVATION grid.
#[derive(Debug, PartialEq, Eq, Structural)]
pub enum OvationError {
    /// The document is not an object.
    NotObject,
    /// No coordinate triple was found.
    EmptyCoordinates,
    /// The grid of the distinct coordinates has more cells than a `usize`
    /// counts.
    GridTooLarge,
    /// Two neighbouring coordinates of an axis differ by more than an `i32`
    /// holds.
    StepOverflow,
}

impl OvationError {
    /// The text of the error.
    pub fn message(&self) -> (r: String)
        ensures
            r@ == match self {
                OvationError::NotObject => "ovation: expected json object"@,
                OvationError::EmptyCoordinates => "ovation: empty coordinates"@,
                OvationError::GridTooLarge => "ovation: grid too large"@,
                OvationError::StepOverflow => "ovation: coordinate step out of range"@,
            },
    {
        match self {
            OvationError::NotObject => String::from_str("ovation: expected json object"),
            OvationError::EmptyCoordinates => String::from_str("ovation: empty coordinates"),
            OvationError::GridTooLarge => String::from_str("ovation: grid too large"),
            OvationError::StepOverflow => String::from_str("ovation: coordinate step out of range"),
        }
    }
}

/// The aurora grid of an OVATION document.
pub struct OvationGrid {
    pub cells: GridCells,
    /// The smallest longitude step between columns, in thousandths of a degree.
    pub lon_step: Option<i32>,
    /// The smallest latitude step between rows, in thousandths of a degree.
    pub lat_step: Option<i32>,
    /// The forecast time the document gives, else the time it was read
    /// (`None` where the clock could not be read).
    pub updated_utc: Option<UtcTimestamp>,
}

/// The value of the first coordinate member the object has.
fn candidate_root(es: &Vec<(JsonText, JsonValue)>) -> (r: Option<&JsonValue>)
    ensures
        match root_from(es@, 0) {
            Some(v) => r == Some(&v),
            None => r is None,
        },
{
    reveal_with_fuel(root_from, 8);
    if let Some(v) = get_member(es, "coordinates") {
        return Some(v);
    }
    if let Some(v) = get_member(es, "features") {
        return Some(v);
    }
    if let Some(v) = get_member(es, "data") {
        return Some(v);
    }
    if let Some(v) = get_member(es, "values") {
        return Some(v);
    }
    if let Some(v) = get_member(es, "rows") {
        return Some(v);
    }
    if let Some(v) = get_member(es, "records") {
        return Some(v);
    }
    get_member(es, "items")
}

/// The time tag of a member, when it is a string holding one.
fn time_at(es: &Vec<(JsonText, JsonValue)>, key: &str) -> (r: Option<UtcTimestamp>)
    ensures
        r == member_time(es@, key@),
        r matches Some(t) ==> t.wf(),
{
    match get_member(es, key) {
        Some(JsonValue::String(t)) => parse_timestamp(t.text.as_str()),
        _ => None,
    }
}

/// The forecast time the document gives (`Forecast Time`, then the other
/// `time_keys()` in order).
pub fn ovation_timestamp(es: &Vec<(JsonText, JsonValue)>) -> (r: Option<UtcTimestamp>)
    ensures
        r == time_from(es@, 0),
        r matches Some(t) ==> t.wf(),
{
    reveal_with_fuel(time_from, 8);
    if let Some(t) = time_at(es, "Forecast Time") {
        return Some(t);
    }
    if let Some(t) = time_at(es, "Observation Time") {
        return Some(t);
    }
    if let Some(t) = time_at(es, "forecast_time") {
        return Some(t);
    }
    if let Some(t) = time_at(es, "observation_time") {
        return Some(t);
    }
    if let Some(t) = time_at(es, "time_tag") {
        return Some(t);
    }
    if let Some(t) = time_at(es, "timestamp") {
        return Some(t);
    }
    time_at(es, "time")
}


/// What the grid read from an object holds: its points laid out on their
/// sorted distinct keys, the greatest value, the spacing of each axis, and
/// the forecast time, else `now` (the clock's reading when read).
pub open spec fn grid_outcome(es: Seq<(JsonText, JsonValue)>, g: OvationGrid, now: Option<UtcTimestamp>) -> bool {
    let points = ovation_points(es);
    &&& lists_in_order(g.cells.lon_keys@, lon_keys_of(points))
    &&& lists_in_order(g.cells.lat_keys@, lat_keys_of(points))
    &&& cells_hold(points, g.cells.lon_keys@, g.cells.lat_keys@, g.cells.values@)
    &&& g.cells.max_value == max_value_spec(points)
    &&& g.lon_step == min_step_spec(g.cells.lon_keys@)
    &&& g.lat_step == min_step_spec(g.cells.lat_keys@)
    &&& g.updated_utc == match time_from(es, 0) {
        Some(t) => Some(t),
        None => now,
    }
}

/// What reading a document as an OVATION object gives, with `now` as the
/// time used when the document gives none.
pub open spec fn ovation_object_outcome(
    value: JsonValue,
    r: Result<OvationGrid, OvationError>,
    now: Option<UtcTimestamp>,
) -> bool {
    &&& !(value is Object) ==> r == Err::<OvationGrid, OvationError>(OvationError::NotObject)
    &&& value matches JsonValue::Object(es) ==> match ovation_grid_error(ovation_points(es@)) {
        Some(e) => r == Err::<OvationGrid, OvationError>(e),
        None => r matches Ok(g) && grid_outcome(es@, g, now),
    }
}

/// Reads an OVATION document: finds its coordinate triples, orients them,
/// and lays them out on the grid of their distinct coordinates, with the
/// grid's spacing and the forecast time, read from the clock when the
/// document gives none (see `parse_ovation_object_at`).
pub fn parse_ovation_object(value: &JsonValue) -> (r: Result<OvationGrid, OvationError>)
    ensures
        exists|now: Option<UtcTimestamp>|
            (now matches Some(t) ==> t.wf()) && #[trigger] ovation_object_outcome(*value, r, now),
{
    let now = utc_now();
    let r = parse_ovation_object_at(value, now);
    assert(ovation_object_outcome(*value, r, now));
    r
}

/// Reads an OVATION document (see `parse_ovation_object`), taking `now` as
/// its time when it gives none.
pub fn parse_ovation_object_at(value: &JsonValue, now: Option<UtcTimestamp>) -> (r: Result<OvationGrid, OvationError>)
    ensures
        ovation_object_outcome(*value, r, now),
{
    let es = match value {
        JsonValue::Object(es) => es,
        _ => return Err(OvationError::NotObject),
    };
    let mut lonlat: Vec<Candidate> = Vec::new();
    let mut latlon: Vec<Candidate> = Vec::new();
    match candidate_root(es) {
        Some(root) => collect_candidate_triples(root, &mut lonlat, &mut latlon),
        None => collect_candidate_triples(value, &mut lonlat, &mut latlon),
    }
    assert(lonlat@ =~= document_candidates(es@).0);
    assert(latlon@ =~= document_candidates(es@).1);
    let used_lonlat = lonlat.len() >= latlon.len();
    let triples = if used_lonlat { lonlat } else { latlon };
    if triples.len() == 0 {
        return Err(OvationError::EmptyCoordinates);
    }
    let ghost chosen = triples@;
    let mut points: Vec<(i32, i32, u32)> = Vec::new();
    let mut i: usize = 0;
    while i < triples.len()
        invariant
            i <= triples.len(),
            chosen == triples@,
            points@ =~= triples@.take(i as int).map_values(|t: Candidate| oriented(t, used_lonlat)),
        decreases triples.len() - i,
    {
        let t = triples[i];
        let p = if used_lonlat { (t.first_key, t.second_key, t.value) } else { (t.second_key, t.first_key, t.value) };
        points.push(p);
        assert(triples@.take(i + 1) =~= triples@.take(i as int).push(t));
        i += 1;
    }
    assert(triples@.take(triples.len() as int) =~= triples@);
    assert(points@ =~= ovation_points(es@));
    let cells = match build_grid_cells(points.as_slice()) {
        Some(c) => c,
        None => return Err(OvationError::GridTooLarge),
    };
    proof {
        lemma_steps_fit_iff(cells.lon_keys@, lon_keys_of(points@));
        lemma_steps_fit_iff(cells.lat_keys@, lat_keys_of(points@));
    }
    if !steps_fit_check(cells.lon_keys.as_slice()) || !steps_fit_check(cells.lat_keys.as_slice()) {
        return Err(OvationError::StepOverflow);
    }
    let lon_step = min_key_step(cells.lon_keys.as_slice());
    let lat_step = min_key_step(cells.lat_keys.as_slice());
    let updated_utc = match ovation_timestamp(es) {
        Some(t) => Some(t),
        None => now,
    };
    Ok(OvationGrid { cells, lon_step, lat_step, updated_utc })
}

} // verus!
