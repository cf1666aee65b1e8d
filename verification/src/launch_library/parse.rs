//! Reading the launches and events of a Launch Library response.
use vstd::prelude::*;
use crate::json::{get_value, value_get, JsonValue};
use crate::text::{parse_i64, parse_i64_spec};
use crate::time::{parse_rfc3339, rfc3339_instant, UtcTimestamp};

verus! {

/// A string member of an object.
pub open spec fn string_at(v: JsonValue, key: Seq<char>) -> Option<Seq<char>> {
    match value_get(v, key) {
        Some(JsonValue::String(t)) => Some(t.text@),
        _ => None,
    }
}

/// An integer member: a number that is an `i64`, or a string that parses as one.
pub open spec fn i64_at(v: JsonValue, key: Seq<char>) -> Option<i64> {
    match value_get(v, key) {
        Some(JsonValue::Number(n)) => n.as_i64,
        Some(JsonValue::String(t)) => parse_i64_spec(t.text@),
        _ => None,
    }
}

/// A floating-point member (`f64` bits): a number, or a string that parses
/// as one.
pub open spec fn f64_at(v: JsonValue, key: Seq<char>) -> Option<u64> {
    match value_get(v, key) {
        Some(JsonValue::Number(n)) => Some(n.as_f64_bits),
        Some(JsonValue::String(t)) => t.f64_bits,
        _ => None,
    }
}

/// The name a value gives: itself when a string, its `name` member when an
/// object.
pub open spec fn name_of(v: JsonValue) -> Option<Seq<char>> {
    match v {
        JsonValue::String(t) => Some(t.text@),
        JsonValue::Object(_) => string_at(v, "name"@),
        _ => None,
    }
}

/// The name of a member.
pub open spec fn name_at(v: JsonValue, key: Seq<char>) -> Option<Seq<char>> {
    match value_get(v, key) {
        Some(m) => name_of(m),
        None => None,
    }
}

/// The string at `key` of the member `outer`.
pub open spec fn nested_string(v: JsonValue, outer: Seq<char>, key: Seq<char>) -> Option<Seq<char>> {
    match value_get(v, outer) {
        Some(o) => string_at(o, key),
        None => None,
    }
}

/// The items of a response: the document itself when an array, else its
/// `results` array, else none.
pub open spec fn items_of(v: JsonValue) -> Seq<JsonValue> {
    match v {
        JsonValue::Array(items) => items@,
        _ => match value_get(v, "results"@) {
            Some(JsonValue::Array(items)) => items@,
            _ => Seq::empty(),
        },
    }
}

pub open spec fn or_else<T>(a: Option<T>, b: Option<T>) -> Option<T> {
    if a is Some {
        a
    } else {
        b
    }
}

/// An upcoming launch.
pub struct LaunchSummary {
    pub id: Option<i64>,
    pub name: String,
    pub net_utc: Option<UtcTimestamp>,
    pub pad_id: Option<i64>,
    pub pad_name: Option<String>,
    /// Pad latitude, as `f64` bits.
    pub pad_lat: Option<u64>,
    /// Pad longitude, as `f64` bits.
    pub pad_lon: Option<u64>,
    pub pad_location_name: Option<String>,
    pub provider_name: Option<String>,
    pub mission_name: Option<String>,
    pub orbit_name: Option<String>,
}

/// What a launch holds, as plain values.
pub struct LaunchView {
    pub id: Option<i64>,
    pub name: Seq<char>,
    pub net_utc: Option<UtcTimestamp>,
    pub pad_id: Option<i64>,
    pub pad_name: Option<Seq<char>>,
    pub pad_lat: Option<u64>,
    pub pad_lon: Option<u64>,
    pub pad_location_name: Option<Seq<char>>,
    pub provider_name: Option<Seq<char>>,
    pub mission_name: Option<Seq<char>>,
    pub orbit_name: Option<Seq<char>>,
}

pub open spec fn opt_string_view(o: Option<String>) -> Option<Seq<char>> {
    match o {
        Some(s) => Some(s@),
        None => None,
    }
}

impl View for LaunchSummary {
    type V = LaunchView;

    open spec fn view(&self) -> LaunchView {
        LaunchView {
            id: self.id,
            name: self.name@,
            net_utc: self.net_utc,
            pad_id: self.pad_id,
            pad_name: opt_string_view(self.pad_name),
            pad_lat: self.pad_lat,
            pad_lon: self.pad_lon,
            pad_location_name: opt_string_view(self.pad_location_name),
            provider_name: opt_string_view(self.provider_name),
            mission_name: opt_string_view(self.mission_name),
            orbit_name: opt_string_view(self.orbit_name),
        }
    }
}

/// An instant written in RFC 3339.
pub open spec fn instant_of(s: Option<Seq<char>>) -> Option<UtcTimestamp> {
    match s {
        Some(t) => rfc3339_instant(t),
        None => None,
    }
}

/// The launch an item describes.  Missing names read as "Unnamed Launch";
/// the pad's location name falls back to the launch's; the provider to
/// `service_provider`; the orbit to the launch's own `orbit`.
pub open spec fn launch_of(item: JsonValue) -> LaunchView {
    let pad = value_get(item, "pad"@);
    let mission = value_get(item, "mission"@);
    LaunchView {
        id: i64_at(item, "id"@),
        name: match string_at(item, "name"@) {
            Some(n) => n,
            None => "Unnamed Launch"@,
        },
        net_utc: instant_of(string_at(item, "net"@)),
        pad_id: match pad {
            Some(p) => i64_at(p, "id"@),
            None => None,
        },
        pad_name: match pad {
            Some(p) => string_at(p, "name"@),
            None => None,
        },
        pad_lat: match pad {
            Some(p) => f64_at(p, "latitude"@),
            None => None,
        },
        pad_lon: match pad {
            Some(p) => f64_at(p, "longitude"@),
            None => None,
        },
        pad_location_name: or_else(
            match pad {
                Some(p) => name_at(p, "location"@),
                None => None,
            },
            name_at(item, "location"@),
        ),
        provider_name: or_else(
            nested_string(item, "launch_service_provider"@, "name"@),
            nested_string(item, "service_provider"@, "name"@),
        ),
        mission_name: match mission {
            Some(m) => string_at(m, "name"@),
            None => None,
        },
        orbit_name: or_else(
            match mission {
                Some(m) => nested_string(m, "orbit"@, "name"@),
                None => None,
            },
            nested_string(item, "orbit"@, "name"@),
        ),
    }
}

/// A string member of an object.
pub fn get_string(value: &JsonValue, key: &str) -> (r: Option<String>)
    ensures
        opt_string_view(r) == string_at(*value, key@),
{
    match get_value(value, key) {
        Some(JsonValue::String(t)) => Some(t.text.clone()),
        _ => None,
    }
}

/// The text of a string member of an object.
pub fn get_string_ref<'a>(value: &'a JsonValue, key: &str) -> (r: Option<&'a str>)
    ensures
        match r {
            Some(s) => string_at(*value, key@) == Some(s@),
            None => string_at(*value, key@) is None,
        },
{
    match get_value(value, key) {
        Some(JsonValue::String(t)) => Some(t.text.as_str()),
        _ => None,
    }
}

/// An integer member of an object.
pub fn get_i64(value: &JsonValue, key: &str) -> (r: Option<i64>)
    ensures
        r == i64_at(*value, key@),
{
    match get_value(value, key) {
        Some(JsonValue::Number(n)) => n.as_i64,
        Some(JsonValue::String(t)) => parse_i64(t.text.as_str()),
        _ => None,
    }
}

/// A floating-point member of an object, as `f64` bits.
pub fn get_f64(value: &JsonValue, key: &str) -> (r: Option<u64>)
    ensures
        r == f64_at(*value, key@),
{
    match get_value(value, key) {
        Some(JsonValue::Number(n)) => Some(n.as_f64_bits),
        Some(JsonValue::String(t)) => t.f64_bits,
        _ => None,
    }
}

/// The name a value gives (see `name_of`).
pub fn extract_name(value: &JsonValue) -> (r: Option<String>)
    ensures
        opt_string_view(r) == name_of(*value),
{
    match value {
        JsonValue::String(t) => Some(t.text.clone()),
        JsonValue::Object(_) => get_string(value, "name"),
        _ => None,
    }
}

fn name_member(value: &JsonValue, key: &str) -> (r: Option<String>)
    ensures
        opt_string_view(r) == name_at(*value, key@),
{
    match get_value(value, key) {
        Some(m) => extract_name(m),
        None => None,
    }
}

fn nested_member_string(value: &JsonValue, outer: &str, key: &str) -> (r: Option<String>)
    ensures
        opt_string_view(r) == nested_string(*value, outer@, key@),
{
    match get_value(value, outer) {
        Some(o) => get_string(o, key),
        None => None,
    }
}

/// The items of a response (see `items_of`).
pub fn extract_items(value: &JsonValue) -> (r: &[JsonValue])
    ensures
        r@ == items_of(*value),
{
    match value {
        JsonValue::Array(items) => items.as_slice(),
        _ => match get_value(value, "results") {
            Some(JsonValue::Array(items)) => items.as_slice(),
            _ => &[],
        },
    }
}

fn parse_instant(s: Option<&str>) -> (r: Option<UtcTimestamp>)
    ensures
        r == instant_of(match s {
            Some(t) => Some(t@),
            None => None,
        }),
{
    match s {
        Some(t) => parse_rfc3339(t),
        None => None,
    }
}

/// The launch an item describes (see `launch_of`).
pub fn launch_summary(item: &JsonValue) -> (r: LaunchSummary)
    ensures
        r@ == launch_of(*item),
{
    let name = match get_string(item, "name") {
        Some(n) => n,
        None => String::from_str("Unnamed Launch"),
    };
    let net_utc = parse_instant(get_string_ref(item, "net"));
    let id = get_i64(item, "id");
    let pad = get_value(item, "pad");
    let (pad_id, pad_name, pad_lat, pad_lon, pad_location) = match pad {
        Some(p) => (
            get_i64(p, "id"),
            get_string(p, "name"),
            get_f64(p, "latitude"),
            get_f64(p, "longitude"),
            name_member(p, "location"),
        ),
        None => (None, None, None, None, None),
    };
    let pad_location_name = match pad_location {
        Some(n) => Some(n),
        None => name_member(item, "location"),
    };
    let provider_name = match nested_member_string(item, "launch_service_provider", "name") {
        Some(n) => Some(n),
        None => nested_member_string(item, "service_provider", "name"),
    };
    let mission = get_value(item, "mission");
    let mission_name = match mission {
        Some(m) => get_string(m, "name"),
        None => None,
    };
    let mission_orbit = match mission {
        Some(m) => nested_member_string(m, "orbit", "name"),
        None => None,
    };
    let orbit_name = match mission_orbit {
        Some(n) => Some(n),
        None => nested_member_string(item, "orbit", "name"),
    };
    LaunchSummary {
        id,
        name,
        net_utc,
        pad_id,
        pad_name,
        pad_lat,
        pad_lon,
        pad_location_name,
        provider_name,
        mission_name,
        orbit_name,
    }
}

/// The launches of a response, one per item, in order.
pub fn parse_launches(value: &JsonValue) -> (r: Vec<LaunchSummary>)
    ensures
        r.len() == items_of(*value).len(),
        forall|i: int| 0 <= i < r.len() ==> (#[trigger] r@[i])@ == launch_of(items_of(*value)[i]),
{
    let items = extract_items(value);
    let mut launches: Vec<LaunchSummary> = Vec::new();
    let mut i: usize = 0;
    while i < items.len()
        invariant
            i <= items.len(),
            items@ == items_of(*value),
            launches.len() == i,
            forall|k: int| 0 <= k < i ==> (#[trigger] launches@[k])@ == launch_of(items@[k]),
        decreases items.len() - i,
    {
        launches.push(launch_summary(&items[i]));
        i += 1;
    }
    launches
}

/// A spaceflight event.
pub struct EventSummary {
    pub id: Option<i64>,
    pub name: String,
    pub date_utc: Option<UtcTimestamp>,
    pub location: Option<String>,
    pub event_type: Option<String>,
    pub description: Option<String>,
}

/// What an event holds, as plain values.
pub struct EventView {
    pub id: Option<i64>,
    pub name: Seq<char>,
    pub date_utc: Option<UtcTimestamp>,
    pub location: Option<Seq<char>>,
    pub event_type: Option<Seq<char>>,
    pub description: Option<Seq<char>>,
}

impl View for EventSummary {
    type V = EventView;

    open spec fn view(&self) -> EventView {
        EventView {
            id: self.id,
            name: self.name@,
            date_utc: self.date_utc,
            location: opt_string_view(self.location),
            event_type: opt_string_view(self.event_type),
            description: opt_string_view(self.description),
        }
    }
}

/// The event an item describes.  A missing name reads as "Unnamed Event";
/// the date is the `date` string, else the `net` string, read as RFC 3339.
pub open spec fn event_of(item: JsonValue) -> EventView {
    EventView {
        id: i64_at(item, "id"@),
        name: match string_at(item, "name"@) {
            Some(n) => n,
            None => "Unnamed Event"@,
        },
        date_utc: instant_of(or_else(string_at(item, "date"@), string_at(item, "net"@))),
        location: name_at(item, "location"@),
        event_type: name_at(item, "type"@),
        description: string_at(item, "description"@),
    }
}

/// The event an item describes (see `event_of`).
pub fn event_summary(item: &JsonValue) -> (r: EventSummary)
    ensures
        r@ == event_of(*item),
{
    let name = match get_string(item, "name") {
        Some(n) => n,
        None => String::from_str("Unnamed Event"),
    };
    let date_text = match get_string_ref(item, "date") {
        Some(d) => Some(d),
        None => get_string_ref(item, "net"),
    };
    let date_utc = parse_instant(date_text);
    EventSummary {
        id: get_i64(item, "id"),
        name,
        date_utc,
        location: name_member(item, "location"),
        event_type: name_member(item, "type"),
        description: get_string(item, "description"),
    }
}

/// The events of a response, one per item, in order.
pub fn parse_events(value: &JsonValue) -> (r: Vec<EventSummary>)
    ensures
        r.len() == items_of(*value).len(),
        forall|i: int| 0 <= i < r.len() ==> (#[trigger] r@[i])@ == event_of(items_of(*value)[i]),
{
    let items = extract_items(value);
    let mut events: Vec<EventSummary> = Vec::new();
    let mut i: usize = 0;
    while i < items.len()
        invariant
            i <= items.len(),
            items@ == items_of(*value),
            events.len() == i,
            forall|k: int| 0 <= k < i ==> (#[trigger] events@[k])@ == event_of(items@[k]),
        decreases items.len() - i,
    {
        events.push(event_summary(&items[i]));
        i += 1;
    }
    events
}

} // verus!
