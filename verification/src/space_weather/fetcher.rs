//! Reading the SWPC JSON documents as tables, looking columns up by name, and
//! picking the values that the viewer shows.
use vstd::prelude::*;
use crate::json::{
    get_member, member_get, member_keys, JsonText, JsonValue, TextReading,
};
use crate::floatbits::{
    f32_le, f32_lt, finite, in_lat_range, in_lon_range, infinite, is_finite, is_infinite, is_nan, lt,
    nan, MINUS_180, MINUS_90, PLUS_360, PLUS_90, ZERO,
};
use crate::text::{
    ascii_lower, ascii_lower_char, contains_chars, contains_seq, str_chars, str_trim, string_from_chars,
    trim_ws,
};

verus! {

// ----------------------------------------------------------------------------
// Tables
// ----------------------------------------------------------------------------

/// A table read from a feed: the header cells and the data rows.
pub struct JsonTable {
    pub header: Vec<JsonText>,
    pub rows: Vec<Vec<JsonText>>,
}

/// Why a document could not be read as a table.
pub enum TableError {
    /// The document is an empty array.
    EmptyTable,
    /// The first item is neither an array nor an object.
    UnsupportedShape,
    /// The first item of an array table is not an array.
    MissingHeaderRow,
    /// The first item of an object table is not an object.
    MissingObjectRows,
    /// The document is an object that carries an error message.
    Message(String),
    /// The document is an object without a table; carries its keys in order.
    ObjectWithoutArray(Vec<String>),
    /// The document is a string; carries it trimmed.
    UnexpectedString(String),
    /// The document is neither an array, an object nor a string.
    NotArray,
}

pub open spec fn texts_view(v: Seq<JsonText>) -> Seq<TextReading> {
    v.map_values(|t: JsonText| t@)
}

pub open spec fn rows_view(v: Seq<Vec<JsonText>>) -> Seq<Seq<TextReading>> {
    v.map_values(|r: Vec<JsonText>| texts_view(r@))
}

pub open spec fn empty_reading() -> TextReading {
    TextReading { text: Seq::empty(), f32_bits: None, trimmed_f32_bits: None, f64_bits: None }
}

/// The text `true` or `false`, which no number parser accepts.
pub open spec fn bool_reading(b: bool) -> TextReading {
    TextReading {
        text: if b { seq!['t', 'r', 'u', 'e'] } else { seq!['f', 'a', 'l', 's', 'e'] },
        f32_bits: None,
        trimmed_f32_bits: None,
        f64_bits: None,
    }
}

/// `value_to_string`: the text of a string, number or boolean.
pub open spec fn value_text(v: JsonValue) -> Option<TextReading> {
    match v {
        JsonValue::String(t) => Some(t@),
        JsonValue::Number(n) => Some(n.repr@),
        JsonValue::Bool(b) => Some(bool_reading(b)),
        _ => None,
    }
}

/// A cell made from a value: its text, or the empty text.
pub open spec fn cell_of(v: Option<JsonValue>) -> TextReading {
    match v {
        Some(x) => match value_text(x) {
            Some(t) => t,
            None => empty_reading(),
        },
        None => empty_reading(),
    }
}

/// The cells of an array row.
pub open spec fn array_row(items: Seq<JsonValue>) -> Seq<TextReading> {
    items.map_values(|v: JsonValue| cell_of(Some(v)))
}

/// The rows of an array table: every array among the items, others skipped.
pub open spec fn array_data_rows(items: Seq<JsonValue>) -> Seq<Seq<TextReading>>
    decreases items.len(),
{
    if items.len() == 0 {
        Seq::empty()
    } else {
        let prev = array_data_rows(items.drop_last());
        match items.last() {
            JsonValue::Array(a) => prev.push(array_row(a@)),
            _ => prev,
        }
    }
}

/// The cells of an object row for the given header.
pub open spec fn object_row(es: Seq<(JsonText, JsonValue)>, header: Seq<TextReading>) -> Seq<TextReading> {
    header.map_values(|k: TextReading| cell_of(member_get(es, k.text)))
}

/// The rows of an object table: one per object among the items.
pub open spec fn object_data_rows(items: Seq<JsonValue>, header: Seq<TextReading>) -> Seq<Seq<TextReading>>
    decreases items.len(),
{
    if items.len() == 0 {
        Seq::empty()
    } else {
        let prev = object_data_rows(items.drop_last(), header);
        match items.last() {
            JsonValue::Object(es) => prev.push(object_row(es@, header)),
            _ => prev,
        }
    }
}

fn text_of(chars: &[char]) -> (r: JsonText)
    ensures
        r.text@ == chars@,
        r.f32_bits is None,
        r.trimmed_f32_bits is None,
        r.f64_bits is None,
{
    JsonText { text: string_from_chars(chars), f32_bits: None, trimmed_f32_bits: None, f64_bits: None }
}

/// `value_to_string(v).unwrap_or_default()`.
fn cell_from(v: Option<&JsonValue>) -> (r: JsonText)
    ensures
        r@ == cell_of(match v {
            Some(x) => Some(*x),
            None => None,
        }),
{
    match v {
        Some(JsonValue::String(t)) => t.duplicate(),
        Some(JsonValue::Number(n)) => n.repr.duplicate(),
        Some(JsonValue::Bool(b)) => {
            if *b {
                let cs: Vec<char> = vec!['t', 'r', 'u', 'e'];
                let r = text_of(cs.as_slice());
                assert(r@ =~= bool_reading(true));
                r
            } else {
                let cs: Vec<char> = vec!['f', 'a', 'l', 's', 'e'];
                let r = text_of(cs.as_slice());
                assert(r@ =~= bool_reading(false));
                r
            }
        },
        _ => {
            let cs: Vec<char> = Vec::new();
            let r = text_of(cs.as_slice());
            assert(r@ =~= empty_reading());
            r
        },
    }
}

fn array_row_of(items: &Vec<JsonValue>) -> (r: Vec<JsonText>)
    ensures
        texts_view(r@) == array_row(items@),
{
    let mut out: Vec<JsonText> = Vec::new();
    let mut i: usize = 0;
    while i < items.len()
        invariant
            i <= items.len(),
            texts_view(out@) == array_row(items@.take(i as int)),
        decreases items.len() - i,
    {
        let c = cell_from(Some(&items[i]));
        let ghost before = texts_view(out@);
        out.push(c);
        assert(texts_view(out@) =~= before.push(c@));
        i += 1;
        assert(array_row(items@.take(i as int)) =~= array_row(items@.take(i - 1)).push(cell_of(Some(items@[i - 1]))));
    }
    assert(items@.take(items.len() as int) =~= items@);
    out
}

/// Reads an array table: the first item is the header row, every later item
/// that is an array is a data row.
pub fn parse_array_rows(items: &[JsonValue]) -> (r: Result<JsonTable, TableError>)
    ensures
        match r {
            Ok(t) => items@.len() > 0 && items@[0] is Array && texts_view(t.header@) == array_row(
                items@[0]->Array_0@,
            ) && rows_view(t.rows@) == array_data_rows(items@.skip(1)),
            Err(e) => (items@.len() == 0 || !(items@[0] is Array)) && e is MissingHeaderRow,
        },
{
    if items.len() == 0 {
        return Err(TableError::MissingHeaderRow);
    }
    let header = match &items[0] {
        JsonValue::Array(a) => array_row_of(a),
        _ => return Err(TableError::MissingHeaderRow),
    };
    let mut rows: Vec<Vec<JsonText>> = Vec::new();
    let mut i: usize = 1;
    assert(items@.subrange(1, 1) =~= Seq::<JsonValue>::empty());
    while i < items.len()
        invariant
            1 <= i <= items.len(),
            rows_view(rows@) == array_data_rows(items@.subrange(1, i as int)),
        decreases items.len() - i,
    {
        let ghost before = rows_view(rows@);
        assert(items@.subrange(1, i + 1).drop_last() =~= items@.subrange(1, i as int));
        assert(items@.subrange(1, i + 1).last() == items@[i as int]);
        match &items[i] {
            JsonValue::Array(a) => {
                let row = array_row_of(a);
                rows.push(row);
                assert(rows_view(rows@) =~= before.push(array_row(a@)));
            },
            _ => {},
        }
        i += 1;
    }
    assert(items@.subrange(1, items.len() as int) =~= items@.skip(1));
    Ok(JsonTable { header, rows })
}

fn object_row_of(es: &Vec<(JsonText, JsonValue)>, header: &Vec<JsonText>) -> (r: Vec<JsonText>)
    ensures
        texts_view(r@) == object_row(es@, texts_view(header@)),
{
    let ghost h = texts_view(header@);
    let mut out: Vec<JsonText> = Vec::new();
    let mut i: usize = 0;
    while i < header.len()
        invariant
            i <= header.len(),
            h == texts_view(header@),
            texts_view(out@) == object_row(es@, h.take(i as int)),
        decreases header.len() - i,
    {
        let v = get_member(es, header[i].text.as_str());
        let c = cell_from(v);
        let ghost before = texts_view(out@);
        out.push(c);
        assert(texts_view(out@) =~= before.push(c@));
        i += 1;
        assert(object_row(es@, h.take(i as int)) =~= object_row(es@, h.take(i - 1)).push(
            cell_of(member_get(es@, h[i - 1].text)),
        ));
    }
    assert(h.take(header.len() as int) =~= h);
    out
}

/// Reads an object table: the header is the keys of the first object, in
/// the order it lists them (ascending, as the decoder gives them); every item that is an object is a row holding, for each
/// header key, that member's text (empty when absent).
pub fn parse_object_rows(items: &[JsonValue]) -> (r: Result<JsonTable, TableError>)
    ensures
        match r {
            Ok(t) => items@.len() > 0 && items@[0] is Object && texts_view(t.header@) == member_keys(
                items@[0]->Object_0@,
            ) && rows_view(t.rows@) == object_data_rows(items@, texts_view(t.header@)),
            Err(e) => (items@.len() == 0 || !(items@[0] is Object)) && e is MissingObjectRows,
        },
{
    if items.len() == 0 {
        return Err(TableError::MissingObjectRows);
    }
    let header = match &items[0] {
        JsonValue::Object(es) => {
            let mut keys: Vec<JsonText> = Vec::new();
            let mut k: usize = 0;
            while k < es.len()
                invariant
                    k <= es.len(),
                    texts_view(keys@) == member_keys(es@.take(k as int)),
                decreases es.len() - k,
            {
                let ghost before = texts_view(keys@);
                keys.push(es[k].0.duplicate());
                assert(texts_view(keys@) =~= before.push(es@[k as int].0@));
                k += 1;
                assert(member_keys(es@.take(k as int)) =~= member_keys(es@.take(k - 1)).push(es@[k - 1].0@));
            }
            assert(es@.take(es.len() as int) =~= es@);
            keys
        },
        _ => return Err(TableError::MissingObjectRows),
    };
    let ghost h = texts_view(header@);
    let mut rows: Vec<Vec<JsonText>> = Vec::new();
    let mut i: usize = 0;
    assert(items@.take(0) =~= Seq::<JsonValue>::empty());
    while i < items.len()
        invariant
            i <= items.len(),
            h == texts_view(header@),
            rows_view(rows@) == object_data_rows(items@.take(i as int), h),
        decreases items.len() - i,
    {
        let ghost before = rows_view(rows@);
        assert(items@.take(i + 1).drop_last() =~= items@.take(i as int));
        assert(items@.take(i + 1).last() == items@[i as int]);
        match &items[i] {
            JsonValue::Object(es) => {
                let row = object_row_of(es, &header);
                rows.push(row);
                assert(rows_view(rows@) =~= before.push(object_row(es@, h)));
            },
            _ => {},
        }
        i += 1;
    }
    assert(items@.take(items.len() as int) =~= items@);
    Ok(JsonTable { header, rows })
}

/// What reading a document as a table gives.
pub enum TableSpec {
    Table { header: Seq<TextReading>, rows: Seq<Seq<TextReading>> },
    EmptyTable,
    UnsupportedShape,
    MissingHeaderRow,
    MissingObjectRows,
    Message(Seq<char>),
    ObjectWithoutArray(Seq<Seq<char>>),
    UnexpectedString(Seq<char>),
    NotArray,
}

pub open spec fn table_result_view(r: Result<JsonTable, TableError>) -> TableSpec {
    match r {
        Ok(t) => TableSpec::Table { header: texts_view(t.header@), rows: rows_view(t.rows@) },
        Err(TableError::EmptyTable) => TableSpec::EmptyTable,
        Err(TableError::UnsupportedShape) => TableSpec::UnsupportedShape,
        Err(TableError::MissingHeaderRow) => TableSpec::MissingHeaderRow,
        Err(TableError::MissingObjectRows) => TableSpec::MissingObjectRows,
        Err(TableError::Message(m)) => TableSpec::Message(m@),
        Err(TableError::ObjectWithoutArray(keys)) => TableSpec::ObjectWithoutArray(crate::text::strs_view(keys@)),
        Err(TableError::UnexpectedString(t)) => TableSpec::UnexpectedString(t@),
        Err(TableError::NotArray) => TableSpec::NotArray,
    }
}

/// `parse_items_array`: an empty list is an error; otherwise the first item
/// decides between an array table and an object table.
pub open spec fn items_table_spec(items: Seq<JsonValue>) -> TableSpec {
    if items.len() == 0 {
        TableSpec::EmptyTable
    } else {
        match items[0] {
            JsonValue::Array(a) => TableSpec::Table {
                header: array_row(a@),
                rows: array_data_rows(items.skip(1)),
            },
            JsonValue::Object(es) => TableSpec::Table {
                header: member_keys(es@),
                rows: object_data_rows(items, member_keys(es@)),
            },
            _ => TableSpec::UnsupportedShape,
        }
    }
}

/// `parse_items_array`.
pub fn parse_items_array(items: &[JsonValue]) -> (r: Result<JsonTable, TableError>)
    ensures
        table_result_view(r) == items_table_spec(items@),
{
    if items.len() == 0 {
        return Err(TableError::EmptyTable);
    }
    match &items[0] {
        JsonValue::Array(_) => parse_array_rows(items),
        JsonValue::Object(_) => parse_object_rows(items),
        _ => Err(TableError::UnsupportedShape),
    }
}

/// The keys whose string value is taken as an error message, in order.
pub open spec fn error_message_keys() -> Seq<Seq<char>> {
    seq!["error"@, "message"@, "detail"@, "status_message"@, "title"@]
}

/// The trimmed string value of the member `key`, when non-empty.
pub open spec fn message_at(es: Seq<(JsonText, JsonValue)>, key: Seq<char>) -> Option<Seq<char>> {
    match member_get(es, key) {
        Some(JsonValue::String(t)) => if trim_ws(t.text@).len() > 0 {
            Some(trim_ws(t.text@))
        } else {
            None
        },
        _ => None,
    }
}

/// The first error message among the keys from `i` on.
pub open spec fn error_message_from(es: Seq<(JsonText, JsonValue)>, keys: Seq<Seq<char>>, i: int) -> Option<Seq<char>>
    decreases keys.len() - i,
{
    if i < 0 || i >= keys.len() {
        None
    } else {
        match message_at(es, keys[i]) {
            Some(m) => Some(m),
            None => error_message_from(es, keys, i + 1),
        }
    }
}

fn message_at_key(es: &Vec<(JsonText, JsonValue)>, key: &str) -> (r: Option<String>)
    ensures
        match message_at(es@, key@) {
            Some(m) => r matches Some(x) && x@ == m,
            None => r is None,
        },
{
    match get_member(es, key) {
        Some(JsonValue::String(t)) => {
            let trimmed = str_trim(t.text.as_str());
            let cs = str_chars(trimmed);
            if cs.len() > 0 {
                Some(string_from_chars(cs.as_slice()))
            } else {
                None
            }
        },
        _ => None,
    }
}

/// The first non-empty string among the members `error`, `message`,
/// `detail`, `status_message` and `title`, trimmed.
pub fn extract_error_message(obj: &Vec<(JsonText, JsonValue)>) -> (r: Option<String>)
    ensures
        match error_message_from(obj@, error_message_keys(), 0) {
            Some(m) => r matches Some(x) && x@ == m,
            None => r is None,
        },
{
    let names: [&str; 5] = ["error", "message", "detail", "status_message", "title"];
    let ghost keys = error_message_keys();
    assert(names@.map_values(|x: &str| x@) =~= keys);
    let mut k: usize = 0;
    while k < 5
        invariant
            k <= 5,
            names@.map_values(|x: &str| x@) == keys,
            keys == error_message_keys(),
            error_message_from(obj@, keys, 0) == error_message_from(obj@, keys, k as int),
        decreases 5 - k,
    {
        assert(names@[k as int]@ == keys[k as int]);
        let m = message_at_key(obj, names[k]);
        if m.is_some() {
            return m;
        }
        k += 1;
    }
    None
}

/// The keys whose array value is taken as the table, in order.
pub open spec fn table_keys() -> Seq<Seq<char>> {
    seq!["data"@, "values"@, "rows"@, "table"@, "records"@, "items"@]
}

pub open spec fn array_at(es: Seq<(JsonText, JsonValue)>, key: Seq<char>) -> Option<Seq<JsonValue>> {
    match member_get(es, key) {
        Some(JsonValue::Array(items)) => Some(items@),
        _ => None,
    }
}

/// The first array among the members named by `keys` from `i` on.
pub open spec fn listed_array_from(es: Seq<(JsonText, JsonValue)>, keys: Seq<Seq<char>>, i: int) -> Option<Seq<JsonValue>>
    decreases keys.len() - i,
{
    if i < 0 || i >= keys.len() {
        None
    } else {
        match array_at(es, keys[i]) {
            Some(a) => Some(a),
            None => listed_array_from(es, keys, i + 1),
        }
    }
}

/// How many members hold an array.
pub open spec fn count_arrays(es: Seq<(JsonText, JsonValue)>) -> nat
    decreases es.len(),
{
    if es.len() == 0 {
        0
    } else {
        count_arrays(es.drop_last()) + if es.last().1 is Array {
            1nat
        } else {
            0nat
        }
    }
}

/// The value of the last member that holds an array.
pub open spec fn last_array(es: Seq<(JsonText, JsonValue)>) -> Option<Seq<JsonValue>>
    decreases es.len(),
{
    if es.len() == 0 {
        None
    } else {
        match es.last().1 {
            JsonValue::Array(items) => Some(items@),
            _ => last_array(es.drop_last()),
        }
    }
}

/// The table inside an object: the first array among the members `data`,
/// `values`, `rows`, `table`, `records`, `items`; failing that, the only
/// member that holds an array (none when several do).
pub open spec fn object_array_spec(es: Seq<(JsonText, JsonValue)>) -> Option<Seq<JsonValue>> {
    match listed_array_from(es, table_keys(), 0) {
        Some(a) => Some(a),
        None => if count_arrays(es) == 1 {
            last_array(es)
        } else {
            None
        },
    }
}

fn array_at_key<'a>(es: &'a Vec<(JsonText, JsonValue)>, key: &str) -> (r: Option<&'a Vec<JsonValue>>)
    ensures
        match array_at(es@, key@) {
            Some(a) => r matches Some(x) && x@ == a,
            None => r is None,
        },
{
    match get_member(es, key) {
        Some(JsonValue::Array(items)) => Some(items),
        _ => None,
    }
}

/// The table inside an object (see `object_array_spec`).
pub fn extract_array_from_object(obj: &Vec<(JsonText, JsonValue)>) -> (r: Option<&Vec<JsonValue>>)
    ensures
        match object_array_spec(obj@) {
            Some(a) => r matches Some(x) && x@ == a,
            None => r is None,
        },
{
    let names: [&str; 6] = ["data", "values", "rows", "table", "records", "items"];
    let ghost keys = table_keys();
    assert(names@.map_values(|x: &str| x@) =~= keys);
    let mut k: usize = 0;
    while k < 6
        invariant
            k <= 6,
            names@.map_values(|x: &str| x@) == keys,
            keys == table_keys(),
            listed_array_from(obj@, keys, 0) == listed_array_from(obj@, keys, k as int),
        decreases 6 - k,
    {
        assert(names@[k as int]@ == keys[k as int]);
        if let Some(a) = array_at_key(obj, names[k]) {
            return Some(a);
        }
        k += 1;
    }
    assert(listed_array_from(obj@, keys, 0) is None);
    let mut found: Option<&Vec<JsonValue>> = None;
    let mut i: usize = 0;
    assert(obj@.take(0) =~= Seq::<(JsonText, JsonValue)>::empty());
    while i < obj.len()
        invariant
            i <= obj.len(),
            listed_array_from(obj@, table_keys(), 0) is None,
            count_arrays(obj@.take(i as int)) <= 1,
            match last_array(obj@.take(i as int)) {
                Some(a) => found matches Some(x) && x@ == a,
                None => found is None,
            },
            count_arrays(obj@.take(i as int)) == 0 <==> found is None,
        decreases obj.len() - i,
    {
        assert(obj@.take(i + 1).drop_last() =~= obj@.take(i as int));
        assert(obj@.take(i + 1).last() == obj@[i as int]);
        match &obj[i].1 {
            JsonValue::Array(items) => {
                if found.is_some() {
                    proof {
                        lemma_count_arrays_prefix(obj@, i + 1);
                    }
                    return None;
                }
                found = Some(items);
            },
            _ => {},
        }
        i += 1;
    }
    assert(obj@.take(obj.len() as int) =~= obj@);
    found
}

/// Counting arrays over a prefix never exceeds the count over the whole.
proof fn lemma_count_arrays_prefix(es: Seq<(JsonText, JsonValue)>, k: int)
    requires
        0 <= k <= es.len(),
    ensures
        count_arrays(es.take(k)) <= count_arrays(es),
    decreases es.len() - k,
{
    if k < es.len() {
        assert(es.take(k + 1).drop_last() =~= es.take(k));
        lemma_count_arrays_prefix(es, k + 1);
    } else {
        assert(es.take(k) =~= es);
    }
}

/// What `parse_json_table` gives for a decoded document.
pub open spec fn json_table_spec(v: JsonValue) -> TableSpec {
    match v {
        JsonValue::Array(items) => items_table_spec(items@),
        JsonValue::Object(es) => match error_message_from(es@, error_message_keys(), 0) {
            Some(m) => TableSpec::Message(m),
            None => match object_array_spec(es@) {
                Some(items) => items_table_spec(items),
                None => TableSpec::ObjectWithoutArray(es@.map_values(|m: (JsonText, JsonValue)| m.0.text@)),
            },
        },
        JsonValue::String(t) => TableSpec::UnexpectedString(trim_ws(t.text@)),
        _ => TableSpec::NotArray,
    }
}

/// Reads a decoded feed document as a table: an array of rows, an object
/// that wraps such an array, or an error explaining what was found instead.
pub fn parse_json_table(value: &JsonValue) -> (r: Result<JsonTable, TableError>)
    ensures
        table_result_view(r) == json_table_spec(*value),
{
    match value {
        JsonValue::Array(items) => parse_items_array(items.as_slice()),
        JsonValue::Object(obj) => {
            if let Some(message) = extract_error_message(obj) {
                return Err(TableError::Message(message));
            }
            if let Some(items) = extract_array_from_object(obj) {
                return parse_items_array(items.as_slice());
            }
            // The keys are listed in the object's order, which the decoder
            // keeps ascending.
            let mut keys: Vec<String> = Vec::new();
            let mut k: usize = 0;
            while k < obj.len()
                invariant
                    k <= obj.len(),
                    crate::text::strs_view(keys@) == obj@.take(k as int).map_values(|m: (JsonText, JsonValue)| m.0.text@),
                decreases obj.len() - k,
            {
                let ghost before = crate::text::strs_view(keys@);
                keys.push(obj[k].0.text.clone());
                assert(crate::text::strs_view(keys@) =~= before.push(obj@[k as int].0.text@));
                k += 1;
                assert(obj@.take(k as int).map_values(|m: (JsonText, JsonValue)| m.0.text@) =~= obj@.take(k - 1).map_values(
                    |m: (JsonText, JsonValue)| m.0.text@,
                ).push(obj@[k - 1].0.text@));
            }
            assert(obj@.take(obj.len() as int) =~= obj@);
            Err(TableError::ObjectWithoutArray(keys))
        },
        JsonValue::String(t) => {
            let trimmed = str_trim(t.text.as_str());
            let cs = str_chars(trimmed);
            Err(TableError::UnexpectedString(string_from_chars(cs.as_slice())))
        },
        _ => Err(TableError::NotArray),
    }
}

// ----------------------------------------------------------------------------
// Column names
// ----------------------------------------------------------------------------

pub open spec fn is_key_separator(c: char) -> bool {
    c == ' ' || c == '-' || c == '_' || c == '/'
}

/// Lower-cases ASCII letters and drops the separators `' '`, `'-'`, `'_'`, `'/'`.
pub open spec fn lower_without_separators(s: Seq<char>) -> Seq<char>
    decreases s.len(),
{
    if s.len() == 0 {
        Seq::empty()
    } else {
        let prev = lower_without_separators(s.drop_last());
        if is_key_separator(s.last()) {
            prev
        } else {
            prev.push(ascii_lower(s.last()))
        }
    }
}

/// A column name as compared: trimmed, ASCII-lower-cased, separators removed.
pub open spec fn normalize_key_spec(s: Seq<char>) -> Seq<char> {
    lower_without_separators(trim_ws(s))
}

fn normalize_chars(s: &str) -> (r: Vec<char>)
    ensures
        r@ == normalize_key_spec(s@),
{
    let t = str_trim(s);
    let cs = str_chars(t);
    let mut out: Vec<char> = Vec::new();
    let mut i: usize = 0;
    assert(cs@.take(0) =~= Seq::<char>::empty());
    while i < cs.len()
        invariant
            i <= cs.len(),
            out@ == lower_without_separators(cs@.take(i as int)),
        decreases cs.len() - i,
    {
        let c = cs[i];
        assert(cs@.take(i + 1).drop_last() =~= cs@.take(i as int));
        assert(cs@.take(i + 1).last() == c);
        if !(c == ' ' || c == '-' || c == '_' || c == '/') {
            out.push(ascii_lower_char(c));
        }
        i += 1;
    }
    assert(cs@.take(cs.len() as int) =~= cs@);
    out
}

/// The form in which column names are compared: trimmed, ASCII-lowercased,
/// without spaces, dashes, underscores and slashes.
pub fn normalize_key(value: &str) -> (r: String)
    ensures
        r@ == normalize_key_spec(value@),
{
    let v = normalize_chars(value);
    string_from_chars(v.as_slice())
}

/// Whether a header cell names the column that one of the candidate names
/// denotes: its normalized form contains a candidate's normalized form.
pub open spec fn header_matches(h: Seq<char>, candidates: Seq<Seq<char>>) -> bool {
    exists|j: int| 0 <= j < candidates.len() && contains_seq(normalize_key_spec(h), #[trigger] normalize_key_spec(candidates[j]))
}

pub open spec fn strs_ref_view(v: Seq<&str>) -> Seq<Seq<char>> {
    v.map_values(|x: &str| x@)
}

/// The texts of header cells.
pub open spec fn header_texts(v: Seq<JsonText>) -> Seq<Seq<char>> {
    v.map_values(|t: JsonText| t.text@)
}

/// The first header cell that matches one of the candidates.
pub open spec fn find_column_spec(header: Seq<Seq<char>>, candidates: Seq<Seq<char>>, r: Option<usize>) -> bool {
    match r {
        Some(i) => i < header.len() && header_matches(header[i as int], candidates)
            && forall|k: int| 0 <= k < i ==> !header_matches(#[trigger] header[k], candidates),
        None => forall|k: int| 0 <= k < header.len() ==> !header_matches(#[trigger] header[k], candidates),
    }
}

/// The index of the first header cell that one of the candidate names
/// matches (after normalizing both, by containment).
pub fn find_column(header: &[JsonText], candidates: &[&str]) -> (r: Option<usize>)
    ensures
        find_column_spec(header_texts(header@), strs_ref_view(candidates@), r),
{
    let ghost hs = header_texts(header@);
    let ghost cands = strs_ref_view(candidates@);
    let mut needles: Vec<Vec<char>> = Vec::new();
    let mut j: usize = 0;
    while j < candidates.len()
        invariant
            j <= candidates.len(),
            cands == strs_ref_view(candidates@),
            needles.len() == j,
            forall|m: int| 0 <= m < j ==> #[trigger] needles@[m]@ == normalize_key_spec(cands[m]),
        decreases candidates.len() - j,
    {
        assert(cands[j as int] == candidates@[j as int]@);
        needles.push(normalize_chars(candidates[j]));
        j += 1;
    }
    let mut idx: usize = 0;
    while idx < header.len()
        invariant
            idx <= header.len(),
            hs == header_texts(header@),
            cands == strs_ref_view(candidates@),
            needles.len() == candidates.len(),
            forall|m: int| 0 <= m < needles.len() ==> #[trigger] needles@[m]@ == normalize_key_spec(cands[m]),
            forall|k: int| 0 <= k < idx ==> !header_matches(#[trigger] hs[k], cands),
        decreases header.len() - idx,
    {
        assert(hs[idx as int] == header@[idx as int].text@);
        let name = normalize_chars(header[idx].text.as_str());
        let mut m: usize = 0;
        while m < needles.len()
            invariant
                m <= needles.len(),
                idx < header.len(),
                hs == header_texts(header@),
                cands == strs_ref_view(candidates@),
                forall|k: int| 0 <= k < idx ==> !header_matches(#[trigger] hs[k], cands),
                needles.len() == candidates.len(),
                cands.len() == candidates.len(),
                name@ == normalize_key_spec(hs[idx as int]),
                forall|q: int| 0 <= q < needles.len() ==> #[trigger] needles@[q]@ == normalize_key_spec(cands[q]),
                forall|q: int| 0 <= q < m ==> !contains_seq(name@, #[trigger] normalize_key_spec(cands[q])),
            decreases needles.len() - m,
        {
            if contains_chars(&name, &needles[m]) {
                assert(header_matches(hs[idx as int], cands)) by {
                    assert(contains_seq(normalize_key_spec(hs[idx as int]), normalize_key_spec(cands[m as int])));
                }
                return Some(idx);
            }
            m += 1;
        }
        idx += 1;
    }
    None
}

// ----------------------------------------------------------------------------
// Cells
// ----------------------------------------------------------------------------

/// A cell's content: trimmed; absent when the row is too short, the cell is
/// empty, or it holds the text `null`.
pub open spec fn cell_spec(row: Seq<TextReading>, idx: int) -> Option<Seq<char>> {
    if 0 <= idx < row.len() {
        let t = trim_ws(row[idx].text);
        if t.len() == 0 || t == seq!['n', 'u', 'l', 'l'] {
            None
        } else {
            Some(t)
        }
    } else {
        None
    }
}

pub open spec fn opt_ref_view(o: Option<&str>) -> Option<Seq<char>> {
    match o {
        Some(s) => Some(s@),
        None => None,
    }
}

/// The trimmed text of cell `idx` of a row, unless missing, empty or `null`.
pub fn get_cell<'a>(row: &'a [JsonText], idx: usize) -> (r: Option<&'a str>)
    ensures
        opt_ref_view(r) == cell_spec(texts_view(row@), idx as int),
{
    if idx >= row.len() {
        return None;
    }
    assert(texts_view(row@)[idx as int] == row@[idx as int]@);
    let t = str_trim(row[idx].text.as_str());
    let cs = str_chars(t);
    if cs.len() == 0 {
        return None;
    }
    if cs.len() == 4 && cs[0] == 'n' && cs[1] == 'u' && cs[2] == 'l' && cs[3] == 'l' {
        assert(cs@ =~= seq!['n', 'u', 'l', 'l']);
        return None;
    }
    assert(cs@ != seq!['n', 'u', 'l', 'l']) by {
        if cs@ == seq!['n', 'u', 'l', 'l'] {
            assert(cs@[0] == 'n' && cs@[1] == 'u' && cs@[2] == 'l' && cs@[3] == 'l');
        }
    }
    Some(t)
}

/// `parse_f32(get_cell(row, idx))`: the number read from the trimmed cell.
pub open spec fn cell_number_spec(row: Seq<TextReading>, idx: int) -> Option<u32> {
    if cell_spec(row, idx) is Some {
        row[idx].trimmed_f32_bits
    } else {
        None
    }
}

/// The `f32` (as bits) read from the trimmed cell `idx`, when the cell is
/// present (`parse_f32(get_cell(row, idx))`).
pub fn cell_number(row: &[JsonText], idx: usize) -> (r: Option<u32>)
    ensures
        r == cell_number_spec(texts_view(row@), idx as int),
{
    match get_cell(row, idx) {
        Some(_) => {
            assert(texts_view(row@)[idx as int] == row@[idx as int]@);
            row[idx].trimmed_f32_bits
        },
        None => None,
    }
}

// ----------------------------------------------------------------------------
// Headers that are data
// ----------------------------------------------------------------------------

/// How many of the cells read as `f32` numbers.
pub open spec fn count_numeric(cells: Seq<TextReading>) -> nat
    decreases cells.len(),
{
    if cells.len() == 0 {
        0
    } else {
        count_numeric(cells.drop_last()) + if cells.last().f32_bits is Some {
            1nat
        } else {
            0nat
        }
    }
}

/// A header row looks like data when all its cells but at most one are
/// numbers (and at least one is).
pub open spec fn header_looks_numeric_spec(header: Seq<TextReading>) -> bool {
    header.len() > 0 && count_numeric(header) >= (if header.len() >= 2 { header.len() - 1 } else { 1 })
}

/// Whether the header row holds numbers rather than column names.
pub fn header_looks_numeric(header: &[JsonText]) -> (r: bool)
    ensures
        r == header_looks_numeric_spec(texts_view(header@)),
{
    if header.len() == 0 {
        return false;
    }
    let ghost hs = texts_view(header@);
    let mut numeric: usize = 0;
    let mut i: usize = 0;
    assert(hs.take(0) =~= Seq::<TextReading>::empty());
    while i < header.len()
        invariant
            i <= header.len(),
            hs == texts_view(header@),
            numeric == count_numeric(hs.take(i as int)),
            numeric <= i,
        decreases header.len() - i,
    {
        assert(hs.take(i + 1).drop_last() =~= hs.take(i as int));
        assert(hs.take(i + 1).last() == header@[i as int]@);
        if header[i].f32_bits.is_some() {
            numeric += 1;
        }
        i += 1;
    }
    assert(hs.take(header.len() as int) =~= hs);
    let need = if header.len() >= 2 { header.len() - 1 } else { 1 };
    numeric >= need
}

// ----------------------------------------------------------------------------
// OVATION column inference
// ----------------------------------------------------------------------------

/// Whole numbers below this are exact in `f32`.
pub const F32_EXACT_LIMIT: u128 = 0x100_0000;

pub open spec fn pow2(e: nat) -> nat
    decreases e,
{
    if e == 0 {
        1
    } else {
        2 * pow2((e - 1) as nat)
    }
}

proof fn lemma_pow2_positive(e: nat)
    ensures
        pow2(e) >= 1,
        e > 0 ==> pow2(e) >= 2,
    decreases e,
{
    if e > 0 {
        lemma_pow2_positive((e - 1) as nat);
    }
}

/// How many low bits `n as f32` cannot hold.
pub open spec fn sig_shift(n: nat) -> nat
    decreases n,
{
    if n < F32_EXACT_LIMIT {
        0
    } else {
        1 + sig_shift(n / 2)
    }
}

/// `n as f32` for a whole number: the nearest value with a 24-bit significand,
/// ties going to the even significand.
pub open spec fn f32_round_nat(n: nat) -> nat {
    let e = sig_shift(n);
    if e == 0 {
        n
    } else {
        let p = pow2(e);
        let q = n / p;
        let rem = n % p;
        let half = pow2((e - 1) as nat);
        if rem > half || (rem == half && q % 2 == 1) {
            (q + 1) * p
        } else {
            q * p
        }
    }
}

/// `(((n as f32) * 0.5).ceil() as usize).max(1)`: the number of numeric
/// cells a column needs, about half the rows.
pub open spec fn min_required_spec(n: nat) -> nat {
    let r = f32_round_nat(n);
    let half = (r + 1) / 2;
    if half >= 1 {
        half
    } else {
        1
    }
}

/// `(((n as f32) * 0.5).ceil() as usize).max(1)`.
pub fn min_required_rows(n: usize) -> (r: usize)
    ensures
        r as nat == min_required_spec(n as nat),
{
    let mut m: u128 = n as u128;
    let mut p: u128 = 1;
    let ghost mut e: nat = 0;
    while m >= F32_EXACT_LIMIT
        invariant
            p == pow2(e),
            m == (n as nat) / (p as nat),
            sig_shift(n as nat) == e + sig_shift(m as nat),
            p == 1 || p <= n as nat,
            p >= 1,
            n <= usize::MAX,
        decreases m,
    {
        proof {
            vstd::arithmetic::div_mod::lemma_div_denominator(n as int, p as int, 2);
            assert(p * 2 <= n) by (nonlinear_arith)
                requires
                    m == (n as nat) / (p as nat),
                    m >= 2,
                    p >= 1,
            {
                vstd::arithmetic::div_mod::lemma_fundamental_div_mod(n as int, p as int);
            }
        }
        m = m / 2;
        p = p * 2;
        proof {
            e = e + 1;
            assert(pow2(e) == 2 * pow2((e - 1) as nat));
        }
    }
    proof {
        lemma_pow2_positive(e);
    }
    let rounded: u128 = if p == 1 {
        assert(e == 0);
        n as u128
    } else {
        proof {
            vstd::arithmetic::div_mod::lemma_fundamental_div_mod(n as int, p as int);
        }
        let rem: u128 = (n as u128) - m * p;
        let half: u128 = p / 2;
        assert(half == pow2((e - 1) as nat));
        assert(rem == (n as nat) % (p as nat));
        if rem > half || (rem == half && m % 2 == 1) {
            assert((m + 1) * p <= 2 * (n as nat)) by (nonlinear_arith)
                requires
                    m * p <= n,
                    p <= n,
            ;
            (m + 1) * p
        } else {
            m * p
        }
    };
    assert(rounded == f32_round_nat(n as nat));
    let half = (rounded + 1) / 2;
    if half >= 1 {
        half as usize
    } else {
        1
    }
}

/// The `f32` bits of cell `c` of a row (the raw reading), if any.
pub open spec fn raw_cell(row: Seq<TextReading>, c: int) -> Option<u32> {
    if 0 <= c < row.len() {
        row[c].f32_bits
    } else {
        None
    }
}

/// What the inference gathers of one column: how many cells are numbers,
/// whether one is finite, whether one is infinite, whether all non-NaN ones
/// lie in -90..=90 and in -180..=360, and whether one is positive.
#[derive(Clone, Copy)]
pub struct ColumnStats {
    pub count: usize,
    pub finite: bool,
    pub infinite: bool,
    pub lat_ok: bool,
    pub lon_ok: bool,
    pub positive: bool,
}

pub open spec fn stats_step(s: ColumnStats, v: Option<u32>) -> ColumnStats {
    match v {
        None => s,
        Some(b) => ColumnStats {
            count: (s.count + 1) as usize,
            finite: s.finite || is_finite(b),
            infinite: s.infinite || is_infinite(b),
            lat_ok: s.lat_ok && (is_nan(b) || in_lat_range(b)),
            lon_ok: s.lon_ok && (is_nan(b) || in_lon_range(b)),
            positive: s.positive || lt(ZERO, b),
        },
    }
}

pub open spec fn empty_stats() -> ColumnStats {
    ColumnStats { count: 0, finite: false, infinite: false, lat_ok: true, lon_ok: true, positive: false }
}

/// The statistics of column `c` over the rows.
pub open spec fn column_stats(rows: Seq<Seq<TextReading>>, c: int) -> ColumnStats
    decreases rows.len(),
{
    if rows.len() == 0 {
        empty_stats()
    } else {
        stats_step(column_stats(rows.drop_last(), c), raw_cell(rows.last(), c))
    }
}

proof fn lemma_column_count_bounded(rows: Seq<Seq<TextReading>>, c: int)
    ensures
        column_stats(rows, c).count <= rows.len(),
    decreases rows.len(),
{
    if rows.len() > 0 {
        lemma_column_count_bounded(rows.drop_last(), c);
    }
}

/// The column takes part in the inference: enough numeric cells, with
/// finite minimum and maximum (some finite value, no infinite one).
pub open spec fn column_usable(rows: Seq<Seq<TextReading>>, c: int, min_required: nat) -> bool {
    let s = column_stats(rows, c);
    s.count >= min_required && s.finite && !s.infinite
}

pub open spec fn lat_candidate(rows: Seq<Seq<TextReading>>, c: int, min_required: nat) -> bool {
    column_usable(rows, c, min_required) && column_stats(rows, c).lat_ok
}

pub open spec fn lon_candidate(rows: Seq<Seq<TextReading>>, c: int, min_required: nat) -> bool {
    column_usable(rows, c, min_required) && column_stats(rows, c).lon_ok
}

pub open spec fn value_candidate(rows: Seq<Seq<TextReading>>, c: int, min_required: nat) -> bool {
    column_usable(rows, c, min_required) && column_stats(rows, c).positive
}

/// The widest row's length.
pub open spec fn max_row_len(rows: Seq<Seq<TextReading>>) -> nat
    decreases rows.len(),
{
    if rows.len() == 0 {
        0
    } else {
        let m = max_row_len(rows.drop_last());
        if rows.last().len() > m {
            rows.last().len()
        } else {
            m
        }
    }
}

/// The first latitude-like column in `lo..hi`.
pub open spec fn first_lat_col(rows: Seq<Seq<TextReading>>, req: nat, lo: int, hi: int) -> Option<int>
    decreases hi - lo,
{
    if lo >= hi {
        None
    } else if lat_candidate(rows, lo, req) {
        Some(lo)
    } else {
        first_lat_col(rows, req, lo + 1, hi)
    }
}

/// The first longitude-like column in `lo..hi` other than `skip`.
pub open spec fn first_lon_col(rows: Seq<Seq<TextReading>>, req: nat, skip: int, lo: int, hi: int) -> Option<int>
    decreases hi - lo,
{
    if lo >= hi {
        None
    } else if lon_candidate(rows, lo, req) && lo != skip {
        Some(lo)
    } else {
        first_lon_col(rows, req, skip, lo + 1, hi)
    }
}

/// The first column in `lo..hi` with a positive value, other than `a` and `b`.
pub open spec fn first_value_col(rows: Seq<Seq<TextReading>>, req: nat, a: int, b: int, lo: int, hi: int) -> Option<int>
    decreases hi - lo,
{
    if lo >= hi {
        None
    } else if value_candidate(rows, lo, req) && lo != a && lo != b {
        Some(lo)
    } else {
        first_value_col(rows, req, a, b, lo + 1, hi)
    }
}

/// The first index in `lo..hi` other than `a` and `b`.
pub open spec fn first_other_col(a: int, b: int, lo: int, hi: int) -> Option<int>
    decreases hi - lo,
{
    if lo >= hi {
        None
    } else if lo != a && lo != b {
        Some(lo)
    } else {
        first_other_col(a, b, lo + 1, hi)
    }
}

/// Which columns of a numeric OVATION table hold latitude, longitude and
/// intensity: the first latitude-like column, the first other
/// longitude-like column, and the first remaining column with a positive
/// value (or, in a three-column table, the remaining column).
pub open spec fn infer_ovation_columns_spec(rows: Seq<Seq<TextReading>>) -> Option<(usize, usize, usize)> {
    let n = max_row_len(rows) as int;
    let req = min_required_spec(rows.len());
    if rows.len() == 0 || n == 0 {
        None
    } else {
        match first_lat_col(rows, req, 0, n) {
            None => None,
            Some(lat) => if first_lon_col(rows, req, -1, 0, n) is None {
                None
            } else {
                match first_lon_col(rows, req, lat, 0, n) {
                    None => None,
                    Some(lon) => {
                        let chosen = first_value_col(rows, req, lat, lon, 0, n);
                        let value = if chosen is None && n == 3 {
                            first_other_col(lat, lon, 0, 3)
                        } else {
                            chosen
                        };
                        match value {
                            Some(v) => Some((lat as usize, lon as usize, v as usize)),
                            None => None,
                        }
                    },
                }
            },
        }
    }
}

fn update_stats(s: &mut ColumnStats, b: u32)
    requires
        old(s).count < usize::MAX,
    ensures
        *final(s) == stats_step(*old(s), Some(b)),
{
    s.count = s.count + 1;
    s.finite = s.finite || finite(b);
    s.infinite = s.infinite || infinite(b);
    s.lat_ok = s.lat_ok && (nan(b) || (f32_le(MINUS_90, b) && f32_le(b, PLUS_90)));
    s.lon_ok = s.lon_ok && (nan(b) || (f32_le(MINUS_180, b) && f32_le(b, PLUS_360)));
    s.positive = s.positive || f32_lt(ZERO, b);
}

/// Infers which columns of an OVATION table hold latitude, longitude and
/// intensity (see `infer_ovation_columns_spec`).
pub fn infer_ovation_columns(rows: &[Vec<JsonText>]) -> (r: Option<(usize, usize, usize)>)
    ensures
        r == infer_ovation_columns_spec(rows_view(rows@)),
{
    let ghost rv = rows_view(rows@);
    let row_count = rows.len();
    if row_count == 0 {
        return None;
    }
    // The widest row.
    let mut col_count: usize = 0;
    let mut i: usize = 0;
    assert(rv.take(0) =~= Seq::<Seq<TextReading>>::empty());
    while i < rows.len()
        invariant
            i <= rows.len(),
            rv == rows_view(rows@),
            col_count == max_row_len(rv.take(i as int)),
        decreases rows.len() - i,
    {
        assert(rv.take(i + 1).drop_last() =~= rv.take(i as int));
        assert(rv.take(i + 1).last() == texts_view(rows@[i as int]@));
        if rows[i].len() > col_count {
            col_count = rows[i].len();
        }
        i += 1;
    }
    assert(rv.take(rows.len() as int) =~= rv);
    if col_count == 0 {
        return None;
    }
    let min_required = min_required_rows(row_count);
    let ghost req = min_required as nat;
    assert(rv.len() == rows.len());
    // Per-column statistics.
    let mut stats: Vec<ColumnStats> = Vec::new();
    let mut c: usize = 0;
    while c < col_count
        invariant
            c <= col_count,
            stats.len() == c,
            forall|k: int| 0 <= k < c ==> #[trigger] stats@[k] == empty_stats(),
        decreases col_count - c,
    {
        stats.push(ColumnStats { count: 0, finite: false, infinite: false, lat_ok: true, lon_ok: true, positive: false });
        c += 1;
    }
    let mut r: usize = 0;
    assert forall|k: int| 0 <= k < col_count implies #[trigger] stats@[k] == column_stats(rv.take(0), k) by {
        assert(rv.take(0).len() == 0);
    }
    while r < rows.len()
        invariant
            r <= rows.len(),
            rv == rows_view(rows@),
            col_count == max_row_len(rv),
            stats.len() == col_count,
            forall|k: int| 0 <= k < col_count ==> #[trigger] stats@[k] == column_stats(rv.take(r as int), k),
            forall|k: int| 0 <= k < col_count ==> stats@[k].count <= r,
        decreases rows.len() - r,
    {
        let row = &rows[r];
        let ghost rowv = rv[r as int];
        assert(rowv == texts_view(row@));
        proof {
            lemma_max_row_len(rv, r as int);
        }
        let mut j: usize = 0;
        while j < row.len()
            invariant
                j <= row.len() <= col_count,
                r < rows.len(),
                rv == rows_view(rows@),
                rowv == texts_view(row@),
                stats.len() == col_count,
                forall|k: int| 0 <= k < col_count ==> #[trigger] stats@[k] == (if k < j {
                    stats_step(column_stats(rv.take(r as int), k), raw_cell(rowv, k))
                } else {
                    column_stats(rv.take(r as int), k)
                }),
                forall|k: int| 0 <= k < col_count ==> stats@[k].count <= r + 1,
                forall|k: int| j <= k < col_count ==> stats@[k].count <= r,
            decreases row.len() - j,
        {
            assert(raw_cell(rowv, j as int) == row@[j as int].f32_bits);
            match row[j].f32_bits {
                Some(b) => {
                    let mut s = stats[j];
                    update_stats(&mut s, b);
                    stats.set(j, s);
                },
                None => {},
            }
            j += 1;
        }
        assert forall|k: int| 0 <= k < col_count implies #[trigger] stats@[k] == column_stats(rv.take(r + 1), k) by {
            assert(rv.take(r + 1).drop_last() =~= rv.take(r as int));
            assert(rv.take(r + 1).last() == rowv);
            if k >= row.len() {
                assert(raw_cell(rowv, k) is None);
            }
        }
        r += 1;
    }
    assert(rv.take(rows.len() as int) =~= rv);
    // Candidate flags.
    let mut lat_flags: Vec<bool> = Vec::new();
    let mut lon_flags: Vec<bool> = Vec::new();
    let mut value_flags: Vec<bool> = Vec::new();
    let mut k: usize = 0;
    while k < col_count
        invariant
            k <= col_count,
            req == min_required as nat,
            rv == rows_view(rows@),
            stats.len() == col_count,
            lat_flags.len() == k && lon_flags.len() == k && value_flags.len() == k,
            forall|q: int| 0 <= q < col_count ==> #[trigger] stats@[q] == column_stats(rv, q),
            forall|q: int| 0 <= q < k ==> #[trigger] lat_flags@[q] == lat_candidate(rv, q, req),
            forall|q: int| 0 <= q < k ==> #[trigger] lon_flags@[q] == lon_candidate(rv, q, req),
            forall|q: int| 0 <= q < k ==> #[trigger] value_flags@[q] == value_candidate(rv, q, req),
        decreases col_count - k,
    {
        let s = &stats[k];
        let usable = s.count >= min_required && s.finite && !s.infinite;
        lat_flags.push(usable && s.lat_ok);
        lon_flags.push(usable && s.lon_ok);
        value_flags.push(usable && s.positive);
        k += 1;
    }
    let ghost n = col_count as int;
    // The latitude column.
    let mut lat: usize = 0;
    while lat < col_count && !lat_flags[lat]
        invariant
            lat <= col_count,
            lat_flags.len() == col_count,
            forall|x: int| 0 <= x < col_count ==> #[trigger] lat_flags@[x] == lat_candidate(rv, x, req),
            first_lat_col(rv, req, 0, n) == first_lat_col(rv, req, lat as int, n),
        decreases col_count - lat,
    {
        lat += 1;
    }
    if lat == col_count {
        return None;
    }
    // Some longitude column at all.
    let mut any_lon: usize = 0;
    while any_lon < col_count && !lon_flags[any_lon]
        invariant
            any_lon <= col_count,
            lon_flags.len() == col_count,
            forall|x: int| 0 <= x < col_count ==> #[trigger] lon_flags@[x] == lon_candidate(rv, x, req),
            first_lon_col(rv, req, -1, 0, n) == first_lon_col(rv, req, -1, any_lon as int, n),
        decreases col_count - any_lon,
    {
        any_lon += 1;
    }
    if any_lon == col_count {
        return None;
    }
    // The longitude column, other than the latitude one.
    let mut lon: usize = 0;
    while lon < col_count && !(lon_flags[lon] && lon != lat)
        invariant
            lon <= col_count,
            lon_flags.len() == col_count,
            forall|x: int| 0 <= x < col_count ==> #[trigger] lon_flags@[x] == lon_candidate(rv, x, req),
            first_lon_col(rv, req, lat as int, 0, n) == first_lon_col(rv, req, lat as int, lon as int, n),
        decreases col_count - lon,
    {
        lon += 1;
    }
    if lon == col_count {
        return None;
    }
    // The intensity column.
    let mut v: usize = 0;
    while v < col_count && !(value_flags[v] && v != lat && v != lon)
        invariant
            v <= col_count,
            value_flags.len() == col_count,
            forall|x: int| 0 <= x < col_count ==> #[trigger] value_flags@[x] == value_candidate(rv, x, req),
            first_value_col(rv, req, lat as int, lon as int, 0, n) == first_value_col(
                rv,
                req,
                lat as int,
                lon as int,
                v as int,
                n,
            ),
        decreases col_count - v,
    {
        v += 1;
    }
    if v < col_count {
        return Some((lat, lon, v));
    }
    if col_count == 3 {
        let mut o: usize = 0;
        while o < 3 && !(o != lat && o != lon)
            invariant
                o <= 3,
                first_other_col(lat as int, lon as int, 0, 3) == first_other_col(lat as int, lon as int, o as int, 3),
            decreases 3 - o,
        {
            o += 1;
        }
        if o < 3 {
            return Some((lat, lon, o));
        }
    }
    None
}

/// Every row fits within the widest one.
proof fn lemma_max_row_len(rows: Seq<Seq<TextReading>>, i: int)
    requires
        0 <= i < rows.len(),
    ensures
        rows[i].len() <= max_row_len(rows),
    decreases rows.len(),
{
    if i < rows.len() - 1 {
        lemma_max_row_len(rows.drop_last(), i);
    }
}

} // verus!
