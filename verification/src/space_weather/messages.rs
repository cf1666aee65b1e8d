//! The texts of the errors met while reading a feed document as a table.
use vstd::prelude::*;
use crate::space_weather::fetcher::TableError;
use crate::text::{
    byte_get, byte_get_range, concat_str, join_with, str_chars, string_from_range, strs_view, utf8_len,
    utf8_len_at_least,
};

verus! {

/// A string quoted in an error: whole up to 120 bytes, else its first 120
/// bytes and `...`; nothing when byte 120 falls inside a character, where
/// slicing the string panics.
pub open spec fn snippet(t: Seq<char>) -> Option<Seq<char>> {
    if utf8_len(t) > 120 {
        match byte_get(t, 0, 120) {
            Some(p) => Some(p + "..."@),
            None => None,
        }
    } else {
        Some(t)
    }
}

/// The text of a table error; nothing where forming it panics.
pub open spec fn table_error_text(e: TableError) -> Option<Seq<char>> {
    match e {
        TableError::EmptyTable => Some("empty json table"@),
        TableError::UnsupportedShape => Some("unsupported table shape"@),
        TableError::MissingHeaderRow => Some("missing header row"@),
        TableError::MissingObjectRows => Some("missing object rows"@),
        TableError::Message(m) => Some(m@),
        TableError::ObjectWithoutArray(keys) => Some(
            "expected json array (object keys: "@ + join_with(strs_view(keys@), ", "@) + ")"@,
        ),
        TableError::UnexpectedString(t) => match snippet(t@) {
            Some(s) => Some("expected json array (string: "@ + s + ")"@),
            None => None,
        },
        TableError::NotArray => Some("expected json array"@),
    }
}

/// `keys.join(", ")`.
fn join_keys(keys: &Vec<String>) -> (r: String)
    ensures
        r@ == join_with(strs_view(keys@), ", "@),
{
    let ghost ks = strs_view(keys@);
    if keys.len() == 0 {
        return String::new();
    }
    let mut out = keys[0].clone();
    let mut i: usize = 1;
    assert(ks.take(1).len() == 1);
    assert(join_with(ks.take(1), ", "@) == ks[0]);
    while i < keys.len()
        invariant
            1 <= i <= keys.len(),
            ks == strs_view(keys@),
            out@ == join_with(ks.take(i as int), ", "@),
        decreases keys.len() - i,
    {
        let with_sep = concat_str(out.as_str(), ", ");
        out = concat_str(with_sep.as_str(), keys[i].as_str());
        assert(ks.take(i + 1).drop_last() =~= ks.take(i as int));
        assert(ks.take(i + 1).last() == keys@[i as int]@);
        i += 1;
    }
    assert(ks.take(keys.len() as int) =~= ks);
    out
}

/// The quoted form of a string (see `snippet`).
fn snippet_of(t: &String) -> (r: Option<String>)
    ensures
        match snippet(t@) {
            Some(s) => r matches Some(x) && x@ == s,
            None => r is None,
        },
{
    let cs = str_chars(t.as_str());
    if !utf8_len_at_least(&cs, 121) {
        return Some(t.clone());
    }
    match byte_get_range(&cs, 0, 120) {
        Some((a, b)) => {
            let head = string_from_range(&cs, a, b);
            Some(concat_str(head.as_str(), "..."))
        },
        None => None,
    }
}

impl TableError {
    /// The text of the error; `None` where forming it would slice a string
    /// inside a character (which panics).
    pub fn message(&self) -> (r: Option<String>)
        ensures
            match table_error_text(*self) {
                Some(m) => r matches Some(x) && x@ == m,
                None => r is None,
            },
    {
        match self {
            TableError::EmptyTable => Some(String::from_str("empty json table")),
            TableError::UnsupportedShape => Some(String::from_str("unsupported table shape")),
            TableError::MissingHeaderRow => Some(String::from_str("missing header row")),
            TableError::MissingObjectRows => Some(String::from_str("missing object rows")),
            TableError::Message(m) => Some(m.clone()),
            TableError::ObjectWithoutArray(keys) => {
                let joined = join_keys(keys);
                let head = concat_str("expected json array (object keys: ", joined.as_str());
                Some(concat_str(head.as_str(), ")"))
            },
            TableError::UnexpectedString(t) => match snippet_of(t) {
                Some(s) => {
                    let head = concat_str("expected json array (string: ", s.as_str());
                    Some(concat_str(head.as_str(), ")"))
                },
                None => None,
            },
            TableError::NotArray => Some(String::from_str("expected json array")),
        }
    }
}

} // verus!
