//! What a fetched TLE changes in a satellite's record: its display name, its
//! epoch, and the SGP4 model built from its lines (or the reason none was).
use vstd::prelude::*;
use crate::text::{concat_str, decimal, decimal_string, parse_u32_spec, str_chars, str_trim, trim_ws, parse_u32_range, string_from_chars, utf8_len, utf8_len_at_least};
use std::collections::HashMap;
use vstd::std_specs::hash::spec_keys_iter;
use vstd::std_specs::iter::IteratorSpec;
use crate::time::UtcTimestamp;

verus! {

broadcast use vstd::std_specs::hash::group_hash_axioms;

/// `sgp4::Constants`: an SGP4 propagator.
#[verifier::external_type_specification]
#[verifier::external_body]
pub struct ExConstants(sgp4::Constants);

/// What building an SGP4 model from two element lines gives:
/// `sgp4::Elements::from_tle` followed by `sgp4::Constants::from_elements`.
/// Nothing when both accept, else the text of the first error.  Both calls
/// depend on the two lines alone (the object name only labels the elements).
pub uninterp spec fn sgp4_model_error(line1: Seq<char>, line2: Seq<char>) -> Option<Seq<char>>;

/// Whether a line is 69 bytes long in UTF-8 and its last byte, the checksum
/// column that `sgp4` reads as `content[68] - b'0'`, lies below `'0'`.  The
/// last byte of a text is below `0x80` only when its last character is that
/// byte, so the test is on the last character.
pub open spec fn low_checksum_byte(line: Seq<char>) -> bool {
    &&& utf8_len(line) == 69
    &&& line.len() > 0
    &&& (line.last() as u32) < 0x30
}

/// `sgp4::Elements::from_tle(name, line1.as_bytes(), line2.as_bytes())` and,
/// when it accepts the lines, `sgp4::Constants::from_elements` on the
/// elements; an error as its `Display` text.  Whether a model is built, and
/// the error's text, are named by `sgp4_model_error`.  `from_tle` subtracts
/// `b'0'` from the checksum byte of each 69-byte line in `u8` arithmetic,
/// which panics with overflow checks on where that byte is below `'0'`;
/// such lines are excluded.
#[verifier::external_body]
fn sgp4_model(name: Option<String>, line1: &str, line2: &str) -> (r: Result<sgp4::Constants, String>)
    requires
        !low_checksum_byte(line1@),
        !low_checksum_byte(line2@),
    ensures
        match r {
            Ok(_) => sgp4_model_error(line1@, line2@) is None,
            Err(e) => sgp4_model_error(line1@, line2@) == Some(e@),
        },
{
    match sgp4::Elements::from_tle(name, line1.as_bytes(), line2.as_bytes()) {
        Ok(elements) => match sgp4::Constants::from_elements(&elements) {
            Ok(constants) => Ok(constants),
            Err(e) => Err(e.to_string()),
        },
        Err(e) => Err(e.to_string()),
    }
}

/// Whether a line is 69 bytes long and ends in a character below `'0'` (see
/// `low_checksum_byte`).
fn has_low_checksum_byte(line: &str) -> (r: bool)
    ensures
        r == low_checksum_byte(line@),
{
    let cs = str_chars(line);
    if cs.len() == 0 {
        proof {
            assert(line@ =~= Seq::<char>::empty());
            assert(utf8_len(line@) == 0);
        }
        return false;
    }
    let exact = utf8_len_at_least(&cs, 69) && !utf8_len_at_least(&cs, 70);
    let last = cs[cs.len() - 1];
    exact && (last as u32) < 0x30
}

/// A line as handed to `sgp4`: a checksum byte below `'0'` is replaced by
/// `':'`.  Both read as a checksum value of at least 10 (the first by the
/// wrapping of `content[68] - b'0'` without overflow checks), which no digit
/// sum matches, and no check before the checksum reads that byte; so `sgp4`
/// reports the same for both, without the subtraction overflowing.
pub open spec fn sgp4_line(line: Seq<char>) -> Seq<char> {
    if low_checksum_byte(line) {
        line.drop_last().push(':')
    } else {
        line
    }
}

/// A line as handed to `sgp4` (see `sgp4_line`).
fn sgp4_line_of(line: &str) -> (r: String)
    ensures
        r@ == sgp4_line(line@),
        !low_checksum_byte(r@),
{
    if !has_low_checksum_byte(line) {
        let cs = str_chars(line);
        return string_from_chars(cs.as_slice());
    }
    let mut cs = str_chars(line);
    let last = cs.len() - 1;
    cs.set(last, ':');
    assert(cs@ =~= line@.drop_last().push(':'));
    string_from_chars(cs.as_slice())
}

/// The error that building a model from two lines ends in, if any: what
/// `sgp4` reports for them, a checksum byte below `'0'` being handed over as
/// `':'` (see `sgp4_line`).
pub open spec fn propagator_error(line1: Seq<char>, line2: Seq<char>) -> Option<Seq<char>> {
    sgp4_model_error(sgp4_line(line1), sgp4_line(line2))
}

/// The name shown for a satellite: its own, else `NORAD <number>`.
pub open spec fn shown_name(name: Option<Seq<char>>, norad: u32) -> Seq<char> {
    match name {
        Some(n) => n,
        None => "NORAD "@ + decimal(norad as nat),
    }
}

pub open spec fn opt_text(o: Option<String>) -> Option<Seq<char>> {
    match o {
        Some(s) => Some(s@),
        None => None,
    }
}

/// The name shown for a satellite (see `shown_name`).
pub fn display_name(name: Option<String>, norad: u32) -> (r: String)
    ensures
        r@ == shown_name(opt_text(name), norad),
{
    match name {
        Some(n) => n,
        None => {
            let digits = decimal_string(norad as u64);
            concat_str("NORAD ", digits.as_str())
        },
    }
}

/// What the TLE of a satellite has given: the name shown, the epoch of the
/// elements, the propagator built from them, and the last error.
pub struct SatRecord {
    pub name: Option<String>,
    pub epoch_utc: Option<UtcTimestamp>,
    pub propagator: Option<sgp4::Constants>,
    pub error: Option<String>,
}

/// The SGP4 model of two element lines, or the text of the error that
/// stopped it (see `propagator_error`).
pub fn build_propagator(name: Option<String>, line1: &str, line2: &str) -> (r: Result<sgp4::Constants, String>)
    ensures
        match r {
            Ok(_) => propagator_error(line1@, line2@) is None,
            Err(e) => propagator_error(line1@, line2@) == Some(e@),
        },
{
    let l1 = sgp4_line_of(line1);
    let l2 = sgp4_line_of(line2);
    sgp4_model(name, l1.as_str(), l2.as_str())
}

/// Refreshes a known satellite with a fetched TLE: the error is cleared, the
/// name is the fetched one (else `NORAD <number>`), the epoch is the one
/// given, and the propagator is rebuilt; when that fails, the error says
/// why and no propagator is kept.  Returns whether a propagator was built.
pub fn refresh_record(record: &mut SatRecord, norad: u32, name: Option<String>, line1: &str, line2: &str, epoch: UtcTimestamp) -> (r: bool)
    ensures
        opt_text(final(record).name) == Some(shown_name(opt_text(name), norad)),
        final(record).epoch_utc == Some(epoch),
        r == final(record).propagator is Some,
        r <==> propagator_error(line1@, line2@) is None,
        opt_text(final(record).error) == propagator_error(line1@, line2@),
{
    record.error = None;
    let shown = display_name(name, norad);
    record.name = Some(shown.clone());
    record.epoch_utc = Some(epoch);
    match build_propagator(Some(shown), line1, line2) {
        Ok(constants) => {
            record.propagator = Some(constants);
            true
        },
        Err(e) => {
            record.propagator = None;
            record.error = Some(e);
            false
        },
    }
}

/// The record of a satellite first seen in a fetched TLE: the name shown,
/// the epoch given, no error, and a propagator when one can be built.
pub fn new_record(norad: u32, name: Option<String>, line1: &str, line2: &str, epoch: UtcTimestamp) -> (r: SatRecord)
    ensures
        opt_text(r.name) == Some(shown_name(opt_text(name), norad)),
        r.epoch_utc == Some(epoch),
        r.error is None,
        r.propagator is Some <==> propagator_error(line1@, line2@) is None,
{
    let shown = display_name(name, norad);
    let propagator = match build_propagator(Some(shown.clone()), line1, line2) {
        Ok(constants) => Some(constants),
        Err(_) => None,
    };
    SatRecord { name: Some(shown), epoch_utc: Some(epoch), propagator, error: None }
}

/// Records a failed fetch: the error is kept, the elements and the
/// propagator dropped, and the name left as it was.
pub fn fail_record(record: &mut SatRecord, error: String)
    ensures
        opt_text(final(record).error) == Some(error@),
        final(record).epoch_utc is None,
        final(record).propagator is None,
        final(record).name == old(record).name,
{
    record.error = Some(error);
    record.epoch_utc = None;
    record.propagator = None;
}

/// The message shown when fetching a group fails.
pub fn group_failure_message(error: &str) -> (r: String)
    ensures
        r@ == "Group fetch failed: "@ + error@,
{
    concat_str("Group fetch failed: ", error)
}

/// The epoch of a fetched TLE: the one its line 1 gives, else the one the
/// worker stamped.
pub fn choose_epoch(from_line: Option<UtcTimestamp>, fallback: UtcTimestamp) -> (r: UtcTimestamp)
    ensures
        r == match from_line {
            Some(t) => t,
            None => fallback,
        },
{
    match from_line {
        Some(t) => t,
        None => fallback,
    }
}

// ----------------------------------------------------------------------------
// The satellite store
// ----------------------------------------------------------------------------

/// A satellite of the store: what its TLE gave, its colour (hue, saturation,
/// lightness as `f32` bits), the group it was loaded with, whether its ground
/// track and its orbit trail are shown, and whether it is the one clicked.
pub struct SatEntry {
    pub record: SatRecord,
    pub color: (u32, u32, u32),
    pub group_url: Option<String>,
    pub show_ground_track: bool,
    pub show_trail: bool,
    pub is_clicked: bool,
}

/// An answer of the TLE worker.
pub enum FetchResultMsg {
    Success {
        norad: u32,
        name: Option<String>,
        line1: String,
        line2: String,
        epoch_utc: UtcTimestamp,
        group: Option<String>,
    },
    Failure { norad: u32, error: String },
    GroupDone { group: String, count: usize },
    GroupFailure { group: String, error: String },
}

/// What handling an answer did.
#[derive(Clone, Copy, Debug, PartialEq, Eq, Structural)]
pub enum FetchEffect {
    /// A known satellite took the elements; whether a propagator was built.
    Refreshed { norad: u32, built: bool },
    /// A satellite not in the store was added with the elements.
    Added { norad: u32 },
    /// A known satellite recorded the failure.
    Failed { norad: u32 },
    /// A failure for a satellite not in the store; nothing changed.
    UnknownFailure { norad: u32 },
    /// A group finished loading.
    GroupDone,
    /// A group failed to load.
    GroupFailed,
}

/// An entry keeps the colour, group and display flags of another.
pub open spec fn keeps_display(e: SatEntry, before: SatEntry) -> bool {
    &&& e.color == before.color
    &&& e.group_url == before.group_url
    &&& e.show_ground_track == before.show_ground_track
    &&& e.show_trail == before.show_trail
    &&& e.is_clicked == before.is_clicked
}

/// Whether an entry's record holds the name and epoch of a fetched TLE.
pub open spec fn holds_fetched(e: SatEntry, norad: u32, name: Option<Seq<char>>, epoch: UtcTimestamp) -> bool {
    &&& opt_text(e.record.name) == Some(shown_name(name, norad))
    &&& e.record.epoch_utc == Some(epoch)
}

/// Handles one answer of the TLE worker.  A satellite in the store takes
/// fetched elements (keeping its colour and group) or records a failure; one
/// not in the store is added with the elements, the colour given and the
/// answer's group, while a failure for it changes nothing.  The epoch used is
/// the one read from line 1 when there is one, else the worker's.  Group
/// answers leave the store alone.
pub fn process_fetch_result(
    store: &mut HashMap<u32, SatEntry>,
    msg: FetchResultMsg,
    line_epoch: Option<UtcTimestamp>,
    new_color: (u32, u32, u32),
) -> (r: FetchEffect)
    ensures
        match msg {
            FetchResultMsg::Success { norad, name, line1, line2, epoch_utc, group } => {
                let epoch = match line_epoch {
                    Some(t) => t,
                    None => epoch_utc,
                };
                &&& final(store)@.dom() == old(store)@.dom().insert(norad)
                &&& forall|k: u32| k != norad && #[trigger] old(store)@.contains_key(k) ==> final(store)@[k] == old(store)@[k]
                &&& holds_fetched(final(store)@[norad], norad, opt_text(name), epoch)
                &&& if old(store)@.contains_key(norad) {
                    &&& r == (FetchEffect::Refreshed { norad, built: final(store)@[norad].record.propagator is Some })
                    &&& (final(store)@[norad].record.propagator is Some <==> final(store)@[norad].record.error is None)
                    &&& (final(store)@[norad].record.propagator is Some <==> propagator_error(line1@, line2@) is None)
                    &&& opt_text(final(store)@[norad].record.error) == propagator_error(line1@, line2@)
                    &&& keeps_display(final(store)@[norad], old(store)@[norad])
                } else {
                    &&& r == FetchEffect::Added { norad }
                    &&& final(store)@[norad].record.error is None
                    &&& (final(store)@[norad].record.propagator is Some <==> propagator_error(line1@, line2@) is None)
                    &&& final(store)@[norad].color == new_color
                    &&& final(store)@[norad].group_url == group
                    &&& !final(store)@[norad].show_ground_track
                    &&& !final(store)@[norad].show_trail
                    &&& !final(store)@[norad].is_clicked
                }
            },
            FetchResultMsg::Failure { norad, error } => if old(store)@.contains_key(norad) {
                &&& r == FetchEffect::Failed { norad }
                &&& final(store)@.dom() == old(store)@.dom()
                &&& forall|k: u32| k != norad && #[trigger] old(store)@.contains_key(k) ==> final(store)@[k] == old(store)@[k]
                &&& opt_text(final(store)@[norad].record.error) == Some(error@)
                &&& final(store)@[norad].record.epoch_utc is None
                &&& final(store)@[norad].record.propagator is None
                &&& final(store)@[norad].record.name == old(store)@[norad].record.name
                &&& keeps_display(final(store)@[norad], old(store)@[norad])
            } else {
                r == FetchEffect::UnknownFailure { norad } && final(store)@ == old(store)@
            },
            FetchResultMsg::GroupDone { .. } => r == FetchEffect::GroupDone && final(store)@ == old(store)@,
            FetchResultMsg::GroupFailure { .. } => r == FetchEffect::GroupFailed && final(store)@ == old(store)@,
        },
{
    match msg {
        FetchResultMsg::Success { norad, name, line1, line2, epoch_utc, group } => {
            let epoch = choose_epoch(line_epoch, epoch_utc);
            match store.remove(&norad) {
                Some(mut entry) => {
                    let built = refresh_record(&mut entry.record, norad, name, line1.as_str(), line2.as_str(), epoch);
                    let ghost e = entry;
                    store.insert(norad, entry);
                    assert(store@.dom() =~= old(store)@.dom().insert(norad));
                    assert(store@[norad] == e);
                    FetchEffect::Refreshed { norad, built }
                },
                None => {
                    let record = new_record(norad, name, line1.as_str(), line2.as_str(), epoch);
                    let entry = SatEntry {
                        record,
                        color: new_color,
                        group_url: group,
                        show_ground_track: false,
                        show_trail: false,
                        is_clicked: false,
                    };
                    let ghost e = entry;
                    store.insert(norad, entry);
                    assert(store@.dom() =~= old(store)@.dom().insert(norad));
                    assert(store@[norad] == e);
                    FetchEffect::Added { norad }
                },
            }
        },
        FetchResultMsg::Failure { norad, error } => match store.remove(&norad) {
            Some(mut entry) => {
                fail_record(&mut entry.record, error);
                store.insert(norad, entry);
                assert(store@.dom() =~= old(store)@.dom());
                FetchEffect::Failed { norad }
            },
            None => FetchEffect::UnknownFailure { norad },
        },
        FetchResultMsg::GroupDone { .. } => FetchEffect::GroupDone,
        FetchResultMsg::GroupFailure { .. } => FetchEffect::GroupFailed,
    }
}

/// The colour of a satellite first seen in a fetched TLE: its group's
/// colour when the group registry has one, else the current colour of the
/// colour wheel, which then moves on (the flag says whether it does).
pub fn new_entry_color(group_color: Option<(u32, u32, u32)>, wheel: (u32, u32, u32)) -> (r: ((u32, u32, u32), bool))
    ensures
        r == match group_color {
            Some(c) => (c, false),
            None => (wheel, true),
        },
{
    match group_color {
        Some(c) => (c, false),
        None => (wheel, true),
    }
}

/// Why a satellite typed in by number is not added.
#[derive(Clone, Copy, Debug, PartialEq, Eq, Structural)]
pub enum AddError {
    /// The text is not a catalog number.
    InvalidId,
    /// The satellite is already in the store.
    AlreadyAdded,
}

impl AddError {
    /// The text shown for the error.
    pub fn message(&self) -> (r: String)
        ensures
            r@ == match self {
                AddError::InvalidId => "Invalid NORAD ID"@,
                AddError::AlreadyAdded => "Satellite already added"@,
            },
    {
        match self {
            AddError::InvalidId => String::from_str("Invalid NORAD ID"),
            AddError::AlreadyAdded => String::from_str("Satellite already added"),
        }
    }
}

/// The catalog number typed in: the trimmed text read as a `u32`.
pub fn parse_norad_input(input: &str) -> (r: Option<u32>)
    ensures
        r == parse_u32_spec(trim_ws(input@)),
{
    let t = str_trim(input);
    let cs = str_chars(t);
    assert(cs@.subrange(0, cs@.len() as int) =~= cs@);
    parse_u32_range(&cs, 0, cs.len())
}

/// The seed a new satellite's colour is drawn from: one step of a linear
/// congruential generator, modulo 2^32.
pub open spec fn color_seed_spec(norad: u32) -> u32 {
    ((norad as int * 1664525 + 1013904223) % 0x1_0000_0000) as u32
}

/// The seed a new satellite's colour is drawn from (see `color_seed_spec`).
pub fn color_seed(norad: u32) -> (r: u32)
    ensures
        r == color_seed_spec(norad),
{
    let m = norad.wrapping_mul(1664525);
    let r = m.wrapping_add(1013904223);
    assert(r == color_seed_spec(norad)) by (nonlinear_arith)
        requires
            m == (norad as int * 1664525) % 0x1_0000_0000,
            r == (m + 1013904223) % 0x1_0000_0000,
    ;
    r
}

/// Decides on a satellite typed in by number: the number must read as a
/// `u32` and not be in the store yet.  Gives the number and its colour seed.
pub fn plan_add<V>(input: &str, items: &HashMap<u32, V>) -> (r: Result<(u32, u32), AddError>)
    ensures
        match parse_u32_spec(trim_ws(input@)) {
            None => r == Err::<(u32, u32), AddError>(AddError::InvalidId),
            Some(n) => if items@.contains_key(n) {
                r == Err::<(u32, u32), AddError>(AddError::AlreadyAdded)
            } else {
                r == Ok::<(u32, u32), AddError>((n, color_seed_spec(n)))
            },
        },
{
    let norad = match parse_norad_input(input) {
        Some(n) => n,
        None => return Err(AddError::InvalidId),
    };
    if items.contains_key(&norad) {
        return Err(AddError::AlreadyAdded);
    }
    Ok((norad, color_seed(norad)))
}

/// The message shown when the fetch of a new satellite cannot be queued.
pub fn fetch_queue_message(norad: u32, error: &str) -> (r: String)
    ensures
        r@ == "Failed to fetch NORAD "@ + decimal(norad as nat) + ": "@ + error@,
{
    let digits = decimal_string(norad as u64);
    let a = concat_str("Failed to fetch NORAD ", digits.as_str());
    let b = concat_str(a.as_str(), ": ");
    concat_str(b.as_str(), error)
}

// ----------------------------------------------------------------------------
// Display flags of the whole store
// ----------------------------------------------------------------------------

/// The catalog numbers in the store, each once, in the map's order.
pub fn store_norads(store: &HashMap<u32, SatEntry>) -> (r: Vec<u32>)
    ensures
        r@.to_set() == store@.dom(),
        r@.no_duplicates(),
{
    let mut out: Vec<u32> = Vec::new();
    let ghost ks = spec_keys_iter(store).remaining();
    for k in it: store.keys()
        invariant
            ks == spec_keys_iter(store).remaining(),
            it.seq() == ks,
            out.len() == it.index(),
            forall|m: int| 0 <= m < it.index() ==> out@[m] == *ks[m],
    {
        out.push(*k);
    }
    assert(out@ =~= ks.unref());
    out
}

/// What a master toggle of the satellite list governs.
#[derive(Clone, Copy, Debug, PartialEq, Eq, Structural)]
pub enum TrackKind {
    /// The ground track under each satellite.
    GroundTrack,
    /// The orbit trail behind each satellite.
    Trail,
}

/// Whether an entry shows what the toggle governs.
pub open spec fn shows(e: SatEntry, kind: TrackKind) -> bool {
    match kind {
        TrackKind::GroundTrack => e.show_ground_track,
        TrackKind::Trail => e.show_trail,
    }
}

/// An entry with what the toggle governs set to `on`.
pub open spec fn with_shown(e: SatEntry, kind: TrackKind, on: bool) -> SatEntry {
    match kind {
        TrackKind::GroundTrack => SatEntry { show_ground_track: on, ..e },
        TrackKind::Trail => SatEntry { show_trail: on, ..e },
    }
}

/// Whether a satellite has a propagator, so that tracks and trails apply.
pub open spec fn is_ready(e: SatEntry) -> bool {
    e.record.propagator is Some
}

/// A master toggle shows as on when some satellite has a propagator and every
/// satellite that has one shows what the toggle governs.
pub open spec fn all_shown_spec(m: Map<u32, SatEntry>, kind: TrackKind) -> bool {
    &&& exists|k: u32| m.contains_key(k) && is_ready(#[trigger] m[k])
    &&& forall|k: u32| m.contains_key(k) && is_ready(#[trigger] m[k]) ==> shows(m[k], kind)
}

/// Whether the master toggle of `kind` shows as on (see `all_shown_spec`).
pub fn all_shown(store: &HashMap<u32, SatEntry>, kind: TrackKind) -> (r: bool)
    ensures
        r == all_shown_spec(store@, kind),
{
    let keys = store_norads(store);
    let mut any_ready = false;
    let mut all = true;
    let mut i: usize = 0;
    while i < keys.len()
        invariant
            i <= keys.len(),
            keys@.to_set() == store@.dom(),
            any_ready <==> exists|j: int| 0 <= j < i && is_ready(#[trigger] store@[keys@[j]]),
            all <==> forall|j: int| 0 <= j < i && is_ready(#[trigger] store@[keys@[j]]) ==> shows(store@[keys@[j]], kind),
        decreases keys.len() - i,
    {
        let k = keys[i];
        assert(keys@.to_set().contains(k));
        if let Some(e) = store.get(&k) {
            if e.record.propagator.is_some() {
                any_ready = true;
                let on = match kind {
                    TrackKind::GroundTrack => e.show_ground_track,
                    TrackKind::Trail => e.show_trail,
                };
                if !on {
                    all = false;
                }
            }
        }
        i += 1;
    }
    proof {
        if any_ready {
            let j = choose|j: int| 0 <= j < keys.len() && is_ready(#[trigger] store@[keys@[j]]);
            assert(keys@.to_set().contains(keys@[j]));
            assert(store@.contains_key(keys@[j]) && is_ready(store@[keys@[j]]));
        }
        if exists|k: u32| store@.contains_key(k) && is_ready(#[trigger] store@[k]) {
            let k = choose|k: u32| store@.contains_key(k) && is_ready(#[trigger] store@[k]);
            assert(keys@.to_set().contains(k));
            let j = choose|j: int| 0 <= j < keys@.len() && keys@[j] == k;
            assert(is_ready(store@[keys@[j]]));
        }
        assert forall|k: u32| all && store@.contains_key(k) && is_ready(#[trigger] store@[k]) implies shows(
            store@[k],
            kind,
        ) by {
            assert(keys@.to_set().contains(k));
            let j = choose|j: int| 0 <= j < keys@.len() && keys@[j] == k;
            assert(is_ready(store@[keys@[j]]));
        }
        if !all {
            let j = choose|j: int|
                0 <= j < keys.len() && is_ready(#[trigger] store@[keys@[j]]) && !shows(store@[keys@[j]], kind);
            assert(keys@.to_set().contains(keys@[j]));
        }
    }
    any_ready && all
}

/// Turns a master toggle to `on`: every satellite that has a propagator
/// shows (or stops showing) what the toggle governs; the others, and every
/// other field, stay as they were.
pub fn set_all_shown(store: &mut HashMap<u32, SatEntry>, kind: TrackKind, on: bool)
    ensures
        final(store)@.dom() == old(store)@.dom(),
        forall|k: u32| #[trigger] old(store)@.contains_key(k) ==> final(store)@[k] == if is_ready(old(store)@[k]) {
            with_shown(old(store)@[k], kind, on)
        } else {
            old(store)@[k]
        },
{
    let keys = store_norads(store);
    let ghost m0 = store@;
    let mut i: usize = 0;
    while i < keys.len()
        invariant
            i <= keys.len(),
            keys@.to_set() == m0.dom(),
            keys@.no_duplicates(),
            store@.dom() == m0.dom(),
            forall|k: u32| #[trigger] m0.contains_key(k) ==> store@[k] == if (exists|j: int| 0 <= j < i && keys@[j] == k)
                && is_ready(m0[k]) {
                with_shown(m0[k], kind, on)
            } else {
                m0[k]
            },
        decreases keys.len() - i,
    {
        let k = keys[i];
        assert(keys@.to_set().contains(k));
        assert(forall|j: int| 0 <= j < i ==> keys@[j] != k);
        let ghost before = store@;
        match store.remove(&k) {
            Some(mut e) => {
                if e.record.propagator.is_some() {
                    match kind {
                        TrackKind::GroundTrack => e.show_ground_track = on,
                        TrackKind::Trail => e.show_trail = on,
                    }
                }
                store.insert(k, e);
                assert(store@.dom() =~= m0.dom());
                assert forall|x: u32| #[trigger] m0.contains_key(x) implies store@[x] == if (exists|j: int|
                    0 <= j < i + 1 && keys@[j] == x) && is_ready(m0[x]) {
                    with_shown(m0[x], kind, on)
                } else {
                    m0[x]
                } by {
                    if x == k {
                        assert(keys@[i as int] == k);
                    } else {
                        assert((exists|j: int| 0 <= j < i + 1 && keys@[j] == x) == (exists|j: int|
                            0 <= j < i && keys@[j] == x));
                    }
                }
            },
            None => {
                assert(false);
            },
        }
        i += 1;
    }
    assert forall|k: u32| #[trigger] m0.contains_key(k) implies (exists|j: int| 0 <= j < keys@.len() && keys@[j] == k) by {
        assert(keys@.to_set().contains(k));
    }
}

/// An entry marked as clicked or not.
pub open spec fn with_clicked(e: SatEntry, on: bool) -> SatEntry {
    SatEntry { is_clicked: on, ..e }
}

/// Clicking a satellite: it becomes the one clicked and no other is; nothing
/// else changes.  Clicking one not in the store only clears the others.
pub fn click_satellite(store: &mut HashMap<u32, SatEntry>, norad: u32)
    ensures
        final(store)@.dom() == old(store)@.dom(),
        forall|k: u32| #[trigger] old(store)@.contains_key(k) ==> final(store)@[k] == with_clicked(old(store)@[k], k == norad),
{
    let keys = store_norads(store);
    let ghost m0 = store@;
    let mut i: usize = 0;
    while i < keys.len()
        invariant
            i <= keys.len(),
            keys@.to_set() == m0.dom(),
            keys@.no_duplicates(),
            store@.dom() == m0.dom(),
            forall|k: u32| #[trigger] m0.contains_key(k) ==> store@[k] == (if exists|j: int| 0 <= j < i && keys@[j] == k {
                with_clicked(m0[k], k == norad)
            } else {
                m0[k]
            }),
        decreases keys.len() - i,
    {
        let k = keys[i];
        assert(keys@.to_set().contains(k));
        assert(forall|j: int| 0 <= j < i ==> keys@[j] != k);
        match store.remove(&k) {
            Some(mut e) => {
                e.is_clicked = k == norad;
                store.insert(k, e);
                assert(store@.dom() =~= m0.dom());
                assert forall|x: u32| #[trigger] m0.contains_key(x) implies store@[x] == if exists|j: int|
                    0 <= j < i + 1 && keys@[j] == x {
                    with_clicked(m0[x], x == norad)
                } else {
                    m0[x]
                } by {
                    if x == k {
                        assert(keys@[i as int] == k);
                    } else {
                        assert((exists|j: int| 0 <= j < i + 1 && keys@[j] == x) == (exists|j: int|
                            0 <= j < i && keys@[j] == x));
                    }
                }
            },
            None => {
                assert(false);
            },
        }
        i += 1;
    }
    assert forall|k: u32| #[trigger] m0.contains_key(k) implies (exists|j: int| 0 <= j < keys@.len() && keys@[j] == k) by {
        assert(keys@.to_set().contains(k));
    }
}

} // verus!
