//! Launch pads to mark on the globe: the launches grouped by pad, with how
//! many launches each pad has and the earliest of their times.
use vstd::prelude::*;
use crate::json::text_eq;
use crate::launch_library::parse::LaunchSummary;
use crate::text::{concat_str, decimal, decimal_string, is_ascii_digit, lemma_decimal_roundtrip};
use crate::time::{is_before, UtcTimestamp};

verus! {

/// A pad to mark: its key, its catalog id, name and coordinates (`f64`
/// bits) as the first of its launches gives them, how many launches it has,
/// and the earliest launch time among them.
pub struct LaunchPadMarker {
    pub pad_key: String,
    pub pad_id: Option<i64>,
    pub pad_name: String,
    pub pad_lat: u64,
    pub pad_lon: u64,
    pub launch_count: usize,
    pub next_net: Option<UtcTimestamp>,
}

/// A marker as plain values.
pub struct PadMarkerView {
    pub key: Seq<char>,
    pub pad_id: Option<i64>,
    pub name: Seq<char>,
    pub lat: u64,
    pub lon: u64,
    pub count: nat,
    pub next_net: Option<UtcTimestamp>,
}

impl View for LaunchPadMarker {
    type V = PadMarkerView;

    open spec fn view(&self) -> PadMarkerView {
        PadMarkerView {
            key: self.pad_key@,
            pad_id: self.pad_id,
            name: self.pad_name@,
            lat: self.pad_lat,
            lon: self.pad_lon,
            count: self.launch_count as nat,
            next_net: self.next_net,
        }
    }
}

pub open spec fn markers_view(ms: Seq<LaunchPadMarker>) -> Seq<PadMarkerView> {
    ms.map_values(|m: LaunchPadMarker| m@)
}

/// `Display` of a signed integer.
pub open spec fn signed_decimal(v: int) -> Seq<char> {
    if v < 0 {
        "-"@ + decimal((-v) as nat)
    } else {
        decimal(v as nat)
    }
}

/// The name a pad is shown with: its own, else "Launch Pad".
pub open spec fn pad_name_of(l: LaunchSummary) -> Seq<char> {
    match l.pad_name {
        Some(n) => n@,
        None => "Launch Pad"@,
    }
}

/// The key a launch's pad is grouped by: `id:<pad id>` when the pad has an
/// id, else `name:<name>:<coordinates>`, `coords` being the pad's latitude
/// and longitude written to three decimals as `lat:lon`.
pub open spec fn pad_key(l: LaunchSummary, coords: Seq<char>) -> Seq<char> {
    match l.pad_id {
        Some(id) => "id:"@ + signed_decimal(id as int),
        None => "name:"@ + pad_name_of(l) + ":"@ + coords,
    }
}

/// The position of the marker with a key, if there is one.
pub open spec fn key_index(ms: Seq<PadMarkerView>, key: Seq<char>) -> Option<int> {
    if exists|i: int| 0 <= i < ms.len() && #[trigger] ms[i].key == key {
        Some(choose|i: int| 0 <= i < ms.len() && #[trigger] ms[i].key == key)
    } else {
        None
    }
}

/// No two markers share a key.
pub open spec fn keys_distinct(ms: Seq<PadMarkerView>) -> bool {
    forall|i: int, j: int| 0 <= i < ms.len() && 0 <= j < ms.len() && i != j ==> #[trigger] ms[i].key != #[trigger] ms[j].key
}

/// The earlier of a pad's launch time so far and a launch's time; a missing
/// time never replaces one.
pub open spec fn earlier(next: Option<UtcTimestamp>, net: Option<UtcTimestamp>) -> Option<UtcTimestamp> {
    match net {
        Some(n) => if next is None || n.before(next->0) {
            Some(n)
        } else {
            next
        },
        None => next,
    }
}

/// The marker a pad's first launch makes.
pub open spec fn first_marker(key: Seq<char>, l: LaunchSummary) -> PadMarkerView {
    PadMarkerView {
        key,
        pad_id: l.pad_id,
        name: pad_name_of(l),
        lat: l.pad_lat->0,
        lon: l.pad_lon->0,
        count: 1,
        next_net: l.net_utc,
    }
}

/// A marker after one more launch of its pad.
pub open spec fn with_launch(m: PadMarkerView, net: Option<UtcTimestamp>) -> PadMarkerView {
    PadMarkerView { count: m.count + 1, next_net: earlier(m.next_net, net), ..m }
}

/// The markers of the first `n` launches, in the order their pads first
/// appear: launches without both coordinates are left out, and each other
/// launch adds to its pad's marker or starts one.
pub open spec fn markers_upto(ls: Seq<LaunchSummary>, coords: Seq<Seq<char>>, n: nat) -> Seq<PadMarkerView>
    decreases n,
{
    if n == 0 {
        Seq::empty()
    } else {
        let prev = markers_upto(ls, coords, (n - 1) as nat);
        let l = ls[n - 1];
        if l.pad_lat is None || l.pad_lon is None {
            prev
        } else {
            let key = pad_key(l, coords[n - 1]);
            match key_index(prev, key) {
                Some(i) => prev.update(i, with_launch(prev[i], l.net_utc)),
                None => prev.push(first_marker(key, l)),
            }
        }
    }
}

/// Whether launch `j` has both pad coordinates and its pad's key is `key`.
pub open spec fn grouped_into(ls: Seq<LaunchSummary>, coords: Seq<Seq<char>>, j: int, key: Seq<char>) -> bool {
    &&& ls[j].pad_lat is Some
    &&& ls[j].pad_lon is Some
    &&& pad_key(ls[j], coords[j]) == key
}

/// No two pad markers share a key: a pad has one marker.
pub proof fn lemma_markers_keys_distinct(ls: Seq<LaunchSummary>, coords: Seq<Seq<char>>, n: nat)
    requires
        n <= ls.len(),
        n <= coords.len(),
    ensures
        keys_distinct(markers_upto(ls, coords, n)),
    decreases n,
{
    if n > 0 {
        lemma_markers_keys_distinct(ls, coords, (n - 1) as nat);
        let prev = markers_upto(ls, coords, (n - 1) as nat);
        let l = ls[n - 1];
        if !(l.pad_lat is None || l.pad_lon is None) {
            let key = pad_key(l, coords[n - 1]);
            match key_index(prev, key) {
                Some(i) => {
                    let cur = prev.update(i, with_launch(prev[i], l.net_utc));
                    assert forall|a: int, b: int| 0 <= a < cur.len() && 0 <= b < cur.len() && a != b implies #[trigger] cur[a].key
                        != #[trigger] cur[b].key by {
                        assert(prev[a].key != prev[b].key);
                    }
                },
                None => {
                    let cur = prev.push(first_marker(key, l));
                    assert forall|a: int, b: int| 0 <= a < cur.len() && 0 <= b < cur.len() && a != b implies #[trigger] cur[a].key
                        != #[trigger] cur[b].key by {
                        if a < prev.len() && b < prev.len() {
                            assert(prev[a].key != prev[b].key);
                        } else if a < prev.len() {
                            assert(!(prev[a].key == key));
                        } else if b < prev.len() {
                            assert(!(prev[b].key == key));
                        }
                    }
                },
            }
        }
    }
}

/// Every launch with both coordinates among the first `n` has a marker with
/// its pad's key.
pub proof fn lemma_markers_cover_launches(ls: Seq<LaunchSummary>, coords: Seq<Seq<char>>, n: nat, j: int)
    requires
        n <= ls.len(),
        n <= coords.len(),
        0 <= j < n,
        ls[j].pad_lat is Some,
        ls[j].pad_lon is Some,
    ensures
        exists|k: int|
            0 <= k < markers_upto(ls, coords, n).len() && #[trigger] markers_upto(ls, coords, n)[k].key == pad_key(
                ls[j],
                coords[j],
            ),
    decreases n,
{
    let prev = markers_upto(ls, coords, (n - 1) as nat);
    let l = ls[n - 1];
    let cur = markers_upto(ls, coords, n);
    let kj = pad_key(ls[j], coords[j]);
    if j < n - 1 {
        lemma_markers_cover_launches(ls, coords, (n - 1) as nat, j);
        let k = choose|k: int| 0 <= k < prev.len() && #[trigger] prev[k].key == kj;
        if !(l.pad_lat is None || l.pad_lon is None) {
            let key = pad_key(l, coords[n - 1]);
            match key_index(prev, key) {
                Some(i) => {
                    assert(cur[k].key == kj);
                },
                None => {
                    assert(cur[k].key == kj);
                },
            }
        } else {
            assert(cur[k].key == kj);
        }
    } else {
        let key = pad_key(l, coords[n - 1]);
        match key_index(prev, key) {
            Some(i) => {
                assert(cur[i].key == kj);
            },
            None => {
                assert(cur[prev.len() as int].key == kj);
            },
        }
    }
}

/// Each pad marker's launch time is the earliest among the launches grouped
/// into it: no launch of that pad has a time before it, and it is the time
/// of one of them (none only when none of them has a time).
pub proof fn marker_time_is_earliest_of_its_launches(ls: Seq<LaunchSummary>, coords: Seq<Seq<char>>, n: nat)
    requires
        n <= ls.len(),
        n <= coords.len(),
    ensures
        forall|k: int, j: int|
            0 <= k < markers_upto(ls, coords, n).len() && 0 <= j < n && #[trigger] grouped_into(
                ls,
                coords,
                j,
                #[trigger] markers_upto(ls, coords, n)[k].key,
            ) && ls[j].net_utc is Some ==> ({
                let m = markers_upto(ls, coords, n)[k];
                &&& m.next_net is Some
                &&& !ls[j].net_utc->0.before(m.next_net->0)
            }),
        forall|k: int|
            0 <= k < markers_upto(ls, coords, n).len() && (#[trigger] markers_upto(ls, coords, n)[k]).next_net is Some
                ==> exists|j: int|
                0 <= j < n && #[trigger] grouped_into(ls, coords, j, markers_upto(ls, coords, n)[k].key)
                    && ls[j].net_utc == markers_upto(ls, coords, n)[k].next_net,
    decreases n,
{
    if n > 0 {
        marker_time_is_earliest_of_its_launches(ls, coords, (n - 1) as nat);
        lemma_markers_keys_distinct(ls, coords, (n - 1) as nat);
        let prev = markers_upto(ls, coords, (n - 1) as nat);
        let cur = markers_upto(ls, coords, n);
        let l = ls[n - 1];
        let last = (n - 1) as int;
        if l.pad_lat is None || l.pad_lon is None {
            assert(cur == prev);
            assert forall|k: int, j: int|
                0 <= k < cur.len() && 0 <= j < n && #[trigger] grouped_into(ls, coords, j, #[trigger] cur[k].key)
                    && ls[j].net_utc is Some implies cur[k].next_net is Some && !ls[j].net_utc->0.before(
                cur[k].next_net->0,
            ) by {
                assert(j != last);
            }
            assert forall|k: int| 0 <= k < cur.len() && (#[trigger] cur[k]).next_net is Some implies exists|j: int|
                0 <= j < n && #[trigger] grouped_into(ls, coords, j, cur[k].key) && ls[j].net_utc == cur[k].next_net by {
                let j = choose|j: int|
                    0 <= j < n - 1 && #[trigger] grouped_into(ls, coords, j, prev[k].key) && ls[j].net_utc
                        == prev[k].next_net;
            }
        } else {
            let key = pad_key(l, coords[n - 1]);
            assert(grouped_into(ls, coords, last, key));
            match key_index(prev, key) {
                Some(i) => {
                    assert(prev[i].key == key);
                    assert forall|k: int, j: int|
                        0 <= k < cur.len() && 0 <= j < n && #[trigger] grouped_into(ls, coords, j, #[trigger] cur[k].key)
                            && ls[j].net_utc is Some implies cur[k].next_net is Some && !ls[j].net_utc->0.before(
                        cur[k].next_net->0,
                    ) by {
                        if k != i {
                            assert(cur[k] == prev[k]);
                            if j == last {
                                assert(prev[k].key != prev[i].key);
                            }
                        } else if j != last {
                            assert(grouped_into(ls, coords, j, prev[i].key));
                        }
                    }
                    assert forall|k: int| 0 <= k < cur.len() && (#[trigger] cur[k]).next_net is Some implies exists|j: int|
                        0 <= j < n && #[trigger] grouped_into(ls, coords, j, cur[k].key) && ls[j].net_utc
                            == cur[k].next_net by {
                        if k != i {
                            assert(cur[k] == prev[k]);
                            let j = choose|j: int|
                                0 <= j < n - 1 && #[trigger] grouped_into(ls, coords, j, prev[k].key) && ls[j].net_utc
                                    == prev[k].next_net;
                        } else if cur[k].next_net == l.net_utc {
                            assert(grouped_into(ls, coords, last, cur[k].key));
                        } else {
                            assert(cur[k].next_net == prev[i].next_net);
                            let j = choose|j: int|
                                0 <= j < n - 1 && #[trigger] grouped_into(ls, coords, j, prev[i].key) && ls[j].net_utc
                                    == prev[i].next_net;
                        }
                    }
                },
                None => {
                    assert forall|k: int, j: int|
                        0 <= k < cur.len() && 0 <= j < n && #[trigger] grouped_into(ls, coords, j, #[trigger] cur[k].key)
                            && ls[j].net_utc is Some implies cur[k].next_net is Some && !ls[j].net_utc->0.before(
                        cur[k].next_net->0,
                    ) by {
                        if k < prev.len() {
                            assert(cur[k] == prev[k]);
                            if j == last {
                                assert(!(prev[k].key == key));
                            }
                        } else if j != last {
                            lemma_markers_cover_launches(ls, coords, (n - 1) as nat, j);
                            let q = choose|q: int| 0 <= q < prev.len() && #[trigger] prev[q].key == pad_key(ls[j], coords[j]);
                            assert(!(prev[q].key == key));
                        }
                    }
                    assert forall|k: int| 0 <= k < cur.len() && (#[trigger] cur[k]).next_net is Some implies exists|j: int|
                        0 <= j < n && #[trigger] grouped_into(ls, coords, j, cur[k].key) && ls[j].net_utc
                            == cur[k].next_net by {
                        if k < prev.len() {
                            assert(cur[k] == prev[k]);
                            let j = choose|j: int|
                                0 <= j < n - 1 && #[trigger] grouped_into(ls, coords, j, prev[k].key) && ls[j].net_utc
                                    == prev[k].next_net;
                        } else {
                            assert(grouped_into(ls, coords, last, cur[k].key));
                        }
                    }
                },
            }
        }
    }
}

/// How many of the first `n` launches are grouped under `key`.
pub open spec fn launches_under(ls: Seq<LaunchSummary>, coords: Seq<Seq<char>>, n: nat, key: Seq<char>) -> nat
    decreases n,
{
    if n == 0 {
        0
    } else {
        launches_under(ls, coords, (n - 1) as nat, key) + if grouped_into(ls, coords, n - 1, key) {
            1nat
        } else {
            0nat
        }
    }
}

/// A key that some launch is grouped under has such a launch.
proof fn lemma_launches_under_positive(ls: Seq<LaunchSummary>, coords: Seq<Seq<char>>, n: nat, key: Seq<char>)
    requires
        launches_under(ls, coords, n, key) > 0,
    ensures
        exists|j: int| 0 <= j < n && #[trigger] grouped_into(ls, coords, j, key),
    decreases n,
{
    if !grouped_into(ls, coords, n - 1, key) {
        lemma_launches_under_positive(ls, coords, (n - 1) as nat, key);
    }
}

/// Each pad marker counts exactly the launches grouped into it.
pub proof fn marker_counts_its_launches(ls: Seq<LaunchSummary>, coords: Seq<Seq<char>>, n: nat)
    requires
        n <= ls.len(),
        n <= coords.len(),
    ensures
        forall|k: int|
            0 <= k < markers_upto(ls, coords, n).len() ==> (#[trigger] markers_upto(ls, coords, n)[k]).count
                == launches_under(ls, coords, n, markers_upto(ls, coords, n)[k].key),
    decreases n,
{
    if n > 0 {
        marker_counts_its_launches(ls, coords, (n - 1) as nat);
        lemma_markers_keys_distinct(ls, coords, (n - 1) as nat);
        let prev = markers_upto(ls, coords, (n - 1) as nat);
        let cur = markers_upto(ls, coords, n);
        let l = ls[n - 1];
        let last = (n - 1) as int;
        if l.pad_lat is None || l.pad_lon is None {
            assert forall|k: int| 0 <= k < cur.len() implies (#[trigger] cur[k]).count == launches_under(
                ls,
                coords,
                n,
                cur[k].key,
            ) by {
                assert(!grouped_into(ls, coords, last, cur[k].key));
            }
        } else {
            let key = pad_key(l, coords[n - 1]);
            match key_index(prev, key) {
                Some(i) => {
                    assert forall|k: int| 0 <= k < cur.len() implies (#[trigger] cur[k]).count == launches_under(
                        ls,
                        coords,
                        n,
                        cur[k].key,
                    ) by {
                        if k != i {
                            assert(prev[k].key != prev[i].key);
                            assert(!grouped_into(ls, coords, last, cur[k].key));
                        } else {
                            assert(grouped_into(ls, coords, last, cur[k].key));
                        }
                    }
                },
                None => {
                    assert forall|k: int| 0 <= k < cur.len() implies (#[trigger] cur[k]).count == launches_under(
                        ls,
                        coords,
                        n,
                        cur[k].key,
                    ) by {
                        if k < prev.len() {
                            assert(!(prev[k].key == key));
                            assert(!grouped_into(ls, coords, last, cur[k].key));
                        } else {
                            assert(grouped_into(ls, coords, last, cur[k].key));
                            if launches_under(ls, coords, (n - 1) as nat, key) > 0 {
                                lemma_launches_under_positive(ls, coords, (n - 1) as nat, key);
                                let j = choose|j: int| 0 <= j < n - 1 && #[trigger] grouped_into(ls, coords, j, key);
                                lemma_markers_cover_launches(ls, coords, (n - 1) as nat, j);
                                let q = choose|q: int|
                                    0 <= q < prev.len() && #[trigger] prev[q].key == pad_key(ls[j], coords[j]);
                                assert(!(prev[q].key == key));
                            }
                        }
                    }
                },
            }
        }
    }
}

/// Each pad marker takes its pad's id, name and coordinates from the first
/// launch grouped into it.
pub proof fn marker_describes_its_first_launch(ls: Seq<LaunchSummary>, coords: Seq<Seq<char>>, n: nat)
    requires
        n <= ls.len(),
        n <= coords.len(),
    ensures
        forall|k: int|
            #![trigger markers_upto(ls, coords, n)[k]]
            0 <= k < markers_upto(ls, coords, n).len() ==> exists|j: int|
                #![trigger grouped_into(ls, coords, j, markers_upto(ls, coords, n)[k].key)]
                0 <= j < n && grouped_into(ls, coords, j, markers_upto(ls, coords, n)[k].key) && (forall|q: int|
                    0 <= q < j ==> !#[trigger] grouped_into(ls, coords, q, markers_upto(ls, coords, n)[k].key)) && {
                    let m = markers_upto(ls, coords, n)[k];
                    &&& m.pad_id == ls[j].pad_id
                    &&& m.name == pad_name_of(ls[j])
                    &&& Some(m.lat) == ls[j].pad_lat
                    &&& Some(m.lon) == ls[j].pad_lon
                },
    decreases n,
{
    if n > 0 {
        marker_describes_its_first_launch(ls, coords, (n - 1) as nat);
        lemma_markers_keys_distinct(ls, coords, (n - 1) as nat);
        let prev = markers_upto(ls, coords, (n - 1) as nat);
        let cur = markers_upto(ls, coords, n);
        let l = ls[n - 1];
        let last = (n - 1) as int;
        assert forall|k: int| #![trigger cur[k]] 0 <= k < cur.len() implies exists|j: int|
            #![trigger grouped_into(ls, coords, j, cur[k].key)]
            0 <= j < n && grouped_into(ls, coords, j, cur[k].key) && (forall|q: int|
                0 <= q < j ==> !#[trigger] grouped_into(ls, coords, q, cur[k].key)) && {
                let m = cur[k];
                &&& m.pad_id == ls[j].pad_id
                &&& m.name == pad_name_of(ls[j])
                &&& Some(m.lat) == ls[j].pad_lat
                &&& Some(m.lon) == ls[j].pad_lon
            } by {
            if k < prev.len() {
                let j = choose|j: int|
                    #![trigger grouped_into(ls, coords, j, prev[k].key)]
                    0 <= j < n - 1 && grouped_into(ls, coords, j, prev[k].key) && (forall|q: int|
                        0 <= q < j ==> !#[trigger] grouped_into(ls, coords, q, prev[k].key)) && {
                        let m = prev[k];
                        &&& m.pad_id == ls[j].pad_id
                        &&& m.name == pad_name_of(ls[j])
                        &&& Some(m.lat) == ls[j].pad_lat
                        &&& Some(m.lon) == ls[j].pad_lon
                    };
                assert(cur[k].key == prev[k].key);
                assert(cur[k].pad_id == prev[k].pad_id && cur[k].name == prev[k].name && cur[k].lat == prev[k].lat
                    && cur[k].lon == prev[k].lon);
                assert(grouped_into(ls, coords, j, cur[k].key));
            } else {
                let key = pad_key(l, coords[n - 1]);
                assert(cur[k].key == key);
                assert(grouped_into(ls, coords, last, cur[k].key));
                assert forall|q: int| 0 <= q < last implies !#[trigger] grouped_into(ls, coords, q, cur[k].key) by {
                    if grouped_into(ls, coords, q, key) {
                        lemma_markers_cover_launches(ls, coords, (n - 1) as nat, q);
                        let p = choose|p: int| 0 <= p < prev.len() && #[trigger] prev[p].key == pad_key(ls[q], coords[q]);
                        assert(!(prev[p].key == key));
                    }
                }
            }
        }
    }
}

/// Different integers are written differently.
proof fn lemma_signed_decimal_injective(a: int, b: int)
    requires
        signed_decimal(a) == signed_decimal(b),
    ensures
        a == b,
{
    reveal_strlit("-");
    if a >= 0 && b >= 0 {
        lemma_decimal_roundtrip(a as nat);
        lemma_decimal_roundtrip(b as nat);
    } else if a < 0 && b < 0 {
        let da = decimal((-a) as nat);
        let db = decimal((-b) as nat);
        assert(("-"@ + da).skip(1) =~= da);
        assert(("-"@ + db).skip(1) =~= db);
        lemma_decimal_roundtrip((-a) as nat);
        lemma_decimal_roundtrip((-b) as nat);
    } else if a < 0 {
        lemma_decimal_roundtrip(b as nat);
        assert(signed_decimal(a)[0] == '-');
        assert(is_ascii_digit(decimal(b as nat)[0]));
    } else {
        lemma_decimal_roundtrip(a as nat);
        assert(signed_decimal(b)[0] == '-');
        assert(is_ascii_digit(decimal(a as nat)[0]));
    }
}

/// Launches whose pads have ids are grouped together exactly when the ids
/// are equal, and a pad with an id is never grouped with one without.
pub proof fn pads_with_ids_group_by_id(a: LaunchSummary, ca: Seq<char>, b: LaunchSummary, cb: Seq<char>)
    requires
        a.pad_id is Some,
    ensures
        b.pad_id is Some ==> (pad_key(a, ca) == pad_key(b, cb) <==> a.pad_id == b.pad_id),
        b.pad_id is None ==> pad_key(a, ca) != pad_key(b, cb),
{
    reveal_strlit("id:");
    reveal_strlit("name:");
    let ka = pad_key(a, ca);
    let kb = pad_key(b, cb);
    if b.pad_id is Some && ka == kb {
        let sa = signed_decimal(a.pad_id->0 as int);
        let sb = signed_decimal(b.pad_id->0 as int);
        assert(ka.skip(3) =~= sa);
        assert(kb.skip(3) =~= sb);
        lemma_signed_decimal_injective(a.pad_id->0 as int, b.pad_id->0 as int);
    }
    if b.pad_id is None {
        assert(ka[0] == 'i');
        assert(kb[0] == 'n');
    }
}

/// `Display` of a signed integer (see `signed_decimal`).
fn signed_decimal_string(v: i64) -> (r: String)
    ensures
        r@ == signed_decimal(v as int),
{
    if v < 0 {
        let magnitude = (0 - (v as i128)) as u64;
        let digits = decimal_string(magnitude);
        concat_str("-", digits.as_str())
    } else {
        decimal_string(v as u64)
    }
}

/// The name a pad is shown with (see `pad_name_of`).
fn pad_name_string(l: &LaunchSummary) -> (r: String)
    ensures
        r@ == pad_name_of(*l),
{
    match &l.pad_name {
        Some(n) => n.clone(),
        None => String::from_str("Launch Pad"),
    }
}

/// The key a launch's pad is grouped by (see `pad_key`).
fn pad_key_string(l: &LaunchSummary, coords: &str) -> (r: String)
    ensures
        r@ == pad_key(*l, coords@),
{
    match l.pad_id {
        Some(id) => {
            let digits = signed_decimal_string(id);
            concat_str("id:", digits.as_str())
        },
        None => {
            let name = pad_name_string(l);
            let a = concat_str("name:", name.as_str());
            let b = concat_str(a.as_str(), ":");
            concat_str(b.as_str(), coords)
        },
    }
}

/// The position of the marker with a key among markers with distinct keys.
fn find_marker(markers: &Vec<LaunchPadMarker>, key: &str) -> (r: Option<usize>)
    requires
        keys_distinct(markers_view(markers@)),
    ensures
        match r {
            Some(i) => key_index(markers_view(markers@), key@) == Some(i as int),
            None => key_index(markers_view(markers@), key@) is None,
        },
{
    let ghost ms = markers_view(markers@);
    let mut i: usize = 0;
    while i < markers.len()
        invariant
            i <= markers.len(),
            ms == markers_view(markers@),
            keys_distinct(ms),
            forall|j: int| 0 <= j < i ==> #[trigger] ms[j].key != key@,
        decreases markers.len() - i,
    {
        if text_eq(markers[i].pad_key.as_str(), key) {
            assert(ms[i as int].key == key@);
            let ghost c = choose|c: int| 0 <= c < ms.len() && #[trigger] ms[c].key == key@;
            assert(c == i) by {
                if c != i {
                    assert(ms[c].key != ms[i as int].key);
                }
            }
            return Some(i);
        }
        i += 1;
    }
    None
}

/// The launches grouped by pad, in the order their pads first appear (see
/// `markers_upto`); `coords[i]` is launch `i`'s pad coordinates written to
/// three decimals as `lat:lon`, used in the key of a pad without an id.
pub fn build_pad_markers(launches: &[LaunchSummary], coords: &[String]) -> (r: Vec<LaunchPadMarker>)
    requires
        coords.len() == launches.len(),
    ensures
        markers_view(r@) == markers_upto(launches@, coords@.map_values(|c: String| c@), launches.len() as nat),
{
    let ghost cs = coords@.map_values(|c: String| c@);
    let mut markers: Vec<LaunchPadMarker> = Vec::new();
    let mut i: usize = 0;
    while i < launches.len()
        invariant
            i <= launches.len(),
            coords.len() == launches.len(),
            cs == coords@.map_values(|c: String| c@),
            markers_view(markers@) == markers_upto(launches@, cs, i as nat),
            keys_distinct(markers_view(markers@)),
            forall|j: int| 0 <= j < markers.len() ==> (#[trigger] markers@[j]).launch_count <= i,
        decreases launches.len() - i,
    {
        let l = &launches[i];
        let ghost before = markers_view(markers@);
        if l.pad_lat.is_some() && l.pad_lon.is_some() {
            let key = pad_key_string(l, coords[i].as_str());
            assert(cs[i as int] == coords@[i as int]@);
            match find_marker(&markers, key.as_str()) {
                Some(j) => {
                    let old = &markers[j];
                    let next_net = match l.net_utc {
                        Some(n) => match old.next_net {
                            Some(t) => if is_before(n, t) {
                                Some(n)
                            } else {
                                Some(t)
                            },
                            None => Some(n),
                        },
                        None => old.next_net,
                    };
                    let updated = LaunchPadMarker {
                        pad_key: old.pad_key.clone(),
                        pad_id: old.pad_id,
                        pad_name: old.pad_name.clone(),
                        pad_lat: old.pad_lat,
                        pad_lon: old.pad_lon,
                        launch_count: old.launch_count + 1,
                        next_net,
                    };
                    markers.set(j, updated);
                    assert(markers_view(markers@) =~= before.update(j as int, with_launch(before[j as int], l.net_utc)));
                },
                None => {
                    let lat = match l.pad_lat {
                        Some(v) => v,
                        None => 0,
                    };
                    let lon = match l.pad_lon {
                        Some(v) => v,
                        None => 0,
                    };
                    let marker = LaunchPadMarker {
                        pad_key: key,
                        pad_id: l.pad_id,
                        pad_name: pad_name_string(l),
                        pad_lat: lat,
                        pad_lon: lon,
                        launch_count: 1,
                        next_net: l.net_utc,
                    };
                    markers.push(marker);
                    assert(markers_view(markers@) =~= before.push(first_marker(pad_key(launches@[i as int], cs[i as int]), launches@[i as int])));
                },
            }
        }
        i += 1;
    }
    markers
}

} // verus!
