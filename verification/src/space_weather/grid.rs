//! The aurora grid: coordinates scaled to integer keys (thousandths of a
//! degree), the sorted distinct keys of each axis, and the grid cells that
//! the points fall into.
use vstd::prelude::*;
use std::collections::{BTreeSet, HashMap};
use vstd::std_specs::btree::spec_btree_keys_iter;
use vstd::std_specs::iter::IteratorSpec;
use vstd::std_specs::cmp::OrdSpec;
use crate::floatbits::{f32_lt, lt, ZERO};

verus! {

broadcast use {
    vstd::std_specs::hash::group_hash_axioms,
    vstd::std_specs::btree::group_btree_axioms,
    vstd::laws_cmp::group_laws_cmp,
};

/// `values.iter().enumerate().map(|(i, v)| (*v, i)).collect()`: each value
/// mapped to its position, a later position replacing an earlier one.
pub open spec fn index_map_spec(values: Seq<i32>) -> Map<i32, usize>
    decreases values.len(),
{
    if values.len() == 0 {
        Map::empty()
    } else {
        index_map_spec(values.drop_last()).insert(values.last(), (values.len() - 1) as usize)
    }
}

/// Maps each value to its position (the last one, for a value that occurs
/// more than once).
pub fn build_index_map(values: &[i32]) -> (r: HashMap<i32, usize>)
    ensures
        r@ == index_map_spec(values@),
        forall|k: i32| r@.contains_key(k) <==> values@.contains(k),
        forall|i: int|
            0 <= i < values.len() ==> {
                &&& r@.contains_key(#[trigger] values@[i])
                &&& i <= r@[values@[i]] < values.len()
                &&& values@[r@[values@[i]] as int] == values@[i]
            },
{
    let mut m: HashMap<i32, usize> = HashMap::new();
    let mut i: usize = 0;
    while i < values.len()
        invariant
            i <= values.len(),
            m@ == index_map_spec(values@.take(i as int)),
            forall|k: i32| m@.contains_key(k) <==> values@.take(i as int).contains(k),
            forall|j: int|
                0 <= j < i ==> {
                    &&& m@.contains_key(#[trigger] values@[j])
                    &&& j <= m@[values@[j]] < i
                    &&& values@[m@[values@[j]] as int] == values@[j]
                },
        decreases values.len() - i,
    {
        let ghost pre = values@.take(i as int);
        let ghost nxt = values@.take(i + 1);
        assert(nxt.drop_last() =~= pre);
        assert(nxt.last() == values@[i as int]);
        m.insert(values[i], i);
        assert forall|k: i32| m@.contains_key(k) <==> nxt.contains(k) by {
            if nxt.contains(k) {
                let w = choose|w: int| 0 <= w < i + 1 && #[trigger] nxt[w] == k;
                if w < i {
                    assert(pre[w] == k);
                }
            }
            if pre.contains(k) {
                let w = choose|w: int| 0 <= w < i && #[trigger] pre[w] == k;
                assert(nxt[w] == k);
            }
            assert(nxt[i as int] == values@[i as int]);
        }
        i += 1;
    }
    assert(values@.take(values.len() as int) =~= values@);
    m
}

/// Whether each key is followed by one that differs from it by an amount
/// that fits in an `i32`.
pub open spec fn steps_fit(values: Seq<i32>) -> bool {
    forall|k: int| 0 <= k < values.len() - 1 ==> i32::MIN <= #[trigger] values[k + 1] - values[k] <= i32::MAX
}

/// Two neighbouring keys of a set, with no key between them, lie further
/// apart than an `i32` counts: subtracting them in `i32` overflows.
pub open spec fn gap_too_wide(set: Set<i32>) -> bool {
    exists|a: i32, b: i32|
        #![trigger set.contains(a), set.contains(b)]
        set.contains(a) && set.contains(b) && a < b && b - a > i32::MAX && forall|c: i32|
            #![trigger set.contains(c)]
            set.contains(c) ==> !(a < c < b)
}

/// The steps of a set's keys, listed in order, fit in an `i32` exactly when
/// no two neighbouring keys lie too far apart.
pub proof fn lemma_steps_fit_iff(s: Seq<i32>, set: Set<i32>)
    requires
        increasing(s),
        s.to_set() == set,
    ensures
        steps_fit(s) <==> !gap_too_wide(set),
{
    if !steps_fit(s) {
        let k = choose|k: int| 0 <= k < s.len() - 1 && !(i32::MIN <= #[trigger] s[k + 1] - s[k] <= i32::MAX);
        let a = s[k];
        let b = s[k + 1];
        assert(s.contains(a) && s.contains(b));
        assert forall|c: i32| set.contains(c) implies !(a < c < b) by {
            assert(s.contains(c));
            let m = choose|m: int| 0 <= m < s.len() && s[m] == c;
            if m <= k {
                if m < k {
                    assert(s[m] < s[k]);
                }
            } else {
                if m > k + 1 {
                    assert(s[k + 1] < s[m]);
                }
            }
        }
        assert(set.contains(a) && set.contains(b));
        assert(gap_too_wide(set));
    }
    if gap_too_wide(set) {
        let (a, b) = choose|a: i32, b: i32|
            #![trigger set.contains(a), set.contains(b)]
            set.contains(a) && set.contains(b) && a < b && b - a > i32::MAX && forall|c: i32|
                #![trigger set.contains(c)]
                set.contains(c) ==> !(a < c < b);
        assert(s.contains(a));
        assert(s.contains(b));
        let i = choose|i: int| 0 <= i < s.len() && s[i] == a;
        let j = choose|j: int| 0 <= j < s.len() && s[j] == b;
        if j <= i {
            if j < i {
                assert(s[j] < s[i]);
            }
            assert(false);
        }
        if j > i + 1 {
            assert(s[i] < s[i + 1] && s[i + 1] < s[j]);
            assert(s.contains(s[i + 1]));
            assert(set.contains(s[i + 1]));
            assert(false);
        }
        assert(j == i + 1);
        assert(!(i32::MIN <= s[i + 1] - s[i] <= i32::MAX));
        assert(!steps_fit(s));
    }
}

/// Whether the steps between neighbouring keys fit in an `i32` (see
/// `steps_fit`).
pub fn steps_fit_check(values: &[i32]) -> (r: bool)
    ensures
        r == steps_fit(values@),
{
    let mut k: usize = 1;
    while k < values.len()
        invariant
            1 <= k,
            forall|j: int| 0 <= j < k - 1 && j < values.len() - 1 ==> i32::MIN <= #[trigger] values@[j + 1] - values@[j]
                <= i32::MAX,
        decreases values.len() - k,
    {
        let d = values[k] as i64 - values[k - 1] as i64;
        if d < i32::MIN as i64 || d > i32::MAX as i64 {
            assert(!(i32::MIN <= values@[(k - 1) + 1] - values@[k - 1] <= i32::MAX));
            return false;
        }
        k += 1;
    }
    true
}

/// The smallest increase between neighbouring keys, among the increases
/// below `i32::MAX`; none when there is no such increase.
pub open spec fn min_step_spec(values: Seq<i32>) -> Option<i32>
    decreases values.len(),
{
    if values.len() < 2 {
        None
    } else {
        let rest = min_step_spec(values.drop_last());
        let d = values.last() - values[values.len() - 2];
        if 0 < d < i32::MAX && (rest is None || d < rest->0) {
            Some(d as i32)
        } else {
            rest
        }
    }
}

/// The grid spacing of an axis, in key units: the smallest positive step
/// between neighbouring keys.
pub fn min_key_step(values: &[i32]) -> (r: Option<i32>)
    requires
        steps_fit(values@),
    ensures
        r == min_step_spec(values@),
        r matches Some(s) ==> 0 < s < i32::MAX,
{
    if values.len() < 2 {
        return None;
    }
    let mut min_step: i32 = i32::MAX;
    let mut k: usize = 1;
    assert(values@.take(2).drop_last() =~= values@.take(1));
    while k < values.len()
        invariant
            1 <= k <= values.len(),
            steps_fit(values@),
            min_step_spec(values@.take(k as int)) == (if min_step == i32::MAX {
                None
            } else {
                Some(min_step)
            }),
            0 < min_step <= i32::MAX,
        decreases values.len() - k,
    {
        let ghost pre = values@.take(k as int);
        let ghost nxt = values@.take(k + 1);
        assert(nxt.drop_last() =~= pre);
        assert(nxt.last() == values@[k as int]);
        assert(nxt[nxt.len() - 2] == values@[k - 1]);
        assert(i32::MIN <= values@[(k - 1) + 1] - values@[k - 1] <= i32::MAX);
        let step = values[k] - values[k - 1];
        if step > 0 && step < min_step {
            min_step = step;
        }
        k += 1;
    }
    assert(values@.take(values.len() as int) =~= values@);
    if min_step == i32::MAX {
        None
    } else {
        Some(min_step)
    }
}

/// Strictly increasing.
pub open spec fn increasing(s: Seq<i32>) -> bool {
    forall|i: int, j: int| 0 <= i < j < s.len() ==> s[i] < s[j]
}

/// The keys of a set in increasing order.
fn sorted_keys(set: &BTreeSet<i32>) -> (r: Vec<i32>)
    ensures
        r@.to_set() == set@,
        increasing(r@),
{
    let mut out: Vec<i32> = Vec::new();
    let ghost keys = spec_btree_keys_iter(set).remaining();
    for k in it: set.iter()
        invariant
            keys == spec_btree_keys_iter(set).remaining(),
            it.seq() == keys,
            out.len() == it.index(),
            forall|i: int| 0 <= i < it.index() ==> out@[i] == *keys[i],
    {
        out.push(*k);
    }
    assert(out@.len() == keys.len());
    assert(out@ =~= keys.unref());
    assert forall|i: int, j: int| 0 <= i < j < out@.len() implies out@[i] < out@[j] by {
        assert(OrdSpec::cmp_spec(&keys[i], &keys[j]) is Less);
    }
    out
}

/// Over keys that occur once each, the index map takes every key back to
/// its position.
pub proof fn index_map_inverts_distinct_keys(values: Seq<i32>, i: int)
    requires
        values.no_duplicates(),
        values.len() <= usize::MAX,
        0 <= i < values.len(),
    ensures
        index_map_spec(values).contains_key(values[i]),
        index_map_spec(values)[values[i]] == i,
    decreases values.len(),
{
    let n = values.len() - 1;
    if i < n {
        let pre = values.drop_last();
        assert(pre[i] == values[i]);
        index_map_inverts_distinct_keys(pre, i);
        assert(values[n] != values[i]);
    }
}

// ----------------------------------------------------------------------------
// Cells
// ----------------------------------------------------------------------------

/// The longitude keys of the points.
pub open spec fn lon_keys_of(points: Seq<(i32, i32, u32)>) -> Set<i32> {
    points.map_values(|p: (i32, i32, u32)| p.0).to_set()
}

/// The latitude keys of the points.
pub open spec fn lat_keys_of(points: Seq<(i32, i32, u32)>) -> Set<i32> {
    points.map_values(|p: (i32, i32, u32)| p.1).to_set()
}

/// `s` lists the members of `set` in increasing order.
pub open spec fn lists_in_order(s: Seq<i32>, set: Set<i32>) -> bool {
    increasing(s) && s.to_set() == set
}

/// The value of the cell at (`lon`, `lat`): starting from `0.0`, each point
/// of that cell, in order, replaces the value when it is greater (`f32`
/// comparison on the bit patterns, so a NaN never enters).
pub open spec fn cell_value(points: Seq<(i32, i32, u32)>, lon: i32, lat: i32) -> u32
    decreases points.len(),
{
    if points.len() == 0 {
        ZERO
    } else {
        let cur = cell_value(points.drop_last(), lon, lat);
        let p = points.last();
        if p.0 == lon && p.1 == lat && lt(cur, p.2) {
            p.2
        } else {
            cur
        }
    }
}

/// A cell's value is never NaN: it starts at `0.0` and is only replaced by
/// a greater value.
proof fn lemma_cell_value_not_nan(points: Seq<(i32, i32, u32)>, lon: i32, lat: i32)
    ensures
        !crate::floatbits::is_nan(cell_value(points, lon, lat)),
    decreases points.len(),
{
    if points.len() > 0 {
        lemma_cell_value_not_nan(points.drop_last(), lon, lat);
    }
}

/// Each cell holds the greatest value that falls into it: no point of the
/// cell has a greater value than the cell.
pub proof fn cell_holds_greatest(points: Seq<(i32, i32, u32)>, i: int)
    requires
        0 <= i < points.len(),
    ensures
        !lt(cell_value(points, points[i].0, points[i].1), points[i].2),
    decreases points.len(),
{
    let lon = points[i].0;
    let lat = points[i].1;
    let n = points.len() - 1;
    let pre = points.drop_last();
    lemma_cell_value_not_nan(pre, lon, lat);
    if i < n {
        assert(pre[i] == points[i]);
        cell_holds_greatest(pre, i);
    }
}

/// The greatest value of all points, in the same sense, starting from `0.0`.
pub open spec fn max_value_spec(points: Seq<(i32, i32, u32)>) -> u32
    decreases points.len(),
{
    if points.len() == 0 {
        ZERO
    } else {
        let cur = max_value_spec(points.drop_last());
        if lt(cur, points.last().2) {
            points.last().2
        } else {
            cur
        }
    }
}

proof fn lemma_max_value_not_nan(points: Seq<(i32, i32, u32)>)
    ensures
        !crate::floatbits::is_nan(max_value_spec(points)),
    decreases points.len(),
{
    if points.len() > 0 {
        lemma_max_value_not_nan(points.drop_last());
    }
}

/// The greatest value reported is not less than the value of any point.
pub proof fn max_value_bounds_points(points: Seq<(i32, i32, u32)>, i: int)
    requires
        0 <= i < points.len(),
    ensures
        !lt(max_value_spec(points), points[i].2),
    decreases points.len(),
{
    let pre = points.drop_last();
    lemma_max_value_not_nan(pre);
    if i < points.len() - 1 {
        assert(pre[i] == points[i]);
        max_value_bounds_points(pre, i);
    }
}

/// The cells of the aurora grid.
pub struct GridCells {
    /// The distinct longitude keys, increasing; the grid's columns.
    pub lon_keys: Vec<i32>,
    /// The distinct latitude keys, increasing; the grid's rows.
    pub lat_keys: Vec<i32>,
    /// Row-major cell values (`f32` bits): row `y`, column `x` at `y * width + x`.
    pub values: Vec<u32>,
    /// The greatest point value (`f32` bits).
    pub max_value: u32,
}

/// The cell that index `c` of a row-major grid `w` columns wide stands for
/// holds the value `cell_value` gives for its keys.
pub open spec fn cells_hold(points: Seq<(i32, i32, u32)>, lon_keys: Seq<i32>, lat_keys: Seq<i32>, values: Seq<u32>) -> bool {
    let w = lon_keys.len() as int;
    &&& values.len() == lon_keys.len() * lat_keys.len()
    &&& forall|c: int|
        0 <= c < values.len() ==> #[trigger] values[c] == cell_value(points, lon_keys[c % w], lat_keys[c / w])
}

/// Index `y * w + x` of a row-major grid stands for column `x` and row `y`.
proof fn lemma_cell_index(w: int, h: int, x: int, y: int)
    requires
        0 <= x < w,
        0 <= y < h,
    ensures
        0 <= y * w + x < w * h,
        (y * w + x) % w == x,
        (y * w + x) / w == y,
{
    assert(0 <= y * w + x < w * h) by (nonlinear_arith)
        requires
            0 <= x < w,
            0 <= y < h,
    ;
    vstd::arithmetic::div_mod::lemma_fundamental_div_mod_converse(y * w + x, w, y, x);
}

/// A position of an increasing sequence holding `k`.
proof fn lemma_position(s: Seq<i32>, k: i32) -> (i: int)
    requires
        increasing(s),
        s.to_set().contains(k),
    ensures
        0 <= i < s.len(),
        s[i] == k,
{
    choose|i: int| 0 <= i < s.len() && s[i] == k
}

/// Lays the points out on the grid of their distinct keys: each cell holds
/// the greatest value that falls into it.  `None` where the grid has more
/// cells than a `usize` counts.
pub fn build_grid_cells(points: &[(i32, i32, u32)]) -> (r: Option<GridCells>)
    ensures
        r is None <==> lon_keys_of(points@).len() * lat_keys_of(points@).len() > usize::MAX,
        r matches Some(c) ==> {
            &&& lists_in_order(c.lon_keys@, lon_keys_of(points@))
            &&& lists_in_order(c.lat_keys@, lat_keys_of(points@))
            &&& cells_hold(points@, c.lon_keys@, c.lat_keys@, c.values@)
            &&& c.max_value == max_value_spec(points@)
        },
{
    let mut lon_set: BTreeSet<i32> = BTreeSet::new();
    let mut lat_set: BTreeSet<i32> = BTreeSet::new();
    let mut max_value: u32 = ZERO;
    let mut i: usize = 0;
    while i < points.len()
        invariant
            i <= points.len(),
            lon_set@ == lon_keys_of(points@.take(i as int)),
            lat_set@ == lat_keys_of(points@.take(i as int)),
            max_value == max_value_spec(points@.take(i as int)),
        decreases points.len() - i,
    {
        let ghost pre = points@.take(i as int);
        let ghost nxt = points@.take(i + 1);
        assert(nxt.drop_last() =~= pre);
        assert(nxt.last() == points@[i as int]);
        let (lon_key, lat_key, value) = points[i];
        lon_set.insert(lon_key);
        lat_set.insert(lat_key);
        if f32_lt(max_value, value) {
            max_value = value;
        }
        assert(nxt.map_values(|p: (i32, i32, u32)| p.0) =~= pre.map_values(|p: (i32, i32, u32)| p.0).push(lon_key));
        assert(nxt.map_values(|p: (i32, i32, u32)| p.1) =~= pre.map_values(|p: (i32, i32, u32)| p.1).push(lat_key));
        proof {
            pre.map_values(|p: (i32, i32, u32)| p.0).lemma_push_to_set_commute(lon_key);
            pre.map_values(|p: (i32, i32, u32)| p.1).lemma_push_to_set_commute(lat_key);
        }
        i += 1;
    }
    assert(points@.take(points.len() as int) =~= points@);
    let lon_keys = sorted_keys(&lon_set);
    let lat_keys = sorted_keys(&lat_set);
    let lon_index = build_index_map(lon_keys.as_slice());
    let lat_index = build_index_map(lat_keys.as_slice());
    proof {
        lon_keys@.unique_seq_to_set();
        lat_keys@.unique_seq_to_set();
    }
    let w = lon_keys.len();
    let h = lat_keys.len();
    let n = match w.checked_mul(h) {
        Some(n) => n,
        None => return None,
    };
    let mut values: Vec<u32> = vec![ZERO; n];
    assert forall|c: int| 0 <= c < values.len() implies #[trigger] values@[c] == cell_value(
        points@.take(0),
        lon_keys@[c % (w as int)],
        lat_keys@[c / (w as int)],
    ) by {
        assert(cloned(ZERO, values@[c]));
    }
    let mut j: usize = 0;
    while j < points.len()
        invariant
            j <= points.len(),
            w == lon_keys.len(),
            h == lat_keys.len(),
            lists_in_order(lon_keys@, lon_keys_of(points@)),
            lists_in_order(lat_keys@, lat_keys_of(points@)),
            lon_index@ == index_map_spec(lon_keys@),
            lat_index@ == index_map_spec(lat_keys@),
            forall|k: int|
                0 <= k < w ==> #[trigger] lon_index@[lon_keys@[k]] == k && lon_index@.contains_key(lon_keys@[k]),
            forall|k: int|
                0 <= k < h ==> #[trigger] lat_index@[lat_keys@[k]] == k && lat_index@.contains_key(lat_keys@[k]),
            forall|k: i32| lon_index@.contains_key(k) <==> lon_keys@.contains(k),
            forall|k: i32| lat_index@.contains_key(k) <==> lat_keys@.contains(k),
            cells_hold(points@.take(j as int), lon_keys@, lat_keys@, values@),
        decreases points.len() - j,
    {
        let ghost pre = points@.take(j as int);
        let ghost nxt = points@.take(j + 1);
        assert(nxt.drop_last() =~= pre);
        assert(nxt.last() == points@[j as int]);
        let (lon_key, lat_key, value) = points[j];
        let ghost old_values = values@;
        assert(points@.map_values(|p: (i32, i32, u32)| p.0)[j as int] == lon_key);
        assert(points@.map_values(|p: (i32, i32, u32)| p.1)[j as int] == lat_key);
        let ghost gx = lemma_position(lon_keys@, lon_key);
        let ghost gy = lemma_position(lat_keys@, lat_key);
        assert(lon_index@[lon_keys@[gx]] == gx);
        assert(lat_index@[lat_keys@[gy]] == gy);
        if let (Some(xr), Some(yr)) = (lon_index.get(&lon_key), lat_index.get(&lat_key)) {
            let x = *xr;
            let y = *yr;
            assert(x == gx && y == gy);
            proof {
                lemma_cell_index(w as int, h as int, x as int, y as int);
                assert(values.len() == (w as int) * (h as int));
                assert(0 <= y * w <= y * w + x < values.len());
            }
            let idx = y * w + x;
            if f32_lt(values[idx], value) {
                values.set(idx, value);
            }
            assert forall|c: int| 0 <= c < values.len() implies #[trigger] values@[c] == cell_value(
                nxt,
                lon_keys@[c % (w as int)],
                lat_keys@[c / (w as int)],
            ) by {
                assert(old_values[c] == cell_value(pre, lon_keys@[c % (w as int)], lat_keys@[c / (w as int)]));
                if c != idx {
                    vstd::arithmetic::div_mod::lemma_fundamental_div_mod(c, w as int);
                    if lon_keys@[c % (w as int)] == lon_key && lat_keys@[c / (w as int)] == lat_key {
                        assert(0 <= c % (w as int) < w) by {
                            vstd::arithmetic::div_mod::lemma_mod_bound(c, w as int);
                        }
                        assert(c % (w as int) == x as int);
                        let q = c / (w as int);
                        assert(0 <= q < h) by (nonlinear_arith)
                            requires
                                c == (w as int) * q + (c % (w as int)),
                                0 <= c % (w as int) < w,
                                0 <= c < (w as int) * (h as int),
                        ;
                        assert(q == y as int);
                        assert((w as int) * q == (y as int) * (w as int)) by (nonlinear_arith)
                            requires
                                q == y as int,
                        ;
                        assert(false);
                    }
                }
            }
        } else {
            assert(false);
        }
        j += 1;
    }
    assert(points@.take(points.len() as int) =~= points@);
    Some(GridCells { lon_keys, lat_keys, values, max_value })
}

} // verus!
