//! The satellite panel's own state: the catalog-number input, the group
//! request, which satellite is selected and followed, the panels shown, and
//! the satellite list.
use vstd::prelude::*;
use std::collections::{BTreeSet, HashMap};
use vstd::std_specs::btree::spec_btree_keys_iter;
use vstd::std_specs::iter::IteratorSpec;
use vstd::std_specs::cmp::OrdSpec;
use crate::text::{concat_str, decimal, decimal_string, parse_u32_spec, trim_ws};
use crate::tle::store::{color_seed_spec, fetch_queue_message, group_failure_message, plan_add, SatEntry, SatRecord};

verus! {

broadcast use {vstd::std_specs::btree::group_btree_axioms, vstd::laws_cmp::group_laws_cmp};

/// A key pressed while the input field has focus.
#[derive(Clone, Copy, Debug, PartialEq, Eq, Structural)]
pub enum InputKey {
    Backspace,
    Enter,
    /// A digit key of the main block or the keypad, with its value.
    Digit(u8),
    Other,
}

/// The right panel: the typed catalog number, the message shown, the group
/// picked, and whether a group is loading or an add is pending.
pub struct RightPanelUI {
    pub input: Vec<char>,
    pub error: Option<String>,
    pub selected_group: Option<String>,
    pub group_loading: bool,
    pub pending_add: bool,
}

/// The satellite whose details are shown, the one the camera follows, and
/// how the camera follows it (distance in km and smoothing, as `f32` bits).
#[derive(Clone, Copy, Debug, PartialEq, Eq, Structural)]
pub struct SelectedSatellite {
    pub selected: Option<u32>,
    pub tracking: Option<u32>,
    pub tracking_offset: u32,
    pub smooth_factor: u32,
}

/// The character a digit key types.
pub open spec fn digit_char_of(d: u8) -> char {
    ((d as int) + ('0' as int)) as char
}

/// The input after a key: backspace drops the last character, a digit is
/// appended, anything else leaves it.
pub open spec fn input_after(input: Seq<char>, key: InputKey) -> Seq<char> {
    match key {
        InputKey::Backspace => if input.len() > 0 {
            input.drop_last()
        } else {
            input
        },
        InputKey::Digit(d) => input.push(digit_char_of(d)),
        _ => input,
    }
}

pub open spec fn opt_text(o: Option<String>) -> Option<Seq<char>> {
    match o {
        Some(s) => Some(s@),
        None => None,
    }
}

impl RightPanelUI {
    /// An empty panel.
    pub fn new() -> (r: RightPanelUI)
        ensures
            r.input@.len() == 0,
            r.error is None,
            r.selected_group is None,
            !r.group_loading,
            !r.pending_add,
    {
        RightPanelUI { input: Vec::new(), error: None, selected_group: None, group_loading: false, pending_add: false }
    }

    /// Handles a key press (repeats are ignored); Enter asks for the typed
    /// satellite to be added.
    pub fn key_input(&mut self, key: InputKey, pressed: bool, repeat: bool)
        requires
            key matches InputKey::Digit(d) ==> d < 10,
        ensures
            !pressed || repeat ==> final(self).input@ == old(self).input@ && final(self).pending_add
                == old(self).pending_add,
            pressed && !repeat ==> final(self).input@ == input_after(old(self).input@, key),
            pressed && !repeat ==> final(self).pending_add == (old(self).pending_add || key == InputKey::Enter),
            final(self).error == old(self).error,
            final(self).selected_group == old(self).selected_group,
            final(self).group_loading == old(self).group_loading,
    {
        if !pressed || repeat {
            return;
        }
        match key {
            InputKey::Backspace => {
                if self.input.len() > 0 {
                    self.input.pop();
                }
            },
            InputKey::Enter => {
                self.pending_add = true;
            },
            InputKey::Digit(d) => {
                let c = (d + 48) as char;
                assert(c == digit_char_of(d));
                self.input.push(c);
            },
            InputKey::Other => {},
        }
    }

    /// Takes a pending add: decides on the typed number against the store.
    /// An invalid or known number leaves its error and the input; an
    /// accepted one clears the error and the input and is returned, with
    /// its colour seed, for the caller to store and fetch.
    pub fn take_pending_add<V>(&mut self, items: &HashMap<u32, V>) -> (r: Option<(u32, u32)>)
        ensures
            !final(self).pending_add,
            !old(self).pending_add ==> r is None && final(self).input@ == old(self).input@ && final(self).error
                == old(self).error,
            old(self).pending_add ==> match parse_u32_spec(trim_ws(old(self).input@)) {
                None => r is None && opt_text(final(self).error) == Some("Invalid NORAD ID"@) && final(self).input@
                    == old(self).input@,
                Some(n) => if items@.contains_key(n) {
                    r is None && opt_text(final(self).error) == Some("Satellite already added"@)
                        && final(self).input@ == old(self).input@
                } else {
                    r == Some((n, color_seed_spec(n))) && final(self).error is None && final(self).input@.len() == 0
                },
            },
            final(self).selected_group == old(self).selected_group,
            final(self).group_loading == old(self).group_loading,
    {
        if !self.pending_add {
            return None;
        }
        self.pending_add = false;
        let typed = crate::text::string_from_chars(self.input.as_slice());
        match plan_add(typed.as_str(), items) {
            Err(e) => {
                self.error = Some(e.message());
                None
            },
            Ok((norad, seed)) => {
                self.error = None;
                self.input = Vec::new();
                Some((norad, seed))
            },
        }
    }

    /// Records that the fetch of an added satellite could not be queued.
    pub fn record_fetch_failure(&mut self, norad: u32, error: &str)
        ensures
            opt_text(final(self).error) == Some(
                "Failed to fetch NORAD "@ + crate::text::decimal(norad as nat) + ": "@ + error@,
            ),
            final(self).input@ == old(self).input@,
            final(self).pending_add == old(self).pending_add,
            final(self).group_loading == old(self).group_loading,
            final(self).selected_group == old(self).selected_group,
    {
        self.error = Some(fetch_queue_message(norad, error));
    }

    /// Decides on a click of "load group": nothing while a group is loading;
    /// an error when no group is picked; otherwise the group to request.
    pub fn request_group(&mut self) -> (r: Option<String>)
        ensures
            old(self).group_loading ==> r is None && final(self).error == old(self).error,
            !old(self).group_loading && old(self).selected_group is None ==> r is None && opt_text(final(self).error)
                == Some("Please select a group first"@),
            !old(self).group_loading && old(self).selected_group is Some ==> r is Some && opt_text(r) == opt_text(
                old(self).selected_group,
            ) && final(self).error == old(self).error,
            final(self).input@ == old(self).input@,
            final(self).pending_add == old(self).pending_add,
            final(self).group_loading == old(self).group_loading,
            final(self).selected_group == old(self).selected_group,
    {
        if self.group_loading {
            return None;
        }
        match &self.selected_group {
            Some(g) => Some(g.clone()),
            None => {
                self.error = Some(String::from_str("Please select a group first"));
                None
            },
        }
    }

    /// Records how queueing a group request went.
    pub fn record_group_request(&mut self, failure: Option<String>)
        ensures
            failure is None ==> final(self).group_loading && final(self).error is None,
            failure matches Some(e) ==> !final(self).group_loading && opt_text(final(self).error) == Some(
                "Failed to request group: "@ + e@,
            ),
            final(self).input@ == old(self).input@,
            final(self).pending_add == old(self).pending_add,
            final(self).selected_group == old(self).selected_group,
    {
        match failure {
            None => {
                self.group_loading = true;
                self.error = None;
            },
            Some(e) => {
                self.error = Some(concat_str("Failed to request group: ", e.as_str()));
                self.group_loading = false;
            },
        }
    }

    /// Records the end of a group load: it is no longer loading, and a
    /// failure is shown.
    pub fn finish_group(&mut self, failure: Option<&str>)
        ensures
            !final(self).group_loading,
            failure is None ==> final(self).error == old(self).error,
            failure matches Some(e) ==> opt_text(final(self).error) == Some("Group fetch failed: "@ + e@),
            final(self).input@ == old(self).input@,
            final(self).pending_add == old(self).pending_add,
            final(self).selected_group == old(self).selected_group,
    {
        self.group_loading = false;
        if let Some(e) = failure {
            self.error = Some(group_failure_message(e));
        }
    }
}

/// The selection after pressing "track" on a satellite: tracking stops when
/// it is the one tracked; otherwise it becomes the selected and tracked one.
pub open spec fn toggled(s: SelectedSatellite, norad: u32) -> SelectedSatellite {
    if s.tracking == Some(norad) {
        SelectedSatellite { tracking: None, ..s }
    } else {
        SelectedSatellite { selected: Some(norad), tracking: Some(norad), ..s }
    }
}

impl SelectedSatellite {
    /// Nothing selected or tracked; the camera follows from 5000 km with a
    /// smoothing factor of 0.1.
    pub fn new() -> (r: SelectedSatellite)
        ensures
            r.selected is None,
            r.tracking is None,
            r.tracking_offset == 0x459c_4000,
            r.smooth_factor == 0x3dcc_cccd,
    {
        SelectedSatellite { selected: None, tracking: None, tracking_offset: 0x459c_4000, smooth_factor: 0x3dcc_cccd }
    }

    /// The "track" button of a satellite: stops tracking it when it is the
    /// one tracked, else selects and tracks it.
    pub fn toggle_tracking(&mut self, norad: u32)
        ensures
            *final(self) == toggled(*old(self), norad),
    {
        if self.tracking == Some(norad) {
            self.tracking = None;
        } else {
            self.selected = Some(norad);
            self.tracking = Some(norad);
        }
    }

    /// A satellite was removed: it is no longer selected or tracked.
    pub fn forget(&mut self, norad: u32)
        ensures
            final(self).tracking == (if old(self).tracking == Some(norad) {
                None
            } else {
                old(self).tracking
            }),
            final(self).selected == (if old(self).selected == Some(norad) {
                None
            } else {
                old(self).selected
            }),
            final(self).tracking_offset == old(self).tracking_offset,
            final(self).smooth_factor == old(self).smooth_factor,
    {
        if self.tracking == Some(norad) {
            self.tracking = None;
        }
        if self.selected == Some(norad) {
            self.selected = None;
        }
    }

    /// Stops tracking, keeping the selection.
    pub fn stop_tracking(&mut self)
        ensures
            *final(self) == (SelectedSatellite { tracking: None, ..*old(self) }),
    {
        self.tracking = None;
    }
}

/// "Clear All Satellites": the store is emptied, the panel's error cleared
/// and the camera stops tracking; the rest of the panel and the selection stay.
pub fn clear_all(store: &mut HashMap<u32, SatEntry>, ui: &mut RightPanelUI, selected: &mut SelectedSatellite)
    ensures
        final(store)@ == Map::<u32, SatEntry>::empty(),
        final(ui).error is None,
        final(ui).input == old(ui).input,
        final(ui).selected_group == old(ui).selected_group,
        final(ui).group_loading == old(ui).group_loading,
        final(ui).pending_add == old(ui).pending_add,
        *final(selected) == (SelectedSatellite { tracking: None, ..*old(selected) }),
{
    store.clear();
    ui.error = None;
    selected.stop_tracking();
}

// ----------------------------------------------------------------------------
// The satellite list
// ----------------------------------------------------------------------------

/// The catalog numbers of the store in increasing order.
pub fn sorted_norads(keys: &[u32]) -> (r: Vec<u32>)
    requires
        keys@.no_duplicates(),
    ensures
        r@.to_set() == keys@.to_set(),
        r@.len() == keys@.len(),
        forall|i: int, j: int| 0 <= i < j < r@.len() ==> r@[i] < r@[j],
{
    let mut set: BTreeSet<u32> = BTreeSet::new();
    let mut i: usize = 0;
    while i < keys.len()
        invariant
            i <= keys.len(),
            set@ == keys@.take(i as int).to_set(),
        decreases keys.len() - i,
    {
        set.insert(keys[i]);
        assert(keys@.take(i + 1) =~= keys@.take(i as int).push(keys@[i as int]));
        proof {
            keys@.take(i as int).lemma_push_to_set_commute(keys@[i as int]);
        }
        i += 1;
    }
    assert(keys@.take(keys.len() as int) =~= keys@);
    let out = ordered_members(&set);
    proof {
        keys@.unique_seq_to_set();
        out@.unique_seq_to_set();
    }
    out
}

/// The members of a set in increasing order.
fn ordered_members(set: &BTreeSet<u32>) -> (r: Vec<u32>)
    ensures
        r@.to_set() == set@,
        r@.no_duplicates(),
        forall|i: int, j: int| 0 <= i < j < r@.len() ==> r@[i] < r@[j],
{
    let mut out: Vec<u32> = Vec::new();
    let ghost ks = spec_btree_keys_iter(set).remaining();
    for k in it: set.iter()
        invariant
            ks == spec_btree_keys_iter(set).remaining(),
            it.seq() == ks,
            out.len() == it.index(),
            forall|m: int| 0 <= m < it.index() ==> out@[m] == *ks[m],
    {
        out.push(*k);
    }
    assert(out@ =~= ks.unref());
    assert forall|a: int, b: int| 0 <= a < b < out@.len() implies out@[a] < out@[b] by {
        assert(OrdSpec::cmp_spec(&ks[a], &ks[b]) is Less);
    }
    out
}

/// How far a satellite has got.
#[derive(Clone, Copy, Debug, PartialEq, Eq, Structural)]
pub enum SatStatus {
    /// The last fetch or model build failed.
    Error,
    /// A propagator is ready.
    Ready,
    /// Elements are there but no propagator.
    Tle,
    /// Nothing yet.
    Fetching,
}

impl SatStatus {
    /// The word the list shows.
    pub fn label(&self) -> (r: &'static str)
        ensures
            r@ == match self {
                SatStatus::Error => "Error"@,
                SatStatus::Ready => "Ready"@,
                SatStatus::Tle => "TLE"@,
                SatStatus::Fetching => "Fetching"@,
            },
    {
        match self {
            SatStatus::Error => "Error",
            SatStatus::Ready => "Ready",
            SatStatus::Tle => "TLE",
            SatStatus::Fetching => "Fetching",
        }
    }
}

/// The status of a record: an error first, then a propagator, then
/// elements.
pub fn record_status(record: &SatRecord) -> (r: SatStatus)
    ensures
        r == (if record.error is Some {
            SatStatus::Error
        } else if record.propagator is Some {
            SatStatus::Ready
        } else if record.epoch_utc is Some {
            SatStatus::Tle
        } else {
            SatStatus::Fetching
        }),
{
    if record.error.is_some() {
        SatStatus::Error
    } else if record.propagator.is_some() {
        SatStatus::Ready
    } else if record.epoch_utc.is_some() {
        SatStatus::Tle
    } else {
        SatStatus::Fetching
    }
}

/// The label of a satellite's track button: its number, marked when tracked.
pub fn track_label(norad: u32, is_tracking: bool) -> (r: String)
    ensures
        r@ == (if is_tracking {
            "> "@ + decimal(norad as nat)
        } else {
            decimal(norad as nat)
        }),
{
    let digits = decimal_string(norad as u64);
    if is_tracking {
        concat_str("> ", digits.as_str())
    } else {
        digits
    }
}

/// The name a satellite is listed under.
pub fn list_name(record: &SatRecord) -> (r: &str)
    ensures
        r@ == match record.name {
            Some(n) => n@,
            None => "Unnamed"@,
        },
{
    match &record.name {
        Some(n) => n.as_str(),
        None => "Unnamed",
    }
}

// ----------------------------------------------------------------------------
// Panel visibility
// ----------------------------------------------------------------------------

/// Which panels are shown, and whether the 3D view is cropped to them.
#[derive(Clone, Copy, Debug, PartialEq, Eq, Structural)]
pub struct UIState {
    pub show_axes: bool,
    pub show_left_panel: bool,
    pub show_right_panel: bool,
    pub show_top_panel: bool,
    pub show_bottom_panel: bool,
    pub crop_3d_viewport_to_ui: bool,
}

/// The panel keys pressed since the last frame: H (left), J (right),
/// K (top), L (bottom), V (cropping).
#[derive(Clone, Copy, Debug, PartialEq, Eq, Structural)]
pub struct PanelKeys {
    pub h: bool,
    pub j: bool,
    pub k: bool,
    pub l: bool,
    pub v: bool,
}

/// The panel-toggle buttons.
#[derive(Clone, Copy, Debug, PartialEq, Eq, Structural)]
pub enum PanelToggleKind {
    Left,
    Right,
    Bottom,
}

/// The state after the keys: each pressed key flips its flag.
pub open spec fn keys_applied(s: UIState, k: PanelKeys) -> UIState {
    UIState {
        show_left_panel: s.show_left_panel != k.h,
        show_right_panel: s.show_right_panel != k.j,
        show_top_panel: s.show_top_panel != k.k,
        show_bottom_panel: s.show_bottom_panel != k.l,
        crop_3d_viewport_to_ui: s.crop_3d_viewport_to_ui != k.v,
        ..s
    }
}

impl UIState {
    /// Top and bottom panels shown, side panels hidden, no axes, no cropping.
    pub fn new() -> (r: UIState)
        ensures
            r == (UIState {
                show_axes: false,
                show_left_panel: false,
                show_right_panel: false,
                show_top_panel: true,
                show_bottom_panel: true,
                crop_3d_viewport_to_ui: false,
            }),
    {
        UIState {
            show_axes: false,
            show_left_panel: false,
            show_right_panel: false,
            show_top_panel: true,
            show_bottom_panel: true,
            crop_3d_viewport_to_ui: false,
        }
    }

    /// Flips the panels whose keys were pressed.
    pub fn toggle_panels_keyboard(&mut self, keys: PanelKeys)
        ensures
            *final(self) == keys_applied(*old(self), keys),
    {
        if keys.h {
            self.show_left_panel = !self.show_left_panel;
        }
        if keys.j {
            self.show_right_panel = !self.show_right_panel;
        }
        if keys.k {
            self.show_top_panel = !self.show_top_panel;
        }
        if keys.l {
            self.show_bottom_panel = !self.show_bottom_panel;
        }
        if keys.v {
            self.crop_3d_viewport_to_ui = !self.crop_3d_viewport_to_ui;
        }
    }

    /// Flips the panel of a toggle button.
    pub fn toggle_panel(&mut self, kind: PanelToggleKind)
        ensures
            *final(self) == keys_applied(
                *old(self),
                PanelKeys {
                    h: kind == PanelToggleKind::Left,
                    j: kind == PanelToggleKind::Right,
                    k: false,
                    l: kind == PanelToggleKind::Bottom,
                    v: false,
                },
            ),
    {
        match kind {
            PanelToggleKind::Left => self.show_left_panel = !self.show_left_panel,
            PanelToggleKind::Right => self.show_right_panel = !self.show_right_panel,
            PanelToggleKind::Bottom => self.show_bottom_panel = !self.show_bottom_panel,
        }
    }

    /// Whether a toggle button shows as on.
    pub fn panel_shown(&self, kind: PanelToggleKind) -> (r: bool)
        ensures
            r == match kind {
                PanelToggleKind::Left => self.show_left_panel,
                PanelToggleKind::Right => self.show_right_panel,
                PanelToggleKind::Bottom => self.show_bottom_panel,
            },
    {
        match kind {
            PanelToggleKind::Left => self.show_left_panel,
            PanelToggleKind::Right => self.show_right_panel,
            PanelToggleKind::Bottom => self.show_bottom_panel,
        }
    }
}

/// Pressing the same panel keys twice leaves every panel as it was.
pub proof fn panel_keys_twice_restore(s: UIState, k: PanelKeys)
    ensures
        keys_applied(keys_applied(s, k), k) == s,
{
}

/// Typing a digit and then backspace leaves the input as it was.
pub proof fn backspace_undoes_digit(input: Seq<char>, d: u8)
    ensures
        input_after(input_after(input, InputKey::Digit(d)), InputKey::Backspace) == input,
{
    assert(input.push(digit_char_of(d)).drop_last() =~= input);
}

/// Typing keeps the input made of digits only.
pub proof fn input_stays_digits(input: Seq<char>, key: InputKey)
    requires
        forall|i: int| 0 <= i < input.len() ==> '0' <= #[trigger] input[i] <= '9',
        key matches InputKey::Digit(d) ==> d < 10,
    ensures
        forall|i: int| 0 <= i < input_after(input, key).len() ==> '0' <= #[trigger] input_after(input, key)[i] <= '9',
{
}

/// Pressing "track" twice on a satellite leaves it selected, and tracked
/// exactly when it was tracked before.
pub proof fn tracking_toggle_twice(s: SelectedSatellite, norad: u32)
    ensures
        toggled(toggled(s, norad), norad).selected == Some(norad),
        toggled(toggled(s, norad), norad).tracking == (if s.tracking == Some(norad) {
            Some(norad)
        } else {
            None
        }),
{
}

} // verus!
