use bevyearth::panel::{InputKey, RightPanelUI, SelectedSatellite};
use std::collections::HashMap;

fn typed(ui: &RightPanelUI) -> String {
    ui.input.iter().collect()
}

#[test]
fn typing_a_catalog_number() {
    let mut ui = RightPanelUI::new();
    for d in [2u8, 5, 5, 4, 4] {
        ui.key_input(InputKey::Digit(d), true, false);
    }
    ui.key_input(InputKey::Digit(9), true, true);
    ui.key_input(InputKey::Digit(9), false, false);
    ui.key_input(InputKey::Other, true, false);
    assert_eq!(typed(&ui), "25544");
    ui.key_input(InputKey::Backspace, true, false);
    assert_eq!(typed(&ui), "2554");
    ui.key_input(InputKey::Digit(4), true, false);
    ui.key_input(InputKey::Enter, true, false);
    assert!(ui.pending_add);

    let mut items: HashMap<u32, ()> = HashMap::new();
    let added = ui.take_pending_add(&items);
    assert_eq!(added.map(|(n, _)| n), Some(25544));
    assert!(!ui.pending_add);
    assert!(ui.input.is_empty());
    assert_eq!(ui.error, None);
    items.insert(25544, ());

    for c in "25544".chars() {
        ui.key_input(InputKey::Digit(c.to_digit(10).unwrap() as u8), true, false);
    }
    ui.key_input(InputKey::Enter, true, false);
    assert_eq!(ui.take_pending_add(&items), None);
    assert_eq!(ui.error.as_deref(), Some("Satellite already added"));
    assert_eq!(typed(&ui), "25544");
    assert_eq!(ui.take_pending_add(&items), None);

    let mut empty = RightPanelUI::new();
    empty.key_input(InputKey::Backspace, true, false);
    empty.key_input(InputKey::Enter, true, false);
    assert_eq!(empty.take_pending_add(&items), None);
    assert_eq!(empty.error.as_deref(), Some("Invalid NORAD ID"));
    empty.record_fetch_failure(7, "closed");
    assert_eq!(empty.error.as_deref(), Some("Failed to fetch NORAD 7: closed"));
}

#[test]
fn requesting_a_group() {
    let mut ui = RightPanelUI::new();
    assert_eq!(ui.request_group(), None);
    assert_eq!(ui.error.as_deref(), Some("Please select a group first"));
    ui.selected_group = Some("weather".to_string());
    assert_eq!(ui.request_group().as_deref(), Some("weather"));
    ui.record_group_request(None);
    assert!(ui.group_loading);
    assert_eq!(ui.error, None);
    assert_eq!(ui.request_group(), None);
    ui.group_loading = false;
    ui.record_group_request(Some("closed".to_string()));
    assert!(!ui.group_loading);
    assert_eq!(ui.error.as_deref(), Some("Failed to request group: closed"));
}

#[test]
fn tracking_and_removal() {
    let mut s = SelectedSatellite::new();
    s.toggle_tracking(5);
    assert_eq!(s, SelectedSatellite { selected: Some(5), tracking: Some(5), ..SelectedSatellite::new() });
    s.toggle_tracking(5);
    assert_eq!(s, SelectedSatellite { selected: Some(5), tracking: None, ..SelectedSatellite::new() });
    s.toggle_tracking(6);
    s.forget(5);
    assert_eq!(s, SelectedSatellite { selected: Some(6), tracking: Some(6), ..SelectedSatellite::new() });
    s.forget(6);
    assert_eq!(s, SelectedSatellite::new());
    s.toggle_tracking(8);
    s.stop_tracking();
    assert_eq!(s, SelectedSatellite { selected: Some(8), tracking: None, ..SelectedSatellite::new() });
}

use bevyearth::panel::{list_name, record_status, sorted_norads, track_label, SatStatus};
use bevyearth::time::UtcTimestamp;
use bevyearth::tle::store::SatRecord;

#[test]
fn satellite_list_rows() {
    assert_eq!(sorted_norads(&[44, 5, 25544, 7]), vec![5, 7, 44, 25544]);
    assert_eq!(sorted_norads(&[]), Vec::<u32>::new());
    assert_eq!(track_label(25544, true), "> 25544");
    assert_eq!(track_label(7, false), "7");
    let mut rec = SatRecord { name: None, epoch_utc: None, propagator: None, error: None };
    assert_eq!(record_status(&rec), SatStatus::Fetching);
    assert_eq!(list_name(&rec), "Unnamed");
    rec.epoch_utc = Some(UtcTimestamp { secs: 0, nanos: 0 });
    assert_eq!(record_status(&rec), SatStatus::Tle);
    rec.error = Some("bad".to_string());
    assert_eq!(record_status(&rec), SatStatus::Error);
    assert_eq!(SatStatus::Error.label(), "Error");
    assert_eq!(SatStatus::Ready.label(), "Ready");
    rec.name = Some("ISS".to_string());
    assert_eq!(list_name(&rec), "ISS");
}

use bevyearth::panel::{PanelKeys, PanelToggleKind, UIState};

#[test]
fn panel_toggles() {
    let mut ui = UIState::new();
    assert!(ui.show_top_panel && ui.show_bottom_panel && !ui.show_left_panel && !ui.show_right_panel);
    let keys = PanelKeys { h: true, j: false, k: false, l: true, v: true };
    ui.toggle_panels_keyboard(keys);
    assert!(ui.show_left_panel && !ui.show_bottom_panel && ui.crop_3d_viewport_to_ui && !ui.show_right_panel);
    ui.toggle_panels_keyboard(keys);
    assert_eq!(ui, UIState::new());
    ui.toggle_panel(PanelToggleKind::Right);
    assert!(ui.panel_shown(PanelToggleKind::Right));
    assert!(!ui.panel_shown(PanelToggleKind::Left));
    assert!(ui.panel_shown(PanelToggleKind::Bottom));
}

#[test]
fn k_key_toggles_the_top_panel() {
    let mut ui = UIState::new();
    let k = PanelKeys { h: false, j: false, k: true, l: false, v: false };
    ui.toggle_panels_keyboard(k);
    assert!(!ui.show_top_panel);
    assert!(ui.show_bottom_panel && !ui.show_left_panel && !ui.show_right_panel);
    ui.toggle_panels_keyboard(k);
    assert_eq!(ui, UIState::new());
}

use bevyearth::panel::clear_all;
use bevyearth::tle::store::{
    all_shown, click_satellite, new_record, set_all_shown, store_norads, SatEntry, TrackKind,
};

const ISS_L1: &str = "1 25544U 98067A   08264.51782528 -.00002182  00000-0 -11606-4 0  2927";
const ISS_L2: &str = "2 25544  51.6416 247.4627 0006703 130.5360 325.0288 15.72125391563537";

fn sat(norad: u32, ready: bool) -> SatEntry {
    let epoch = UtcTimestamp { secs: 1_222_000_000, nanos: 0 };
    let record = if ready {
        new_record(norad, None, ISS_L1, ISS_L2, epoch)
    } else {
        new_record(norad, None, "1 garbage", "2 garbage", epoch)
    };
    SatEntry {
        record,
        color: (0, 0, 0),
        group_url: None,
        show_ground_track: false,
        show_trail: false,
        is_clicked: false,
    }
}

#[test]
fn master_toggles_cover_satellites_with_a_propagator() {
    let mut store: HashMap<u32, SatEntry> = HashMap::new();
    assert!(!all_shown(&store, TrackKind::GroundTrack));
    store.insert(1, sat(1, true));
    store.insert(2, sat(2, false));
    store.insert(3, sat(3, true));
    let mut keys = store_norads(&store);
    keys.sort();
    assert_eq!(keys, vec![1, 2, 3]);
    assert!(!all_shown(&store, TrackKind::Trail));
    set_all_shown(&mut store, TrackKind::Trail, true);
    assert!(all_shown(&store, TrackKind::Trail));
    assert!(!all_shown(&store, TrackKind::GroundTrack));
    assert!(store[&1].show_trail && store[&3].show_trail);
    assert!(!store[&2].show_trail);
    store.get_mut(&3).unwrap().show_trail = false;
    assert!(!all_shown(&store, TrackKind::Trail));
    set_all_shown(&mut store, TrackKind::GroundTrack, true);
    set_all_shown(&mut store, TrackKind::GroundTrack, false);
    assert!(!store[&1].show_ground_track && !all_shown(&store, TrackKind::GroundTrack));
}

#[test]
fn clicking_marks_one_satellite() {
    let mut store: HashMap<u32, SatEntry> = HashMap::new();
    store.insert(1, sat(1, true));
    store.insert(2, sat(2, true));
    click_satellite(&mut store, 1);
    assert!(store[&1].is_clicked && !store[&2].is_clicked);
    click_satellite(&mut store, 2);
    assert!(!store[&1].is_clicked && store[&2].is_clicked);
    click_satellite(&mut store, 9);
    assert!(!store[&1].is_clicked && !store[&2].is_clicked);
}

#[test]
fn clear_all_empties_the_store_and_stops_tracking() {
    let mut store: HashMap<u32, SatEntry> = HashMap::new();
    store.insert(1, sat(1, true));
    let mut ui = RightPanelUI::new();
    ui.error = Some("Invalid NORAD ID".to_string());
    ui.selected_group = Some("weather".to_string());
    let mut selected = SelectedSatellite::new();
    selected.selected = Some(1);
    selected.tracking = Some(1);
    clear_all(&mut store, &mut ui, &mut selected);
    assert!(store.is_empty());
    assert_eq!(ui.error, None);
    assert_eq!(ui.selected_group.as_deref(), Some("weather"));
    assert_eq!(selected.tracking, None);
    assert_eq!(selected.selected, Some(1));
}
