use padprobe::app::{
    format_uuid, App, AppTab, DeviceMetadata, EventDeviceFilter, EventEntry, EventKindFilter,
    EVENT_CAPACITY,
};
use padprobe::controls::ChecklistStatus;
use padprobe::drift::{DriftView, StickSide, COUNTDOWN_NANOS, SAMPLE_INTERVAL_NANOS, SAMPLE_NANOS};
use padprobe::range::RangeView;
use std::time::Duration;

type Sample = (f32, f32);

fn metadata(name: &str) -> DeviceMetadata {
    DeviceMetadata {
        name: name.to_owned(),
        vendor_id: None,
        product_id: None,
        uuid: "00".repeat(16),
        mapping: "none".to_owned(),
        power: "Unknown".to_owned(),
        rumble_supported: false,
    }
}

fn new_app() -> App<Sample> {
    App::new()
}

#[test]
fn connection_selects_first_connected_device() {
    let mut app = new_app();
    app.connect(4, metadata("first"));
    app.connect(8, metadata("second"));

    assert_eq!(app.selected_id, Some(4));
}

#[test]
fn tests_selects_first_connected_device() {
    let mut app = new_app();
    app.connect(4, metadata("first"));
    app.connect(8, metadata("second"));

    assert_eq!(app.selected_id, Some(4));
}

#[test]
fn device_selects_first_connected_device() {
    let mut app = new_app();
    app.connect(4, metadata("first"));
    app.connect(8, metadata("second"));

    assert_eq!(app.selected_id, Some(4));
}

#[test]
fn connection_keeps_disconnected_device_selected() {
    let mut app = new_app();
    app.connect(4, metadata("first"));
    app.connect(8, metadata("second"));

    app.disconnect(4);

    assert_eq!(app.selected_id, Some(4));
    assert!(!app.devices[&4].connected);
}

#[test]
fn tests_keeps_disconnected_device_selected() {
    let mut app = new_app();
    app.connect(4, metadata("first"));
    app.connect(8, metadata("second"));

    app.disconnect(4);

    assert_eq!(app.selected_id, Some(4));
    assert!(!app.devices[&4].connected);
}

#[test]
fn device_keeps_disconnected_device_selected() {
    let mut app = new_app();
    app.connect(4, metadata("first"));
    app.connect(8, metadata("second"));

    app.disconnect(4);

    assert_eq!(app.selected_id, Some(4));
    assert!(!app.devices[&4].connected);
}

#[test]
fn connecting_logs_and_reports_status() {
    let mut app = new_app();
    app.connect(3, metadata("Pad"));

    assert_eq!(app.status, "Pad connected");
    assert_eq!(app.events.len(), 1);
    assert_eq!(app.events[0].description, "Connected");
    assert_eq!(app.events[0].device_id, Some(3));
    assert_eq!(app.device_order, vec![3]);

    app.connect(3, metadata("Pad again"));
    assert_eq!(app.device_order, vec![3]);
    assert_eq!(app.devices[&3].metadata.name, "Pad again");
}

#[test]
fn disconnect_of_unknown_controller_changes_nothing() {
    let mut app = new_app();
    app.connect(1, metadata("first"));
    let logged = app.events.len();

    app.disconnect(9);

    assert_eq!(app.events.len(), logged);
    assert!(app.devices[&1].connected);
}

#[test]
fn disconnect_stops_tests_running_on_the_controller() {
    let mut app = new_app();
    app.connect(1, metadata("first"));
    app.start_drift_test(0);
    assert_eq!(app.drift_test.device_id(), Some(1));

    app.disconnect(1);

    assert_eq!(app.drift_test.device_id(), None);
    assert!(matches!(app.drift_test.view(0), DriftView::Ready));
}

#[test]
fn navigation_navigation_explicitly_leaves_disconnected_selection() {
    let mut app = new_app();
    app.connect(4, metadata("first"));
    app.connect(8, metadata("second"));
    app.disconnect(4);

    app.select_next();

    assert_eq!(app.selected_id, Some(8));
}

#[test]
fn tests_navigation_explicitly_leaves_disconnected_selection() {
    let mut app = new_app();
    app.connect(4, metadata("first"));
    app.connect(8, metadata("second"));
    app.disconnect(4);

    app.select_next();

    assert_eq!(app.selected_id, Some(8));
}

#[test]
fn navigation_device_selector_visibility_is_explicit() {
    let mut app = new_app();

    app.open_device_selector();
    assert!(app.device_selector_visible);

    app.close_device_selector();
    assert!(!app.device_selector_visible);
}

#[test]
fn tests_device_selector_visibility_is_explicit() {
    let mut app = new_app();

    app.open_device_selector();
    assert!(app.device_selector_visible);

    app.close_device_selector();
    assert!(!app.device_selector_visible);
}

#[test]
fn navigation_tab_navigation_wraps_in_both_directions() {
    let mut app = new_app();

    app.select_previous_tab();
    assert_eq!(app.active_tab, AppTab::Timing);
    app.select_next_tab();
    assert_eq!(app.active_tab, AppTab::Dashboard);
}

#[test]
fn tests_tab_navigation_wraps_in_both_directions() {
    let mut app = new_app();

    app.select_previous_tab();
    assert_eq!(app.active_tab, AppTab::Timing);
    app.select_next_tab();
    assert_eq!(app.active_tab, AppTab::Dashboard);
}

#[test]
fn every_tab_comes_back_after_a_full_cycle() {
    let mut app = new_app();
    let mut seen = Vec::new();
    for _ in 0..5 {
        seen.push(app.active_tab);
        app.select_next_tab();
    }

    assert_eq!(app.active_tab, AppTab::Dashboard);
    for (index, tab) in seen.iter().enumerate() {
        for other in &seen[index + 1..] {
            assert_ne!(tab, other);
        }
    }
}

#[test]
fn selection_wraps_between_connected_controllers() {
    let mut app = new_app();
    app.connect(1, metadata("a"));
    app.connect(2, metadata("b"));
    app.connect(3, metadata("c"));

    app.select_previous();
    assert_eq!(app.selected_id, Some(3));
    app.select_next();
    assert_eq!(app.selected_id, Some(1));
    app.select_next();
    assert_eq!(app.selected_id, Some(2));
}

#[test]
fn tests_event_history_evicts_oldest_entry() {
    let mut app = new_app();
    app.connect(1, metadata("controller"));

    for index in 0..EVENT_CAPACITY {
        app.push_event(Some(1), format!("event {index}"));
    }

    assert_eq!(app.events.len(), EVENT_CAPACITY);
    assert_eq!(app.events.front().expect("an event").description, "event 0");
    assert_eq!(app.evicted_event_count, 1);
}

#[test]
fn events_event_history_evicts_oldest_entry() {
    let mut app = new_app();
    app.connect(1, metadata("controller"));

    for index in 0..EVENT_CAPACITY {
        app.push_event(Some(1), format!("event {index}"));
    }

    assert_eq!(app.events.len(), EVENT_CAPACITY);
    assert_eq!(app.events.front().expect("an event").description, "event 0");
    assert_eq!(app.evicted_event_count, 1);
}

#[test]
fn event_sequences_increase_along_the_log() {
    let mut app = new_app();
    for index in 0..300 {
        app.push_event(None, format!("event {index}"));
    }

    assert_eq!(app.events.len(), EVENT_CAPACITY);
    assert_eq!(app.evicted_event_count, 44);
    assert_eq!(app.events.back().expect("an event").sequence, 300);
    for pair in app.events.iter().collect::<Vec<_>>().windows(2) {
        assert!(pair[0].sequence < pair[1].sequence);
    }
}

fn filtered_app() -> App<Sample> {
    let mut app = new_app();
    app.connect(1, metadata("first"));
    app.connect(2, metadata("second"));
    app.selected_id = Some(1);
    app.event_kind_filter = EventKindFilter::Axes;
    app.event_device_filter = EventDeviceFilter::Selected;
    app.event_search = "leftstick".to_owned();
    app
}

fn axis_event(device_id: Option<usize>) -> EventEntry {
    EventEntry {
        sequence: 1,
        elapsed: Duration::ZERO,
        device_id,
        description: "AxisChanged(LeftStickX, +0.100)".to_owned(),
    }
}

#[test]
fn tests_event_filters_combine_kind_device_and_search() {
    let app = filtered_app();
    let visible = axis_event(Some(1));
    let other_device = EventEntry {
        device_id: Some(2),
        ..visible.clone()
    };

    assert!(app.event_is_visible(&visible));
    assert!(!app.event_is_visible(&other_device));
}

#[test]
fn events_event_filters_combine_kind_device_and_search() {
    let app = filtered_app();
    let visible = axis_event(Some(1));
    let other_device = EventEntry {
        device_id: Some(2),
        ..visible.clone()
    };

    assert!(app.event_is_visible(&visible));
    assert!(!app.event_is_visible(&other_device));
}

#[test]
fn search_ignores_case_and_kind_filter_applies() {
    let mut app = filtered_app();
    app.event_search = "LEFTSTICKX".to_owned();
    assert!(app.event_is_visible(&axis_event(Some(1))));

    app.event_search = "rightstick".to_owned();
    assert!(!app.event_is_visible(&axis_event(Some(1))));

    app.event_search = String::new();
    app.event_kind_filter = EventKindFilter::Buttons;
    assert!(!app.event_is_visible(&axis_event(Some(1))));
    app.event_kind_filter = EventKindFilter::System;
    assert!(!app.event_is_visible(&axis_event(Some(1))));
    app.event_kind_filter = EventKindFilter::All;
    app.event_device_filter = EventDeviceFilter::All;
    assert!(app.event_is_visible(&axis_event(Some(2))));
}

#[test]
fn kind_filter_cycles_through_four_filters() {
    let mut app = new_app();
    let mut labels = Vec::new();
    for _ in 0..4 {
        app.cycle_event_kind_filter();
        labels.push(app.event_kind_filter.label());
    }

    assert_eq!(labels, vec!["buttons", "axes", "system", "all"]);
    assert_eq!(EventKindFilter::System.next(), EventKindFilter::All);
}

#[test]
fn device_filter_toggles_and_reports() {
    let mut app = new_app();

    app.toggle_event_device_filter();
    assert_eq!(app.event_device_filter, EventDeviceFilter::Selected);
    assert_eq!(app.status, "Event filter: selected controller only");

    app.toggle_event_device_filter();
    assert_eq!(app.event_device_filter, EventDeviceFilter::All);
    assert_eq!(app.status, "Event filter: all controllers");
}

#[test]
fn tests_pausing_events_captures_current_sequence() {
    let mut app = new_app();
    app.connect(1, metadata("controller"));

    app.toggle_event_scroll();
    let anchor = app.event_scroll_anchor.expect("paused");
    app.push_event(Some(1), "later event".to_owned());

    assert_eq!(app.event_scroll_anchor, Some(anchor));
    assert!(app.events.back().expect("an event").sequence > anchor);
}

#[test]
fn events_pausing_events_captures_current_sequence() {
    let mut app = new_app();
    app.connect(1, metadata("controller"));

    app.toggle_event_scroll();
    let anchor = app.event_scroll_anchor.expect("paused");
    app.push_event(Some(1), "later event".to_owned());

    assert_eq!(app.event_scroll_anchor, Some(anchor));
    assert!(app.events.back().expect("an event").sequence > anchor);
}

#[test]
fn tests_pausing_an_empty_log_hides_later_events() {
    let mut app = new_app();

    app.toggle_event_scroll();
    app.push_event(None, "later event".to_owned());

    let anchor = app.event_scroll_anchor.expect("paused");
    assert!(app
        .events
        .back()
        .is_some_and(|event| event.sequence > anchor));
}

#[test]
fn events_pausing_an_empty_log_hides_later_events() {
    let mut app = new_app();

    app.toggle_event_scroll();
    app.push_event(None, "later event".to_owned());

    let anchor = app.event_scroll_anchor.expect("paused");
    assert!(app
        .events
        .back()
        .is_some_and(|event| event.sequence > anchor));
}

#[test]
fn scrolling_stops_at_the_oldest_event_and_resumes() {
    let mut app = new_app();
    for index in 0..3 {
        app.push_event(None, format!("event {index}"));
    }

    for _ in 0..5 {
        app.scroll_events_older();
    }
    assert_eq!(app.event_scroll_offset, 2);
    assert_eq!(app.event_scroll_anchor, Some(3));

    app.scroll_events_newer();
    assert_eq!(app.event_scroll_offset, 1);

    app.toggle_event_scroll();
    assert_eq!(app.event_scroll_anchor, None);
    assert_eq!(app.event_scroll_offset, 0);
}

#[test]
fn clearing_events_empties_the_log_and_resumes() {
    let mut app = new_app();
    for index in 0..4 {
        app.push_event(None, format!("event {index}"));
    }
    app.scroll_events_older();

    app.clear_events();

    assert!(app.events.is_empty());
    assert_eq!(app.evicted_event_count, 0);
    assert_eq!(app.event_scroll_anchor, None);
    assert_eq!(app.status, "Event history cleared");
    app.push_event(None, "after".to_owned());
    assert_eq!(app.events[0].sequence, 5);
}

#[test]
fn notices_go_to_status_and_log() {
    let mut app = new_app();
    app.connect(2, metadata("pad"));

    app.record_notice("Something happened");

    assert_eq!(app.status, "Something happened");
    let last = app.events.back().expect("an event");
    assert_eq!(last.description, "Something happened");
    assert_eq!(last.device_id, Some(2));
}

#[test]
fn timing_uses_selected_button_and_axis_events() {
    let mut app = new_app();
    assert!(app.selected_timing_events().is_none());
    app.connect(1, metadata("pad"));
    app.connect(2, metadata("other"));
    app.push_event(Some(1), "ButtonPressed(South)".to_owned());
    app.push_event(Some(2), "ButtonPressed(East)".to_owned());
    app.push_event(Some(1), "Dropped (backend queue overflow)".to_owned());
    app.push_event(Some(1), "AxisChanged(LeftStickX, +0.500)".to_owned());

    let events = app.selected_timing_events().expect("a controller is selected");

    let descriptions = events
        .iter()
        .map(|event| event.description.as_str())
        .collect::<Vec<_>>();
    assert_eq!(
        descriptions,
        vec!["ButtonPressed(South)", "AxisChanged(LeftStickX, +0.500)"]
    );
}

#[test]
fn drift_test_runs_through_the_app() {
    let mut app = new_app();
    app.connect(5, metadata("pad"));
    app.select_drift_stick(StickSide::Right);
    app.start_drift_test(100);
    assert_eq!(app.drift_test.side(), StickSide::Right);
    assert_eq!(app.drift_test.device_id(), Some(5));

    app.update_diagnostics(100 + COUNTDOWN_NANOS, Some((0.01, 0.0)));
    app.update_diagnostics(100 + COUNTDOWN_NANOS + SAMPLE_INTERVAL_NANOS, Some((0.02, 0.0)));
    app.update_diagnostics(100 + COUNTDOWN_NANOS + SAMPLE_NANOS, Some((0.03, 0.0)));

    let samples = app.drift_test.result().expect("the test completed");
    assert_eq!(samples, &[(0.01, 0.0), (0.02, 0.0)]);
}

#[test]
fn drift_test_needs_a_selected_controller() {
    let mut app = new_app();
    app.start_drift_test(0);

    assert_eq!(app.drift_test.device_id(), None);
    assert!(matches!(app.drift_test.view(0), DriftView::Ready));
}

#[test]
fn range_test_records_events_of_its_controller() {
    let mut app = new_app();
    app.connect(4, metadata("pad"));
    app.toggle_range_test(false);
    assert!(app.range_test.is_recording());

    assert!(app.record_controller_event(4, Some((1.0, 0.0)), None, "AxisChanged".to_owned()));
    assert!(!app.record_controller_event(9, Some((1.0, 0.0)), None, "AxisChanged".to_owned()));
    app.toggle_range_test(true);

    assert!(matches!(app.range_test.view(), RangeView::Complete { trace } if trace.len() == 1));
}

#[test]
fn checklist_observes_controller_events() {
    let mut app = new_app();
    app.connect(4, metadata("pad"));
    app.start_control_checklist(Vec::new());
    assert!(app.control_checklist.is_active());

    app.record_controller_event(4, None, Some("button:South"), "ButtonPressed(South)".to_owned());

    let south = &app.control_checklist.items()[0];
    assert_eq!(south.key, "button:South");
    assert_eq!(south.status, ChecklistStatus::Observed);

    app.finish_control_checklist();
    assert!(!app.control_checklist.is_active());
}

#[test]
fn resetting_observations_needs_a_selected_controller() {
    let mut app = new_app();
    assert_eq!(app.reset_selected_observations(), None);

    app.connect(6, metadata("pad"));
    assert_eq!(app.reset_selected_observations(), Some(6));
}

#[test]
fn uuid_is_written_as_lowercase_hex() {
    let mut bytes = [0u8; 16];
    bytes[0] = 0xab;
    bytes[15] = 0x0f;

    assert_eq!(format_uuid(bytes), "ab00000000000000000000000000000f");
}

#[test]
fn selected_device_follows_the_selection() {
    let mut app = new_app();
    assert!(app.selected_device().is_none());
    app.connect(2, metadata("pad"));

    let (id, device) = app.selected_device().expect("selected");
    assert_eq!(id, 2);
    assert_eq!(device.metadata.name, "pad");

    app.selected_id = Some(7);
    assert!(app.selected_device().is_none());
}

#[test]
fn event_window_shows_the_newest_matching_lines() {
    let mut app = new_app();
    for index in 0..6 {
        app.push_event(Some(1), format!("event {index}"));
    }
    app.push_event(Some(2), "other".to_owned());

    assert_eq!(app.event_window(3), vec![4, 5, 6]);

    app.event_device_filter = EventDeviceFilter::Selected;
    app.selected_id = Some(1);
    assert_eq!(app.event_window(3), vec![3, 4, 5]);

    app.event_scroll_offset = 2;
    assert_eq!(app.event_window(3), vec![1, 2, 3]);

    app.event_scroll_offset = 0;
    app.event_scroll_anchor = Some(2);
    assert_eq!(app.event_window(10), vec![0, 1]);

    app.event_scroll_offset = 9;
    assert!(app.event_window(10).is_empty());
}
