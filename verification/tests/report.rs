use padprobe::names::{button_name_lists, sorted_names, text_at_most};
use padprobe::app::{App, DeviceMetadata, DeviceState, EventEntry};
use padprobe::controls::{ChecklistItem, ChecklistStatus};
use padprobe::report::{
    format_optional_hex, is_warning, joined_or_none, observed_count, recent_events,
    recent_warnings, report_file_name, rumble_test_result, unknown_controls, DeviceReport, RECENT_EVENT_LIMIT,
    REPORT_SCHEMA_VERSION, WARNING_LIMIT,
};
use std::collections::VecDeque;
use std::time::Duration;

fn entry(sequence: u64, device_id: Option<usize>, description: &str) -> EventEntry {
    EventEntry {
        sequence,
        elapsed: Duration::from_millis(sequence * 10),
        device_id,
        description: description.to_owned(),
    }
}

fn item(key: &str, status: ChecklistStatus, unexpected: bool) -> ChecklistItem {
    ChecklistItem {
        key: key.to_owned(),
        label: key.trim_start_matches("button:").to_owned(),
        status,
        activation_count: 0,
        unexpected,
    }
}

#[test]
fn warnings_are_recognised_in_any_case() {
    assert!(is_warning("Controller DISCONNECTED"));
    assert!(is_warning("Rumble unsupported by this controller"));
    assert!(is_warning("Could Not start rumble"));
    assert!(is_warning("Dropped (backend queue overflow)"));
    assert!(is_warning("Drift test cancelled"));
    assert!(is_warning("Selected controller is unavailable"));
    assert!(!is_warning("ButtonPressed(South)"));
    assert!(!is_warning("Connected"));
}

#[test]
fn recent_warnings_are_newest_first_for_the_selected_controller() {
    let events = VecDeque::from(vec![
        entry(1, Some(1), "Connected"),
        entry(2, Some(1), "Rumble unsupported"),
        entry(3, Some(2), "Disconnected"),
        entry(4, Some(1), "Dropped (backend queue overflow)"),
        entry(5, None, "Could not open log"),
    ]);

    let warnings = recent_warnings(&events, Some(1));

    assert_eq!(
        warnings,
        vec!["Dropped (backend queue overflow)", "Rumble unsupported"]
    );
    assert_eq!(recent_warnings(&events, None), vec!["Could not open log"]);
}

#[test]
fn recent_warnings_are_limited() {
    let events = (0..30u64)
        .map(|index| entry(index, Some(1), &format!("Disconnected {index}")))
        .collect::<VecDeque<_>>();

    let warnings = recent_warnings(&events, Some(1));

    assert_eq!(warnings.len(), WARNING_LIMIT);
    assert_eq!(warnings[0], "Disconnected 29");
    assert_eq!(warnings[WARNING_LIMIT - 1], "Disconnected 10");
}

#[test]
fn recent_events_keep_the_newest_in_order() {
    let mut events = (0..60u64)
        .map(|index| entry(index, Some(1), &format!("event {index}")))
        .collect::<VecDeque<_>>();
    events.push_back(entry(60, Some(2), "other controller"));

    let recent = recent_events(&events, Some(1));

    assert_eq!(recent.len(), RECENT_EVENT_LIMIT);
    assert_eq!(recent[0].description, "event 10");
    assert_eq!(recent[0].elapsed, Duration::from_millis(100));
    assert_eq!(recent[RECENT_EVENT_LIMIT - 1].description, "event 59");
    assert!(recent.iter().all(|event| event.device_id == Some(1)));
}

#[test]
fn few_recent_events_are_all_listed() {
    let events = VecDeque::from(vec![
        entry(1, Some(1), "a"),
        entry(2, Some(3), "b"),
        entry(3, Some(1), "c"),
    ]);

    let recent = recent_events(&events, Some(1));

    let descriptions = recent
        .iter()
        .map(|event| event.description.as_str())
        .collect::<Vec<_>>();
    assert_eq!(descriptions, vec!["a", "c"]);
}

#[test]
fn rumble_result_is_the_newest_rumble_event() {
    let events = VecDeque::from(vec![
        entry(1, Some(1), "Rumble test started"),
        entry(2, Some(1), "ButtonPressed(South)"),
        entry(3, Some(1), "RUMBLE effect finished"),
        entry(4, Some(1), "AxisChanged(LeftStickX, +0.100)"),
    ]);

    assert_eq!(
        rumble_test_result(&events).as_deref(),
        Some("RUMBLE effect finished")
    );
    assert_eq!(rumble_test_result(&VecDeque::new()), None);
}

#[test]
fn unknown_controls_are_the_unexpected_entries() {
    let items = vec![
        item("button:South", ChecklistStatus::Observed, false),
        item("button:C", ChecklistStatus::Observed, true),
        item("button:East", ChecklistStatus::Pending, false),
        item("button:Z", ChecklistStatus::Observed, true),
    ];

    assert_eq!(unknown_controls(&items), vec!["C", "Z"]);
    assert_eq!(observed_count(&items), 3);
    assert_eq!(observed_count(&[]), 0);
}

#[test]
fn identifiers_are_four_hex_digits() {
    assert_eq!(format_optional_hex(Some(0x045e)), "045e");
    assert_eq!(format_optional_hex(Some(0xBEEF)), "beef");
    assert_eq!(format_optional_hex(Some(0)), "0000");
    assert_eq!(format_optional_hex(None), "unknown");
}

#[test]
fn lists_are_joined_or_none() {
    assert_eq!(joined_or_none(&[]), "none");
    assert_eq!(joined_or_none(&["South".to_owned()]), "South");
    assert_eq!(
        joined_or_none(&["South".to_owned(), "East".to_owned(), "North".to_owned()]),
        "South, East, North"
    );
}

#[test]
fn device_report_copies_the_metadata() {
    let device = DeviceState {
        metadata: DeviceMetadata {
            name: "Fixture".to_owned(),
            vendor_id: Some(0x045e),
            product_id: None,
            uuid: "ab".repeat(16),
            mapping: "SDL".to_owned(),
            power: "Wired".to_owned(),
            rumble_supported: true,
        },
        connected: true,
    };

    let report = DeviceReport::from_device(3, &device);

    assert_eq!(report.backend_id, 3);
    assert_eq!(report.name, "Fixture");
    assert_eq!(report.vendor_id, Some(0x045e));
    assert_eq!(report.product_id, None);
    assert_eq!(report.uuid, "ab".repeat(16));
    assert!(report.connected);
    assert_eq!(report.mapping_source, "SDL");
    assert_eq!(report.power, "Wired");
    assert!(report.rumble_supported);
    assert_eq!(REPORT_SCHEMA_VERSION, 1);
}

#[test]
fn report_selection_reads_the_app_log() {
    let mut app: App<(f32, f32)> = App::new();
    app.push_event(None, "Rumble unsupported".to_owned());

    assert_eq!(recent_warnings(&app.events, None), vec!["Rumble unsupported"]);
    assert_eq!(
        rumble_test_result(&app.events).as_deref(),
        Some("Rumble unsupported")
    );
}

#[test]
fn report_files_are_named_by_export_time() {
    assert_eq!(report_file_name(1_700_000_000_123, "json"), "padprobe-report-1700000000123.json");
    assert_eq!(report_file_name(0, "txt"), "padprobe-report-0.txt");
    assert_eq!(report_file_name(907, "txt"), "padprobe-report-907.txt");
}

#[test]
fn button_lists_are_sorted_and_pressed_ones_picked() {
    let buttons = vec![
        ("South".to_owned(), true),
        ("DPadUp".to_owned(), false),
        ("East".to_owned(), true),
        ("Mode".to_owned(), false),
    ];

    let (seen, pressed) = button_name_lists(&buttons);

    assert_eq!(seen, vec!["DPadUp", "East", "Mode", "South"]);
    assert_eq!(pressed, vec!["East", "South"]);
    assert_eq!(
        sorted_names(&["b".to_owned(), "a".to_owned(), "ab".to_owned(), "B".to_owned()]),
        vec!["B", "a", "ab", "b"]
    );
    assert!(text_at_most("ab", "abc"));
    assert!(!text_at_most("b", "ab"));
    assert!(text_at_most("", ""));
}
