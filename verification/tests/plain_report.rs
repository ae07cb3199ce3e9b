use padprobe::controls::{ChecklistItem, ChecklistStatus};
use padprobe::plain_report::{
    report_text, AxisLine, DriftLine, EventLine, RangeLine, TextReport, TimingLine,
};
use padprobe::report::DeviceReport;

fn limitations() -> Vec<String> {
    vec![
        "Values are normalized input reported through gilrs.".to_owned(),
        "Driver mappings, configured deadzones, Steam Input, transport, and OS scheduling can affect observations.".to_owned(),
        "Observed event timing is not an exact hardware polling rate.".to_owned(),
        "Diagnostic measurements do not by themselves identify physical wear or hardware failure.".to_owned(),
    ]
}

fn report() -> TextReport {
    TextReport {
        schema_version: 1,
        generated_at: "1970-01-01T00:00:00Z".to_owned(),
        version: "0.1.0".to_owned(),
        build_target: "x86_64-linux".to_owned(),
        operating_system: "linux".to_owned(),
        kernel_version: None,
        backend: "gilrs".to_owned(),
        session_duration_seconds: "0.00".to_owned(),
        device: Some(DeviceReport {
            backend_id: 3,
            name: "Fixture".to_owned(),
            vendor_id: Some(0x1234),
            product_id: Some(0x5678),
            uuid: "fixture".to_owned(),
            connected: true,
            mapping_source: "SDL mappings".to_owned(),
            power: "Wired".to_owned(),
            rumble_supported: true,
        }),
        axes: Vec::new(),
        observed_buttons: Vec::new(),
        pressed_buttons: Vec::new(),
        unknown_controls: Vec::new(),
        warnings: Vec::new(),
        recent_events: Vec::new(),
        drift: None,
        range: None,
        control_checklist: Vec::new(),
        event_timing: None,
        rumble_test_result: None,
        limitations: limitations(),
    }
}

fn states_measurement_limits() {
    let text = report_text(&report());

    assert!(text.contains("PadProbe diagnostic report"));
    assert!(text.contains("Observed event timing is not an exact hardware polling rate"));
}

fn includes_recent_warnings_and_events() {
    let mut report = report();
    report.warnings = vec!["Controller disconnected".to_owned()];
    report.recent_events = vec![EventLine {
        elapsed: "1.250".to_owned(),
        description: "ButtonPressed(South)".to_owned(),
    }];

    let text = report_text(&report);

    assert!(text.contains("Warnings\n- Controller disconnected"));
    assert!(text.contains("Recent events\n1.250  ButtonPressed(South)"));
}

#[test]
fn report_text_report_states_measurement_limits() {
    states_measurement_limits();
}

#[test]
fn tests_text_report_states_measurement_limits() {
    states_measurement_limits();
}

#[test]
fn report_text_report_includes_recent_warnings_and_events() {
    includes_recent_warnings_and_events();
}

#[test]
fn tests_text_report_includes_recent_warnings_and_events() {
    includes_recent_warnings_and_events();
}

#[test]
fn minimal_report_has_every_section_in_order() {
    let mut report = report();
    report.device = None;
    report.kernel_version = Some("6.1.0".to_owned());
    report.limitations = Vec::new();

    let expected = "PadProbe diagnostic report\nSchema: 1\nGenerated: 1970-01-01T00:00:00Z\n\
Version: 0.1.0\nTarget: x86_64-linux\nOS: linux (6.1.0)\nBackend: gilrs\nSession duration: 0.00 s\n\
\nDevice\nNo controller selected.\n\
\nObserved axes\n\
\nObserved buttons: none\nPressed buttons: none\nUnknown controls: none\n\
\nDiagnostic results\n\
\nLimitations\n";
    assert_eq!(report_text(&report), expected);
}

#[test]
fn full_report_writes_every_value() {
    let mut report = report();
    report.axes = vec![AxisLine {
        name: "LeftStickX".to_owned(),
        current: "+0.1000".to_owned(),
        minimum: "-0.5000".to_owned(),
        maximum: "+0.9000".to_owned(),
        changes: 42,
    }];
    report.observed_buttons = vec!["East".to_owned(), "South".to_owned()];
    report.pressed_buttons = vec!["South".to_owned()];
    report.drift = Some(DriftLine {
        sample_count: 900,
        mean_x: "+0.0100".to_owned(),
        mean_y: "-0.0200".to_owned(),
        percentile_95_radial: "0.0300".to_owned(),
        maximum_radial: "0.0400".to_owned(),
        suggested_inner_deadzone: "0.05".to_owned(),
    });
    report.range = Some(RangeLine {
        sample_count: 360,
        angular_coverage_percent: "100.0".to_owned(),
        circularity_deviation_percent: "1.50".to_owned(),
    });
    report.control_checklist = vec![
        ChecklistItem {
            key: "button:South".to_owned(),
            label: "South".to_owned(),
            status: ChecklistStatus::Observed,
            activation_count: 1,
            unexpected: false,
        },
        ChecklistItem {
            key: "button:East".to_owned(),
            label: "East".to_owned(),
            status: ChecklistStatus::Pending,
            activation_count: 0,
            unexpected: false,
        },
    ];
    report.event_timing = Some(TimingLine {
        events_per_second: "250.0".to_owned(),
        median_interval_ms: "4.000".to_owned(),
        percentile_95_interval_ms: "8.000".to_owned(),
    });
    report.rumble_test_result = Some("Rumble test completed".to_owned());

    let text = report_text(&report);

    assert!(text.contains("\nDevice\nName: Fixture\nBackend ID: 3\nVID:PID: 1234:5678\nUUID: fixture\nConnected: true\nMapping: SDL mappings\nPower: Wired\nRumble reported: true\n"));
    assert!(text.contains("LeftStickX: current +0.1000, range -0.5000…+0.9000, changes 42\n"));
    assert!(text.contains("Observed buttons: East, South\nPressed buttons: South\nUnknown controls: none\n"));
    assert!(text.contains("\nDiagnostic results\nResting displacement: 900 samples, mean (+0.0100, -0.0200), p95 radial 0.0300, max radial 0.0400, suggested deadzone 0.05\n\
Range: 360 samples, angular coverage 100.0%, circularity deviation 1.50%\n\
Control checklist: 1/2 observed\n\
Observed event timing: 250.0 events/s, median 4.000 ms, p95 8.000 ms\n\
Rumble: Rumble test completed\n\nLimitations\n- Values are normalized"));
    assert!(!text.contains("Warnings"));
    assert!(!text.contains("Recent events"));
}
