use padprobe::controls::{display_label, ChecklistStatus, ControlChecklist};
use padprobe::drift::{
    DriftTest, DriftView, StickSide, COUNTDOWN_NANOS, SAMPLE_INTERVAL_NANOS, SAMPLE_NANOS,
};
use padprobe::range::{RangeTest, RangeView, MAX_RANGE_SAMPLES};
use padprobe::trace::{StickTrace, TRACE_CAPACITY};
use padprobe::timing::{
    interval_histogram, percentile_index, repeated_signature_count, TimingHistogram,
};

type Sample = (f32, f32);

fn started_checklist() -> ControlChecklist {
    let mut checklist = ControlChecklist::default();
    checklist.start(1, Vec::new());
    checklist
}

#[test]
fn controls_repeated_activation_updates_one_item() {
    let mut checklist = started_checklist();

    checklist.observe(1, "button:South");
    checklist.observe(1, "button:South");

    let south = &checklist.items()[0];
    assert_eq!(south.status, ChecklistStatus::Observed);
    assert_eq!(south.activation_count, 2);
    assert_eq!(
        checklist
            .items()
            .iter()
            .filter(|item| item.key == "button:South")
            .count(),
        1
    );
}

#[test]
fn tests_repeated_activation_updates_one_item() {
    let mut checklist = started_checklist();

    checklist.observe(1, "button:South");
    checklist.observe(1, "button:South");

    let south = &checklist.items()[0];
    assert_eq!(south.status, ChecklistStatus::Observed);
    assert_eq!(south.activation_count, 2);
    assert_eq!(
        checklist
            .items()
            .iter()
            .filter(|item| item.key == "button:South")
            .count(),
        1
    );
}

#[test]
fn controls_unexpected_control_is_retained() {
    let mut checklist = started_checklist();

    checklist.observe(1, "button:Unknown");

    assert!(checklist
        .items()
        .iter()
        .any(|item| item.key == "button:Unknown" && item.unexpected));
}

#[test]
fn tests_unexpected_control_is_retained() {
    let mut checklist = started_checklist();

    checklist.observe(1, "button:Unknown");

    assert!(checklist
        .items()
        .iter()
        .any(|item| item.key == "button:Unknown" && item.unexpected));
}

#[test]
fn observations_of_other_controllers_are_ignored() {
    let mut checklist = started_checklist();

    checklist.observe(2, "button:South");
    assert_eq!(checklist.items()[0].status, ChecklistStatus::Pending);

    checklist.finish();
    checklist.observe(1, "button:South");
    assert_eq!(checklist.items()[0].status, ChecklistStatus::Pending);
    assert!(!checklist.is_active());
}

#[test]
fn start_keeps_expected_controls_first_and_adds_observed_extras() {
    let mut checklist = ControlChecklist::default();
    checklist.start(
        3,
        vec![
            "button:South".to_owned(),
            "button:C".to_owned(),
            "button:C".to_owned(),
        ],
    );

    let items = checklist.items();
    assert_eq!(items[0].key, "button:South");
    assert!(!items[0].unexpected);
    let extras = items.iter().filter(|item| item.unexpected).collect::<Vec<_>>();
    assert_eq!(extras.len(), 1);
    assert_eq!(extras[0].key, "button:C");
    assert_eq!(extras[0].label, "C");
    assert_eq!(items.last().map(|item| item.key.as_str()), Some("button:C"));
    assert_eq!(checklist.device_id(), Some(3));
    assert!(checklist.is_active());
    assert_eq!(checklist.selected(), 0);
}

#[test]
fn selection_wraps_and_skipping_marks_pending_entries() {
    let mut checklist = started_checklist();
    let count = checklist.items().len();

    checklist.select_previous();
    assert_eq!(checklist.selected(), count - 1);
    checklist.select_next();
    assert_eq!(checklist.selected(), 0);

    checklist.skip_selected();
    assert_eq!(checklist.items()[0].status, ChecklistStatus::Skipped);
    checklist.select_next();
    checklist.observe(1, "button:East");
    checklist.skip_selected();
    assert_eq!(checklist.items()[1].status, ChecklistStatus::Observed);

    let (observed, pending, skipped) = checklist.counts();
    assert_eq!((observed, skipped), (1, 1));
    assert_eq!(observed + pending + skipped, count);
}

#[test]
fn cancel_detaches_the_checklist() {
    let mut checklist = started_checklist();
    checklist.cancel();

    assert_eq!(checklist.device_id(), None);
    assert!(!checklist.is_active());
}

#[test]
fn labels_drop_the_kind_prefix() {
    assert_eq!(display_label("button:South"), "South");
    assert_eq!(display_label("axis:LeftZ:extra"), "LeftZ:extra");
    assert_eq!(display_label("plain"), "plain");
}

fn drift_samples_current_state_after_countdown() {
    let start: u64 = 1_000;
    let mut test: DriftTest<Sample> = DriftTest::new();
    test.start(7, start);

    test.tick(start + COUNTDOWN_NANOS, Some((0.01, 0.02)));
    assert!(matches!(
        test.view(start + COUNTDOWN_NANOS),
        DriftView::Sampling {
            sample_count: 1,
            ..
        }
    ));
    assert!(test.tick(start + COUNTDOWN_NANOS + SAMPLE_NANOS, Some((0.01, 0.02))));
    assert!(matches!(
        test.view(start + COUNTDOWN_NANOS + SAMPLE_NANOS),
        DriftView::Complete(_)
    ));
}

#[test]
fn drift_test_samples_current_state_after_countdown() {
    drift_samples_current_state_after_countdown();
}

#[test]
fn session_test_samples_current_state_after_countdown() {
    drift_samples_current_state_after_countdown();
}

#[test]
fn tests_test_samples_current_state_after_countdown() {
    drift_samples_current_state_after_countdown();
}

#[test]
fn drift_countdown_reports_remaining_time() {
    let mut test: DriftTest<Sample> = DriftTest::new();
    test.start(1, 500);

    assert!(!test.tick(600, Some((0.5, 0.5))));
    assert!(matches!(
        test.view(600),
        DriftView::Countdown {
            remaining: 2_999_999_900
        }
    ));
}

#[test]
fn drift_takes_one_sample_per_interval() {
    let mut test: DriftTest<Sample> = DriftTest::new();
    test.start(1, 0);
    let begin = COUNTDOWN_NANOS;

    test.tick(begin, Some((0.1, 0.0)));
    test.tick(begin + 1, Some((0.2, 0.0)));
    test.tick(begin + SAMPLE_INTERVAL_NANOS, Some((0.3, 0.0)));
    test.tick(begin + 5 * SAMPLE_INTERVAL_NANOS, Some((0.4, 0.0)));
    test.tick(begin + 5 * SAMPLE_INTERVAL_NANOS + 1, Some((0.5, 0.0)));
    test.tick(begin + 6 * SAMPLE_INTERVAL_NANOS, None);

    assert!(test.tick(begin + SAMPLE_NANOS, Some((0.9, 0.0))));
    assert_eq!(test.result(), Some(&[(0.1, 0.0), (0.3, 0.0), (0.4, 0.0)][..]));
}

#[test]
fn drift_without_samples_is_abandoned() {
    let mut test: DriftTest<Sample> = DriftTest::new();
    test.start(1, 0);

    test.tick(COUNTDOWN_NANOS, None);
    assert!(!test.tick(COUNTDOWN_NANOS + SAMPLE_NANOS, None));

    assert!(matches!(test.view(COUNTDOWN_NANOS + SAMPLE_NANOS), DriftView::Ready));
    assert_eq!(test.device_id(), None);
    assert!(test.result().is_none());
}

#[test]
fn drift_side_changes_only_when_idle() {
    let mut test: DriftTest<Sample> = DriftTest::new();
    test.select_side(StickSide::Right);
    assert_eq!(test.side(), StickSide::Right);

    test.start(1, 0);
    test.select_side(StickSide::Left);
    assert_eq!(test.side(), StickSide::Right);

    test.cancel();
    assert_eq!(test.device_id(), None);
    assert_eq!(StickSide::Right.label(), "Right");
    assert_eq!(StickSide::Left.label(), "Left");
}

#[test]
fn test_retains_result_after_recording() {
    let mut test: RangeTest<Sample> = RangeTest::new();
    test.start(4);
    for degree in 0_u16..360 {
        let angle = f32::from(degree).to_radians();
        test.record(4, (angle.cos(), angle.sin()));
    }

    assert!(test.finish(true));
    assert!(matches!(test.view(), RangeView::Complete { .. }));
}

#[test]
fn range_ignores_other_controllers_and_caps_samples() {
    let mut test: RangeTest<Sample> = RangeTest::new();
    test.start(4);
    test.record(5, (1.0, 0.0));
    assert!(matches!(test.view(), RangeView::Recording { sample_count: 0, .. }));

    for _ in 0..(MAX_RANGE_SAMPLES + 3) {
        test.record(4, (1.0, 0.0));
    }
    assert!(matches!(
        test.view(),
        RangeView::Recording {
            sample_count: MAX_RANGE_SAMPLES,
            ..
        }
    ));
    assert!(test.is_recording());
}

#[test]
fn range_without_edge_is_abandoned() {
    let mut test: RangeTest<Sample> = RangeTest::new();
    test.start(2);
    test.record(2, (0.1, 0.1));

    assert!(!test.finish(false));
    assert!(matches!(test.view(), RangeView::Ready));
    assert_eq!(test.device_id(), None);

    assert!(!test.finish(true));
}

#[test]
fn percentile_reads_the_nearest_rank() {
    assert_eq!(percentile_index(1, 95), 0);
    assert_eq!(percentile_index(10, 50), 5);
    assert_eq!(percentile_index(10, 95), 9);
    assert_eq!(percentile_index(101, 99), 99);
    assert_eq!(percentile_index(0, 50), 0);
}

#[test]
fn repeated_signatures_count_equal_neighbours() {
    let signatures = ["x=0", "x=0", "x=1", "x=1", "x=1", "x=0"]
        .iter()
        .map(|text| (*text).to_owned())
        .collect::<Vec<_>>();

    assert_eq!(repeated_signature_count(&signatures), 3);
    assert_eq!(repeated_signature_count(&signatures[..1]), 0);
}

#[test]
fn intervals_are_counted_by_length_band() {
    let ms = 1_000_000u64;
    let times = [0, ms, 3 * ms, 8 * ms, 20 * ms, 45 * ms, 95 * ms, 94 * ms];

    let histogram = interval_histogram(&times);

    assert_eq!(
        histogram,
        TimingHistogram {
            under_2_ms: 2,
            from_2_to_5_ms: 1,
            from_5_to_10_ms: 1,
            from_10_to_20_ms: 1,
            from_20_to_50_ms: 1,
            at_least_50_ms: 1,
        }
    );
    let total = histogram.under_2_ms
        + histogram.from_2_to_5_ms
        + histogram.from_5_to_10_ms
        + histogram.from_10_to_20_ms
        + histogram.from_20_to_50_ms
        + histogram.at_least_50_ms;
    assert_eq!(total, times.len() - 1);
    assert_eq!(interval_histogram(&[5]), TimingHistogram::default());
}

fn bounded_trace() {
    let mut trace: StickTrace<(f64, f64)> = StickTrace::default();

    for index in 0_u16..512 {
        trace.push((f64::from(index), 0.0));
    }

    assert!(trace.points().len() <= 256);
    assert_eq!(trace.points().last(), Some(&(511.0, 0.0)));
}

#[test]
fn tests_stick_trace_remains_bounded() {
    bounded_trace();
}

#[test]
fn input_stick_trace_remains_bounded() {
    bounded_trace();
}

#[test]
fn trace_keeps_the_newest_positions_in_order() {
    let mut trace: StickTrace<u32> = StickTrace::new();
    for index in 0..(TRACE_CAPACITY as u32 + 3) {
        trace.push(index);
    }

    assert_eq!(trace.points().len(), TRACE_CAPACITY);
    assert_eq!(trace.points()[0], 3);
    assert_eq!(trace.points()[TRACE_CAPACITY - 1], TRACE_CAPACITY as u32 + 2);

    trace.clear();
    assert!(trace.points().is_empty());
    trace.push(7);
    assert_eq!(trace.points(), &[7]);
}
