//! The plain-text diagnostic report. Measured values arrive already written out (with the
//! precision the report shows them at); this module lays the report out.

use vstd::prelude::*;
use vstd::string::StringExecFns;
use crate::controls::{count_status, item_models, ChecklistItem, ChecklistStatus};
use crate::report::{
    decimal_text, format_optional_hex, joined_or_none, list_text, observed_count,
    optional_hex_text, push_decimal, DeviceReport,
};

verus! {

/// One observed axis: its name, values as written, and how often it changed.
#[derive(Debug)]
pub struct AxisLine {
    pub name: String,
    pub current: String,
    pub minimum: String,
    pub maximum: String,
    pub changes: u64,
}

/// One recent event: seconds since the session started, as written, and what happened.
#[derive(Debug)]
pub struct EventLine {
    pub elapsed: String,
    pub description: String,
}

/// The drift result, with its measurements written out.
#[derive(Debug)]
pub struct DriftLine {
    pub sample_count: usize,
    pub mean_x: String,
    pub mean_y: String,
    pub percentile_95_radial: String,
    pub maximum_radial: String,
    pub suggested_inner_deadzone: String,
}

/// The range result, with its measurements written out (as percentages).
#[derive(Debug)]
pub struct RangeLine {
    pub sample_count: usize,
    pub angular_coverage_percent: String,
    pub circularity_deviation_percent: String,
}

/// The event-timing result, with its measurements written out.
#[derive(Debug)]
pub struct TimingLine {
    pub events_per_second: String,
    pub median_interval_ms: String,
    pub percentile_95_interval_ms: String,
}

/// Everything the plain-text report shows.
#[derive(Debug)]
pub struct TextReport {
    pub schema_version: u32,
    pub generated_at: String,
    pub version: String,
    pub build_target: String,
    pub operating_system: String,
    pub kernel_version: Option<String>,
    pub backend: String,
    pub session_duration_seconds: String,
    pub device: Option<DeviceReport>,
    pub axes: Vec<AxisLine>,
    pub observed_buttons: Vec<String>,
    pub pressed_buttons: Vec<String>,
    pub unknown_controls: Vec<String>,
    pub warnings: Vec<String>,
    pub recent_events: Vec<EventLine>,
    pub drift: Option<DriftLine>,
    pub range: Option<RangeLine>,
    pub control_checklist: Vec<ChecklistItem>,
    pub event_timing: Option<TimingLine>,
    pub rumble_test_result: Option<String>,
    pub limitations: Vec<String>,
}

/// The texts one after another.
pub open spec fn concat(parts: Seq<Seq<char>>) -> Seq<char>
    decreases parts.len(),
{
    if parts.len() == 0 {
        Seq::empty()
    } else {
        concat(parts.drop_last()) + parts.last()
    }
}

/// `true` or `false`.
pub open spec fn bool_text(value: bool) -> Seq<char> {
    if value {
        "true"@
    } else {
        "false"@
    }
}

/// The texts of strings, in order.
pub open spec fn texts(values: Seq<String>) -> Seq<Seq<char>> {
    values.map_values(|value: String| value@)
}

/// The report's opening block: what produced it and when.
pub open spec fn header_text(report: TextReport) -> Seq<char> {
    "PadProbe diagnostic report\nSchema: "@ + decimal_text(report.schema_version as nat)
        + "\nGenerated: "@ + report.generated_at@ + "\nVersion: "@ + report.version@
        + "\nTarget: "@ + report.build_target@ + "\nOS: "@ + report.operating_system@
        + match report.kernel_version {
        Some(kernel) => " ("@ + kernel@ + ")"@,
        None => Seq::empty(),
    } + "\nBackend: "@ + report.backend@ + "\nSession duration: "@
        + report.session_duration_seconds@ + " s\n"@
}

/// The device block, or a note that no controller was selected.
pub open spec fn device_text(device: Option<DeviceReport>) -> Seq<char> {
    match device {
        Some(d) => "\nDevice\nName: "@ + d.name@ + "\nBackend ID: "@ + decimal_text(
            d.backend_id as nat,
        ) + "\nVID:PID: "@ + optional_hex_text(d.vendor_id) + ":"@ + optional_hex_text(
            d.product_id,
        ) + "\nUUID: "@ + d.uuid@ + "\nConnected: "@ + bool_text(d.connected) + "\nMapping: "@
            + d.mapping_source@ + "\nPower: "@ + d.power@ + "\nRumble reported: "@ + bool_text(
            d.rumble_supported,
        ) + "\n"@,
        None => "\nDevice\nNo controller selected.\n"@,
    }
}

/// The line of one axis.
pub open spec fn axis_line_text(axis: AxisLine) -> Seq<char> {
    axis.name@ + ": current "@ + axis.current@ + ", range "@ + axis.minimum@ + "…"@
        + axis.maximum@ + ", changes "@ + decimal_text(axis.changes as nat) + "\n"@
}

/// The observed axes, one line each.
pub open spec fn axes_text(axes: Seq<AxisLine>) -> Seq<char> {
    "\nObserved axes\n"@ + concat(axes.map_values(|axis: AxisLine| axis_line_text(axis)))
}

/// The button and unknown-control lists.
pub open spec fn lists_text(report: TextReport) -> Seq<char> {
    "\nObserved buttons: "@ + list_text(texts(report.observed_buttons@)) + "\nPressed buttons: "@
        + list_text(texts(report.pressed_buttons@)) + "\nUnknown controls: "@ + list_text(
        texts(report.unknown_controls@),
    ) + "\n"@
}

/// A bullet line.
pub open spec fn bullet_text(item: String) -> Seq<char> {
    "- "@ + item@ + "\n"@
}

/// A titled bullet list; nothing when there are no items.
pub open spec fn bullets_section(title: Seq<char>, items: Seq<String>) -> Seq<char> {
    if items.len() == 0 {
        Seq::empty()
    } else {
        title + concat(items.map_values(|item: String| bullet_text(item)))
    }
}

/// The line of one recent event.
pub open spec fn event_line_text(event: EventLine) -> Seq<char> {
    event.elapsed@ + "  "@ + event.description@ + "\n"@
}

/// The recent events, one line each; nothing when there are none.
pub open spec fn events_text(events: Seq<EventLine>) -> Seq<char> {
    if events.len() == 0 {
        Seq::empty()
    } else {
        "\nRecent events\n"@ + concat(events.map_values(|event: EventLine| event_line_text(event)))
    }
}

/// The drift line, when there is a drift result.
pub open spec fn drift_text(drift: Option<DriftLine>) -> Seq<char> {
    match drift {
        Some(d) => "Resting displacement: "@ + decimal_text(d.sample_count as nat)
            + " samples, mean ("@ + d.mean_x@ + ", "@ + d.mean_y@ + "), p95 radial "@
            + d.percentile_95_radial@ + ", max radial "@ + d.maximum_radial@
            + ", suggested deadzone "@ + d.suggested_inner_deadzone@ + "\n"@,
        None => Seq::empty(),
    }
}

/// The range line, when there is a range result.
pub open spec fn range_text(range: Option<RangeLine>) -> Seq<char> {
    match range {
        Some(r) => "Range: "@ + decimal_text(r.sample_count as nat) + " samples, angular coverage "@
            + r.angular_coverage_percent@ + "%, circularity deviation "@
            + r.circularity_deviation_percent@ + "%\n"@,
        None => Seq::empty(),
    }
}

/// The checklist line: observed entries out of all; nothing for an empty checklist.
pub open spec fn checklist_text(items: Seq<ChecklistItem>) -> Seq<char> {
    if items.len() == 0 {
        Seq::empty()
    } else {
        "Control checklist: "@ + decimal_text(
            count_status(item_models(items), ChecklistStatus::Observed),
        ) + "/"@ + decimal_text(items.len()) + " observed\n"@
    }
}

/// The timing line, when there is a timing result.
pub open spec fn timing_text(timing: Option<TimingLine>) -> Seq<char> {
    match timing {
        Some(t) => "Observed event timing: "@ + t.events_per_second@ + " events/s, median "@
            + t.median_interval_ms@ + " ms, p95 "@ + t.percentile_95_interval_ms@ + " ms\n"@,
        None => Seq::empty(),
    }
}

/// The rumble line, when the rumble test left a result.
pub open spec fn rumble_text(rumble: Option<String>) -> Seq<char> {
    match rumble {
        Some(r) => "Rumble: "@ + r@ + "\n"@,
        None => Seq::empty(),
    }
}

/// The diagnostic results.
pub open spec fn diagnostics_text(report: TextReport) -> Seq<char> {
    "\nDiagnostic results\n"@ + drift_text(report.drift) + range_text(report.range)
        + checklist_text(report.control_checklist@) + timing_text(report.event_timing)
        + rumble_text(report.rumble_test_result)
}

/// The whole plain-text report.
pub open spec fn report_text_of(report: TextReport) -> Seq<char> {
    header_text(report) + device_text(report.device) + axes_text(report.axes@) + lists_text(
        report,
    ) + bullets_section("\nWarnings\n"@, report.warnings@) + events_text(report.recent_events@)
        + diagnostics_text(report) + "\nLimitations\n"@ + concat(
        report.limitations@.map_values(|item: String| bullet_text(item)),
    )
}

/// Writing one more part extends the concatenation of the parts before it.
proof fn lemma_concat_step(parts: Seq<Seq<char>>, i: int)
    requires
        0 <= i < parts.len(),
    ensures
        concat(parts.take(i + 1)) == concat(parts.take(i)) + parts[i],
{
    assert(parts.take(i + 1).drop_last() =~= parts.take(i));
}

fn bool_str(value: bool) -> (text: &'static str)
    ensures
        text@ == bool_text(value),
{
    if value {
        "true"
    } else {
        "false"
    }
}

fn header_string(report: &TextReport) -> (text: String)
    ensures
        text@ == header_text(*report),
{
    let mut text = "PadProbe diagnostic report\nSchema: ".to_owned();
    push_decimal(&mut text, report.schema_version as u128);
    text.append("\nGenerated: ");
    text.append(report.generated_at.as_str());
    text.append("\nVersion: ");
    text.append(report.version.as_str());
    text.append("\nTarget: ");
    text.append(report.build_target.as_str());
    text.append("\nOS: ");
    text.append(report.operating_system.as_str());
    let ghost before = text@;
    match &report.kernel_version {
        Some(kernel) => {
            let mut part = " (".to_owned();
            part.append(kernel.as_str());
            part.append(")");
            text.append(part.as_str());
        },
        None => {
            assert(before + Seq::<char>::empty() =~= before);
        },
    }
    text.append("\nBackend: ");
    text.append(report.backend.as_str());
    text.append("\nSession duration: ");
    text.append(report.session_duration_seconds.as_str());
    text.append(" s\n");
    text
}

fn device_string(device: &Option<DeviceReport>) -> (text: String)
    ensures
        text@ == device_text(*device),
{
    match device {
        Some(d) => {
            let mut text = "\nDevice\nName: ".to_owned();
            text.append(d.name.as_str());
            text.append("\nBackend ID: ");
            push_decimal(&mut text, d.backend_id as u128);
            text.append("\nVID:PID: ");
            text.append(format_optional_hex(d.vendor_id).as_str());
            text.append(":");
            text.append(format_optional_hex(d.product_id).as_str());
            text.append("\nUUID: ");
            text.append(d.uuid.as_str());
            text.append("\nConnected: ");
            text.append(bool_str(d.connected));
            text.append("\nMapping: ");
            text.append(d.mapping_source.as_str());
            text.append("\nPower: ");
            text.append(d.power.as_str());
            text.append("\nRumble reported: ");
            text.append(bool_str(d.rumble_supported));
            text.append("\n");
            text
        },
        None => "\nDevice\nNo controller selected.\n".to_owned(),
    }
}

fn axis_string(axis: &AxisLine) -> (text: String)
    ensures
        text@ == axis_line_text(*axis),
{
    let mut text = axis.name.clone();
    text.append(": current ");
    text.append(axis.current.as_str());
    text.append(", range ");
    text.append(axis.minimum.as_str());
    text.append("…");
    text.append(axis.maximum.as_str());
    text.append(", changes ");
    push_decimal(&mut text, axis.changes as u128);
    text.append("\n");
    text
}

fn axes_string(axes: &Vec<AxisLine>) -> (text: String)
    ensures
        text@ == axes_text(axes@),
{
    let ghost lines = axes@.map_values(|axis: AxisLine| axis_line_text(axis));
    let mut text = "\nObserved axes\n".to_owned();
    let mut i: usize = 0;
    while i < axes.len()
        invariant
            i <= axes@.len(),
            lines == axes@.map_values(|axis: AxisLine| axis_line_text(axis)),
            text@ == "\nObserved axes\n"@ + concat(lines.take(i as int)),
        decreases axes@.len() - i,
    {
        let line = axis_string(&axes[i]);
        let ghost before = text@;
        text.append(line.as_str());
        proof {
            lemma_concat_step(lines, i as int);
            assert(text@ =~= "\nObserved axes\n"@ + concat(lines.take(i + 1)));
        }
        i = i + 1;
    }
    proof {
        assert(lines.take(lines.len() as int) =~= lines);
    }
    text
}

fn lists_string(report: &TextReport) -> (text: String)
    ensures
        text@ == lists_text(*report),
{
    let mut text = "\nObserved buttons: ".to_owned();
    text.append(joined_or_none(report.observed_buttons.as_slice()).as_str());
    text.append("\nPressed buttons: ");
    text.append(joined_or_none(report.pressed_buttons.as_slice()).as_str());
    text.append("\nUnknown controls: ");
    text.append(joined_or_none(report.unknown_controls.as_slice()).as_str());
    text.append("\n");
    text
}

fn bullets_string(title: &str, items: &Vec<String>) -> (text: String)
    ensures
        text@ == bullets_section(title@, items@),
{
    if items.len() == 0 {
        return String::new();
    }
    let ghost lines = items@.map_values(|item: String| bullet_text(item));
    let mut text = title.to_owned();
    let mut i: usize = 0;
    while i < items.len()
        invariant
            i <= items@.len(),
            lines == items@.map_values(|item: String| bullet_text(item)),
            text@ == title@ + concat(lines.take(i as int)),
        decreases items@.len() - i,
    {
        let mut line = "- ".to_owned();
        line.append(items[i].as_str());
        line.append("\n");
        text.append(line.as_str());
        proof {
            lemma_concat_step(lines, i as int);
            assert(text@ =~= title@ + concat(lines.take(i + 1)));
        }
        i = i + 1;
    }
    proof {
        assert(lines.take(lines.len() as int) =~= lines);
    }
    text
}

fn events_string(events: &Vec<EventLine>) -> (text: String)
    ensures
        text@ == events_text(events@),
{
    if events.len() == 0 {
        return String::new();
    }
    let ghost lines = events@.map_values(|event: EventLine| event_line_text(event));
    let mut text = "\nRecent events\n".to_owned();
    let mut i: usize = 0;
    while i < events.len()
        invariant
            i <= events@.len(),
            lines == events@.map_values(|event: EventLine| event_line_text(event)),
            text@ == "\nRecent events\n"@ + concat(lines.take(i as int)),
        decreases events@.len() - i,
    {
        let mut line = events[i].elapsed.clone();
        line.append("  ");
        line.append(events[i].description.as_str());
        line.append("\n");
        text.append(line.as_str());
        proof {
            lemma_concat_step(lines, i as int);
            assert(text@ =~= "\nRecent events\n"@ + concat(lines.take(i + 1)));
        }
        i = i + 1;
    }
    proof {
        assert(lines.take(lines.len() as int) =~= lines);
    }
    text
}

fn drift_string(drift: &Option<DriftLine>) -> (text: String)
    ensures
        text@ == drift_text(*drift),
{
    match drift {
        Some(d) => {
            let mut text = "Resting displacement: ".to_owned();
            push_decimal(&mut text, d.sample_count as u128);
            text.append(" samples, mean (");
            text.append(d.mean_x.as_str());
            text.append(", ");
            text.append(d.mean_y.as_str());
            text.append("), p95 radial ");
            text.append(d.percentile_95_radial.as_str());
            text.append(", max radial ");
            text.append(d.maximum_radial.as_str());
            text.append(", suggested deadzone ");
            text.append(d.suggested_inner_deadzone.as_str());
            text.append("\n");
            text
        },
        None => String::new(),
    }
}

fn range_string(range: &Option<RangeLine>) -> (text: String)
    ensures
        text@ == range_text(*range),
{
    match range {
        Some(r) => {
            let mut text = "Range: ".to_owned();
            push_decimal(&mut text, r.sample_count as u128);
            text.append(" samples, angular coverage ");
            text.append(r.angular_coverage_percent.as_str());
            text.append("%, circularity deviation ");
            text.append(r.circularity_deviation_percent.as_str());
            text.append("%\n");
            text
        },
        None => String::new(),
    }
}

fn checklist_string(items: &Vec<ChecklistItem>) -> (text: String)
    ensures
        text@ == checklist_text(items@),
{
    if items.len() == 0 {
        return String::new();
    }
    let mut text = "Control checklist: ".to_owned();
    push_decimal(&mut text, observed_count(items.as_slice()) as u128);
    text.append("/");
    push_decimal(&mut text, items.len() as u128);
    text.append(" observed\n");
    text
}

fn timing_string(timing: &Option<TimingLine>) -> (text: String)
    ensures
        text@ == timing_text(*timing),
{
    match timing {
        Some(t) => {
            let mut text = "Observed event timing: ".to_owned();
            text.append(t.events_per_second.as_str());
            text.append(" events/s, median ");
            text.append(t.median_interval_ms.as_str());
            text.append(" ms, p95 ");
            text.append(t.percentile_95_interval_ms.as_str());
            text.append(" ms\n");
            text
        },
        None => String::new(),
    }
}

fn rumble_string(rumble: &Option<String>) -> (text: String)
    ensures
        text@ == rumble_text(*rumble),
{
    match rumble {
        Some(r) => {
            let mut text = "Rumble: ".to_owned();
            text.append(r.as_str());
            text.append("\n");
            text
        },
        None => String::new(),
    }
}

fn diagnostics_string(report: &TextReport) -> (text: String)
    ensures
        text@ == diagnostics_text(*report),
{
    let mut text = "\nDiagnostic results\n".to_owned();
    text.append(drift_string(&report.drift).as_str());
    text.append(range_string(&report.range).as_str());
    text.append(checklist_string(&report.control_checklist).as_str());
    text.append(timing_string(&report.event_timing).as_str());
    text.append(rumble_string(&report.rumble_test_result).as_str());
    text
}

/// The plain-text diagnostic report: a header, the selected controller, its observed axes and
/// buttons, warnings and recent events when there are any, the diagnostic results, and the
/// limitations of the measurements.
pub fn report_text(report: &TextReport) -> (text: String)
    ensures
        text@ == report_text_of(*report),
{
    let mut text = header_string(report);
    text.append(device_string(&report.device).as_str());
    text.append(axes_string(&report.axes).as_str());
    text.append(lists_string(report).as_str());
    text.append(bullets_string("\nWarnings\n", &report.warnings).as_str());
    text.append(events_string(&report.recent_events).as_str());
    text.append(diagnostics_string(report).as_str());
    text.append("\nLimitations\n");
    let limitations = bullets_string("", &report.limitations);
    let ghost before = text@;
    text.append(limitations.as_str());
    proof {
        let lines = report.limitations@.map_values(|item: String| bullet_text(item));
        if report.limitations@.len() == 0 {
            assert(lines =~= Seq::<Seq<char>>::empty());
            assert(text@ =~= before + concat(lines));
        } else {
            reveal_strlit("");
            assert(""@ + concat(lines) =~= concat(lines));
        }
    }
    text
}

/// Counting the entries of a given status in the models counts the entries of that status.
proof fn lemma_count_status_is_filter_len(items: Seq<ChecklistItem>, status: ChecklistStatus)
    ensures
        count_status(item_models(items), status) == items.filter(
            |item: ChecklistItem| item.status == status,
        ).len(),
    decreases items.len(),
{
    reveal(Seq::filter);
    if items.len() > 0 {
        lemma_count_status_is_filter_len(items.drop_last(), status);
        assert(item_models(items).drop_last() =~= item_models(items.drop_last()));
    }
}

/// The checklist line of a non-empty checklist reads "Control checklist: n/m observed", where n
/// is the number of entries whose status is observed and m the number of entries; n never
/// exceeds m. An empty checklist gives no line.
pub proof fn law_checklist_line_counts_observed(items: Seq<ChecklistItem>)
    ensures
        ({
            let observed = items.filter(|item: ChecklistItem| item.status == ChecklistStatus::Observed);
            &&& observed.len() <= items.len()
            &&& items.len() == 0 ==> checklist_text(items).len() == 0
            &&& items.len() > 0 ==> checklist_text(items) == "Control checklist: "@ + decimal_text(
                observed.len(),
            ) + "/"@ + decimal_text(items.len()) + " observed\n"@
        }),
{
    lemma_count_status_is_filter_len(items, ChecklistStatus::Observed);
    items.filter_lemma(|item: ChecklistItem| item.status == ChecklistStatus::Observed);
}

} // verus!
