//! What the diagnostic report takes from a session: the selected controller's recent events and
//! warnings, the outcome of the rumble test, the checklist summary, and the small text helpers
//! the plain-text report is written with.

use vstd::prelude::*;
use vstd::string::StringExecFns;
use std::collections::VecDeque;
use std::time::Duration;
use crate::app::{DeviceState, EventEntry};
use crate::controls::{count_status, item_models, ChecklistItem, ChecklistStatus, ItemModel};
use crate::text::{
    contains, contains_seq, hex_char, hex_digit, push_char, to_lowercase, unicode_lowercase,
};

verus! {

/// The version of the report layout.
pub const REPORT_SCHEMA_VERSION: u32 = 1;

/// The most events of the selected controller a report lists.
pub const RECENT_EVENT_LIMIT: usize = 50;

/// The most warnings a report lists.
pub const WARNING_LIMIT: usize = 20;

/// An event as the report lists it.
#[derive(Debug)]
pub struct ReportEvent {
    pub elapsed: Duration,
    pub device_id: Option<usize>,
    pub description: String,
}

/// The selected controller as the report describes it.
#[derive(Debug)]
pub struct DeviceReport {
    pub backend_id: usize,
    pub name: String,
    pub vendor_id: Option<u16>,
    pub product_id: Option<u16>,
    pub uuid: String,
    pub connected: bool,
    pub mapping_source: String,
    pub power: String,
    pub rumble_supported: bool,
}

impl DeviceReport {
    /// The report entry for controller `id`, copied from what the session knows of it.
    pub fn from_device(id: usize, device: &DeviceState) -> (report: DeviceReport)
        ensures
            report.backend_id == id,
            report.name@ == device.metadata.name@,
            report.vendor_id == device.metadata.vendor_id,
            report.product_id == device.metadata.product_id,
            report.uuid@ == device.metadata.uuid@,
            report.connected == device.connected,
            report.mapping_source@ == device.metadata.mapping@,
            report.power@ == device.metadata.power@,
            report.rumble_supported == device.metadata.rumble_supported,
    {
        DeviceReport {
            backend_id: id,
            name: device.metadata.name.clone(),
            vendor_id: device.metadata.vendor_id,
            product_id: device.metadata.product_id,
            uuid: device.metadata.uuid.clone(),
            connected: device.connected,
            mapping_source: device.metadata.mapping.clone(),
            power: device.metadata.power.clone(),
            rumble_supported: device.metadata.rumble_supported,
        }
    }
}

/// `(s.push(x)).filter(p)` keeps `x` exactly when `p` holds of it.
proof fn lemma_filter_push<A>(s: Seq<A>, x: A, p: spec_fn(A) -> bool)
    ensures
        s.push(x).filter(p) == if p(x) {
            s.filter(p).push(x)
        } else {
            s.filter(p)
        },
{
    reveal(Seq::filter);
    assert(s.push(x).drop_last() =~= s);
}

/// The lowercased description mentions a failure: something unavailable, unsupported,
/// disconnected, cancelled, that could not be done, or dropped.
pub open spec fn warning_text(description: Seq<char>) -> bool {
    let lower = unicode_lowercase(description);
    ||| contains_seq(lower, "unavailable"@)
    ||| contains_seq(lower, "unsupported"@)
    ||| contains_seq(lower, "disconnected"@)
    ||| contains_seq(lower, "cancelled"@)
    ||| contains_seq(lower, "could not"@)
    ||| contains_seq(lower, "dropped"@)
}

/// Whether an event description reads as a warning.
pub fn is_warning(description: &str) -> (warning: bool)
    ensures
        warning == warning_text(description@),
{
    let lower = to_lowercase(description);
    let text = lower.as_str();
    contains(text, "unavailable") || contains(text, "unsupported") || contains(
        text,
        "disconnected",
    ) || contains(text, "cancelled") || contains(text, "could not") || contains(text, "dropped")
}

/// A description is a warning exactly when, ignoring case, it mentions one of the six failure
/// words "unavailable", "unsupported", "disconnected", "cancelled", "could not" and "dropped";
/// a description that mentions none of them, such as a report of a completed test, is none.
pub proof fn law_warnings_are_failure_words(description: Seq<char>)
    ensures
        ({
            let words = seq![
                "unavailable"@,
                "unsupported"@,
                "disconnected"@,
                "cancelled"@,
                "could not"@,
                "dropped"@,
            ];
            let lower = unicode_lowercase(description);
            &&& warning_text(description) <==> exists|k: int|
                0 <= k < words.len() && #[trigger] contains_seq(lower, words[k])
            &&& (forall|k: int| 0 <= k < words.len() ==> !#[trigger] contains_seq(lower, words[k]))
                ==> !warning_text(description)
        }),
{
    let words = seq![
        "unavailable"@,
        "unsupported"@,
        "disconnected"@,
        "cancelled"@,
        "could not"@,
        "dropped"@,
    ];
    let lower = unicode_lowercase(description);
    if warning_text(description) {
        if contains_seq(lower, "unavailable"@) {
            assert(contains_seq(lower, words[0]));
        } else if contains_seq(lower, "unsupported"@) {
            assert(contains_seq(lower, words[1]));
        } else if contains_seq(lower, "disconnected"@) {
            assert(contains_seq(lower, words[2]));
        } else if contains_seq(lower, "cancelled"@) {
            assert(contains_seq(lower, words[3]));
        } else if contains_seq(lower, "could not"@) {
            assert(contains_seq(lower, words[4]));
        } else {
            assert(contains_seq(lower, words[5]));
        }
    }
    if exists|k: int| 0 <= k < words.len() && #[trigger] contains_seq(lower, words[k]) {
        let k = choose|k: int| 0 <= k < words.len() && #[trigger] contains_seq(lower, words[k]);
        assert(0 <= k < 6);
    }
}

/// The event belongs to the given controller (`None`: to no controller).
pub open spec fn belongs_to(entry: EventEntry, device_id: Option<usize>) -> bool {
    entry.device_id == device_id
}

/// At most `limit` leading entries of `s`.
pub open spec fn at_most<A>(s: Seq<A>, limit: int) -> Seq<A> {
    if s.len() <= limit {
        s
    } else {
        s.take(limit)
    }
}

/// The warnings of a controller, newest first, at most `WARNING_LIMIT` of them.
pub open spec fn recent_warning_events(events: Seq<EventEntry>, device_id: Option<usize>) -> Seq<
    EventEntry,
> {
    at_most(
        events.reverse().filter(
            |entry: EventEntry| belongs_to(entry, device_id) && warning_text(entry.description@),
        ),
        WARNING_LIMIT as int,
    )
}

/// The events of a controller, oldest first.
pub open spec fn events_of(events: Seq<EventEntry>, device_id: Option<usize>) -> Seq<EventEntry> {
    events.filter(|entry: EventEntry| belongs_to(entry, device_id))
}

/// The newest `RECENT_EVENT_LIMIT` events of a controller, oldest first.
pub open spec fn recent_events_of(events: Seq<EventEntry>, device_id: Option<usize>) -> Seq<
    EventEntry,
> {
    let all = events_of(events, device_id);
    if all.len() <= RECENT_EVENT_LIMIT {
        all
    } else {
        all.subrange(all.len() - RECENT_EVENT_LIMIT, all.len() as int)
    }
}

/// The strings hold the descriptions of the entries, in order.
pub open spec fn descriptions_of(texts: Seq<String>, entries: Seq<EventEntry>) -> bool {
    &&& texts.len() == entries.len()
    &&& forall|k: int| 0 <= k < texts.len() ==> texts[k]@ == entries[k].description@
}

/// The report events list the entries, in order.
pub open spec fn report_events_of(found: Seq<ReportEvent>, entries: Seq<EventEntry>) -> bool {
    &&& found.len() == entries.len()
    &&& forall|k: int|
        0 <= k < found.len() ==> {
            &&& found[k].elapsed == entries[k].elapsed
            &&& found[k].device_id == entries[k].device_id
            &&& found[k].description@ == entries[k].description@
        }
}

/// The warnings logged for `device_id`, newest first, at most `WARNING_LIMIT` of them.
pub fn recent_warnings(events: &VecDeque<EventEntry>, device_id: Option<usize>) -> (warnings: Vec<
    String,
>)
    ensures
        descriptions_of(warnings@, recent_warning_events(events@, device_id)),
{
    let ghost pred = |entry: EventEntry|
        belongs_to(entry, device_id) && warning_text(entry.description@);
    let ghost all = events@;
    let mut warnings: Vec<String> = Vec::new();
    let mut j: usize = events.len();
    while j > 0
        invariant
            all == events@,
            j <= all.len(),
            pred == (|entry: EventEntry|
                belongs_to(entry, device_id) && warning_text(entry.description@)),
            descriptions_of(
                warnings@,
                at_most(all.subrange(j as int, all.len() as int).reverse().filter(pred), WARNING_LIMIT as int),
            ),
        decreases j,
    {
        let ghost before = all.subrange(j as int, all.len() as int).reverse();
        j = j - 1;
        let entry = &events[j];
        proof {
            assert(all.subrange(j as int, all.len() as int).reverse() =~= before.push(all[j as int]));
            lemma_filter_push(before, all[j as int], pred);
        }
        let wanted = entry.device_id == device_id && is_warning(entry.description.as_str());
        let ghost filtered = before.filter(pred);
        if wanted {
            assert(pred(all[j as int]));
            if warnings.len() < WARNING_LIMIT {
                warnings.push(entry.description.clone());
                assert(at_most(filtered.push(all[j as int]), WARNING_LIMIT as int) =~= filtered.push(
                    all[j as int],
                ));
            } else {
                assert(at_most(filtered.push(all[j as int]), WARNING_LIMIT as int) =~= at_most(
                    filtered,
                    WARNING_LIMIT as int,
                ));
            }
        }
    }
    assert(all.subrange(0, all.len() as int) =~= all);
    warnings
}

/// The newest `RECENT_EVENT_LIMIT` events logged for `device_id`, oldest first.
pub fn recent_events(events: &VecDeque<EventEntry>, device_id: Option<usize>) -> (recent: Vec<
    ReportEvent,
>)
    ensures
        report_events_of(recent@, recent_events_of(events@, device_id)),
{
    let ghost pred = |entry: EventEntry| belongs_to(entry, device_id);
    let ghost all = events@;
    let mut selected: Vec<ReportEvent> = Vec::new();
    let mut i: usize = 0;
    while i < events.len()
        invariant
            all == events@,
            i <= all.len(),
            pred == (|entry: EventEntry| belongs_to(entry, device_id)),
            report_events_of(selected@, all.take(i as int).filter(pred)),
        decreases all.len() - i,
    {
        proof {
            assert(all.take(i + 1) =~= all.take(i as int).push(all[i as int]));
            lemma_filter_push(all.take(i as int), all[i as int], pred);
        }
        let entry = &events[i];
        if entry.device_id == device_id {
            selected.push(
                ReportEvent {
                    elapsed: entry.elapsed.clone(),
                    device_id: entry.device_id,
                    description: entry.description.clone(),
                },
            );
        }
        i = i + 1;
    }
    assert(all.take(all.len() as int) =~= all);
    let ghost chosen = all.filter(pred);
    assert(chosen == events_of(all, device_id));
    let first = if selected.len() > RECENT_EVENT_LIMIT {
        selected.len() - RECENT_EVENT_LIMIT
    } else {
        0
    };
    let mut recent: Vec<ReportEvent> = Vec::new();
    let mut k: usize = first;
    while k < selected.len()
        invariant
            first <= k <= selected@.len(),
            report_events_of(selected@, chosen),
            report_events_of(recent@, chosen.subrange(first as int, k as int)),
        decreases selected@.len() - k,
    {
        let event = &selected[k];
        recent.push(
            ReportEvent {
                elapsed: event.elapsed.clone(),
                device_id: event.device_id,
                description: event.description.clone(),
            },
        );
        k = k + 1;
    }
    assert(first == 0 ==> chosen.subrange(0, chosen.len() as int) =~= chosen);
    recent
}

/// The event tells of the rumble test.
pub open spec fn mentions_rumble(entry: EventEntry) -> bool {
    contains_seq(unicode_lowercase(entry.description@), "rumble"@)
}

/// The description of the newest event that tells of the rumble test, if any.
pub fn rumble_test_result(events: &VecDeque<EventEntry>) -> (result: Option<String>)
    ensures
        match result {
            Some(description) => exists|i: int|
                0 <= i < events@.len() && mentions_rumble(#[trigger] events@[i])
                    && description@ == events@[i].description@ && forall|k: int|
                    i < k < events@.len() ==> !mentions_rumble(#[trigger] events@[k]),
            None => forall|i: int| 0 <= i < events@.len() ==> !mentions_rumble(#[trigger] events@[i]),
        },
{
    let mut j: usize = events.len();
    while j > 0
        invariant
            j <= events@.len(),
            forall|k: int| j <= k < events@.len() ==> !mentions_rumble(#[trigger] events@[k]),
        decreases j,
    {
        j = j - 1;
        let entry = &events[j];
        let lower = to_lowercase(entry.description.as_str());
        if contains(lower.as_str(), "rumble") {
            assert(mentions_rumble(events@[j as int]));
            return Some(entry.description.clone());
        }
    }
    None
}

/// The labels of the checklist entries for controls outside the expected set, in order.
pub open spec fn unknown_labels(items: Seq<ItemModel>) -> Seq<Seq<char>> {
    items.filter(|item: ItemModel| item.unexpected).map_values(|item: ItemModel| item.label)
}

/// The labels of the controls that the checklist did not expect.
pub fn unknown_controls(items: &[ChecklistItem]) -> (labels: Vec<String>)
    ensures
        labels@.map_values(|label: String| label@) == unknown_labels(item_models(items@)),
{
    let ghost models = item_models(items@);
    let ghost pred = |item: ItemModel| item.unexpected;
    let mut labels: Vec<String> = Vec::new();
    let mut i: usize = 0;
    while i < items.len()
        invariant
            models == item_models(items@),
            i <= items@.len(),
            pred == (|item: ItemModel| item.unexpected),
            labels@.map_values(|label: String| label@) == models.take(i as int).filter(
                pred,
            ).map_values(|item: ItemModel| item.label),
        decreases items@.len() - i,
    {
        proof {
            assert(models.take(i + 1) =~= models.take(i as int).push(models[i as int]));
            lemma_filter_push(models.take(i as int), models[i as int], pred);
        }
        let item = &items[i];
        let ghost before = labels@;
        let ghost kept = models.take(i as int).filter(pred);
        if item.unexpected {
            labels.push(item.label.clone());
            assert(labels@.map_values(|label: String| label@) =~= before.map_values(
                |label: String| label@,
            ).push(models[i as int].label));
            assert(kept.push(models[i as int]).map_values(|item: ItemModel| item.label)
                =~= kept.map_values(|item: ItemModel| item.label).push(models[i as int].label));
        }
        i = i + 1;
    }
    assert(models.take(models.len() as int) =~= models);
    labels
}

/// How many checklist entries were observed.
pub fn observed_count(items: &[ChecklistItem]) -> (count: usize)
    ensures
        count == count_status(item_models(items@), ChecklistStatus::Observed),
{
    let ghost models = item_models(items@);
    let mut count: usize = 0;
    let mut i: usize = 0;
    while i < items.len()
        invariant
            models == item_models(items@),
            i <= models.len(),
            count == count_status(models.take(i as int), ChecklistStatus::Observed),
            count <= i,
        decreases models.len() - i,
    {
        proof {
            assert(models.take(i + 1).drop_last() == models.take(i as int));
            assert(models.take(i + 1).last() == models[i as int]);
        }
        if items[i].status == ChecklistStatus::Observed {
            count = count + 1;
        }
        i = i + 1;
    }
    assert(models.take(models.len() as int) == models);
    count
}

/// Four lowercase hexadecimal digits of a 16-bit value, most significant first.
pub open spec fn hex4(value: u16) -> Seq<char> {
    seq![
        hex_digit(value as int / 4096),
        hex_digit((value as int / 256) % 16),
        hex_digit((value as int / 16) % 16),
        hex_digit(value as int % 16),
    ]
}

/// An identifier as four hex digits, or `unknown` when there is none.
pub open spec fn optional_hex_text(value: Option<u16>) -> Seq<char> {
    match value {
        Some(v) => hex4(v),
        None => "unknown"@,
    }
}

/// A vendor or product identifier as four lowercase hex digits, or `unknown`.
pub fn format_optional_hex(value: Option<u16>) -> (text: String)
    ensures
        text@ == optional_hex_text(value),
{
    match value {
        Some(v) => {
            let mut text = String::new();
            push_char(&mut text, hex_char(v / 4096));
            push_char(&mut text, hex_char((v / 256) % 16));
            push_char(&mut text, hex_char((v / 16) % 16));
            push_char(&mut text, hex_char(v % 16));
            assert(text@ =~= hex4(v));
            text
        },
        None => {
            let text = "unknown".to_owned();
            text
        },
    }
}

/// The texts joined with `separator` between neighbours.
pub open spec fn join_with(texts: Seq<Seq<char>>, separator: Seq<char>) -> Seq<char>
    decreases texts.len(),
{
    if texts.len() == 0 {
        Seq::empty()
    } else if texts.len() == 1 {
        texts[0]
    } else {
        join_with(texts.drop_last(), separator) + separator + texts.last()
    }
}

/// A list of names for the report: joined with `, `, or `none` when there are none.
pub open spec fn list_text(texts: Seq<Seq<char>>) -> Seq<char> {
    if texts.len() == 0 {
        "none"@
    } else {
        join_with(texts, ", "@)
    }
}

/// The values joined with `, `, or `none` when there are none.
pub fn joined_or_none(values: &[String]) -> (text: String)
    ensures
        text@ == list_text(values@.map_values(|value: String| value@)),
{
    let ghost views = values@.map_values(|value: String| value@);
    if values.len() == 0 {
        return "none".to_owned();
    }
    let mut text = values[0].clone();
    let mut i: usize = 1;
    assert(views.take(1) =~= seq![views[0]]);
    while i < values.len()
        invariant
            views == values@.map_values(|value: String| value@),
            1 <= i <= values@.len(),
            text@ == join_with(views.take(i as int), ", "@),
        decreases values@.len() - i,
    {
        text.append(", ");
        text.append(values[i].as_str());
        assert(views.take(i + 1).drop_last() =~= views.take(i as int));
        i = i + 1;
    }
    assert(views.take(views.len() as int) =~= views);
    text
}

/// The decimal digit for a value below ten.
pub open spec fn decimal_digit(value: int) -> char {
    (value + 48) as char
}

/// A number written in decimal, without leading zeros.
pub open spec fn decimal_text(value: nat) -> Seq<char>
    decreases value,
{
    if value < 10 {
        seq![decimal_digit(value as int)]
    } else {
        decimal_text(value / 10).push(decimal_digit((value % 10) as int))
    }
}

fn digit_char(value: u128) -> (digit: char)
    requires
        value < 10,
    ensures
        digit == decimal_digit(value as int),
{
    match value {
        0 => '0',
        1 => '1',
        2 => '2',
        3 => '3',
        4 => '4',
        5 => '5',
        6 => '6',
        7 => '7',
        8 => '8',
        _ => '9',
    }
}

pub(crate) fn push_decimal(text: &mut String, value: u128)
    ensures
        final(text)@ == old(text)@ + decimal_text(value as nat),
    decreases value,
{
    if value >= 10 {
        push_decimal(text, value / 10);
    }
    push_char(text, digit_char(value % 10));
    assert(decimal_text(value as nat) == if value < 10 {
        seq![decimal_digit(value as int)]
    } else {
        decimal_text((value / 10) as nat).push(decimal_digit((value % 10) as int))
    });
}

/// The name of a report file written at `millis` milliseconds since the Unix epoch, with the
/// given extension.
pub open spec fn report_file_name_of(millis: u128, extension: Seq<char>) -> Seq<char> {
    "padprobe-report-"@ + decimal_text(millis as nat) + "."@ + extension
}

/// The name of a report file: the export time in milliseconds since the Unix epoch, shared by
/// the JSON and the text report, and the extension.
pub fn report_file_name(millis: u128, extension: &str) -> (name: String)
    ensures
        name@ == report_file_name_of(millis, extension@),
{
    let mut name = "padprobe-report-".to_owned();
    push_decimal(&mut name, millis);
    name.append(".");
    name.append(extension);
    name
}

} // verus!

