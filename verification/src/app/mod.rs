//! The application state: connected controllers, the event log, navigation and the diagnostic
//! sessions. Raw controller input (button and axis values) is kept by the caller, which hands
//! this state what the diagnostics need of it.

use vstd::prelude::*;
use vstd::string::StringExecFns;
use std::collections::{HashMap, VecDeque};
use std::time::{Duration, Instant};
use crate::controls::ControlChecklist;
use crate::drift::DriftTest;
use crate::range::RangeTest;
use crate::text::{hex_bytes, hex_string};

pub mod connection;
pub mod diagnostics;
pub mod event_filter;
pub mod events;
pub mod navigation;

pub use self::event_filter::{EventDeviceFilter, EventKindFilter, EventSearchState};
pub use self::navigation::AppTab;

verus! {

broadcast use vstd::std_specs::hash::group_hash_axioms;

/// The most events the log keeps; the oldest is evicted first.
pub const EVENT_CAPACITY: usize = 256;

/// The sequence number of the first event of a session.
pub const FIRST_EVENT_SEQUENCE: u64 = 1;

#[verifier::external_type_specification]
#[verifier::external_body]
pub struct ExInstant(Instant);

/// Calls `Instant::now`; nothing is known of the moment it returns.
#[verifier::external_body]
fn instant_now() -> Instant {
    Instant::now()
}

/// Calls `Instant::elapsed`; the time that has passed is not known in advance.
#[verifier::external_body]
fn elapsed_since(start: &Instant) -> Duration {
    start.elapsed()
}

/// `Duration::clone` gives back the same duration (the type is `Copy`).
pub assume_specification[ <Duration as Clone>::clone ](duration: &Duration) -> (copy: Duration)
    ensures
        copy == *duration,
;

/// What the backend reports about a controller.
#[derive(Clone, Debug)]
pub struct DeviceMetadata {
    pub name: String,
    pub vendor_id: Option<u16>,
    pub product_id: Option<u16>,
    pub uuid: String,
    pub mapping: String,
    pub power: String,
    pub rumble_supported: bool,
}

/// A controller's UUID as thirty-two lowercase hexadecimal digits.
pub fn format_uuid(bytes: [u8; 16]) -> (text: String)
    ensures
        text@ == hex_bytes(bytes@),
{
    hex_string(bytes.as_slice())
}

/// A controller seen during the session.
#[derive(Clone, Debug)]
pub struct DeviceState {
    pub metadata: DeviceMetadata,
    pub connected: bool,
}

/// One line of the event log.
#[derive(Clone, Debug)]
pub struct EventEntry {
    pub sequence: u64,
    pub elapsed: Duration,
    pub device_id: Option<usize>,
    pub description: String,
}

/// The state of a diagnostics session. `S` is a stick sample, as recorded by the drift and range
/// tests.
#[derive(Debug)]
pub struct App<S> {
    pub started_at: Instant,
    pub devices: HashMap<usize, DeviceState>,
    pub device_order: Vec<usize>,
    pub selected_id: Option<usize>,
    pub events: VecDeque<EventEntry>,
    pub event_scroll_anchor: Option<u64>,
    pub event_scroll_offset: usize,
    pub event_kind_filter: EventKindFilter,
    pub event_device_filter: EventDeviceFilter,
    pub event_search: String,
    pub event_search_state: EventSearchState,
    pub evicted_event_count: u64,
    pub device_selector_visible: bool,
    pub help_visible: bool,
    pub active_tab: AppTab,
    pub should_quit: bool,
    pub status: String,
    pub drift_test: DriftTest<S>,
    pub range_test: RangeTest<S>,
    pub control_checklist: ControlChecklist,
    pub next_event_sequence: u64,
}

/// The log after appending `entry`: when the log is full the oldest entry is evicted.
pub open spec fn appended(events: Seq<EventEntry>, entry: EventEntry) -> Seq<EventEntry> {
    if events.len() == EVENT_CAPACITY {
        events.subrange(1, events.len() as int).push(entry)
    } else {
        events.push(entry)
    }
}

/// Sequence numbers increase along the log.
pub open spec fn sequences_increase(events: Seq<EventEntry>) -> bool {
    forall|i: int, j: int| 0 <= i < j < events.len() ==> events[i].sequence < events[j].sequence
}

/// The sequence of the newest event, or zero for an empty log.
pub open spec fn newest_sequence(events: Seq<EventEntry>) -> u64 {
    if events.len() == 0 {
        0
    } else {
        events.last().sequence
    }
}

/// The concatenation of two texts.
pub(crate) fn joined(first: &str, second: &str) -> (text: String)
    ensures
        text@ == first@ + second@,
{
    let mut text = first.to_owned();
    text.append(second);
    text
}

impl<S> App<S> {
    /// The log is in order: sequences increase, every logged sequence was handed out, and the
    /// log holds at most `EVENT_CAPACITY` entries.
    pub open spec fn log_ordered(&self) -> bool {
        &&& sequences_increase(self.events@)
        &&& forall|i: int| 0 <= i < self.events@.len() ==> self.events@[i].sequence < self.next_event_sequence
        &&& self.next_event_sequence >= FIRST_EVENT_SEQUENCE
        &&& self.events@.len() <= EVENT_CAPACITY
    }

    /// `count` more events can be numbered and counted.
    pub open spec fn has_room(&self, count: nat) -> bool {
        &&& self.next_event_sequence + count <= u64::MAX
        &&& self.evicted_event_count + count <= u64::MAX
    }

    /// Everything but the event log, its counters and the status line is as in `other`.
    pub open spec fn same_except_log(&self, other: &Self) -> bool {
        &&& self.devices@ == other.devices@
        &&& self.device_order@ == other.device_order@
        &&& self.selected_id == other.selected_id
        &&& self.same_event_view(other)
        &&& self.same_panels(other)
        &&& self.same_sessions(other)
    }

    /// The event log and its counters are those of `other`.
    pub open spec fn same_log(&self, other: &Self) -> bool {
        &&& self.events@ == other.events@
        &&& self.next_event_sequence == other.next_event_sequence
        &&& self.evicted_event_count == other.evicted_event_count
    }

    /// How the log is viewed (pause, scroll, filters and search) is as in `other`.
    pub open spec fn same_event_view(&self, other: &Self) -> bool {
        &&& self.event_scroll_anchor == other.event_scroll_anchor
        &&& self.event_scroll_offset == other.event_scroll_offset
        &&& self.event_kind_filter == other.event_kind_filter
        &&& self.event_device_filter == other.event_device_filter
        &&& self.event_search@ == other.event_search@
        &&& self.event_search_state == other.event_search_state
    }

    /// The open panels, the tab, the quit request and the session start are as in `other`.
    pub open spec fn same_panels(&self, other: &Self) -> bool {
        &&& self.device_selector_visible == other.device_selector_visible
        &&& self.help_visible == other.help_visible
        &&& self.active_tab == other.active_tab
        &&& self.should_quit == other.should_quit
        &&& self.started_at == other.started_at
    }

    /// The drift test, the range test and the checklist are those of `other`.
    pub open spec fn same_sessions(&self, other: &Self) -> bool {
        &&& self.drift_test == other.drift_test
        &&& self.range_test == other.range_test
        &&& self.control_checklist == other.control_checklist
    }

    /// `count` events were logged since `other`: each is either in the log or counted as
    /// evicted from it.
    pub open spec fn logged_since(&self, other: &Self, count: nat) -> bool {
        self.evicted_event_count + self.events@.len() == other.evicted_event_count
            + other.events@.len() + count
    }

    /// A fresh session: no controllers, an empty log, the dashboard tab.
    pub fn new() -> (app: Self)
        ensures
            app.devices@ == Map::<usize, DeviceState>::empty(),
            app.device_order@ == Seq::<usize>::empty(),
            app.selected_id.is_none(),
            app.events@ == Seq::<EventEntry>::empty(),
            app.event_scroll_anchor.is_none(),
            app.event_scroll_offset == 0,
            app.event_kind_filter == EventKindFilter::All,
            app.event_device_filter == EventDeviceFilter::All,
            app.event_search@ == Seq::<char>::empty(),
            app.event_search_state == EventSearchState::Closed,
            app.evicted_event_count == 0,
            !app.device_selector_visible,
            !app.help_visible,
            app.active_tab == AppTab::Dashboard,
            !app.should_quit,
            app.status@ == "gilrs backend ready"@,
            app.drift_test.phase() is Ready,
            app.drift_test.spec_device_id().is_none(),
            app.range_test.phase() is Ready,
            app.range_test.spec_device_id().is_none(),
            app.control_checklist@.items.len() == 0,
            !app.control_checklist@.active,
            app.control_checklist@.device_id.is_none(),
            app.next_event_sequence == FIRST_EVENT_SEQUENCE,
            app.log_ordered(),
    {
        App {
            started_at: instant_now(),
            devices: HashMap::new(),
            device_order: Vec::new(),
            selected_id: None,
            events: VecDeque::with_capacity(EVENT_CAPACITY),
            event_scroll_anchor: None,
            event_scroll_offset: 0,
            event_kind_filter: EventKindFilter::All,
            event_device_filter: EventDeviceFilter::All,
            event_search: String::new(),
            event_search_state: EventSearchState::Closed,
            evicted_event_count: 0,
            device_selector_visible: false,
            help_visible: false,
            active_tab: AppTab::Dashboard,
            should_quit: false,
            status: "gilrs backend ready".to_owned(),
            drift_test: DriftTest::new(),
            range_test: RangeTest::new(),
            control_checklist: ControlChecklist::default(),
            next_event_sequence: FIRST_EVENT_SEQUENCE,
        }
    }

    /// The selected controller, when it is known.
    pub fn selected_device(&self) -> (selected: Option<(usize, &DeviceState)>)
        ensures
            match self.selected_id {
                Some(id) => if self.devices@.contains_key(id) {
                    selected == Some((id, &self.devices@[id]))
                } else {
                    selected is None
                },
                None => selected is None,
            },
    {
        match self.selected_id {
            Some(id) => match self.devices.get(&id) {
                Some(device) => Some((id, device)),
                None => None,
            },
            None => None,
        }
    }

    /// The time since the session started.
    pub fn elapsed(&self) -> Duration {
        elapsed_since(&self.started_at)
    }

    /// Appends an event with the next sequence number, evicting the oldest event when the log
    /// is full.
    pub fn push_event(&mut self, device_id: Option<usize>, description: String)
        requires
            old(self).has_room(1),
        ensures
            final(self).same_except_log(old(self)),
            final(self).status@ == old(self).status@,
            final(self).events@ == appended(old(self).events@, final(self).events@.last()),
            final(self).events@.last().sequence == old(self).next_event_sequence,
            final(self).events@.last().device_id == device_id,
            final(self).events@.last().description@ == description@,
            final(self).next_event_sequence == old(self).next_event_sequence + 1,
            final(self).logged_since(old(self), 1),
            final(self).evicted_event_count == old(self).evicted_event_count + if old(
                self,
            ).events@.len() == EVENT_CAPACITY {
                1int
            } else {
                0int
            },
            old(self).log_ordered() ==> final(self).log_ordered(),
    {
        if self.events.len() == EVENT_CAPACITY {
            let _ = self.events.pop_front();
            self.evicted_event_count = self.evicted_event_count + 1;
        }
        let entry = EventEntry {
            sequence: self.next_event_sequence,
            elapsed: elapsed_since(&self.started_at),
            device_id,
            description,
        };
        self.events.push_back(entry);
        self.next_event_sequence = self.next_event_sequence + 1;
        assert(self.events@.last() == entry);
    }

    /// Shows `description` in the status line and logs it for `device_id`.
    pub fn record_notice_for(&mut self, device_id: Option<usize>, description: &str)
        requires
            old(self).has_room(1),
        ensures
            final(self).same_except_log(old(self)),
            final(self).status@ == description@,
            final(self).events@ == appended(old(self).events@, final(self).events@.last()),
            final(self).events@.last().sequence == old(self).next_event_sequence,
            final(self).events@.last().device_id == device_id,
            final(self).events@.last().description@ == description@,
            final(self).next_event_sequence == old(self).next_event_sequence + 1,
            final(self).logged_since(old(self), 1),
            final(self).evicted_event_count == old(self).evicted_event_count + if old(
                self,
            ).events@.len() == EVENT_CAPACITY {
                1int
            } else {
                0int
            },
            old(self).log_ordered() ==> final(self).log_ordered(),
    {
        self.status = description.to_owned();
        self.push_event(device_id, description.to_owned());
    }

    /// Shows `description` and logs it for the selected controller.
    pub fn record_notice(&mut self, description: &str)
        requires
            old(self).has_room(1),
        ensures
            final(self).same_except_log(old(self)),
            final(self).status@ == description@,
            final(self).events@ == appended(old(self).events@, final(self).events@.last()),
            final(self).events@.last().sequence == old(self).next_event_sequence,
            final(self).events@.last().device_id == old(self).selected_id,
            final(self).events@.last().description@ == description@,
            final(self).next_event_sequence == old(self).next_event_sequence + 1,
            final(self).logged_since(old(self), 1),
            final(self).evicted_event_count == old(self).evicted_event_count + if old(
                self,
            ).events@.len() == EVENT_CAPACITY {
                1int
            } else {
                0int
            },
            old(self).log_ordered() ==> final(self).log_ordered(),
    {
        let selected = self.selected_id;
        self.record_notice_for(selected, description);
    }
}

} // verus!
