//! Which events the log shows.

use vstd::prelude::*;
use super::{App, EventEntry, joined};
use crate::text::{contains, contains_seq, is_prefix, starts_with, to_lowercase, unicode_lowercase};

verus! {

/// The kinds of events the log can be narrowed to.
#[derive(Debug, Clone, Copy, PartialEq, Eq, Structural)]
pub enum EventKindFilter {
    All,
    Buttons,
    Axes,
    System,
}

impl Default for EventKindFilter {
    fn default() -> (filter: Self)
        ensures
            filter == EventKindFilter::All,
    {
        EventKindFilter::All
    }
}

/// Whether the log shows every controller or only the selected one.
#[derive(Debug, Clone, Copy, PartialEq, Eq, Structural)]
pub enum EventDeviceFilter {
    All,
    Selected,
}

impl Default for EventDeviceFilter {
    fn default() -> (filter: Self)
        ensures
            filter == EventDeviceFilter::All,
    {
        EventDeviceFilter::All
    }
}

/// Whether the search field is being edited.
#[derive(Debug, Clone, Copy, PartialEq, Eq, Structural)]
pub enum EventSearchState {
    Closed,
    Open,
}

impl Default for EventSearchState {
    fn default() -> (state: Self)
        ensures
            state == EventSearchState::Closed,
    {
        EventSearchState::Closed
    }
}

/// The display name of a kind filter.
pub open spec fn kind_label(filter: EventKindFilter) -> Seq<char> {
    match filter {
        EventKindFilter::All => "all"@,
        EventKindFilter::Buttons => "buttons"@,
        EventKindFilter::Axes => "axes"@,
        EventKindFilter::System => "system"@,
    }
}

/// The kind filter that follows `filter` in the cycle all, buttons, axes, system.
pub open spec fn following_kind(filter: EventKindFilter) -> EventKindFilter {
    match filter {
        EventKindFilter::All => EventKindFilter::Buttons,
        EventKindFilter::Buttons => EventKindFilter::Axes,
        EventKindFilter::Axes => EventKindFilter::System,
        EventKindFilter::System => EventKindFilter::All,
    }
}

/// The event describes a button.
pub open spec fn is_button_event(description: Seq<char>) -> bool {
    is_prefix("Button"@, description)
}

/// The event describes an axis.
pub open spec fn is_axis_event(description: Seq<char>) -> bool {
    is_prefix("Axis"@, description)
}

/// The event passes the kind filter.
pub open spec fn kind_matches(filter: EventKindFilter, description: Seq<char>) -> bool {
    match filter {
        EventKindFilter::All => true,
        EventKindFilter::Buttons => is_button_event(description),
        EventKindFilter::Axes => is_axis_event(description),
        EventKindFilter::System => !is_button_event(description) && !is_axis_event(description),
    }
}

/// The event passes the search: the search is empty or, ignoring case, occurs in the event.
pub open spec fn search_matches(search: Seq<char>, description: Seq<char>) -> bool {
    search.len() == 0 || contains_seq(unicode_lowercase(description), unicode_lowercase(search))
}

impl EventKindFilter {
    /// The display name of the filter.
    pub fn label(self) -> (label: &'static str)
        ensures
            label@ == kind_label(self),
    {
        match self {
            EventKindFilter::All => "all",
            EventKindFilter::Buttons => "buttons",
            EventKindFilter::Axes => "axes",
            EventKindFilter::System => "system",
        }
    }

    /// The filter that follows in the cycle.
    pub fn next(self) -> (next: Self)
        ensures
            next == following_kind(self),
    {
        match self {
            EventKindFilter::All => EventKindFilter::Buttons,
            EventKindFilter::Buttons => EventKindFilter::Axes,
            EventKindFilter::Axes => EventKindFilter::System,
            EventKindFilter::System => EventKindFilter::All,
        }
    }
}

/// Cycling the kind filter four times comes back to where it started.
pub proof fn law_kind_filter_cycle(filter: EventKindFilter)
    ensures
        following_kind(following_kind(following_kind(following_kind(filter)))) == filter,
        following_kind(filter) != filter,
{
}

/// The kind filters sort every event by how its description begins: the buttons filter shows
/// exactly the events whose description starts with "Button", the axes filter exactly those that
/// start with "Axis", the system filter exactly the rest, and the all filter every event. So each
/// event is shown by exactly one of the buttons, axes and system filters.
pub proof fn law_kind_filters_partition_events(description: Seq<char>)
    ensures
        kind_matches(EventKindFilter::All, description),
        kind_matches(EventKindFilter::Buttons, description) <==> (description.len() >= 6
            && description.subrange(0, 6) == seq!['B', 'u', 't', 't', 'o', 'n']),
        kind_matches(EventKindFilter::Axes, description) <==> (description.len() >= 4
            && description.subrange(0, 4) == seq!['A', 'x', 'i', 's']),
        !(kind_matches(EventKindFilter::Buttons, description) && kind_matches(
            EventKindFilter::Axes,
            description,
        )),
        !(kind_matches(EventKindFilter::Buttons, description) && kind_matches(
            EventKindFilter::System,
            description,
        )),
        !(kind_matches(EventKindFilter::Axes, description) && kind_matches(
            EventKindFilter::System,
            description,
        )),
        kind_matches(EventKindFilter::Buttons, description) || kind_matches(
            EventKindFilter::Axes,
            description,
        ) || kind_matches(EventKindFilter::System, description),
{
    reveal_strlit("Button");
    reveal_strlit("Axis");
    assert("Button"@ =~= seq!['B', 'u', 't', 't', 'o', 'n']);
    assert("Axis"@ =~= seq!['A', 'x', 'i', 's']);
    if is_button_event(description) && is_axis_event(description) {
        assert(description.subrange(0, 6)[0] == description[0]);
        assert(description.subrange(0, 4)[0] == description[0]);
    }
}

/// Under the buttons filter the log shows an entry only if its description starts with
/// "Button"; under the axes filter only if it starts with "Axis".
pub proof fn law_kind_filter_narrows_the_log<S>(app: &App<S>, entry: EventEntry)
    ensures
        app.event_kind_filter == EventKindFilter::Buttons && app.passes_filters(entry) ==> (
        entry.description@.len() >= 6 && entry.description@.subrange(0, 6) == seq![
            'B',
            'u',
            't',
            't',
            'o',
            'n',
        ]),
        app.event_kind_filter == EventKindFilter::Axes && app.passes_filters(entry) ==> (
        entry.description@.len() >= 4 && entry.description@.subrange(0, 4) == seq![
            'A',
            'x',
            'i',
            's',
        ]),
{
    law_kind_filters_partition_events(entry.description@);
}

impl<S> App<S> {
    /// Moves to the next kind filter and names it in the status line.
    pub fn cycle_event_kind_filter(&mut self)
        ensures
            final(self).devices@ == old(self).devices@,
            final(self).device_order@ == old(self).device_order@,
            final(self).selected_id == old(self).selected_id,
            final(self).event_scroll_anchor == old(self).event_scroll_anchor,
            final(self).event_scroll_offset == old(self).event_scroll_offset,
            final(self).event_device_filter == old(self).event_device_filter,
            final(self).event_search@ == old(self).event_search@,
            final(self).event_search_state == old(self).event_search_state,
            final(self).same_log(old(self)),
            final(self).same_sessions(old(self)),
            final(self).same_panels(old(self)),
            final(self).event_kind_filter == following_kind(old(self).event_kind_filter),
            final(self).status@ == "Event filter: "@ + kind_label(final(self).event_kind_filter),
            final(self).events@ == old(self).events@,
            final(self).event_device_filter == old(self).event_device_filter,
    {
        self.event_kind_filter = self.event_kind_filter.next();
        self.status = joined("Event filter: ", self.event_kind_filter.label());
    }

    /// Switches between all controllers and the selected one.
    pub fn toggle_event_device_filter(&mut self)
        ensures
            final(self).devices@ == old(self).devices@,
            final(self).device_order@ == old(self).device_order@,
            final(self).selected_id == old(self).selected_id,
            final(self).event_scroll_anchor == old(self).event_scroll_anchor,
            final(self).event_scroll_offset == old(self).event_scroll_offset,
            final(self).event_kind_filter == old(self).event_kind_filter,
            final(self).event_search@ == old(self).event_search@,
            final(self).event_search_state == old(self).event_search_state,
            final(self).same_log(old(self)),
            final(self).same_sessions(old(self)),
            final(self).same_panels(old(self)),
            final(self).event_device_filter == match old(self).event_device_filter {
                EventDeviceFilter::All => EventDeviceFilter::Selected,
                EventDeviceFilter::Selected => EventDeviceFilter::All,
            },
            final(self).status@ == if final(self).event_device_filter == EventDeviceFilter::Selected {
                "Event filter: selected controller only"@
            } else {
                "Event filter: all controllers"@
            },
            final(self).events@ == old(self).events@,
            final(self).event_kind_filter == old(self).event_kind_filter,
    {
        self.event_device_filter = match self.event_device_filter {
            EventDeviceFilter::All => EventDeviceFilter::Selected,
            EventDeviceFilter::Selected => EventDeviceFilter::All,
        };
        self.status = if self.event_device_filter == EventDeviceFilter::Selected {
            "Event filter: selected controller only".to_owned()
        } else {
            "Event filter: all controllers".to_owned()
        };
    }

    /// Whether the log shows `entry` under the current device filter, kind filter and search.
    pub fn event_is_visible(&self, entry: &EventEntry) -> (visible: bool)
        ensures
            visible == self.passes_filters(*entry),
    {
        let device_matches = self.event_device_filter == EventDeviceFilter::All || entry.device_id
            == self.selected_id;
        let description = entry.description.as_str();
        let kind = match self.event_kind_filter {
            EventKindFilter::All => true,
            EventKindFilter::Buttons => starts_with(description, "Button"),
            EventKindFilter::Axes => starts_with(description, "Axis"),
            EventKindFilter::System => !starts_with(description, "Button") && !starts_with(
                description,
                "Axis",
            ),
        };
        let search = self.event_search.as_str().is_empty() || contains(
            to_lowercase(description).as_str(),
            to_lowercase(self.event_search.as_str()).as_str(),
        );
        device_matches && kind && search
    }

    /// The selected controller's button and axis events, oldest first, from which the event
    /// timing is measured; `None` when no controller is selected.
    pub fn selected_timing_events(&self) -> (events: Option<Vec<EventEntry>>)
        ensures
            match self.selected_id {
                None => events is None,
                Some(id) => events is Some && events->0@ == self.events@.filter(
                    |entry: EventEntry| entry.device_id == Some(id) && (is_button_event(
                        entry.description@,
                    ) || is_axis_event(entry.description@)),
                ),
            },
    {
        let id = match self.selected_id {
            Some(id) => id,
            None => return None,
        };
        let ghost keep = |entry: EventEntry|
            entry.device_id == Some(id) && (is_button_event(entry.description@) || is_axis_event(
                entry.description@,
            ));
        let mut chosen: Vec<EventEntry> = Vec::new();
        let mut i: usize = 0;
        while i < self.events.len()
            invariant
                i <= self.events@.len(),
                chosen@ == self.events@.take(i as int).filter(keep),
                keep == (|entry: EventEntry|
                    entry.device_id == Some(id) && (is_button_event(entry.description@)
                        || is_axis_event(entry.description@))),
            decreases self.events@.len() - i,
        {
            let entry = &self.events[i];
            proof {
                assert(self.events@.take(i + 1).drop_last() == self.events@.take(i as int));
                reveal_with_fuel(Seq::filter, 1);
            }
            if entry.device_id == Some(id) && (starts_with(entry.description.as_str(), "Button")
                || starts_with(entry.description.as_str(), "Axis")) {
                chosen.push(
                    EventEntry {
                        sequence: entry.sequence,
                        elapsed: entry.elapsed.clone(),
                        device_id: entry.device_id,
                        description: entry.description.clone(),
                    },
                );
            }
            i = i + 1;
        }
        proof {
            assert(self.events@.take(self.events@.len() as int) == self.events@);
        }
        Some(chosen)
    }
}


impl<S> App<S> {
    /// The entry passes the device filter, the kind filter and the search.
    pub open spec fn passes_filters(&self, entry: EventEntry) -> bool {
        &&& (self.event_device_filter == EventDeviceFilter::All || entry.device_id
            == self.selected_id)
        &&& kind_matches(self.event_kind_filter, entry.description@)
        &&& search_matches(self.event_search@, entry.description@)
    }

    /// The log shows the entry: it is not newer than the pause anchor, and it passes the
    /// filters.
    pub open spec fn shows(&self, entry: EventEntry) -> bool {
        &&& match self.event_scroll_anchor {
            Some(anchor) => entry.sequence <= anchor,
            None => true,
        }
        &&& self.passes_filters(entry)
    }

    /// The positions in the log of the shown entries among its first `count`, oldest first.
    pub open spec fn shown_positions(&self, count: nat) -> Seq<usize>
        decreases count,
    {
        if count == 0 {
            Seq::empty()
        } else {
            let earlier = self.shown_positions((count - 1) as nat);
            if self.shows(self.events@[count - 1]) {
                earlier.push((count - 1) as usize)
            } else {
                earlier
            }
        }
    }

    /// What a log view of `rows` lines shows: the shown entries, scrolled back by the scroll
    /// offset from the newest and cut to the last `rows` before that point.
    pub open spec fn window_of(&self, rows: nat) -> Seq<usize> {
        let shown = self.shown_positions(self.events@.len());
        let end = if self.event_scroll_offset < shown.len() {
            shown.len() - self.event_scroll_offset
        } else {
            0
        };
        let start = if rows < end {
            end - rows
        } else {
            0
        };
        shown.subrange(start, end)
    }

    /// The positions in the log of the entries a view of `rows` lines shows, oldest first.
    pub fn event_window(&self, rows: usize) -> (window: Vec<usize>)
        ensures
            window@ == self.window_of(rows as nat),
            forall|k: int| 0 <= k < window@.len() ==> window@[k] < self.events@.len(),
    {
        let mut shown: Vec<usize> = Vec::new();
        let mut i: usize = 0;
        while i < self.events.len()
            invariant
                i <= self.events@.len(),
                shown@ == self.shown_positions(i as nat),
                forall|k: int| 0 <= k < shown@.len() ==> shown@[k] < i,
            decreases self.events@.len() - i,
        {
            let entry = &self.events[i];
            let before_anchor = match self.event_scroll_anchor {
                Some(anchor) => entry.sequence <= anchor,
                None => true,
            };
            if before_anchor && self.event_is_visible(entry) {
                shown.push(i);
            }
            i = i + 1;
        }
        let end = if self.event_scroll_offset < shown.len() {
            shown.len() - self.event_scroll_offset
        } else {
            0
        };
        let start = if rows < end {
            end - rows
        } else {
            0
        };
        let mut window: Vec<usize> = Vec::new();
        let mut k: usize = start;
        while k < end
            invariant
                start <= k <= end <= shown@.len(),
                window@ == shown@.subrange(start as int, k as int),
                forall|j: int| 0 <= j < shown@.len() ==> shown@[j] < self.events@.len(),
            decreases end - k,
        {
            window.push(shown[k]);
            k = k + 1;
        }
        window
    }
}

} // verus!
