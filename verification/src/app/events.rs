//! Pausing, scrolling and clearing the event log.

use vstd::prelude::*;
use super::{App, EventEntry, EVENT_CAPACITY, FIRST_EVENT_SEQUENCE, appended, newest_sequence, sequences_increase};

verus! {

impl<S> App<S> {
    /// The sequence of the newest event, or zero for an empty log.
    fn newest_event_sequence(&self) -> (sequence: u64)
        ensures
            sequence == newest_sequence(self.events@),
    {
        let len = self.events.len();
        if len == 0 {
            0
        } else {
            self.events[len - 1].sequence
        }
    }

    /// Pauses the log at its newest event, or resumes following it; either way the view returns
    /// to the anchor.
    pub fn toggle_event_scroll(&mut self)
        ensures
            final(self).devices@ == old(self).devices@,
            final(self).device_order@ == old(self).device_order@,
            final(self).selected_id == old(self).selected_id,
            final(self).event_kind_filter == old(self).event_kind_filter,
            final(self).event_device_filter == old(self).event_device_filter,
            final(self).event_search@ == old(self).event_search@,
            final(self).event_search_state == old(self).event_search_state,
            final(self).same_sessions(old(self)),
            final(self).same_panels(old(self)),
            final(self).next_event_sequence == old(self).next_event_sequence,
            final(self).evicted_event_count == old(self).evicted_event_count,
            final(self).status@ == old(self).status@,
            final(self).event_scroll_anchor == if old(self).event_scroll_anchor is None {
                Some(newest_sequence(old(self).events@))
            } else {
                None
            },
            final(self).event_scroll_offset == 0,
            final(self).events@ == old(self).events@,
            final(self).status@ == old(self).status@,
    {
        self.event_scroll_anchor = if self.event_scroll_anchor.is_none() {
            Some(self.newest_event_sequence())
        } else {
            None
        };
        self.event_scroll_offset = 0;
    }

    /// Scrolls one event further into the past, pausing the log first when it follows the
    /// newest event; the offset never passes the oldest event.
    pub fn scroll_events_older(&mut self)
        ensures
            final(self).devices@ == old(self).devices@,
            final(self).device_order@ == old(self).device_order@,
            final(self).selected_id == old(self).selected_id,
            final(self).event_kind_filter == old(self).event_kind_filter,
            final(self).event_device_filter == old(self).event_device_filter,
            final(self).event_search@ == old(self).event_search@,
            final(self).event_search_state == old(self).event_search_state,
            final(self).same_sessions(old(self)),
            final(self).same_panels(old(self)),
            final(self).next_event_sequence == old(self).next_event_sequence,
            final(self).evicted_event_count == old(self).evicted_event_count,
            final(self).status@ == old(self).status@,
            final(self).event_scroll_anchor == if old(self).event_scroll_anchor is None {
                Some(newest_sequence(old(self).events@))
            } else {
                old(self).event_scroll_anchor
            },
            final(self).event_scroll_offset == smaller(
                saturating_increment(old(self).event_scroll_offset) as int,
                if old(self).events@.len() == 0 {
                    0
                } else {
                    old(self).events@.len() - 1
                },
            ),
            final(self).events@ == old(self).events@,
    {
        if self.event_scroll_anchor.is_none() {
            self.event_scroll_anchor = Some(self.newest_event_sequence());
        }
        let next = if self.event_scroll_offset == usize::MAX {
            usize::MAX
        } else {
            self.event_scroll_offset + 1
        };
        let len = self.events.len();
        let oldest = if len == 0 {
            0
        } else {
            len - 1
        };
        self.event_scroll_offset = if next < oldest {
            next
        } else {
            oldest
        };
    }

    /// Scrolls one event back towards the newest, stopping at the anchor.
    pub fn scroll_events_newer(&mut self)
        ensures
            final(self).devices@ == old(self).devices@,
            final(self).device_order@ == old(self).device_order@,
            final(self).selected_id == old(self).selected_id,
            final(self).event_kind_filter == old(self).event_kind_filter,
            final(self).event_device_filter == old(self).event_device_filter,
            final(self).event_search@ == old(self).event_search@,
            final(self).event_search_state == old(self).event_search_state,
            final(self).same_sessions(old(self)),
            final(self).same_panels(old(self)),
            final(self).next_event_sequence == old(self).next_event_sequence,
            final(self).evicted_event_count == old(self).evicted_event_count,
            final(self).status@ == old(self).status@,
            final(self).event_scroll_offset == if old(self).event_scroll_offset == 0 {
                0
            } else {
                old(self).event_scroll_offset - 1
            },
            final(self).event_scroll_anchor == old(self).event_scroll_anchor,
            final(self).events@ == old(self).events@,
    {
        self.event_scroll_offset = if self.event_scroll_offset == 0 {
            0
        } else {
            self.event_scroll_offset - 1
        };
    }

    /// Empties the log and resumes following it.
    pub fn clear_events(&mut self)
        ensures
            final(self).devices@ == old(self).devices@,
            final(self).device_order@ == old(self).device_order@,
            final(self).selected_id == old(self).selected_id,
            final(self).event_kind_filter == old(self).event_kind_filter,
            final(self).event_device_filter == old(self).event_device_filter,
            final(self).event_search@ == old(self).event_search@,
            final(self).event_search_state == old(self).event_search_state,
            final(self).same_sessions(old(self)),
            final(self).same_panels(old(self)),
            final(self).events@ == Seq::<EventEntry>::empty(),
            final(self).event_scroll_anchor is None,
            final(self).event_scroll_offset == 0,
            final(self).evicted_event_count == 0,
            final(self).status@ == "Event history cleared"@,
            final(self).next_event_sequence == old(self).next_event_sequence,
            old(self).next_event_sequence >= FIRST_EVENT_SEQUENCE ==> final(self).log_ordered(),
    {
        self.events.clear();
        self.event_scroll_anchor = None;
        self.event_scroll_offset = 0;
        self.evicted_event_count = 0;
        self.status = "Event history cleared".to_owned();
    }
}

/// One more than `value`, or `value` itself at the top of the range.
pub open spec fn saturating_increment(value: usize) -> usize {
    if value == usize::MAX {
        value
    } else {
        (value + 1) as usize
    }
}

/// The smaller of two integers.
pub open spec fn smaller(a: int, b: int) -> int {
    if a < b {
        a
    } else {
        b
    }
}

/// Once the log is paused, every event logged afterwards is newer than the anchor: its sequence
/// number is greater.
pub proof fn law_paused_log_hides_later_events(events: Seq<EventEntry>, next_sequence: u64, later: EventEntry)
    requires
        sequences_increase(events),
        forall|i: int| 0 <= i < events.len() ==> events[i].sequence < next_sequence,
        next_sequence >= FIRST_EVENT_SEQUENCE,
        events.len() <= EVENT_CAPACITY,
        later.sequence == next_sequence,
    ensures
        appended(events, later).last().sequence > newest_sequence(events),
        sequences_increase(appended(events, later)),
{
    let after = appended(events, later);
    if events.len() == EVENT_CAPACITY {
        assert forall|i: int, j: int| 0 <= i < j < after.len() implies after[i].sequence
            < after[j].sequence by {
            if j < after.len() - 1 {
                assert(after[i] == events[i + 1] && after[j] == events[j + 1]);
            } else {
                assert(after[i] == events[i + 1]);
            }
        }
    } else {
        assert forall|i: int, j: int| 0 <= i < j < after.len() implies after[i].sequence
            < after[j].sequence by {
            if j < after.len() - 1 {
                assert(after[i] == events[i] && after[j] == events[j]);
            } else {
                assert(after[i] == events[i]);
            }
        }
    }
}

} // verus!
