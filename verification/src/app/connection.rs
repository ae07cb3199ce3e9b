//! Controllers arriving and leaving.

use vstd::prelude::*;
use super::{App, DeviceMetadata, DeviceState, EventEntry, EVENT_CAPACITY, appended, joined};

verus! {

broadcast use vstd::std_specs::hash::group_hash_axioms;

/// The log after appending each of `added` in turn.
pub open spec fn log_after(events: Seq<EventEntry>, added: Seq<EventEntry>) -> Seq<EventEntry>
    decreases added.len(),
{
    if added.len() == 0 {
        events
    } else {
        appended(log_after(events, added.drop_last()), added.last())
    }
}

/// The newest `count` events of a log.
pub open spec fn newest(events: Seq<EventEntry>, count: nat) -> Seq<EventEntry> {
    events.subrange(events.len() - count, events.len() as int)
}

/// `added` are events numbered from `first`, in order, for `device_id`, with the given
/// descriptions.
pub open spec fn numbered_for(
    added: Seq<EventEntry>,
    first: u64,
    device_id: Option<usize>,
    descriptions: Seq<Seq<char>>,
) -> bool {
    &&& added.len() == descriptions.len()
    &&& forall|j: int|
        0 <= j < added.len() ==> {
            &&& #[trigger] added[j].sequence == first + j
            &&& added[j].device_id == device_id
            &&& added[j].description@ == descriptions[j]
        }
}

/// The notices a disconnection logs: the disconnection itself, then one for each diagnostic
/// that was running on the controller.
pub open spec fn disconnect_notices(drift: bool, range: bool, checklist: bool) -> Seq<Seq<char>> {
    seq!["Disconnected"@] + (if drift {
        seq!["Drift test cancelled: controller disconnected"@]
    } else {
        Seq::empty()
    }) + (if range {
        seq!["Range test cancelled: controller disconnected"@]
    } else {
        Seq::empty()
    }) + (if checklist {
        seq!["Control checklist interrupted: controller disconnected"@]
    } else {
        Seq::empty()
    })
}

/// The newest entries of a log are the ones appended last.
pub proof fn lemma_log_after_ends_with(events: Seq<EventEntry>, added: Seq<EventEntry>)
    requires
        added.len() <= EVENT_CAPACITY,
    ensures
        log_after(events, added).len() >= added.len(),
        newest(log_after(events, added), added.len()) == added,
    decreases added.len(),
{
    if added.len() > 0 {
        let before = log_after(events, added.drop_last());
        lemma_log_after_ends_with(events, added.drop_last());
        let after = appended(before, added.last());
        assert(newest(after, added.len()) =~= newest(before, (added.len() - 1) as nat).push(
            added.last(),
        ));
    }
}

impl<S> App<S> {
    /// Registers a controller (or refreshes a known one) as connected, selects it when nothing
    /// is selected, and logs the connection.
    pub fn connect(&mut self, id: usize, metadata: DeviceMetadata)
        requires
            old(self).has_room(1),
        ensures
            final(self).same_event_view(old(self)),
            final(self).same_panels(old(self)),
            final(self).logged_since(old(self), 1),
            final(self).devices@ == old(self).devices@.insert(
                id,
                DeviceState { metadata, connected: true },
            ),
            final(self).device_order@ == if old(self).devices@.contains_key(id) {
                old(self).device_order@
            } else {
                old(self).device_order@.push(id)
            },
            final(self).selected_id == if old(self).selected_id is None {
                Some(id)
            } else {
                old(self).selected_id
            },
            final(self).status@ == metadata.name@ + " connected"@,
            final(self).events@ == appended(old(self).events@, final(self).events@.last()),
            final(self).events@.last().sequence == old(self).next_event_sequence,
            final(self).events@.last().device_id == Some(id),
            final(self).events@.last().description@ == "Connected"@,
            final(self).next_event_sequence == old(self).next_event_sequence + 1,
            final(self).drift_test == old(self).drift_test,
            final(self).range_test == old(self).range_test,
            final(self).control_checklist == old(self).control_checklist,
            final(self).active_tab == old(self).active_tab,
            old(self).log_ordered() ==> final(self).log_ordered(),
    {
        let status = joined(metadata.name.as_str(), " connected");
        let known = self.devices.contains_key(&id);
        self.devices.insert(id, DeviceState { metadata, connected: true });
        if !known {
            self.device_order.push(id);
        }
        if self.selected_id.is_none() {
            self.selected_id = Some(id);
        }
        self.status = status;
        self.push_event(Some(id), "Connected".to_owned());
    }

    /// Marks a known controller disconnected, logs it, and stops the diagnostics that were
    /// running on it: the drift and range tests are cancelled and the checklist is finished.
    /// The selection is kept. An unknown controller is ignored.
    #[verifier::rlimit(60)]
    pub fn disconnect(&mut self, id: usize)
        requires
            old(self).has_room(4),
        ensures
            final(self).same_event_view(old(self)),
            final(self).same_panels(old(self)),
            !old(self).devices@.contains_key(id) ==> {
                &&& final(self).devices@ == old(self).devices@
                &&& final(self).events@ == old(self).events@
                &&& final(self).status@ == old(self).status@
                &&& final(self).next_event_sequence == old(self).next_event_sequence
                &&& final(self).evicted_event_count == old(self).evicted_event_count
                &&& final(self).drift_test == old(self).drift_test
                &&& final(self).range_test == old(self).range_test
                &&& final(self).control_checklist == old(self).control_checklist
            },
            old(self).devices@.contains_key(id) ==> {
                let drift = old(self).drift_test.spec_device_id() == Some(id);
                let range = old(self).range_test.spec_device_id() == Some(id);
                let checklist = old(self).control_checklist@.device_id == Some(id);
                let notices = disconnect_notices(drift, range, checklist);
                let added = newest(final(self).events@, notices.len());
                let name = old(self).devices@[id].metadata.name@;
                &&& final(self).devices@ == old(self).devices@.insert(
                    id,
                    DeviceState { connected: false, ..old(self).devices@[id] },
                )
                &&& final(self).events@.len() >= notices.len()
                &&& final(self).events@ == log_after(old(self).events@, added)
                &&& numbered_for(added, old(self).next_event_sequence, Some(id), notices)
                &&& final(self).next_event_sequence == old(self).next_event_sequence
                    + notices.len()
                &&& final(self).logged_since(old(self), notices.len())
                &&& final(self).status@ == if notices.len() > 1 {
                    notices.last()
                } else if old(self).selected_id == Some(id) {
                    "Selected controller disconnected: "@ + name
                } else {
                    name + " disconnected"@
                }
                &&& if drift {
                    &&& final(self).drift_test.phase() is Ready
                    &&& final(self).drift_test.spec_device_id() is None
                    &&& final(self).drift_test.spec_side() == old(self).drift_test.spec_side()
                } else {
                    final(self).drift_test == old(self).drift_test
                }
                &&& if range {
                    &&& final(self).range_test.phase() is Ready
                    &&& final(self).range_test.spec_device_id() is None
                    &&& final(self).range_test.spec_side() == old(self).range_test.spec_side()
                } else {
                    final(self).range_test == old(self).range_test
                }
                &&& if checklist {
                    final(self).control_checklist@ == (crate::controls::ChecklistModel {
                        active: false,
                        ..old(self).control_checklist@
                    })
                } else {
                    final(self).control_checklist == old(self).control_checklist
                }
            },
            final(self).device_order@ == old(self).device_order@,
            final(self).selected_id == old(self).selected_id,
            old(self).log_ordered() ==> final(self).log_ordered(),
    {
        let device = match self.devices.remove(&id) {
            Some(device) => device,
            None => return,
        };
        let ghost old_device = device;
        let name = device.metadata.name.clone();
        let updated = DeviceState { metadata: device.metadata, connected: false };
        self.devices.insert(id, updated);
        proof {
            assert(self.devices@ == old(self).devices@.insert(
                id,
                DeviceState { connected: false, ..old(self).devices@[id] },
            ));
        }
        let status = if self.selected_id == Some(id) {
            joined("Selected controller disconnected: ", name.as_str())
        } else {
            joined(name.as_str(), " disconnected")
        };
        self.status = status;
        let ghost drift = old(self).drift_test.spec_device_id() == Some(id);
        let ghost range = old(self).range_test.spec_device_id() == Some(id);
        let ghost checklist = old(self).control_checklist@.device_id == Some(id);
        let ghost mut added: Seq<EventEntry> = Seq::empty();
        let ghost mut descriptions: Seq<Seq<char>> = Seq::empty();
        self.push_event(Some(id), "Disconnected".to_owned());
        proof {
            added = added.push(self.events@.last());
            descriptions = descriptions.push("Disconnected"@);
            assert(added.drop_last() =~= Seq::<EventEntry>::empty());
            assert(log_after(old(self).events@, added.drop_last()) == old(self).events@);
            assert(log_after(old(self).events@, added) == self.events@);
            assert(numbered_for(added, old(self).next_event_sequence, Some(id), descriptions));
            assert(self.logged_since(old(self), added.len()));
        }
        if self.drift_test.device_id() == Some(id) {
            self.drift_test.cancel();
            let ghost before = self.events@;
            self.record_notice_for(Some(id), "Drift test cancelled: controller disconnected");
            proof {
                assert(added.push(self.events@.last()).drop_last() == added);
                added = added.push(self.events@.last());
                descriptions = descriptions.push("Drift test cancelled: controller disconnected"@);
                assert(self.events@ == log_after(old(self).events@, added));
                assert(numbered_for(added, old(self).next_event_sequence, Some(id), descriptions));
                assert(self.next_event_sequence == old(self).next_event_sequence + added.len());
                assert(self.logged_since(old(self), added.len()));
            }
        }
        if self.range_test.device_id() == Some(id) {
            self.range_test.cancel();
            self.record_notice_for(Some(id), "Range test cancelled: controller disconnected");
            proof {
                assert(added.push(self.events@.last()).drop_last() == added);
                added = added.push(self.events@.last());
                descriptions = descriptions.push("Range test cancelled: controller disconnected"@);
                assert(self.events@ == log_after(old(self).events@, added));
                assert(numbered_for(added, old(self).next_event_sequence, Some(id), descriptions));
                assert(self.next_event_sequence == old(self).next_event_sequence + added.len());
                assert(self.logged_since(old(self), added.len()));
            }
        }
        if self.control_checklist.device_id() == Some(id) {
            self.control_checklist.finish();
            self.record_notice_for(
                Some(id),
                "Control checklist interrupted: controller disconnected",
            );
            proof {
                assert(added.push(self.events@.last()).drop_last() == added);
                added = added.push(self.events@.last());
                descriptions = descriptions.push(
                    "Control checklist interrupted: controller disconnected"@,
                );
                assert(self.events@ == log_after(old(self).events@, added));
                assert(numbered_for(added, old(self).next_event_sequence, Some(id), descriptions));
                assert(self.next_event_sequence == old(self).next_event_sequence + added.len());
                assert(self.logged_since(old(self), added.len()));
            }
        }
        proof {
            assert(descriptions =~= disconnect_notices(drift, range, checklist));
            assert(self.events@ == log_after(old(self).events@, added));
            assert(numbered_for(added, old(self).next_event_sequence, Some(id), descriptions));
            lemma_log_after_ends_with(old(self).events@, added);
        }
    }
}

} // verus!
