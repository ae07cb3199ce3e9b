//! Starting, stopping and feeding the diagnostics of the selected controller.

use vstd::prelude::*;
use super::{App, joined, appended};
use crate::drift::{side_label, tick_abandons, tick_completes, tick_phase, LATEST_TIMESTAMP_NANOS, StickSide};
use crate::range::RangePhase;
use crate::controls::{ensure_keys, expected_models, ensure_key, key_position};

verus! {

broadcast use vstd::std_specs::hash::group_hash_axioms;

/// `after` is `before` with one notice logged for `device_id`: the status line shows it and
/// the log gains it as its newest event.
pub open spec fn noticed<S>(
    before: &App<S>,
    after: &App<S>,
    device_id: Option<usize>,
    description: Seq<char>,
) -> bool {
    &&& after.status@ == description
    &&& after.events@ == appended(before.events@, after.events@.last())
    &&& after.events@.last().sequence == before.next_event_sequence
    &&& after.events@.last().device_id == device_id
    &&& after.events@.last().description@ == description
    &&& after.next_event_sequence == before.next_event_sequence + 1
    &&& after.logged_since(before, 1)
}

/// `after` logged nothing and kept the status line of `before`.
pub open spec fn quiet<S>(before: &App<S>, after: &App<S>) -> bool {
    &&& after.status@ == before.status@
    &&& after.events@ == before.events@
    &&& after.next_event_sequence == before.next_event_sequence
    &&& after.evicted_event_count == before.evicted_event_count
}

/// The devices, the selection and the other sessions are those of `before`.
pub open spec fn same_devices<S>(before: &App<S>, after: &App<S>) -> bool {
    &&& after.devices@ == before.devices@
    &&& after.device_order@ == before.device_order@
    &&& after.selected_id == before.selected_id
}

/// The selected controller is known and connected.
pub open spec fn selected_connected<S>(app: &App<S>) -> bool {
    &&& app.selected_id is Some
    &&& app.devices@.contains_key(app.selected_id->0)
    &&& app.devices@[app.selected_id->0].connected
}

/// The notice a diagnostic gives when it cannot start on the selection: `None` when it can.
pub open spec fn unavailable_notice<S>(
    app: &App<S>,
    none_selected: Seq<char>,
    disconnected: Seq<char>,
) -> Option<Seq<char>> {
    if app.selected_id is None || !app.devices@.contains_key(app.selected_id->0) {
        Some(none_selected)
    } else if !app.devices@[app.selected_id->0].connected {
        Some(disconnected)
    } else {
        None
    }
}

impl<S> App<S> {
    /// Asks for the selected controller's observations to be reset. Returns the controller
    /// whose observations the caller resets, after logging it; logs why not otherwise.
    pub fn reset_selected_observations(&mut self) -> (reset: Option<usize>)
        requires
            old(self).has_room(1),
        ensures
            final(self).same_event_view(old(self)),
            final(self).same_panels(old(self)),
            same_devices(old(self), final(self)),
            final(self).drift_test == old(self).drift_test,
            final(self).range_test == old(self).range_test,
            match old(self).selected_id {
                None => reset is None && noticed(
                    old(self),
                    final(self),
                    None,
                    "No controller selected"@,
                ),
                Some(id) => if old(self).devices@.contains_key(id) {
                    reset == Some(id) && noticed(
                        old(self),
                        final(self),
                        Some(id),
                        "Session observations reset"@,
                    )
                } else {
                    reset is None && noticed(
                        old(self),
                        final(self),
                        Some(id),
                        "Selected controller is unavailable"@,
                    )
                },
            },
            old(self).log_ordered() ==> final(self).log_ordered(),
    {
        let id = match self.selected_id {
            Some(id) => id,
            None => {
                self.record_notice("No controller selected");
                return None;
            },
        };
        if !self.devices.contains_key(&id) {
            self.record_notice("Selected controller is unavailable");
            return None;
        }
        self.record_notice_for(Some(id), "Session observations reset");
        Some(id)
    }

    /// Chooses the stick of the drift test and names it in the status line.
    pub fn select_drift_stick(&mut self, side: StickSide)
        ensures
            final(self).same_event_view(old(self)),
            final(self).same_panels(old(self)),
            final(self).status@ == side_label(side) + " stick selected for drift test"@,
            same_devices(old(self), final(self)),
            final(self).events@ == old(self).events@,
            final(self).drift_test.spec_device_id() == old(self).drift_test.spec_device_id(),
            match old(self).drift_test.phase() {
                crate::drift::DriftPhase::Ready | crate::drift::DriftPhase::Complete(_) => {
                    &&& final(self).drift_test.spec_side() == side
                    &&& final(self).drift_test.phase() is Ready
                },
                _ => final(self).drift_test == old(self).drift_test,
            },
    {
        self.drift_test.select_side(side);
        self.status = joined(side.label(), " stick selected for drift test");
    }

    /// Starts the drift test on the selected controller at `now`, when it is connected.
    pub fn start_drift_test(&mut self, now: u64)
        requires
            old(self).has_room(1),
        ensures
            final(self).same_event_view(old(self)),
            final(self).same_panels(old(self)),
            same_devices(old(self), final(self)),
            match unavailable_notice(
                old(self),
                "Drift test unavailable: no controller selected"@,
                "Drift test unavailable: controller disconnected"@,
            ) {
                Some(notice) => {
                    &&& final(self).drift_test == old(self).drift_test
                    &&& noticed(old(self), final(self), old(self).selected_id, notice)
                },
                None => {
                    let id = old(self).selected_id->0;
                    &&& final(self).drift_test.spec_device_id() == Some(id)
                    &&& final(self).drift_test.spec_side() == old(self).drift_test.spec_side()
                    &&& final(self).drift_test.phase() == crate::drift::DriftPhase::<S>::Countdown {
                        started_at: now,
                    }
                    &&& noticed(
                        old(self),
                        final(self),
                        Some(id),
                        side_label(old(self).drift_test.spec_side())
                            + " stick drift test starting — release the stick"@,
                    )
                },
            },
            old(self).log_ordered() ==> final(self).log_ordered(),
    {
        let id = match self.selected_id {
            Some(id) => id,
            None => {
                self.record_notice("Drift test unavailable: no controller selected");
                return;
            },
        };
        let connected = match self.devices.get(&id) {
            Some(device) => device.connected,
            None => {
                self.record_notice("Drift test unavailable: no controller selected");
                return;
            },
        };
        if !connected {
            self.record_notice_for(Some(id), "Drift test unavailable: controller disconnected");
            return;
        }
        self.drift_test.start(id, now);
        let notice = joined(
            self.drift_test.side().label(),
            " stick drift test starting — release the stick",
        );
        self.record_notice_for(Some(id), notice.as_str());
    }

    /// Cancels a drift test that is attached to a controller.
    pub fn cancel_drift_test(&mut self)
        requires
            old(self).has_room(1),
        ensures
            final(self).same_event_view(old(self)),
            final(self).same_panels(old(self)),
            same_devices(old(self), final(self)),
            if old(self).drift_test.spec_device_id() is Some {
                &&& final(self).drift_test.spec_device_id() is None
                &&& final(self).drift_test.phase() is Ready
                &&& final(self).drift_test.spec_side() == old(self).drift_test.spec_side()
                &&& noticed(old(self), final(self), old(self).selected_id, "Drift test cancelled"@)
            } else {
                &&& final(self).drift_test == old(self).drift_test
                &&& quiet(old(self), final(self))
            },
            old(self).log_ordered() ==> final(self).log_ordered(),
    {
        if self.drift_test.device_id().is_some() {
            self.drift_test.cancel();
            self.record_notice("Drift test cancelled");
        }
    }

    /// Chooses the stick of the range test and names it in the status line.
    pub fn select_range_stick(&mut self, side: StickSide)
        ensures
            final(self).same_event_view(old(self)),
            final(self).same_panels(old(self)),
            final(self).status@ == side_label(side) + " stick selected for range test"@,
            same_devices(old(self), final(self)),
            final(self).events@ == old(self).events@,
            final(self).range_test.spec_device_id() == old(self).range_test.spec_device_id(),
            match old(self).range_test.phase() {
                RangePhase::Recording(_) => final(self).range_test == old(self).range_test,
                _ => {
                    &&& final(self).range_test.spec_side() == side
                    &&& final(self).range_test.phase() is Ready
                },
            },
    {
        self.range_test.select_side(side);
        self.status = joined(side.label(), " stick selected for range test");
    }

    /// Ends a running range recording, or starts one on the selected controller when it is
    /// connected. `reaches_edge` tells whether the running recording reached the stick's outer
    /// edge (see [`crate::range::RangeTest::finish`]); it is ignored when no recording runs.
    pub fn toggle_range_test(&mut self, reaches_edge: bool)
        requires
            old(self).has_room(1),
        ensures
            final(self).same_event_view(old(self)),
            final(self).same_panels(old(self)),
            same_devices(old(self), final(self)),
            match old(self).range_test.phase() {
                RangePhase::Recording(samples) => {
                    let completed = reaches_edge && samples.len() > 0;
                    &&& completed ==> final(self).range_test.phase() == RangePhase::Complete(
                        samples,
                    )
                    &&& !completed ==> final(self).range_test.phase() is Ready
                    &&& noticed(
                        old(self),
                        final(self),
                        old(self).selected_id,
                        if completed {
                            "Stick range test completed"@
                        } else {
                            "Range test needs movement around the outer edge"@
                        },
                    )
                },
                _ => match unavailable_notice(
                old(self),
                "Range test unavailable: no controller selected"@,
                "Range test unavailable: controller disconnected"@,
            ) {
                    Some(notice) => {
                        &&& final(self).range_test == old(self).range_test
                        &&& noticed(old(self), final(self), old(self).selected_id, notice)
                    },
                    None => {
                        let id = old(self).selected_id->0;
                        &&& final(self).range_test.spec_device_id() == Some(id)
                        &&& final(self).range_test.spec_side() == old(self).range_test.spec_side()
                        &&& final(self).range_test.phase() == RangePhase::<S>::Recording(
                            Seq::empty(),
                        )
                        &&& noticed(
                            old(self),
                            final(self),
                            Some(id),
                            "Recording "@ + side_label(old(self).range_test.spec_side())
                                + " stick range — trace the outer edge, then press s"@,
                        )
                    },
                },
            },
            old(self).log_ordered() ==> final(self).log_ordered(),
    {
        if self.range_test.is_recording() {
            let completed = self.range_test.finish(reaches_edge);
            if completed {
                self.record_notice("Stick range test completed");
            } else {
                self.record_notice("Range test needs movement around the outer edge");
            }
            return;
        }
        let id = match self.selected_id {
            Some(id) => id,
            None => {
                self.record_notice("Range test unavailable: no controller selected");
                return;
            },
        };
        let connected = match self.devices.get(&id) {
            Some(device) => device.connected,
            None => {
                self.record_notice("Range test unavailable: no controller selected");
                return;
            },
        };
        if !connected {
            self.record_notice_for(Some(id), "Range test unavailable: controller disconnected");
            return;
        }
        self.range_test.start(id);
        let first = joined("Recording ", self.range_test.side().label());
        let notice = joined(first.as_str(), " stick range — trace the outer edge, then press s");
        self.record_notice_for(Some(id), notice.as_str());
    }

    /// Cancels a range test that is attached to a controller.
    pub fn cancel_range_test(&mut self)
        requires
            old(self).has_room(1),
        ensures
            final(self).same_event_view(old(self)),
            final(self).same_panels(old(self)),
            same_devices(old(self), final(self)),
            if old(self).range_test.spec_device_id() is Some {
                &&& final(self).range_test.spec_device_id() is None
                &&& final(self).range_test.phase() is Ready
                &&& final(self).range_test.spec_side() == old(self).range_test.spec_side()
                &&& noticed(old(self), final(self), old(self).selected_id, "Range test cancelled"@)
            } else {
                &&& final(self).range_test == old(self).range_test
                &&& quiet(old(self), final(self))
            },
            old(self).log_ordered() ==> final(self).log_ordered(),
    {
        if self.range_test.device_id().is_some() {
            self.range_test.cancel();
            self.record_notice("Range test cancelled");
        }
    }

    /// Starts the control checklist on the selected controller when it is connected;
    /// `observed` are the keys of the controls already seen on it.
    pub fn start_control_checklist(&mut self, observed: Vec<String>)
        requires
            old(self).has_room(1),
        ensures
            final(self).same_event_view(old(self)),
            final(self).same_panels(old(self)),
            same_devices(old(self), final(self)),
            match unavailable_notice(
                old(self),
                "Control checklist unavailable: no controller selected"@,
                "Control checklist unavailable: controller disconnected"@,
            ) {
                Some(notice) => {
                    &&& final(self).control_checklist == old(self).control_checklist
                    &&& noticed(old(self), final(self), old(self).selected_id, notice)
                },
                None => {
                    let id = old(self).selected_id->0;
                    &&& final(self).control_checklist@.device_id == Some(id)
                    &&& final(self).control_checklist@.items == ensure_keys(
                        expected_models(),
                        observed@.map_values(|key: String| key@),
                    )
                    &&& final(self).control_checklist@.selected == 0
                    &&& final(self).control_checklist@.active
                    &&& noticed(old(self), final(self), Some(id), "Control checklist started"@)
                },
            },
            old(self).log_ordered() ==> final(self).log_ordered(),
    {
        let id = match self.selected_id {
            Some(id) => id,
            None => {
                self.record_notice("Control checklist unavailable: no controller selected");
                return;
            },
        };
        let connected = match self.devices.get(&id) {
            Some(device) => device.connected,
            None => {
                self.record_notice("Control checklist unavailable: no controller selected");
                return;
            },
        };
        if !connected {
            self.record_notice_for(
                Some(id),
                "Control checklist unavailable: controller disconnected",
            );
            return;
        }
        self.control_checklist.start(id, observed);
        self.record_notice_for(Some(id), "Control checklist started");
    }

    /// Finishes an active control checklist.
    pub fn finish_control_checklist(&mut self)
        requires
            old(self).has_room(1),
        ensures
            final(self).same_event_view(old(self)),
            final(self).same_panels(old(self)),
            same_devices(old(self), final(self)),
            if old(self).control_checklist@.active {
                &&& final(self).control_checklist@ == (crate::controls::ChecklistModel {
                    active: false,
                    ..old(self).control_checklist@
                })
                &&& noticed(
                    old(self),
                    final(self),
                    old(self).selected_id,
                    "Control checklist finished"@,
                )
            } else {
                &&& final(self).control_checklist == old(self).control_checklist
                &&& quiet(old(self), final(self))
            },
            old(self).log_ordered() ==> final(self).log_ordered(),
    {
        if self.control_checklist.is_active() {
            self.control_checklist.finish();
            self.record_notice("Control checklist finished");
        }
    }

    /// Advances the drift test to `now`. `position` is where the caller reads the stick of the
    /// drift test's controller; it is used only while that controller is known and connected.
    /// Logs the completion of the test.
    pub fn update_diagnostics(&mut self, now: u64, position: Option<S>)
        requires
            old(self).has_room(1),
            now <= LATEST_TIMESTAMP_NANOS,
        ensures
            final(self).same_event_view(old(self)),
            final(self).same_panels(old(self)),
            same_devices(old(self), final(self)),
            ({
                let used = match old(self).drift_test.spec_device_id() {
                    Some(id) => if old(self).devices@.contains_key(id)
                        && old(self).devices@[id].connected {
                        position
                    } else {
                        None
                    },
                    None => None,
                };
                let phase = old(self).drift_test.phase();
                &&& final(self).drift_test.phase() == tick_phase(phase, now, used)
                &&& final(self).drift_test.spec_side() == old(self).drift_test.spec_side()
                &&& final(self).drift_test.spec_device_id() == if tick_abandons(phase, now) {
                    None
                } else {
                    old(self).drift_test.spec_device_id()
                }
                &&& if tick_completes(phase, now) {
                    noticed(old(self), final(self), old(self).selected_id, "Drift test completed"@)
                } else {
                    quiet(old(self), final(self))
                }
            }),
            old(self).log_ordered() ==> final(self).log_ordered(),
    {
        let used = match self.drift_test.device_id() {
            Some(id) => match self.devices.get(&id) {
                Some(device) => if device.connected {
                    position
                } else {
                    None
                },
                None => None,
            },
            None => None,
        };
        if self.drift_test.tick(now, used) {
            self.record_notice("Drift test completed");
        }
    }

    /// Feeds one controller event of a known controller to the diagnostics and logs it.
    /// `range_position` is the range test's stick position when the event moved that stick,
    /// `checklist_key` the checklist key of the control when the event counts as an
    /// activation. Events of unknown controllers are ignored; returns whether it was known.
    pub fn record_controller_event(
        &mut self,
        id: usize,
        range_position: Option<S>,
        checklist_key: Option<&str>,
        description: String,
    ) -> (known: bool)
        requires
            old(self).has_room(1),
            checklist_key is Some && old(self).control_checklist@.active
                && old(self).control_checklist@.device_id == Some(id) ==> forall|i: int|
                0 <= i < old(self).control_checklist@.items.len()
                    && old(self).control_checklist@.items[i].key == checklist_key->0@
                    ==> old(self).control_checklist@.items[i].activation_count < u64::MAX,
        ensures
            final(self).same_event_view(old(self)),
            final(self).same_panels(old(self)),
            same_devices(old(self), final(self)),
            known == old(self).devices@.contains_key(id),
            !known ==> {
                &&& quiet(old(self), final(self))
                &&& final(self).range_test == old(self).range_test
                &&& final(self).control_checklist == old(self).control_checklist
            },
            known ==> {
                &&& final(self).status@ == old(self).status@
                &&& final(self).events@ == appended(old(self).events@, final(self).events@.last())
                &&& final(self).events@.last().sequence == old(self).next_event_sequence
                &&& final(self).events@.last().device_id == Some(id)
                &&& final(self).events@.last().description@ == description@
                &&& final(self).next_event_sequence == old(self).next_event_sequence + 1
                &&& match range_position {
                    Some(p) => match old(self).range_test.phase() {
                        RangePhase::Recording(samples) => if old(self).range_test.spec_device_id()
                            == Some(id) {
                            final(self).range_test.phase() == RangePhase::Recording(
                                crate::range::recorded(samples, p),
                            )
                        } else {
                            final(self).range_test.phase() == old(self).range_test.phase()
                        },
                        _ => final(self).range_test.phase() == old(self).range_test.phase(),
                    },
                    None => final(self).range_test == old(self).range_test,
                }
                &&& match checklist_key {
                    Some(key) => {
                        let before = old(self).control_checklist@;
                        if before.active && before.device_id == Some(id) {
                            let items = ensure_key(before.items, key@, true);
                            let at = key_position(items, key@);
                            final(self).control_checklist@.items == items.update(
                                at,
                                crate::controls::ItemModel {
                                    status: crate::controls::ChecklistStatus::Observed,
                                    activation_count: (items[at].activation_count + 1) as u64,
                                    ..items[at]
                                },
                            )
                        } else {
                            final(self).control_checklist@ == before
                        }
                    },
                    None => final(self).control_checklist == old(self).control_checklist,
                }
            },
            old(self).log_ordered() ==> final(self).log_ordered(),
    {
        if !self.devices.contains_key(&id) {
            return false;
        }
        match range_position {
            Some(position) => self.range_test.record(id, position),
            None => {},
        }
        match checklist_key {
            Some(key) => self.control_checklist.observe(id, key),
            None => {},
        }
        self.push_event(Some(id), description);
        true
    }
}

} // verus!
