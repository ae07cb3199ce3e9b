//! Tabs and controller selection.

use vstd::prelude::*;
use super::{App, DeviceState, joined};

verus! {

broadcast use vstd::std_specs::hash::group_hash_axioms;

/// The diagnostics tabs, in display order.
#[derive(Debug, Clone, Copy, PartialEq, Eq, Structural)]
pub enum AppTab {
    Dashboard,
    Drift,
    Range,
    Controls,
    Timing,
}

impl Default for AppTab {
    fn default() -> (tab: Self)
        ensures
            tab == AppTab::Dashboard,
    {
        AppTab::Dashboard
    }
}

/// The number of tabs.
pub const TAB_COUNT: usize = 5;

/// The position of a tab in display order.
pub open spec fn tab_index(tab: AppTab) -> int {
    match tab {
        AppTab::Dashboard => 0,
        AppTab::Drift => 1,
        AppTab::Range => 2,
        AppTab::Controls => 3,
        AppTab::Timing => 4,
    }
}

/// The tab at a position in display order.
pub open spec fn tab_at(index: int) -> AppTab {
    if index == 0 {
        AppTab::Dashboard
    } else if index == 1 {
        AppTab::Drift
    } else if index == 2 {
        AppTab::Range
    } else if index == 3 {
        AppTab::Controls
    } else {
        AppTab::Timing
    }
}

/// The tab after `tab`, wrapping to the first.
pub open spec fn tab_after(tab: AppTab) -> AppTab {
    tab_at((tab_index(tab) + 1) % (TAB_COUNT as int))
}

/// The tab before `tab`, wrapping to the last.
pub open spec fn tab_before(tab: AppTab) -> AppTab {
    if tab_index(tab) == 0 {
        tab_at(TAB_COUNT - 1)
    } else {
        tab_at(tab_index(tab) - 1)
    }
}

/// The title of a tab.
pub open spec fn tab_title(tab: AppTab) -> Seq<char> {
    match tab {
        AppTab::Dashboard => "Dashboard"@,
        AppTab::Drift => "Drift"@,
        AppTab::Range => "Range"@,
        AppTab::Controls => "Controls"@,
        AppTab::Timing => "Timing"@,
    }
}

/// The controllers of `order` that are known and connected, in order.
pub open spec fn connected_ids(order: Seq<usize>, devices: Map<usize, DeviceState>) -> Seq<usize>
    decreases order.len(),
{
    if order.len() == 0 {
        Seq::empty()
    } else {
        let rest = connected_ids(order.drop_last(), devices);
        let id = order.last();
        if devices.contains_key(id) && devices[id].connected {
            rest.push(id)
        } else {
            rest
        }
    }
}

/// The first position of `id` in `ids`, when it occurs.
pub open spec fn position_of(ids: Seq<usize>, id: usize) -> Option<int> {
    if ids.contains(id) {
        Some(choose|i: int| 0 <= i < ids.len() && ids[i] == id && forall|j: int| 0 <= j < i ==> ids[j] != id)
    } else {
        None
    }
}

/// The position a selection moves to among `len` candidates from `current`.
pub open spec fn stepped_position(len: int, current: Option<int>, forward: bool) -> int {
    if forward {
        match current {
            Some(i) => (i + 1) % len,
            None => 0,
        }
    } else {
        match current {
            Some(i) => if i == 0 {
                len - 1
            } else {
                i - 1
            },
            None => len - 1,
        }
    }
}

impl AppTab {
    /// The title of the tab.
    pub fn title(self) -> (title: &'static str)
        ensures
            title@ == tab_title(self),
    {
        match self {
            AppTab::Dashboard => "Dashboard",
            AppTab::Drift => "Drift",
            AppTab::Range => "Range",
            AppTab::Controls => "Controls",
            AppTab::Timing => "Timing",
        }
    }

    /// The position of the tab in display order.
    fn index(self) -> (index: usize)
        ensures
            index == tab_index(self),
    {
        match self {
            AppTab::Dashboard => 0,
            AppTab::Drift => 1,
            AppTab::Range => 2,
            AppTab::Controls => 3,
            AppTab::Timing => 4,
        }
    }

    /// The tab at a position in display order.
    fn at(index: usize) -> (tab: AppTab)
        requires
            index < TAB_COUNT,
        ensures
            tab == tab_at(index as int),
    {
        if index == 0 {
            AppTab::Dashboard
        } else if index == 1 {
            AppTab::Drift
        } else if index == 2 {
            AppTab::Range
        } else if index == 3 {
            AppTab::Controls
        } else {
            AppTab::Timing
        }
    }
}

/// Moving to the next tab and back (or back and on) returns to the same tab, and five steps in
/// one direction go all the way round.
pub proof fn law_tab_round_trip(tab: AppTab)
    ensures
        tab_before(tab_after(tab)) == tab,
        tab_after(tab_before(tab)) == tab,
        tab_after(tab_after(tab_after(tab_after(tab_after(tab))))) == tab,
{
}

/// No controller occurs twice among the candidates.
pub open spec fn distinct_ids(ids: Seq<usize>) -> bool {
    forall|i: int, j: int| 0 <= i < j < ids.len() ==> ids[i] != ids[j]
}

/// Among distinct candidates, the position of the controller at `i` is `i`.
proof fn lemma_position_of_distinct(ids: Seq<usize>, i: int)
    requires
        distinct_ids(ids),
        0 <= i < ids.len(),
    ensures
        position_of(ids, ids[i]) == Some(i),
{
    assert(ids.contains(ids[i]));
    let k = choose|k: int|
        0 <= k < ids.len() && ids[k] == ids[i] && forall|j: int| 0 <= j < k ==> ids[j] != ids[i];
    assert(0 <= k < ids.len() && ids[k] == ids[i] && forall|j: int| 0 <= j < k ==> ids[j] != ids[i])
        by {
        assert(forall|j: int| 0 <= j < i ==> ids[j] != ids[i]);
    }
    if k != i {
        if k < i {
            assert(ids[k] != ids[i]);
        } else {
            assert(ids[i] != ids[k]);
        }
    }
}

/// One step forward from position `i` of `len` wraps to the start after the last position.
proof fn lemma_step_forward(i: int, len: int)
    requires
        0 <= i < len,
    ensures
        (i + 1) % len == if i + 1 < len {
            i + 1
        } else {
            0
        },
{
    if i + 1 < len {
        vstd::arithmetic::div_mod::lemma_small_mod((i + 1) as nat, len as nat);
    } else {
        vstd::arithmetic::div_mod::lemma_mod_self_0(len);
    }
}

/// Stepping the selection forward and then back (or back and then forward) among distinct
/// connected controllers returns to the controller selected before.
pub proof fn law_selection_steps_undo(ids: Seq<usize>, i: int)
    requires
        distinct_ids(ids),
        0 <= i < ids.len(),
    ensures
        ({
            let len = ids.len() as int;
            let next = stepped_position(len, Some(i), true);
            let previous = stepped_position(len, Some(i), false);
            &&& ids[stepped_position(len, position_of(ids, ids[next]), false)] == ids[i]
            &&& ids[stepped_position(len, position_of(ids, ids[previous]), true)] == ids[i]
        }),
{
    let len = ids.len() as int;
    lemma_step_forward(i, len);
    let next = stepped_position(len, Some(i), true);
    let previous = stepped_position(len, Some(i), false);
    lemma_step_forward(previous, len);
    lemma_position_of_distinct(ids, next);
    lemma_position_of_distinct(ids, previous);
}

impl<S> App<S> {
    /// Selects the next connected controller, wrapping around.
    pub fn select_next(&mut self)
        ensures
            final(self).same_event_view(old(self)),
            final(self).same_panels(old(self)),
            final(self).same_sessions(old(self)),
            ({
                let ids = connected_ids(old(self).device_order@, old(self).devices@);
                if ids.len() == 0 {
                    &&& final(self).selected_id == old(self).selected_id
                    &&& final(self).status@ == old(self).status@
                } else {
                    let id = ids[stepped_position(
                        ids.len() as int,
                        match old(self).selected_id {
                            Some(s) => position_of(ids, s),
                            None => None,
                        },
                        true,
                    )];
                    &&& final(self).selected_id == Some(id)
                    &&& final(self).status@ == "Selected "@ + old(self).devices@[id].metadata.name@
                }
            }),
            final(self).devices@ == old(self).devices@,
            final(self).device_order@ == old(self).device_order@,
            final(self).events@ == old(self).events@,
            final(self).next_event_sequence == old(self).next_event_sequence,
            final(self).evicted_event_count == old(self).evicted_event_count,
            final(self).active_tab == old(self).active_tab,
    {
        self.move_selection(true);
    }

    /// Selects the previous connected controller, wrapping around.
    pub fn select_previous(&mut self)
        ensures
            final(self).same_event_view(old(self)),
            final(self).same_panels(old(self)),
            final(self).same_sessions(old(self)),
            ({
                let ids = connected_ids(old(self).device_order@, old(self).devices@);
                if ids.len() == 0 {
                    &&& final(self).selected_id == old(self).selected_id
                    &&& final(self).status@ == old(self).status@
                } else {
                    let id = ids[stepped_position(
                        ids.len() as int,
                        match old(self).selected_id {
                            Some(s) => position_of(ids, s),
                            None => None,
                        },
                        false,
                    )];
                    &&& final(self).selected_id == Some(id)
                    &&& final(self).status@ == "Selected "@ + old(self).devices@[id].metadata.name@
                }
            }),
            final(self).devices@ == old(self).devices@,
            final(self).device_order@ == old(self).device_order@,
            final(self).events@ == old(self).events@,
            final(self).next_event_sequence == old(self).next_event_sequence,
            final(self).evicted_event_count == old(self).evicted_event_count,
            final(self).active_tab == old(self).active_tab,
    {
        self.move_selection(false);
    }

    /// Shows the controller selector.
    pub fn open_device_selector(&mut self)
        ensures
            final(self).devices@ == old(self).devices@,
            final(self).device_order@ == old(self).device_order@,
            final(self).selected_id == old(self).selected_id,
            final(self).same_log(old(self)),
            final(self).same_sessions(old(self)),
            final(self).same_event_view(old(self)),
            final(self).help_visible == old(self).help_visible,
            final(self).active_tab == old(self).active_tab,
            final(self).should_quit == old(self).should_quit,
            final(self).started_at == old(self).started_at,
            final(self).device_selector_visible,
            final(self).selected_id == old(self).selected_id,
            final(self).status@ == old(self).status@,
    {
        self.device_selector_visible = true;
    }

    /// Hides the controller selector.
    pub fn close_device_selector(&mut self)
        ensures
            final(self).devices@ == old(self).devices@,
            final(self).device_order@ == old(self).device_order@,
            final(self).selected_id == old(self).selected_id,
            final(self).same_log(old(self)),
            final(self).same_sessions(old(self)),
            final(self).same_event_view(old(self)),
            final(self).help_visible == old(self).help_visible,
            final(self).active_tab == old(self).active_tab,
            final(self).should_quit == old(self).should_quit,
            final(self).started_at == old(self).started_at,
            !final(self).device_selector_visible,
            final(self).selected_id == old(self).selected_id,
            final(self).status@ == old(self).status@,
    {
        self.device_selector_visible = false;
    }

    /// Moves to the next tab, wrapping to the first, and names it in the status line.
    pub fn select_next_tab(&mut self)
        ensures
            final(self).devices@ == old(self).devices@,
            final(self).device_order@ == old(self).device_order@,
            final(self).selected_id == old(self).selected_id,
            final(self).same_log(old(self)),
            final(self).same_sessions(old(self)),
            final(self).same_event_view(old(self)),
            final(self).device_selector_visible == old(self).device_selector_visible,
            final(self).help_visible == old(self).help_visible,
            final(self).should_quit == old(self).should_quit,
            final(self).started_at == old(self).started_at,
            final(self).active_tab == tab_after(old(self).active_tab),
            final(self).status@ == tab_title(final(self).active_tab) + " diagnostics"@,
            final(self).selected_id == old(self).selected_id,
            final(self).events@ == old(self).events@,
    {
        let current = self.active_tab.index();
        self.active_tab = AppTab::at((current + 1) % TAB_COUNT);
        self.status = joined(self.active_tab.title(), " diagnostics");
    }

    /// Moves to the previous tab, wrapping to the last, and names it in the status line.
    pub fn select_previous_tab(&mut self)
        ensures
            final(self).devices@ == old(self).devices@,
            final(self).device_order@ == old(self).device_order@,
            final(self).selected_id == old(self).selected_id,
            final(self).same_log(old(self)),
            final(self).same_sessions(old(self)),
            final(self).same_event_view(old(self)),
            final(self).device_selector_visible == old(self).device_selector_visible,
            final(self).help_visible == old(self).help_visible,
            final(self).should_quit == old(self).should_quit,
            final(self).started_at == old(self).started_at,
            final(self).active_tab == tab_before(old(self).active_tab),
            final(self).status@ == tab_title(final(self).active_tab) + " diagnostics"@,
            final(self).selected_id == old(self).selected_id,
            final(self).events@ == old(self).events@,
    {
        let current = self.active_tab.index();
        self.active_tab = if current == 0 {
            AppTab::at(TAB_COUNT - 1)
        } else {
            AppTab::at(current - 1)
        };
        self.status = joined(self.active_tab.title(), " diagnostics");
    }

    /// The connected controllers in the order they were first seen.
    fn connected_device_ids(&self) -> (ids: Vec<usize>)
        ensures
            ids@ == connected_ids(self.device_order@, self.devices@),
    {
        let mut ids: Vec<usize> = Vec::new();
        let mut i: usize = 0;
        while i < self.device_order.len()
            invariant
                i <= self.device_order@.len(),
                ids@ == connected_ids(self.device_order@.take(i as int), self.devices@),
            decreases self.device_order@.len() - i,
        {
            let id = self.device_order[i];
            proof {
                let next = self.device_order@.take(i + 1);
                assert(next.drop_last() == self.device_order@.take(i as int));
                assert(next.last() == id);
            }
            match self.devices.get(&id) {
                Some(device) => {
                    if device.connected {
                        ids.push(id);
                    }
                },
                None => {},
            }
            i = i + 1;
        }
        proof {
            assert(self.device_order@.take(self.device_order@.len() as int) == self.device_order@);
        }
        ids
    }

    fn move_selection(&mut self, forward: bool)
        ensures
            final(self).same_event_view(old(self)),
            final(self).same_panels(old(self)),
            final(self).same_sessions(old(self)),
            ({
                let ids = connected_ids(old(self).device_order@, old(self).devices@);
                if ids.len() == 0 {
                    &&& final(self).selected_id == old(self).selected_id
                    &&& final(self).status@ == old(self).status@
                } else {
                    let id = ids[stepped_position(
                        ids.len() as int,
                        match old(self).selected_id {
                            Some(s) => position_of(ids, s),
                            None => None,
                        },
                        forward,
                    )];
                    &&& final(self).selected_id == Some(id)
                    &&& final(self).status@ == "Selected "@ + old(self).devices@[id].metadata.name@
                }
            }),
            final(self).devices@ == old(self).devices@,
            final(self).device_order@ == old(self).device_order@,
            final(self).events@ == old(self).events@,
            final(self).next_event_sequence == old(self).next_event_sequence,
            final(self).evicted_event_count == old(self).evicted_event_count,
            final(self).active_tab == old(self).active_tab,
    {
        let ids = self.connected_device_ids();
        if ids.len() == 0 {
            return;
        }
        let current: Option<usize> = match self.selected_id {
            Some(selected) => first_position(ids.as_slice(), selected),
            None => None,
        };
        let len = ids.len();
        let next: usize = if forward {
            match current {
                Some(i) => (i + 1) % len,
                None => 0,
            }
        } else {
            match current {
                Some(i) => if i == 0 {
                    len - 1
                } else {
                    i - 1
                },
                None => len - 1,
            }
        };
        let id = ids[next];
        proof {
            let spec_ids = connected_ids(old(self).device_order@, old(self).devices@);
            assert(next as int == stepped_position(
                spec_ids.len() as int,
                match old(self).selected_id {
                    Some(s) => position_of(spec_ids, s),
                    None => None,
                },
                forward,
            ));
            lemma_connected_ids_are_connected(old(self).device_order@, old(self).devices@);
            assert(spec_ids[next as int] == id);
            assert(old(self).devices@.contains_key(id));
        }
        self.selected_id = Some(id);
        match self.devices.get(&id) {
            Some(device) => {
                self.status = joined("Selected ", device.metadata.name.as_str());
            },
            None => {},
        }
    }
}

/// The first position of `id` in `ids`.
fn first_position(ids: &[usize], id: usize) -> (found: Option<usize>)
    ensures
        match found {
            Some(k) => position_of(ids@, id) == Some(k as int) && k < ids@.len(),
            None => position_of(ids@, id) is None,
        },
{
    let mut k: usize = 0;
    while k < ids.len()
        invariant
            k <= ids@.len(),
            forall|j: int| 0 <= j < k ==> ids@[j] != id,
        decreases ids@.len() - k,
    {
        if ids[k] == id {
            proof {
                assert(ids@.contains(id));
                let p = choose|i: int|
                    0 <= i < ids@.len() && ids@[i] == id && forall|j: int| 0 <= j < i ==> ids@[j] != id;
                if p < k {
                } else if p > k {
                    assert(ids@[k as int] == id);
                }
            }
            return Some(k);
        }
        k = k + 1;
    }
    proof {
        if ids@.contains(id) {
            let w = choose|i: int| 0 <= i < ids@.len() && ids@[i] == id;
            assert(ids@[w] == id);
        }
    }
    None
}

/// Every controller `connected_ids` lists is known and connected.
pub proof fn lemma_connected_ids_are_connected(order: Seq<usize>, devices: Map<usize, DeviceState>)
    ensures
        forall|k: int|
            0 <= k < connected_ids(order, devices).len() ==> devices.contains_key(
                #[trigger] connected_ids(order, devices)[k],
            ) && devices[connected_ids(order, devices)[k]].connected,
    decreases order.len(),
{
    if order.len() > 0 {
        lemma_connected_ids_are_connected(order.drop_last(), devices);
    }
}


/// The connected controllers are taken from the order, so they are as free of repeats as it.
pub proof fn lemma_connected_ids_from_order(order: Seq<usize>, devices: Map<usize, DeviceState>)
    ensures
        forall|k: int|
            0 <= k < connected_ids(order, devices).len() ==> order.contains(
                #[trigger] connected_ids(order, devices)[k],
            ),
        distinct_ids(order) ==> distinct_ids(connected_ids(order, devices)),
    decreases order.len(),
{
    if order.len() > 0 {
        let rest = order.drop_last();
        lemma_connected_ids_from_order(rest, devices);
        let ids = connected_ids(order, devices);
        let previous = connected_ids(rest, devices);
        assert forall|k: int| 0 <= k < ids.len() implies order.contains(#[trigger] ids[k]) by {
            if k < previous.len() {
                assert(rest.contains(previous[k]));
                let j = choose|j: int| 0 <= j < rest.len() && rest[j] == previous[k];
                assert(order[j] == ids[k]);
            } else {
                assert(order[order.len() - 1] == ids[k]);
            }
        }
        if distinct_ids(order) {
            assert(distinct_ids(rest)) by {
                assert forall|i: int, j: int| 0 <= i < j < rest.len() implies rest[i] != rest[j] by {
                    assert(rest[i] == order[i] && rest[j] == order[j]);
                }
            }
            assert forall|i: int, j: int| 0 <= i < j < ids.len() implies ids[i] != ids[j] by {
                if j == previous.len() {
                    assert(rest.contains(previous[i]));
                    let m = choose|m: int| 0 <= m < rest.len() && rest[m] == previous[i];
                    assert(order[m] == ids[i]);
                    assert(ids[j] == order.last());
                    assert(m < order.len() - 1);
                }
            }
        }
    }
}

/// Connecting a controller keeps the controller order free of repeats and within the known
/// controllers: a new controller is appended once, a known one is not appended again.
pub proof fn law_connect_keeps_order_distinct(
    order: Seq<usize>,
    devices: Map<usize, DeviceState>,
    id: usize,
    device: DeviceState,
)
    requires
        distinct_ids(order),
        forall|k: int| 0 <= k < order.len() ==> devices.contains_key(#[trigger] order[k]),
    ensures
        ({
            let new_order = if devices.contains_key(id) {
                order
            } else {
                order.push(id)
            };
            let new_devices = devices.insert(id, device);
            &&& distinct_ids(new_order)
            &&& forall|k: int|
                0 <= k < new_order.len() ==> new_devices.contains_key(#[trigger] new_order[k])
        }),
{
    if !devices.contains_key(id) {
        let new_order = order.push(id);
        assert forall|i: int, j: int| 0 <= i < j < new_order.len() implies new_order[i]
            != new_order[j] by {
            if j == order.len() {
                assert(devices.contains_key(order[i]));
            } else {
                assert(new_order[i] == order[i] && new_order[j] == order[j]);
            }
        }
    }
}

/// In a session whose controller order has no repeats, selecting the next connected controller
/// and then the previous one (or the previous and then the next) returns to a selected
/// connected controller.
pub proof fn law_session_selection_steps_undo(
    order: Seq<usize>,
    devices: Map<usize, DeviceState>,
    selected: usize,
)
    requires
        distinct_ids(order),
        connected_ids(order, devices).contains(selected),
    ensures
        ({
            let ids = connected_ids(order, devices);
            let len = ids.len() as int;
            let here = position_of(ids, selected);
            let next = ids[stepped_position(len, here, true)];
            let previous = ids[stepped_position(len, here, false)];
            &&& ids[stepped_position(len, position_of(ids, next), false)] == selected
            &&& ids[stepped_position(len, position_of(ids, previous), true)] == selected
        }),
{
    let ids = connected_ids(order, devices);
    lemma_connected_ids_from_order(order, devices);
    let i = choose|i: int| 0 <= i < ids.len() && ids[i] == selected;
    lemma_position_of_distinct(ids, i);
    law_selection_steps_undo(ids, i);
}

} // verus!
