//! The control checklist: which of a controller's expected controls have been seen working.

use vstd::prelude::*;
use crate::text::{chars_of, string_from_chars};

verus! {

/// What has happened to one checklist entry.
#[derive(Debug, Clone, Copy, PartialEq, Eq, Structural)]
pub enum ChecklistStatus {
    Pending,
    Observed,
    Skipped,
}

impl Default for ChecklistStatus {
    fn default() -> (status: Self)
        ensures
            status == ChecklistStatus::Pending,
    {
        ChecklistStatus::Pending
    }
}

/// One control of the checklist, keyed like `button:South` or `axis:LeftStickX`.
#[derive(Debug, Clone, PartialEq, Eq)]
pub struct ChecklistItem {
    pub key: String,
    pub label: String,
    pub status: ChecklistStatus,
    pub activation_count: u64,
    pub unexpected: bool,
}

/// The mathematical value of a checklist entry.
pub struct ItemModel {
    pub key: Seq<char>,
    pub label: Seq<char>,
    pub status: ChecklistStatus,
    pub activation_count: u64,
    pub unexpected: bool,
}

impl View for ChecklistItem {
    type V = ItemModel;

    open spec fn view(&self) -> ItemModel {
        ItemModel {
            key: self.key@,
            label: self.label@,
            status: self.status,
            activation_count: self.activation_count,
            unexpected: self.unexpected,
        }
    }
}

/// The mathematical value of a whole checklist.
pub struct ChecklistModel {
    pub device_id: Option<usize>,
    pub items: Seq<ItemModel>,
    pub selected: usize,
    pub active: bool,
}

/// The models of a sequence of checklist entries.
pub open spec fn item_models(items: Seq<ChecklistItem>) -> Seq<ItemModel> {
    items.map_values(|item: ChecklistItem| item@)
}

/// The key contains a `:` somewhere.
pub open spec fn has_colon(key: Seq<char>) -> bool {
    exists|i: int| 0 <= i < key.len() && key[i] == ':'
}

/// The position of the first `:` of a key that has one.
pub open spec fn first_colon(key: Seq<char>) -> int {
    choose|i: int| 0 <= i < key.len() && key[i] == ':' && forall|j: int| 0 <= j < i ==> key[j] != ':'
}

/// The label shown for a key: what follows its first `:`, or the whole key when it has none.
pub open spec fn control_label(key: Seq<char>) -> Seq<char> {
    if has_colon(key) {
        key.subrange(first_colon(key) + 1, key.len() as int)
    } else {
        key
    }
}

/// A fresh, pending entry.
pub open spec fn pending_model(key: Seq<char>, label: Seq<char>, unexpected: bool) -> ItemModel {
    ItemModel { key, label, status: ChecklistStatus::Pending, activation_count: 0, unexpected }
}

/// Some entry of `items` has the key.
pub open spec fn has_key(items: Seq<ItemModel>, key: Seq<char>) -> bool {
    exists|i: int| 0 <= i < items.len() && items[i].key == key
}

/// The first entry of `items` with the key.
pub open spec fn key_position(items: Seq<ItemModel>, key: Seq<char>) -> int {
    choose|i: int|
        0 <= i < items.len() && items[i].key == key && forall|j: int| 0 <= j < i ==> items[j].key != key
}

/// No two entries share a key.
pub open spec fn keys_unique(items: Seq<ItemModel>) -> bool {
    forall|i: int, j: int| 0 <= i < j < items.len() ==> items[i].key != items[j].key
}

/// `items` with an entry for `key` appended when it has none.
pub open spec fn ensure_key(items: Seq<ItemModel>, key: Seq<char>, unexpected: bool) -> Seq<ItemModel> {
    if has_key(items, key) {
        items
    } else {
        items.push(pending_model(key, control_label(key), unexpected))
    }
}

/// `items` with an unexpected entry ensured for each key in turn.
pub open spec fn ensure_keys(items: Seq<ItemModel>, keys: Seq<Seq<char>>) -> Seq<ItemModel>
    decreases keys.len(),
{
    if keys.len() == 0 {
        items
    } else {
        ensure_key(ensure_keys(items, keys.drop_last()), keys.last(), true)
    }
}

/// The number of entries with the given status.
pub open spec fn count_status(items: Seq<ItemModel>, status: ChecklistStatus) -> nat
    decreases items.len(),
{
    if items.len() == 0 {
        0
    } else {
        count_status(items.drop_last(), status) + if items.last().status == status {
            1nat
        } else {
            0nat
        }
    }
}

/// The selection after moving forward through `len` entries, wrapping to the first.
pub open spec fn next_selection(len: nat, selected: int) -> int {
    if len == 0 {
        selected
    } else {
        (selected + 1) % (len as int)
    }
}

/// The selection after moving backward through `len` entries, wrapping to the last.
pub open spec fn previous_selection(len: nat, selected: int) -> int {
    if len == 0 {
        selected
    } else if selected == 0 {
        len - 1
    } else {
        selected - 1
    }
}

/// The controls a standard gamepad is expected to have, in checklist order.
pub open spec fn expected_models() -> Seq<ItemModel> {
    seq![
        pending_model("button:South"@, "South"@, false),
        pending_model("button:East"@, "East"@, false),
        pending_model("button:North"@, "North"@, false),
        pending_model("button:West"@, "West"@, false),
        pending_model("button:DPadUp"@, "D-pad up"@, false),
        pending_model("button:DPadDown"@, "D-pad down"@, false),
        pending_model("button:DPadLeft"@, "D-pad left"@, false),
        pending_model("button:DPadRight"@, "D-pad right"@, false),
        pending_model("button:LeftTrigger"@, "Left bumper"@, false),
        pending_model("button:RightTrigger"@, "Right bumper"@, false),
        pending_model("button:LeftTrigger2"@, "Left trigger"@, false),
        pending_model("button:RightTrigger2"@, "Right trigger"@, false),
        pending_model("button:Select"@, "Select"@, false),
        pending_model("button:Start"@, "Start"@, false),
        pending_model("button:Mode"@, "Mode"@, false),
        pending_model("button:LeftThumb"@, "Left stick click"@, false),
        pending_model("button:RightThumb"@, "Right stick click"@, false),
        pending_model("axis:LeftStickX"@, "Left stick X"@, false),
        pending_model("axis:LeftStickY"@, "Left stick Y"@, false),
        pending_model("axis:RightStickX"@, "Right stick X"@, false),
        pending_model("axis:RightStickY"@, "Right stick Y"@, false),
    ]
}

/// The label under which a checklist key is shown: the part after the first `:`.
pub fn display_label(key: &str) -> (label: String)
    ensures
        label@ == control_label(key@),
{
    let chars = chars_of(key);
    let mut i: usize = 0;
    while i < chars.len()
        invariant
            chars@ == key@,
            i <= chars@.len(),
            forall|j: int| 0 <= j < i ==> chars@[j] != ':',
        decreases chars@.len() - i,
    {
        if chars[i] == ':' {
            proof {
                let c = first_colon(key@);
                assert(has_colon(key@));
                assert(0 <= c < key@.len() && key@[c] == ':' && forall|j: int|
                    0 <= j < c ==> key@[j] != ':');
                if c < i {
                } else if c > i {
                    assert(key@[i as int] == ':');
                }
                assert(c == i);
            }
            let rest = chars.as_slice().split_at(i + 1).1;
            let label = string_from_chars(rest);
            assert(rest@ == key@.subrange(i + 1, key@.len() as int));
            return label;
        }
        i = i + 1;
    }
    proof {
        assert(!has_colon(key@));
    }
    string_from_chars(chars.as_slice())
}

fn pending_item(key: &str, label: &str, unexpected: bool) -> (item: ChecklistItem)
    ensures
        item@ == pending_model(key@, label@, unexpected),
{
    ChecklistItem {
        key: key.to_owned(),
        label: label.to_owned(),
        status: ChecklistStatus::Pending,
        activation_count: 0,
        unexpected,
    }
}

fn expected_items() -> (items: Vec<ChecklistItem>)
    ensures
        item_models(items@) == expected_models(),
{
    let mut items: Vec<ChecklistItem> = Vec::new();
    items.push(pending_item("button:South", "South", false));
    items.push(pending_item("button:East", "East", false));
    items.push(pending_item("button:North", "North", false));
    items.push(pending_item("button:West", "West", false));
    items.push(pending_item("button:DPadUp", "D-pad up", false));
    items.push(pending_item("button:DPadDown", "D-pad down", false));
    items.push(pending_item("button:DPadLeft", "D-pad left", false));
    items.push(pending_item("button:DPadRight", "D-pad right", false));
    items.push(pending_item("button:LeftTrigger", "Left bumper", false));
    items.push(pending_item("button:RightTrigger", "Right bumper", false));
    items.push(pending_item("button:LeftTrigger2", "Left trigger", false));
    items.push(pending_item("button:RightTrigger2", "Right trigger", false));
    items.push(pending_item("button:Select", "Select", false));
    items.push(pending_item("button:Start", "Start", false));
    items.push(pending_item("button:Mode", "Mode", false));
    items.push(pending_item("button:LeftThumb", "Left stick click", false));
    items.push(pending_item("button:RightThumb", "Right stick click", false));
    items.push(pending_item("axis:LeftStickX", "Left stick X", false));
    items.push(pending_item("axis:LeftStickY", "Left stick Y", false));
    items.push(pending_item("axis:RightStickX", "Right stick X", false));
    items.push(pending_item("axis:RightStickY", "Right stick Y", false));
    assert(item_models(items@) =~= expected_models());
    items
}


/// A checklist run against one controller.
#[derive(Debug)]
pub struct ControlChecklist {
    device_id: Option<usize>,
    items: Vec<ChecklistItem>,
    selected: usize,
    active: bool,
}

impl View for ControlChecklist {
    type V = ChecklistModel;

    closed spec fn view(&self) -> ChecklistModel {
        ChecklistModel {
            device_id: self.device_id,
            items: item_models(self.items@),
            selected: self.selected,
            active: self.active,
        }
    }
}

impl ControlChecklist {
    /// Every checklist is well formed.
    #[verifier::type_invariant]
    spec fn well_formed(self) -> bool {
        self@.wf()
    }

    /// Takes the parts out, leaving an empty checklist behind.
    fn take_parts(&mut self) -> (parts: (Option<usize>, Vec<ChecklistItem>, usize, bool))
        ensures
            parts.0 == old(self)@.device_id,
            item_models(parts.1@) == old(self)@.items,
            parts.2 == old(self)@.selected,
            parts.3 == old(self)@.active,
            (ChecklistModel {
                device_id: parts.0,
                items: item_models(parts.1@),
                selected: parts.2,
                active: parts.3,
            }).wf(),
    {
        proof {
            use_type_invariant(&*self);
        }
        let mut taken = ControlChecklist { device_id: None, items: Vec::new(), selected: 0, active: false };
        std::mem::swap(&mut taken, self);
        let ControlChecklist { device_id, items, selected, active } = taken;
        (device_id, items, selected, active)
    }
}

impl ChecklistModel {
    /// Keys are unique and the selection points at an entry (or is 0 when there is none).
    pub open spec fn wf(self) -> bool {
        &&& keys_unique(self.items)
        &&& (self.selected == 0 || self.selected < self.items.len())
    }
}

impl Default for ControlChecklist {
    fn default() -> (checklist: Self)
        ensures
            checklist@.device_id.is_none(),
            checklist@.items.len() == 0,
            checklist@.selected == 0,
            !checklist@.active,
    {
        ControlChecklist { device_id: None, items: Vec::new(), selected: 0, active: false }
    }
}

impl ControlChecklist {
    /// The controller the checklist belongs to.
    pub fn device_id(&self) -> (id: Option<usize>)
        ensures
            id == self@.device_id,
    {
        self.device_id
    }

    /// Whether observations are still being recorded.
    pub fn is_active(&self) -> (active: bool)
        ensures
            active == self@.active,
    {
        self.active
    }

    /// The index of the selected entry.
    pub fn selected(&self) -> (selected: usize)
        ensures
            selected == self@.selected,
    {
        self.selected
    }

    /// The entries in checklist order.
    pub fn items(&self) -> (items: &[ChecklistItem])
        ensures
            item_models(items@) == self@.items,
    {
        self.items.as_slice()
    }

    /// Starts a checklist for `device_id`: the expected controls, then an unexpected entry for
    /// each already observed key that is not among them.
    pub fn start(&mut self, device_id: usize, observed: Vec<String>)
        ensures
            final(self)@.device_id == Some(device_id),
            final(self)@.items == ensure_keys(
                expected_models(),
                observed@.map_values(|key: String| key@),
            ),
            final(self)@.selected == 0,
            final(self)@.active,
    {
        let mut items = expected_items();
        proof {
            lemma_expected_keys_unique();
        }
        let ghost keys = observed@.map_values(|key: String| key@);
        let mut i: usize = 0;
        while i < observed.len()
            invariant
                i <= observed@.len(),
                keys == observed@.map_values(|key: String| key@),
                item_models(items@) == ensure_keys(expected_models(), keys.take(i as int)),
                keys_unique(item_models(items@)),
            decreases observed@.len() - i,
        {
            let ghost before = item_models(items@);
            let _ = ensure_item(&mut items, observed[i].as_str(), true);
            proof {
                let next = keys.take(i + 1);
                assert(next.drop_last() == keys.take(i as int));
                assert(next.last() == observed@[i as int]@);
                assert(ensure_keys(expected_models(), next) == ensure_key(before, observed@[i as int]@, true));
            }
            i = i + 1;
        }
        proof {
            assert(keys.take(observed@.len() as int) == keys);
        }
        *self = ControlChecklist { device_id: Some(device_id), items, selected: 0, active: true };
    }

    /// Records one activation of `key` on `device_id`; ignored unless the checklist is active and
    /// belongs to that controller. An unknown key gets an unexpected entry of its own.
    #[verifier::rlimit(50)]
    pub fn observe(&mut self, device_id: usize, key: &str)
        requires
            old(self)@.active && old(self)@.device_id == Some(device_id) ==> forall|i: int|
                0 <= i < old(self)@.items.len() && old(self)@.items[i].key == key@
                    ==> old(self)@.items[i].activation_count < u64::MAX,
        ensures
            !old(self)@.active || old(self)@.device_id != Some(device_id) ==> final(self)@ == old(
                self,
            )@,
            old(self)@.active && old(self)@.device_id == Some(device_id) ==> {
                let items = ensure_key(old(self)@.items, key@, true);
                let at = key_position(items, key@);
                &&& final(self)@.items == items.update(
                    at,
                    ItemModel {
                        status: ChecklistStatus::Observed,
                        activation_count: (items[at].activation_count + 1) as u64,
                        ..items[at]
                    },
                )
                &&& final(self)@.device_id == old(self)@.device_id
                &&& final(self)@.selected == old(self)@.selected
                &&& final(self)@.active == old(self)@.active
            },
    {
        proof {
            use_type_invariant(&*self);
        }
        if !self.active || self.device_id != Some(device_id) {
            return;
        }
        let (owner, mut items, selected, active) = self.take_parts();
        let ghost before = old(self)@.items;
        let index = ensure_item(&mut items, key, true);
        let ghost grown = item_models(items@);
        let old_item = &items[index];
        proof {
            assert(grown[index as int] == old_item@);
            if has_key(before, key@) {
                assert(grown == before);
                assert(old_item.activation_count < u64::MAX);
            } else {
                assert(index == before.len());
                assert(old_item.activation_count == 0);
            }
        }
        let updated = ChecklistItem {
            key: old_item.key.clone(),
            label: old_item.label.clone(),
            status: ChecklistStatus::Observed,
            activation_count: old_item.activation_count + 1,
            unexpected: old_item.unexpected,
        };
        items.set(index, updated);
        proof {
            assert(item_models(items@) =~= grown.update(index as int, updated@));
            lemma_update_keeps_keys_unique(grown, index as int, updated@);
        }
        *self = ControlChecklist { device_id: owner, items, selected, active };
    }

    /// Moves the selection to the next entry, wrapping to the first.
    pub fn select_next(&mut self)
        ensures
            final(self)@.device_id == old(self)@.device_id,
            final(self)@.items == old(self)@.items,
            final(self)@.active == old(self)@.active,
            final(self)@.selected == next_selection(old(self)@.items.len(), old(self)@.selected as int),
    {
        proof {
            use_type_invariant(&*self);
        }
        if !self.items.is_empty() {
            assert(self.selected < self.items.len());
            self.selected = (self.selected + 1) % self.items.len();
        }
    }

    /// Moves the selection to the previous entry, wrapping to the last.
    pub fn select_previous(&mut self)
        ensures
            final(self)@.device_id == old(self)@.device_id,
            final(self)@.items == old(self)@.items,
            final(self)@.active == old(self)@.active,
            final(self)@.selected == previous_selection(
                old(self)@.items.len(),
                old(self)@.selected as int,
            ),
    {
        proof {
            use_type_invariant(&*self);
        }
        if self.items.is_empty() {
            return;
        }
        self.selected = if self.selected == 0 {
            self.items.len() - 1
        } else {
            self.selected - 1
        };
    }

    /// Marks the selected entry skipped when it is still pending.
    pub fn skip_selected(&mut self)
        ensures
            final(self)@.device_id == old(self)@.device_id,
            final(self)@.selected == old(self)@.selected,
            final(self)@.active == old(self)@.active,
            ({
                let s = old(self)@.selected as int;
                let items = old(self)@.items;
                if s < items.len() && items[s].status == ChecklistStatus::Pending {
                    final(self)@.items == items.update(
                        s,
                        ItemModel { status: ChecklistStatus::Skipped, ..items[s] },
                    )
                } else {
                    final(self)@.items == items
                }
            }),
    {
        let (owner, mut items, selected, active) = self.take_parts();
        let ghost before = item_models(items@);
        if selected < items.len() && items[selected].status == ChecklistStatus::Pending {
            let old_item = &items[selected];
            let updated = ChecklistItem {
                key: old_item.key.clone(),
                label: old_item.label.clone(),
                status: ChecklistStatus::Skipped,
                activation_count: old_item.activation_count,
                unexpected: old_item.unexpected,
            };
            proof {
                assert(before[selected as int] == old_item@);
            }
            items.set(selected, updated);
            proof {
                assert(item_models(items@) =~= before.update(selected as int, updated@));
                lemma_update_keeps_keys_unique(before, selected as int, updated@);
            }
        }
        *self = ControlChecklist { device_id: owner, items, selected, active };
    }

    /// Stops recording observations; the entries are kept.
    pub fn finish(&mut self)
        ensures
            final(self)@ == (ChecklistModel { active: false, ..old(self)@ }),
    {
        proof {
            use_type_invariant(&*self);
        }
        self.active = false;
    }

    /// Detaches the checklist from its controller and stops recording.
    pub fn cancel(&mut self)
        ensures
            final(self)@ == (ChecklistModel { device_id: None, active: false, ..old(self)@ }),
    {
        proof {
            use_type_invariant(&*self);
        }
        self.device_id = None;
        self.active = false;
    }

    /// The numbers of observed, pending and skipped entries.
    pub fn counts(&self) -> (counts: (usize, usize, usize))
        ensures
            counts.0 == count_status(self@.items, ChecklistStatus::Observed),
            counts.1 == count_status(self@.items, ChecklistStatus::Pending),
            counts.2 == count_status(self@.items, ChecklistStatus::Skipped),
    {
        let ghost items = item_models(self.items@);
        let mut observed: usize = 0;
        let mut pending: usize = 0;
        let mut skipped: usize = 0;
        let mut i: usize = 0;
        while i < self.items.len()
            invariant
                items == item_models(self.items@),
                i <= items.len(),
                observed == count_status(items.take(i as int), ChecklistStatus::Observed),
                pending == count_status(items.take(i as int), ChecklistStatus::Pending),
                skipped == count_status(items.take(i as int), ChecklistStatus::Skipped),
                observed + pending + skipped == i,
            decreases items.len() - i,
        {
            proof {
                assert(items.take(i + 1).drop_last() == items.take(i as int));
                assert(items.take(i + 1).last() == items[i as int]);
            }
            match self.items[i].status {
                ChecklistStatus::Observed => observed = observed + 1,
                ChecklistStatus::Pending => pending = pending + 1,
                ChecklistStatus::Skipped => skipped = skipped + 1,
            }
            i = i + 1;
        }
        proof {
            assert(items.take(items.len() as int) == items);
        }
        (observed, pending, skipped)
    }

}

/// The index of the entry for `key` in `items`, appending a new entry when there is none.
fn ensure_item(items: &mut Vec<ChecklistItem>, key: &str, unexpected: bool) -> (index: usize)
    requires
        keys_unique(item_models(old(items)@)),
    ensures
        item_models(final(items)@) == ensure_key(item_models(old(items)@), key@, unexpected),
        keys_unique(item_models(final(items)@)),
        index == key_position(item_models(final(items)@), key@),
        index < final(items)@.len(),
        item_models(final(items)@)[index as int].key == key@,
{
    let ghost models = item_models(items@);
    let wanted = key.to_owned();
    let mut i: usize = 0;
    while i < items.len()
        invariant
            models == item_models(items@),
            items@ == old(items)@,
            wanted@ == key@,
            keys_unique(models),
            i <= models.len(),
            forall|j: int| 0 <= j < i ==> models[j].key != key@,
        decreases models.len() - i,
    {
        if items[i].key == wanted {
            proof {
                assert(models[i as int].key == key@);
                assert(has_key(models, key@));
                lemma_key_position_unique(models, key@, i as int);
            }
            return i;
        }
        i = i + 1;
    }
    let item = ChecklistItem {
        key: key.to_owned(),
        label: display_label(key),
        status: ChecklistStatus::Pending,
        activation_count: 0,
        unexpected,
    };
    items.push(item);
    proof {
        assert(!has_key(models, key@));
        let after = item_models(items@);
        assert(after =~= models.push(item@));
        assert(after[models.len() as int].key == key@);
        lemma_key_position_unique(after, key@, models.len() as int);
    }
    items.len() - 1
}

/// Replacing an entry by one with the same key keeps the keys unique.
proof fn lemma_update_keeps_keys_unique(items: Seq<ItemModel>, index: int, item: ItemModel)
    requires
        keys_unique(items),
        0 <= index < items.len(),
        item.key == items[index].key,
    ensures
        keys_unique(items.update(index, item)),
{
    let updated = items.update(index, item);
    assert forall|i: int, j: int| 0 <= i < j < updated.len() implies updated[i].key != updated[j].key by {
        assert(updated[i].key == items[i].key && updated[j].key == items[j].key);
    }
}

/// Moving the selection forward and then back (or back and then forward) returns to the entry
/// that was selected.
pub proof fn law_selection_round_trip(len: nat, selected: int)
    requires
        0 <= selected < len,
    ensures
        previous_selection(len, next_selection(len, selected)) == selected,
        next_selection(len, previous_selection(len, selected)) == selected,
{
    let n = len as int;
    assert((selected + 1) % n == if selected + 1 < n { selected + 1 } else { 0 }) by (nonlinear_arith)
        requires
            0 <= selected < n,
    ;
    let p = previous_selection(len, selected);
    assert((p + 1) % n == if p + 1 < n { p + 1 } else { 0 }) by (nonlinear_arith)
        requires
            0 <= p < n,
    ;
}

/// Every entry is counted exactly once among observed, pending and skipped.
pub proof fn law_counts_cover_items(items: Seq<ItemModel>)
    ensures
        count_status(items, ChecklistStatus::Observed) + count_status(
            items,
            ChecklistStatus::Pending,
        ) + count_status(items, ChecklistStatus::Skipped) == items.len(),
    decreases items.len(),
{
    if items.len() > 0 {
        law_counts_cover_items(items.drop_last());
    }
}

/// Starting a checklist lists every expected control first, in order, whatever was observed.
pub proof fn law_start_keeps_expected_prefix(keys: Seq<Seq<char>>)
    ensures
        ensure_keys(expected_models(), keys).len() >= expected_models().len(),
        ensure_keys(expected_models(), keys).subrange(0, expected_models().len() as int)
            == expected_models(),
    decreases keys.len(),
{
    if keys.len() > 0 {
        law_start_keeps_expected_prefix(keys.drop_last());
        let before = ensure_keys(expected_models(), keys.drop_last());
        let after = ensure_keys(expected_models(), keys);
        assert(after.subrange(0, expected_models().len() as int) =~= before.subrange(
            0,
            expected_models().len() as int,
        ));
    }
}

/// The first position holding a key is the position `key_position` names.
pub proof fn lemma_key_position_unique(items: Seq<ItemModel>, key: Seq<char>, at: int)
    requires
        0 <= at < items.len(),
        items[at].key == key,
        forall|j: int| 0 <= j < at ==> items[j].key != key,
    ensures
        key_position(items, key) == at,
{
    let p = key_position(items, key);
    assert(0 <= p < items.len() && items[p].key == key && forall|j: int|
        0 <= j < p ==> items[j].key != key);
    if p < at {
    } else if p > at {
        assert(items[at].key == key);
    }
}

/// Five characteristics that tell the expected keys apart.
spec fn key_signature(key: Seq<char>) -> (nat, char, char, char, char) {
    (key.len(), key[7], key[8], key[10], key[key.len() - 1])
}

#[verifier::rlimit(100)]
proof fn lemma_expected_keys_unique()
    ensures
        keys_unique(expected_models()),
{
    reveal_strlit("button:South");
    reveal_strlit("button:East");
    reveal_strlit("button:North");
    reveal_strlit("button:West");
    reveal_strlit("button:DPadUp");
    reveal_strlit("button:DPadDown");
    reveal_strlit("button:DPadLeft");
    reveal_strlit("button:DPadRight");
    reveal_strlit("button:LeftTrigger");
    reveal_strlit("button:RightTrigger");
    reveal_strlit("button:LeftTrigger2");
    reveal_strlit("button:RightTrigger2");
    reveal_strlit("button:Select");
    reveal_strlit("button:Start");
    reveal_strlit("button:Mode");
    reveal_strlit("button:LeftThumb");
    reveal_strlit("button:RightThumb");
    reveal_strlit("axis:LeftStickX");
    reveal_strlit("axis:LeftStickY");
    reveal_strlit("axis:RightStickX");
    reveal_strlit("axis:RightStickY");
    let m = expected_models();
    let sigs = Seq::new(21, |i: int| key_signature(m[i].key));
    assert(sigs[0] == (12nat, 'S', 'o', 't', 'h'));
    assert(sigs[1] == (11nat, 'E', 'a', 't', 't'));
    assert(sigs[2] == (12nat, 'N', 'o', 't', 'h'));
    assert(sigs[3] == (11nat, 'W', 'e', 't', 't'));
    assert(sigs[4] == (13nat, 'D', 'P', 'd', 'p'));
    assert(sigs[5] == (15nat, 'D', 'P', 'd', 'n'));
    assert(sigs[6] == (15nat, 'D', 'P', 'd', 't'));
    assert(sigs[7] == (16nat, 'D', 'P', 'd', 't'));
    assert(sigs[8] == (18nat, 'L', 'e', 't', 'r'));
    assert(sigs[9] == (19nat, 'R', 'i', 'h', 'r'));
    assert(sigs[10] == (19nat, 'L', 'e', 't', '2'));
    assert(sigs[11] == (20nat, 'R', 'i', 'h', '2'));
    assert(sigs[12] == (13nat, 'S', 'e', 'e', 't'));
    assert(sigs[13] == (12nat, 'S', 't', 'r', 't'));
    assert(sigs[14] == (11nat, 'M', 'o', 'e', 'e'));
    assert(sigs[15] == (16nat, 'L', 'e', 't', 'b'));
    assert(sigs[16] == (17nat, 'R', 'i', 'h', 'b'));
    assert(sigs[17] == (15nat, 'f', 't', 't', 'X'));
    assert(sigs[18] == (15nat, 'f', 't', 't', 'Y'));
    assert(sigs[19] == (16nat, 'g', 'h', 'S', 'X'));
    assert(sigs[20] == (16nat, 'g', 'h', 'S', 'Y'));
    assert forall|i: int, j: int| 0 <= i < j < m.len() implies m[i].key != m[j].key by {
        if m[i].key == m[j].key {
            assert(sigs[i] == sigs[j]);
        }
    }
}

} // verus!
