use std::collections::HashMap;
use tokio::sync::broadcast::Sender;
use vstd::prelude::*;

verus! {

broadcast use vstd::std_specs::hash::group_hash_axioms;

/// Number of player slots.
pub const MAX_CONTROLLERS: usize = 8;

/// What one player slot holds.
///
/// `Stale` keeps the generation of the disconnect that made the slot stale, so
/// that an eviction timer can check at fire time that it is still the current one.
#[derive(Debug, Clone, Copy, PartialEq, Eq, Structural)]
pub enum ControllerSlotConnectionStatus {
    Connected(usize),
    Disconnected,
    Stale(usize, u64),
}

/// The state of a slot as shown outside the manager: no controller id, no timer.
#[derive(Debug, Clone, Copy, PartialEq, Eq, Structural)]
pub enum FrontendControllerSlotConnection {
    Connected,
    Disconnected,
    Stale,
}

#[verifier::external_type_specification]
#[verifier::external_body]
#[verifier::reject_recursive_types(T)]
pub struct ExSender<T>(Sender<T>);

/// The controller that holds a slot, if any.
pub open spec fn occupant(s: ControllerSlotConnectionStatus) -> Option<usize> {
    match s {
        ControllerSlotConnectionStatus::Connected(id) => Some(id),
        ControllerSlotConnectionStatus::Stale(id, _) => Some(id),
        ControllerSlotConnectionStatus::Disconnected => None,
    }
}

pub open spec fn frontend_of(s: ControllerSlotConnectionStatus) -> FrontendControllerSlotConnection {
    match s {
        ControllerSlotConnectionStatus::Connected(_) => FrontendControllerSlotConnection::Connected,
        ControllerSlotConnectionStatus::Stale(_, _) => FrontendControllerSlotConnection::Stale,
        ControllerSlotConnectionStatus::Disconnected => FrontendControllerSlotConnection::Disconnected,
    }
}

/// `i` is the lowest index of a `Disconnected` slot.
pub open spec fn is_lowest_free(slots: Seq<ControllerSlotConnectionStatus>, i: int) -> bool {
    &&& 0 <= i < slots.len()
    &&& slots[i] is Disconnected
    &&& forall|j: int| 0 <= j < i ==> !(#[trigger] slots[j] is Disconnected)
}

/// The lowest index of a `Disconnected` slot, if there is one.
pub open spec fn lowest_free(slots: Seq<ControllerSlotConnectionStatus>) -> Option<int> {
    if exists|i: int| is_lowest_free(slots, i) {
        Some(choose|i: int| is_lowest_free(slots, i))
    } else {
        None
    }
}

/// Where slot `i` ends up when slots `a` and `b` trade places.
pub open spec fn swap_index(i: usize, a: usize, b: usize) -> usize {
    if i == a {
        b
    } else if i == b {
        a
    } else {
        i
    }
}

/// The slot table as mathematics: the status of every slot and the map from
/// controller id to the slot it holds.
pub struct SlotTableModel {
    pub slots: Seq<ControllerSlotConnectionStatus>,
    pub ids: Map<usize, usize>,
}

impl SlotTableModel {
    /// Every mapped id points at a slot that it occupies, and every occupied slot
    /// is pointed at by the id that occupies it.
    pub open spec fn wf(self) -> bool {
        &&& self.slots.len() == MAX_CONTROLLERS
        &&& forall|id: usize| #[trigger]
            self.ids.contains_key(id) ==> self.ids[id] < MAX_CONTROLLERS && occupant(
                self.slots[self.ids[id] as int],
            ) == Some(id)
        &&& forall|i: int|
            0 <= i < MAX_CONTROLLERS && (#[trigger] occupant(self.slots[i])) is Some ==> {
                let id = occupant(self.slots[i])->0;
                self.ids.contains_key(id) && self.ids[id] == i
            }
    }

    pub open spec fn empty() -> SlotTableModel {
        SlotTableModel {
            slots: Seq::new(MAX_CONTROLLERS as nat, |i: int| ControllerSlotConnectionStatus::Disconnected),
            ids: Map::empty(),
        }
    }

    /// What `get_slots` shows of the table.
    pub open spec fn snapshot(self) -> Seq<FrontendControllerSlotConnection> {
        self.slots.map_values(|s: ControllerSlotConnectionStatus| frontend_of(s))
    }

    /// The table with slots `a` and `b` exchanged and the id map following them.
    pub open spec fn swapped(self, a: usize, b: usize) -> SlotTableModel {
        SlotTableModel {
            slots: self.slots.update(a as int, self.slots[b as int]).update(
                b as int,
                self.slots[a as int],
            ),
            ids: Map::new(
                |id: usize| self.ids.contains_key(id),
                |id: usize| swap_index(self.ids[id], a, b),
            ),
        }
    }
}

/// Index of the lowest `Disconnected` slot in `connections`.
pub fn get_next_slot_num_under_max(connections: &Vec<ControllerSlotConnectionStatus>) -> (r: Option<
    usize,
>)
    ensures
        r == (match lowest_free(connections@) {
            Some(i) => Some(i as usize),
            None => None,
        }),
{
    let mut i: usize = 0;
    while i < connections.len()
        invariant
            0 <= i <= connections@.len(),
            forall|j: int| 0 <= j < i ==> !(#[trigger] connections@[j] is Disconnected),
        decreases connections@.len() - i,
    {
        if let ControllerSlotConnectionStatus::Disconnected = connections[i] {
            assert(is_lowest_free(connections@, i as int));
            assert forall|k: int| is_lowest_free(connections@, k) implies k == i by {
                if k < i {
                    assert(!(connections@[k] is Disconnected));
                } else if k > i {
                    assert(connections@[i as int] is Disconnected);
                }
            }
            return Some(i);
        }
        i = i + 1;
    }
    assert forall|k: int| !is_lowest_free(connections@, k) by {
        if 0 <= k < connections@.len() {
            assert(!(connections@[k] is Disconnected));
        }
    }
    None
}

/// Relies on tokio's `broadcast::Sender::send`: the value is queued for every
/// receiver that exists at the time; with none, it is dropped.
#[verifier::external_body]
fn publish(
    sender: &Sender<Vec<FrontendControllerSlotConnection>>,
    snapshot: Vec<FrontendControllerSlotConnection>,
) {
    let _ = sender.send(snapshot);
}

impl ControllerSlotConnectionStatus {
    pub fn to_frontend(&self) -> (r: FrontendControllerSlotConnection)
        ensures
            r == frontend_of(*self),
    {
        match self {
            ControllerSlotConnectionStatus::Connected(_) => FrontendControllerSlotConnection::Connected,
            ControllerSlotConnectionStatus::Disconnected => {
                FrontendControllerSlotConnection::Disconnected
            },
            ControllerSlotConnectionStatus::Stale(_, _) => FrontendControllerSlotConnection::Stale,
        }
    }
}

/// The slot table: the status of every player slot, the id map, and the channel
/// on which every change of a slot is published. `published` records, in
/// order, every snapshot handed to that channel.
pub struct GamepadManagerInner {
    player_slots: Vec<ControllerSlotConnectionStatus>,
    gamepad_map: HashMap<usize, usize>,
    sender: Sender<Vec<FrontendControllerSlotConnection>>,
    published: Ghost<Seq<Seq<FrontendControllerSlotConnection>>>,
}

impl GamepadManagerInner {
    pub closed spec fn model(&self) -> SlotTableModel {
        SlotTableModel { slots: self.player_slots@, ids: self.gamepad_map@ }
    }

    pub closed spec fn channel(&self) -> Sender<Vec<FrontendControllerSlotConnection>> {
        self.sender
    }

    /// Every snapshot sent on the channel so far, oldest first.
    pub closed spec fn published(&self) -> Seq<Seq<FrontendControllerSlotConnection>> {
        self.published@
    }

    /// A table of `MAX_CONTROLLERS` disconnected slots that publishes on `sender`.
    pub fn new(sender: Sender<Vec<FrontendControllerSlotConnection>>) -> (r: Self)
        ensures
            r.model() == SlotTableModel::empty(),
            r.model().wf(),
            r.channel() == sender,
            r.published() == Seq::<Seq<FrontendControllerSlotConnection>>::empty(),
    {
        let mut player_slots: Vec<ControllerSlotConnectionStatus> = Vec::new();
        let mut i: usize = 0;
        while i < MAX_CONTROLLERS
            invariant
                i <= MAX_CONTROLLERS,
                player_slots@.len() == i,
                forall|j: int| 0 <= j < i ==> #[trigger] player_slots@[j]
                    == ControllerSlotConnectionStatus::Disconnected,
            decreases MAX_CONTROLLERS - i,
        {
            player_slots.push(ControllerSlotConnectionStatus::Disconnected);
            i = i + 1;
        }
        let r = GamepadManagerInner {
            player_slots,
            gamepad_map: HashMap::new(),
            sender,
            published: Ghost(Seq::empty()),
        };
        assert(r.model().slots =~= SlotTableModel::empty().slots);
        assert(r.model().ids =~= SlotTableModel::empty().ids);
        r
    }

    /// The published view of the slots.
    pub fn snapshot(&self) -> (r: Vec<FrontendControllerSlotConnection>)
        ensures
            r@ == self.model().snapshot(),
    {
        let mut r: Vec<FrontendControllerSlotConnection> = Vec::new();
        let mut i: usize = 0;
        while i < self.player_slots.len()
            invariant
                i <= self.player_slots@.len(),
                r@ =~= self.model().snapshot().take(i as int),
            decreases self.player_slots@.len() - i,
        {
            r.push(self.player_slots[i].to_frontend());
            i = i + 1;
        }
        r
    }

    /// Sends the current snapshot on the channel.
    fn broadcast_state(&mut self)
        ensures
            final(self).model() == old(self).model(),
            final(self).channel() == old(self).channel(),
            final(self).published() == old(self).published().push(old(self).model().snapshot()),
    {
        let snapshot = self.snapshot();
        proof {
            self.published@ = self.published@.push(snapshot@);
        }
        publish(&self.sender, snapshot);
    }

    pub fn get_slot(&self, slot_num: usize) -> (r: &ControllerSlotConnectionStatus)
        requires
            slot_num < self.model().slots.len(),
        ensures
            *r == self.model().slots[slot_num as int],
    {
        &self.player_slots[slot_num]
    }

    pub fn get_slot_num(&self, id: &usize) -> (r: Option<&usize>)
        ensures
            r matches Some(s) ==> self.model().ids.contains_key(*id) && *s == self.model().ids[*id],
            r is None ==> !self.model().ids.contains_key(*id),
    {
        self.gamepad_map.get(id)
    }

    pub fn get_slots(&self) -> (r: &Vec<ControllerSlotConnectionStatus>)
        ensures
            r@ == self.model().slots,
    {
        &self.player_slots
    }

    /// Replaces one slot's status and publishes the new snapshot. The id map is
    /// left as it is.
    pub fn set_slot(&mut self, slot_num: usize, value: ControllerSlotConnectionStatus)
        requires
            slot_num < old(self).model().slots.len(),
        ensures
            final(self).model().slots == old(self).model().slots.update(slot_num as int, value),
            final(self).model().ids == old(self).model().ids,
            final(self).channel() == old(self).channel(),
            final(self).published() == old(self).published().push(final(self).model().snapshot()),
    {
        self.player_slots.set(slot_num, value);
        self.broadcast_state();
    }

    pub fn register_id(&mut self, id: usize, slot_num: usize)
        ensures
            final(self).model().slots == old(self).model().slots,
            final(self).model().ids == old(self).model().ids.insert(id, slot_num),
            final(self).channel() == old(self).channel(),
            final(self).published() == old(self).published(),
    {
        self.gamepad_map.insert(id, slot_num);
    }

    pub fn remove_id(&mut self, id: &usize)
        ensures
            final(self).model().slots == old(self).model().slots,
            final(self).model().ids == old(self).model().ids.remove(*id),
            final(self).channel() == old(self).channel(),
            final(self).published() == old(self).published(),
    {
        self.gamepad_map.remove(id);
    }

    /// Exchanges two slots (zero-indexed), moves the id mapping of whichever
    /// held a controller, and publishes the new snapshot.
    pub fn swap_slots(&mut self, slot1: usize, slot2: usize)
        requires
            old(self).model().wf(),
            slot1 < MAX_CONTROLLERS,
            slot2 < MAX_CONTROLLERS,
        ensures
            final(self).model() == old(self).model().swapped(slot1, slot2),
            final(self).model().wf(),
            final(self).channel() == old(self).channel(),
            final(self).published() == old(self).published().push(final(self).model().snapshot()),
    {
        let ghost before = self.model();
        let slot_1_id = match self.get_slot(slot1) {
            ControllerSlotConnectionStatus::Connected(gamepad_id) => Some(*gamepad_id),
            ControllerSlotConnectionStatus::Stale(gamepad_id, _) => Some(*gamepad_id),
            ControllerSlotConnectionStatus::Disconnected => None,
        };
        let slot_2_id = match self.get_slot(slot2) {
            ControllerSlotConnectionStatus::Connected(gamepad_id) => Some(*gamepad_id),
            ControllerSlotConnectionStatus::Stale(gamepad_id, _) => Some(*gamepad_id),
            ControllerSlotConnectionStatus::Disconnected => None,
        };
        assert(slot_1_id == occupant(before.slots[slot1 as int]));
        assert(slot_2_id == occupant(before.slots[slot2 as int]));
        if let Some(id) = slot_1_id {
            self.register_id(id, slot2);
        }
        if let Some(id) = slot_2_id {
            self.register_id(id, slot1);
        }
        let first = self.player_slots[slot1];
        let second = self.player_slots[slot2];
        self.player_slots.set(slot1, second);
        self.player_slots.set(slot2, first);
        let ghost after = before.swapped(slot1, slot2);
        assert(self.model().slots =~= after.slots);
        assert(self.model().ids =~= after.ids) by {
            assert forall|id: usize| #[trigger] self.model().ids.contains_key(id)
                <==> before.ids.contains_key(id) by {
                if slot_1_id == Some(id) || slot_2_id == Some(id) {
                    assert(before.ids.contains_key(id));
                }
            }
            assert forall|id: usize| #[trigger] self.model().ids.contains_key(id)
                implies self.model().ids[id] == swap_index(before.ids[id], slot1, slot2) by {
                let s = before.ids[id];
                assert(occupant(before.slots[s as int]) == Some(id));
                if s == slot1 {
                    assert(slot_1_id == Some(id));
                } else if s == slot2 {
                    assert(slot_2_id == Some(id));
                } else {
                    if slot_1_id == Some(id) {
                        assert(before.ids[id] == slot1);
                    }
                    if slot_2_id == Some(id) {
                        assert(before.ids[id] == slot2);
                    }
                }
            }
        }
        proof {
            lemma_swap_keeps_wf(before, slot1, slot2);
        }
        self.broadcast_state();
    }

    /// The lowest slot number that is disconnected.
    pub fn get_next_slot_num(&self) -> (r: Option<usize>)
        ensures
            r == (match lowest_free(self.model().slots) {
                Some(i) => Some(i as usize),
                None => None,
            }),
    {
        get_next_slot_num_under_max(&self.player_slots)
    }
}

pub proof fn lemma_swap_keeps_wf(t: SlotTableModel, a: usize, b: usize)
    requires
        t.wf(),
        a < MAX_CONTROLLERS,
        b < MAX_CONTROLLERS,
    ensures
        t.swapped(a, b).wf(),
{
    let u = t.swapped(a, b);
    assert forall|id: usize| #[trigger] u.ids.contains_key(id) implies u.ids[id] < MAX_CONTROLLERS
        && occupant(u.slots[u.ids[id] as int]) == Some(id) by {
        assert(t.ids.contains_key(id));
    }
    assert forall|i: int|
        0 <= i < MAX_CONTROLLERS && (#[trigger] occupant(u.slots[i])) is Some implies {
        let id = occupant(u.slots[i])->0;
        u.ids.contains_key(id) && u.ids[id] == i
    } by {
        let j: int = if i == a as int {
            b as int
        } else if i == b as int {
            a as int
        } else {
            i
        };
        assert(u.slots[i] == t.slots[j]);
        assert(occupant(t.slots[j]) is Some);
    }
}

} // verus!
