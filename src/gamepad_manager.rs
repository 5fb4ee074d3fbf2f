use crate::slot_laws::{lemma_connect_keeps_wf, lemma_disconnect_keeps_wf, lemma_expire_keeps_wf};
use crate::slot_table::{
    lowest_free, ControllerSlotConnectionStatus, FrontendControllerSlotConnection,
    GamepadManagerInner, SlotTableModel, MAX_CONTROLLERS,
};
use tokio::sync::broadcast::Sender;
use vstd::prelude::*;

verus! {

/// What `connect_controller` did with a controller.
#[derive(Debug, Clone, Copy, PartialEq, Eq, Structural)]
pub enum ConnectOutcome {
    /// A new controller took this (zero-indexed) slot.
    Assigned(usize),
    /// A stale controller came back to its own slot; its eviction timer is void.
    Reconnected(usize),
    /// The controller already held this slot and was connected: nothing changed.
    AlreadyConnected(usize),
    /// Every slot is taken: the controller is not served.
    NoFreeSlot,
}

/// An eviction to run once `delay_ms` milliseconds have passed: hand it back
/// to `expire_stale`, which applies it only if the slot is still stale from
/// this very disconnect.
#[derive(Debug, Clone, Copy, PartialEq, Eq, Structural)]
pub struct StaleTimer {
    pub id: usize,
    pub generation: u64,
    pub delay_ms: u64,
}

impl SlotTableModel {
    /// The table after `id` connects.
    pub open spec fn connected(self, id: usize) -> SlotTableModel {
        if self.ids.contains_key(id) {
            let s = self.ids[id];
            if self.slots[s as int] is Stale {
                SlotTableModel {
                    slots: self.slots.update(s as int, ControllerSlotConnectionStatus::Connected(id)),
                    ids: self.ids,
                }
            } else {
                self
            }
        } else {
            match lowest_free(self.slots) {
                Some(s) => SlotTableModel {
                    slots: self.slots.update(s, ControllerSlotConnectionStatus::Connected(id)),
                    ids: self.ids.insert(id, s as usize),
                },
                None => self,
            }
        }
    }

    /// What `connect_controller` reports for `id`.
    pub open spec fn connect_outcome(self, id: usize) -> ConnectOutcome {
        if self.ids.contains_key(id) {
            let s = self.ids[id];
            if self.slots[s as int] is Stale {
                ConnectOutcome::Reconnected(s)
            } else {
                ConnectOutcome::AlreadyConnected(s)
            }
        } else {
            match lowest_free(self.slots) {
                Some(s) => ConnectOutcome::Assigned(s as usize),
                None => ConnectOutcome::NoFreeSlot,
            }
        }
    }

    /// The table after `id` disconnects; `generation` marks this disconnect.
    pub open spec fn disconnected(self, id: usize, generation: u64) -> SlotTableModel {
        if self.ids.contains_key(id) {
            SlotTableModel {
                slots: self.slots.update(
                    self.ids[id] as int,
                    ControllerSlotConnectionStatus::Stale(id, generation),
                ),
                ids: self.ids,
            }
        } else {
            self
        }
    }

    /// The slot of `id` is still stale from the disconnect marked `generation`.
    pub open spec fn timer_is_current(self, id: usize, generation: u64) -> bool {
        &&& self.ids.contains_key(id)
        &&& self.slots[self.ids[id] as int] == ControllerSlotConnectionStatus::Stale(id, generation)
    }

    /// The table after the eviction timer of (`id`, `generation`) fires.
    pub open spec fn expired(self, id: usize, generation: u64) -> SlotTableModel {
        if self.timer_is_current(id, generation) {
            SlotTableModel {
                slots: self.slots.update(
                    self.ids[id] as int,
                    ControllerSlotConnectionStatus::Disconnected,
                ),
                ids: self.ids.remove(id),
            }
        } else {
            self
        }
    }
}

/// The generation that follows `g`.
pub open spec fn next_generation(g: u64) -> u64 {
    if g == u64::MAX {
        0
    } else {
        (g + 1) as u64
    }
}

/// Tracks which controller holds which player slot, and publishes a snapshot
/// of the slots after every change.
///
/// `new` establishes `wf` and every operation keeps it. Share the manager
/// behind one lock: each method is one whole operation on the table.
pub struct GamepadManager {
    state: GamepadManagerInner,
    timeout_ms: u64,
    generation: u64,
}

impl GamepadManager {
    pub closed spec fn model(&self) -> SlotTableModel {
        self.state.model()
    }

    pub closed spec fn channel(&self) -> Sender<Vec<FrontendControllerSlotConnection>> {
        self.state.channel()
    }

    /// Every snapshot published so far, oldest first.
    pub closed spec fn published(&self) -> Seq<Seq<FrontendControllerSlotConnection>> {
        self.state.published()
    }

    /// How long a slot stays stale before it is freed, in milliseconds.
    pub closed spec fn timeout(&self) -> u64 {
        self.timeout_ms
    }

    /// The generation that the next disconnect will carry.
    pub closed spec fn current_generation(&self) -> u64 {
        self.generation
    }

    pub open spec fn wf(&self) -> bool {
        self.model().wf()
    }

    /// A manager with every slot disconnected, publishing on `sender`; a
    /// disconnected controller keeps its slot for `timeout_ms` milliseconds.
    pub fn new(sender: Sender<Vec<FrontendControllerSlotConnection>>, timeout_ms: u64) -> (r: Self)
        ensures
            r.wf(),
            r.model() == SlotTableModel::empty(),
            r.channel() == sender,
            r.timeout() == timeout_ms,
            r.published() == Seq::<Seq<FrontendControllerSlotConnection>>::empty(),
    {
        GamepadManager { state: GamepadManagerInner::new(sender), timeout_ms, generation: 0 }
    }

    pub fn timeout_ms(&self) -> (r: u64)
        ensures
            r == self.timeout(),
    {
        self.timeout_ms
    }

    /// Registers or reconnects a controller. A stale controller gets its own slot
    /// back; a new one gets the lowest disconnected slot; with every slot taken,
    /// or with the controller already connected, nothing changes.
    pub fn connect_controller(&mut self, id: usize) -> (r: ConnectOutcome)
        requires
            old(self).wf(),
        ensures
            final(self).wf(),
            final(self).model() == old(self).model().connected(id),
            r == old(self).model().connect_outcome(id),
            r is Assigned || r is Reconnected ==> final(self).published() == old(self).published().push(final(self).model().snapshot()),
            r is AlreadyConnected || r is NoFreeSlot ==> final(self).published() == old(self).published(),
            final(self).channel() == old(self).channel(),
            final(self).timeout() == old(self).timeout(),
            final(self).current_generation() == old(self).current_generation(),
    {
        let ghost before = self.model();
        let known = match self.state.get_slot_num(&id) {
            Some(slot) => Some(*slot),
            None => None,
        };
        match known {
            Some(slot) => {
                let status = *self.state.get_slot(slot);
                match status {
                    ControllerSlotConnectionStatus::Stale(_, _) => {
                        self.state.set_slot(slot, ControllerSlotConnectionStatus::Connected(id));
                        proof {
                            assert(self.model().slots =~= before.connected(id).slots);
                            lemma_connect_keeps_wf(before, id);
                        }
                        ConnectOutcome::Reconnected(slot)
                    },
                    _ => ConnectOutcome::AlreadyConnected(slot),
                }
            },
            None => {
                match self.state.get_next_slot_num() {
                    Some(open_slot) => {
                        proof {
                            assert(before.slots[open_slot as int] is Disconnected);
                        }
                        self.state.register_id(id, open_slot);
                        self.state.set_slot(open_slot, ControllerSlotConnectionStatus::Connected(id));
                        proof {
                            assert(self.model().slots =~= before.connected(id).slots);
                            assert(self.model().ids =~= before.connected(id).ids);
                            lemma_connect_keeps_wf(before, id);
                        }
                        ConnectOutcome::Assigned(open_slot)
                    },
                    None => ConnectOutcome::NoFreeSlot,
                }
            },
        }
    }

    /// Marks the slot of a controller stale and returns the eviction timer that
    /// frees it after the timeout. An unknown controller changes nothing.
    pub fn disconnect_controller(&mut self, id: usize) -> (r: Option<StaleTimer>)
        requires
            old(self).wf(),
        ensures
            final(self).wf(),
            final(self).model() == old(self).model().disconnected(id, old(self).current_generation()),
            old(self).model().ids.contains_key(id) ==> r == Some(
                StaleTimer {
                    id,
                    generation: old(self).current_generation(),
                    delay_ms: old(self).timeout(),
                },
            ),
            !old(self).model().ids.contains_key(id) ==> r is None,
            old(self).model().ids.contains_key(id) ==> final(self).current_generation()
                == next_generation(old(self).current_generation()),
            !old(self).model().ids.contains_key(id) ==> final(self).current_generation()
                == old(self).current_generation(),
            old(self).model().ids.contains_key(id) ==> final(self).published() == old(self).published().push(final(self).model().snapshot()),
            !old(self).model().ids.contains_key(id) ==> final(self).published() == old(self).published(),
            final(self).channel() == old(self).channel(),
            final(self).timeout() == old(self).timeout(),
    {
        let ghost before = self.model();
        let known = match self.state.get_slot_num(&id) {
            Some(slot) => Some(*slot),
            None => None,
        };
        match known {
            Some(slot_num) => {
                let generation = self.generation;
                self.state.set_slot(slot_num, ControllerSlotConnectionStatus::Stale(id, generation));
                self.generation = self.generation.wrapping_add(1);
                proof {
                    assert(self.model().slots =~= before.disconnected(id, generation).slots);
                    lemma_disconnect_keeps_wf(before, id, generation);
                }
                Some(StaleTimer { id, generation, delay_ms: self.timeout_ms })
            },
            None => None,
        }
    }

    /// The body of an eviction timer, run once its delay has passed: frees the
    /// slot and forgets the controller, but only if the slot is still stale from
    /// the disconnect that made `timer`. Returns whether it did.
    pub fn expire_stale(&mut self, timer: StaleTimer) -> (r: bool)
        requires
            old(self).wf(),
        ensures
            final(self).wf(),
            r == old(self).model().timer_is_current(timer.id, timer.generation),
            final(self).model() == old(self).model().expired(timer.id, timer.generation),
            r ==> final(self).published() == old(self).published().push(
                final(self).model().snapshot(),
            ),
            !r ==> final(self).published() == old(self).published(),
            final(self).channel() == old(self).channel(),
            final(self).timeout() == old(self).timeout(),
            final(self).current_generation() == old(self).current_generation(),
    {
        let ghost before = self.model();
        let known = match self.state.get_slot_num(&timer.id) {
            Some(slot) => Some(*slot),
            None => None,
        };
        match known {
            Some(slot) => {
                let status = *self.state.get_slot(slot);
                if status == ControllerSlotConnectionStatus::Stale(timer.id, timer.generation) {
                    self.state.set_slot(slot, ControllerSlotConnectionStatus::Disconnected);
                    self.state.remove_id(&timer.id);
                    proof {
                        let after = before.expired(timer.id, timer.generation);
                        assert(self.model().slots =~= after.slots);
                        assert(self.model().ids =~= after.ids);
                        lemma_expire_keeps_wf(before, timer.id, timer.generation);
                    }
                    true
                } else {
                    false
                }
            },
            None => false,
        }
    }

    /// Swaps the controllers of two slots and publishes the new snapshot, also
    /// when a slot is swapped with itself. Slot numbers are one-indexed: player 1
    /// holds slot 1. A number outside `1..=MAX_CONTROLLERS` changes nothing and
    /// publishes nothing.
    pub fn swap_slots(&mut self, slot1: usize, slot2: usize)
        requires
            old(self).wf(),
        ensures
            final(self).wf(),
            1 <= slot1 <= MAX_CONTROLLERS && 1 <= slot2 <= MAX_CONTROLLERS ==> final(self).model()
                == old(self).model().swapped((slot1 - 1) as usize, (slot2 - 1) as usize),
            !(1 <= slot1 <= MAX_CONTROLLERS && 1 <= slot2 <= MAX_CONTROLLERS) ==> final(self).model()
                == old(self).model(),
            1 <= slot1 <= MAX_CONTROLLERS && 1 <= slot2 <= MAX_CONTROLLERS ==> final(self).published()
                == old(self).published().push(final(self).model().snapshot()),
            !(1 <= slot1 <= MAX_CONTROLLERS && 1 <= slot2 <= MAX_CONTROLLERS) ==> final(self).published() == old(self).published(),
            final(self).channel() == old(self).channel(),
            final(self).timeout() == old(self).timeout(),
            final(self).current_generation() == old(self).current_generation(),
    {
        if 1 <= slot1 && slot1 <= MAX_CONTROLLERS && 1 <= slot2 && slot2 <= MAX_CONTROLLERS {
            self.state.swap_slots(slot1 - 1, slot2 - 1);
        }
    }

    /// The current state of every slot.
    pub fn get_slots(&self) -> (r: Vec<FrontendControllerSlotConnection>)
        ensures
            r@ == self.model().snapshot(),
    {
        self.state.snapshot()
    }

    /// The zero-indexed slot that a controller holds, if it holds one.
    pub fn get_slot_num(&self, id: usize) -> (r: Option<usize>)
        ensures
            r == (if self.model().ids.contains_key(id) {
                Some(self.model().ids[id])
            } else {
                None
            }),
    {
        match self.state.get_slot_num(&id) {
            Some(slot) => Some(*slot),
            None => None,
        }
    }
}

} // verus!
