use crate::gamepad_manager::ConnectOutcome;
use crate::slot_table::{
    is_lowest_free, lowest_free, occupant, ControllerSlotConnectionStatus,
    FrontendControllerSlotConnection, SlotTableModel, MAX_CONTROLLERS,
};
use vstd::prelude::*;

verus! {

/// The table after the controllers of `ids` connect, in order.
pub open spec fn connect_all(t: SlotTableModel, ids: Seq<usize>) -> SlotTableModel
    decreases ids.len(),
{
    if ids.len() == 0 {
        t
    } else {
        connect_all(t, ids.drop_last()).connected(ids.last())
    }
}

/// In a well-formed table every occupied slot has exactly one id of the map
/// pointing to it, and every mapped id points to exactly one slot, which that
/// id occupies.
pub proof fn lemma_slot_bijection(t: SlotTableModel)
    requires
        t.wf(),
    ensures
        forall|i: int|
            0 <= i < MAX_CONTROLLERS && (#[trigger] occupant(t.slots[i])) is Some ==> {
                let id = occupant(t.slots[i])->0;
                &&& t.ids.contains_key(id)
                &&& t.ids[id] == i
                &&& forall|other: usize| #[trigger]
                    t.ids.contains_key(other) && t.ids[other] == i ==> other == id
            },
        forall|i: int|
            0 <= i < MAX_CONTROLLERS && (#[trigger] t.slots[i]) is Disconnected ==> forall|
                id: usize,
            | #[trigger] t.ids.contains_key(id) ==> t.ids[id] != i,
        forall|id: usize| #[trigger]
            t.ids.contains_key(id) ==> t.ids[id] < MAX_CONTROLLERS && occupant(
                t.slots[t.ids[id] as int],
            ) == Some(id),
{
}

/// Connecting a controller keeps the table well formed.
pub proof fn lemma_connect_keeps_wf(t: SlotTableModel, id: usize)
    requires
        t.wf(),
    ensures
        t.connected(id).wf(),
{
    let u = t.connected(id);
    if t.ids.contains_key(id) {
        let s = t.ids[id] as int;
        assert(occupant(t.slots[s]) == Some(id));
        assert forall|i: int|
            0 <= i < MAX_CONTROLLERS && (#[trigger] occupant(u.slots[i])) is Some implies {
            let x = occupant(u.slots[i])->0;
            u.ids.contains_key(x) && u.ids[x] == i
        } by {
            if i != s {
                assert(occupant(t.slots[i]) is Some);
            }
        }
    } else if let Some(f) = lowest_free(t.slots) {
        assert(is_lowest_free(t.slots, f));
        assert forall|x: usize| #[trigger]
            u.ids.contains_key(x) implies u.ids[x] < MAX_CONTROLLERS && occupant(
            u.slots[u.ids[x] as int],
        ) == Some(x) by {
            if x != id {
                assert(t.ids.contains_key(x));
                assert(occupant(t.slots[t.ids[x] as int]) == Some(x));
            }
        }
        assert forall|i: int|
            0 <= i < MAX_CONTROLLERS && (#[trigger] occupant(u.slots[i])) is Some implies {
            let x = occupant(u.slots[i])->0;
            u.ids.contains_key(x) && u.ids[x] == i
        } by {
            if i != f {
                assert(occupant(t.slots[i]) is Some);
                assert(t.ids.contains_key(occupant(t.slots[i])->0));
            }
        }
    }
}

/// Disconnecting a controller keeps the table well formed.
pub proof fn lemma_disconnect_keeps_wf(t: SlotTableModel, id: usize, generation: u64)
    requires
        t.wf(),
    ensures
        t.disconnected(id, generation).wf(),
{
    let u = t.disconnected(id, generation);
    if t.ids.contains_key(id) {
        let s = t.ids[id] as int;
        assert(occupant(t.slots[s]) == Some(id));
        assert forall|i: int|
            0 <= i < MAX_CONTROLLERS && (#[trigger] occupant(u.slots[i])) is Some implies {
            let x = occupant(u.slots[i])->0;
            u.ids.contains_key(x) && u.ids[x] == i
        } by {
            if i != s {
                assert(occupant(t.slots[i]) is Some);
            }
        }
    }
}

/// An eviction timer firing keeps the table well formed.
pub proof fn lemma_expire_keeps_wf(t: SlotTableModel, id: usize, generation: u64)
    requires
        t.wf(),
    ensures
        t.expired(id, generation).wf(),
{
    let u = t.expired(id, generation);
    if t.timer_is_current(id, generation) {
        assert forall|x: usize| #[trigger]
            u.ids.contains_key(x) implies u.ids[x] < MAX_CONTROLLERS && occupant(
            u.slots[u.ids[x] as int],
        ) == Some(x) by {
            assert(t.ids.contains_key(x));
            assert(occupant(t.slots[t.ids[x] as int]) == Some(x));
        }
        assert forall|i: int|
            0 <= i < MAX_CONTROLLERS && (#[trigger] occupant(u.slots[i])) is Some implies {
            let x = occupant(u.slots[i])->0;
            u.ids.contains_key(x) && u.ids[x] == i
        } by {
            assert(occupant(t.slots[i]) is Some);
        }
    }
}

/// Every operation on the table keeps it well formed, so every table reached
/// from the empty one by connects, disconnects, evictions and swaps satisfies
/// the bijection of `lemma_slot_bijection`.
pub proof fn lemma_operations_keep_wf(
    t: SlotTableModel,
    id: usize,
    generation: u64,
    a: usize,
    b: usize,
)
    requires
        t.wf(),
        a < MAX_CONTROLLERS,
        b < MAX_CONTROLLERS,
    ensures
        SlotTableModel::empty().wf(),
        t.connected(id).wf(),
        t.disconnected(id, generation).wf(),
        t.expired(id, generation).wf(),
        t.swapped(a, b).wf(),
{
    lemma_connect_keeps_wf(t, id);
    lemma_disconnect_keeps_wf(t, id, generation);
    lemma_expire_keeps_wf(t, id, generation);
    crate::slot_table::lemma_swap_keeps_wf(t, a, b);
}

proof fn lemma_fill_prefix(ids: Seq<usize>, k: int)
    requires
        ids.len() == MAX_CONTROLLERS,
        ids.no_duplicates(),
        0 <= k <= MAX_CONTROLLERS,
    ensures
        ({
            let t = connect_all(SlotTableModel::empty(), ids.take(k));
            &&& t.wf()
            &&& forall|i: int|
                0 <= i < k ==> #[trigger] t.slots[i] == ControllerSlotConnectionStatus::Connected(
                    ids[i],
                )
            &&& forall|i: int|
                k <= i < MAX_CONTROLLERS ==> #[trigger] t.slots[i]
                    == ControllerSlotConnectionStatus::Disconnected
            &&& forall|id: usize| #[trigger]
                t.ids.contains_key(id) <==> ids.take(k).contains(id)
        }),
    decreases k,
{
    let e = SlotTableModel::empty();
    if k == 0 {
        assert(ids.take(0) =~= Seq::<usize>::empty());
    } else {
        lemma_fill_prefix(ids, k - 1);
        let p = ids.take(k - 1);
        assert(ids.take(k).drop_last() =~= p);
        let t = connect_all(e, p);
        let id = ids[k - 1];
        assert(!p.contains(id)) by {
            if p.contains(id) {
                let j = choose|j: int| 0 <= j < p.len() && p[j] == id;
                assert(ids[j] == ids[k - 1]);
            }
        }
        assert(is_lowest_free(t.slots, k - 1));
        assert forall|j: int| is_lowest_free(t.slots, j) implies j == k - 1 by {
            if j < k - 1 {
                assert(t.slots[j] == ControllerSlotConnectionStatus::Connected(ids[j]));
            } else if j > k - 1 {
                assert(t.slots[k - 1] is Disconnected);
            }
        }
        assert(lowest_free(t.slots) == Some(k - 1));
        let u = connect_all(e, ids.take(k));
        assert(u == t.connected(id));
        assert forall|x: usize| #[trigger] u.ids.contains_key(x) <==> ids.take(k).contains(x) by {
            if ids.take(k).contains(x) && x != id {
                let j = choose|j: int| 0 <= j < k && ids.take(k)[j] == x;
                assert(j != k - 1);
                assert(p[j] == x);
            }
            if p.contains(x) {
                let j = choose|j: int| 0 <= j < p.len() && p[j] == x;
                assert(ids.take(k)[j] == x);
            }
            assert(ids.take(k)[k - 1] == id);
        }
        assert forall|x: usize| #[trigger]
            u.ids.contains_key(x) implies u.ids[x] < MAX_CONTROLLERS && occupant(
            u.slots[u.ids[x] as int],
        ) == Some(x) by {
            if x != id {
                assert(t.ids.contains_key(x));
                assert(occupant(t.slots[t.ids[x] as int]) == Some(x));
            }
        }
        assert forall|i: int|
            0 <= i < MAX_CONTROLLERS && (#[trigger] occupant(u.slots[i])) is Some implies {
            let x = occupant(u.slots[i])->0;
            u.ids.contains_key(x) && u.ids[x] == i
        } by {
            if i != k - 1 {
                assert(occupant(t.slots[i]) is Some);
                assert(t.ids.contains_key(occupant(t.slots[i])->0));
            }
        }
    }
}

/// Connecting `MAX_CONTROLLERS` distinct controllers to an empty table gives
/// the k-th of them slot k, in ascending order; one more new controller then
/// finds no slot and leaves the table unchanged.
pub proof fn lemma_fill_in_order(ids: Seq<usize>, extra: usize)
    requires
        ids.len() == MAX_CONTROLLERS,
        ids.no_duplicates(),
        !ids.contains(extra),
    ensures
        forall|k: int|
            0 <= k < MAX_CONTROLLERS ==> #[trigger] connect_all(
                SlotTableModel::empty(),
                ids.take(k),
            ).connect_outcome(ids[k]) == ConnectOutcome::Assigned(k as usize),
        forall|i: int|
            0 <= i < MAX_CONTROLLERS ==> #[trigger] connect_all(
                SlotTableModel::empty(),
                ids,
            ).slots[i] == ControllerSlotConnectionStatus::Connected(ids[i]),
        connect_all(SlotTableModel::empty(), ids).connected(extra) == connect_all(
            SlotTableModel::empty(),
            ids,
        ),
        connect_all(SlotTableModel::empty(), ids).connect_outcome(extra) == ConnectOutcome::NoFreeSlot,
{
    let e = SlotTableModel::empty();
    assert forall|k: int| 0 <= k < MAX_CONTROLLERS implies #[trigger] connect_all(
        e,
        ids.take(k),
    ).connect_outcome(ids[k]) == ConnectOutcome::Assigned(k as usize) by {
        lemma_fill_prefix(ids, k);
        let t = connect_all(e, ids.take(k));
        assert(!ids.take(k).contains(ids[k])) by {
            if ids.take(k).contains(ids[k]) {
                let j = choose|j: int| 0 <= j < k && ids.take(k)[j] == ids[k];
                assert(ids[j] == ids[k]);
            }
        }
        assert(is_lowest_free(t.slots, k));
        assert forall|j: int| is_lowest_free(t.slots, j) implies j == k by {
            if j < k {
                assert(t.slots[j] == ControllerSlotConnectionStatus::Connected(ids[j]));
            } else if j > k {
                assert(t.slots[k] is Disconnected);
            }
        }
    }
    lemma_fill_prefix(ids, MAX_CONTROLLERS as int);
    assert(ids.take(MAX_CONTROLLERS as int) =~= ids);
    let t = connect_all(e, ids);
    assert(!t.ids.contains_key(extra));
    assert forall|j: int| !is_lowest_free(t.slots, j) by {
        if 0 <= j < MAX_CONTROLLERS {
            assert(t.slots[j] == ControllerSlotConnectionStatus::Connected(ids[j]));
        }
    }
}

/// After a disconnect, its eviction timer is the current one and the slot
/// shows as stale; when the timer fires with nothing in between, the slot is
/// disconnected, the id forgotten, and the slot shows as disconnected.
pub proof fn lemma_disconnect_then_expire(t: SlotTableModel, id: usize, generation: u64)
    requires
        t.wf(),
        t.ids.contains_key(id),
    ensures
        t.disconnected(id, generation).timer_is_current(id, generation),
        t.disconnected(id, generation).expired(id, generation) == (SlotTableModel {
            slots: t.slots.update(t.ids[id] as int, ControllerSlotConnectionStatus::Disconnected),
            ids: t.ids.remove(id),
        }),
        t.disconnected(id, generation).snapshot() == t.snapshot().update(
            t.ids[id] as int,
            FrontendControllerSlotConnection::Stale,
        ),
        t.disconnected(id, generation).expired(id, generation).snapshot() == t.snapshot().update(
            t.ids[id] as int,
            FrontendControllerSlotConnection::Disconnected,
        ),
{
    let s = t.ids[id] as int;
    let d = t.disconnected(id, generation);
    assert(d.snapshot() =~= t.snapshot().update(s, FrontendControllerSlotConnection::Stale));
    assert(d.expired(id, generation).snapshot() =~= t.snapshot().update(
        s,
        FrontendControllerSlotConnection::Disconnected,
    ));
    assert(d.slots.update(s, ControllerSlotConnectionStatus::Disconnected) =~= t.slots.update(
        s,
        ControllerSlotConnectionStatus::Disconnected,
    ));
}

/// A controller that reconnects before its timer fires is connected again at
/// the same slot, every other slot and the id map are untouched, and the
/// pending timer no longer does anything.
pub proof fn lemma_reconnect_before_timeout(t: SlotTableModel, id: usize, generation: u64)
    requires
        t.wf(),
        t.ids.contains_key(id),
    ensures
        ({
            let s = t.ids[id] as int;
            let u = t.disconnected(id, generation).connected(id);
            &&& t.disconnected(id, generation).connect_outcome(id) == ConnectOutcome::Reconnected(
                t.ids[id],
            )
            &&& u.slots[s] == ControllerSlotConnectionStatus::Connected(id)
            &&& forall|i: int| 0 <= i < MAX_CONTROLLERS && i != s ==> #[trigger] u.slots[i] == t.slots[i]
            &&& u.ids == t.ids
            &&& !u.timer_is_current(id, generation)
            &&& u.expired(id, generation) == u
            &&& t.slots[s] == ControllerSlotConnectionStatus::Connected(id) ==> u == t
        }),
{
    let s = t.ids[id] as int;
    let u = t.disconnected(id, generation).connected(id);
    if t.slots[s] == ControllerSlotConnectionStatus::Connected(id) {
        assert(u.slots =~= t.slots);
    }
}

/// Swapping two slots held by connected controllers `x` and `y` exchanges
/// them and points each id at its new slot; no other id moves.
pub proof fn lemma_swap_connected(t: SlotTableModel, a: usize, b: usize, x: usize, y: usize)
    requires
        t.wf(),
        a < MAX_CONTROLLERS,
        b < MAX_CONTROLLERS,
        a != b,
        t.slots[a as int] == ControllerSlotConnectionStatus::Connected(x),
        t.slots[b as int] == ControllerSlotConnectionStatus::Connected(y),
    ensures
        t.swapped(a, b).slots[a as int] == ControllerSlotConnectionStatus::Connected(y),
        t.swapped(a, b).slots[b as int] == ControllerSlotConnectionStatus::Connected(x),
        t.swapped(a, b).ids[x] == b,
        t.swapped(a, b).ids[y] == a,
        t.swapped(a, b).ids.dom() == t.ids.dom(),
        forall|id: usize| #[trigger]
            t.ids.contains_key(id) && id != x && id != y ==> t.swapped(a, b).ids[id] == t.ids[id],
        t.swapped(a, b).wf(),
{
    assert(occupant(t.slots[a as int]) == Some(x));
    assert(occupant(t.slots[b as int]) == Some(y));
    assert(t.swapped(a, b).ids.dom() =~= t.ids.dom());
    assert forall|id: usize| #[trigger]
        t.ids.contains_key(id) && id != x && id != y implies t.swapped(a, b).ids[id] == t.ids[id] by {
        assert(occupant(t.slots[t.ids[id] as int]) == Some(id));
    }
    crate::slot_table::lemma_swap_keeps_wf(t, a, b);
}

/// Swapping a slot with itself changes nothing.
pub proof fn lemma_swap_same_slot(t: SlotTableModel, n: usize)
    requires
        t.wf(),
        n < MAX_CONTROLLERS,
    ensures
        t.swapped(n, n) == t,
{
    let u = t.swapped(n, n);
    assert(u.slots =~= t.slots);
    assert(u.ids =~= t.ids);
}

} // verus!
