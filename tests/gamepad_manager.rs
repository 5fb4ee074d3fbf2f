use quackbox_backend::gamepad_manager::{ConnectOutcome, GamepadManager, StaleTimer};
use quackbox_backend::slot_table::{
    get_next_slot_num_under_max, ControllerSlotConnectionStatus, FrontendControllerSlotConnection,
    GamepadManagerInner, MAX_CONTROLLERS,
};
use tokio::sync::broadcast;

use FrontendControllerSlotConnection::{Connected, Disconnected, Stale};

const TEST_TIMEOUT_MS: u64 = 10;

fn manager() -> (GamepadManager, broadcast::Receiver<Vec<FrontendControllerSlotConnection>>) {
    let (tx, rx) = broadcast::channel(64);
    (GamepadManager::new(tx, TEST_TIMEOUT_MS), rx)
}

fn drain(rx: &mut broadcast::Receiver<Vec<FrontendControllerSlotConnection>>) -> Vec<Vec<FrontendControllerSlotConnection>> {
    let mut out = Vec::new();
    while let Ok(s) = rx.try_recv() {
        out.push(s);
    }
    out
}

#[test]
fn next_slot_num_under_max() {
    let (mut manager, _rx) = manager();
    for id in 1..=8 {
        manager.connect_controller(id);
    }
    let timer = manager.disconnect_controller(8).expect("controller 8 holds a slot");
    assert!(manager.expire_stale(timer));
    assert_eq!(
        manager.get_slots(),
        vec![Connected, Connected, Connected, Connected, Connected, Connected, Connected, Disconnected]
    );
}

#[test]
fn new_manager_has_every_slot_disconnected() {
    let (manager, _rx) = manager();
    assert_eq!(manager.get_slots(), vec![Disconnected; MAX_CONTROLLERS]);
    assert_eq!(manager.timeout_ms(), TEST_TIMEOUT_MS);
    assert_eq!(manager.get_slot_num(3), None);
}

#[test]
fn eight_controllers_fill_slots_in_order_and_ninth_is_ignored() {
    let (mut manager, mut rx) = manager();
    for (k, id) in [40usize, 7, 13, 99, 1, 2, 500, 64].iter().enumerate() {
        assert_eq!(manager.connect_controller(*id), ConnectOutcome::Assigned(k));
        assert_eq!(manager.get_slot_num(*id), Some(k));
    }
    assert_eq!(manager.get_slots(), vec![Connected; MAX_CONTROLLERS]);
    let published = drain(&mut rx);
    assert_eq!(published.len(), 8);
    assert_eq!(published[0][0], Connected);
    assert_eq!(published[0][1], Disconnected);
    assert_eq!(manager.connect_controller(1000), ConnectOutcome::NoFreeSlot);
    assert_eq!(manager.get_slot_num(1000), None);
    assert_eq!(manager.get_slots(), vec![Connected; MAX_CONTROLLERS]);
    assert!(drain(&mut rx).is_empty());
}

#[test]
fn disconnect_then_timeout_frees_the_slot() {
    let (mut manager, mut rx) = manager();
    manager.connect_controller(11);
    manager.connect_controller(22);
    let timer = manager.disconnect_controller(11).unwrap();
    assert_eq!(timer.id, 11);
    assert_eq!(timer.delay_ms, TEST_TIMEOUT_MS);
    assert_eq!(manager.get_slots()[0], Stale);
    assert_eq!(manager.get_slot_num(11), Some(0));
    assert!(manager.expire_stale(timer));
    assert_eq!(manager.get_slots()[0], Disconnected);
    assert_eq!(manager.get_slots()[1], Connected);
    assert_eq!(manager.get_slot_num(11), None);
    let published = drain(&mut rx);
    assert_eq!(published.last().unwrap()[0], Disconnected);
    // a freed slot is the lowest free one again
    assert_eq!(manager.connect_controller(33), ConnectOutcome::Assigned(0));
}

#[test]
fn disconnect_of_unknown_controller_is_ignored() {
    let (mut manager, mut rx) = manager();
    manager.connect_controller(5);
    drain(&mut rx);
    assert_eq!(manager.disconnect_controller(6), None);
    assert_eq!(manager.get_slots()[0], Connected);
    assert!(drain(&mut rx).is_empty());
}

#[test]
fn reconnect_before_timeout_keeps_the_slot() {
    let (mut manager, _rx) = manager();
    manager.connect_controller(1);
    manager.connect_controller(2);
    manager.connect_controller(3);
    let before = manager.get_slots();
    let timer = manager.disconnect_controller(2).unwrap();
    assert_eq!(manager.get_slots()[1], Stale);
    assert_eq!(manager.connect_controller(2), ConnectOutcome::Reconnected(1));
    assert_eq!(manager.get_slots(), before);
    assert_eq!(manager.get_slot_num(2), Some(1));
    // the old timer fires late: it must not evict the reconnected controller
    assert!(!manager.expire_stale(timer));
    assert_eq!(manager.get_slots(), before);
}

#[test]
fn timer_of_an_earlier_disconnect_does_not_evict() {
    let (mut manager, _rx) = manager();
    manager.connect_controller(9);
    let first = manager.disconnect_controller(9).unwrap();
    manager.connect_controller(9);
    let second = manager.disconnect_controller(9).unwrap();
    assert_ne!(first.generation, second.generation);
    assert!(!manager.expire_stale(first));
    assert_eq!(manager.get_slots()[0], Stale);
    assert!(manager.expire_stale(second));
    assert_eq!(manager.get_slots()[0], Disconnected);
}

#[test]
fn forged_timer_is_ignored() {
    let (mut manager, _rx) = manager();
    manager.connect_controller(4);
    assert!(!manager.expire_stale(StaleTimer { id: 4, generation: 0, delay_ms: 0 }));
    assert_eq!(manager.get_slots()[0], Connected);
}

#[test]
fn connecting_a_connected_controller_changes_nothing() {
    let (mut manager, _rx) = manager();
    manager.connect_controller(4);
    assert_eq!(manager.connect_controller(4), ConnectOutcome::AlreadyConnected(0));
    assert_eq!(manager.get_slots()[1], Disconnected);
}

#[test]
fn swap_exchanges_two_connected_controllers() {
    let (mut manager, mut rx) = manager();
    manager.connect_controller(100);
    manager.connect_controller(200);
    drain(&mut rx);
    manager.swap_slots(1, 2);
    assert_eq!(manager.get_slot_num(100), Some(1));
    assert_eq!(manager.get_slot_num(200), Some(0));
    assert_eq!(drain(&mut rx).len(), 1);
    // disconnecting 100 now marks slot 2 (index 1) stale
    manager.disconnect_controller(100);
    assert_eq!(manager.get_slots()[1], Stale);
    assert_eq!(manager.get_slots()[0], Connected);
}

#[test]
fn swap_with_itself_is_a_no_op() {
    let (mut manager, mut rx) = manager();
    manager.connect_controller(100);
    manager.connect_controller(200);
    let before = manager.get_slots();
    drain(&mut rx);
    manager.swap_slots(2, 2);
    assert_eq!(manager.get_slots(), before);
    assert_eq!(manager.get_slot_num(200), Some(1));
    // a swap in range always publishes, even of a slot with itself
    assert_eq!(drain(&mut rx), vec![before]);
}

#[test]
fn swap_with_an_empty_slot_moves_the_controller() {
    let (mut manager, _rx) = manager();
    manager.connect_controller(100);
    manager.swap_slots(1, 8);
    assert_eq!(manager.get_slot_num(100), Some(7));
    assert_eq!(manager.get_slots()[0], Disconnected);
    assert_eq!(manager.get_slots()[7], Connected);
}

#[test]
fn swap_out_of_range_changes_nothing() {
    let (mut manager, mut rx) = manager();
    manager.connect_controller(100);
    drain(&mut rx);
    manager.swap_slots(0, 1);
    manager.swap_slots(1, 9);
    assert_eq!(manager.get_slot_num(100), Some(0));
    assert!(drain(&mut rx).is_empty());
}

#[test]
fn inner_table_operations() {
    let (tx, mut rx) = broadcast::channel(16);
    let mut inner = GamepadManagerInner::new(tx);
    assert_eq!(inner.get_next_slot_num(), Some(0));
    inner.register_id(3, 0);
    inner.set_slot(0, ControllerSlotConnectionStatus::Connected(3));
    assert_eq!(inner.get_slot_num(&3), Some(&0));
    assert_eq!(*inner.get_slot(0), ControllerSlotConnectionStatus::Connected(3));
    assert_eq!(inner.get_next_slot_num(), Some(1));
    assert_eq!(rx.try_recv().unwrap()[0], Connected);
    inner.swap_slots(0, 2);
    assert_eq!(inner.get_slot_num(&3), Some(&2));
    assert_eq!(inner.get_slots()[2], ControllerSlotConnectionStatus::Connected(3));
    inner.remove_id(&3);
    assert_eq!(inner.get_slot_num(&3), None);
}

#[test]
fn status_projects_to_frontend_state() {
    assert_eq!(ControllerSlotConnectionStatus::Connected(1).to_frontend(), Connected);
    assert_eq!(ControllerSlotConnectionStatus::Stale(1, 4).to_frontend(), Stale);
    assert_eq!(ControllerSlotConnectionStatus::Disconnected.to_frontend(), Disconnected);
}

#[test]
fn lowest_free_slot_search() {
    assert_eq!(get_next_slot_num_under_max(&vec![]), None);
    assert_eq!(get_next_slot_num_under_max(&vec![ControllerSlotConnectionStatus::Connected(1), ControllerSlotConnectionStatus::Stale(2, 0)]), None);
    assert_eq!(
        get_next_slot_num_under_max(&vec![ControllerSlotConnectionStatus::Connected(1), ControllerSlotConnectionStatus::Disconnected, ControllerSlotConnectionStatus::Disconnected]),
        Some(1)
    );
}

#[test]
fn every_change_publishes_one_snapshot_of_the_new_slots() {
    let (mut manager, mut rx) = manager();
    manager.connect_controller(1);
    manager.connect_controller(2);
    assert_eq!(drain(&mut rx), vec![
        vec![Connected, Disconnected, Disconnected, Disconnected, Disconnected, Disconnected, Disconnected, Disconnected],
        vec![Connected, Connected, Disconnected, Disconnected, Disconnected, Disconnected, Disconnected, Disconnected],
    ]);
    let timer = manager.disconnect_controller(1).unwrap();
    assert_eq!(drain(&mut rx), vec![manager.get_slots()]);
    assert_eq!(manager.get_slots()[0], Stale);
    assert!(manager.expire_stale(timer));
    let published = drain(&mut rx);
    assert_eq!(published.len(), 1);
    assert_eq!(published[0][0], Disconnected);
    assert_eq!(published[0][1], Connected);
}

#[test]
fn out_of_date_timer_publishes_nothing() {
    let (mut manager, mut rx) = manager();
    manager.connect_controller(1);
    let timer = manager.disconnect_controller(1).unwrap();
    manager.connect_controller(1);
    drain(&mut rx);
    assert!(!manager.expire_stale(timer));
    assert!(drain(&mut rx).is_empty());
}

#[test]
fn reconnect_publishes_the_connected_slot() {
    let (mut manager, mut rx) = manager();
    manager.connect_controller(1);
    manager.disconnect_controller(1);
    drain(&mut rx);
    manager.connect_controller(1);
    let published = drain(&mut rx);
    assert_eq!(published.len(), 1);
    assert_eq!(published[0][0], Connected);
    // an already connected controller changes nothing and publishes nothing
    manager.connect_controller(1);
    assert!(drain(&mut rx).is_empty());
}
