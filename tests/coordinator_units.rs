use ice_cream_shop::coordinator::{Coordinator, LeaderAction, OrderStatus, RobotStateForCoordinator};
use ice_cream_shop::flavor::{ContainerType, IceCreamFlavor};
use ice_cream_shop::messages::{Address, ScreenMessage, LOOPBACK};
use ice_cream_shop::order::{Item, Order};

fn setup_coordinator() -> Coordinator {
    Coordinator::new(999)
}

fn screen_addr() -> Address {
    Address { ip: LOOPBACK, port: 0 }
}

fn create_order() -> Order {
    Order::new(
        412,
        77,
        "ABCDEFGH12345678".to_string(),
        vec![Item::new(ContainerType::Cup, 2, vec![IceCreamFlavor::Strawberry])],
    )
}

#[test]
fn test_new_coordinator() {
    let coordinator = setup_coordinator();
    assert_eq!(coordinator.orders.len(), 0);
    assert_eq!(coordinator.robot_states.iter().filter(|s| s.is_some()).count(), 5);
}

#[test]
fn test_register_order() {
    let mut coordinator = setup_coordinator();
    let order = create_order();
    let id = order.id();
    coordinator.register_order(screen_addr(), &order);
    assert_eq!(coordinator.orders.len(), 1);
    assert!(coordinator.orders.contains_key(&id));
}

#[test]
fn test_free_robot_after_abort() {
    let mut coordinator = setup_coordinator();
    let mut actions = Vec::new();
    coordinator.assign_order_to_robot(create_order(), &screen_addr(), &mut actions);
    coordinator.free_robot_after_abort(0);
    assert_eq!(coordinator.robot_states[0], Some(RobotStateForCoordinator::Idle));
}

#[test]
fn test_assign_order_to_robot() {
    let mut coordinator = setup_coordinator();
    let order = create_order();
    coordinator.register_order(screen_addr(), &order);
    let mut actions = Vec::new();
    coordinator.assign_order_to_robot(order.duplicate(), &screen_addr(), &mut actions);
    let order_state = &coordinator.orders[&order.id()];
    assert_eq!(order_state.status, OrderStatus::Pending);
    assert!(order_state.robot_id.is_some());
}

#[test]
fn test_order_completed() {
    let mut coordinator = setup_coordinator();
    let order = create_order();
    coordinator.register_order(screen_addr(), &order);
    let mut actions = Vec::new();
    coordinator.order_completed(order.id(), &mut actions);
    assert_eq!(coordinator.orders[&order.id()].status, OrderStatus::CompletedButNotCommited);
}

#[test]
fn order_completed_dispatches_the_oldest_queued_order() {
    let mut coordinator = Coordinator::new(0);
    let mut actions = Vec::new();
    for id in 1..=4 {
        let o = Order::new(id, 1, String::new(), Vec::new());
        coordinator.handle_screen_message(ScreenMessage::OrderRequest { order: o, screen_addr: screen_addr() }, &mut actions);
    }
    coordinator.order_queue.push((Order::new(8, 1, String::new(), Vec::new()), screen_addr()));
    coordinator.free_robot_after_abort(3);
    let mut actions = Vec::new();
    coordinator.order_completed(3, &mut actions);
    assert!(coordinator.order_queue.is_empty());
    assert_eq!(coordinator.robot_states[3], Some(RobotStateForCoordinator::Busy { order_id: 8 }));
    assert!(matches!(actions[0], LeaderAction::ToRobot { robot_id: 3, .. }));
}

#[test]
fn test_release_access_to_flavor() {
    let mut coordinator = setup_coordinator();
    coordinator.release_access_to_flavor(1, IceCreamFlavor::Vanilla);
    assert_eq!(coordinator.robot_states[1], Some(RobotStateForCoordinator::Idle));
    assert_eq!(coordinator.containers[2].in_use_by, None);
}

#[test]
fn test_commit_received() {
    let mut coordinator = setup_coordinator();
    let order = create_order();
    coordinator.register_order(screen_addr(), &order);
    let mut actions = Vec::new();
    coordinator.commit_received(order.id(), &mut actions);
    assert_eq!(coordinator.orders[&order.id()].status, OrderStatus::CommitReceived);
}

#[test]
fn coordinator_test_abort_order() {
    let mut coordinator = setup_coordinator();
    let order = create_order();
    coordinator.register_order(screen_addr(), &order);
    let mut actions = Vec::new();
    coordinator.abort_order(&order, &mut actions);
    assert!(!coordinator.orders.contains_key(&order.id()));
}

#[test]
fn test_reassign_order() {
    let mut coordinator = setup_coordinator();
    let order = create_order();
    coordinator.register_order(screen_addr(), &order);
    let mut actions = Vec::new();
    coordinator.reassign_order(order.id(), &mut actions);
    assert_eq!(actions.len(), 2);
    assert!(matches!(actions[1], LeaderAction::ToRobot { robot_id: 0, .. }));
}

#[test]
fn test_fix_order() {
    let mut coordinator = setup_coordinator();
    let mut actions = Vec::new();
    coordinator.handle_screen_message(ScreenMessage::OrderRequest { order: create_order(), screen_addr: screen_addr() }, &mut actions);
    let mut actions = Vec::new();
    coordinator.fix_order(0, &mut actions);
    assert_eq!(coordinator.robot_states[0], Some(RobotStateForCoordinator::Disconnected));
    assert_eq!(coordinator.orders[&412].robot_id, Some(1));
}
