use ice_cream_shop::container::Container;
use ice_cream_shop::coordinator::{
    Coordinator, LeaderAction, OrderStatus, RobotStateForCoordinator, INITIAL_QUANTITY,
};
use ice_cream_shop::flavor::{ContainerType, IceCreamFlavor};
use ice_cream_shop::messages::{
    Address, CoordinatorMessage, RobotResponse, ScreenMessage, ScreenReply, LOOPBACK,
};
use ice_cream_shop::order::{Item, Order};

fn screen() -> Address {
    Address { ip: LOOPBACK, port: 12340 }
}

fn robot_addr(id: u16) -> Address {
    Address { ip: LOOPBACK, port: 8090 + id }
}

fn vanilla_cup(id: usize) -> Order {
    Order::new(
        id,
        25,
        "0000111122223333".to_string(),
        vec![Item::new(ContainerType::Cup, 1, vec![IceCreamFlavor::Vanilla])],
    )
}

fn state(c: &Coordinator, id: usize) -> Option<RobotStateForCoordinator> {
    c.robot_states[id]
}

#[test]
fn new_leader_knows_the_other_robots() {
    let c = Coordinator::new(0);
    assert_eq!(c.robot_states.len(), 5);
    assert_eq!(state(&c, 0), None);
    assert_eq!(state(&c, 3), Some(RobotStateForCoordinator::Idle));
    assert!(c.orders.is_empty());
    assert_eq!(c.containers[4], Container::new(INITIAL_QUANTITY));
}

#[test]
fn container_lease() {
    let mut c = Container::new(100);
    assert!(c.is_available());
    c.use_container(2, 40);
    assert!(!c.is_available());
    assert_eq!(c.quantity(), 60);
    c.release_container();
    assert!(c.is_available());
    assert_eq!(c.quantity(), 60);
}

#[test]
fn happy_path_at_the_leader() {
    let mut c = Coordinator::new(0);
    let mut actions = Vec::new();
    c.handle_screen_message(ScreenMessage::OrderRequest { order: vanilla_cup(9), screen_addr: screen() }, &mut actions);
    assert!(matches!(actions[0], LeaderAction::ToScreen { reply: ScreenReply::Ready, order_id: 9, .. }));
    assert!(matches!(actions[1], LeaderAction::ToRobot { robot_id: 1, message: CoordinatorMessage::OrderReceived { robot_id: 1, .. } }));
    assert_eq!(state(&c, 1), Some(RobotStateForCoordinator::Busy { order_id: 9 }));
    assert_eq!(c.orders[&9].robot_id, Some(1));

    let mut actions = Vec::new();
    c.handle_robot_response(
        RobotResponse::AccessRequest { robot_id: 1, flavors: vec![(IceCreamFlavor::Vanilla, 15)], addr: robot_addr(1) },
        &mut actions,
    );
    assert!(matches!(actions[0], LeaderAction::ToAddress { message: CoordinatorMessage::AccessAllowed { flavor: IceCreamFlavor::Vanilla }, .. }));
    assert_eq!(state(&c, 1), Some(RobotStateForCoordinator::UsingContainer { order_id: 9, flavor: IceCreamFlavor::Vanilla }));
    assert_eq!(c.containers[2].quantity, INITIAL_QUANTITY - 15);
    assert_eq!(c.containers[2].in_use_by, Some(1));

    let mut actions = Vec::new();
    c.handle_robot_response(RobotResponse::ReleaseRequest { robot_id: 1, flavor: IceCreamFlavor::Vanilla, addr: robot_addr(1) }, &mut actions);
    assert!(matches!(actions[0], LeaderAction::ToAddress { message: CoordinatorMessage::ACK, .. }));
    assert_eq!(c.containers[2].in_use_by, None);
    assert_eq!(state(&c, 1), Some(RobotStateForCoordinator::Busy { order_id: 9 }));

    let mut actions = Vec::new();
    c.handle_screen_message(ScreenMessage::CommitReceived { order: vanilla_cup(9) }, &mut actions);
    assert_eq!(c.orders[&9].status, OrderStatus::CommitReceived);
    assert!(actions.is_empty());

    let mut actions = Vec::new();
    c.handle_robot_response(RobotResponse::OrderFinished { robot_id: 1, order: vanilla_cup(9) }, &mut actions);
    assert_eq!(c.orders[&9].status, OrderStatus::Completed);
    assert!(matches!(actions[0], LeaderAction::ToScreen { reply: ScreenReply::Finished, order_id: 9, .. }));
    assert_eq!(state(&c, 1), Some(RobotStateForCoordinator::Idle));
}

#[test]
fn finished_before_commit_completes_on_commit() {
    let mut c = Coordinator::new(0);
    let mut actions = Vec::new();
    c.register_order(screen(), &vanilla_cup(3));
    c.order_completed(3, &mut actions);
    assert_eq!(c.orders[&3].status, OrderStatus::CompletedButNotCommited);
    assert!(actions.is_empty());
    c.commit_received(3, &mut actions);
    assert_eq!(c.orders[&3].status, OrderStatus::Completed);
    assert!(matches!(actions[0], LeaderAction::ToScreen { reply: ScreenReply::Finished, order_id: 3, .. }));
    let mut again = Vec::new();
    c.commit_received(3, &mut again);
    c.order_completed(3, &mut again);
    assert_eq!(c.orders[&3].status, OrderStatus::Completed);
    assert!(again.is_empty());
}

#[test]
fn abort_before_dispatch_drops_the_record() {
    let mut c = Coordinator::new(0);
    let mut actions = Vec::new();
    c.register_order(screen(), &vanilla_cup(9));
    c.handle_screen_message(ScreenMessage::Abort { order: vanilla_cup(9) }, &mut actions);
    assert!(!c.orders.contains_key(&9));
    assert!(matches!(actions[0], LeaderAction::ToScreen { reply: ScreenReply::Abort, order_id: 9, .. }));
    for s in 1..5 {
        assert_eq!(state(&c, s), Some(RobotStateForCoordinator::Idle));
    }
}

#[test]
fn abort_of_dispatched_order_frees_the_robot() {
    let mut c = Coordinator::new(0);
    let mut actions = Vec::new();
    c.handle_screen_message(ScreenMessage::OrderRequest { order: vanilla_cup(5), screen_addr: screen() }, &mut actions);
    c.handle_robot_response(
        RobotResponse::AccessRequest { robot_id: 1, flavors: vec![(IceCreamFlavor::Vanilla, 15)], addr: robot_addr(1) },
        &mut actions,
    );
    let mut actions = Vec::new();
    c.abort_order(&vanilla_cup(5), &mut actions);
    assert!(matches!(actions[0], LeaderAction::ToRobot { robot_id: 1, message: CoordinatorMessage::OrderAborted { .. } }));
    assert!(matches!(actions[1], LeaderAction::ToScreen { reply: ScreenReply::Abort, order_id: 5, .. }));
    assert_eq!(state(&c, 1), Some(RobotStateForCoordinator::Idle));
    assert_eq!(c.containers[2].in_use_by, None);
}

#[test]
fn sticky_lease_answers_the_held_container() {
    let mut c = Coordinator::new(0);
    let mut actions = Vec::new();
    c.handle_screen_message(ScreenMessage::OrderRequest { order: vanilla_cup(9), screen_addr: screen() }, &mut actions);
    c.handle_robot_response(
        RobotResponse::AccessRequest { robot_id: 1, flavors: vec![(IceCreamFlavor::Vanilla, 15)], addr: robot_addr(1) },
        &mut actions,
    );
    let mut actions = Vec::new();
    c.handle_robot_response(
        RobotResponse::AccessRequest { robot_id: 1, flavors: vec![(IceCreamFlavor::Lemon, 10)], addr: robot_addr(1) },
        &mut actions,
    );
    assert_eq!(actions.len(), 1);
    assert!(matches!(actions[0], LeaderAction::ToAddress { message: CoordinatorMessage::AccessAllowed { flavor: IceCreamFlavor::Vanilla }, .. }));
    assert_eq!(c.containers[4].in_use_by, None);
}

#[test]
fn container_starvation_aborts_the_order() {
    let mut c = Coordinator::new(0);
    c.containers[4] = Container::new(100);
    let lemon = Order::new(13, 1, String::new(), vec![Item::new(ContainerType::OneKilo, 2, vec![IceCreamFlavor::Lemon])]);
    let mut actions = Vec::new();
    c.handle_screen_message(ScreenMessage::OrderRequest { order: lemon, screen_addr: screen() }, &mut actions);
    let mut actions = Vec::new();
    c.handle_robot_response(
        RobotResponse::AccessRequest { robot_id: 1, flavors: vec![(IceCreamFlavor::Lemon, 200)], addr: robot_addr(1) },
        &mut actions,
    );
    assert!(!c.orders.contains_key(&13));
    assert!(actions.iter().any(|a| matches!(a, LeaderAction::ToScreen { reply: ScreenReply::Abort, order_id: 13, .. })));
    assert!(actions.iter().any(|a| matches!(a, LeaderAction::ToRobot { robot_id: 1, message: CoordinatorMessage::OrderAborted { .. } })));
    assert!(matches!(actions.last().unwrap(), LeaderAction::ToAddress { message: CoordinatorMessage::AccessDenied { .. }, .. }));
    assert_eq!(c.containers[4].quantity, 100);
    assert_eq!(c.containers[4].in_use_by, None);
    assert_eq!(state(&c, 1), Some(RobotStateForCoordinator::Idle));
}

#[test]
fn held_containers_are_denied() {
    let mut c = Coordinator::new(0);
    let mut actions = Vec::new();
    c.handle_screen_message(ScreenMessage::OrderRequest { order: vanilla_cup(1), screen_addr: screen() }, &mut actions);
    c.handle_screen_message(ScreenMessage::OrderRequest { order: vanilla_cup(2), screen_addr: screen() }, &mut actions);
    c.handle_robot_response(
        RobotResponse::AccessRequest { robot_id: 1, flavors: vec![(IceCreamFlavor::Vanilla, 15)], addr: robot_addr(1) },
        &mut actions,
    );
    let mut actions = Vec::new();
    c.handle_robot_response(
        RobotResponse::AccessRequest { robot_id: 2, flavors: vec![(IceCreamFlavor::Vanilla, 15)], addr: robot_addr(2) },
        &mut actions,
    );
    assert!(matches!(actions[0], LeaderAction::ToAddress { message: CoordinatorMessage::AccessDenied { .. }, .. }));
    assert_eq!(c.containers[2].in_use_by, Some(1));
    assert_eq!(state(&c, 2), Some(RobotStateForCoordinator::Busy { order_id: 2 }));
}

#[test]
fn busy_robots_queue_orders_in_order() {
    let mut c = Coordinator::new(0);
    let mut actions = Vec::new();
    for id in 1..=6 {
        c.handle_screen_message(ScreenMessage::OrderRequest { order: vanilla_cup(id), screen_addr: screen() }, &mut actions);
    }
    assert_eq!(c.order_queue.len(), 2);
    assert_eq!(c.order_queue[0].0.id(), 5);
    let mut actions = Vec::new();
    c.handle_robot_response(RobotResponse::OrderFinished { robot_id: 2, order: vanilla_cup(2) }, &mut actions);
    assert_eq!(state(&c, 2), Some(RobotStateForCoordinator::Busy { order_id: 5 }));
    assert_eq!(c.order_queue.len(), 1);
    assert!(matches!(actions.last().unwrap(), LeaderAction::ToRobot { robot_id: 2, .. }));
}

#[test]
fn lost_robot_hands_its_order_on() {
    let chocolate = Order::new(21, 1, String::new(), vec![Item::new(ContainerType::Cup, 1, vec![IceCreamFlavor::Chocolate])]);
    let mut c = Coordinator::new(0);
    let mut actions = Vec::new();
    c.handle_screen_message(ScreenMessage::OrderRequest { order: chocolate, screen_addr: screen() }, &mut actions);
    c.handle_robot_response(
        RobotResponse::AccessRequest { robot_id: 1, flavors: vec![(IceCreamFlavor::Chocolate, 15)], addr: robot_addr(1) },
        &mut actions,
    );
    assert_eq!(c.containers[0].in_use_by, Some(1));
    let mut actions = Vec::new();
    c.handle_robot_response(RobotResponse::ReassignOrder { robot_id: 1 }, &mut actions);
    assert_eq!(c.containers[0].in_use_by, None);
    assert_eq!(state(&c, 1), Some(RobotStateForCoordinator::Disconnected));
    assert!(matches!(actions[0], LeaderAction::ToScreen { reply: ScreenReply::Keepalive, order_id: 21, .. }));
    assert!(matches!(actions[1], LeaderAction::ToRobot { robot_id: 2, message: CoordinatorMessage::OrderReceived { robot_id: 2, .. } }));
    assert_eq!(c.orders[&21].robot_id, Some(2));
}

#[test]
fn new_leader_learns_orders_in_process() {
    let mut c = Coordinator::new(3);
    let mut actions = Vec::new();
    c.handle_robot_response(
        RobotResponse::OrderInProcess { robot_id: 1, order: vanilla_cup(14), addr: robot_addr(1), screen_addr: screen() },
        &mut actions,
    );
    assert_eq!(c.orders[&14].robot_id, Some(1));
    assert_eq!(c.orders[&14].status, OrderStatus::Pending);
    assert_eq!(state(&c, 1), Some(RobotStateForCoordinator::Busy { order_id: 14 }));
    assert!(matches!(actions[0], LeaderAction::ToScreen { reply: ScreenReply::Ready, order_id: 14, .. }));
    c.handle_robot_response(RobotResponse::NoOrderInProcess { robot_id: 2, addr: robot_addr(2) }, &mut actions);
    assert_eq!(c.received_all_updated_orders, vec![1, 2]);
}

#[test]
fn ledger_holds_one_container_per_robot() {
    let mut c = Coordinator::new(0);
    let mut actions = Vec::new();
    c.handle_screen_message(ScreenMessage::OrderRequest { order: vanilla_cup(1), screen_addr: screen() }, &mut actions);
    c.handle_robot_response(
        RobotResponse::AccessRequest { robot_id: 1, flavors: vec![(IceCreamFlavor::Vanilla, 15)], addr: robot_addr(1) },
        &mut actions,
    );
    c.handle_robot_response(
        RobotResponse::AccessRequest { robot_id: 1, flavors: vec![(IceCreamFlavor::Mint, 15)], addr: robot_addr(1) },
        &mut actions,
    );
    let holders: Vec<_> = c.containers.iter().filter(|k| k.in_use_by == Some(1)).collect();
    assert_eq!(holders.len(), 1);
}

#[test]
fn orphan_orders_wait_for_every_report() {
    let mut c = Coordinator::new(3);
    let mut actions = Vec::new();
    c.handle_robot_response(
        RobotResponse::OrderInProcess { robot_id: 3, order: vanilla_cup(30), addr: robot_addr(3), screen_addr: screen() },
        &mut actions,
    );
    assert_eq!(c.order_queue.len(), 1);
    assert!(matches!(actions[0], LeaderAction::ToScreen { reply: ScreenReply::Ready, order_id: 30, .. }));
    for id in [0u16, 1, 2] {
        c.handle_robot_response(RobotResponse::NoOrderInProcess { robot_id: id as usize, addr: robot_addr(id) }, &mut actions);
        assert_eq!(c.order_queue.len(), 1);
    }
    let mut actions = Vec::new();
    c.handle_robot_response(RobotResponse::NoOrderInProcess { robot_id: 4, addr: robot_addr(4) }, &mut actions);
    assert!(c.order_queue.is_empty());
    assert!(c.received_all_updated_orders.is_empty());
    assert_eq!(state(&c, 0), Some(RobotStateForCoordinator::Busy { order_id: 30 }));
    assert!(matches!(actions[0], LeaderAction::ToRobot { robot_id: 0, .. }));
}

#[test]
fn requeued_order_is_fully_dropped_on_abort() {
    let mut c = Coordinator::new(0);
    let mut actions = Vec::new();
    for id in 1..=4 {
        c.handle_screen_message(ScreenMessage::OrderRequest { order: vanilla_cup(id), screen_addr: screen() }, &mut actions);
    }
    let mut actions = Vec::new();
    c.handle_robot_response(RobotResponse::ReassignOrder { robot_id: 1 }, &mut actions);
    assert_eq!(c.order_queue.len(), 1);
    assert_eq!(c.orders[&1].robot_id, None);
    assert_eq!(state(&c, 1), Some(RobotStateForCoordinator::Disconnected));
    let mut actions = Vec::new();
    c.handle_screen_message(ScreenMessage::Abort { order: vanilla_cup(1) }, &mut actions);
    assert!(c.order_queue.is_empty());
    assert!(!c.orders.contains_key(&1));
    assert_eq!(actions.len(), 1);
    assert!(matches!(actions[0], LeaderAction::ToScreen { reply: ScreenReply::Abort, order_id: 1, .. }));
}

#[test]
fn finished_order_forgets_its_robot() {
    let mut c = Coordinator::new(0);
    let mut actions = Vec::new();
    c.handle_screen_message(ScreenMessage::OrderRequest { order: vanilla_cup(9), screen_addr: screen() }, &mut actions);
    c.handle_robot_response(RobotResponse::OrderFinished { robot_id: 1, order: vanilla_cup(9) }, &mut actions);
    assert_eq!(c.orders[&9].robot_id, None);
    assert_eq!(c.orders[&9].status, OrderStatus::CompletedButNotCommited);
    assert_eq!(state(&c, 1), Some(RobotStateForCoordinator::Idle));
}
