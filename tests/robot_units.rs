use ice_cream_shop::flavor::{ContainerType, IceCreamFlavor};
use ice_cream_shop::messages::{
    Address, CoordinatorMessage, ElectionMessage, PingMessage, RobotResponse, LOOPBACK,
};
use ice_cream_shop::order::{Item, Order};
use ice_cream_shop::robot::{ElectionState, PeerStatus, Robot, RobotAction, RobotState};

fn addr(port: u16) -> Address {
    Address { ip: LOOPBACK, port }
}

fn robot() -> Robot {
    Robot::new(1, addr(8091), false, 2)
}

fn order() -> Order {
    Order::new(
        1,
        7,
        "ABCDEFGH12345678".to_string(),
        vec![
            Item::new(ContainerType::HalfKilo, 2, vec![IceCreamFlavor::Chocolate]),
            Item::new(ContainerType::Cone, 1, vec![IceCreamFlavor::Vanilla, IceCreamFlavor::Chocolate]),
        ],
    )
}

#[test]
fn test_make_request() {
    let robot = robot();
    let mut actions = Vec::new();
    let request = RobotResponse::AccessRequest {
        robot_id: 1,
        flavors: vec![(IceCreamFlavor::Vanilla, 20), (IceCreamFlavor::Chocolate, 10)],
        addr: addr(0),
    };
    robot.make_request(request, &mut actions);
    assert!(matches!(actions[0], RobotAction::ToCoordinator(RobotResponse::AccessRequest { robot_id: 1, .. })));
}

#[test]
fn test_process_order() {
    let mut robot = robot();
    robot.order_screen_addr = Some(addr(12340));
    let mut actions = Vec::new();
    robot.process_order(order(), 0, &mut actions);
    match &robot.state {
        RobotState::WaitingForAccess(o, flavors) => {
            assert_eq!(o.id(), 1);
            assert_eq!(flavors, &order().amounts_for_all_flavors());
        }
        other => panic!("unexpected {:?}", other),
    }
}

#[test]
fn test_request_access() {
    let mut robot = robot();
    robot.order_screen_addr = Some(addr(12340));
    let flavors = order().amounts_for_all_flavors();
    let mut actions = Vec::new();
    robot.request_access(order(), flavors.clone(), 3, &mut actions);
    match &robot.state {
        RobotState::WaitingForAccess(o, f) => {
            assert_eq!(o.id(), 1);
            assert_eq!(f, &flavors);
        }
        other => panic!("unexpected {:?}", other),
    }
    assert_eq!(robot.last_request_time, Some(3));
}

#[test]
fn test_release_access() {
    let mut robot = robot();
    let mut actions = Vec::new();
    robot.release_access(IceCreamFlavor::Vanilla, &mut actions);
    assert!(matches!(actions[0], RobotAction::ToCoordinator(RobotResponse::ReleaseRequest { flavor: IceCreamFlavor::Vanilla, .. })));
    assert_eq!(robot.last_request_time, None);
}

#[test]
fn test_send_ping() {
    let mut robot = robot();
    let mut actions = Vec::new();
    robot.send_ping(&mut actions);
    assert_eq!(actions.len(), 1);
    assert!(matches!(actions[0], RobotAction::SendPing { to: 2 }));
}

#[test]
fn test_ping_all_peers() {
    let mut robot = robot();
    let mut actions = Vec::new();
    robot.ping_all_peers(&mut actions);
    assert_eq!(actions.len(), 4);
    assert!(robot.peers.iter().all(|p| p.1.ping_attempts == 1));
}

#[test]
fn test_check_peers_status() {
    let mut robot = robot();
    robot.update_last_pong(addr(8092), 100);
    let mut actions = Vec::new();
    robot.check_peers_status(200, &mut actions);
    assert_eq!(robot.peers.len(), 4);
    assert!(actions.is_empty());
}

#[test]
fn test_check_coordinator_status() {
    let mut robot = robot();
    robot.update_last_pong(addr(8092), 100);
    robot.check_coordinador_status(200);
    assert_eq!(robot.election_state, ElectionState::Settled);
    robot.check_coordinador_status(5101);
    assert_eq!(robot.election_state, ElectionState::StartingElection);
}

#[test]
fn test_initiate_election() {
    let mut robot = robot();
    let mut actions = Vec::new();
    robot.initiate_election(&mut actions);
    assert_eq!(actions.len(), 3);
    assert_eq!(robot.election_state, ElectionState::Candidate);
}

#[test]
fn test_check_election_results() {
    let mut robot = robot();
    robot.election_state = ElectionState::Candidate;
    let mut actions = Vec::new();
    robot.check_election_results(&mut actions);
    assert!(robot.is_coordinator);
    assert_eq!(robot.election_state, ElectionState::Settled);
    assert!(matches!(actions.last().unwrap(), RobotAction::ToCoordinator(RobotResponse::NoOrderInProcess { robot_id: 1, .. })));
}

#[test]
fn test_process_allowed_access() {
    let mut robot = robot();
    robot.order_screen_addr = Some(addr(12340));
    let flavors = order().amounts_for_all_flavors();
    robot.state = RobotState::WaitingForAccess(order(), flavors);
    let mut actions = Vec::new();
    robot.process_allowed_access(IceCreamFlavor::Vanilla, &mut actions);
    assert!(matches!(robot.state, RobotState::UsingContainer(_, _, IceCreamFlavor::Vanilla)));
    assert!(matches!(actions[0], RobotAction::Prepare { millis: 600, flavor: IceCreamFlavor::Vanilla }));
}

#[test]
fn test_process_denied_access() {
    let mut robot = robot();
    let mut actions = Vec::new();
    robot.process_denied_access("Flavor not available".to_string(), 0, &mut actions);
    assert!(actions.is_empty());
    assert!(matches!(robot.state, RobotState::Idle));
}

#[test]
fn test_process_received_order() {
    let mut robot = robot();
    let mut actions = Vec::new();
    robot.process_received_order(order(), addr(9000), 0, &mut actions);
    assert_eq!(robot.order_screen_addr, Some(addr(9000)));
    assert!(matches!(robot.state, RobotState::WaitingForAccess(_, _)));
}

#[test]
fn test_send_current_order_to_new_coordinator() {
    let mut robot = robot();
    robot.order_screen_addr = Some(addr(12340));
    robot.state = RobotState::ProcessingOrder(order());
    let mut actions = Vec::new();
    robot.send_current_order_to_new_coordinator(&mut actions);
    assert!(matches!(actions[0], RobotAction::ToCoordinator(RobotResponse::OrderInProcess { robot_id: 1, .. })));
}

#[test]
fn test_send_idle_message() {
    let robot = robot();
    let mut actions = Vec::new();
    robot.send_idle_message(&mut actions);
    assert!(matches!(actions[0], RobotAction::ToCoordinator(RobotResponse::NoOrderInProcess { robot_id: 1, .. })));
}

#[test]
fn test_send_order_in_process_message() {
    let mut robot = robot();
    robot.order_screen_addr = Some(addr(9000));
    let mut actions = Vec::new();
    robot.send_order_in_process_message(&order(), &mut actions);
    match &actions[0] {
        RobotAction::ToCoordinator(RobotResponse::OrderInProcess { screen_addr, order, .. }) => {
            assert_eq!(*screen_addr, addr(9000));
            assert_eq!(order.id(), 1);
        }
        other => panic!("unexpected {:?}", other),
    }
}

#[test]
fn robot_test_abort_order() {
    let mut robot = robot();
    let mut actions = Vec::new();
    robot.process_received_order(order(), addr(9000), 0, &mut actions);
    let mut actions = Vec::new();
    robot.abort_order(1, order(), &mut actions);
    assert!(matches!(robot.state, RobotState::Idle));
    assert!(actions.is_empty());
}

#[test]
fn test_continue_order() {
    let mut robot = robot();
    let mut actions = Vec::new();
    robot.process_received_order(order(), addr(9000), 0, &mut actions);
    let mut actions = Vec::new();
    robot.continue_order(5, &mut actions);
    assert!(matches!(actions[0], RobotAction::ToCoordinator(RobotResponse::AccessRequest { .. })));
    assert!(matches!(robot.state, RobotState::WaitingForAccess(_, _)));
}

#[test]
fn test_handle_election_message() {
    let mut robot = robot();
    let mut actions = Vec::new();
    robot.handle_election_message(ElectionMessage::NewCoordinator { robot_id: 4 }, 0, &mut actions);
    assert_eq!(robot.coordinator_id, 4);
    assert!(!robot.is_coordinator);
}

#[test]
fn test_handle_ping_message() {
    let mut robot = robot();
    let mut actions = Vec::new();
    robot.handle_ping_message(PingMessage::Ping, addr(9000), 0, &mut actions);
    assert!(matches!(actions[0], RobotAction::SendPong { .. }));
}

#[test]
fn test_update_last_pong() {
    let mut robot = robot();
    robot.update_last_pong(addr(8090), 42);
    let peer = robot.peers.iter().find(|p| p.0 == 0).unwrap();
    assert_eq!(peer.1, PeerStatus { last_pong: Some(42), ping_attempts: 0 });
    robot.update_last_pong(addr(9000), 43);
    assert!(robot.peers.iter().all(|p| p.1.last_pong != Some(43)));
}

#[test]
fn test_handle_as_robot() {
    let mut robot = robot();
    let mut actions = Vec::new();
    robot.handle_as_robot(CoordinatorMessage::ACK, 0, &mut actions);
    assert!(actions.is_empty());
    robot.handle_as_robot(
        CoordinatorMessage::OrderReceived { robot_id: 1, order: order(), screen_addr: addr(9000) },
        0,
        &mut actions,
    );
    assert_eq!(actions.len(), 1);
}
