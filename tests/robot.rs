use ice_cream_shop::flavor::{ContainerType, IceCreamFlavor};
use ice_cream_shop::framing::Tag;
use ice_cream_shop::messages::{
    Address, CoordinatorMessage, ElectionMessage, PingMessage, RobotResponse, LOOPBACK,
};
use ice_cream_shop::order::{Item, Order};
use ice_cream_shop::robot::{
    ElectionState, PeerStatus, Robot, RobotAction, RobotState, Route, BACKOFF_MS,
};

fn addr(port: u16) -> Address {
    Address { ip: LOOPBACK, port }
}

fn two_flavor_order() -> Order {
    Order::new(
        9,
        25,
        "0000111122223333".to_string(),
        vec![Item::new(ContainerType::Cup, 1, vec![IceCreamFlavor::Vanilla, IceCreamFlavor::Mint])],
    )
}

fn is_readvertisement(a: &RobotAction) -> bool {
    matches!(
        a,
        RobotAction::ToCoordinator(RobotResponse::OrderInProcess { .. })
            | RobotAction::ToCoordinator(RobotResponse::NoOrderInProcess { .. })
            | RobotAction::ToLocalCoordinator(RobotResponse::OrderInProcess { .. })
            | RobotAction::ToLocalCoordinator(RobotResponse::NoOrderInProcess { .. })
    )
}

#[test]
fn test_new_robot() {
    let robot = Robot::new(1, addr(8091), false, 0);
    assert_eq!(robot.robot_id, 1);
    assert!(matches!(robot.state, RobotState::Idle));
    assert_eq!(robot.peers.len(), 4);
    assert!(robot.peers.iter().all(|p| p.0 != 1));
    assert_eq!(robot.election_state, ElectionState::Settled);
    assert_eq!(robot.coordinator_id, 0);
}

#[test]
fn robot_work_loop() {
    let mut robot = Robot::new(1, addr(8091), false, 0);
    let mut actions = Vec::new();
    robot.handle_as_robot(
        CoordinatorMessage::OrderReceived { robot_id: 1, order: two_flavor_order(), screen_addr: addr(12340) },
        100,
        &mut actions,
    );
    match &actions[0] {
        RobotAction::ToCoordinator(RobotResponse::AccessRequest { robot_id, flavors, .. }) => {
            assert_eq!(*robot_id, 1);
            assert_eq!(flavors, &vec![(IceCreamFlavor::Vanilla, 15), (IceCreamFlavor::Mint, 15)]);
        }
        other => panic!("unexpected {:?}", other),
    }
    let mut actions = Vec::new();
    robot.handle_as_robot(CoordinatorMessage::AccessAllowed { flavor: IceCreamFlavor::Mint }, 200, &mut actions);
    assert!(matches!(actions[0], RobotAction::Prepare { millis: 200, flavor: IceCreamFlavor::Mint }));
    assert!(matches!(robot.state, RobotState::UsingContainer(_, _, IceCreamFlavor::Mint)));

    let mut actions = Vec::new();
    robot.finish_preparation(IceCreamFlavor::Mint, 400, &mut actions);
    assert!(matches!(actions[0], RobotAction::ToCoordinator(RobotResponse::ReleaseRequest { flavor: IceCreamFlavor::Mint, .. })));
    match &actions[1] {
        RobotAction::ToCoordinator(RobotResponse::AccessRequest { flavors, .. }) => {
            assert_eq!(flavors, &vec![(IceCreamFlavor::Vanilla, 15)]);
        }
        other => panic!("unexpected {:?}", other),
    }

    let mut actions = Vec::new();
    robot.handle_as_robot(
        CoordinatorMessage::AccessDenied { reason: "Flavor not available".to_string() },
        500,
        &mut actions,
    );
    assert!(matches!(actions[0], RobotAction::Sleep { millis: BACKOFF_MS }));
    assert!(matches!(actions[1], RobotAction::ToCoordinator(RobotResponse::AccessRequest { .. })));

    let mut actions = Vec::new();
    robot.process_allowed_access(IceCreamFlavor::Vanilla, &mut actions);
    robot.finish_preparation(IceCreamFlavor::Vanilla, 900, &mut actions);
    assert!(matches!(actions.last().unwrap(), RobotAction::ToCoordinator(RobotResponse::OrderFinished { robot_id: 1, .. })));
    assert!(matches!(robot.state, RobotState::Idle));
}

#[test]
fn busy_robot_ignores_a_second_order() {
    let mut robot = Robot::new(1, addr(8091), false, 0);
    let mut actions = Vec::new();
    robot.process_received_order(two_flavor_order(), addr(12340), 0, &mut actions);
    let mut actions = Vec::new();
    robot.process_received_order(Order::default(), addr(12341), 0, &mut actions);
    assert!(actions.is_empty());
    assert_eq!(robot.order_screen_addr, Some(addr(12340)));
}

#[test]
fn robot_abort_gives_back_the_container() {
    let mut robot = Robot::new(1, addr(8091), false, 0);
    let mut actions = Vec::new();
    robot.process_received_order(two_flavor_order(), addr(12340), 0, &mut actions);
    robot.process_allowed_access(IceCreamFlavor::Vanilla, &mut actions);
    let mut actions = Vec::new();
    robot.abort_order(1, two_flavor_order(), &mut actions);
    assert!(matches!(robot.state, RobotState::Idle));
    assert!(matches!(actions[0], RobotAction::ToCoordinator(RobotResponse::ReleaseRequest { flavor: IceCreamFlavor::Vanilla, .. })));
}

#[test]
fn new_leader_hears_of_the_order_before_any_request() {
    let mut robot = Robot::new(1, addr(8091), false, 2);
    let mut actions = Vec::new();
    robot.process_received_order(two_flavor_order(), addr(12340), 0, &mut actions);
    let mut actions = Vec::new();
    robot.handle_election_message(ElectionMessage::NewCoordinator { robot_id: 3 }, 10, &mut actions);
    assert_eq!(robot.coordinator_id, 3);
    assert!(is_readvertisement(&actions[0]));
    assert!(matches!(actions[0], RobotAction::ToCoordinator(RobotResponse::OrderInProcess { robot_id: 1, .. })));
    assert_eq!(actions.iter().filter(|a| is_readvertisement(a)).count(), 1);
    assert!(matches!(actions[1], RobotAction::ToCoordinator(RobotResponse::AccessRequest { .. })));
}

#[test]
fn idle_robot_tells_the_new_leader_it_is_idle() {
    let mut robot = Robot::new(4, addr(8094), false, 2);
    let mut actions = Vec::new();
    robot.handle_election_message(ElectionMessage::NewCoordinator { robot_id: 3 }, 10, &mut actions);
    assert_eq!(actions.len(), 1);
    assert!(matches!(actions[0], RobotAction::ToCoordinator(RobotResponse::NoOrderInProcess { robot_id: 4, .. })));
}

#[test]
fn peer_with_too_many_pings_is_dead_next_tick() {
    let mut robot = Robot::new(0, addr(8090), true, 0);
    for _ in 0..9 {
        let mut actions = Vec::new();
        robot.send_ping(&mut actions);
        assert_eq!(actions.len(), 4);
    }
    let mut actions = Vec::new();
    robot.update_last_pong(addr(8092), 5);
    robot.send_ping(&mut actions);
    let mut actions = Vec::new();
    robot.check_peers_status(10, &mut actions);
    assert_eq!(robot.peers.len(), 1);
    assert_eq!(robot.peers[0].0, 2);
    assert_eq!(robot.peers[0].1, PeerStatus { last_pong: Some(5), ping_attempts: 1 });
    assert_eq!(actions.len(), 3);
    assert!(matches!(actions[0], RobotAction::ToLocalCoordinator(RobotResponse::ReassignOrder { robot_id: 1 })));
}

#[test]
fn silent_peer_is_dead_after_the_timeout() {
    let mut robot = Robot::new(0, addr(8090), true, 0);
    robot.update_last_pong(addr(8093), 1000);
    let mut actions = Vec::new();
    robot.check_peers_status(11000, &mut actions);
    assert_eq!(robot.peers.len(), 4);
    robot.check_peers_status(11001, &mut actions);
    assert_eq!(robot.peers.len(), 3);
    assert!(robot.peers.iter().all(|p| p.0 != 3));
}

#[test]
fn follower_starts_an_election_when_the_leader_is_lost() {
    let mut robot = Robot::new(1, addr(8091), false, 4);
    for _ in 0..20 {
        let mut actions = Vec::new();
        robot.on_ping_tick(&mut actions);
        assert!(matches!(actions[0], RobotAction::SendPing { to: 4 }));
    }
    let mut actions = Vec::new();
    robot.on_status_tick(0, &mut actions);
    assert_eq!(robot.election_state, ElectionState::StartingElection);
    assert!(robot.on_election_tick(&mut actions));
    assert_eq!(robot.election_state, ElectionState::Candidate);
    let targets: Vec<usize> = actions
        .iter()
        .map(|a| match a {
            RobotAction::Election { to, message: ElectionMessage::Election { robot_id: 1 } } => *to,
            other => panic!("unexpected {:?}", other),
        })
        .collect();
    assert_eq!(targets, vec![2, 3, 4]);
}

#[test]
fn unanswered_candidate_becomes_leader() {
    let mut robot = Robot::new(3, addr(8093), false, 4);
    let mut actions = Vec::new();
    robot.initiate_election(&mut actions);
    assert_eq!(actions.len(), 1);
    let mut actions = Vec::new();
    robot.check_election_results(&mut actions);
    assert!(robot.is_coordinator);
    assert_eq!(robot.coordinator_id, 3);
    assert!(matches!(actions[0], RobotAction::StartCoordinator));
    assert_eq!(actions.len(), 6);
    assert!(is_readvertisement(actions.last().unwrap()));
}

#[test]
fn answered_candidate_follows() {
    let mut robot = Robot::new(1, addr(8091), false, 4);
    let mut actions = Vec::new();
    robot.initiate_election(&mut actions);
    robot.handle_election_message(ElectionMessage::Answer { robot_id: 3 }, 0, &mut actions);
    assert_eq!(robot.election_state, ElectionState::Follower);
    let mut actions = Vec::new();
    robot.check_election_results(&mut actions);
    assert!(actions.is_empty());
    assert!(!robot.is_coordinator);
}

#[test]
fn election_from_lower_robot_is_answered() {
    let mut robot = Robot::new(3, addr(8093), false, 4);
    let mut actions = Vec::new();
    robot.handle_election_message(ElectionMessage::Election { robot_id: 1 }, 0, &mut actions);
    assert!(matches!(actions[0], RobotAction::Election { to: 1, message: ElectionMessage::Answer { robot_id: 3 } }));
    assert_eq!(robot.election_state, ElectionState::StartingElection);
    let mut actions = Vec::new();
    robot.handle_election_message(ElectionMessage::Election { robot_id: 4 }, 0, &mut actions);
    assert!(actions.is_empty());
}

#[test]
fn ping_is_answered_and_pong_recorded() {
    let mut robot = Robot::new(1, addr(8091), false, 0);
    let mut actions = Vec::new();
    robot.handle_ping_message(PingMessage::Ping, addr(8090), 7, &mut actions);
    assert!(matches!(actions[0], RobotAction::SendPong { addr: a } if a == addr(8090)));
    robot.send_ping(&mut actions);
    robot.handle_ping_message(PingMessage::Pong, addr(8090), 9, &mut actions);
    let leader = robot.peers.iter().find(|p| p.0 == 0).unwrap();
    assert_eq!(leader.1, PeerStatus { last_pong: Some(9), ping_attempts: 0 });
    assert_eq!(robot.get_peer_id(addr(8093)), Some(3));
    assert_eq!(robot.get_peer_id(addr(12340)), None);
}

#[test]
fn retry_shield_resends_a_stale_request() {
    let mut robot = Robot::new(1, addr(8091), false, 0);
    let mut actions = Vec::new();
    robot.process_received_order(two_flavor_order(), addr(12340), 1000, &mut actions);
    let mut actions = Vec::new();
    robot.on_retry_tick(5000, &mut actions);
    assert!(actions.is_empty());
    robot.on_retry_tick(6001, &mut actions);
    assert!(matches!(actions[0], RobotAction::ToCoordinator(RobotResponse::AccessRequest { .. })));
}

#[test]
fn frames_are_routed_by_tag() {
    let follower = Robot::new(1, addr(8091), false, 0);
    let leader = Robot::new(0, addr(8090), true, 0);
    assert_eq!(follower.route(Tag::Ping), Route::Ping);
    assert_eq!(follower.route(Tag::Election), Route::Election);
    assert_eq!(follower.route(Tag::Order), Route::Robot);
    assert_eq!(leader.route(Tag::Prepare), Route::Prepare);
    assert_eq!(leader.route(Tag::Access), Route::Access);
    assert_eq!(leader.route(Tag::Screen), Route::Ignore);
}
