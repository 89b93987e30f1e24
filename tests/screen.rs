use ice_cream_shop::framing::Tag;
use ice_cream_shop::messages::{Address, ScreenReply, LOOPBACK};
use ice_cream_shop::screen::{
    orders_to_take_over, CommitStart, Decision, ScreenMessage, OrderState, PingOutcome,
    Screen, ScreenInbound, ScreenState, Transaction, TxStep, PAYMENT_GATEWAY_PORT,
};

fn gateway() -> Address {
    Address { ip: LOOPBACK, port: PAYMENT_GATEWAY_PORT }
}

fn robot(id: u16) -> Address {
    Address { ip: LOOPBACK, port: 8090 + id }
}

#[test]
fn ring_of_three() {
    let s0 = Screen::new(0);
    assert_eq!(s0.screen_in_charge, 2);
    assert_eq!(s0.ping_screen, 1);
    let s2 = Screen::new(2);
    assert_eq!(s2.screen_in_charge, 1);
    assert_eq!(s2.ping_screen, 0);
    assert_eq!(s0.id(), 0);
    assert!(!s0.is_finished());
}

#[test]
fn happy_path_transaction() {
    let mut screen = Screen::new(0);
    let mut tx = Transaction::new(9);
    assert_eq!(screen.start_step(&tx, TxStep::SendPrepare, 0), Some(Tag::Prepare));
    screen.handle_message(ScreenReply::Ready, gateway(), 9, 1);
    assert_eq!(screen.wait_outcome(&mut tx, 0, 1), TxStep::Wait);
    screen.handle_message(ScreenReply::Ready, robot(2), 9, 2);
    assert_eq!(screen.order_management_addr, robot(2));
    assert_eq!(screen.wait_outcome(&mut tx, 0, 2), TxStep::SendCommit);
    assert_eq!(screen.log[&9], OrderState::Ready);
    assert_eq!(screen.start_step(&tx, TxStep::SendCommit, 3), Some(Tag::Commit));
    screen.handle_message(ScreenReply::Finished, gateway(), 9, 4);
    screen.handle_message(ScreenReply::Finished, robot(2), 9, 5);
    assert_eq!(screen.wait_outcome(&mut tx, 3, 5), TxStep::Done(true));
    assert!(tx.prepared && tx.finished);
    assert_eq!(screen.last_order_completed, Some(9));
}

#[test]
fn declined_capture_aborts() {
    let mut screen = Screen::new(0);
    let mut tx = Transaction::new(9);
    screen.start_step(&tx, TxStep::SendPrepare, 0);
    screen.handle_message(ScreenReply::Abort, gateway(), 9, 1);
    let step = screen.wait_outcome(&mut tx, 0, 1);
    assert_eq!(step, TxStep::SendAbort);
    assert_eq!(screen.start_step(&tx, step, 2), Some(Tag::Abort));
    assert_eq!(screen.log[&9], OrderState::Abort);
    screen.handle_message(ScreenReply::Abort, gateway(), 9, 3);
    screen.handle_message(ScreenReply::Abort, robot(2), 9, 3);
    assert_eq!(screen.wait_outcome(&mut tx, 2, 3), TxStep::Aborted(true));
    assert!(!tx.prepared);
}

#[test]
fn second_ready_during_commit_restarts() {
    let mut screen = Screen::new(0);
    let mut tx = Transaction::new(14);
    screen.start_step(&tx, TxStep::SendPrepare, 0);
    screen.handle_message(ScreenReply::Ready, gateway(), 14, 1);
    screen.handle_message(ScreenReply::Ready, robot(2), 14, 1);
    let step = screen.wait_outcome(&mut tx, 0, 1);
    screen.start_step(&tx, step, 2);
    screen.handle_message(ScreenReply::Finished, gateway(), 14, 3);
    screen.handle_message(ScreenReply::Ready, robot(3), 14, 3);
    assert_eq!(screen.order_management_addr, robot(3));
    assert_eq!(screen.wait_outcome(&mut tx, 2, 3), TxStep::SendPrepare);
    screen.start_step(&tx, TxStep::SendPrepare, 4);
    screen.handle_message(ScreenReply::Ready, gateway(), 14, 5);
    screen.handle_message(ScreenReply::Ready, robot(3), 14, 5);
    let step = screen.wait_outcome(&mut tx, 4, 5);
    assert_eq!(screen.start_step(&tx, step, 6), Some(Tag::Commit));
    screen.handle_message(ScreenReply::Finished, gateway(), 14, 7);
    screen.handle_message(ScreenReply::Finished, robot(3), 14, 7);
    assert_eq!(screen.wait_outcome(&mut tx, 6, 7), TxStep::Done(true));
    assert_eq!(screen.last_order_completed, Some(14));
}

#[test]
fn timeout_fails_the_phase() {
    let mut screen = Screen::new(0);
    let mut tx = Transaction::new(1);
    screen.start_step(&tx, TxStep::SendPrepare, 0);
    assert_eq!(screen.wait_outcome(&mut tx, 0, 60000), TxStep::Wait);
    assert_eq!(screen.wait_outcome(&mut tx, 0, 60001), TxStep::SendAbort);
    screen.start_step(&tx, TxStep::SendAbort, 60001);
    screen.handle_message(ScreenReply::Abort, gateway(), 1, 60002);
    assert_eq!(screen.wait_outcome(&mut tx, 60001, 60002), TxStep::Wait);
    assert_eq!(screen.wait_outcome(&mut tx, 60001, 120002), TxStep::Aborted(false));
}

#[test]
fn keepalive_keeps_waiting() {
    let mut screen = Screen::new(0);
    let mut tx = Transaction::new(21);
    screen.start_step(&tx, TxStep::SendPrepare, 0);
    screen.handle_message(ScreenReply::Ready, gateway(), 21, 1);
    screen.handle_message(ScreenReply::Keepalive, robot(2), 21, 1);
    assert_eq!(screen.responses[0], Some(OrderState::Wait(1)));
    assert_eq!(screen.check_responses(OrderState::Ready, 21), Decision::Pending);
    assert_eq!(screen.wait_outcome(&mut tx, 0, 2), TxStep::Wait);
}

#[test]
fn commit_twice_sends_nothing_the_second_time() {
    let mut screen = Screen::new(0);
    assert_eq!(screen.commit(5), CommitStart::Broadcast);
    screen.handle_message(ScreenReply::Finished, gateway(), 5, 1);
    let responses = screen.responses.clone();
    assert_eq!(screen.commit(5), CommitStart::AlreadyCommitted);
    assert_eq!(screen.responses, responses);
    assert_eq!(screen.commit(5), CommitStart::AlreadyCommitted);
    assert_eq!(screen.log[&5], OrderState::Finished);
}

#[test]
fn failover_takes_later_orders() {
    let mut s0 = Screen::new(0);
    assert!(s0.broadcast_pings());
    assert_eq!(s0.ping_outcome(), PingOutcome::Waiting);
    s0.handle(ScreenMessage::Pong { screen_id: 2, last_order: Some(12) });
    assert_eq!(s0.ping_outcome(), PingOutcome::Alive);
    assert!(s0.broadcast_pings());
    assert_eq!(s0.screen_in_charge_state, Some(ScreenState::Down(Some(12))));
    assert_eq!(s0.takeover_from_down_screen(), Some(Some(12)));
    assert_eq!(orders_to_take_over(&vec![10, 12, 13, 15], Some(12)), vec![13, 15]);
    assert_eq!(orders_to_take_over(&vec![3, 4], None), vec![3, 4]);
}

#[test]
fn finished_neighbour_is_no_longer_pinged() {
    let mut s1 = Screen::new(1);
    s1.handle(ScreenMessage::Finished { screen_id: 0 });
    assert_eq!(s1.ping_outcome(), PingOutcome::Stop);
    assert!(!s1.broadcast_pings());
    assert_eq!(s1.takeover_from_down_screen(), None);
}

#[test]
fn ping_is_answered_with_last_completed_order() {
    let mut s2 = Screen::new(2);
    s2.last_order_completed = Some(7);
    let reply = s2.handle(ScreenMessage::Ping { screen_id: 0 });
    assert_eq!(reply, Some((0, ScreenMessage::Pong { screen_id: 2, last_order: Some(7) })));
}

#[test]
fn frames_reaching_a_screen_are_sorted() {
    assert!(matches!(Screen::classify(b"finished\n9"), ScreenInbound::Reply(ScreenReply::Finished, 9)));
    match Screen::classify(b"screen\n{\"Ping\":{\"screen_id\":1}}") {
        ScreenInbound::FromScreen(body) => assert_eq!(body, b"{\"Ping\":{\"screen_id\":1}}".to_vec()),
        other => panic!("unexpected {:?}", other),
    }
    assert!(matches!(Screen::classify(b"hello"), ScreenInbound::Unknown));
}
