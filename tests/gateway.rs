use ice_cream_shop::framing::encode_reply;
use ice_cream_shop::gateway::{
    blank, check_frame, gateway_kind, log_line, Abort, Commit, FrameError, GatewayKind,
    GatewayMessage, Prepare,
};
use ice_cream_shop::messages::ScreenReply;
use ice_cream_shop::order::Order;

fn order_nine() -> Order {
    Order::new(9, 25, "0000111122223333".to_string(), Vec::new())
}

#[test]
fn test_abort_msg_created_correctly() {
    let order = Order::new(9, 25, "0000111122223333".to_string(), Vec::new());
    let abort_msg = Abort::new(order);
    assert_eq!(abort_msg.get_order().id(), 9);
    assert_eq!(abort_msg.get_order().client_id(), 25);
    assert_eq!(
        abort_msg.get_order().credit_card(),
        "0000111122223333".to_string()
    );
    assert!(abort_msg.get_order().items().is_empty())
}

#[test]
fn test_commit_msg_created_correctly() {
    let order = Order::new(9, 25, "0000111122223333".to_string(), Vec::new());
    let commit_msg = Commit::new(order);
    assert_eq!(commit_msg.get_order().id(), 9);
    assert_eq!(commit_msg.get_order().client_id(), 25);
    assert_eq!(
        commit_msg.get_order().credit_card(),
        "0000111122223333".to_string()
    );
    assert!(commit_msg.get_order().items().is_empty())
}

#[test]
fn test_prepare_msg_created_correctly() {
    let order = Order::new(9, 25, "0000111122223333".to_string(), Vec::new());
    let prepare_msg = Prepare::new(order);
    assert_eq!(prepare_msg.get_order().id(), 9);
    assert_eq!(prepare_msg.get_order().client_id(), 25);
    assert_eq!(
        prepare_msg.get_order().credit_card(),
        "0000111122223333".to_string()
    );
    assert!(prepare_msg.get_order().items().is_empty())
}

#[test]
fn test_payment_captured() {
    let prepare_msg = Prepare::new(Order::default());
    assert_eq!(prepare_msg.get_response_type(true), "ready".to_string())
}

#[test]
fn test_payment_not_captured() {
    let prepare_msg = Prepare::new(Order::default());
    assert_eq!(prepare_msg.get_response_type(false), "abort".to_string())
}

#[test]
fn test_process_abort_message() {
    let message = Abort::new(order_nine());
    assert_eq!(message.process(), b"abort\n9")
}

#[test]
fn test_process_commit_message() {
    let message = Commit::new(order_nine());
    assert_eq!(message.process(), b"finished\n9")
}

#[test]
fn test_process_prepare_message() {
    let message = GatewayMessage::Prepare(Prepare::new(order_nine()));
    let result = message.process();
    assert!(result == b"ready\n9" || result == b"abort\n9");
}

#[test]
fn prepare_reply_follows_the_capture() {
    let message = Prepare::new(order_nine());
    assert_eq!(message.process(true), b"ready\n9");
    assert_eq!(message.process(false), b"abort\n9");
}

#[test]
fn test_deserialize_empty_message() {
    match check_frame(b"") {
        Err(err) => assert_eq!(
            "Incomplete message: missing message type and payload",
            err.message()
        ),
        _ => panic!("Expected error not returned"),
    }
}

#[test]
fn test_deserialize_message_missing_type() {
    let message =
        "{\"order_id\":9,\"client_id\":25,\"credit_card\":\"0000111122223333\",\"items\":[]}";
    match check_frame(message.as_bytes()) {
        Err(err) => assert_eq!("Incomplete message: missing type or payload", err.message()),
        _ => panic!("Expected error not returned"),
    }
}

#[test]
fn test_deserialize_message_missing_payload() {
    match check_frame(b"abort") {
        Err(err) => assert_eq!("Incomplete message: missing type or payload", err.message()),
        _ => panic!("Expected error not returned"),
    }
}

#[test]
fn test_deserialize_message_empty_type() {
    let message =
        "\n{\"order_id\":9,\"client_id\":25,\"credit_card\":\"0000111122223333\",\"items\":[]}";
    match check_frame(message.as_bytes()) {
        Err(err) => assert_eq!("Incomplete message: empty type", err.message()),
        _ => panic!("Expected error not returned"),
    }
}

#[test]
fn test_deserialize_message_empty_payload() {
    match check_frame(b"abort\n") {
        Err(err) => assert_eq!("Incomplete message: empty payload", err.message()),
        _ => panic!("Expected error not returned"),
    }
}

#[test]
fn test_deserialize_unknown_message_type() {
    let message = "unknown\n{\"order_id\":9,\"client_id\":25,\"credit_card\":\"0000111122223333\",\"items\":[]}";
    let (kind, _) = check_frame(message.as_bytes()).unwrap();
    assert_eq!(gateway_kind(&kind), None);
    assert_eq!(kind, b"unknown".to_vec());
}

#[test]
fn frame_check_accepts_each_known_kind() {
    for (text, kind) in [
        ("prepare", GatewayKind::Prepare),
        ("commit", GatewayKind::Commit),
        ("abort", GatewayKind::Abort),
    ] {
        let message = format!("{}\n{{\"order_id\":9}}", text);
        let (t, body) = check_frame(message.as_bytes()).unwrap();
        assert_eq!(gateway_kind(&t), Some(kind));
        assert_eq!(body, b"{\"order_id\":9}".to_vec());
    }
}

#[test]
fn blank_message_of_spaces_is_refused() {
    assert!(blank(b" \t\r\n"));
    assert_eq!(check_frame(b"  \n "), Err(FrameError::MissingTypeAndPayload));
    assert_eq!(check_frame(b"  \n x"), Err(FrameError::EmptyType));
}

#[test]
fn log_line_is_type_space_json_newline() {
    let line = log_line(b"abort", b"{\"order_id\":9}");
    assert_eq!(line, b"abort {\"order_id\":9}\n".to_vec());
}

#[test]
fn gateway_message_reports_its_type_and_order() {
    let m = GatewayMessage::from_kind(GatewayKind::Commit, order_nine());
    assert_eq!(m.type_to_string(), "commit");
    assert_eq!(m.get_order().id(), 9);
    assert_eq!(m.process(), encode_reply(ScreenReply::Finished, 9));
    let a = GatewayMessage::from_kind(GatewayKind::Abort, order_nine());
    assert_eq!(a.type_to_string(), "abort");
    let p = GatewayMessage::from_kind(GatewayKind::Prepare, order_nine());
    assert_eq!(p.type_to_string(), "prepare");
}
