use fred_client::backchannel::{BackchannelState, Phase};
use fred_client::command::{
    bare_command, client_kill, client_list, client_pause, client_reply, client_setname, client_unblock,
    decode_reply, CommandKind, ResponseShape,
};
use fred_client::gateway::{active_connections, Gateway};
use fred_client::types::{
    ClientKillFilter, ClientKillType, ClientPauseKind, ClientReplyFlag, ClientUnblockFlag, ServerEndpoint,
};
use fred_client::value::{expect_ok, frame_to_single_result, Error, ErrorKind, Frame, Value};

fn text(v: &Value) -> String {
    match v {
        Value::String(s) => s.clone(),
        other => panic!("not a string: {:?}", other),
    }
}

fn texts(args: &[Value]) -> Vec<String> {
    args.iter().map(text).collect()
}

#[test]
fn kill_with_id_filter_acknowledged() {
    let mut gateway = Gateway::new();
    let command = client_kill(vec![ClientKillFilter::ID("42".to_string())]);
    assert_eq!(texts(&command.args), vec!["ID", "42"]);
    assert_eq!(command.expects, ResponseShape::SingleValue);
    let id = gateway.submit(&command).unwrap();
    let reply = gateway.deliver(id, Ok(Frame::SimpleString("OK".to_string())));
    match reply {
        Some(Ok(Value::String(s))) => assert_eq!(s, "OK"),
        other => panic!("unexpected {:?}", other),
    }
    assert_eq!(gateway.pending_count(), 0);
    assert!(gateway.has_free_id());
}

#[test]
fn pause_with_non_status_reply_is_protocol_error() {
    let mut gateway = Gateway::new();
    let command = client_pause(1000, Some(ClientPauseKind::Write));
    assert!(matches!(command.args[0], Value::Integer(1000)));
    assert_eq!(text(&command.args[1]), "WRITE");
    assert_eq!(command.expects, ResponseShape::Status);
    let id = gateway.submit(&command).unwrap();
    let state = BackchannelState::new();
    let reply = gateway.deliver(id, Ok(Frame::Integer(3)));
    match reply {
        Some(Err(e)) => assert_eq!(e.kind, ErrorKind::Protocol),
        other => panic!("unexpected {:?}", other),
    }
    assert_eq!(state.phase(), Phase::Running);
    assert!(!state.unblocked_latch());
    assert!(!state.is_blocked());
}

#[test]
fn outcome_delivered_at_most_once() {
    let mut gateway = Gateway::new();
    let id = gateway.submit(&bare_command(CommandKind::ClientId)).unwrap();
    assert!(gateway.deliver(id, Ok(Frame::Integer(7))).is_some());
    assert!(gateway.deliver(id, Ok(Frame::Integer(8))).is_none());
    assert!(!gateway.is_pending(id));
}

#[test]
fn abandoned_reply_not_matched_to_other_request() {
    let mut gateway = Gateway::new();
    let first = gateway.submit(&bare_command(CommandKind::ClientId)).unwrap();
    let second = gateway.submit(&bare_command(CommandKind::ClientGetName)).unwrap();
    assert_ne!(first, second);
    gateway.abandon(first);
    assert!(gateway.deliver(first, Ok(Frame::Integer(1))).is_none());
    assert!(gateway.is_pending(second));
    match gateway.deliver(second, Ok(Frame::BulkString("me".to_string()))) {
        Some(Ok(Value::String(s))) => assert_eq!(s, "me"),
        other => panic!("unexpected {:?}", other),
    }
}

#[test]
fn shutdown_cancels_waiting_requests() {
    let mut gateway = Gateway::new();
    let a = gateway.submit(&bare_command(CommandKind::ClientId)).unwrap();
    let b = gateway.submit(&bare_command(CommandKind::ClientInfo)).unwrap();
    gateway.abandon(b);
    let cancelled = gateway.shutdown();
    assert_eq!(cancelled, vec![a]);
    assert!(!gateway.is_alive());
    let err = gateway.submit(&bare_command(CommandKind::ClientId)).unwrap_err();
    assert_eq!(err.kind, ErrorKind::Cancellation);
    assert_eq!(active_connections(&gateway).unwrap_err().kind, ErrorKind::Cancellation);
}

#[test]
fn transport_error_passed_through() {
    let mut gateway = Gateway::new();
    let id = gateway.submit(&bare_command(CommandKind::ClientUnpause)).unwrap();
    let lost = Error::new(ErrorKind::Connectivity, "connection reset");
    match gateway.deliver(id, Err(lost)) {
        Some(Err(e)) => assert_eq!(e.kind, ErrorKind::Connectivity),
        other => panic!("unexpected {:?}", other),
    }
}

#[test]
fn active_connections_empty_then_distinct() {
    let mut gateway = Gateway::new();
    assert!(active_connections(&gateway).unwrap().is_empty());
    for port in 7000..7008u16 {
        assert!(gateway.connect(ServerEndpoint::new("10.0.0.1", port)));
    }
    assert!(!gateway.connect(ServerEndpoint::new("10.0.0.1", 7003)));
    let servers = active_connections(&gateway).unwrap();
    assert_eq!(servers.len(), 8);
    for (i, s) in servers.iter().enumerate() {
        assert_eq!(s.host, "10.0.0.1");
        assert_eq!(s.port, 7000 + i as u16);
    }
    assert!(gateway.disconnect(&ServerEndpoint::new("10.0.0.1", 7003)));
    assert!(!gateway.disconnect(&ServerEndpoint::new("10.0.0.1", 7003)));
    assert_eq!(active_connections(&gateway).unwrap().len(), 7);
}

#[test]
fn kill_arguments_for_every_filter() {
    let command = client_kill(vec![
        ClientKillFilter::Type(ClientKillType::Pubsub),
        ClientKillFilter::User("bob".to_string()),
        ClientKillFilter::Addr("1.2.3.4:5".to_string()),
        ClientKillFilter::LAddr("5.6.7.8:9".to_string()),
        ClientKillFilter::SkipMe(false),
    ]);
    assert_eq!(command.kind, CommandKind::ClientKill);
    assert_eq!(
        texts(&command.args),
        vec!["TYPE", "pubsub", "USER", "bob", "ADDR", "1.2.3.4:5", "LADDR", "5.6.7.8:9", "SKIPME", "no"]
    );
    assert!(client_kill(vec![]).args.is_empty());
}

#[test]
fn list_arguments() {
    let command = client_list(Some(ClientKillType::Replica), Some(vec!["1".to_string(), "2".to_string()]));
    assert_eq!(texts(&command.args), vec!["TYPE", "replica", "ID", "1", "2"]);
    assert!(client_list(None, Some(vec![])).args.is_empty());
    assert!(client_list(None, None).args.is_empty());
    assert_eq!(texts(&client_list(Some(ClientKillType::Normal), None).args), vec!["TYPE", "normal"]);
}

#[test]
fn other_admin_arguments() {
    assert_eq!(texts(&client_setname("worker".to_string()).args), vec!["worker"]);
    assert_eq!(client_setname("x".to_string()).expects, ResponseShape::Status);
    assert_eq!(texts(&client_reply(ClientReplyFlag::Skip).args), vec!["SKIP"]);
    let unblock = client_unblock(Value::Integer(12), Some(ClientUnblockFlag::Timeout));
    assert!(matches!(unblock.args[0], Value::Integer(12)));
    assert_eq!(text(&unblock.args[1]), "TIMEOUT");
    assert_eq!(client_unblock(Value::Integer(12), None).args.len(), 1);
    assert_eq!(client_pause(5, None).args.len(), 1);
    assert_eq!(bare_command(CommandKind::ClientGetName).expects, ResponseShape::OptionalValue);
}

#[test]
fn decoding_frames() {
    let err = frame_to_single_result(Frame::Error("ERR no such client".to_string())).unwrap_err();
    assert_eq!(err.kind, ErrorKind::Administrative);
    assert_eq!(err.details, "ERR no such client");
    assert!(matches!(frame_to_single_result(Frame::Null), Ok(Value::Null)));
    assert!(matches!(frame_to_single_result(Frame::Array(vec![Value::Integer(4)])), Ok(Value::Integer(4))));
    let many = frame_to_single_result(Frame::Array(vec![Value::Null, Value::Null]));
    assert_eq!(many.unwrap_err().kind, ErrorKind::Protocol);
    assert!(expect_ok(&Value::String("OK".to_string())).is_ok());
    assert_eq!(expect_ok(&Value::String("QUEUED".to_string())).unwrap_err().kind, ErrorKind::Protocol);
    assert!(decode_reply(ResponseShape::Status, Frame::SimpleString("OK".to_string())).is_ok());
    assert!(decode_reply(ResponseShape::Status, Frame::BulkString("no".to_string())).is_err());
    assert!(matches!(decode_reply(ResponseShape::SingleValue, Frame::Integer(-2)), Ok(Value::Integer(-2))));
}
