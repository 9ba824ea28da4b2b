use danmu::ws_protocol::{KnownOperation, Operation};
use serde_json::Value;

fn op_object(op: Operation) -> Value {
    let mut object = serde_json::Map::new();
    object.insert("op".to_string(), Value::from(op.to_string()));
    Value::Object(object)
}

fn op_member(text: &str) -> Option<Operation> {
    let value: Value = serde_json::from_str(text).unwrap();
    Operation::from_name(value["op"].as_str().unwrap())
}

const NAMED: [(u32, KnownOperation, &str); 18] = [
    (0, KnownOperation::Handshake, "Handshake"),
    (1, KnownOperation::HandshakeReply, "HandshakeReply"),
    (2, KnownOperation::Heartbeat, "Heartbeat"),
    (3, KnownOperation::HeartbeatReply, "HeartbeatReply"),
    (4, KnownOperation::SendMsg, "SendMsg"),
    (5, KnownOperation::SendMsgReply, "SendMsgReply"),
    (6, KnownOperation::DisconnectReply, "DisconnectReply"),
    (7, KnownOperation::Auth, "Auth"),
    (8, KnownOperation::AuthReply, "AuthReply"),
    (9, KnownOperation::Raw, "Raw"),
    (10, KnownOperation::ProtoReady, "ProtoReady"),
    (11, KnownOperation::ProtoFinish, "ProtoFinish"),
    (12, KnownOperation::ChangeRoom, "ChangeRoom"),
    (13, KnownOperation::ChangeRoomReply, "ChangeRoomReply"),
    (14, KnownOperation::Register, "Register"),
    (15, KnownOperation::RegisterReply, "RegisterReply"),
    (16, KnownOperation::Unregister, "Unregister"),
    (17, KnownOperation::UnregisterReply, "UnregisterReply"),
];

#[test]
fn test_operation_serialize() {
    assert_eq!(
        serde_json::to_string(&op_object(Operation::Known(KnownOperation::SendMsgReply))).unwrap(),
        r#"{"op":"SendMsgReply"}"#
    );
    assert_eq!(
        serde_json::to_string(&op_object(Operation::Unknown(114514))).unwrap(),
        r#"{"op":"Unknown(114514)"}"#
    );
}

#[test]
fn test_operation_deserialize_known() {
    assert_eq!(
        op_member(r#"{"op":"SendMsgReply"}"#).unwrap(),
        Operation::Known(KnownOperation::SendMsgReply)
    );
}

#[test]
fn test_operation_deserialize_unknown() {
    assert_eq!(
        op_member(r#"{"op":"Unknown(114514)"}"#).unwrap(),
        Operation::Unknown(114514)
    );
}

#[test]
fn written_numbers_read_back() {
    for code in [0, 5, 9, 10, 18, 114514, u32::MAX] {
        let operation = Operation::Unknown(code);
        assert_eq!(Operation::from_name(&operation.to_string()), Some(operation));
    }
    assert_eq!(Operation::from_name("Unknown(5)"), Some(Operation::Unknown(5)));
}

#[test]
fn other_texts_are_no_operations() {
    for text in [
        "",
        "sendmsg",
        "SendMsg ",
        "Unknown",
        "Unknown()",
        "Unknown(5",
        "Unknown[5]",
        "unknown(5)",
        "Unknown(007)",
        "Unknown(+5)",
        "Unknown(-1)",
        "Unknown( 5)",
        "Unknown(4294967296)",
        "Unknown(99999999999999999999)",
        "Unknown(SendMsg)",
        "Unknown(\u{4e94})",
        "\u{672a}\u{77e5}\u{7684}\u{64cd}\u{4f5c}\u{672a}\u{77e5}(5)",
    ] {
        assert_eq!(Operation::from_name(text), None, "{}", text);
        assert_eq!(KnownOperation::from_name(text), None, "{}", text);
    }
    assert_eq!(op_member(r#"{"op":"sendmsg"}"#), None);
}

#[test]
fn names_and_numbers_read_back() {
    for (code, known, name) in NAMED {
        assert_eq!(known.repr(), code);
        assert_eq!(KnownOperation::from_repr(code), Some(known));
        assert_eq!(known.name(), name);
        assert_eq!(format!("{:?}", known), name);
        assert_eq!(KnownOperation::from_name(name), Some(known));
        assert_eq!(Operation::from_name(name), Some(Operation::Known(known)));
        assert_eq!(Operation::from(code), Operation::Known(known));
        assert_eq!(u32::from(Operation::Known(known)), code);
        assert_eq!(Operation::Known(known).to_string(), name);
    }
}

#[test]
fn other_numbers_have_no_name() {
    for code in [18, 19, 114514, u32::MAX] {
        assert_eq!(KnownOperation::from_repr(code), None);
        assert_eq!(Operation::from(code), Operation::Unknown(code));
        assert_eq!(u32::from(Operation::Unknown(code)), code);
    }
    assert_eq!(Operation::Unknown(0).to_string(), "Unknown(0)");
    assert_eq!(Operation::Unknown(u32::MAX).to_string(), "Unknown(4294967295)");
}
