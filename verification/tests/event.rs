use danmu::event::{check_event, react, Delivery, Notice, Reaction};
use danmu::json::{parse_json, Json};
use danmu::ws_protocol::{KnownOperation, Operation, Packet, Timestamp};

fn text(s: &str) -> Json {
    Json::Text(s.to_string())
}

fn object(entries: Vec<(&str, Json)>) -> Json {
    Json::Object(entries.into_iter().map(|(k, v)| (k.to_string(), v)).collect())
}

fn packet(operation: Operation, body: &str) -> Packet {
    Packet {
        operation,
        body: body.to_string(),
        time: Timestamp { seconds: 0, nanos: 0, utc_offset: 0 },
        room_id: 1,
    }
}

fn comment(face: Json) -> Json {
    let mut first = Vec::new();
    for _ in 0..15 {
        first.push(Json::Null);
    }
    first.push(object(vec![("user", object(vec![("base", object(vec![("face", face)]))]))]));
    object(vec![
        ("cmd", text("DANMU_MSG")),
        (
            "info",
            Json::Array(vec![
                Json::Array(first),
                text("hello"),
                Json::Array(vec![Json::Integer(5), text("ann")]),
            ]),
        ),
    ])
}

fn interaction(kind: Json, uname: Json) -> Json {
    object(vec![
        ("cmd", text("INTERACT_WORD")),
        ("data", object(vec![("msg_type", kind), ("uname", uname)])),
    ])
}

#[test]
fn a_comment() {
    let event = comment(text("http://face"));
    assert!(check_event(&event));
    match react(&event) {
        Reaction::Notify(Notice::Danmaku { user, comment, avatar }) => {
            assert_eq!(user, "ann");
            assert_eq!(comment, "hello");
            assert_eq!(avatar, "http://face");
        }
        other => panic!("{:?}", other),
    }
}

#[test]
fn a_comment_without_a_picture() {
    assert!(!check_event(&comment(Json::Null)));
    assert!(!check_event(&object(vec![("cmd", text("DANMU_MSG"))])));
}

#[test]
fn a_comment_without_name_and_text() {
    let body = r#"{"cmd":"DANMU_MSG","info":[[0,1,2,3,4,5,6,7,8,9,10,11,12,13,14,
        {"user":{"base":{"face":"f"}}}],17,[1.5]]}"#;
    match packet(Operation::Known(KnownOperation::SendMsg), body).checked_reaction() {
        Some(Reaction::Notify(Notice::Danmaku { user, comment, avatar })) => {
            assert_eq!((user.as_str(), comment.as_str(), avatar.as_str()), ("", "", "f"));
        }
        other => panic!("{:?}", other),
    }
}

#[test]
fn visitors() {
    assert!(matches!(
        react(&interaction(Json::Integer(1), text("bob"))),
        Reaction::Notify(Notice::Entered { user }) if user == "bob"
    ));
    assert!(matches!(
        react(&interaction(Json::Integer(2), text("bob"))),
        Reaction::Notify(Notice::Followed { user }) if user == "bob"
    ));
    assert!(matches!(
        react(&interaction(Json::Integer(3), Json::Null)),
        Reaction::OtherInteraction
    ));
    assert!(matches!(react(&interaction(text("1"), Json::Null)), Reaction::OtherInteraction));
    assert!(!check_event(&interaction(Json::Integer(1), Json::Null)));
    assert!(!check_event(&interaction(Json::Integer(2), Json::Integer(4))));
    assert!(check_event(&interaction(Json::Float, Json::Null)));
}

#[test]
fn other_commands() {
    assert!(matches!(react(&object(vec![("cmd", text("GIFT"))])), Reaction::OtherCommand));
    assert!(matches!(react(&object(vec![])), Reaction::OtherCommand));
    assert!(matches!(react(&Json::Array(vec![text("cmd")])), Reaction::OtherCommand));
    assert!(matches!(react(&object(vec![("cmd", Json::Bool(true))])), Reaction::OtherCommand));
}

#[test]
fn packets_with_events() {
    let body = r#"{"cmd":"INTERACT_WORD","data":{"msg_type":1,"uname":"böb"}}"#;
    for known in [KnownOperation::SendMsg, KnownOperation::SendMsgReply] {
        let packet = packet(Operation::Known(known), body);
        assert!(matches!(
            packet.reaction(),
            Reaction::Notify(Notice::Entered { user }) if user == "böb"
        ));
        assert!(packet.checked_reaction().is_some());
    }
}

#[test]
fn packets_with_unreadable_events() {
    let reply = Operation::Known(KnownOperation::SendMsgReply);
    assert!(packet(reply, "no json").checked_reaction().is_none());
    assert!(packet(reply, "").checked_reaction().is_none());
    assert!(packet(reply, r#"{"cmd":"DANMU_MSG"}"#).checked_reaction().is_none());
    assert!(packet(reply, r#"{"cmd":"INTERACT_WORD","data":{"msg_type":2}}"#)
        .checked_reaction()
        .is_none());
}

#[test]
fn packets_without_events() {
    assert!(matches!(
        packet(Operation::Known(KnownOperation::HeartbeatReply), "no json").reaction(),
        Reaction::Control(KnownOperation::HeartbeatReply)
    ));
    assert!(matches!(
        packet(Operation::Unknown(5), "no json").checked_reaction(),
        Some(Reaction::Unknown(5))
    ));
}

#[test]
fn json_texts() {
    let value = parse_json(r#"{"a":[null,true,-3,18446744073709551615,2.5,"x"],"b":{"c":1}}"#);
    let value = value.unwrap();
    let a = value.member("a");
    assert!(matches!(a.element(0), Json::Null));
    assert!(matches!(a.element(1), Json::Bool(true)));
    assert_eq!(a.element(2).as_i64(), Some(-3));
    assert!(matches!(a.element(3), Json::Integer(18446744073709551615)));
    assert_eq!(a.element(3).as_i64(), None);
    assert!(matches!(a.element(4), Json::Float));
    assert_eq!(a.element(5).as_str(), Some("x"));
    assert!(matches!(a.element(6), Json::Null));
    assert_eq!(value.member("b").member("c").as_i64(), Some(1));
    assert!(matches!(value.member("d").member("e").element(0), Json::Null));
    assert!(matches!(value.element(0), Json::Null));
    assert!(parse_json("{").is_none());
    assert_eq!(parse_json(r#"{"k":1,"k":2}"#).unwrap().member("k").as_i64(), Some(2));
    let twice = object(vec![("k", Json::Integer(1)), ("k", Json::Integer(2))]);
    assert_eq!(twice.member("k").as_i64(), Some(2));
}

#[test]
fn notices() {
    let danmaku = Notice::Danmaku {
        user: "ann".to_string(),
        comment: "hi".to_string(),
        avatar: "f".to_string(),
    };
    assert_eq!(danmaku.line(), "User: ann, Comment: hi");
    match danmaku.delivery() {
        Delivery::Command(args) => {
            assert_eq!(args, ["-title", "ann", "-message", "hi", "-contentImage", "f"]);
        }
        other => panic!("{:?}", other),
    }
    let entered = Notice::Entered { user: "bob".to_string() };
    assert_eq!(entered.line(), "bob 进入直播间");
    assert!(matches!(
        entered.delivery(),
        Delivery::Notification { title, text } if title == "bob" && text == "进入直播间"
    ));
    let followed = Notice::Followed { user: "bob".to_string() };
    assert_eq!(followed.line(), "bob 关注了主播");
    assert!(matches!(
        followed.delivery(),
        Delivery::Notification { title, text } if title == "bob" && text == "关注了主播"
    ));
}
