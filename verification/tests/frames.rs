use danmu::ws_protocol::{
    CloseFrame, KnownOperation, Operation, Packet, ParseError, Timestamp, WsMessage,
};
use std::io::Write;

fn frame(version: u16, code: u32, body: &[u8]) -> Vec<u8> {
    let mut bytes = Vec::new();
    bytes.extend_from_slice(&(16 + body.len() as u32).to_be_bytes());
    bytes.extend_from_slice(&16u16.to_be_bytes());
    bytes.extend_from_slice(&version.to_be_bytes());
    bytes.extend_from_slice(&code.to_be_bytes());
    bytes.extend_from_slice(&1u32.to_be_bytes());
    bytes.extend_from_slice(body);
    bytes
}

fn zlib(bytes: &[u8]) -> Vec<u8> {
    let mut encoder =
        flate2::write::ZlibEncoder::new(Vec::new(), flate2::Compression::default());
    encoder.write_all(bytes).unwrap();
    encoder.finish().unwrap()
}

fn brotli(bytes: &[u8]) -> Vec<u8> {
    let mut out = Vec::new();
    {
        let mut encoder = brotli::CompressorWriter::new(&mut out, 4096, 5, 22);
        encoder.write_all(bytes).unwrap();
    }
    out
}

fn packet(operation: Operation, body: &str) -> Packet {
    Packet {
        operation,
        body: body.to_string(),
        time: Timestamp { seconds: 0, nanos: 0, utc_offset: 0 },
        room_id: 1,
    }
}

fn said(packets: &[Packet]) -> Vec<(Operation, String)> {
    packets.iter().map(|p| (p.operation, p.body.clone())).collect()
}

const REPLY: Operation = Operation::Known(KnownOperation::SendMsgReply);

#[test]
fn heartbeat_bytes() {
    let packet = Packet::heartbeat();
    assert_eq!(packet.operation, Operation::Known(KnownOperation::Heartbeat));
    assert_eq!(packet.body, "{}");
    assert_eq!(packet.room_id, 0);
    assert_eq!(
        packet.to_bytes(),
        vec![0, 0, 0, 18, 0, 16, 0, 1, 0, 0, 0, 2, 0, 0, 0, 1, b'{', b'}']
    );
}

#[test]
fn packets_are_made_now() {
    let before = chrono::Local::now().timestamp();
    let time = Packet::heartbeat().time;
    let after = chrono::Local::now().timestamp();
    assert!(before <= time.seconds && time.seconds <= after);
    assert!(time.nanos < 2_000_000_000);
    assert_eq!(time.utc_offset, chrono::Local::now().offset().local_minus_utc());
}

#[test]
fn auth_body() {
    let packet = Packet::auth(21452505, "to\"ken\\\n", -7);
    assert_eq!(packet.operation, Operation::Known(KnownOperation::Auth));
    assert_eq!(packet.room_id, 21452505);
    assert_eq!(
        packet.body,
        r#"{"key":"to\"ken\\\n","platform":"android","protover":3,"roomid":21452505,"type":2,"uid":-7}"#
    );
    let read: serde_json::Value = serde_json::from_str(&packet.body).unwrap();
    assert_eq!(read["uid"].as_i64(), Some(-7));
    assert_eq!(read["roomid"].as_u64(), Some(21452505));
    assert_eq!(read["protover"].as_i64(), Some(3));
    assert_eq!(read["platform"].as_str(), Some("android"));
    assert_eq!(read["type"].as_i64(), Some(2));
    assert_eq!(read["key"].as_str(), Some("to\"ken\\\n"));
    assert_eq!(read.as_object().unwrap().len(), 6);
}

#[test]
fn auth_of_large_numbers() {
    let body = Packet::auth(u64::MAX, "", i64::MIN).body;
    assert_eq!(
        body,
        r#"{"key":"","platform":"android","protover":3,"roomid":18446744073709551615,"type":2,"uid":-9223372036854775808}"#
    );
}

#[test]
fn message_of_a_packet() {
    match WsMessage::from(packet(REPLY, "你好")) {
        WsMessage::Binary(bytes) => assert_eq!(bytes, frame(1, 5, "你好".as_bytes())),
        other => panic!("{:?}", other),
    }
}

#[test]
fn a_packet_reads_back() {
    let bytes = packet(REPLY, "{\"cmd\":\"直播\"}").to_bytes();
    let packets = Packet::from_bytes(&bytes, 42).unwrap();
    assert_eq!(said(&packets), vec![(REPLY, "{\"cmd\":\"直播\"}".to_string())]);
    assert_eq!(packets[0].room_id, 42);
}

#[test]
fn a_clone_is_the_same_packet() {
    let one = packet(REPLY, "x");
    let two = one.clone();
    assert_eq!(said(&[one]), said(&[two]));
}

#[test]
fn a_number_with_a_name_reads_back_as_the_name() {
    let bytes = packet(Operation::Unknown(5), "x").to_bytes();
    assert_eq!(said(&Packet::from_bytes(&bytes, 1).unwrap()), vec![(REPLY, "x".to_string())]);
}

#[test]
fn packets_read_back_in_order() {
    let sent = [
        packet(REPLY, "one"),
        packet(Operation::Unknown(99), ""),
        packet(Operation::Known(KnownOperation::AuthReply), "three"),
    ];
    let mut bytes = Vec::new();
    for packet in &sent {
        bytes.extend(packet.to_bytes());
    }
    assert_eq!(said(&Packet::from_bytes(&bytes, 1).unwrap()), said(&sent));
}

#[test]
fn no_bytes_no_packets() {
    assert!(Packet::from_bytes(&[], 1).unwrap().is_empty());
}

#[test]
fn a_fragment_is_ignored() {
    assert!(Packet::from_bytes(&[0xff; 15], 1).unwrap().is_empty());
    let mut bytes = packet(REPLY, "x").to_bytes();
    bytes.extend([1, 2, 3]);
    assert_eq!(said(&Packet::from_bytes(&bytes, 1).unwrap()), vec![(REPLY, "x".to_string())]);
}

#[test]
fn a_heartbeat_reply_is_a_number() {
    let bytes = frame(1, 3, &[0, 1, 0, 2, 9, 9]);
    assert_eq!(
        said(&Packet::from_bytes(&bytes, 1).unwrap()),
        vec![(Operation::Known(KnownOperation::HeartbeatReply), "65538".to_string())]
    );
}

#[test]
fn a_heartbeat_reply_of_another_version_is_text() {
    let bytes = frame(0, 3, b"text");
    assert_eq!(
        said(&Packet::from_bytes(&bytes, 1).unwrap()),
        vec![(Operation::Known(KnownOperation::HeartbeatReply), "text".to_string())]
    );
}

#[test]
fn a_short_heartbeat_reply_is_an_error() {
    let bytes = frame(1, 3, &[0, 1, 0]);
    assert!(matches!(Packet::from_bytes(&bytes, 1), Err(ParseError::IO(_))));
}

#[test]
fn a_body_that_is_no_text_is_an_error() {
    let bytes = frame(1, 5, &[0xff, 0xfe]);
    assert!(matches!(Packet::from_bytes(&bytes, 1), Err(ParseError::Encoding(_))));
}

#[test]
fn the_first_failure_counts() {
    let mut bytes = packet(REPLY, "x").to_bytes();
    bytes.extend(frame(1, 5, &[0xff]));
    bytes.extend([0; 16]);
    assert!(matches!(Packet::from_bytes(&bytes, 1), Err(ParseError::Encoding(_))));
    assert!(matches!(Packet::checked_from_bytes(&bytes, 1, 0), Some(Err(ParseError::Encoding(_)))));
}

#[test]
fn zlib_frames() {
    let mut inner = packet(REPLY, "one").to_bytes();
    inner.extend(packet(Operation::Unknown(99), "two").to_bytes());
    let mut bytes = frame(2, 5, &zlib(&inner));
    bytes.extend(packet(REPLY, "three").to_bytes());
    let packets = Packet::from_bytes(&bytes, 8).unwrap();
    assert_eq!(
        said(&packets),
        vec![
            (REPLY, "one".to_string()),
            (Operation::Unknown(99), "two".to_string()),
            (REPLY, "three".to_string()),
        ]
    );
    assert!(packets.iter().all(|p| p.room_id == 8));
}

#[test]
fn brotli_frames() {
    let mut inner = packet(REPLY, "one").to_bytes();
    inner.extend(packet(REPLY, "two").to_bytes());
    let bytes = frame(3, 3, &brotli(&inner));
    assert_eq!(
        said(&Packet::from_bytes(&bytes, 1).unwrap()),
        vec![(REPLY, "one".to_string()), (REPLY, "two".to_string())]
    );
}

#[test]
fn frames_in_frames() {
    let one = packet(REPLY, "deep").to_bytes();
    let two = frame(2, 0, &zlib(&one));
    let three = frame(3, 0, &brotli(&two));
    assert_eq!(said(&Packet::from_bytes(&three, 1).unwrap()), vec![(REPLY, "deep".to_string())]);
    assert!(Packet::checked_from_bytes(&three, 1, 1).is_none());
    let packets = Packet::checked_from_bytes(&three, 1, 2).unwrap().unwrap();
    assert_eq!(said(&packets), vec![(REPLY, "deep".to_string())]);
    let packets = Packet::checked_from_bytes(&three, 1, u32::MAX).unwrap().unwrap();
    assert_eq!(said(&packets), vec![(REPLY, "deep".to_string())]);
}

#[test]
fn bodies_that_do_not_decompress() {
    assert!(matches!(
        Packet::from_bytes(&frame(2, 5, b"no stream"), 1),
        Err(ParseError::IO(_))
    ));
    assert!(matches!(
        Packet::from_bytes(&frame(3, 5, b"\xff\xff\xff\xff"), 1),
        Err(ParseError::IO(_))
    ));
}

#[test]
fn bytes_that_are_no_frames() {
    // A size below the header's.
    let mut small = frame(1, 5, b"x");
    small[3] = 15;
    assert!(Packet::checked_from_bytes(&small, 1, 9).is_none());
    // A size past the end.
    let mut large = frame(1, 5, b"x");
    large[3] = 18;
    assert!(Packet::checked_from_bytes(&large, 1, 9).is_none());
    // A compressed body with a failure in it.
    let inner = frame(1, 5, &[0xff]);
    assert!(Packet::checked_from_bytes(&frame(2, 5, &zlib(&inner)), 1, 9).is_none());
    assert!(Packet::checked_from_bytes(&frame(3, 5, &brotli(&inner)), 1, 9).is_none());
}

#[test]
fn messages_with_packets() {
    let bytes = packet(REPLY, "x").to_bytes();
    let packets = Packet::from_ws_message(WsMessage::Binary(bytes.clone()), 7).unwrap();
    assert_eq!(said(&packets), vec![(REPLY, "x".to_string())]);
    assert_eq!(packets[0].room_id, 7);
    let packets = Packet::checked_from_ws_message(WsMessage::Binary(bytes), 7, 0).unwrap().unwrap();
    assert_eq!(said(&packets), vec![(REPLY, "x".to_string())]);
    assert!(Packet::checked_from_ws_message(WsMessage::Binary(vec![0; 16]), 7, 9).is_none());
}

#[test]
fn a_ping_holds_no_packets() {
    assert!(Packet::from_ws_message(WsMessage::Ping(vec![0xff]), 7).unwrap().is_empty());
    let checked = Packet::checked_from_ws_message(WsMessage::Ping(vec![]), 7, 0);
    assert!(checked.unwrap().unwrap().is_empty());
}

fn refusal(message: WsMessage) -> String {
    match Packet::checked_from_ws_message(message, 7, 0) {
        Some(Err(ParseError::WsTypeNotSupported(text))) => text,
        other => panic!("{:?}", other),
    }
}

#[test]
fn other_messages_are_refused() {
    assert_eq!(refusal(WsMessage::Text("hello".to_string())), "hello");
    assert_eq!(refusal(WsMessage::Pong(b"pong".to_vec())), "pong");
    assert_eq!(refusal(WsMessage::Pong(vec![0xff, 0xfe, 0xfd])), "Binary Data<length=3>");
    assert_eq!(refusal(WsMessage::Close(None)), "");
    assert_eq!(
        refusal(WsMessage::Close(Some(CloseFrame { code: 1000, reason: "bye".to_string() }))),
        "bye"
    );
    assert_eq!(refusal(WsMessage::Frame { mask: None, payload: b"raw".to_vec() }), "raw");
    assert_eq!(
        refusal(WsMessage::Frame { mask: None, payload: vec![0xff] }),
        "Binary Data<length=3>"
    );
    assert_eq!(
        refusal(WsMessage::Frame { mask: Some([1, 2, 3, 4]), payload: vec![0xff; 126] }),
        "Binary Data<length=134>"
    );
    assert_eq!(
        refusal(WsMessage::Frame { mask: None, payload: vec![0xff; 65536] }),
        "Binary Data<length=65546>"
    );
    assert!(matches!(
        Packet::from_ws_message(WsMessage::Text("x".to_string()), 7),
        Err(ParseError::WsTypeNotSupported(text)) if text == "x"
    ));
}

#[test]
fn errors_as_text() {
    let e = Packet::from_ws_message(WsMessage::Text("hello".to_string()), 1).unwrap_err();
    assert_eq!(e.to_string(), "Websocket packet type not supported: hello");

    let e = Packet::from_bytes(&frame(1, 3, &[0, 1, 0]), 1).unwrap_err();
    let short = std::io::Error::from(std::io::ErrorKind::UnexpectedEof);
    assert!(matches!(&e, ParseError::IO(error) if error.kind() == short.kind()));
    match &e {
        ParseError::IO(error) => {
            assert_eq!(e.to_string(), format!("IO error while parsing: {}", error))
        }
        other => panic!("{:?}", other),
    }

    let e = Packet::from_bytes(&frame(1, 5, &[b'x', 0xff]), 1).unwrap_err();
    let not_text = String::from_utf8(vec![b'x', 0xff]).unwrap_err();
    assert_eq!(e.to_string(), format!("Encoding error: {}", not_text));
    assert_eq!(e.refused_bytes(), Some(&[b'x', 0xff][..]));
    assert!(matches!(e, ParseError::Encoding(error) if error == not_text));
}

#[test]
fn frames_and_what_stands_behind_them() {
    let first = frame(2, 5, &zlib(&packet(REPLY, "one").to_bytes()));
    let second = frame(3, 5, &brotli(&frame(2, 5, &zlib(&packet(REPLY, "two").to_bytes()))));
    let both = [first.clone(), second.clone()].concat();
    let mut one_by_one = said(&Packet::from_bytes(&first, 1).unwrap());
    one_by_one.extend(said(&Packet::from_bytes(&second, 1).unwrap()));
    assert_eq!(said(&Packet::from_bytes(&both, 1).unwrap()), one_by_one);

    let cut = [both, vec![0xff; 15]].concat();
    assert_eq!(said(&Packet::from_bytes(&cut, 1).unwrap()), one_by_one);
}

#[test]
fn an_encoding_error_keeps_the_bytes_of_its_frame() {
    let mut bytes = packet(REPLY, "x").to_bytes();
    bytes.extend(frame(0, 5, &[b'a', 0xc3, b'b']));
    bytes.extend(frame(0, 5, &[0xff]));
    let e = Packet::from_bytes(&bytes, 1).unwrap_err();
    assert_eq!(e.refused_bytes(), Some(&[b'a', 0xc3, b'b'][..]));
    let e = Packet::from_bytes(&frame(2, 5, b"no stream"), 1).unwrap_err();
    assert_eq!(e.refused_bytes(), None);
    let e = Packet::from_ws_message(WsMessage::Text("hello".to_string()), 1).unwrap_err();
    assert_eq!(e.refused_bytes(), None);
}

#[test]
fn errors_are_taken_over() {
    let e = ParseError::from(std::io::Error::new(std::io::ErrorKind::Other, "broken"));
    assert_eq!(e.to_string(), "IO error while parsing: broken");
    assert!(matches!(e, ParseError::IO(_)));
    let e = ParseError::from(String::from_utf8(vec![0xff]).unwrap_err());
    assert_eq!(e.refused_bytes(), Some(&[0xff][..]));
}

#[test]
fn head_size_and_sequence_id_play_no_part() {
    let inner = packet(REPLY, "in").to_bytes();
    for whole in [
        frame(0, 5, b"text"),
        frame(1, 3, &[0, 0, 0, 7]),
        frame(2, 5, &zlib(&inner)),
        frame(3, 0, &brotli(&inner)),
    ] {
        let mut other = whole.clone();
        other[4..6].copy_from_slice(&[0, 0]);
        other[12..16].copy_from_slice(&[0xff, 0, 0, 9]);
        for rest in [vec![], packet(REPLY, "behind").to_bytes(), vec![0xff; 15]] {
            let as_written = [whole.clone(), rest.clone()].concat();
            let changed = [other.clone(), rest].concat();
            assert_eq!(
                said(&Packet::from_bytes(&changed, 1).unwrap()),
                said(&Packet::from_bytes(&as_written, 1).unwrap())
            );
        }
    }
}
