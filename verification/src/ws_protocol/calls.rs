//! What the calls give back, told by what goes into them.
use super::frames;
use super::frames::Decoded;
use super::laws;
use super::magic;
use super::{Content, KnownOperation, Operation, Packet, ParseError, WsMessage};
use crate::json;
use crate::text;
use crate::wire;
use vstd::prelude::*;
use vstd::utf8::*;

verus! {

/// A packet says its operation and its body.
pub proof fn law_packet_says_what_it_holds(packet: Packet)
    ensures
        packet@.operation == packet.operation,
        packet@.body == packet.body@,
{
}

/// An operation has the number of its name, or is its number.
pub proof fn law_operation_has_its_number(known: KnownOperation, code: u32)
    ensures
        Operation::Known(known).code() == known.code(),
        Operation::Unknown(code).code() == code,
        Operation::Known(known).spelling() == known.spelling(),
        Operation::Unknown(code).spelling() == "Unknown("@ + text::decimal(code as nat) + ")"@,
        super::operation_of(code) == Operation::Known(known) <==> known.code() == code,
        code >= 18 ==> super::operation_of(code) == Operation::Unknown(code),
        code < 18 ==> super::operation_of(code) is Known,
{
    magic::law_known_code_reads_back(known);
}

/// An operation is found by its text alone: what is written is read back, and what is read
/// is written so again.
pub proof fn law_operation_is_found_by_its_text(
    operation: Operation,
    written: String,
    text: &str,
    found: Option<Operation>,
)
    requires
        call_ensures(Operation::to_string, (&operation,), written),
        call_ensures(Operation::from_name, (text,), found),
    ensures
        written@ == operation.spelling(),
        text@ == written@ <==> found == Some(operation),
{
    laws::law_spelling_reads_back(operation);
    if found == Some(operation) {
        assert(operation.spelling() == text@);
    }
}

/// An error is told by its kind and by what it holds.
pub proof fn law_error_tells_what_it_holds(error: &ParseError, text: String)
    requires
        call_ensures(ParseError::to_string, (error,), text),
    ensures
        match error {
            ParseError::WsTypeNotSupported(message) => text@
                == "Websocket packet type not supported: "@ + message@,
            ParseError::IO(e) => exists|detail: String|
                text@ == "IO error while parsing: "@ + detail@
                    && #[trigger] vstd::string::to_string_from_display_ensures(e, detail),
            ParseError::Encoding(e) => exists|detail: String|
                text@ == "Encoding error: "@ + detail@
                    && #[trigger] vstd::string::to_string_from_display_ensures(e, detail),
        },
{
}

/// The body of an auth packet is a JSON object that says who comes into which room with
/// which token, and how, and nothing else.
pub proof fn law_auth_says_who_comes_where(room_id: u64, token: &str, uid: i64, packet: Packet)
    requires
        call_ensures(Packet::auth, (room_id, token, uid), packet),
    ensures
        packet.operation == Operation::Known(KnownOperation::Auth),
        packet.room_id == room_id,
        packet.time.off_the_clock(),
        json::json_parsed(packet.body@) matches Some(json::JsonTree::Object(members)) && {
            &&& packet.body@ == json::object_written(members)
            &&& members.dom() == set!["uid"@, "roomid"@, "protover"@, "platform"@, "type"@, "key"@]
            &&& members["uid"@] == json::JsonTree::Integer(uid as int)
            &&& members["roomid"@] == json::JsonTree::Integer(room_id as int)
            &&& members["protover"@] == json::JsonTree::Integer(3)
            &&& members["platform"@] == json::JsonTree::Text("android"@)
            &&& members["type"@] == json::JsonTree::Integer(2)
            &&& members["key"@] == json::JsonTree::Text(token@)
        },
{
    reveal_strlit("uid");
    reveal_strlit("roomid");
    reveal_strlit("protover");
    reveal_strlit("platform");
    reveal_strlit("type");
    reveal_strlit("key");
    assert("uid"@.len() == 3 && "key"@.len() == 3 && "type"@.len() == 4);
    assert("roomid"@.len() == 6 && "protover"@.len() == 8 && "platform"@.len() == 8);
    assert("uid"@[0] != "key"@[0]);
    assert("protover"@[1] != "platform"@[1]);
    let members = super::auth_members(room_id, token@, uid);
    assert(members["roomid"@] == json::JsonTree::Integer(room_id as int));
    assert(members["uid"@] == json::JsonTree::Integer(uid as int));
    assert(members.dom() =~= set![
        "uid"@,
        "roomid"@,
        "protover"@,
        "platform"@,
        "type"@,
        "key"@,
    ]);
}

/// A heartbeat says nothing and belongs to no room.
pub proof fn law_heartbeat_is_empty(packet: Packet)
    requires
        call_ensures(Packet::heartbeat, (), packet),
    ensures
        packet.operation == Operation::Known(KnownOperation::Heartbeat),
        packet.body@ == "{}"@,
        packet.room_id == 0,
        packet.time.off_the_clock(),
{
}

/// Every packet is written with the same header: its size, the size of the header, the
/// version, the operation's number and the sequence id; the body stands behind it.
pub proof fn law_written_header(packet: &Packet, bytes: Vec<u8>)
    requires
        call_ensures(Packet::to_bytes, (packet,), bytes),
    ensures
        bytes@.len() == 16 + encode_utf8(packet.body@).len(),
        wire::be_u32(bytes@) == bytes@.len() as int % 0x1_0000_0000,
        wire::be_u16(bytes@.skip(4)) == 16,
        wire::be_u16(bytes@.skip(6)) == 1,
        wire::be_u32(bytes@.skip(8)) == (match packet.operation {
            Operation::Known(known) => known.code(),
            Operation::Unknown(code) => code,
        }),
        wire::be_u32(bytes@.skip(12)) == 1,
        bytes@.skip(16) == encode_utf8(packet.body@),
{
    lemma_written_header(packet@);
}

proof fn lemma_written_header(content: Content)
    ensures
        ({
            let bytes = frames::frame_of(content);
            &&& bytes.len() == 16 + encode_utf8(content.body).len()
            &&& wire::be_u32(bytes) == bytes.len() as int % 0x1_0000_0000
            &&& wire::be_u16(bytes.skip(4)) == 16
            &&& wire::be_u16(bytes.skip(6)) == 1
            &&& wire::be_u32(bytes.skip(8)) == content.operation.code()
            &&& wire::be_u32(bytes.skip(12)) == 1
            &&& bytes.skip(16) == encode_utf8(content.body)
        }),
{
    let bytes = frames::frame_of(content);
    let body = encode_utf8(content.body);
    let size = ((16 + body.len()) % 0x1_0000_0000) as u32;
    let from_id = wire::be_u32_bytes(1) + body;
    let from_code = wire::be_u32_bytes(content.operation.code() as int) + from_id;
    let from_version = wire::be_u16_bytes(1) + from_code;
    let from_head = wire::be_u16_bytes(16) + from_version;
    assert(bytes =~= wire::be_u32_bytes(size as int) + from_head);
    assert(bytes.skip(4) =~= from_head);
    assert(bytes.skip(6) =~= from_version);
    assert(bytes.skip(8) =~= from_code);
    assert(bytes.skip(12) =~= from_id);
    assert(bytes.skip(16) =~= body);
    wire::law_be_u32_reads_back(size, from_head);
    wire::law_be_u16_reads_back(16, from_version);
    wire::law_be_u16_reads_back(1, from_code);
    wire::law_be_u32_reads_back(content.operation.code(), from_id);
    wire::law_be_u32_reads_back(1, body);
}

/// A message that carries a packet is the packet's bytes.
pub proof fn law_message_carries_the_bytes(packet: Packet, bytes: Vec<u8>, message: WsMessage)
    requires
        call_ensures(Packet::to_bytes, (&packet,), bytes),
        call_ensures(<WsMessage as From<Packet>>::from, (packet,), message),
    ensures
        message matches WsMessage::Binary(data) && data@ == bytes@,
{
}

/// How bytes are read at a given depth, by the header at their front. The numbers in the
/// header are the size of the whole frame, the version at the seventh byte and the operation
/// at the ninth; the body starts at the seventeenth.
///
/// Too few bytes for a header hold no packets. A size out of range is no frame. A body of
/// version two is a zlib stream and one of version three a brotli stream, and all of what
/// comes out is read on. A reply to a heartbeat of version one holds a number. Any other body
/// is text. What stands behind the frame is read behind it, unless the frame fails.
pub proof fn law_reading_goes_by_the_header(bytes: Seq<u8>, depth: nat)
    ensures
        bytes.len() < 16 ==> frames::decode(bytes, depth) == Decoded::Packets(Seq::empty()),
        bytes.len() >= 16 ==> {
            let size = wire::be_u32(bytes);
            let version = wire::be_u16(bytes.skip(6));
            let code = wire::be_u32(bytes.skip(8)) as u32;
            let body = bytes.subrange(16, size);
            let behind = frames::decode(bytes.skip(size), depth);
            if size < 16 || size > bytes.len() {
                frames::decode(bytes, depth) == Decoded::Malformed
            } else if version == 2 || version == 3 {
                match if version == 2 {
                    wire::zlib_inflated(body)
                } else {
                    wire::brotli_inflated(body)
                } {
                    None => frames::decode(bytes, depth) == Decoded::Io(
                        if version == 2 {
                            wire::IoCause::Zlib(body)
                        } else {
                            wire::IoCause::Brotli(body)
                        },
                    ),
                    Some(inner) => if depth > 0 && frames::decode(
                        inner,
                        (depth - 1) as nat,
                    ) is Packets {
                        let packets = frames::decode(inner, (depth - 1) as nat)->Packets_0;
                        frames::decode(bytes, depth) == (if behind is Packets {
                            Decoded::Packets(packets + behind->Packets_0)
                        } else {
                            behind
                        })
                    } else {
                        frames::decode(bytes, depth) == Decoded::Malformed
                    },
                }
            } else if version == 1 && code == 3 && body.len() < 4 {
                frames::decode(bytes, depth) == Decoded::Io(wire::IoCause::ShortNumber(body))
            } else if !(version == 1 && code == 3) && !valid_utf8(body) {
                frames::decode(bytes, depth) == Decoded::Encoding(body)
            } else {
                let operation = super::operation_of(code);
                let said = if version == 1 && code == 3 {
                    text::decimal(wire::be_u32(body) as nat)
                } else {
                    decode_utf8(body)
                };
                frames::decode(bytes, depth) == (if behind is Packets {
                    Decoded::Packets(seq![Content { operation, body: said }] + behind->Packets_0)
                } else {
                    behind
                })
            }
        },
{
    if bytes.len() >= 16 {
        let code = wire::be_u32(bytes.skip(8)) as u32;
        magic::law_known_code_reads_back(KnownOperation::HeartbeatReply);
        laws::law_code_reads_back(code);
        assert(code == 3 <==> super::operation_of(code) == Operation::Known(
            KnownOperation::HeartbeatReply,
        ));
        let size = wire::be_u32(bytes);
        if 16 <= size <= bytes.len() {
            let here = frames::decode_body(
                super::operation_of(code),
                wire::be_u16(bytes.skip(6)),
                bytes.subrange(16, size),
                depth,
            );
            let behind = frames::decode(bytes.skip(size), depth);
            assert(frames::decode(bytes, depth) == here.followed_by(behind));
        }
    }
}

/// Bytes are frames exactly where they are at some depth, and then are read as there.
pub proof fn law_some_depth_is_enough(bytes: Seq<u8>, depth: nat)
    ensures
        !(frames::decode(bytes, depth) is Malformed) ==> frames::decoded(bytes) == frames::decode(
            bytes,
            depth,
        ),
        frames::decoded(bytes) is Malformed ==> frames::decode(bytes, depth) is Malformed,
        exists|enough: nat| frames::decoded(bytes) == #[trigger] frames::decode(bytes, enough),
{
    if !(frames::decode(bytes, depth) is Malformed) {
        frames::law_depth_does_not_matter(bytes, depth);
    }
}

/// All that a decompressor gives out of a frame's body is read as frames, however long it is,
/// and then what stands behind the frame. This is so for any frame of version two, with a
/// zlib stream, and of version three, with a brotli stream.
pub proof fn law_whole_stream_is_read(frame: Seq<u8>, inner: Seq<u8>, rest: Seq<u8>)
    requires
        frame.len() >= 16,
        wire::be_u32(frame) == frame.len(),
        ({
            ||| wire::be_u16(frame.skip(6)) == 2 && wire::zlib_inflated(frame.skip(16)) == Some(
                inner,
            )
            ||| wire::be_u16(frame.skip(6)) == 3 && wire::brotli_inflated(frame.skip(16)) == Some(
                inner,
            )
        }),
    ensures
        match (frames::decoded(inner), frames::decoded(rest)) {
            (Decoded::Packets(first), Decoded::Packets(second)) => frames::decoded(frame + rest)
                == Decoded::Packets(first + second),
            (Decoded::Packets(_), failure) => frames::decoded(frame + rest) == failure,
            _ => frames::decoded(frame + rest) == Decoded::Malformed,
        },
{
    assert(frames::frame_body(frame) =~= frame.skip(16));
    laws::law_compressed_frame_is_opened(frame, rest);
}

/// A frame whose body does not decompress fails, whatever stands behind it.
pub proof fn law_broken_stream_fails(frame: Seq<u8>, rest: Seq<u8>)
    requires
        frame.len() >= 16,
        wire::be_u32(frame) == frame.len(),
    ensures
        wire::be_u16(frame.skip(6)) == 2 && wire::zlib_inflated(frame.skip(16)) is None
            ==> frames::decoded(frame + rest) == Decoded::Io(wire::IoCause::Zlib(frame.skip(16))),
        wire::be_u16(frame.skip(6)) == 3 && wire::brotli_inflated(frame.skip(16)) is None
            ==> frames::decoded(frame + rest) == Decoded::Io(wire::IoCause::Brotli(frame.skip(16))),
{
    assert(frames::frame_body(frame) =~= frame.skip(16));
    if wire::be_u16(frame.skip(6)) == 2 || wire::be_u16(frame.skip(6)) == 3 {
        laws::law_compressed_frame_is_opened(frame, rest);
    }
}

/// A frame that is not compressed holds one packet: the reply to a heartbeat a number, any
/// other the body as text, whole and unchanged.
pub proof fn law_plain_frame_is_one_packet(frame: Seq<u8>, rest: Seq<u8>)
    requires
        frame.len() >= 16,
        wire::be_u32(frame) == frame.len(),
        wire::be_u16(frame.skip(6)) != 2,
        wire::be_u16(frame.skip(6)) != 3,
    ensures
        ({
            let body = frame.skip(16);
            let code = wire::be_u32(frame.skip(8)) as u32;
            let is_number = wire::be_u16(frame.skip(6)) == 1 && code == 3;
            let content = Content {
                operation: super::operation_of(code),
                body: if is_number {
                    text::decimal(wire::be_u32(body) as nat)
                } else {
                    decode_utf8(body)
                },
            };
            if is_number && body.len() < 4 {
                frames::decoded(frame + rest) == Decoded::Io(wire::IoCause::ShortNumber(body))
            } else if !is_number && !valid_utf8(body) {
                frames::decoded(frame + rest) == Decoded::Encoding(body)
            } else {
                match frames::decoded(rest) {
                    Decoded::Packets(second) => frames::decoded(frame + rest) == Decoded::Packets(
                        seq![content] + second,
                    ),
                    failure => frames::decoded(frame + rest) == failure,
                }
            }
        }),
{
    assert(frames::frame_body(frame) =~= frame.skip(16));
    let code = wire::be_u32(frame.skip(8)) as u32;
    laws::law_code_reads_back(code);
    if wire::be_u16(frame.skip(6)) == 1 && code == 3 {
        laws::law_heartbeat_reply_reads_a_number(frame, rest);
    } else {
        laws::law_text_frame_is_read(frame, rest);
    }
}

/// What bytes come to is what is returned: the packets in their order, each with its
/// operation and body, the room and a time off the clock; or the error of what failed.
pub proof fn law_result_is_what_was_read(
    bytes: &[u8],
    room_id: u64,
    r: Result<Vec<Packet>, ParseError>,
)
    requires
        call_ensures(Packet::from_bytes, (bytes, room_id), r),
    ensures
        match frames::decoded(bytes@) {
            Decoded::Packets(contents) => {
                &&& r matches Ok(packets)
                &&& packets@.len() == contents.len()
                &&& forall|i: int|
                    0 <= i < contents.len() ==> {
                        &&& (#[trigger] packets@[i]).operation == contents[i].operation
                        &&& packets@[i].body@ == contents[i].body
                        &&& packets@[i].room_id == room_id
                        &&& packets@[i].time.off_the_clock()
                    }
            },
            Decoded::Io(cause) => r matches Err(ParseError::IO(e)) && cause.gave(e),
            Decoded::Encoding(body) => r matches Err(ParseError::Encoding(e)) && wire::utf8_gave(
                body,
                e,
            ),
            Decoded::Malformed => true,
        },
{
    lemma_reported(r, room_id, frames::decoded(bytes@));
}

proof fn lemma_reported(r: Result<Vec<Packet>, ParseError>, room_id: u64, outcome: Decoded)
    requires
        frames::reports(r, room_id, outcome),
    ensures
        match outcome {
            Decoded::Packets(contents) => {
                &&& r matches Ok(packets)
                &&& packets@.len() == contents.len()
                &&& forall|i: int|
                    0 <= i < contents.len() ==> {
                        &&& (#[trigger] packets@[i]).operation == contents[i].operation
                        &&& packets@[i].body@ == contents[i].body
                        &&& packets@[i].room_id == room_id
                        &&& packets@[i].time.off_the_clock()
                    }
            },
            Decoded::Io(cause) => r matches Err(ParseError::IO(e)) && cause.gave(e),
            Decoded::Encoding(body) => r matches Err(ParseError::Encoding(e)) && wire::utf8_gave(
                body,
                e,
            ),
            Decoded::Malformed => false,
        },
{
    if let Ok(packets) = r {
        let contents = outcome->Packets_0;
        assert forall|i: int| 0 <= i < contents.len() implies {
            &&& (#[trigger] packets@[i]).operation == contents[i].operation
            &&& packets@[i].body@ == contents[i].body
            &&& packets@[i].room_id == room_id
            &&& packets@[i].time.off_the_clock()
        } by {
            assert(contents[i] == packets@[i]@);
        }
    }
}

/// Bytes that may be no frames are read as those that are, as long as bodies are compressed
/// in each other no deeper than allowed; otherwise nothing is returned.
pub proof fn law_checked_result_is_what_was_read(
    bytes: &[u8],
    room_id: u64,
    max_depth: u32,
    r: Option<Result<Vec<Packet>, ParseError>>,
)
    requires
        call_ensures(Packet::checked_from_bytes, (bytes, room_id, max_depth), r),
    ensures
        r is None <==> frames::decode(bytes@, max_depth as nat) is Malformed,
        r matches Some(result) ==> match frames::decoded(bytes@) {
            Decoded::Packets(contents) => {
                &&& result matches Ok(packets)
                &&& packets@.len() == contents.len()
                &&& forall|i: int|
                    0 <= i < contents.len() ==> {
                        &&& (#[trigger] packets@[i]).operation == contents[i].operation
                        &&& packets@[i].body@ == contents[i].body
                        &&& packets@[i].room_id == room_id
                        &&& packets@[i].time.off_the_clock()
                    }
            },
            Decoded::Io(cause) => result matches Err(ParseError::IO(e)) && cause.gave(e),
            Decoded::Encoding(body) => result matches Err(ParseError::Encoding(e))
                && wire::utf8_gave(body, e),
            Decoded::Malformed => false,
        },
{
    if let Some(result) = r {
        frames::law_depth_does_not_matter(bytes@, max_depth as nat);
        lemma_reported(result, room_id, frames::decoded(bytes@));
    }
}

/// A binary message is read as its bytes, a ping as nothing, and any other message is refused
/// with its text: bytes that are no text with their length.
pub proof fn law_message_is_read_by_its_kind(
    message: WsMessage,
    room_id: u64,
    r: Result<Vec<Packet>, ParseError>,
)
    requires
        call_ensures(Packet::from_ws_message, (message, room_id), r),
    ensures
        match message {
            WsMessage::Binary(data) => match frames::decoded(data@) {
                Decoded::Packets(contents) => {
                    &&& r matches Ok(packets)
                    &&& packets@.len() == contents.len()
                    &&& forall|i: int|
                        0 <= i < contents.len() ==> {
                            &&& (#[trigger] packets@[i]).operation == contents[i].operation
                            &&& packets@[i].body@ == contents[i].body
                            &&& packets@[i].room_id == room_id
                            &&& packets@[i].time.off_the_clock()
                        }
                },
                Decoded::Io(cause) => r matches Err(ParseError::IO(e)) && cause.gave(e),
                Decoded::Encoding(body) => r matches Err(ParseError::Encoding(e))
                    && wire::utf8_gave(body, e),
                Decoded::Malformed => true,
            },
            WsMessage::Ping(_) => r matches Ok(packets) && packets@.len() == 0,
            WsMessage::Text(said) => r matches Err(ParseError::WsTypeNotSupported(text)) && text@
                == said@,
            WsMessage::Close(None) => r matches Err(ParseError::WsTypeNotSupported(text))
                && text@.len() == 0,
            WsMessage::Close(Some(frame)) => r matches Err(ParseError::WsTypeNotSupported(text))
                && text@ == frame.reason@,
            WsMessage::Pong(data) => r matches Err(ParseError::WsTypeNotSupported(text)) && text@
                == (if valid_utf8(data@) {
                decode_utf8(data@)
            } else {
                "Binary Data<length="@ + text::decimal(data@.len()) + ">"@
            }),
            WsMessage::Frame { mask, payload } => r matches Err(
                ParseError::WsTypeNotSupported(text),
            ) && text@ == (if valid_utf8(payload@) {
                decode_utf8(payload@)
            } else {
                let len = payload@.len();
                let header: nat = if len < 126 {
                    2
                } else if len < 65536 {
                    4
                } else {
                    10
                };
                let key: nat = if mask is Some {
                    4
                } else {
                    0
                };
                "Binary Data<length="@ + text::decimal(header + key + len) + ">"@
            }),
        },
{
    if let WsMessage::Binary(data) = message {
        if !(frames::decoded(data@) is Malformed) {
            lemma_reported(r, room_id, frames::decoded(data@));
        }
    }
}

/// A message of which nothing is known is read alike, and there is no answer only where its
/// bytes are no frames, or are compressed in each other deeper than allowed.
pub proof fn law_checked_message_is_read_by_its_kind(
    message: WsMessage,
    room_id: u64,
    max_depth: u32,
    plain: Result<Vec<Packet>, ParseError>,
    r: Option<Result<Vec<Packet>, ParseError>>,
)
    requires
        call_ensures(Packet::checked_from_ws_message, (message, room_id, max_depth), r),
        call_ensures(Packet::from_ws_message, (message, room_id), plain),
    ensures
        match message {
            WsMessage::Binary(data) => {
                &&& r is None <==> frames::decode(data@, max_depth as nat) is Malformed
                &&& r matches Some(result) ==> match frames::decoded(data@) {
                    Decoded::Packets(contents) => {
                        &&& result matches Ok(packets)
                        &&& packets@.len() == contents.len()
                        &&& forall|i: int|
                            0 <= i < contents.len() ==> {
                                &&& (#[trigger] packets@[i]).operation == contents[i].operation
                                &&& packets@[i].body@ == contents[i].body
                                &&& packets@[i].room_id == room_id
                                &&& packets@[i].time.off_the_clock()
                            }
                    },
                    Decoded::Io(cause) => result matches Err(ParseError::IO(e)) && cause.gave(e),
                    Decoded::Encoding(body) => result matches Err(ParseError::Encoding(e))
                        && wire::utf8_gave(body, e),
                    Decoded::Malformed => false,
                }
            },
            WsMessage::Ping(_) => r matches Some(Ok(packets)) && packets@.len() == 0,
            _ => r matches Some(Err(ParseError::WsTypeNotSupported(text))) && (plain matches Err(
                ParseError::WsTypeNotSupported(other),
            ) && text@ == other@),
        },
{
    if let WsMessage::Binary(data) = message {
        if let Some(result) = r {
            frames::law_depth_does_not_matter(data@, max_depth as nat);
            lemma_reported(result, room_id, frames::decoded(data@));
        }
    }
}

/// Numbers and operations are turned into each other, and back again.
pub proof fn law_conversions_undo_each_other(
    code: u32,
    operation: Operation,
    of_code: Operation,
    of_operation: u32,
)
    requires
        call_ensures(<Operation as From<u32>>::from, (code,), of_code),
        call_ensures(<u32 as From<Operation>>::from, (operation,), of_operation),
    ensures
        match operation {
            Operation::Known(known) => of_operation == known.code(),
            Operation::Unknown(number) => of_operation == number,
        },
        match of_code {
            Operation::Known(known) => known.code() == code,
            Operation::Unknown(number) => number == code && code >= 18,
        },
{
    laws::law_code_reads_back(code);
}

/// An error that is taken over is kept as it is.
pub proof fn law_error_is_kept(
    io: std::io::Error,
    utf8: std::string::FromUtf8Error,
    of_io: ParseError,
    of_utf8: ParseError,
)
    requires
        call_ensures(<ParseError as From<std::io::Error>>::from, (io,), of_io),
        call_ensures(<ParseError as From<std::string::FromUtf8Error>>::from, (utf8,), of_utf8),
    ensures
        of_io == ParseError::IO(io),
        of_utf8 == ParseError::Encoding(utf8),
{
}

/// The bytes that an encoding error hands out are those of the frame that was no text; no
/// other error hands out any.
pub proof fn law_refused_bytes_are_the_frames(
    bytes: &[u8],
    room_id: u64,
    error: ParseError,
    refused: Option<&[u8]>,
)
    requires
        call_ensures(Packet::from_bytes, (bytes, room_id), Err(error)),
        call_ensures(ParseError::refused_bytes, (&error,), refused),
    ensures
        match frames::decoded(bytes@) {
            Decoded::Encoding(body) => refused matches Some(found) && found@ == body,
            _ => refused is None,
        },
{
}

/// A copy of a packet is the packet.
pub proof fn law_copy_is_the_packet(packet: &Packet, copy: Packet)
    requires
        call_ensures(<Packet as Clone>::clone, (packet,), copy),
    ensures
        copy.operation == packet.operation,
        copy.body@ == packet.body@,
        copy.time == packet.time,
        copy.room_id == packet.room_id,
{
}

} // verus!
