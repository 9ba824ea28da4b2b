//! Packets to bytes and back.
//!
//! A websocket message holds frames, one behind the other. A frame is a header and a body.
//! The body is the body of one packet, or, compressed, more frames.
use super::magic;
use super::message::message_text;
use super::{now, Content, KnownOperation, Operation, Packet, ParseError, WsMessage};
use crate::text;
use crate::wire;
use vstd::prelude::*;
use vstd::slice::*;
use vstd::utf8::*;

verus! {

/// What comes of reading bytes as frames.
pub enum Decoded {
    /// The packets, in the order of their frames.
    Packets(Seq<Content>),
    /// A compressed body did not decompress, or a number was cut short.
    Io(wire::IoCause),
    /// This body was no UTF-8.
    Encoding(Seq<u8>),
    /// The bytes are no frames: a size is smaller than the header or goes past the end, a
    /// compressed body does not hold packets, or bodies are compressed in each other
    /// deeper than was to be looked.
    Malformed,
}

impl Decoded {
    /// Puts packets in front.
    pub open spec fn preceded_by(self, first: Seq<Content>) -> Decoded {
        match self {
            Decoded::Packets(rest) => Decoded::Packets(first + rest),
            other => other,
        }
    }

    /// What comes of this frame, then of the bytes behind it: nothing behind a failure
    /// counts.
    pub open spec fn followed_by(self, rest: Decoded) -> Decoded {
        match self {
            Decoded::Packets(first) => rest.preceded_by(first),
            failure => failure,
        }
    }
}

/// The size that a header gives for its whole frame.
pub open spec fn frame_size(bytes: Seq<u8>) -> int {
    wire::be_u32(bytes)
}

/// The version that a header gives.
pub open spec fn frame_version(bytes: Seq<u8>) -> int {
    wire::be_u16(bytes.skip(6))
}

/// The operation that a header gives.
pub open spec fn frame_operation(bytes: Seq<u8>) -> Operation {
    super::operation_of(wire::be_u32(bytes.skip(8)) as u32)
}

/// The body of the first frame.
pub open spec fn frame_body(bytes: Seq<u8>) -> Seq<u8> {
    bytes.subrange(magic::HEADER_SIZE as int, frame_size(bytes))
}

/// What comes of `bytes`, where bodies are compressed in each other at most `depth` deep.
/// What is left at the end, and is shorter than a header, is ignored.
pub open spec fn decode(bytes: Seq<u8>, depth: nat) -> Decoded
    decreases depth, bytes.len(),
{
    if bytes.len() < magic::HEADER_SIZE {
        Decoded::Packets(Seq::empty())
    } else if frame_size(bytes) < magic::HEADER_SIZE || frame_size(bytes) > bytes.len() {
        Decoded::Malformed
    } else {
        decode_body(
            frame_operation(bytes),
            frame_version(bytes),
            frame_body(bytes),
            depth,
        ).followed_by(decode(bytes.skip(frame_size(bytes)), depth))
    }
}

/// What comes of the body of one frame.
pub open spec fn decode_body(
    operation: Operation,
    version: int,
    body: Seq<u8>,
    depth: nat,
) -> Decoded
    decreases depth, body.len(),
{
    if version == magic::VER_ZLIB_COMPRESSED || version == magic::VER_BROTLI_COMPRESSED {
        match inflated(version, body) {
            None => Decoded::Io(
                if version == magic::VER_ZLIB_COMPRESSED {
                    wire::IoCause::Zlib(body)
                } else {
                    wire::IoCause::Brotli(body)
                },
            ),
            Some(inner) => if depth == 0 {
                Decoded::Malformed
            } else {
                match decode(inner, (depth - 1) as nat) {
                    Decoded::Packets(packets) => Decoded::Packets(packets),
                    _ => Decoded::Malformed,
                }
            },
        }
    } else if operation == Operation::Known(KnownOperation::HeartbeatReply) && version
        == magic::VER_NORMAL {
        if body.len() < 4 {
            Decoded::Io(wire::IoCause::ShortNumber(body))
        } else {
            Decoded::Packets(
                seq![Content { operation, body: text::decimal(wire::be_u32(body) as nat) }],
            )
        }
    } else if valid_utf8(body) {
        Decoded::Packets(seq![Content { operation, body: decode_utf8(body) }])
    } else {
        Decoded::Encoding(body)
    }
}

/// The bytes in a compressed body, where it decompresses.
pub open spec fn inflated(version: int, body: Seq<u8>) -> Option<Seq<u8>> {
    if version == magic::VER_ZLIB_COMPRESSED {
        wire::zlib_inflated(body)
    } else {
        wire::brotli_inflated(body)
    }
}

/// What comes of `bytes`, however deep bodies are compressed in each other.
pub open spec fn decoded(bytes: Seq<u8>) -> Decoded {
    decode(bytes, enough_depth(bytes))
}

/// A depth at which `bytes` are frames, where there is one.
pub open spec fn enough_depth(bytes: Seq<u8>) -> nat {
    choose|depth: nat| !(#[trigger] decode(bytes, depth) is Malformed)
}

/// What packets say, one by one.
pub open spec fn contents(packets: Seq<Packet>) -> Seq<Content> {
    packets.map_values(|packet: Packet| packet@)
}

/// Whether every packet is marked with the room it came from, and with a time read off the
/// clock.
pub open spec fn all_marked(packets: Seq<Packet>, room_id: u64) -> bool {
    forall|i: int|
        0 <= i < packets.len() ==> (#[trigger] packets[i]).room_id == room_id
            && packets[i].time.in_range() && packets[i].time.off_the_clock()
}

/// Whether a result is what came of reading.
pub open spec fn reports(
    r: Result<Vec<Packet>, ParseError>,
    room_id: u64,
    outcome: Decoded,
) -> bool {
    match r {
        Ok(packets) => {
            &&& outcome == Decoded::Packets(contents(packets@))
            &&& all_marked(packets@, room_id)
        },
        Err(ParseError::IO(e)) => outcome matches Decoded::Io(cause) && cause.gave(e),
        Err(ParseError::Encoding(e)) => outcome matches Decoded::Encoding(body)
            && wire::utf8_gave(body, e),
        Err(ParseError::WsTypeNotSupported(_)) => false,
    }
}

/// The bytes of a frame with these header fields. Its size is given modulo 2^32.
pub open spec fn frame_with(
    head_size: u16,
    version: u16,
    code: u32,
    sequence_id: u32,
    body: Seq<u8>,
) -> Seq<u8> {
    wire::be_u32_bytes((magic::HEADER_SIZE + body.len()) % 0x1_0000_0000) + wire::be_u16_bytes(
        head_size as int,
    ) + wire::be_u16_bytes(version as int) + wire::be_u32_bytes(code as int) + wire::be_u32_bytes(
        sequence_id as int,
    ) + body
}

/// The frame in which a packet is sent.
pub open spec fn frame_of(content: Content) -> Seq<u8> {
    frame_with(
        magic::HEADER_SIZE as u16,
        magic::VER_NORMAL,
        content.operation.code(),
        1,
        encode_utf8(content.body),
    )
}

/// The fields of a header that matter.
struct Header {
    size: u32,
    version: u16,
    operation: Operation,
}

/// Reads the header at the front.
fn read_header(bytes: &[u8]) -> (header: Header)
    requires
        bytes@.len() >= magic::HEADER_SIZE,
    ensures
        header.size == frame_size(bytes@),
        header.version == frame_version(bytes@),
        header.operation == frame_operation(bytes@),
{
    let size: u32 = wire::read_u32(bytes).unwrap();
    let from_version = slice_subrange(bytes, 6, bytes.len());
    assert(from_version@ =~= bytes@.skip(6));
    let version: u16 = wire::read_u16(from_version).unwrap();
    let from_code = slice_subrange(bytes, 8, bytes.len());
    assert(from_code@ =~= bytes@.skip(8));
    let code: u32 = wire::read_u32(from_code).unwrap();
    Header { size, version, operation: Operation::from(code) }
}

impl Packet {
    /// Reads the packets in the frames of a websocket message.
    ///
    /// The bytes have to be frames: see [`Packet::checked_from_bytes`] for bytes of which
    /// that is not known.
    pub fn from_bytes(bytes: &[u8], room_id: u64) -> (r: Result<Vec<Packet>, ParseError>)
        requires
            !(decoded(bytes@) is Malformed),
        ensures
            reports(r, room_id, decoded(bytes@)),
    {
        Packet::read_frames(bytes, room_id, Ghost(enough_depth(bytes@)))
    }

    /// Reads the packets in the frames of a websocket message, where the bytes are frames
    /// with bodies compressed in each other at most `max_depth` deep.
    pub fn checked_from_bytes(bytes: &[u8], room_id: u64, max_depth: u32) -> (r: Option<
        Result<Vec<Packet>, ParseError>,
    >)
        ensures
            match r {
                Some(result) => {
                    &&& !(decode(bytes@, max_depth as nat) is Malformed)
                    &&& reports(result, room_id, decode(bytes@, max_depth as nat))
                },
                None => decode(bytes@, max_depth as nat) is Malformed,
            },
    {
        match inspect(bytes, max_depth) {
            Verdict::Malformed => None,
            _ => {
                proof {
                    law_depth_does_not_matter(bytes@, max_depth as nat);
                }
                Some(Packet::from_bytes(bytes, room_id))
            },
        }
    }

    /// Reads the packets in a websocket message. Only binary messages hold some; a ping is
    /// no error.
    ///
    /// The bytes of a binary message have to be frames: see
    /// [`Packet::checked_from_ws_message`] for messages of which that is not known.
    pub fn from_ws_message(ws_message: WsMessage, room_id: u64) -> (r: Result<
        Vec<Packet>,
        ParseError,
    >)
        requires
            ws_message matches WsMessage::Binary(bytes) ==> !(decoded(bytes@) is Malformed),
        ensures
            match ws_message {
                WsMessage::Binary(bytes) => reports(r, room_id, decoded(bytes@)),
                WsMessage::Ping(_) => r matches Ok(packets) && packets@.len() == 0,
                other => r matches Err(ParseError::WsTypeNotSupported(text)) && text@
                    == other.displayed(),
            },
    {
        match ws_message {
            WsMessage::Binary(bytes) => Packet::from_bytes(bytes.as_slice(), room_id),
            WsMessage::Ping(_) => Ok(Vec::new()),
            ws_message => Err(ParseError::WsTypeNotSupported(message_text(ws_message))),
        }
    }

    /// Reads the packets in a websocket message, where the bytes of a binary message are
    /// frames with bodies compressed in each other at most `max_depth` deep.
    pub fn checked_from_ws_message(ws_message: WsMessage, room_id: u64, max_depth: u32) -> (r:
        Option<Result<Vec<Packet>, ParseError>>)
        ensures
            match ws_message {
                WsMessage::Binary(bytes) => match r {
                    Some(result) => {
                        &&& !(decode(bytes@, max_depth as nat) is Malformed)
                        &&& reports(result, room_id, decode(bytes@, max_depth as nat))
                    },
                    None => decode(bytes@, max_depth as nat) is Malformed,
                },
                WsMessage::Ping(_) => r matches Some(Ok(packets)) && packets@.len() == 0,
                other => r matches Some(Err(ParseError::WsTypeNotSupported(text))) && text@
                    == other.displayed(),
            },
    {
        if let WsMessage::Binary(bytes) = &ws_message {
            match inspect(bytes.as_slice(), max_depth) {
                Verdict::Malformed => return None,
                _ => {},
            }
            proof {
                law_depth_does_not_matter(bytes@, max_depth as nat);
            }
        }
        Some(Packet::from_ws_message(ws_message, room_id))
    }

    /// The frame in which the packet is sent.
    pub fn to_bytes(&self) -> (bytes: Vec<u8>)
        ensures
            bytes@ == frame_of(self@),
    {
        let body = self.body.as_str().as_bytes();
        let total_size: u128 = magic::HEADER_SIZE as u128 + body.len() as u128;
        let mut bytes: Vec<u8> = Vec::new();
        wire::write_u32(&mut bytes, (total_size % 0x1_0000_0000) as u32);
        wire::write_u16(&mut bytes, magic::HEADER_SIZE as u16);
        wire::write_u16(&mut bytes, magic::VER_NORMAL);
        wire::write_u32(&mut bytes, u32::from(self.operation));
        wire::write_u32(&mut bytes, 1);
        bytes.extend_from_slice(body);
        assert(bytes@ =~= frame_of(self@));
        bytes
    }

    fn read_frames(bytes: &[u8], room_id: u64, Ghost(depth): Ghost<nat>) -> (r: Result<
        Vec<Packet>,
        ParseError,
    >)
        requires
            !(decode(bytes@, depth) is Malformed),
        ensures
            reports(r, room_id, decode(bytes@, depth)),
        decreases depth,
    {
        let mut messages: Vec<Packet> = Vec::new();
        let mut buffer: &[u8] = bytes;
        assert(decode(bytes@, depth) == decode(buffer@, depth).preceded_by(contents(messages@)))
            by {
            lemma_preceded_by_nothing(decode(buffer@, depth));
            assert(contents(messages@) =~= Seq::empty());
        }
        while buffer.len() >= magic::HEADER_SIZE
            invariant
                !(decode(bytes@, depth) is Malformed),
                decode(bytes@, depth) == decode(buffer@, depth).preceded_by(contents(messages@)),
                all_marked(messages@, room_id),
            decreases buffer@.len(),
        {
            let ghost start = buffer@;
            let ghost before = messages@;
            let header = read_header(buffer);
            let size: usize = header.size as usize;
            let body_buffer = slice_subrange(buffer, magic::HEADER_SIZE, size);
            let ghost rest = decode(start.skip(frame_size(start)), depth);
            assert(body_buffer@ =~= frame_body(start));
            let ghost here = decode_body(header.operation, header.version as int, body_buffer@, depth);
            assert(decode(start, depth) == here.followed_by(rest));
            if header.version == magic::VER_ZLIB_COMPRESSED || header.version
                == magic::VER_BROTLI_COMPRESSED {
                let inner = if header.version == magic::VER_ZLIB_COMPRESSED {
                    wire::inflate_zlib(body_buffer)
                } else {
                    wire::inflate_brotli(body_buffer)
                };
                let inner = match inner {
                    Ok(inner) => inner,
                    Err(e) => return Err(ParseError::from(e)),
                };
                let mut sub_messages = Packet::read_frames(
                    inner.as_slice(),
                    room_id,
                    Ghost((depth - 1) as nat),
                ).unwrap();
                proof {
                    lemma_contents_append(before, sub_messages@);
                }
                messages.append(&mut sub_messages);
            } else if header.operation == Operation::Known(KnownOperation::HeartbeatReply)
                && header.version == magic::VER_NORMAL {
                let popularity: u32 = match wire::leading_number(body_buffer) {
                    Ok(popularity) => popularity,
                    Err(e) => return Err(ParseError::from(e)),
                };
                let message = Packet {
                    operation: header.operation,
                    body: text::decimal_text(popularity as u64),
                    time: now(),
                    room_id,
                };
                proof {
                    lemma_contents_push(before, message);
                }
                messages.push(message);
            } else {
                let body = match wire::text_of(body_buffer) {
                    Ok(body) => body,
                    Err(e) => return Err(ParseError::from(e)),
                };
                let message = Packet { operation: header.operation, body, time: now(), room_id };
                proof {
                    lemma_contents_push(before, message);
                }
                messages.push(message);
            }
            let ghost packets = here->Packets_0;
            assert(contents(messages@) == contents(before) + packets);
            proof {
                lemma_preceded_by_twice(rest, contents(before), packets);
            }
            buffer = slice_subrange(buffer, size, buffer.len());
            assert(buffer@ =~= start.skip(frame_size(start)));
        }
        assert(contents(messages@) + Seq::empty() =~= contents(messages@));
        Ok(messages)
    }
}

// Contracts compare vectors by what they hold, so what is made is stated at `from` itself.
impl vstd::std_specs::convert::FromSpecImpl<Packet> for WsMessage {
    open spec fn obeys_from_spec() -> bool {
        false
    }

    open spec fn from_spec(packet: Packet) -> WsMessage {
        arbitrary()
    }
}

impl From<Packet> for WsMessage {
    /// The message that carries the packet.
    fn from(packet: Packet) -> (message: WsMessage)
        ensures
            message matches WsMessage::Binary(bytes) && bytes@ == frame_of(packet@),
    {
        WsMessage::Binary(packet.to_bytes())
    }
}

/// Which kind of thing comes of reading bytes as frames.
enum Verdict {
    Packets,
    Failure,
    Malformed,
}

spec fn is_verdict(verdict: Verdict, outcome: Decoded) -> bool {
    match verdict {
        Verdict::Packets => outcome is Packets,
        Verdict::Failure => outcome is Io || outcome is Encoding,
        Verdict::Malformed => outcome is Malformed,
    }
}

/// Tells what would come of reading `bytes` as frames, without keeping the packets.
fn inspect(bytes: &[u8], depth: u32) -> (verdict: Verdict)
    ensures
        is_verdict(verdict, decode(bytes@, depth as nat)),
    decreases depth, 1nat,
{
    let mut buffer: &[u8] = bytes;
    while buffer.len() >= magic::HEADER_SIZE
        invariant
            forall|verdict: Verdict|
                is_verdict(verdict, decode(bytes@, depth as nat)) <==> is_verdict(
                    verdict,
                    decode(buffer@, depth as nat),
                ),
        decreases buffer@.len(),
    {
        let ghost start = buffer@;
        let header = read_header(buffer);
        let size: usize = header.size as usize;
        if size < magic::HEADER_SIZE || size > buffer.len() {
            assert(is_verdict(Verdict::Malformed, decode(start, depth as nat)));
            return Verdict::Malformed;
        }
        let body_buffer = slice_subrange(buffer, magic::HEADER_SIZE, size);
        assert(body_buffer@ =~= frame_body(start));
        let verdict = inspect_body(&header, body_buffer, depth);
        match verdict {
            Verdict::Packets => {},
            _ => {
                assert(is_verdict(verdict, decode(start, depth as nat)));
                return verdict;
            },
        }
        buffer = slice_subrange(buffer, size, buffer.len());
        assert(buffer@ =~= start.skip(frame_size(start)));
    }
    assert(is_verdict(Verdict::Packets, decode(buffer@, depth as nat)));
    Verdict::Packets
}

/// Tells what would come of reading the body of one frame.
fn inspect_body(header: &Header, body: &[u8], depth: u32) -> (verdict: Verdict)
    ensures
        is_verdict(
            verdict,
            decode_body(header.operation, header.version as int, body@, depth as nat),
        ),
    decreases depth, 0nat,
{
    if header.version == magic::VER_ZLIB_COMPRESSED || header.version
        == magic::VER_BROTLI_COMPRESSED {
        let inner = if header.version == magic::VER_ZLIB_COMPRESSED {
            wire::inflate_zlib(body)
        } else {
            wire::inflate_brotli(body)
        };
        match inner {
            Err(_) => Verdict::Failure,
            Ok(inner) => if depth == 0 {
                Verdict::Malformed
            } else {
                match inspect(inner.as_slice(), depth - 1) {
                    Verdict::Packets => Verdict::Packets,
                    _ => Verdict::Malformed,
                }
            },
        }
    } else if header.operation == Operation::Known(KnownOperation::HeartbeatReply)
        && header.version == magic::VER_NORMAL {
        if body.len() < 4 {
            Verdict::Failure
        } else {
            Verdict::Packets
        }
    } else {
        match wire::text_of(body) {
            Ok(_) => Verdict::Packets,
            Err(_) => Verdict::Failure,
        }
    }
}

/// A deeper look at frames that were read shows the same.
proof fn lemma_deeper_look(bytes: Seq<u8>, depth: nat)
    requires
        !(decode(bytes, depth) is Malformed),
    ensures
        decode(bytes, depth + 1) == decode(bytes, depth),
    decreases depth, bytes.len(), 1nat,
{
    if bytes.len() >= magic::HEADER_SIZE {
        lemma_deeper_look_body(
            frame_operation(bytes),
            frame_version(bytes),
            frame_body(bytes),
            depth,
        );
        let here = decode_body(
            frame_operation(bytes),
            frame_version(bytes),
            frame_body(bytes),
            depth,
        );
        if here is Packets {
            lemma_deeper_look(bytes.skip(frame_size(bytes)), depth);
        }
    }
}

proof fn lemma_deeper_look_body(operation: Operation, version: int, body: Seq<u8>, depth: nat)
    requires
        !(decode_body(operation, version, body, depth) is Malformed),
    ensures
        decode_body(operation, version, body, depth + 1) == decode_body(
            operation,
            version,
            body,
            depth,
        ),
    decreases depth, body.len(), 0nat,
{
    if version == magic::VER_ZLIB_COMPRESSED || version == magic::VER_BROTLI_COMPRESSED {
        if let Some(inner) = inflated(version, body) {
            lemma_deeper_look(inner, (depth - 1) as nat);
        }
    }
}

/// A look as deep as one likes at frames that were read shows the same.
pub proof fn law_deeper_look_shows_the_same(bytes: Seq<u8>, depth: nat, deeper: nat)
    requires
        !(decode(bytes, depth) is Malformed),
        depth <= deeper,
    ensures
        decode(bytes, deeper) == decode(bytes, depth),
    decreases deeper - depth,
{
    if depth < deeper {
        lemma_deeper_look(bytes, depth);
        law_deeper_look_shows_the_same(bytes, depth + 1, deeper);
    }
}

/// Every depth at which bytes are frames gives the same packets, or the same failure.
pub proof fn law_depth_does_not_matter(bytes: Seq<u8>, depth: nat)
    requires
        !(decode(bytes, depth) is Malformed),
    ensures
        decoded(bytes) == decode(bytes, depth),
{
    let enough = enough_depth(bytes);
    if depth <= enough {
        law_deeper_look_shows_the_same(bytes, depth, enough);
    } else {
        law_deeper_look_shows_the_same(bytes, enough, depth);
    }
}

proof fn lemma_preceded_by_nothing(outcome: Decoded)
    ensures
        outcome.preceded_by(Seq::empty()) == outcome,
{
    if let Decoded::Packets(packets) = outcome {
        assert(Seq::empty() + packets =~= packets);
    }
}

proof fn lemma_preceded_by_twice(outcome: Decoded, first: Seq<Content>, second: Seq<Content>)
    ensures
        outcome.preceded_by(second).preceded_by(first) == outcome.preceded_by(first + second),
{
    if let Decoded::Packets(packets) = outcome {
        assert(first + (second + packets) =~= (first + second) + packets);
    }
}

proof fn lemma_contents_push(packets: Seq<Packet>, packet: Packet)
    ensures
        contents(packets.push(packet)) == contents(packets) + seq![packet@],
{
    assert(contents(packets.push(packet)) =~= contents(packets) + seq![packet@]);
}

proof fn lemma_contents_append(first: Seq<Packet>, second: Seq<Packet>)
    ensures
        contents(first + second) == contents(first) + contents(second),
{
    assert(contents(first + second) =~= contents(first) + contents(second));
}

} // verus!
