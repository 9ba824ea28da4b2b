//! The packets of a live room: what they say, and how they travel in websocket messages.
use crate::json;
use crate::text;
use vstd::prelude::*;

pub mod calls;
pub mod frames;
pub mod laws;
pub mod magic;
pub mod message;

pub use magic::KnownOperation;
pub use message::{CloseFrame, WsMessage};

verus! {

/// What can go wrong while packets are read.
#[derive(Debug)]
pub enum ParseError {
    /// A websocket message of a kind that carries no packets; it is kept as text.
    WsTypeNotSupported(String),
    /// A compressed body that does not decompress, or a number that is cut short.
    IO(std::io::Error),
    /// A body that is no UTF-8.
    Encoding(std::string::FromUtf8Error),
}

impl ParseError {
    /// Whether `text` tells the error.
    pub open spec fn told_by(self, text: Seq<char>) -> bool {
        match self {
            ParseError::WsTypeNotSupported(message) => text
                == "Websocket packet type not supported: "@ + message@,
            ParseError::IO(e) => exists|detail: String|
                text == "IO error while parsing: "@ + detail@
                    && #[trigger] vstd::string::to_string_from_display_ensures(&e, detail),
            ParseError::Encoding(e) => exists|detail: String|
                text == "Encoding error: "@ + detail@
                    && #[trigger] vstd::string::to_string_from_display_ensures(&e, detail),
        }
    }

    /// The bytes that are no UTF-8, where that is the error.
    pub fn refused_bytes(&self) -> (bytes: Option<&[u8]>)
        ensures
            match self {
                ParseError::Encoding(e) => bytes matches Some(b) && call_ensures(
                    std::string::FromUtf8Error::as_bytes,
                    (e,),
                    b,
                ),
                _ => bytes is None,
            },
    {
        match self {
            ParseError::Encoding(e) => Some(e.as_bytes()),
            _ => None,
        }
    }

    /// The error as text. What the error inside is called is up to its own `to_string`.
    pub fn to_string(&self) -> (text: String)
        ensures
            self.told_by(text@),
    {
        match self {
            ParseError::WsTypeNotSupported(message) => {
                let mut text = "Websocket packet type not supported: ".to_owned();
                text.append(message.as_str());
                text
            },
            ParseError::IO(e) => {
                let mut text = "IO error while parsing: ".to_owned();
                let detail = e.to_string();
                text.append(detail.as_str());
                text
            },
            ParseError::Encoding(e) => {
                let mut text = "Encoding error: ".to_owned();
                let detail = e.to_string();
                text.append(detail.as_str());
                text
            },
        }
    }
}

impl vstd::std_specs::convert::FromSpecImpl<std::io::Error> for ParseError {
    open spec fn obeys_from_spec() -> bool {
        true
    }

    open spec fn from_spec(error: std::io::Error) -> ParseError {
        ParseError::IO(error)
    }
}

impl From<std::io::Error> for ParseError {
    fn from(error: std::io::Error) -> (converted: ParseError) {
        ParseError::IO(error)
    }
}

impl vstd::std_specs::convert::FromSpecImpl<std::string::FromUtf8Error> for ParseError {
    open spec fn obeys_from_spec() -> bool {
        true
    }

    open spec fn from_spec(error: std::string::FromUtf8Error) -> ParseError {
        ParseError::Encoding(error)
    }
}

impl From<std::string::FromUtf8Error> for ParseError {
    fn from(error: std::string::FromUtf8Error) -> (converted: ParseError) {
        ParseError::Encoding(error)
    }
}

/// The operation of a packet.
#[derive(Debug, Clone, Copy, PartialEq, Eq, Structural, Hash)]
pub enum Operation {
    Known(magic::KnownOperation),
    Unknown(u32),
}

/// The operation that a number stands for.
pub open spec fn operation_of(code: u32) -> Operation {
    match magic::known_operation(code) {
        Some(known) => Operation::Known(known),
        None => Operation::Unknown(code),
    }
}

impl Operation {
    /// The number that stands for the operation in a frame.
    pub open spec fn code(self) -> u32 {
        match self {
            Operation::Known(known) => known.code(),
            Operation::Unknown(code) => code,
        }
    }

    /// The operation as text.
    pub open spec fn spelling(self) -> Seq<char> {
        match self {
            Operation::Known(known) => known.spelling(),
            Operation::Unknown(code) => "Unknown("@ + text::decimal(code as nat) + ")"@,
        }
    }

    /// The operation as text: its name, or its number where it has none.
    pub fn to_string(&self) -> (text: String)
        ensures
            text@ == self.spelling(),
    {
        match self {
            Operation::Known(known) => known.name().to_owned(),
            Operation::Unknown(code) => {
                let mut text = "Unknown(".to_owned();
                let number = text::decimal_text(*code as u64);
                text.append(number.as_str());
                text.append(")");
                text
            },
        }
    }

    /// The operation that is written like this, by its name or by its number.
    pub fn from_name(name: &str) -> (operation: Option<Operation>)
        ensures
            operation == operation_spelled(name@),
    {
        if let Some(known) = KnownOperation::from_name(name) {
            proof {
                laws::law_spelling_reads_back(Operation::Known(known));
            }
            return Some(Operation::Known(known));
        }
        let len: usize = name.unicode_len();
        if len > 9 {
            let number = text::parse_i64(name.substring_char(8, len - 1));
            if let Some(number) = number {
                if 0 <= number && number <= u32::MAX as i64 {
                    let operation = Operation::Unknown(number as u32);
                    if operation.to_string() == name.to_owned() {
                        proof {
                            laws::law_spelling_reads_back(operation);
                        }
                        return Some(operation);
                    }
                }
            }
        }
        assert forall|operation: Operation| #[trigger] operation.spelling() != name@ by {
            match operation {
                Operation::Known(known) => {
                    magic::law_name_reads_back(known);
                },
                Operation::Unknown(code) => {
                    laws::lemma_number_in_spelling(code);
                    text::lemma_decimal_value(code as nat);
                    if operation.spelling() == name@ {
                        let number = name@.subrange(8, name@.len() - 1);
                        assert(text::is_digit(number[0]));
                        assert(text::signed_value(number) == Some(code as int));
                    }
                },
            }
        }
        None
    }
}

/// The operation that is written like this, if one is.
pub open spec fn operation_spelled(text: Seq<char>) -> Option<Operation> {
    if exists|operation: Operation| #[trigger] operation.spelling() == text {
        Some(choose|operation: Operation| #[trigger] operation.spelling() == text)
    } else {
        None
    }
}

impl vstd::std_specs::convert::FromSpecImpl<Operation> for u32 {
    open spec fn obeys_from_spec() -> bool {
        true
    }

    open spec fn from_spec(operation: Operation) -> u32 {
        operation.code()
    }
}

impl From<Operation> for u32 {
    fn from(operation: Operation) -> (code: u32) {
        match operation {
            Operation::Known(known) => known.repr(),
            Operation::Unknown(code) => code,
        }
    }
}

impl vstd::std_specs::convert::FromSpecImpl<u32> for Operation {
    open spec fn obeys_from_spec() -> bool {
        true
    }

    open spec fn from_spec(code: u32) -> Operation {
        operation_of(code)
    }
}

impl From<u32> for Operation {
    fn from(code: u32) -> (operation: Operation) {
        match KnownOperation::from_repr(code) {
            Some(known) => Operation::Known(known),
            None => Operation::Unknown(code),
        }
    }
}

/// A moment, with the distance of the local clock from UTC.
#[derive(Debug, Clone, Copy, PartialEq, Eq, Structural)]
pub struct Timestamp {
    /// Whole seconds since 1970 began in UTC.
    pub seconds: i64,
    /// Nanoseconds on top of them; in a leap second they go past one second.
    pub nanos: u32,
    /// How many seconds the local clock is ahead of UTC.
    pub utc_offset: i32,
}

impl Timestamp {
    /// Whether the nanoseconds stay below two seconds, and the distance from UTC below a day.
    pub open spec fn in_range(self) -> bool {
        &&& self.nanos < 2_000_000_000
        &&& -86_400 < self.utc_offset < 86_400
    }

    /// Whether the clock was read and showed this.
    pub closed spec fn off_the_clock(self) -> bool {
        call_ensures(local_time, (), self)
    }
}

/// Calls `chrono::Local::now`. Of the moment itself nothing is stated, only the range of its
/// parts.
#[verifier::external_body]
fn local_time() -> (time: Timestamp)
    ensures
        time.in_range(),
{
    let time = chrono::Local::now();
    Timestamp {
        seconds: time.timestamp(),
        nanos: time.timestamp_subsec_nanos(),
        utc_offset: time.offset().local_minus_utc(),
    }
}

/// Reads the clock.
pub(crate) fn now() -> (time: Timestamp)
    ensures
        time.in_range(),
        time.off_the_clock(),
{
    let time = local_time();
    assert(call_ensures(local_time, (), time));
    time
}

/// What a packet says, whenever and wherever it came in.
pub struct Content {
    pub operation: Operation,
    pub body: Seq<char>,
}

/// A packet, hardly interpreted.
#[derive(Debug)]
pub struct Packet {
    /// The operation, mostly [`KnownOperation::SendMsgReply`].
    pub operation: Operation,
    /// The data, mostly JSON. It is not looked into here.
    pub body: String,
    /// When the packet came in or was made.
    pub time: Timestamp,
    /// The room the packet came from.
    pub room_id: u64,
}

impl View for Packet {
    type V = Content;

    open spec fn view(&self) -> Content {
        Content { operation: self.operation, body: self.body@ }
    }
}

impl Clone for Packet {
    fn clone(&self) -> (copy: Packet)
        ensures
            copy == *self,
    {
        Packet {
            operation: self.operation,
            body: self.body.clone(),
            time: self.time,
            room_id: self.room_id,
        }
    }
}

/// What the body of an auth packet says.
pub open spec fn auth_members(
    room_id: u64,
    token: Seq<char>,
    uid: i64,
) -> Map<Seq<char>, json::JsonTree> {
    Map::empty().insert("uid"@, json::JsonTree::Integer(uid as int)).insert(
        "roomid"@,
        json::JsonTree::Integer(room_id as int),
    ).insert("protover"@, json::JsonTree::Integer(3)).insert(
        "platform"@,
        json::JsonTree::Text("android"@),
    ).insert("type"@, json::JsonTree::Integer(2)).insert("key"@, json::JsonTree::Text(token))
}

impl Packet {
    /// Makes the packet that opens a connection to a room.
    pub fn auth(room_id: u64, token: &str, uid: i64) -> (packet: Packet)
        ensures
            packet.operation == Operation::Known(KnownOperation::Auth),
            packet.room_id == room_id,
            packet.time.in_range(),
            packet.time.off_the_clock(),
            packet.body@ == json::object_written(auth_members(room_id, token@, uid)),
            json::json_parsed(packet.body@) == Some(
                json::JsonTree::Object(auth_members(room_id, token@, uid)),
            ),
    {
        let mut payload = json::new_object();
        json::insert_member(&mut payload, "uid", json::integer_value(uid));
        json::insert_member(&mut payload, "roomid", json::unsigned_value(room_id));
        json::insert_member(&mut payload, "protover", json::unsigned_value(3));
        json::insert_member(&mut payload, "platform", json::text_value("android"));
        json::insert_member(&mut payload, "type", json::unsigned_value(2));
        json::insert_member(&mut payload, "key", json::text_value(token));
        let body = json::object_text(&payload);
        Packet {
            operation: Operation::Known(KnownOperation::Auth),
            body,
            time: now(),
            room_id,
        }
    }

    /// Makes the packet that keeps a connection open.
    pub fn heartbeat() -> (packet: Packet)
        ensures
            packet.operation == Operation::Known(KnownOperation::Heartbeat),
            packet.body@ == "{}"@,
            packet.room_id == 0,
            packet.time.in_range(),
            packet.time.off_the_clock(),
    {
        Packet {
            operation: Operation::Known(KnownOperation::Heartbeat),
            body: "{}".to_owned(),
            time: now(),
            room_id: 0,
        }
    }
}

/// A time off the clock is what the clock call returned.
proof fn law_time_is_what_the_clock_showed(time: Timestamp)
    requires
        time.off_the_clock(),
    ensures
        call_ensures(local_time, (), time),
        time.nanos < 2_000_000_000,
        -86_400 < time.utc_offset < 86_400,
{
}

} // verus!
