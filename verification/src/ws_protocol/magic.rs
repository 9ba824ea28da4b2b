//! The numbers of the frame format.
use vstd::prelude::*;

verus! {

/// A frame starts with this many bytes, all numbers big-endian:
///
/// | size  | head size | version | operation | sequence id |
/// |-------|-----------|---------|-----------|-------------|
/// | `u32` | `u16`     | `u16`   | `u32`     | `u32`       |
pub const HEADER_SIZE: usize = 4 + 2 + 2 + 4 + 4;

/// The body is a zlib stream of frames.
pub const VER_ZLIB_COMPRESSED: u16 = 2;

/// The body is a brotli stream of frames.
pub const VER_BROTLI_COMPRESSED: u16 = 3;

/// The body is the message itself.
pub const VER_NORMAL: u16 = 1;

/// The operations that have a name.
#[derive(Debug, Clone, Copy, PartialEq, Eq, Structural, Hash)]
pub enum KnownOperation {
    Handshake,
    HandshakeReply,
    Heartbeat,
    HeartbeatReply,
    SendMsg,
    SendMsgReply,
    DisconnectReply,
    Auth,
    AuthReply,
    Raw,
    ProtoReady,
    ProtoFinish,
    ChangeRoom,
    ChangeRoomReply,
    Register,
    RegisterReply,
    Unregister,
    UnregisterReply,
}

/// The operation behind a number, where the number has a name.
pub open spec fn known_operation(code: u32) -> Option<KnownOperation> {
    match code {
        0 => Some(KnownOperation::Handshake),
        1 => Some(KnownOperation::HandshakeReply),
        2 => Some(KnownOperation::Heartbeat),
        3 => Some(KnownOperation::HeartbeatReply),
        4 => Some(KnownOperation::SendMsg),
        5 => Some(KnownOperation::SendMsgReply),
        6 => Some(KnownOperation::DisconnectReply),
        7 => Some(KnownOperation::Auth),
        8 => Some(KnownOperation::AuthReply),
        9 => Some(KnownOperation::Raw),
        10 => Some(KnownOperation::ProtoReady),
        11 => Some(KnownOperation::ProtoFinish),
        12 => Some(KnownOperation::ChangeRoom),
        13 => Some(KnownOperation::ChangeRoomReply),
        14 => Some(KnownOperation::Register),
        15 => Some(KnownOperation::RegisterReply),
        16 => Some(KnownOperation::Unregister),
        17 => Some(KnownOperation::UnregisterReply),
        _ => None,
    }
}

/// The operation that has a name, if one has.
pub open spec fn operation_named(name: Seq<char>) -> Option<KnownOperation> {
    if exists|known: KnownOperation| #[trigger] known.spelling() == name {
        Some(choose|known: KnownOperation| #[trigger] known.spelling() == name)
    } else {
        None
    }
}

impl KnownOperation {
    /// The number that stands for the operation in a frame.
    pub open spec fn code(self) -> u32 {
        match self {
            KnownOperation::Handshake => 0,
            KnownOperation::HandshakeReply => 1,
            KnownOperation::Heartbeat => 2,
            KnownOperation::HeartbeatReply => 3,
            KnownOperation::SendMsg => 4,
            KnownOperation::SendMsgReply => 5,
            KnownOperation::DisconnectReply => 6,
            KnownOperation::Auth => 7,
            KnownOperation::AuthReply => 8,
            KnownOperation::Raw => 9,
            KnownOperation::ProtoReady => 10,
            KnownOperation::ProtoFinish => 11,
            KnownOperation::ChangeRoom => 12,
            KnownOperation::ChangeRoomReply => 13,
            KnownOperation::Register => 14,
            KnownOperation::RegisterReply => 15,
            KnownOperation::Unregister => 16,
            KnownOperation::UnregisterReply => 17,
        }
    }

    /// The operation's name.
    pub open spec fn spelling(self) -> Seq<char> {
        match self {
            KnownOperation::Handshake => "Handshake"@,
            KnownOperation::HandshakeReply => "HandshakeReply"@,
            KnownOperation::Heartbeat => "Heartbeat"@,
            KnownOperation::HeartbeatReply => "HeartbeatReply"@,
            KnownOperation::SendMsg => "SendMsg"@,
            KnownOperation::SendMsgReply => "SendMsgReply"@,
            KnownOperation::DisconnectReply => "DisconnectReply"@,
            KnownOperation::Auth => "Auth"@,
            KnownOperation::AuthReply => "AuthReply"@,
            KnownOperation::Raw => "Raw"@,
            KnownOperation::ProtoReady => "ProtoReady"@,
            KnownOperation::ProtoFinish => "ProtoFinish"@,
            KnownOperation::ChangeRoom => "ChangeRoom"@,
            KnownOperation::ChangeRoomReply => "ChangeRoomReply"@,
            KnownOperation::Register => "Register"@,
            KnownOperation::RegisterReply => "RegisterReply"@,
            KnownOperation::Unregister => "Unregister"@,
            KnownOperation::UnregisterReply => "UnregisterReply"@,
        }
    }

    /// The number that stands for the operation in a frame.
    pub fn repr(self) -> (code: u32)
        ensures
            code == self.code(),
    {
        match self {
            KnownOperation::Handshake => 0,
            KnownOperation::HandshakeReply => 1,
            KnownOperation::Heartbeat => 2,
            KnownOperation::HeartbeatReply => 3,
            KnownOperation::SendMsg => 4,
            KnownOperation::SendMsgReply => 5,
            KnownOperation::DisconnectReply => 6,
            KnownOperation::Auth => 7,
            KnownOperation::AuthReply => 8,
            KnownOperation::Raw => 9,
            KnownOperation::ProtoReady => 10,
            KnownOperation::ProtoFinish => 11,
            KnownOperation::ChangeRoom => 12,
            KnownOperation::ChangeRoomReply => 13,
            KnownOperation::Register => 14,
            KnownOperation::RegisterReply => 15,
            KnownOperation::Unregister => 16,
            KnownOperation::UnregisterReply => 17,
        }
    }

    /// The operation behind a number, where the number has a name.
    pub fn from_repr(code: u32) -> (operation: Option<KnownOperation>)
        ensures
            operation == known_operation(code),
    {
        match code {
            0 => Some(KnownOperation::Handshake),
            1 => Some(KnownOperation::HandshakeReply),
            2 => Some(KnownOperation::Heartbeat),
            3 => Some(KnownOperation::HeartbeatReply),
            4 => Some(KnownOperation::SendMsg),
            5 => Some(KnownOperation::SendMsgReply),
            6 => Some(KnownOperation::DisconnectReply),
            7 => Some(KnownOperation::Auth),
            8 => Some(KnownOperation::AuthReply),
            9 => Some(KnownOperation::Raw),
            10 => Some(KnownOperation::ProtoReady),
            11 => Some(KnownOperation::ProtoFinish),
            12 => Some(KnownOperation::ChangeRoom),
            13 => Some(KnownOperation::ChangeRoomReply),
            14 => Some(KnownOperation::Register),
            15 => Some(KnownOperation::RegisterReply),
            16 => Some(KnownOperation::Unregister),
            17 => Some(KnownOperation::UnregisterReply),
            _ => None,
        }
    }

    /// The operation's name.
    pub fn name(self) -> (text: &'static str)
        ensures
            text@ == self.spelling(),
    {
        match self {
            KnownOperation::Handshake => "Handshake",
            KnownOperation::HandshakeReply => "HandshakeReply",
            KnownOperation::Heartbeat => "Heartbeat",
            KnownOperation::HeartbeatReply => "HeartbeatReply",
            KnownOperation::SendMsg => "SendMsg",
            KnownOperation::SendMsgReply => "SendMsgReply",
            KnownOperation::DisconnectReply => "DisconnectReply",
            KnownOperation::Auth => "Auth",
            KnownOperation::AuthReply => "AuthReply",
            KnownOperation::Raw => "Raw",
            KnownOperation::ProtoReady => "ProtoReady",
            KnownOperation::ProtoFinish => "ProtoFinish",
            KnownOperation::ChangeRoom => "ChangeRoom",
            KnownOperation::ChangeRoomReply => "ChangeRoomReply",
            KnownOperation::Register => "Register",
            KnownOperation::RegisterReply => "RegisterReply",
            KnownOperation::Unregister => "Unregister",
            KnownOperation::UnregisterReply => "UnregisterReply",
        }
    }

    /// The operation that has this name.
    pub fn from_name(name: &str) -> (operation: Option<KnownOperation>)
        ensures
            operation == operation_named(name@),
    {
        let mut code: u32 = 0;
        while code < 18
            invariant
                code <= 18,
                forall|c: u32| #![trigger known_operation(c)]
                    c < code ==> known_operation(c)->0.spelling() != name@,
            decreases 18 - code,
        {
            if let Some(known) = KnownOperation::from_repr(code) {
                if known.name().to_owned() == name.to_owned() {
                    proof {
                        law_name_reads_back(known);
                    }
                    return Some(known);
                }
            }
            code += 1;
        }
        assert forall|known: KnownOperation| known.spelling() != name@ by {
            law_known_code_reads_back(known);
        }
        None
    }
}

/// A name's number stands for the name and for no other.
pub proof fn law_known_code_reads_back(operation: KnownOperation)
    ensures
        known_operation(operation.code()) == Some(operation),
        operation.code() < 18,
{
}

/// An operation's number, from the length of its name and two of the name's letters.
pub(crate) closed spec fn code_by_shape(name: Seq<char>) -> u32 {
    if name.len() == 9 {
        if name[0] == 'A' {
            8
        } else if name[1] == 'a' {
            0
        } else {
            2
        }
    } else if name.len() == 14 {
        if name[1] == 'a' {
            1
        } else {
            3
        }
    } else if name.len() == 10 {
        if name[0] == 'P' {
            10
        } else if name[0] == 'C' {
            12
        } else {
            16
        }
    } else if name.len() == 15 {
        if name[0] == 'D' {
            6
        } else if name[0] == 'C' {
            13
        } else {
            17
        }
    } else if name.len() == 7 {
        4
    } else if name.len() == 12 {
        5
    } else if name.len() == 4 {
        7
    } else if name.len() == 3 {
        9
    } else if name.len() == 11 {
        11
    } else if name.len() == 8 {
        14
    } else {
        15
    }
}

/// The letters of the names: they tell the operations apart, and the third is no `k`.
pub(crate) proof fn lemma_letters(operation: KnownOperation)
    ensures
        code_by_shape(operation.spelling()) == operation.code(),
        operation.spelling().len() >= 3,
        operation.spelling()[2] != 'k',
{
    reveal_strlit("Handshake");
    reveal_strlit("HandshakeReply");
    reveal_strlit("Heartbeat");
    reveal_strlit("HeartbeatReply");
    reveal_strlit("SendMsg");
    reveal_strlit("SendMsgReply");
    reveal_strlit("DisconnectReply");
    reveal_strlit("Auth");
    reveal_strlit("AuthReply");
    reveal_strlit("Raw");
    reveal_strlit("ProtoReady");
    reveal_strlit("ProtoFinish");
    reveal_strlit("ChangeRoom");
    reveal_strlit("ChangeRoomReply");
    reveal_strlit("Register");
    reveal_strlit("RegisterReply");
    reveal_strlit("Unregister");
    reveal_strlit("UnregisterReply");
}

/// No two operations share a name.
pub proof fn law_names_differ(a: KnownOperation, b: KnownOperation)
    requires
        a.spelling() == b.spelling(),
    ensures
        a == b,
{
    lemma_letters(a);
    lemma_letters(b);
    law_known_code_reads_back(a);
    law_known_code_reads_back(b);
}

/// A name stands for the operation that has it.
pub proof fn law_name_reads_back(operation: KnownOperation)
    ensures
        operation_named(operation.spelling()) == Some(operation),
{
    law_names_differ(operation, operation_named(operation.spelling())->0);
}

/// The number and the name of every operation.
pub proof fn law_numbers_and_names(known: KnownOperation)
    ensures
        match known {
            KnownOperation::Handshake => known.code() == 0 && known.spelling() == "Handshake"@,
            KnownOperation::HandshakeReply => known.code() == 1 && known.spelling() == "HandshakeReply"@,
            KnownOperation::Heartbeat => known.code() == 2 && known.spelling() == "Heartbeat"@,
            KnownOperation::HeartbeatReply => known.code() == 3 && known.spelling() == "HeartbeatReply"@,
            KnownOperation::SendMsg => known.code() == 4 && known.spelling() == "SendMsg"@,
            KnownOperation::SendMsgReply => known.code() == 5 && known.spelling() == "SendMsgReply"@,
            KnownOperation::DisconnectReply => known.code() == 6 && known.spelling() == "DisconnectReply"@,
            KnownOperation::Auth => known.code() == 7 && known.spelling() == "Auth"@,
            KnownOperation::AuthReply => known.code() == 8 && known.spelling() == "AuthReply"@,
            KnownOperation::Raw => known.code() == 9 && known.spelling() == "Raw"@,
            KnownOperation::ProtoReady => known.code() == 10 && known.spelling() == "ProtoReady"@,
            KnownOperation::ProtoFinish => known.code() == 11 && known.spelling() == "ProtoFinish"@,
            KnownOperation::ChangeRoom => known.code() == 12 && known.spelling() == "ChangeRoom"@,
            KnownOperation::ChangeRoomReply => known.code() == 13 && known.spelling() == "ChangeRoomReply"@,
            KnownOperation::Register => known.code() == 14 && known.spelling() == "Register"@,
            KnownOperation::RegisterReply => known.code() == 15 && known.spelling() == "RegisterReply"@,
            KnownOperation::Unregister => known.code() == 16 && known.spelling() == "Unregister"@,
            KnownOperation::UnregisterReply => known.code() == 17 && known.spelling() == "UnregisterReply"@,
        },
{
}

/// A number has a name exactly where it is below eighteen, and the name's number is the
/// number again.
pub proof fn law_names_are_numbered_from_zero(code: u32)
    ensures
        known_operation(code) is Some <==> code < 18,
        known_operation(code) matches Some(known) ==> known.code() == code,
{
}

/// Numbers and names are given and taken as the operations have them: what is found for a
/// number or a name has it, and nothing is found only where no operation has it.
pub proof fn law_operations_are_found(
    known: KnownOperation,
    repr: u32,
    name: &'static str,
    code: u32,
    of_code: Option<KnownOperation>,
    text: &str,
    of_text: Option<KnownOperation>,
)
    requires
        call_ensures(KnownOperation::repr, (known,), repr),
        call_ensures(KnownOperation::name, (known,), name),
        call_ensures(KnownOperation::from_repr, (code,), of_code),
        call_ensures(KnownOperation::from_name, (text,), of_text),
    ensures
        repr == known.code(),
        name@ == known.spelling(),
        code == known.code() <==> of_code == Some(known),
        text@ == known.spelling() <==> of_text == Some(known),
{
    law_known_code_reads_back(known);
    law_name_reads_back(known);
}

} // verus!
