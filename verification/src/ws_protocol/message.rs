//! Websocket messages as plain data.
use crate::text;
use tokio_tungstenite::tungstenite::protocol::frame::{Frame, FrameHeader};
use tokio_tungstenite::tungstenite::protocol::CloseFrame as OutsideCloseFrame;
use tokio_tungstenite::tungstenite::Message;
use vstd::prelude::*;
use vstd::utf8::*;

verus! {

/// Why a connection is closed.
#[derive(Debug)]
pub struct CloseFrame {
    pub code: u16,
    pub reason: String,
}

/// A websocket message.
#[derive(Debug)]
pub enum WsMessage {
    Text(String),
    Binary(Vec<u8>),
    Ping(Vec<u8>),
    Pong(Vec<u8>),
    Close(Option<CloseFrame>),
    /// A frame that was not put together into a message.
    Frame { mask: Option<[u8; 4]>, payload: Vec<u8> },
}

/// How long the header of a frame is.
pub open spec fn frame_header_len(masked: bool, payload: nat) -> nat {
    let length_field: nat = if payload < 126 {
        0
    } else if payload < 0x1_0000 {
        2
    } else {
        8
    };
    2 + length_field + if masked {
        4nat
    } else {
        0nat
    }
}

/// Bytes as text, where they are UTF-8; otherwise only a length is told.
pub open spec fn data_text(data: Seq<u8>, length: nat) -> Seq<char> {
    if valid_utf8(data) {
        decode_utf8(data)
    } else {
        "Binary Data<length="@ + text::decimal(length) + ">"@
    }
}

impl WsMessage {
    /// The message as text.
    pub open spec fn displayed(self) -> Seq<char> {
        match self {
            WsMessage::Text(text) => text@,
            WsMessage::Binary(data) => data_text(data@, data@.len()),
            WsMessage::Ping(data) => data_text(data@, data@.len()),
            WsMessage::Pong(data) => data_text(data@, data@.len()),
            WsMessage::Close(None) => Seq::empty(),
            WsMessage::Close(Some(frame)) => frame.reason@,
            WsMessage::Frame { mask, payload } => data_text(
                payload@,
                frame_header_len(mask is Some, payload@.len()) + payload@.len(),
            ),
        }
    }
}

/// Calls `to_string` on the `tungstenite::Message` that is the same message: its text, or
/// its bytes as text where they are UTF-8, and otherwise `Binary Data` with a length, in
/// which a frame counts its header.
#[verifier::external_body]
pub(crate) fn message_text(message: WsMessage) -> (text: String)
    ensures
        text@ == message.displayed(),
{
    match message {
        WsMessage::Text(text) => Message::Text(text.into()),
        WsMessage::Binary(data) => Message::Binary(data.into()),
        WsMessage::Ping(data) => Message::Ping(data.into()),
        WsMessage::Pong(data) => Message::Pong(data.into()),
        WsMessage::Close(None) => Message::Close(None),
        WsMessage::Close(Some(CloseFrame { code, reason })) => Message::Close(
            Some(OutsideCloseFrame { code: code.into(), reason: reason.into() }),
        ),
        WsMessage::Frame { mask, payload } => Message::Frame(
            Frame::from_payload(FrameHeader { mask, ..FrameHeader::default() }, payload.into()),
        ),
    }.to_string()
}

} // verus!
