//! Watching and running live rooms: the packets of a room's websocket, what is done about
//! them, and the requests around a room.
//!
//! * [`ws_protocol`]: packets, the frames that carry them, and the laws of the two.
//! * [`event`]: what is done about a packet.
//! * [`cookie`], [`room`] and [`model`]: what the requests about a room say.
//! * [`json`], [`text`] and [`wire`]: JSON values, text and bytes.
pub mod cookie;
pub mod event;
pub mod json;
pub mod model;
pub mod room;
pub mod text;
pub mod wire;
pub mod ws_protocol;
