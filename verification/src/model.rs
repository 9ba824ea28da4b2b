//! Replies of the site.
use vstd::prelude::*;

verus! {

/// A server that a room can be watched through.
#[derive(Debug, Clone)]
pub struct RoomDanmuInfoDataHostList {
    pub host: String,
    pub port: i32,
    pub wss_port: i32,
    pub ws_port: i32,
}

/// The reply to a request to go live.
#[derive(Debug, Clone)]
pub struct StartLiveReply {
    pub code: i32,
    pub message: String,
    pub data: StartLiveReplyData,
}

#[derive(Debug, Clone)]
pub struct StartLiveReplyData {
    pub rtmp: Rtmp,
}

/// Where a stream is sent.
#[derive(Debug, Clone)]
pub struct Rtmp {
    pub addr: String,
    pub code: String,
}

impl Rtmp {
    /// The whole address of the stream.
    pub fn address(&self) -> (address: String)
        ensures
            address@ == self.addr@ + self.code@,
    {
        let mut address = self.addr.clone();
        address.append(self.code.as_str());
        address
    }
}

/// The code of a stream stands right behind its server's address.
pub proof fn law_address_ends_with_the_code(rtmp: &Rtmp, address: String)
    requires
        call_ensures(Rtmp::address, (rtmp,), address),
    ensures
        address@ == rtmp.addr@ + rtmp.code@,
{
}

} // verus!
