//! The requests about a room: their addresses and forms.
use crate::model::RoomDanmuInfoDataHostList;
use crate::text;
use vstd::prelude::*;

verus! {

/// Seconds between two heartbeats.
pub const HEARTBEAT_SECONDS: u64 = 30;

/// Which of the servers is used.
pub const HOST_INDEX: usize = 2;

/// The form of a request to go live.
pub open spec fn start_live_fields(room_id: u64, csrf: Seq<char>) -> Seq<char> {
    "room_id="@ + text::decimal(room_id as nat) + "&area_v2=372&platform=android_link&csrf="@
        + csrf
}

/// The form of a request to end a stream.
pub open spec fn stop_live_fields(room_id: u64, csrf: Seq<char>) -> Seq<char> {
    "room_id="@ + text::decimal(room_id as nat) + "&csrf="@ + csrf
}

/// The form of a request to go live.
pub fn start_live_form(room_id: u64, csrf: &str) -> (form: String)
    ensures
        form@ == start_live_fields(room_id, csrf@),
{
    let mut form = "room_id=".to_owned();
    let number = text::decimal_text(room_id);
    form.append(number.as_str());
    form.append("&area_v2=372&platform=android_link&csrf=");
    form.append(csrf);
    form
}

/// The form of a request to end a stream.
pub fn stop_live_form(room_id: u64, csrf: &str) -> (form: String)
    ensures
        form@ == stop_live_fields(room_id, csrf@),
{
    let mut form = "room_id=".to_owned();
    let number = text::decimal_text(room_id);
    form.append(number.as_str());
    form.append("&csrf=");
    form.append(csrf);
    form
}

/// The address that tells how a room is watched.
pub fn danmu_info_url(room_id: u64) -> (url: String)
    ensures
        url@ == "https://api.live.bilibili.com/xlive/web-room/v1/index/getDanmuInfo?id="@
            + text::decimal(room_id as nat),
{
    let mut url =
        "https://api.live.bilibili.com/xlive/web-room/v1/index/getDanmuInfo?id=".to_owned();
    let number = text::decimal_text(room_id);
    url.append(number.as_str());
    url
}

/// The address of a server's websocket.
pub open spec fn socket_address(server: RoomDanmuInfoDataHostList) -> Seq<char> {
    "ws://"@ + server.host@ + ":"@ + text::signed_decimal(server.ws_port as int) + "/sub"@
}

/// The address of the websocket through which a room is watched: that of the third server.
pub fn socket_url(servers: &Vec<RoomDanmuInfoDataHostList>) -> (url: String)
    requires
        servers@.len() > HOST_INDEX,
    ensures
        url@ == socket_address(servers@[HOST_INDEX as int]),
{
    let server = &servers[HOST_INDEX];
    let mut url = "ws://".to_owned();
    url.append(server.host.as_str());
    url.append(":");
    let port = text::signed_decimal_text(server.ws_port as i64);
    url.append(port.as_str());
    url.append("/sub");
    url
}

/// The forms name the room and repeat the token whole.
pub proof fn law_forms_name_room_and_token(room_id: u64, csrf: &str, start: String, stop: String)
    requires
        call_ensures(start_live_form, (room_id, csrf), start),
        call_ensures(stop_live_form, (room_id, csrf), stop),
    ensures
        start@ == "room_id="@ + text::decimal(room_id as nat)
            + "&area_v2=372&platform=android_link&csrf="@ + csrf@,
        stop@ == "room_id="@ + text::decimal(room_id as nat) + "&csrf="@ + csrf@,
{
}

/// The address that tells how a room is watched ends with the room's number.
pub proof fn law_info_url_names_the_room(room_id: u64, url: String)
    requires
        call_ensures(danmu_info_url, (room_id,), url),
    ensures
        url@ == "https://api.live.bilibili.com/xlive/web-room/v1/index/getDanmuInfo?id="@
            + text::decimal(room_id as nat),
{
}

/// A room is watched through the third server, at its port for plain websockets, and no
/// other server plays a part.
pub proof fn law_third_server_is_used(servers: &Vec<RoomDanmuInfoDataHostList>, url: String)
    requires
        servers@.len() > 2,
        call_ensures(socket_url, (servers,), url),
    ensures
        ({
            let host = servers@[2].host@;
            let port = servers@[2].ws_port;
            url@ == "ws://"@ + host + ":"@ + (if port < 0 {
                seq!['-'] + text::decimal((-port) as nat)
            } else {
                text::decimal(port as nat)
            }) + "/sub"@
        }),
{
}

/// A heartbeat is due every half minute.
pub proof fn law_heartbeats_are_half_a_minute_apart()
    ensures
        2 * HEARTBEAT_SECONDS == 60,
{
}

} // verus!
