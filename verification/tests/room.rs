use danmu::cookie::{cookie_value, csrf_token, user_id, UserIdError};
use danmu::model::{RoomDanmuInfoDataHostList, Rtmp, StartLiveReply, StartLiveReplyData};
use danmu::room::{
    danmu_info_url, socket_url, start_live_form, stop_live_form, HEARTBEAT_SECONDS,
};
use danmu::text::{
    chars_of, decimal_text, find_char, is_white_space, parse_i64, signed_decimal_text, trim,
};

#[test]
fn cookie_entries() {
    let cookie = "SESSDATA=abc%2C; bili_jct = 0f3e ;DedeUserID=12345; bili_jct=later";
    assert_eq!(cookie_value(cookie, "SESSDATA"), Some("abc%2C".to_string()));
    assert_eq!(csrf_token(cookie), Some("0f3e".to_string()));
    assert_eq!(user_id(cookie), Ok(12345));
    assert_eq!(cookie_value(cookie, "bili"), None);
    assert_eq!(cookie_value("", "x"), None);
    assert_eq!(cookie_value("", ""), None);
    assert_eq!(cookie_value("=v", ""), Some("v".to_string()));
}

#[test]
fn cookie_entries_without_a_value() {
    assert_eq!(cookie_value("bili_jct; bili_jct=x", "bili_jct"), Some("x".to_string()));
    assert_eq!(cookie_value("bili_jct", "bili_jct"), None);
    assert_eq!(cookie_value("bili_jct=", "bili_jct"), Some(String::new()));
    assert_eq!(cookie_value("bili_jct= a=b ", "bili_jct"), Some("a".to_string()));
    assert_eq!(cookie_value("名 = 值\u{3000}; x", "名"), Some("值".to_string()));
    assert_eq!(csrf_token("a=b"), None);
}

fn looked_up_with_std(cookie: &str, name: &str) -> Option<String> {
    cookie.split(';').find_map(|s| {
        let mut parts = s.split('=');
        if parts.next()?.trim() == name {
            parts.next().map(|v| v.trim().to_string())
        } else {
            None
        }
    })
}

#[test]
fn cookie_lookup_agrees_with_std() {
    let letters = ['a', '=', ';', ' '];
    for n in 0..4usize.pow(6) {
        let cookie: String = (0..6u32).map(|i| letters[n / 4usize.pow(i) % 4]).collect();
        for name in ["a", "", "aa"] {
            assert_eq!(cookie_value(&cookie, name), looked_up_with_std(&cookie, name));
        }
    }
}

#[test]
fn user_ids() {
    assert_eq!(user_id("x=1"), Err(UserIdError::Missing));
    assert_eq!(user_id("DedeUserID=abc"), Err(UserIdError::NotANumber));
    assert_eq!(user_id("DedeUserID="), Err(UserIdError::NotANumber));
    assert_eq!(user_id("DedeUserID=9223372036854775808"), Err(UserIdError::NotANumber));
    assert_eq!(user_id("DedeUserID= -42 "), Ok(-42));
}

#[test]
fn numbers_agree_with_std() {
    for text in [
        "", "+", "-", "0", "-0", "+0", "007", "+12", "-12", "--1", "1-", "1 ", "٣", "1_000",
        "9223372036854775807", "9223372036854775808", "-9223372036854775808",
        "-9223372036854775809", "+9223372036854775807",
        "0000000000000000000000000000000000000000000000000000000000000000000000000000005",
        "99999999999999999999999999999999999999999999999999999999999999999999999999999999",
    ] {
        assert_eq!(parse_i64(text), text.parse::<i64>().ok(), "{}", text);
    }
    for n in [0, 1, 9, 10, 99, 100, 12345, u32::MAX as u64, u64::MAX] {
        assert_eq!(decimal_text(n), n.to_string());
    }
    for n in [0, -1, 7, -10, i64::MAX, i64::MIN] {
        assert_eq!(signed_decimal_text(n), n.to_string());
        assert_eq!(parse_i64(&signed_decimal_text(n)), Some(n));
    }
}

#[test]
fn white_space_agrees_with_std() {
    for c in '\0'..=char::MAX {
        assert_eq!(is_white_space(c), c.is_whitespace(), "{:?}", c);
    }
}

#[test]
fn trimming_and_finding() {
    for text in ["", " ", "a", " a ", "\t a b\u{85}\n", "\u{3000}值 ", "a\u{200b}"] {
        assert_eq!(trim(text), text.trim());
    }
    assert_eq!(find_char("值=b=", '='), 1);
    assert_eq!(find_char("abc", '='), 3);
    assert_eq!(chars_of("a值"), vec!['a', '值']);
}

#[test]
fn forms() {
    assert_eq!(
        start_live_form(123, "tok"),
        "room_id=123&area_v2=372&platform=android_link&csrf=tok"
    );
    assert_eq!(stop_live_form(u64::MAX, "tok"), "room_id=18446744073709551615&csrf=tok");
}

#[test]
fn addresses() {
    assert_eq!(
        danmu_info_url(5),
        "https://api.live.bilibili.com/xlive/web-room/v1/index/getDanmuInfo?id=5"
    );
    let server = |host: &str, ws_port| RoomDanmuInfoDataHostList {
        host: host.to_string(),
        port: 1,
        wss_port: 2,
        ws_port,
    };
    let servers = vec![server("a", 10), server("b", 20), server("c.example", 2244), server("d", 40)];
    assert_eq!(socket_url(&servers), "ws://c.example:2244/sub");
    let servers = vec![server("a", 10), server("b", 20), server("c", -1)];
    assert_eq!(socket_url(&servers), "ws://c:-1/sub");
    assert_eq!(HEARTBEAT_SECONDS, 30);
}

#[test]
fn stream_address() {
    let reply = StartLiveReply {
        code: 0,
        message: String::new(),
        data: StartLiveReplyData {
            rtmp: Rtmp { addr: "rtmp://live/".to_string(), code: "?key=1".to_string() },
        },
    };
    assert_eq!(reply.data.rtmp.address(), "rtmp://live/?key=1");
}
