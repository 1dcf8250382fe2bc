use tupi_voice::clock::{has_aged, Clock, UtcTime};
use tupi_voice::ident::{parse_uuid, uuid_to_string, MUSIC_BOT_ID};
use tupi_voice::protocol::{default_protocol_version, OutboundEnvelope, Payload, ENVELOPE_VERSION};
use tupi_voice::text::{
    byte_len, decimal_text, is_blank, is_http_url, same_ignoring_case, signed_decimal_text, str_before,
};
use tupi_voice::voice::TrackSource;

#[test]
fn identifiers_are_written_in_hyphenated_form() {
    assert_eq!(uuid_to_string(MUSIC_BOT_ID), "00000000-0000-0000-0000-000000000001");
    assert_eq!(
        uuid_to_string(0x6f0c2f8c_8e40_4a3e_9d2f_1c0a1b2c3d4e),
        "6f0c2f8c-8e40-4a3e-9d2f-1c0a1b2c3d4e"
    );
}

#[test]
fn identifiers_are_read_back() {
    let id: u128 = 0x6f0c2f8c_8e40_4a3e_9d2f_1c0a1b2c3d4e;
    assert_eq!(parse_uuid(&uuid_to_string(id)), Some(id));
    assert_eq!(parse_uuid("6F0C2F8C8E404A3E9D2F1C0A1B2C3D4E"), Some(id));
    assert_eq!(parse_uuid("bot"), None);
    assert_eq!(parse_uuid(""), None);
}

#[test]
fn moments_are_written_in_rfc3339() {
    let t = UtcTime { secs: 1_431_648_000, nanos: 0 };
    assert_eq!(t.to_rfc3339().unwrap(), "2015-05-15T00:00:00+00:00");
    let t = UtcTime { secs: 0, nanos: 500_000_000 };
    assert_eq!(t.to_rfc3339().unwrap(), "1970-01-01T00:00:00.500+00:00");
    assert!(UtcTime { secs: i64::MAX, nanos: 0 }.to_rfc3339().is_none());
}

#[test]
fn the_clocks_do_not_run_backwards() {
    let clock = Clock::start();
    let a = clock.read();
    let b = clock.read();
    assert!(a.mono >= 0);
    assert!(b.mono >= a.mono);
    assert!(a.utc.secs > 1_600_000_000);
    assert!(a.utc.nanos < 1_000_000_000);
    assert!(UtcTime::now().secs >= a.utc.secs);
}

#[test]
fn age_is_counted_without_overflow() {
    assert!(has_aged(10, 0, 10));
    assert!(!has_aged(9, 0, 10));
    assert!(has_aged(i128::MAX, i128::MIN, 10));
    assert!(!has_aged(i128::MIN, i128::MAX, 10));
}

#[test]
fn an_absent_dialect_is_the_first() {
    assert_eq!(default_protocol_version(), 1);
}

#[test]
fn every_envelope_has_the_same_version() {
    let m = OutboundEnvelope::error("bad_request", "no", Some("r1"));
    assert_eq!(m.v, ENVELOPE_VERSION);
    assert_eq!(m.v, 1);
    assert_eq!(m.op, "error");
    match m.data {
        Payload::Error(e) => {
            assert_eq!(e.code, "bad_request");
            assert_eq!(e.message, "no");
            assert_eq!(e.in_reply_to.as_deref(), Some("r1"));
        }
        _ => panic!("not an error"),
    }
}

#[test]
fn only_web_addresses_are_web_addresses() {
    assert!(is_http_url("https://tupi.example/x"));
    assert!(is_http_url("http://tupi.example"));
    assert!(!is_http_url("ftp://tupi.example"));
    assert!(!is_http_url("HTTP://tupi.example"));
    assert!(!is_http_url(""));
}

#[test]
fn blank_is_what_trimming_leaves_empty() {
    for s in ["", " ", "\t\r\n", "\u{00a0}\u{3000}\u{2003}", "\u{200b}", "x", "  x  ", "\u{feff}"] {
        assert_eq!(is_blank(s), s.trim().is_empty(), "{s:?}");
    }
    for code in 0u32..0x11_0000 {
        if let Some(c) = char::from_u32(code) {
            if c.is_whitespace() {
                assert!(is_blank(&c.to_string()), "{code:x}");
            }
        }
    }
    for code in (0u32..0x3100).chain(0xfe00..0x1_0000) {
        if let Some(c) = char::from_u32(code) {
            assert_eq!(is_blank(&c.to_string()), c.is_whitespace(), "{code:x}");
        }
    }
}

#[test]
fn lengths_are_counted_in_bytes() {
    assert_eq!(byte_len("abc"), 3);
    assert_eq!(byte_len("é"), 2);
    assert_eq!(byte_len(""), 0);
}

#[test]
fn numbers_are_written_in_base_ten() {
    for n in [0i64, 7, 10, 99, 1_700_000_000, -1, -60, i64::MAX, i64::MIN] {
        assert_eq!(signed_decimal_text(n), n.to_string());
    }
    assert_eq!(decimal_text(u64::MAX), u64::MAX.to_string());
}

#[test]
fn strings_are_ordered_as_std_orders_them() {
    let words = ["", "a", "aa", "ab", "b", "TR_1", "TR_10", "TR_2", "é", "z", "\u{1f600}"];
    for a in words {
        for b in words {
            assert_eq!(str_before(a, b), a < b, "{a} {b}");
        }
    }
    assert!(same_ignoring_case("CaMeRa", "camera"));
    assert!(!same_ignoring_case("CAMÉRA", "camera"));
}

#[test]
fn sources_are_read_whatever_their_case() {
    assert_eq!(TrackSource::parse("SCREEN_SHARE"), Some(TrackSource::ScreenShare));
    assert_eq!(TrackSource::parse("microphone"), Some(TrackSource::Microphone));
    assert_eq!(TrackSource::parse("Camera"), Some(TrackSource::Camera));
    assert_eq!(TrackSource::parse("screen_share_audio"), Some(TrackSource::ScreenShareAudio));
    assert_eq!(TrackSource::parse("unknown"), None);
    assert_eq!(TrackSource::parse("music"), None);
    assert_eq!(TrackSource::Music.as_wire(), "music");
}
