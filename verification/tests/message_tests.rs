use async_chat::message::{Cmd, InfoKind, MsgType, ParsedMsg, SerializedMessage, MAX_MSG_LEN};

#[test]
fn text_test() {
    let s = "Hello, World!".to_owned();
    let msg = SerializedMessage::from_string(&s);
    let parsed = ParsedMsg::from_bytes(msg.as_bytes()).unwrap();
    match parsed {
        ParsedMsg::UserCount(_) => assert!(false),
        ParsedMsg::Text(txt) => assert_eq!(txt, s),
        ParsedMsg::Command(_) => assert!(false),
        ParsedMsg::Info(_) => assert!(false),
        ParsedMsg::Help(_) => assert!(false),
    };
}

#[test]
fn num_test() {
    let n = 11u32;
    let msg = SerializedMessage::from_user_count(n);
    let parsed = ParsedMsg::from_bytes(msg.as_bytes()).unwrap();
    match parsed {
        ParsedMsg::UserCount(m) => assert_eq!(n, m),
        ParsedMsg::Text(_) => assert!(false),
        ParsedMsg::Command(_) => assert!(false),
        ParsedMsg::Info(_) => assert!(false),
        ParsedMsg::Help(_) => assert!(false),
    };
}

#[test]
fn cmd_test() {
    let msg = SerializedMessage::from_string("/count");
    let parsed = ParsedMsg::from_bytes(msg.as_bytes()).unwrap();
    match parsed {
        ParsedMsg::UserCount(_) => assert!(false),
        ParsedMsg::Text(_) => assert!(false),
        ParsedMsg::Command(cmd) => assert_eq!(cmd, Cmd::UserCount),
        ParsedMsg::Info(_) => assert!(false),
        ParsedMsg::Help(_) => assert!(false),
    };
}

#[test]
fn frame_layout_exact() {
    let msg = SerializedMessage::from_string("hi");
    // total_size = 5 + 2 big-endian, msg_type 0, then the payload bytes.
    assert_eq!(msg.as_bytes(), &[0, 0, 0, 7, 0, b'h', b'i']);

    let msg = SerializedMessage::from_user_count(0x01020304);
    assert_eq!(msg.as_bytes(), &[0, 0, 0, 9, 1, 1, 2, 3, 4]);

    let msg = SerializedMessage::from_help_string("a");
    assert_eq!(msg.as_bytes(), &[0, 0, 0, 6, 2, b'a']);
}

#[test]
fn header_sizes() {
    assert_eq!(SerializedMessage::size_of_len(), 4);
    assert_eq!(SerializedMessage::size_of_header(), 5);
    assert_eq!(MAX_MSG_LEN, 5120);
}

#[test]
fn help_round_trip() {
    let s = "usage: just type";
    let msg = SerializedMessage::from_help_string(s);
    assert_eq!(
        ParsedMsg::from_bytes(msg.as_bytes()),
        Some(ParsedMsg::Help(s.to_owned()))
    );
}

#[test]
fn unicode_text_round_trip() {
    let s = "héllo wörld \u{1F600}";
    let msg = SerializedMessage::from_string(s);
    assert_eq!(
        ParsedMsg::from_bytes(msg.as_bytes()),
        Some(ParsedMsg::Text(s.to_owned()))
    );
}

#[test]
fn user_count_bounds_round_trip() {
    for n in [0u32, 1, 99, u32::MAX] {
        let msg = SerializedMessage::from_user_count(n);
        assert_eq!(
            ParsedMsg::from_bytes(msg.as_bytes()),
            Some(ParsedMsg::UserCount(n))
        );
    }
}

#[test]
fn generic_constructor_types() {
    let t = SerializedMessage::from_string_generic("x", MsgType::Text);
    assert_eq!(t.as_bytes()[4], 0);
    let h = SerializedMessage::from_string_generic("x", MsgType::Help);
    assert_eq!(h.as_bytes()[4], 2);
}

#[test]
fn msg_type_bytes() {
    assert_eq!(MsgType::from_byte(0), Some(MsgType::Text));
    assert_eq!(MsgType::from_byte(1), Some(MsgType::UserCount));
    assert_eq!(MsgType::from_byte(2), Some(MsgType::Help));
    assert_eq!(MsgType::from_byte(3), None);
    assert_eq!(MsgType::from_byte(255), None);
    assert_eq!(MsgType::size(), 1);
}

#[test]
fn command_with_trailing_whitespace() {
    // Trailing whitespace, ASCII and Unicode alike, is trimmed before the
    // command strings are recognised.
    let msg = SerializedMessage::from_string("/count \t\r\n");
    assert_eq!(
        ParsedMsg::from_bytes(msg.as_bytes()),
        Some(ParsedMsg::Command(Cmd::UserCount))
    );
    let msg = SerializedMessage::from_string("/help\u{a0}\u{3000}");
    assert_eq!(
        ParsedMsg::from_bytes(msg.as_bytes()),
        Some(ParsedMsg::Command(Cmd::Help))
    );
}

#[test]
fn near_commands_stay_text() {
    // Leading whitespace or extra words keep a payload a plain text.
    for s in ["/count extra", " /count", "/counts", "/hel", "x/help"] {
        let msg = SerializedMessage::from_string(s);
        assert_eq!(
            ParsedMsg::from_bytes(msg.as_bytes()),
            Some(ParsedMsg::Text(s.to_owned()))
        );
    }
}

#[test]
fn decode_rejects_short_input() {
    assert_eq!(ParsedMsg::from_bytes(&[]), None);
    assert_eq!(ParsedMsg::from_bytes(&[0, 0, 0, 5]), None);
}

#[test]
fn decode_rejects_reserved_type() {
    assert_eq!(ParsedMsg::from_bytes(&[0, 0, 0, 5, 3]), None);
    assert_eq!(ParsedMsg::from_bytes(&[0, 0, 0, 6, 9, 42]), None);
}

#[test]
fn decode_rejects_wrong_user_count_payload() {
    // A user-count payload must be exactly four bytes.
    assert_eq!(ParsedMsg::from_bytes(&[0, 0, 0, 8, 1, 0, 0, 7]), None);
    assert_eq!(ParsedMsg::from_bytes(&[0, 0, 0, 10, 1, 0, 0, 0, 7, 7]), None);
    assert_eq!(ParsedMsg::from_bytes(&[0, 0, 0, 5, 1]), None);
}

#[test]
fn decode_invalid_utf8_is_lossy() {
    // Invalid UTF-8 in a text payload is replaced, never a failure.
    let parsed = ParsedMsg::from_bytes(&[0, 0, 0, 7, 0, 0xff, b'a']);
    assert_eq!(parsed, Some(ParsedMsg::Text("\u{fffd}a".to_owned())));
}

#[test]
fn decode_ignores_length_field() {
    // The parser takes the slice it is given; byte 4 selects the type.
    let parsed = ParsedMsg::from_bytes(&[9, 9, 9, 9, 0, b'o', b'k']);
    assert_eq!(parsed, Some(ParsedMsg::Text("ok".to_owned())));
}

#[test]
fn from_info_wraps_kind() {
    assert_eq!(
        ParsedMsg::from_info(InfoKind::MessageTooLong),
        ParsedMsg::Info(InfoKind::MessageTooLong)
    );
    assert_eq!(
        ParsedMsg::from_info(InfoKind::ServerFull),
        ParsedMsg::Info(InfoKind::ServerFull)
    );
}
