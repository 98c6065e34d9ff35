use rusty_snow::input::{handle_input, input_message, parse_input, translate, DeviceEvent, GamepadAxis};
use rusty_snow::protocol::StreamError;
use rusty_snow::text::{decimal_text, hex, parse_i32, parse_u16, signed_decimal_text};

fn parts(v: &[&str]) -> Vec<String> {
    v.iter().map(|x| String::from(*x)).collect()
}

#[test]
fn key_30_press_emits_once() {
    let msg = parts(&["alice", "KEY", "30", "1"]);
    let ev = parse_input(&msg).unwrap();
    assert_eq!(ev.source_identity, "alice");
    assert_eq!(ev.code, 30);
    assert_eq!(ev.state, 1);
    let out = handle_input(&msg).unwrap();
    assert_eq!(out, DeviceEvent::Button { value: 1 });
}

#[test]
fn translation_table() {
    assert_eq!(translate(17, 1), DeviceEvent::Axis { axis: GamepadAxis::Y, value: 255 });
    assert_eq!(translate(17, 0), DeviceEvent::Axis { axis: GamepadAxis::Y, value: 127 });
    assert_eq!(translate(31, 1), DeviceEvent::Axis { axis: GamepadAxis::Y, value: 0 });
    assert_eq!(translate(30, 0), DeviceEvent::Button { value: 0 });
    assert_eq!(translate(32, 0), DeviceEvent::Axis { axis: GamepadAxis::X, value: 127 });
    assert_eq!(translate(32, 1), DeviceEvent::Axis { axis: GamepadAxis::X, value: 255 });
    assert_eq!(translate(57, 1), DeviceEvent::Button { value: 1 });
    assert_eq!(translate(57, 0), DeviceEvent::Button { value: 0 });
}

#[test]
fn malformed_input_messages() {
    let bad = [
        parts(&["alice", "KEY", "30"]),
        parts(&["alice", "KEY", "30", "1", "x"]),
        parts(&["alice", "KEY", "x30", "1"]),
        parts(&["alice", "KEY", "30", "on"]),
        parts(&["alice", "KEY", "70000", "1"]),
        parts(&["alice", "KEY", "-1", "1"]),
        parts(&["alice", "KEY", "", "1"]),
        parts(&["alice", "input", "30", "1"]),
    ];
    for m in bad.iter() {
        assert!(matches!(parse_input(m), Err(StreamError::MalformedInputEvent)));
        assert_eq!(handle_input(m), Err(StreamError::MalformedInputEvent));
    }
}

#[test]
fn input_message_parts() {
    let m = input_message(&String::from("alice"), 30, 1);
    assert_eq!(m, parts(&["alice", "KEY", "30", "1"]));
    let m = input_message(&String::from("bob"), 0, -32768);
    assert_eq!(m, parts(&["bob", "KEY", "0", "-32768"]));
}

#[test]
fn input_order_is_kept() {
    let sent: Vec<(u16, i32)> = vec![(30, 1), (30, 0), (17, 1), (57, 1), (17, 0), (65535, -7)];
    let mut seen = Vec::new();
    for (code, state) in sent.iter() {
        let msg = input_message(&String::from("alice"), *code, *state);
        let ev = parse_input(&msg).unwrap();
        assert_eq!(ev.source_identity, "alice");
        seen.push((ev.code, ev.state));
    }
    assert_eq!(seen, sent);
}

#[test]
fn decimal_text_values() {
    assert_eq!(decimal_text(0), "0");
    assert_eq!(decimal_text(7), "7");
    assert_eq!(decimal_text(65535), "65535");
    assert_eq!(decimal_text(u64::MAX), "18446744073709551615");
    assert_eq!(signed_decimal_text(-2147483648), "-2147483648");
    assert_eq!(signed_decimal_text(42), "42");
}

#[test]
fn parse_like_from_str_radix() {
    assert_eq!(parse_u16("65535"), Some(65535));
    assert_eq!(parse_u16("65536"), None);
    assert_eq!(parse_u16("+12"), Some(12));
    assert_eq!(parse_u16("+"), None);
    assert_eq!(parse_u16(""), None);
    assert_eq!(parse_u16("-0"), None);
    assert_eq!(parse_u16("0000000000000000000042"), Some(42));
    assert_eq!(parse_i32("-2147483648"), Some(i32::MIN));
    assert_eq!(parse_i32("2147483647"), Some(i32::MAX));
    assert_eq!(parse_i32("2147483648"), None);
    assert_eq!(parse_i32("-2147483649"), None);
    assert_eq!(parse_i32("-"), None);
    assert_eq!(parse_i32("+-1"), None);
    assert_eq!(parse_i32("99999999999999999999"), None);
    for t in ["0", "1", "-1", "+5", "123", "-00", "٣"] {
        assert_eq!(parse_i32(t), i32::from_str_radix(t, 10).ok());
        assert_eq!(parse_u16(t), u16::from_str_radix(t, 10).ok());
    }
}

#[test]
fn hex_of_bytes() {
    assert_eq!(hex(&[]), "");
    assert_eq!(hex(&[0x00, 0x0f, 0xa5, 0xff]), "000fa5ff");
}
