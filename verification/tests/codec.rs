//! Tests of the wire codec: decoding, encoding, round trips, and the JSON
//! number validator.

use postmessage_bridge::messages::{Command, PostEvent};
use postmessage_bridge::number::JsonNumber;
use postmessage_bridge::wire::{decode_command_json, encode_command_wire, encode_event_wire};

#[test]
fn decode_toggle_tagged_object() {
    let d = decode_command_json("{\"Toggle\":null}");
    assert!(matches!(d, Some(Command::Toggle)));
}

#[test]
fn decode_toggle_bare_string() {
    let d = decode_command_json("\"Toggle\"");
    assert!(matches!(d, Some(Command::Toggle)));
}

#[test]
fn decode_print_hello() {
    let d = decode_command_json("{\"Print\":\"hello\"}");
    match d {
        Some(Command::Print(text)) => assert_eq!(text, "hello"),
        _ => panic!("expected Print"),
    }
}

#[test]
fn decode_accepts_whitespace() {
    let d = decode_command_json("  { \"Print\" :\t\"hello\" }\n");
    match d {
        Some(Command::Print(text)) => assert_eq!(text, "hello"),
        _ => panic!("expected Print"),
    }
}

#[test]
fn decode_unescapes_payload() {
    let d = decode_command_json("{\"Print\":\"a\\\"b\\\\c\\nd\\te\\rf\\/g\\bh\\fi\"}");
    match d {
        Some(Command::Print(text)) => {
            assert_eq!(text, "a\"b\\c\nd\te\rf/g\u{0008}h\u{000C}i");
        }
        _ => panic!("expected Print"),
    }
}

#[test]
fn decode_rejects_unknown_tag() {
    assert!(decode_command_json("{\"Jump\":null}").is_none());
}

#[test]
fn decode_rejects_bare_name_without_quotes() {
    assert!(decode_command_json("Toggle").is_none());
}

#[test]
fn decode_rejects_trailing_garbage() {
    assert!(decode_command_json("{\"Toggle\":null}x").is_none());
}

#[test]
fn decode_rejects_print_without_payload() {
    assert!(decode_command_json("{\"Print\":null}").is_none());
    assert!(decode_command_json("\"Print\"").is_none());
}

#[test]
fn decode_rejects_malformed_text() {
    assert!(decode_command_json("").is_none());
    assert!(decode_command_json("   ").is_none());
    assert!(decode_command_json("{").is_none());
    assert!(decode_command_json("{\"Toggle\"").is_none());
    assert!(decode_command_json("{\"Toggle\":nul}").is_none());
    assert!(decode_command_json("{\"Print\":\"unterminated}").is_none());
    assert!(decode_command_json("not json at all").is_none());
}

#[test]
fn encode_toggle_canonical() {
    let s = encode_command_wire(&Command::Toggle);
    assert_eq!(s, "{\"Toggle\":null}");
}

#[test]
fn encode_print_escapes() {
    let s = encode_command_wire(&Command::Print(String::from("a\"b\\c\nd\re\tf")));
    assert_eq!(s, "{\"Print\":\"a\\\"b\\\\c\\nd\\re\\tf\"}");
}

#[test]
fn round_trip_decode_then_encode() {
    // decoding a wire value and re-encoding reproduces a JSON-equivalent value
    let wire = " {\"Print\" : \"hel\\nlo\"} ";
    let c = decode_command_json(wire).expect("wire value must decode");
    let reencoded = encode_command_wire(&c);
    let original: serde_json::Value = serde_json::from_str(wire).unwrap();
    let again: serde_json::Value = serde_json::from_str(&reencoded).unwrap();
    assert_eq!(original, again);
}

#[test]
fn round_trip_encode_then_decode() {
    let payload = "quotes \" backslash \\ newline \n tab \t done";
    let c = Command::Print(String::from(payload));
    let wire = encode_command_wire(&c);
    match decode_command_json(&wire) {
        Some(Command::Print(text)) => assert_eq!(text, payload),
        _ => panic!("expected the same Print back"),
    }
}

#[test]
fn encode_note_escapes() {
    let e = PostEvent::Note(String::from("line1\nline2 \"quoted\""));
    assert_eq!(encode_event_wire(&e), "{\"Note\":\"line1\\nline2 \\\"quoted\\\"\"}");
}

#[test]
fn encode_measurement_splices_number_text() {
    let n = JsonNumber::new(String::from("-3.25e-2")).unwrap();
    let e = PostEvent::Measurement(n);
    assert_eq!(encode_event_wire(&e), "{\"Measurement\":-3.25e-2}");
}

#[test]
fn json_number_accepts_valid_forms() {
    for text in ["0", "-0", "7", "201.5", "-0.5", "12.75", "1e10", "2E+3", "-3.25e-2"] {
        assert!(JsonNumber::new(String::from(text)).is_some(), "rejected {text}");
    }
}

#[test]
fn json_number_rejects_invalid_forms() {
    for text in ["", "-", "01", "1.", ".5", "+1", "1e", "1e+", "abc", "1.5.2", "NaN", "inf", "1 "] {
        assert!(JsonNumber::new(String::from(text)).is_none(), "accepted {text}");
    }
}

#[test]
fn json_number_keeps_its_text() {
    let n = JsonNumber::new(String::from("201.5")).unwrap();
    assert_eq!(n.as_text(), "201.5");
}
