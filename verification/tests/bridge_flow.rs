//! Tests of the bridge: the listener's dual-strategy decode and enqueue, the
//! one-per-tick FIFO drain, and the outbound forwarder's self-echo guard.

use postmessage_bridge::bridge::{Bridge, HostContext};
use postmessage_bridge::messages::{Command, DecodeError, HostValue, PostEvent};
use postmessage_bridge::number::JsonNumber;

fn bridged(current: u64, ancestor: Option<u64>) -> Bridge {
    Bridge::new(HostContext { current, ancestor })
}

#[test]
fn toggle_text_enqueues_exactly_one() {
    // inbound raw string {"Toggle":null}: the string strategy succeeds, the
    // native strategy fails, so exactly one command is enqueued
    let mut b = bridged(0, Some(1));
    let report = b.accept_inbound(&HostValue::Text(String::from("{\"Toggle\":null}")));
    assert!(matches!(report.text, Ok(Command::Toggle)));
    assert!(matches!(report.native, Err(DecodeError::Structure)));
    assert_eq!(b.pending(), 1);
    assert!(matches!(b.drain_one(), Some(Command::Toggle)));
    assert!(b.drain_one().is_none());
}

#[test]
fn print_text_enqueues_and_drains_unchanged() {
    let mut b = bridged(0, Some(1));
    let report = b.accept_inbound(&HostValue::Text(String::from("{\"Print\":\"hello\"}")));
    assert!(matches!(report.text, Ok(Command::Print(_))));
    assert_eq!(b.pending(), 1);
    match b.drain_one() {
        Some(Command::Print(text)) => assert_eq!(text, "hello"),
        _ => panic!("expected Print(\"hello\")"),
    }
    assert_eq!(b.pending(), 0);
}

#[test]
fn malformed_text_enqueues_nothing() {
    let mut b = bridged(0, Some(1));
    let report = b.accept_inbound(&HostValue::Text(String::from("not a wire value")));
    assert!(matches!(report.text, Err(DecodeError::Json)));
    assert!(matches!(report.native, Err(DecodeError::Structure)));
    assert_eq!(b.pending(), 0);
    assert!(b.drain_one().is_none());
}

#[test]
fn opaque_value_enqueues_nothing() {
    let mut b = bridged(0, Some(1));
    let report = b.accept_inbound(&HostValue::Opaque);
    assert!(matches!(report.text, Err(DecodeError::NotText)));
    assert!(matches!(report.native, Err(DecodeError::Structure)));
    assert_eq!(b.pending(), 0);
}

#[test]
fn native_bare_string_toggle() {
    // a host-native string "Toggle" is no JSON text, but the native strategy
    // reads it as the payload-free variant
    let mut b = bridged(0, Some(1));
    let report = b.accept_inbound(&HostValue::Text(String::from("Toggle")));
    assert!(matches!(report.text, Err(DecodeError::Json)));
    assert!(matches!(report.native, Ok(Command::Toggle)));
    assert_eq!(b.pending(), 1);
}

#[test]
fn native_tagged_null_toggle() {
    let mut b = bridged(0, Some(1));
    let report = b.accept_inbound(&HostValue::TaggedNull(String::from("Toggle")));
    assert!(matches!(report.text, Err(DecodeError::NotText)));
    assert!(matches!(report.native, Ok(Command::Toggle)));
    assert_eq!(b.pending(), 1);
}

#[test]
fn native_tagged_text_print() {
    let mut b = bridged(0, Some(1));
    let report = b.accept_inbound(&HostValue::TaggedText(String::from("Print"), String::from(
        "hi",
    )));
    assert!(matches!(report.native, Ok(Command::Print(_))));
    assert_eq!(b.pending(), 1);
    match b.drain_one() {
        Some(Command::Print(text)) => assert_eq!(text, "hi"),
        _ => panic!("expected Print(\"hi\")"),
    }
}

#[test]
fn native_unknown_tag_rejected() {
    let mut b = bridged(0, Some(1));
    let report = b.accept_inbound(&HostValue::TaggedNull(String::from("Jump")));
    assert!(matches!(report.native, Err(DecodeError::Structure)));
    assert_eq!(b.pending(), 0);
}

#[test]
fn quoted_toggle_still_single_delivery() {
    // '"Toggle"' is wire text for the string strategy, but the native
    // strategy sees a string whose characters include the quotes — only one
    // command is enqueued although both strategies always run
    let mut b = bridged(0, Some(1));
    let report = b.accept_inbound(&HostValue::Text(String::from("\"Toggle\"")));
    assert!(matches!(report.text, Ok(Command::Toggle)));
    assert!(matches!(report.native, Err(DecodeError::Structure)));
    assert_eq!(b.pending(), 1);
}

#[test]
fn drain_removes_only_the_oldest() {
    let mut b = bridged(0, Some(1));
    for payload in ["a", "b", "c"] {
        let wire = format!("{{\"Print\":\"{payload}\"}}");
        b.accept_inbound(&HostValue::Text(wire));
    }
    assert_eq!(b.pending(), 3);
    match b.drain_one() {
        Some(Command::Print(text)) => assert_eq!(text, "a"),
        _ => panic!("expected the oldest command"),
    }
    assert_eq!(b.pending(), 2);
}

#[test]
fn five_commands_one_per_tick_in_order() {
    let mut b = bridged(0, Some(1));
    for payload in ["1", "2", "3", "4", "5"] {
        let wire = format!("{{\"Print\":\"{payload}\"}}");
        b.accept_inbound(&HostValue::Text(wire));
    }
    assert_eq!(b.pending(), 5);
    let mut seen: Vec<String> = Vec::new();
    for _tick in 0..5 {
        match b.drain_one() {
            Some(Command::Print(text)) => seen.push(text),
            _ => panic!("expected exactly one command this tick"),
        }
    }
    assert_eq!(seen, vec!["1", "2", "3", "4", "5"]);
    assert!(b.drain_one().is_none());
}

#[test]
fn self_echo_guard_suppresses_send() {
    // the ancestor resolves to the current context: zero sends
    let b = bridged(7, Some(7));
    let e = PostEvent::Note(String::from("loop?"));
    assert!(b.forward(&e).is_none());
    assert!(b.forward_all(&vec![e]).is_empty());
}

#[test]
fn no_ancestor_no_send() {
    let b = bridged(7, None);
    let e = PostEvent::Note(String::from("nobody listens"));
    assert!(b.forward(&e).is_none());
}

#[test]
fn distinct_ancestor_gets_exactly_one_send() {
    let b = bridged(1, Some(2));
    let e = PostEvent::Note(String::from("hi"));
    let (target, wire) = b.forward(&e).expect("one send is owed");
    assert_eq!(target, 2);
    assert_eq!(wire, "{\"Note\":\"hi\"}");
}

#[test]
fn measurement_reaches_ancestor_as_json() {
    let b = bridged(1, Some(2));
    let n = JsonNumber::new(String::from("201.5")).unwrap();
    let (target, wire) = b.forward(&PostEvent::Measurement(n)).expect("one send is owed");
    assert_eq!(target, 2);
    assert_eq!(wire, "{\"Measurement\":201.5}");
    let value: serde_json::Value = serde_json::from_str(&wire).unwrap();
    assert_eq!(value["Measurement"], serde_json::Value::from(201.5f64));
}

#[test]
fn forward_all_keeps_order_and_count() {
    let b = bridged(1, Some(2));
    let events = vec![
        PostEvent::Note(String::from("first")),
        PostEvent::Note(String::from("second")),
    ];
    let planned = b.forward_all(&events);
    assert_eq!(planned.len(), 2);
    assert_eq!(planned[0].0, 2);
    assert_eq!(planned[0].1, "{\"Note\":\"first\"}");
    assert_eq!(planned[1].0, 2);
    assert_eq!(planned[1].1, "{\"Note\":\"second\"}");
}
