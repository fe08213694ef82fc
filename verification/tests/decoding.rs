use agent_core::decimal::u64_to_string;
use agent_core::events::decode_wire_delta;
use agent_core::events::StreamEvent;
use agent_core::events::ToolCallDelta;
use agent_core::events::WireDelta;
use agent_core::jsonout::quote_json;

#[test]
fn wire_delta_normalizes_in_fixed_order() {
    let delta = WireDelta {
        text: Some("hi".to_string()),
        tool_calls: vec![
            ToolCallDelta {
                slot: 1,
                id: None,
                kind: None,
                name: Some("a".to_string()),
                arguments: None,
            },
            ToolCallDelta {
                slot: 0,
                id: None,
                kind: None,
                name: Some("b".to_string()),
                arguments: None,
            },
        ],
        done: true,
        error: Some("oops".to_string()),
    };
    let events = decode_wire_delta(delta);
    assert_eq!(events.len(), 5);
    assert!(matches!(&events[0], StreamEvent::Error(e) if e == "oops"));
    assert!(matches!(&events[1], StreamEvent::TextChunk(t) if t == "hi"));
    assert!(matches!(&events[2], StreamEvent::ToolCallChunk(d) if d.slot == 1));
    assert!(matches!(&events[3], StreamEvent::ToolCallChunk(d) if d.slot == 0));
    assert!(matches!(&events[4], StreamEvent::Done));
}

#[test]
fn empty_wire_delta_decodes_to_nothing() {
    let delta = WireDelta { text: None, tool_calls: Vec::new(), done: false, error: None };
    assert_eq!(decode_wire_delta(delta).len(), 0);
}

#[test]
fn terminal_marker_decodes_alone() {
    let delta = WireDelta { text: None, tool_calls: Vec::new(), done: true, error: None };
    let events = decode_wire_delta(delta);
    assert_eq!(events.len(), 1);
    assert!(matches!(events[0], StreamEvent::Done));
}

#[test]
fn decimal_rendering_is_exact() {
    assert_eq!(u64_to_string(0), "0");
    assert_eq!(u64_to_string(7), "7");
    assert_eq!(u64_to_string(10), "10");
    assert_eq!(u64_to_string(50), "50");
    assert_eq!(u64_to_string(987654), "987654");
}

#[test]
fn json_quoting_escapes_like_serde() {
    for s in ["plain", "with \"quotes\"", "back\\slash", "line\nbreak\ttab\r", "\u{1}\u{1f}", ""] {
        let ours = quote_json(s);
        let serde = serde_json::to_string(s).unwrap();
        let back: String = serde_json::from_str(&ours).unwrap();
        assert_eq!(back, s, "quoting must round-trip through a JSON parser");
        let reference: String = serde_json::from_str(&serde).unwrap();
        assert_eq!(reference, s);
    }
    assert_eq!(quote_json("a\"b"), "\"a\\\"b\"");
    assert_eq!(quote_json("\u{1}"), "\"\\u0001\"");
}
