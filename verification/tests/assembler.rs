use agent_core::assembler::Assembler;
use agent_core::events::ToolCallDelta;

fn delta(
    slot: u32,
    id: Option<&str>,
    kind: Option<&str>,
    name: Option<&str>,
    arguments: Option<&str>,
) -> ToolCallDelta {
    ToolCallDelta {
        slot,
        id: id.map(|s| s.to_string()),
        kind: kind.map(|s| s.to_string()),
        name: name.map(|s| s.to_string()),
        arguments: arguments.map(|s| s.to_string()),
    }
}

#[test]
fn interleaved_slots_come_out_sorted() {
    // Slot 2's first fragment arrives before slot 0's; slot 1 interleaves.
    let mut a = Assembler::new();
    a.feed(delta(2, Some("c"), None, Some("third"), Some("{}")));
    a.feed(delta(0, Some("a"), None, Some("fir"), Some("{\"x\"")));
    a.feed(delta(1, Some("b"), None, Some("second"), Some("{}")));
    a.feed(delta(0, None, None, Some("st"), Some(":1}")));
    let calls = a.finish();
    assert_eq!(calls.len(), 3);
    assert_eq!(calls[0].function.name, "first");
    assert_eq!(calls[0].id, "a");
    assert_eq!(calls[0].function.arguments, "{\"x\":1}");
    assert_eq!(calls[1].function.name, "second");
    assert_eq!(calls[2].function.name, "third");
}

#[test]
fn two_interleavings_assemble_identically() {
    let one = vec![
        delta(0, Some("a"), None, Some("alpha"), Some("{\"k\":")),
        delta(1, Some("b"), None, Some("beta"), Some("{}")),
        delta(0, None, None, None, Some("2}")),
    ];
    let other = vec![
        delta(1, Some("b"), None, Some("beta"), Some("{}")),
        delta(0, Some("a"), None, Some("alpha"), Some("{\"k\":")),
        delta(0, None, None, None, Some("2}")),
    ];
    let mut a1 = Assembler::new();
    for d in one {
        a1.feed(d);
    }
    let mut a2 = Assembler::new();
    for d in other {
        a2.feed(d);
    }
    let c1 = a1.finish();
    let c2 = a2.finish();
    assert_eq!(c1.len(), c2.len());
    for (x, y) in c1.iter().zip(c2.iter()) {
        assert_eq!(x.id, y.id);
        assert_eq!(x.kind, y.kind);
        assert_eq!(x.function.name, y.function.name);
        assert_eq!(x.function.arguments, y.function.arguments);
    }
}

#[test]
fn split_arguments_equal_one_shot() {
    // The same arguments in one fragment and in three must assemble equally.
    let mut split = Assembler::new();
    split.feed(delta(0, Some("x"), None, Some("glob"), Some("{\"pat")));
    split.feed(delta(0, None, None, None, Some("tern\":\"*.t")));
    split.feed(delta(0, None, None, None, Some("xt\"}")));
    let mut oneshot = Assembler::new();
    oneshot.feed(delta(0, Some("x"), None, Some("glob"), Some("{\"pattern\":\"*.txt\"}")));
    let cs = split.finish();
    let co = oneshot.finish();
    assert_eq!(cs.len(), 1);
    assert_eq!(cs[0].function.arguments, "{\"pattern\":\"*.txt\"}");
    assert_eq!(cs[0].function.arguments, co[0].function.arguments);
    assert_eq!(cs[0].function.name, co[0].function.name);
}

#[test]
fn split_name_concatenates() {
    let mut a = Assembler::new();
    a.feed(delta(0, None, None, Some("read_"), None));
    a.feed(delta(0, None, None, Some("file"), None));
    let calls = a.finish();
    assert_eq!(calls.len(), 1);
    assert_eq!(calls[0].function.name, "read_file");
}

#[test]
fn nameless_slot_is_dropped() {
    let mut a = Assembler::new();
    a.feed(delta(0, Some("a"), None, None, Some("{}")));
    a.feed(delta(1, Some("b"), None, Some("kept"), Some("{}")));
    let calls = a.finish();
    assert_eq!(calls.len(), 1);
    assert_eq!(calls[0].function.name, "kept");
}

#[test]
fn missing_id_and_kind_get_defaults() {
    let mut a = Assembler::new();
    a.feed(delta(7, None, None, Some("t"), None));
    let calls = a.finish();
    assert_eq!(calls.len(), 1);
    assert_eq!(calls[0].id, "call_7");
    assert_eq!(calls[0].kind, "function");
    assert_eq!(calls[0].function.arguments, "");
}

#[test]
fn first_id_and_kind_win() {
    let mut a = Assembler::new();
    a.feed(delta(0, Some("first"), Some("function"), Some("t"), None));
    a.feed(delta(0, Some("second"), Some("other"), None, None));
    let calls = a.finish();
    assert_eq!(calls[0].id, "first");
    assert_eq!(calls[0].kind, "function");
}

#[test]
fn feeding_a_whole_sequence_matches_stepwise_feeding() {
    let frags = vec![
        delta(1, None, None, Some("b"), Some("{}")),
        delta(0, None, None, Some("a"), Some("{}")),
    ];
    let mut whole = Assembler::new();
    whole.feed_all(frags);
    let mut steps = Assembler::new();
    steps.feed(delta(1, None, None, Some("b"), Some("{}")));
    steps.feed(delta(0, None, None, Some("a"), Some("{}")));
    let cw = whole.finish();
    let cs = steps.finish();
    assert_eq!(cw.len(), 2);
    assert_eq!(cw.len(), cs.len());
    assert_eq!(cw[0].function.name, "a");
    assert_eq!(cw[1].function.name, "b");
}

#[test]
fn empty_stream_assembles_nothing() {
    let a = Assembler::new();
    let calls = a.finish();
    assert_eq!(calls.len(), 0);
}
