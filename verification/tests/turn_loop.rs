use agent_core::driver::resolve_call;
use agent_core::driver::run_text_turn;
use agent_core::driver::run_tool_only_loop;
use agent_core::driver::CallPlan;
use agent_core::driver::Driver;
use agent_core::driver::Notification;
use agent_core::driver::Phase;
use agent_core::driver::StreamEnd;
use agent_core::driver::TurnStart;
use agent_core::events::StreamEvent;
use agent_core::events::ToolCallDelta;
use agent_core::messages::Message;
use agent_core::messages::MessageContent;
use agent_core::messages::Role;
use agent_core::registry::ParamSpec;
use agent_core::registry::Registry;
use agent_core::registry::ToolSchema;

fn user_message(text: &str) -> Message {
    Message {
        role: Role::User,
        content: Some(MessageContent::Text(text.to_string())),
        tool_calls: None,
        tool_call_id: None,
    }
}

fn glob_registry() -> Registry {
    let mut reg = Registry::new();
    reg.register(ToolSchema {
        name: "glob".to_string(),
        description: "Find files matching a pattern.".to_string(),
        params: vec![ParamSpec {
            name: "pattern".to_string(),
            kind: "string".to_string(),
            description: "The glob pattern".to_string(),
            required: true,
        }],
    });
    reg
}

#[test]
fn tool_only_model_aborts_exactly_at_the_ceiling() {
    // A model that returns one tool call every turn: with a ceiling of 50
    // the run makes exactly 50 provider calls and then aborts — at 50,
    // not at 49, not at 51.
    let d = run_tool_only_loop(vec![user_message("go")], 50, "glob", "result");
    assert_eq!(d.turns_taken(), 50);
    assert_eq!(d.phase(), Phase::Aborted);
}

#[test]
fn ceiling_abort_reports_the_fixed_error() {
    let mut d = run_tool_only_loop(Vec::new(), 2, "t", "r");
    assert_eq!(d.turns_taken(), 2);
    let notes = d.drain_outbox();
    match notes.last().unwrap() {
        Notification::Error(e) => assert_eq!(e, "Max turns exceeded"),
        _ => panic!("expected a terminal error notification"),
    }
}

#[test]
fn step_by_step_abort_is_at_the_fifty_first_begin() {
    let mut d = Driver::new(Vec::new(), 50);
    let mut full_turns = 0u32;
    loop {
        match d.begin_turn() {
            TurnStart::Abort => break,
            TurnStart::Stream => {},
        }
        d.on_event(StreamEvent::ToolCallChunk(ToolCallDelta {
            slot: 0,
            id: None,
            kind: None,
            name: Some("t".to_string()),
            arguments: None,
        }));
        d.on_event(StreamEvent::Done);
        assert_eq!(d.end_stream(), StreamEnd::ToolCalls);
        d.apply_tool_results(vec!["r".to_string()]);
        full_turns += 1;
        assert!(full_turns <= 50, "the loop must abort before a 51st turn");
    }
    assert_eq!(full_turns, 50, "the abort must come exactly after turn 50");
    assert_eq!(d.phase(), Phase::Aborted);
}

#[test]
fn text_only_turn_completes_after_one_iteration() {
    let mut d = Driver::new(vec![user_message("hi")], 50);
    let r = run_text_turn(&mut d, vec!["Hello".to_string(), " there".to_string()]);
    assert_eq!(r, StreamEnd::Answer);
    assert_eq!(d.phase(), Phase::Completed);
    assert_eq!(d.turns_taken(), 1);
    let transcript = d.transcript();
    assert_eq!(transcript.len(), 2);
    let last = &transcript[1];
    assert_eq!(last.role, Role::Assistant);
    match last.content.as_ref().unwrap() {
        MessageContent::Text(t) => assert_eq!(t, "Hello there"),
        _ => panic!("expected a plain text body"),
    }
    assert!(last.tool_calls.is_none());
    let notes = d.drain_outbox();
    assert!(matches!(notes.last().unwrap(), Notification::Done));
}

#[test]
fn empty_turn_completes_without_appending() {
    let mut d = Driver::new(vec![user_message("hi")], 50);
    let r = run_text_turn(&mut d, Vec::new());
    assert_eq!(r, StreamEnd::Empty);
    assert_eq!(d.phase(), Phase::Completed);
    assert_eq!(d.transcript().len(), 1);
}

#[test]
fn glob_scenario_runs_one_dispatch_and_continues() {
    // Transcript [user: "list files"], schema set containing glob; the
    // stream emits one fragment for slot 0 and ends.
    let reg = glob_registry();
    let mut d = Driver::new(vec![user_message("list files")], 50);
    assert_eq!(d.begin_turn(), TurnStart::Stream);
    d.on_event(StreamEvent::ToolCallChunk(ToolCallDelta {
        slot: 0,
        id: Some("call_9".to_string()),
        kind: None,
        name: Some("glob".to_string()),
        arguments: Some("{\"pattern\":\"*.txt\"}".to_string()),
    }));
    d.on_event(StreamEvent::Done);
    assert_eq!(d.end_stream(), StreamEnd::ToolCalls);

    // One assistant message with empty text and one assembled call.
    {
        let transcript = d.transcript();
        assert_eq!(transcript.len(), 2);
        let assistant = &transcript[1];
        assert_eq!(assistant.role, Role::Assistant);
        assert!(assistant.content.is_none());
        let calls = assistant.tool_calls.as_ref().unwrap();
        assert_eq!(calls.len(), 1);
        assert_eq!(calls[0].function.name, "glob");
        assert_eq!(calls[0].function.arguments, "{\"pattern\":\"*.txt\"}");
    }

    // The call resolves and runs; its result comes back as a tool message
    // tagged with the originating id.
    let plan = {
        let pending = d.pending_calls();
        assert_eq!(pending.len(), 1);
        resolve_call(&reg, &pending[0])
    };
    assert!(matches!(plan, CallPlan::Run));
    d.apply_tool_results(vec!["a.txt\nb.txt".to_string()]);
    {
        let transcript = d.transcript();
        assert_eq!(transcript.len(), 3);
        let tool_msg = &transcript[2];
        assert_eq!(tool_msg.role, Role::Tool);
        assert_eq!(tool_msg.tool_call_id.as_deref(), Some("call_9"));
        match tool_msg.content.as_ref().unwrap() {
            MessageContent::Text(t) => assert_eq!(t, "a.txt\nb.txt"),
            _ => panic!("expected a plain text body"),
        }
    }

    // The loop proceeds to iteration 2 instead of terminating.
    assert_eq!(d.begin_turn(), TurnStart::Stream);
    assert_eq!(d.turns_taken(), 2);
}

#[test]
fn unresolved_call_fails_into_the_conversation() {
    let reg = glob_registry();
    let mut d = Driver::new(Vec::new(), 50);
    assert_eq!(d.begin_turn(), TurnStart::Stream);
    d.on_event(StreamEvent::ToolCallChunk(ToolCallDelta {
        slot: 0,
        id: None,
        kind: None,
        name: Some("missing".to_string()),
        arguments: Some("{}".to_string()),
    }));
    d.end_stream();
    let text = {
        let pending = d.pending_calls();
        match resolve_call(&reg, &pending[0]) {
            CallPlan::Fail(t) => t,
            CallPlan::Run => panic!("an unknown tool must not resolve"),
        }
    };
    assert_eq!(text, "Error: Tool 'missing' not found");
    d.apply_tool_results(vec![text]);
    assert_eq!(d.phase(), Phase::Idle);
}

#[test]
fn malformed_arguments_fail_with_the_parser_message() {
    let reg = glob_registry();
    let mut d = Driver::new(Vec::new(), 50);
    d.begin_turn();
    d.on_event(StreamEvent::ToolCallChunk(ToolCallDelta {
        slot: 0,
        id: None,
        kind: None,
        name: Some("glob".to_string()),
        arguments: Some("{\"pattern\":".to_string()),
    }));
    d.end_stream();
    let pending = d.pending_calls();
    let expected = format!(
        "Error parsing arguments JSON: {}",
        serde_json::from_str::<serde_json::Value>("{\"pattern\":").unwrap_err()
    );
    match resolve_call(&reg, &pending[0]) {
        CallPlan::Fail(t) => assert_eq!(t, expected),
        CallPlan::Run => panic!("malformed arguments must not resolve"),
    }
}

#[test]
fn stream_error_aborts_the_turn_with_a_notification() {
    let mut d = Driver::new(Vec::new(), 50);
    d.begin_turn();
    d.on_event(StreamEvent::TextChunk("par".to_string()));
    d.on_event(StreamEvent::Error("connection reset".to_string()));
    assert_eq!(d.phase(), Phase::Aborted);
    let notes = d.drain_outbox();
    match notes.last().unwrap() {
        Notification::Error(e) => assert_eq!(e, "connection reset"),
        _ => panic!("expected an error notification"),
    }
}

#[test]
fn text_chunks_are_forwarded_in_order() {
    let mut d = Driver::new(Vec::new(), 50);
    d.begin_turn();
    d.on_event(StreamEvent::TextChunk("a".to_string()));
    d.on_event(StreamEvent::TextChunk("b".to_string()));
    let notes = d.drain_outbox();
    let texts: Vec<&str> = notes
        .iter()
        .filter_map(|n| match n {
            Notification::StreamText(t) => Some(t.as_str()),
            _ => None,
        })
        .collect();
    assert_eq!(texts, vec!["a", "b"]);
}

#[test]
fn dispatch_queues_an_execution_log_per_call() {
    let mut d = Driver::new(Vec::new(), 50);
    d.begin_turn();
    d.on_event(StreamEvent::ToolCallChunk(ToolCallDelta {
        slot: 0,
        id: None,
        kind: None,
        name: Some("glob".to_string()),
        arguments: Some("{}".to_string()),
    }));
    d.end_stream();
    let notes = d.drain_outbox();
    match notes.last().unwrap() {
        Notification::Log(l) => assert_eq!(l, "Executing tool: glob args: {}"),
        _ => panic!("expected an execution log line"),
    }
}
