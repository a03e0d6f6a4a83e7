use ox::agent::events::{OutputContentPart, OutputItem, StreamEvent};
use ox::agent::handler::{Entry, EventHandler, PendingCall};
use ox::agent::AgentLoop;
use ox::tools::tool_result::ToolResult;

fn function_call_item() -> OutputItem {
    OutputItem {
        item_type: "function_call".to_string(),
        name: Some("bash".to_string()),
        call_id: Some("call-7".to_string()),
        arguments: Some("{\"command\":\"echo hi\"}".to_string()),
        content: Vec::new(),
    }
}

fn message_item(text: &str) -> OutputItem {
    OutputItem {
        item_type: "message".to_string(),
        name: None,
        call_id: None,
        arguments: None,
        content: vec![OutputContentPart { text: Some(text.to_string()) }],
    }
}

#[test]
fn scripted_two_round_run_stops_after_the_second() {
    let mut agent = AgentLoop::new(20);
    // Round one requests a tool call; round two requests none.
    assert!(agent.should_request());
    agent.round_done(true);
    assert!(agent.should_request());
    agent.round_done(false);
    assert!(!agent.should_request());
    assert!(agent.is_done());
    assert_eq!(agent.rounds_used(), 2);
}

#[test]
fn the_round_ceiling_is_never_exceeded() {
    let mut agent = AgentLoop::new(3);
    let mut rounds = 0u64;
    // A server that keeps requesting tool calls forever.
    while agent.should_request() {
        agent.round_done(true);
        rounds += 1;
        assert!(rounds <= 3);
    }
    assert_eq!(rounds, 3);
    assert_eq!(agent.rounds_used(), 3);
    assert!(!agent.is_done());
}

#[test]
fn function_call_output_follows_its_call() {
    let mut handler = EventHandler::new(Vec::new());
    let out = handler.handle_event(StreamEvent::OutputItemDone { item: function_call_item() });
    let pending = out.pending.expect("a completed call must be handed out");
    assert_eq!(pending.call_id, "call-7");
    assert_eq!(pending.name, "bash");
    handler.finish_call(pending, ToolResult::success("hi\n".to_string()));
    assert!(handler.has_tool_calls());
    let history = handler.into_history();
    assert_eq!(history.len(), 2);
    match (&history[0], &history[1]) {
        (
            Entry::FunctionCall { call_id: c1, name, arguments },
            Entry::FunctionCallOutput { call_id: c2, output },
        ) => {
            assert_eq!(c1, "call-7");
            assert_eq!(c1, c2);
            assert_eq!(name, "bash");
            assert_eq!(arguments, "{\"command\":\"echo hi\"}");
            assert_eq!(output.content, "hi\n");
            assert!(!output.is_error);
        }
        _ => panic!("the call must be immediately followed by its output"),
    }
}

#[test]
fn message_done_appends_an_assistant_entry() {
    let mut handler = EventHandler::new(Vec::new());
    let out = handler.handle_event(StreamEvent::OutputItemDone { item: message_item("all done") });
    assert_eq!(out.emit, "\n");
    assert!(out.pending.is_none());
    assert!(!handler.has_tool_calls());
    let history = handler.into_history();
    assert_eq!(history.len(), 1);
    match &history[0] {
        Entry::AssistantMessage { content } => assert_eq!(content, "all done"),
        _ => panic!("a message must append an assistant entry"),
    }
}

#[test]
fn added_function_call_only_announces_itself() {
    let mut handler = EventHandler::new(Vec::new());
    let out = handler.handle_event(StreamEvent::OutputItemAdded { item: function_call_item() });
    assert_eq!(out.emit, "Calling bash...\n");
    assert!(out.pending.is_none());
    assert_eq!(handler.into_history().len(), 0);
}

#[test]
fn text_deltas_stream_through() {
    let mut handler = EventHandler::new(Vec::new());
    let out = handler.handle_event(StreamEvent::TextDelta { delta: "tok".to_string() });
    assert_eq!(out.emit, "tok");
    assert!(out.pending.is_none());
}

#[test]
fn ignored_events_change_nothing() {
    let mut handler = EventHandler::new(vec![Entry::UserMessage { content: "hi".to_string() }]);
    let out = handler.handle_event(StreamEvent::Ignored);
    assert_eq!(out.emit, "");
    assert!(out.pending.is_none());
    assert!(!handler.has_tool_calls());
    assert_eq!(handler.into_history().len(), 1);
}

#[test]
fn finishing_a_call_with_missing_fields_defaults_them() {
    let mut handler = EventHandler::new(Vec::new());
    let item = OutputItem {
        item_type: "function_call".to_string(),
        name: None,
        call_id: None,
        arguments: None,
        content: Vec::new(),
    };
    let out = handler.handle_event(StreamEvent::OutputItemDone { item });
    let pending = out.pending.expect("a completed call must be handed out");
    assert_eq!(pending.call_id, "");
    assert_eq!(pending.name, "");
    assert_eq!(pending.arguments, "");
}

#[test]
fn a_whole_round_reduces_a_scripted_stream() {
    // One response body: an announced call, two text deltas, the call
    // completed, then a closing message.
    let mut buffer = String::new();
    let body = "data: {\"type\":\"response.output_item.added\",\"item\":{\"type\":\"function_call\",\"name\":\"bash\"}}\n\ndata: {\"type\":\"response.output_text.delta\",\"delta\":\"a\"}\n\ndata: {\"type\":\"response.output_item.done\",\"item\":{\"type\":\"function_call\",\"call_id\":\"c\",\"name\":\"bash\",\"arguments\":\"{}\"}}\n\ndata: {\"type\":\"response.output_item.done\",\"item\":{\"type\":\"message\",\"content\":[{\"text\":\"bye\"}]}}\n\n";
    ox::agent::stream::feed(&mut buffer, body);
    let events = ox::agent::stream::drain_events(&mut buffer);
    assert_eq!(events.len(), 4);
    let mut handler = EventHandler::new(Vec::new());
    let mut emitted = String::new();
    for event in events {
        let out = handler.handle_event(event);
        emitted.push_str(&out.emit);
        if let Some(pending) = out.pending {
            let result = ToolResult::success("hi\n".to_string());
            handler.finish_call(pending, result);
        }
    }
    assert_eq!(emitted, "Calling bash...\na\n");
    assert!(handler.has_tool_calls());
    let history = handler.into_history();
    assert_eq!(history.len(), 3);
    assert!(matches!(history[0], Entry::FunctionCall { .. }));
    assert!(matches!(history[1], Entry::FunctionCallOutput { .. }));
    assert!(matches!(history[2], Entry::AssistantMessage { .. }));
}

#[test]
fn pending_calls_echo_arguments_verbatim() {
    let raw = "{\"path\": \"a.txt\",   \"unused\": 1}";
    let mut handler = EventHandler::new(Vec::new());
    let item = OutputItem {
        item_type: "function_call".to_string(),
        name: Some("read_file".to_string()),
        call_id: Some("c9".to_string()),
        arguments: Some(raw.to_string()),
        content: Vec::new(),
    };
    let out = handler.handle_event(StreamEvent::OutputItemDone { item });
    let pending: PendingCall = out.pending.expect("a completed call must be handed out");
    assert_eq!(pending.arguments, raw);
    handler.finish_call(pending, ToolResult::error("nope".to_string()));
    let history = handler.into_history();
    match &history[0] {
        Entry::FunctionCall { arguments, .. } => assert_eq!(arguments, raw),
        _ => panic!("the call must be first"),
    }
}
