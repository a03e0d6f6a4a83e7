use ox::agent::events::StreamEvent;
use ox::agent::stream::{drain_events, feed, get_event, parse_event, payload_preview};

#[test]
fn agent_get_event_returns_first_data_payload() {
    let mut buffer = "event: response\ndata: {\"type\":\"x\"}\n\n".to_string();

    let data = get_event(&mut buffer);

    assert_eq!(data, Some("{\"type\":\"x\"}".to_string()));
    assert!(buffer.is_empty());
}

#[test]
fn agent_get_event_skips_non_data_events() {
    let mut buffer = "event: ping\n\n\
                      event: response\ndata: {\"type\":\"y\"}\n\n"
        .to_string();

    let data = get_event(&mut buffer);

    assert_eq!(data, Some("{\"type\":\"y\"}".to_string()));
    assert!(buffer.is_empty());
}

#[test]
fn agent_get_event_joins_multi_line_data() {
    let mut buffer = "event: response\n\
                      data: {\"type\":\"response.output_text.delta\",\n\
                      data: \"delta\":\"Hello\"}\n\n"
        .to_string();

    let data = get_event(&mut buffer);

    assert_eq!(
        data,
        Some("{\"type\":\"response.output_text.delta\",\n\"delta\":\"Hello\"}".to_string())
    );
    assert!(buffer.is_empty());
}

#[test]
fn stream_tests_get_event_returns_first_data_payload() {
    let mut buffer = "event: response\ndata: {\"type\":\"x\"}\n\n".to_string();

    let data = get_event(&mut buffer);

    assert_eq!(data, Some("{\"type\":\"x\"}".to_string()));
    assert!(buffer.is_empty());
}

#[test]
fn stream_tests_get_event_skips_non_data_events() {
    let mut buffer = "event: ping\n\n\
                      event: response\ndata: {\"type\":\"y\"}\n\n"
        .to_string();

    let data = get_event(&mut buffer);

    assert_eq!(data, Some("{\"type\":\"y\"}".to_string()));
    assert!(buffer.is_empty());
}

#[test]
fn stream_tests_get_event_joins_multi_line_data() {
    let mut buffer = "event: response\n\
                      data: {\"type\":\"response.output_text.delta\",\n\
                      data: \"delta\":\"Hello\"}\n\n"
        .to_string();

    let data = get_event(&mut buffer);

    assert_eq!(
        data,
        Some("{\"type\":\"response.output_text.delta\",\n\"delta\":\"Hello\"}".to_string())
    );
    assert!(buffer.is_empty());
}

#[test]
fn agent_parse_event_rejects_invalid_json() {
    let result = parse_event("{not-json");
    assert!(result.is_none());
}

#[test]
fn agent_parse_event_accepts_known_event() {
    let data = r#"{"type":"response.output_text.delta","delta":"hi"}"#;
    let event = parse_event(data).expect("event should parse");
    assert!(matches!(event, StreamEvent::TextDelta { .. }));
}

#[test]
fn stream_tests_parse_event_rejects_invalid_json() {
    let result = parse_event("{not-json");
    assert!(result.is_none());
}

#[test]
fn stream_tests_parse_event_accepts_known_event() {
    let data = r#"{"type":"response.output_text.delta","delta":"hi"}"#;
    let event = parse_event(data).expect("event should parse");
    assert!(matches!(event, StreamEvent::TextDelta { .. }));
}

fn extract_all(buffer: &mut String) -> Vec<String> {
    let mut out = Vec::new();
    while let Some(p) = get_event(buffer) {
        out.push(p);
    }
    out
}

#[test]
fn chunk_splits_do_not_change_the_payloads() {
    let stream = "event: a\ndata: one\n\ndata: two\ndata: three\n\nevent: ping\n\ndata: four\n\n";
    let whole = {
        let mut buffer = String::new();
        feed(&mut buffer, stream);
        extract_all(&mut buffer)
    };
    // Split the same bytes at every position in turn: the extracted
    // payloads must always be the same.
    for cut in 0..stream.len() {
        if !stream.is_char_boundary(cut) {
            continue;
        }
        let mut buffer = String::new();
        let mut got = Vec::new();
        feed(&mut buffer, &stream[..cut]);
        got.extend(extract_all(&mut buffer));
        feed(&mut buffer, &stream[cut..]);
        got.extend(extract_all(&mut buffer));
        assert_eq!(got, whole, "split at {cut}");
    }
    assert_eq!(whole, vec!["one".to_string(), "two\nthree".to_string(), "four".to_string()]);
}

#[test]
fn frame_without_payload_lines_yields_nothing() {
    let mut buffer = "event: ping\nretry: 100\n\n".to_string();
    assert_eq!(get_event(&mut buffer), None);
    assert!(buffer.is_empty());
}

#[test]
fn malformed_payload_does_not_stop_later_frames() {
    let mut buffer = "data: {not-json\n\ndata: {\"type\":\"response.output_text.delta\",\"delta\":\"ok\"}\n\n"
        .to_string();
    let events = drain_events(&mut buffer);
    assert_eq!(events.len(), 1);
    match &events[0] {
        StreamEvent::TextDelta { delta } => assert_eq!(delta, "ok"),
        _ => panic!("expected a text delta"),
    }
}

#[test]
fn unknown_tags_decode_to_ignored() {
    let event = parse_event("{\"type\":\"response.created\"}").expect("event should parse");
    assert!(matches!(event, StreamEvent::Ignored));
}

#[test]
fn missing_delta_rejects_the_event() {
    assert!(parse_event("{\"type\":\"response.output_text.delta\"}").is_none());
}

#[test]
fn function_call_item_fields_default_to_absent() {
    let data = r#"{"type":"response.output_item.done","item":{"type":"function_call","call_id":"c1","name":"bash","arguments":"{}"}}"#;
    let event = parse_event(data).expect("event should parse");
    match event {
        StreamEvent::OutputItemDone { item } => {
            assert_eq!(item.item_type, "function_call");
            assert_eq!(item.call_id.as_deref(), Some("c1"));
            assert_eq!(item.name.as_deref(), Some("bash"));
            assert_eq!(item.arguments.as_deref(), Some("{}"));
            assert!(item.content.is_empty());
        }
        _ => panic!("expected an output item"),
    }
}

#[test]
fn message_item_carries_content_text() {
    let data = r#"{"type":"response.output_item.done","item":{"type":"message","content":[{"text":"hello"}]}}"#;
    let event = parse_event(data).expect("event should parse");
    match event {
        StreamEvent::OutputItemDone { item } => {
            assert_eq!(item.item_type, "message");
            assert_eq!(item.content.len(), 1);
            assert_eq!(item.content[0].text.as_deref(), Some("hello"));
        }
        _ => panic!("expected an output item"),
    }
}

#[test]
fn payload_preview_is_bounded() {
    let long = "x".repeat(500);
    assert_eq!(payload_preview(&long).len(), 200);
    assert_eq!(payload_preview("short"), "short");
}
