//! Frame decoder behavior on real JSON payloads.

use speakmcp_cli::sse::{parse_sse_event, SseEvent};

#[test]
fn test_parse_progress_event() {
    let data = r#"{"type":"progress","data":{"sessionId":"abc123","currentIteration":1,"maxIteration":10,"steps":[],"isComplete":false}}"#;
    let event = parse_sse_event(data);
    assert!(matches!(event, Some(SseEvent::Unknown(_))));
}

#[test]
fn test_parse_done_event() {
    let data = r#"{"type":"done","data":{"content":"Hello!","conversation_id":"conv123"}}"#;
    let event = parse_sse_event(data);
    assert!(matches!(event, Some(SseEvent::Done(_))));
    if let Some(SseEvent::Done(done)) = event {
        assert_eq!(done.content, "Hello!");
        assert_eq!(done.conversation_id, Some("conv123".to_string()));
    }
}

#[test]
fn test_parse_error_event() {
    let data = r#"{"type":"error","data":{"message":"Something went wrong"}}"#;
    let event = parse_sse_event(data);
    assert!(matches!(event, Some(SseEvent::Error(_))));
    if let Some(SseEvent::Error(err)) = event {
        assert_eq!(err.message, "Something went wrong");
    }
}

#[test]
fn test_parse_empty_line() {
    assert!(parse_sse_event("").is_none());
    assert!(parse_sse_event("   ").is_none());
}

#[test]
fn test_parse_done_marker() {
    assert!(parse_sse_event("[DONE]").is_none());
}

#[test]
fn test_parse_unknown_type() {
    let data = r#"{"type":"unknown_type","data":{}}"#;
    let event = parse_sse_event(data);
    assert!(matches!(event, Some(SseEvent::Unknown(_))));
}

#[test]
fn test_parse_invalid_json() {
    let data = "not valid json";
    let event = parse_sse_event(data);
    assert!(matches!(event, Some(SseEvent::Unknown(_))));
}

#[test]
fn progress_fields_come_through() {
    let data = r#"{"type":"progress","data":{
        "sessionId":"s1","conversationId":"c1","conversationTitle":"Title",
        "currentIteration":2,"maxIterations":10,
        "steps":[{"id":"st1","type":"tool_call","title":"Running tool","status":"running",
                  "toolCall":{"name":"search","arguments":{"q":"x"},"serverName":"srv"}}],
        "isComplete":false,"isSnoozed":true,"finalContent":null,
        "streamingContent":{"text":"Hel","isStreaming":true},
        "conversationHistory":[{"role":"user","content":"hi","timestamp":1700000000000,
                                "toolCalls":[{"name":"search"}],
                                "toolResults":[{"success":true,"content":"ok"}]}]
    }}"#;
    match parse_sse_event(data) {
        Some(SseEvent::Progress(u)) => {
            assert_eq!(u.session_id, "s1");
            assert_eq!(u.conversation_id, Some("c1".to_string()));
            assert_eq!(u.conversation_title, Some("Title".to_string()));
            assert_eq!(u.current_iteration, 2);
            assert_eq!(u.max_iterations, 10);
            assert_eq!(u.is_complete, false);
            assert_eq!(u.is_snoozed, Some(true));
            assert_eq!(u.final_content, None);
            assert_eq!(u.steps.len(), 1);
            assert_eq!(u.steps[0].id, "st1");
            assert_eq!(u.steps[0].step_type, "tool_call");
            assert_eq!(u.steps[0].status, "running");
            let tc = u.steps[0].tool_call.as_ref().expect("tool call");
            assert_eq!(tc.name, "search");
            assert_eq!(tc.server_name, Some("srv".to_string()));
            let sc = u.streaming_content.as_ref().expect("streaming content");
            assert_eq!(sc.text, "Hel");
            assert!(sc.is_streaming);
            let history = u.conversation_history.as_ref().expect("history");
            assert_eq!(history.len(), 1);
            assert_eq!(history[0].role, "user");
            assert_eq!(history[0].content, "hi");
            assert_eq!(history[0].timestamp, Some(1700000000000));
            let calls = history[0].tool_calls.as_ref().expect("tool calls");
            assert_eq!(calls.len(), 1);
            assert_eq!(calls[0].name, "search");
            let results = history[0].tool_results.as_ref().expect("tool results");
            assert_eq!(results.len(), 1);
            assert!(results[0].success);
            assert_eq!(results[0].content, "ok");
            assert_eq!(results[0].error, None);
        },
        other => panic!("expected progress, got {:?}", other.is_some()),
    }
}

#[test]
fn done_accepts_camel_case_field_names() {
    let data = r#"{"type":"done","data":{"content":"Hi","conversationId":"conv9","model":"gpt-4o"}}"#;
    match parse_sse_event(data) {
        Some(SseEvent::Done(done)) => {
            assert_eq!(done.content, "Hi");
            assert_eq!(done.conversation_id, Some("conv9".to_string()));
            assert_eq!(done.model, Some("gpt-4o".to_string()));
        },
        _ => panic!("expected done"),
    }
}

#[test]
fn progress_with_missing_session_id_is_unknown() {
    let data = r#"{"type":"progress","data":{"currentIteration":1,"maxIterations":10,"steps":[],"isComplete":false}}"#;
    assert!(matches!(parse_sse_event(data), Some(SseEvent::Unknown(_))));
}

#[test]
fn progress_with_a_missing_required_field_is_unknown() {
    let without_max = r#"{"type":"progress","data":{"sessionId":"s","currentIteration":1,"steps":[],"isComplete":false}}"#;
    assert!(matches!(parse_sse_event(without_max), Some(SseEvent::Unknown(_))));
    let without_current = r#"{"type":"progress","data":{"sessionId":"s","maxIterations":10,"steps":[],"isComplete":false}}"#;
    assert!(matches!(parse_sse_event(without_current), Some(SseEvent::Unknown(_))));
    let without_steps = r#"{"type":"progress","data":{"sessionId":"s","currentIteration":1,"maxIterations":10,"isComplete":false}}"#;
    assert!(matches!(parse_sse_event(without_steps), Some(SseEvent::Unknown(_))));
    let without_complete = r#"{"type":"progress","data":{"sessionId":"s","currentIteration":1,"maxIterations":10,"steps":[]}}"#;
    assert!(matches!(parse_sse_event(without_complete), Some(SseEvent::Unknown(_))));
}

#[test]
fn progress_with_wrongly_typed_field_is_unknown() {
    let data = r#"{"type":"progress","data":{"sessionId":7}}"#;
    assert!(matches!(parse_sse_event(data), Some(SseEvent::Unknown(_))));
    let data = r#"{"type":"progress","data":{"sessionId":"s","isComplete":"yes"}}"#;
    assert!(matches!(parse_sse_event(data), Some(SseEvent::Unknown(_))));
    let data = r#"{"type":"progress","data":{"sessionId":"s","currentIteration":4000000000}}"#;
    assert!(matches!(parse_sse_event(data), Some(SseEvent::Unknown(_))));
}

#[test]
fn done_without_content_is_unknown() {
    let data = r#"{"type":"done","data":{"conversation_id":"c"}}"#;
    assert!(matches!(parse_sse_event(data), Some(SseEvent::Unknown(_))));
}

#[test]
fn error_without_message_is_unknown() {
    let data = r#"{"type":"error","data":{}}"#;
    assert!(matches!(parse_sse_event(data), Some(SseEvent::Unknown(_))));
}

#[test]
fn envelope_without_data_is_unknown() {
    let data = r#"{"type":"progress"}"#;
    assert!(matches!(parse_sse_event(data), Some(SseEvent::Unknown(_))));
}

#[test]
fn unknown_keeps_trimmed_raw_text() {
    let event = parse_sse_event("  {\"type\":17} ");
    match event {
        Some(SseEvent::Unknown(raw)) => assert_eq!(raw, "{\"type\":17}"),
        _ => panic!("expected unknown"),
    }
}

#[test]
fn whitespace_around_a_frame_is_trimmed() {
    let data = "\t {\"type\":\"done\",\"data\":{\"content\":\"x\"}} \r\n";
    assert!(matches!(parse_sse_event(data), Some(SseEvent::Done(_))));
}

#[test]
fn unicode_whitespace_around_a_frame_is_trimmed() {
    let data = "\u{00A0}\u{2003}{\"type\":\"done\",\"data\":{\"content\":\"x\"}}\u{3000}";
    assert!(matches!(parse_sse_event(data), Some(SseEvent::Done(_))));
    assert!(parse_sse_event("\u{00A0}\u{2029}\u{1680}").is_none());
}
