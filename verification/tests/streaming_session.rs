//! Streaming session behavior: the printed-cursor discipline, emission of
//! fresh suffixes exactly once, and side-channel notices.

use speakmcp_cli::session::{Continuation, EmitUnit, SessionState};
use speakmcp_cli::sse::parse_sse_event;

fn progress_frame(text: &str, is_streaming: bool) -> String {
    format!(
        r#"{{"type":"progress","data":{{"sessionId":"s","currentIteration":1,"maxIterations":10,"steps":[],"isComplete":false,"streamingContent":{{"text":"{}","isStreaming":{}}}}}}}"#,
        text, is_streaming
    )
}

fn apply_frame(state: &mut SessionState, frame: &str) -> Vec<EmitUnit> {
    let event = parse_sse_event(frame).expect("frame should decode");
    state.apply(event).emissions
}

fn text_of(units: &[EmitUnit]) -> String {
    let mut out = String::new();
    for u in units {
        if let EmitUnit::Text(t) = u {
            out.push_str(t);
        }
    }
    out
}

#[test]
fn growing_text_emits_only_the_new_suffix() {
    let mut state = SessionState::new();
    let first = apply_frame(&mut state, &progress_frame("Hel", true));
    assert_eq!(text_of(&first), "Hel");
    assert_eq!(state.printed_len, 3);
    let second = apply_frame(&mut state, &progress_frame("Hello", true));
    assert_eq!(text_of(&second), "lo");
    assert_eq!(state.printed_len, 5);
}

#[test]
fn replaying_the_same_frame_emits_nothing_more() {
    let mut state = SessionState::new();
    let first = apply_frame(&mut state, &progress_frame("Hello", true));
    assert_eq!(text_of(&first), "Hello");
    let replay = apply_frame(&mut state, &progress_frame("Hello", true));
    assert!(replay.is_empty());
    assert_eq!(state.printed_len, 5);
}

#[test]
fn a_shorter_stale_frame_is_ignored_without_panic() {
    let mut state = SessionState::new();
    apply_frame(&mut state, &progress_frame("Hello", true));
    let stale = apply_frame(&mut state, &progress_frame("Hel", true));
    assert!(stale.is_empty());
    assert_eq!(state.printed_len, 5);
}

#[test]
fn text_without_streaming_flag_is_not_emitted() {
    let mut state = SessionState::new();
    let units = apply_frame(&mut state, &progress_frame("Hello", false));
    assert!(units.is_empty());
    assert_eq!(state.printed_len, 0);
}

#[test]
fn done_emits_exactly_the_missing_suffix_and_sets_the_result() {
    let mut state = SessionState::new();
    apply_frame(&mut state, &progress_frame("Hello", true));
    let frame = r#"{"type":"done","data":{"content":"Hello world"}}"#;
    let event = parse_sse_event(frame).expect("frame should decode");
    let outcome = state.apply(event);
    assert_eq!(text_of(&outcome.emissions), " world");
    assert_eq!(outcome.emissions.len(), 1);
    assert!(matches!(outcome.continuation, Continuation::Stop(Ok(()))));
    let fr = state.final_result.as_ref().expect("final result");
    assert_eq!(fr.content, "Hello world");
}

#[test]
fn done_with_nothing_new_emits_nothing_but_still_succeeds() {
    let mut state = SessionState::new();
    apply_frame(&mut state, &progress_frame("Hello world", true));
    let frame = r#"{"type":"done","data":{"content":"Hello"}}"#;
    let event = parse_sse_event(frame).expect("frame should decode");
    let outcome = state.apply(event);
    assert!(outcome.emissions.is_empty());
    assert!(matches!(outcome.continuation, Continuation::Stop(Ok(()))));
    assert_eq!(state.final_result.as_ref().expect("final result").content, "Hello");
}

#[test]
fn error_stops_with_the_remote_message_and_no_result() {
    let mut state = SessionState::new();
    let frame = r#"{"type":"error","data":{"message":"rate limited"}}"#;
    let event = parse_sse_event(frame).expect("frame should decode");
    let outcome = state.apply(event);
    assert!(outcome.emissions.is_empty());
    match outcome.continuation {
        Continuation::Stop(Err(m)) => assert_eq!(m, "rate limited"),
        _ => panic!("expected a failure stop"),
    }
    assert!(state.final_result.is_none());
}

#[test]
fn unknown_changes_nothing_and_continues() {
    let mut state = SessionState::new();
    apply_frame(&mut state, &progress_frame("Hi", true));
    let event = parse_sse_event("garbage frame").expect("unknown should decode");
    let outcome = state.apply(event);
    assert!(outcome.emissions.is_empty());
    assert!(matches!(outcome.continuation, Continuation::Continue));
    assert_eq!(state.printed_len, 2);
    assert!(state.final_result.is_none());
}

#[test]
fn running_steps_with_tool_data_become_notices_in_order() {
    let frame = r#"{"type":"progress","data":{"sessionId":"s","currentIteration":1,"maxIterations":10,"steps":[
        {"id":"a","type":"tool_call","title":"t","status":"running",
         "toolCall":{"name":"search"}},
        {"id":"b","type":"tool_result","title":"t","status":"complete",
         "toolResult":{"success":true,"content":"found"}},
        {"id":"c","type":"tool_call","title":"t","status":"pending",
         "toolCall":{"name":"hidden"}}
    ],"isComplete":false}}"#;
    let mut state = SessionState::new();
    let units = apply_frame(&mut state, frame);
    assert_eq!(units.len(), 2);
    match &units[0] {
        EmitUnit::ToolCallNotice(tc) => assert_eq!(tc.name, "search"),
        _ => panic!("expected a tool call notice first"),
    }
    match &units[1] {
        EmitUnit::ToolResultNotice(tr) => {
            assert!(tr.success);
            assert_eq!(tr.content, "found");
        },
        _ => panic!("expected a tool result notice second"),
    }
}
