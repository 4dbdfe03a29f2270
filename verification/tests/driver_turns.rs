//! Whole-turn behavior of the session driver: normal completion, remote
//! failure, incomplete streams, keep-alive frames and absorbing termination.

use speakmcp_cli::api::build_chat_request;
use speakmcp_cli::driver::{run_frames, SessionDriver, SessionError};
use speakmcp_cli::session::EmitUnit;

fn progress_frame(text: &str) -> String {
    format!(
        r#"{{"type":"progress","data":{{"sessionId":"s","currentIteration":1,"maxIterations":10,"steps":[],"isComplete":false,"streamingContent":{{"text":"{}","isStreaming":true}}}}}}"#,
        text
    )
}

fn done_frame(content: &str) -> String {
    format!(r#"{{"type":"done","data":{{"content":"{}","conversation_id":"conv1"}}}}"#, content)
}

fn texts(units: &[EmitUnit]) -> Vec<String> {
    units
        .iter()
        .filter_map(|u| match u {
            EmitUnit::Text(t) => Some(t.clone()),
            _ => None,
        })
        .collect()
}

#[test]
fn a_streamed_turn_delivers_every_suffix_and_the_final_result() {
    let frames = vec![
        progress_frame("Hel"),
        progress_frame("Hello"),
        done_frame("Hello world"),
    ];
    let (emissions, result) = run_frames(&frames);
    assert_eq!(texts(&emissions), vec!["Hel", "lo", " world"]);
    let fr = result.expect("turn should succeed");
    assert_eq!(fr.content, "Hello world");
    assert_eq!(fr.conversation_id, Some("conv1".to_string()));
}

#[test]
fn a_remote_error_is_reported_and_earlier_text_stays_delivered() {
    let frames = vec![
        progress_frame("Hi"),
        r#"{"type":"error","data":{"message":"rate limited"}}"#.to_string(),
    ];
    let (emissions, result) = run_frames(&frames);
    assert_eq!(texts(&emissions), vec!["Hi"]);
    match result {
        Err(SessionError::Remote(m)) => assert_eq!(m, "rate limited"),
        _ => panic!("expected a remote failure"),
    }
}

#[test]
fn a_source_that_ends_without_a_terminal_event_is_incomplete() {
    let frames = vec![
        r#"{"type":"progress","data":{"sessionId":"s","currentIteration":1,"maxIterations":10,"steps":[],"isComplete":false}}"#
            .to_string(),
    ];
    let (emissions, result) = run_frames(&frames);
    assert!(emissions.is_empty());
    assert!(matches!(result, Err(SessionError::IncompleteStream)));
}

#[test]
fn sentinel_and_blank_frames_are_no_ops_not_stream_end() {
    let frames = vec!["[DONE]".to_string(), "".to_string(), progress_frame("Hi")];
    let (emissions, result) = run_frames(&frames);
    assert_eq!(texts(&emissions), vec!["Hi"]);
    assert!(matches!(result, Err(SessionError::IncompleteStream)));
}

#[test]
fn frames_after_the_terminal_event_are_not_processed() {
    let frames = vec![done_frame("A"), progress_frame("ABC")];
    let (emissions, result) = run_frames(&frames);
    assert_eq!(texts(&emissions), vec!["A"]);
    assert_eq!(result.expect("turn should succeed").content, "A");
}

#[test]
fn unknown_frames_do_not_abort_a_turn() {
    let frames = vec![
        "garbage".to_string(),
        r#"{"type":"mystery","data":{}}"#.to_string(),
        done_frame("fine"),
    ];
    let (emissions, result) = run_frames(&frames);
    assert_eq!(texts(&emissions), vec!["fine"]);
    assert_eq!(result.expect("turn should succeed").content, "fine");
}

#[test]
fn stepping_a_driver_by_hand_terminates_and_absorbs() {
    let mut driver = SessionDriver::new();
    assert!(!driver.is_terminated());
    let first = driver.step(&progress_frame("Hi"));
    assert_eq!(texts(&first), vec!["Hi"]);
    assert!(!driver.is_terminated());
    let second = driver.step(&done_frame("Hi there"));
    assert_eq!(texts(&second), vec![" there"]);
    assert!(driver.is_terminated());
    let third = driver.step(&progress_frame("Hi there and more"));
    assert!(third.is_empty());
    let fr = driver.finish().expect("turn should succeed");
    assert_eq!(fr.content, "Hi there");
}

#[test]
fn finishing_an_active_driver_reports_an_incomplete_stream() {
    let driver = SessionDriver::new();
    assert!(matches!(driver.finish(), Err(SessionError::IncompleteStream)));
}

#[test]
fn an_encoded_request_echoed_as_a_done_frame_reproduces_the_message() {
    let message = "Hello world";
    let body = build_chat_request(message, None);
    assert_eq!(
        body,
        r#"{"model":"gpt-4o","messages":[{"role":"user","content":"Hello world"}],"stream":true}"#
    );
    let frames = vec![done_frame(message)];
    let (emissions, result) = run_frames(&frames);
    let printed: String = texts(&emissions).concat();
    assert_eq!(printed, message);
    assert_eq!(result.expect("turn should succeed").content, message);
}

#[test]
fn request_encoding_escapes_the_message_and_names_the_conversation() {
    let body = build_chat_request("say \"hi\"\n\tplease \\ now", Some("conv-7"));
    assert_eq!(
        body,
        "{\"model\":\"gpt-4o\",\"messages\":[{\"role\":\"user\",\"content\":\"say \\\"hi\\\"\\n\\tplease \\\\ now\"}],\"conversationId\":\"conv-7\",\"stream\":true}"
    );
}

#[test]
fn request_encoding_writes_control_characters_in_hex() {
    let body = build_chat_request("a\u{1}b", None);
    assert_eq!(
        body,
        "{\"model\":\"gpt-4o\",\"messages\":[{\"role\":\"user\",\"content\":\"a\\u0001b\"}],\"stream\":true}"
    );
}
