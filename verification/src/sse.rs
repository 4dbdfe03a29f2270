//! Event model and frame decoder for the streaming chat protocol.
//!
//! One raw server-sent-event payload decodes to at most one typed event.
//! Anything whose envelope or payload shape is not recognized becomes
//! `Unknown`, never a failure: a malformed frame must not abort a session.

use vstd::prelude::*;

use crate::api::{
    ConversationMessage, ConversationMessageView, ToolCall, ToolCallView, ToolResult,
    ToolResultView,
};
use crate::json::{
    distinct_keys, json_of, obj_lookup, opt_bool, opt_str, opt_u64, parse_json, req_bool, req_i32,
    req_str, spec_opt_bool, spec_opt_str, spec_opt_u64, spec_req_bool, spec_req_i32, spec_req_str,
    str_eq, take_fields, Json,
};

verus! {

/// An event decoded from one raw frame.
pub enum SseEvent {
    /// Mid-turn progress update.
    Progress(AgentProgressUpdate),
    /// Terminal success with the complete response.
    Done(DoneEvent),
    /// Terminal failure reported by the remote side.
    Error(ErrorEvent),
    /// Payload that parsed as text but whose shape is not recognized; carries
    /// the trimmed raw text for diagnostics. Never terminal.
    Unknown(String),
}

/// Spec view of an `SseEvent`.
pub ghost enum SseEventView {
    Progress(AgentProgressUpdateView),
    Done(DoneEventView),
    Error(ErrorEventView),
    Unknown(Seq<char>),
}

impl DeepView for SseEvent {
    type V = SseEventView;

    open spec fn deep_view(&self) -> SseEventView {
        match self {
            SseEvent::Progress(u) => SseEventView::Progress(u.deep_view()),
            SseEvent::Done(d) => SseEventView::Done(d.deep_view()),
            SseEvent::Error(e) => SseEventView::Error(e.deep_view()),
            SseEvent::Unknown(raw) => SseEventView::Unknown(raw@),
        }
    }
}

/// Progress update sent while the agent is working.
pub struct AgentProgressUpdate {
    pub session_id: String,
    pub conversation_id: Option<String>,
    pub conversation_title: Option<String>,
    pub current_iteration: i32,
    pub max_iterations: i32,
    pub steps: Vec<AgentProgressStep>,
    pub is_complete: bool,
    pub is_snoozed: Option<bool>,
    pub final_content: Option<String>,
    pub streaming_content: Option<StreamingContent>,
    pub conversation_history: Option<Vec<ConversationMessage>>,
}

/// Spec view of an `AgentProgressUpdate`.
pub ghost struct AgentProgressUpdateView {
    pub session_id: Seq<char>,
    pub conversation_id: Option<Seq<char>>,
    pub conversation_title: Option<Seq<char>>,
    pub current_iteration: i32,
    pub max_iterations: i32,
    pub steps: Seq<AgentProgressStepView>,
    pub is_complete: bool,
    pub is_snoozed: Option<bool>,
    pub final_content: Option<Seq<char>>,
    pub streaming_content: Option<StreamingContentView>,
    pub conversation_history: Option<Seq<ConversationMessageView>>,
}

impl DeepView for AgentProgressUpdate {
    type V = AgentProgressUpdateView;

    open spec fn deep_view(&self) -> AgentProgressUpdateView {
        AgentProgressUpdateView {
            session_id: self.session_id@,
            conversation_id: self.conversation_id.deep_view(),
            conversation_title: self.conversation_title.deep_view(),
            current_iteration: self.current_iteration,
            max_iterations: self.max_iterations,
            steps: self.steps.deep_view(),
            is_complete: self.is_complete,
            is_snoozed: self.is_snoozed,
            final_content: self.final_content.deep_view(),
            streaming_content: match self.streaming_content {
                Some(sc) => Some(sc.deep_view()),
                None => None,
            },
            conversation_history: self.conversation_history.deep_view(),
        }
    }
}

/// Cumulative text produced so far in this turn, and whether streaming is
/// still in progress. While `is_streaming` holds, the text only grows.
pub struct StreamingContent {
    pub text: String,
    pub is_streaming: bool,
}

/// Spec view of a `StreamingContent`.
pub ghost struct StreamingContentView {
    pub text: Seq<char>,
    pub is_streaming: bool,
}

impl DeepView for StreamingContent {
    type V = StreamingContentView;

    open spec fn deep_view(&self) -> StreamingContentView {
        StreamingContentView { text: self.text@, is_streaming: self.is_streaming }
    }
}

/// One step of the agent's progress.
pub struct AgentProgressStep {
    pub id: String,
    pub step_type: String,
    pub title: String,
    pub status: String,
    pub tool_call: Option<ToolCallInfo>,
    pub tool_result: Option<ToolResultInfo>,
    pub llm_content: Option<String>,
}

/// Spec view of an `AgentProgressStep`.
pub ghost struct AgentProgressStepView {
    pub id: Seq<char>,
    pub step_type: Seq<char>,
    pub title: Seq<char>,
    pub status: Seq<char>,
    pub tool_call: Option<ToolCallInfoView>,
    pub tool_result: Option<ToolResultInfoView>,
    pub llm_content: Option<Seq<char>>,
}

impl DeepView for AgentProgressStep {
    type V = AgentProgressStepView;

    open spec fn deep_view(&self) -> AgentProgressStepView {
        AgentProgressStepView {
            id: self.id@,
            step_type: self.step_type@,
            title: self.title@,
            status: self.status@,
            tool_call: match self.tool_call {
                Some(tc) => Some(tc.deep_view()),
                None => None,
            },
            tool_result: match self.tool_result {
                Some(tr) => Some(tr.deep_view()),
                None => None,
            },
            llm_content: self.llm_content.deep_view(),
        }
    }
}

/// Tool call carried by a progress step.
pub struct ToolCallInfo {
    pub name: String,
    /// Arguments as the JSON tree they arrived as; absent arguments are null.
    pub arguments: Json,
    pub server_name: Option<String>,
}

/// Spec view of a `ToolCallInfo`.
pub ghost struct ToolCallInfoView {
    pub name: Seq<char>,
    pub arguments: Json,
    pub server_name: Option<Seq<char>>,
}

impl DeepView for ToolCallInfo {
    type V = ToolCallInfoView;

    open spec fn deep_view(&self) -> ToolCallInfoView {
        ToolCallInfoView {
            name: self.name@,
            arguments: self.arguments,
            server_name: self.server_name.deep_view(),
        }
    }
}

/// Tool result carried by a progress step.
pub struct ToolResultInfo {
    pub success: bool,
    pub content: String,
    pub error: Option<String>,
}

/// Spec view of a `ToolResultInfo`.
pub ghost struct ToolResultInfoView {
    pub success: bool,
    pub content: Seq<char>,
    pub error: Option<Seq<char>>,
}

impl DeepView for ToolResultInfo {
    type V = ToolResultInfoView;

    open spec fn deep_view(&self) -> ToolResultInfoView {
        ToolResultInfoView {
            success: self.success,
            content: self.content@,
            error: self.error.deep_view(),
        }
    }
}

/// Terminal success event with the complete response.
pub struct DoneEvent {
    pub content: String,
    pub conversation_id: Option<String>,
    pub conversation_history: Option<Vec<ConversationMessage>>,
    pub model: Option<String>,
}

/// Spec view of a `DoneEvent`.
pub ghost struct DoneEventView {
    pub content: Seq<char>,
    pub conversation_id: Option<Seq<char>>,
    pub conversation_history: Option<Seq<ConversationMessageView>>,
    pub model: Option<Seq<char>>,
}

impl DeepView for DoneEvent {
    type V = DoneEventView;

    open spec fn deep_view(&self) -> DoneEventView {
        DoneEventView {
            content: self.content@,
            conversation_id: self.conversation_id.deep_view(),
            conversation_history: self.conversation_history.deep_view(),
            model: self.model.deep_view(),
        }
    }
}

/// Whitespace recognized when trimming a frame: the Unicode whitespace
/// characters.
pub open spec fn spec_is_ws(c: char) -> bool {
    c == ' ' || c == '\t' || c == '\n' || c == '\r' || c == '\u{000B}' || c == '\u{000C}'
        || c == '\u{0085}' || c == '\u{00A0}' || c == '\u{1680}' || c == '\u{2000}'
        || c == '\u{2001}' || c == '\u{2002}' || c == '\u{2003}' || c == '\u{2004}'
        || c == '\u{2005}' || c == '\u{2006}' || c == '\u{2007}' || c == '\u{2008}'
        || c == '\u{2009}' || c == '\u{200A}' || c == '\u{2028}' || c == '\u{2029}'
        || c == '\u{202F}' || c == '\u{205F}' || c == '\u{3000}'
}

/// Number of whitespace characters at the front.
pub open spec fn count_leading_ws(s: Seq<char>) -> int
    decreases s.len(),
{
    if s.len() == 0 {
        0
    } else if spec_is_ws(s[0]) {
        1 + count_leading_ws(s.drop_first())
    } else {
        0
    }
}

/// Number of whitespace characters at the back.
pub open spec fn count_trailing_ws(s: Seq<char>) -> int
    decreases s.len(),
{
    if s.len() == 0 {
        0
    } else if spec_is_ws(s.last()) {
        1 + count_trailing_ws(s.drop_last())
    } else {
        0
    }
}

/// The text with leading and trailing whitespace removed.
pub open spec fn spec_trim(s: Seq<char>) -> Seq<char> {
    let a = count_leading_ws(s);
    let b = s.len() - count_trailing_ws(s);
    if a <= b {
        s.subrange(a, b)
    } else {
        Seq::empty()
    }
}

/// A position whose prefix is all whitespace and that is not itself
/// whitespace pins down `count_leading_ws`.
proof fn lemma_count_leading_ws(s: Seq<char>, a: int)
    requires
        0 <= a <= s.len(),
        forall|k: int| 0 <= k < a ==> spec_is_ws(#[trigger] s[k]),
        a < s.len() ==> !spec_is_ws(s[a]),
    ensures
        count_leading_ws(s) == a,
    decreases a,
{
    if a == 0 {
    } else {
        assert(spec_is_ws(s[0]));
        lemma_count_leading_ws(s.drop_first(), a - 1);
    }
}

/// The mirror characterization for `count_trailing_ws`.
proof fn lemma_count_trailing_ws(s: Seq<char>, t: int)
    requires
        0 <= t <= s.len(),
        forall|k: int| s.len() - t <= k < s.len() ==> spec_is_ws(#[trigger] s[k]),
        t < s.len() ==> !spec_is_ws(s[s.len() - t - 1]),
    ensures
        count_trailing_ws(s) == t,
    decreases t,
{
    if t == 0 {
    } else {
        assert(spec_is_ws(s.last()));
        lemma_count_trailing_ws(s.drop_last(), t - 1);
    }
}

/// Whether `c` is frame whitespace; see `spec_is_ws`.
fn is_ws_char(c: char) -> (r: bool)
    ensures
        r == spec_is_ws(c),
{
    c == ' ' || c == '\t' || c == '\n' || c == '\r' || c == '\u{000B}' || c == '\u{000C}'
        || c == '\u{0085}' || c == '\u{00A0}' || c == '\u{1680}' || c == '\u{2000}'
        || c == '\u{2001}' || c == '\u{2002}' || c == '\u{2003}' || c == '\u{2004}'
        || c == '\u{2005}' || c == '\u{2006}' || c == '\u{2007}' || c == '\u{2008}'
        || c == '\u{2009}' || c == '\u{200A}' || c == '\u{2028}' || c == '\u{2029}'
        || c == '\u{202F}' || c == '\u{205F}' || c == '\u{3000}'
}

/// Removes leading and trailing whitespace; see `spec_trim`.
fn trim_str(s: &str) -> (r: &str)
    ensures
        r@ == spec_trim(s@),
{
    let n = s.unicode_len();
    let mut a: usize = 0;
    while a < n && is_ws_char(s.get_char(a))
        invariant
            a <= n,
            n == s@.len(),
            forall|k: int| 0 <= k < a ==> spec_is_ws(#[trigger] s@[k]),
        decreases n - a,
    {
        a = a + 1;
    }
    proof {
        lemma_count_leading_ws(s@, a as int);
    }
    if a == n {
        proof {
            lemma_count_trailing_ws(s@, n as int);
        }
        let r = s.substring_char(0, 0);
        proof {
            assert(r@ =~= spec_trim(s@));
        }
        r
    } else {
        let mut b: usize = n;
        while b > a && is_ws_char(s.get_char(b - 1))
            invariant
                a <= b <= n,
                n == s@.len(),
                a < n,
                !spec_is_ws(s@[a as int]),
                forall|k: int| b <= k < n ==> spec_is_ws(#[trigger] s@[k]),
            decreases b,
        {
            b = b - 1;
        }
        proof {
            assert(b > a) by {
                if b == a {
                    assert(spec_is_ws(s@[a as int]));
                }
            }
            lemma_count_trailing_ws(s@, (n - b) as int);
        }
        let r = s.substring_char(a, b);
        proof {
            assert(r@ =~= spec_trim(s@));
        }
        r
    }
}

/// Terminal failure event reported by the remote side.
pub struct ErrorEvent {
    pub message: String,
}

/// Spec view of an `ErrorEvent`.
pub ghost struct ErrorEventView {
    pub message: Seq<char>,
}

impl DeepView for ErrorEvent {
    type V = ErrorEventView;

    open spec fn deep_view(&self) -> ErrorEventView {
        ErrorEventView { message: self.message@ }
    }
}

/// A field whose value may be any JSON; an absent field reads as null.
pub open spec fn spec_arg_or_null(slot: Option<Json>) -> Json {
    match slot {
        Some(a) => a,
        None => Json::Null,
    }
}

/// Shape of a tool call inside a progress step: a required name, arguments of
/// any shape (null when absent), and an optional server name.
pub open spec fn spec_tool_call_info_of(j: Json) -> Option<ToolCallInfoView> {
    match j {
        Json::Obj(es) => (match (
            spec_req_str(obj_lookup(es@, "name"@)),
            spec_opt_str(obj_lookup(es@, "serverName"@)),
        ) {
            (Some(n), Some(sn)) => Some(
                ToolCallInfoView {
                    name: n,
                    arguments: spec_arg_or_null(obj_lookup(es@, "arguments"@)),
                    server_name: sn,
                },
            ),
            _ => None,
        }),
        _ => None,
    }
}

/// Shape of a tool result inside a progress step.
pub open spec fn spec_tool_result_info_of(j: Json) -> Option<ToolResultInfoView> {
    match j {
        Json::Obj(es) => (match (
            spec_req_bool(obj_lookup(es@, "success"@)),
            spec_req_str(obj_lookup(es@, "content"@)),
            spec_opt_str(obj_lookup(es@, "error"@)),
        ) {
            (Some(s), Some(c), Some(e)) => Some(
                ToolResultInfoView { success: s, content: c, error: e },
            ),
            _ => None,
        }),
        _ => None,
    }
}

/// An optional embedded tool call: absent or null reads as nothing; anything
/// present must have the tool-call shape.
pub open spec fn spec_opt_tool_call_info(slot: Option<Json>) -> Option<Option<ToolCallInfoView>> {
    match slot {
        None => Some(None),
        Some(Json::Null) => Some(None),
        Some(x) => match spec_tool_call_info_of(x) {
            Some(tc) => Some(Some(tc)),
            None => None,
        },
    }
}

/// An optional embedded tool result, read like `spec_opt_tool_call_info`.
pub open spec fn spec_opt_tool_result_info(slot: Option<Json>) -> Option<
    Option<ToolResultInfoView>,
> {
    match slot {
        None => Some(None),
        Some(Json::Null) => Some(None),
        Some(x) => match spec_tool_result_info_of(x) {
            Some(tr) => Some(Some(tr)),
            None => None,
        },
    }
}

/// Shape of one progress step.
pub open spec fn spec_step_of(j: Json) -> Option<AgentProgressStepView> {
    match j {
        Json::Obj(es) => (match (
            spec_req_str(obj_lookup(es@, "id"@)),
            spec_req_str(obj_lookup(es@, "type"@)),
            spec_req_str(obj_lookup(es@, "title"@)),
            spec_req_str(obj_lookup(es@, "status"@)),
        ) {
            (Some(id), Some(ty), Some(ti), Some(st)) => (match (
                spec_opt_tool_call_info(obj_lookup(es@, "toolCall"@)),
                spec_opt_tool_result_info(obj_lookup(es@, "toolResult"@)),
                spec_opt_str(obj_lookup(es@, "llmContent"@)),
            ) {
                (Some(tc), Some(tr), Some(lc)) => Some(
                    AgentProgressStepView {
                        id: id,
                        step_type: ty,
                        title: ti,
                        status: st,
                        tool_call: tc,
                        tool_result: tr,
                        llm_content: lc,
                    },
                ),
                _ => None,
            }),
            _ => None,
        }),
        _ => None,
    }
}

/// Shape of a step array: every element must be a well-formed step.
pub open spec fn spec_steps_of(items: Seq<Json>) -> Option<Seq<AgentProgressStepView>>
    decreases items.len(),
{
    if items.len() == 0 {
        Some(Seq::empty())
    } else {
        match (spec_step_of(items[0]), spec_steps_of(items.drop_first())) {
            (Some(h), Some(t)) => Some(seq![h] + t),
            _ => None,
        }
    }
}

/// The required step field of a progress payload: it must hold an array of
/// well-formed steps.
pub open spec fn spec_req_steps(slot: Option<Json>) -> Option<Seq<AgentProgressStepView>> {
    match slot {
        Some(Json::Arr(items)) => spec_steps_of(items@),
        _ => None,
    }
}

/// Shape of the streaming-content object: cumulative text and the flag that
/// says whether streaming is still in progress.
pub open spec fn spec_streaming_content_of(j: Json) -> Option<StreamingContentView> {
    match j {
        Json::Obj(es) => (match (
            spec_req_str(obj_lookup(es@, "text"@)),
            spec_req_bool(obj_lookup(es@, "isStreaming"@)),
        ) {
            (Some(t), Some(b)) => Some(StreamingContentView { text: t, is_streaming: b }),
            _ => None,
        }),
        _ => None,
    }
}

/// An optional streaming-content field, read like `spec_opt_tool_call_info`.
pub open spec fn spec_opt_streaming(slot: Option<Json>) -> Option<Option<StreamingContentView>> {
    match slot {
        None => Some(None),
        Some(Json::Null) => Some(None),
        Some(x) => match spec_streaming_content_of(x) {
            Some(sc) => Some(Some(sc)),
            None => None,
        },
    }
}

/// Shape of a tool call recorded in a conversation message.
pub open spec fn spec_tool_call_of(j: Json) -> Option<ToolCallView> {
    match j {
        Json::Obj(es) => (match spec_req_str(obj_lookup(es@, "name"@)) {
            Some(n) => Some(
                ToolCallView { name: n, arguments: spec_arg_or_null(obj_lookup(es@, "arguments"@)) },
            ),
            None => None,
        }),
        _ => None,
    }
}

/// Shape of an array of recorded tool calls.
pub open spec fn spec_tool_calls_of(items: Seq<Json>) -> Option<Seq<ToolCallView>>
    decreases items.len(),
{
    if items.len() == 0 {
        Some(Seq::empty())
    } else {
        match (spec_tool_call_of(items[0]), spec_tool_calls_of(items.drop_first())) {
            (Some(h), Some(t)) => Some(seq![h] + t),
            _ => None,
        }
    }
}

/// An optional array of recorded tool calls.
pub open spec fn spec_opt_tool_calls(slot: Option<Json>) -> Option<Option<Seq<ToolCallView>>> {
    match slot {
        None => Some(None),
        Some(Json::Null) => Some(None),
        Some(Json::Arr(items)) => match spec_tool_calls_of(items@) {
            Some(tcs) => Some(Some(tcs)),
            None => None,
        },
        _ => None,
    }
}

/// Shape of a tool result recorded in a conversation message.
pub open spec fn spec_tool_result_of(j: Json) -> Option<ToolResultView> {
    match j {
        Json::Obj(es) => (match (
            spec_req_bool(obj_lookup(es@, "success"@)),
            spec_req_str(obj_lookup(es@, "content"@)),
            spec_opt_str(obj_lookup(es@, "error"@)),
        ) {
            (Some(s), Some(c), Some(e)) => Some(ToolResultView { success: s, content: c, error: e }),
            _ => None,
        }),
        _ => None,
    }
}

/// Shape of an array of recorded tool results.
pub open spec fn spec_tool_results_of(items: Seq<Json>) -> Option<Seq<ToolResultView>>
    decreases items.len(),
{
    if items.len() == 0 {
        Some(Seq::empty())
    } else {
        match (spec_tool_result_of(items[0]), spec_tool_results_of(items.drop_first())) {
            (Some(h), Some(t)) => Some(seq![h] + t),
            _ => None,
        }
    }
}

/// An optional array of recorded tool results.
pub open spec fn spec_opt_tool_results(slot: Option<Json>) -> Option<Option<Seq<ToolResultView>>> {
    match slot {
        None => Some(None),
        Some(Json::Null) => Some(None),
        Some(Json::Arr(items)) => match spec_tool_results_of(items@) {
            Some(trs) => Some(Some(trs)),
            None => None,
        },
        _ => None,
    }
}

/// Shape of one conversation-history message.
pub open spec fn spec_message_of(j: Json) -> Option<ConversationMessageView> {
    match j {
        Json::Obj(es) => (match (
            spec_req_str(obj_lookup(es@, "role"@)),
            spec_req_str(obj_lookup(es@, "content"@)),
            spec_opt_u64(obj_lookup(es@, "timestamp"@)),
        ) {
            (Some(r), Some(c), Some(ts)) => (match (
                spec_opt_tool_calls(obj_lookup(es@, "toolCalls"@)),
                spec_opt_tool_results(obj_lookup(es@, "toolResults"@)),
            ) {
                (Some(tcs), Some(trs)) => Some(
                    ConversationMessageView {
                        role: r,
                        content: c,
                        timestamp: ts,
                        tool_calls: tcs,
                        tool_results: trs,
                    },
                ),
                _ => None,
            }),
            _ => None,
        }),
        _ => None,
    }
}

/// Shape of an array of conversation-history messages.
pub open spec fn spec_messages_of(items: Seq<Json>) -> Option<Seq<ConversationMessageView>>
    decreases items.len(),
{
    if items.len() == 0 {
        Some(Seq::empty())
    } else {
        match (spec_message_of(items[0]), spec_messages_of(items.drop_first())) {
            (Some(h), Some(t)) => Some(seq![h] + t),
            _ => None,
        }
    }
}

/// An optional conversation history.
pub open spec fn spec_opt_messages(slot: Option<Json>) -> Option<
    Option<Seq<ConversationMessageView>>,
> {
    match slot {
        None => Some(None),
        Some(Json::Null) => Some(None),
        Some(Json::Arr(items)) => match spec_messages_of(items@) {
            Some(ms) => Some(Some(ms)),
            None => None,
        },
        _ => None,
    }
}

/// Shape of a progress payload. The session identifier, the two iteration
/// counters, the step list and the completion flag are required; everything
/// else is optional. A missing required field, or any field with the wrong
/// shape, rejects the payload.
pub open spec fn spec_progress_of(j: Json) -> Option<AgentProgressUpdateView> {
    match j {
        Json::Obj(es) => (match (
            spec_req_str(obj_lookup(es@, "sessionId"@)),
            spec_opt_str(obj_lookup(es@, "conversationId"@)),
            spec_opt_str(obj_lookup(es@, "conversationTitle"@)),
            spec_req_i32(obj_lookup(es@, "currentIteration"@)),
            spec_req_i32(obj_lookup(es@, "maxIterations"@)),
            spec_req_steps(obj_lookup(es@, "steps"@)),
            spec_req_bool(obj_lookup(es@, "isComplete"@)),
        ) {
            (Some(sid), Some(cid), Some(ct), Some(ci), Some(mi), Some(steps), Some(ic)) => (match (
                spec_opt_bool(obj_lookup(es@, "isSnoozed"@)),
                spec_opt_str(obj_lookup(es@, "finalContent"@)),
                spec_opt_streaming(obj_lookup(es@, "streamingContent"@)),
                spec_opt_messages(obj_lookup(es@, "conversationHistory"@)),
            ) {
                (Some(sn), Some(fc), Some(sc), Some(ch)) => Some(
                    AgentProgressUpdateView {
                        session_id: sid,
                        conversation_id: cid,
                        conversation_title: ct,
                        current_iteration: ci,
                        max_iterations: mi,
                        steps: steps,
                        is_complete: ic,
                        is_snoozed: sn,
                        final_content: fc,
                        streaming_content: sc,
                        conversation_history: ch,
                    },
                ),
                _ => None,
            }),
            _ => None,
        }),
        _ => None,
    }
}

/// The first of two spellings of a field name that is bound to a value.
pub open spec fn spec_alias_lookup(
    es: Seq<(String, Json)>,
    primary: Seq<char>,
    fallback: Seq<char>,
) -> Option<Json> {
    match obj_lookup(es, primary) {
        Some(v) => Some(v),
        None => obj_lookup(es, fallback),
    }
}

/// Shape of a terminal-success payload. The response content is required;
/// the conversation identifier and history accept both their wire spellings.
pub open spec fn spec_done_of(j: Json) -> Option<DoneEventView> {
    match j {
        Json::Obj(es) => (match (
            spec_req_str(obj_lookup(es@, "content"@)),
            spec_opt_str(spec_alias_lookup(es@, "conversationId"@, "conversation_id"@)),
            spec_opt_messages(spec_alias_lookup(es@, "conversationHistory"@, "conversation_history"@)),
            spec_opt_str(obj_lookup(es@, "model"@)),
        ) {
            (Some(c), Some(cid), Some(ch), Some(m)) => Some(
                DoneEventView { content: c, conversation_id: cid, conversation_history: ch, model: m },
            ),
            _ => None,
        }),
        _ => None,
    }
}

/// Shape of a terminal-failure payload.
pub open spec fn spec_error_of(j: Json) -> Option<ErrorEventView> {
    match j {
        Json::Obj(es) => (match spec_req_str(obj_lookup(es@, "message"@)) {
            Some(m) => Some(ErrorEventView { message: m }),
            None => None,
        }),
        _ => None,
    }
}

/// Classification of a parsed frame: an envelope object with a textual tag
/// and a data field dispatches on the tag; every unrecognized or ill-shaped
/// frame reads as `Unknown`, carrying the trimmed raw text.
pub open spec fn spec_classify(j: Json, raw: Seq<char>) -> SseEventView {
    match j {
        Json::Obj(es) => (match (obj_lookup(es@, "type"@), obj_lookup(es@, "data"@)) {
            (Some(Json::Str(t)), Some(d)) => if t@ == "progress"@ {
                match spec_progress_of(d) {
                    Some(p) => SseEventView::Progress(p),
                    None => SseEventView::Unknown(raw),
                }
            } else if t@ == "done"@ {
                match spec_done_of(d) {
                    Some(dn) => SseEventView::Done(dn),
                    None => SseEventView::Unknown(raw),
                }
            } else if t@ == "error"@ {
                match spec_error_of(d) {
                    Some(e) => SseEventView::Error(e),
                    None => SseEventView::Unknown(raw),
                }
            } else {
                SseEventView::Unknown(raw)
            },
            _ => SseEventView::Unknown(raw),
        }),
        _ => SseEventView::Unknown(raw),
    }
}

/// What one raw frame decodes to: nothing for blank keep-alives and the
/// end-of-stream sentinel, an `Unknown` event for text that is not valid
/// JSON, and otherwise the classification of the parsed tree.
pub open spec fn spec_decode(s: Seq<char>) -> Option<SseEventView> {
    let t = spec_trim(s);
    if t.len() == 0 || t == "[DONE]"@ {
        None
    } else {
        match json_of(t) {
            None => Some(SseEventView::Unknown(t)),
            Some(j) => Some(spec_classify(j, t)),
        }
    }
}

/// The field names read from a tool call info object are pairwise
/// different.
proof fn lemma_tool_call_info_keys_distinct(keys: Seq<&str>)
    requires
        keys.len() == 3,
        keys[0] == "name",
        keys[1] == "arguments",
        keys[2] == "serverName",
    ensures
        distinct_keys(keys),
{
    reveal_strlit("name");
    reveal_strlit("arguments");
    reveal_strlit("serverName");
    assert(keys[0]@.len() == 4);
    assert(keys[1]@.len() == 9);
    assert(keys[2]@.len() == 10);
    assert(keys[0]@[0] == 'n');
    assert(keys[0]@[1] == 'a');
    assert(keys[1]@[0] == 'a');
    assert(keys[1]@[1] == 'r');
    assert(keys[2]@[0] == 's');
    assert(keys[2]@[1] == 'e');
    assert(keys[0]@ != keys[1]@);
    assert(keys[0]@ != keys[2]@);
    assert(keys[1]@ != keys[2]@);
    assert forall|i: int, j: int| 0 <= i < j < keys.len() implies keys[i]@
        != keys[j]@ by {
        if i == 0 && j == 1 {
        } else if i == 0 && j == 2 {
        } else {
            assert(i == 1 && j == 2);
        }
    }
}

/// The field names read from a tool result object are pairwise
/// different.
proof fn lemma_tool_result_keys_distinct(keys: Seq<&str>)
    requires
        keys.len() == 3,
        keys[0] == "success",
        keys[1] == "content",
        keys[2] == "error",
    ensures
        distinct_keys(keys),
{
    reveal_strlit("success");
    reveal_strlit("content");
    reveal_strlit("error");
    assert(keys[0]@.len() == 7);
    assert(keys[1]@.len() == 7);
    assert(keys[2]@.len() == 5);
    assert(keys[0]@[0] == 's');
    assert(keys[0]@[1] == 'u');
    assert(keys[1]@[0] == 'c');
    assert(keys[1]@[1] == 'o');
    assert(keys[2]@[0] == 'e');
    assert(keys[2]@[1] == 'r');
    assert(keys[0]@ != keys[1]@);
    assert(keys[0]@ != keys[2]@);
    assert(keys[1]@ != keys[2]@);
    assert forall|i: int, j: int| 0 <= i < j < keys.len() implies keys[i]@
        != keys[j]@ by {
        if i == 0 && j == 1 {
        } else if i == 0 && j == 2 {
        } else {
            assert(i == 1 && j == 2);
        }
    }
}

/// The field names read from a step object are pairwise
/// different.
proof fn lemma_step_keys_distinct(keys: Seq<&str>)
    requires
        keys.len() == 7,
        keys[0] == "id",
        keys[1] == "type",
        keys[2] == "title",
        keys[3] == "status",
        keys[4] == "toolCall",
        keys[5] == "toolResult",
        keys[6] == "llmContent",
    ensures
        distinct_keys(keys),
{
    reveal_strlit("id");
    reveal_strlit("type");
    reveal_strlit("title");
    reveal_strlit("status");
    reveal_strlit("toolCall");
    reveal_strlit("toolResult");
    reveal_strlit("llmContent");
    assert(keys[0]@.len() == 2);
    assert(keys[1]@.len() == 4);
    assert(keys[2]@.len() == 5);
    assert(keys[3]@.len() == 6);
    assert(keys[4]@.len() == 8);
    assert(keys[5]@.len() == 10);
    assert(keys[6]@.len() == 10);
    assert(keys[0]@[0] == 'i');
    assert(keys[0]@[1] == 'd');
    assert(keys[1]@[0] == 't');
    assert(keys[1]@[1] == 'y');
    assert(keys[2]@[0] == 't');
    assert(keys[2]@[1] == 'i');
    assert(keys[3]@[0] == 's');
    assert(keys[3]@[1] == 't');
    assert(keys[4]@[0] == 't');
    assert(keys[4]@[1] == 'o');
    assert(keys[5]@[0] == 't');
    assert(keys[5]@[1] == 'o');
    assert(keys[6]@[0] == 'l');
    assert(keys[6]@[1] == 'l');
    assert(keys[0]@ != keys[1]@);
    assert(keys[0]@ != keys[2]@);
    assert(keys[0]@ != keys[3]@);
    assert(keys[0]@ != keys[4]@);
    assert(keys[0]@ != keys[5]@);
    assert(keys[0]@ != keys[6]@);
    assert(keys[1]@ != keys[2]@);
    assert(keys[1]@ != keys[3]@);
    assert(keys[1]@ != keys[4]@);
    assert(keys[1]@ != keys[5]@);
    assert(keys[1]@ != keys[6]@);
    assert(keys[2]@ != keys[3]@);
    assert(keys[2]@ != keys[4]@);
    assert(keys[2]@ != keys[5]@);
    assert(keys[2]@ != keys[6]@);
    assert(keys[3]@ != keys[4]@);
    assert(keys[3]@ != keys[5]@);
    assert(keys[3]@ != keys[6]@);
    assert(keys[4]@ != keys[5]@);
    assert(keys[4]@ != keys[6]@);
    assert(keys[5]@ != keys[6]@);
    assert forall|i: int, j: int| 0 <= i < j < keys.len() implies keys[i]@
        != keys[j]@ by {
        if i == 0 && j == 1 {
        } else if i == 0 && j == 2 {
        } else if i == 0 && j == 3 {
        } else if i == 0 && j == 4 {
        } else if i == 0 && j == 5 {
        } else if i == 0 && j == 6 {
        } else if i == 1 && j == 2 {
        } else if i == 1 && j == 3 {
        } else if i == 1 && j == 4 {
        } else if i == 1 && j == 5 {
        } else if i == 1 && j == 6 {
        } else if i == 2 && j == 3 {
        } else if i == 2 && j == 4 {
        } else if i == 2 && j == 5 {
        } else if i == 2 && j == 6 {
        } else if i == 3 && j == 4 {
        } else if i == 3 && j == 5 {
        } else if i == 3 && j == 6 {
        } else if i == 4 && j == 5 {
        } else if i == 4 && j == 6 {
        } else {
            assert(i == 5 && j == 6);
        }
    }
}

/// The field names read from a streaming object are pairwise
/// different.
proof fn lemma_streaming_keys_distinct(keys: Seq<&str>)
    requires
        keys.len() == 2,
        keys[0] == "text",
        keys[1] == "isStreaming",
    ensures
        distinct_keys(keys),
{
    reveal_strlit("text");
    reveal_strlit("isStreaming");
    assert(keys[0]@.len() == 4);
    assert(keys[1]@.len() == 11);
    assert(keys[0]@[0] == 't');
    assert(keys[0]@[1] == 'e');
    assert(keys[1]@[0] == 'i');
    assert(keys[1]@[1] == 's');
    assert(keys[0]@ != keys[1]@);
    assert forall|i: int, j: int| 0 <= i < j < keys.len() implies keys[i]@
        != keys[j]@ by {
        if i == 0 && j == 1 {
        }
    }
}

/// The field names read from a tool call object are pairwise
/// different.
proof fn lemma_tool_call_keys_distinct(keys: Seq<&str>)
    requires
        keys.len() == 2,
        keys[0] == "name",
        keys[1] == "arguments",
    ensures
        distinct_keys(keys),
{
    reveal_strlit("name");
    reveal_strlit("arguments");
    assert(keys[0]@.len() == 4);
    assert(keys[1]@.len() == 9);
    assert(keys[0]@[0] == 'n');
    assert(keys[0]@[1] == 'a');
    assert(keys[1]@[0] == 'a');
    assert(keys[1]@[1] == 'r');
    assert(keys[0]@ != keys[1]@);
    assert forall|i: int, j: int| 0 <= i < j < keys.len() implies keys[i]@
        != keys[j]@ by {
        if i == 0 && j == 1 {
        }
    }
}

/// The field names read from a message object are pairwise
/// different.
proof fn lemma_message_keys_distinct(keys: Seq<&str>)
    requires
        keys.len() == 5,
        keys[0] == "role",
        keys[1] == "content",
        keys[2] == "timestamp",
        keys[3] == "toolCalls",
        keys[4] == "toolResults",
    ensures
        distinct_keys(keys),
{
    reveal_strlit("role");
    reveal_strlit("content");
    reveal_strlit("timestamp");
    reveal_strlit("toolCalls");
    reveal_strlit("toolResults");
    assert(keys[0]@.len() == 4);
    assert(keys[1]@.len() == 7);
    assert(keys[2]@.len() == 9);
    assert(keys[3]@.len() == 9);
    assert(keys[4]@.len() == 11);
    assert(keys[0]@[0] == 'r');
    assert(keys[0]@[1] == 'o');
    assert(keys[1]@[0] == 'c');
    assert(keys[1]@[1] == 'o');
    assert(keys[2]@[0] == 't');
    assert(keys[2]@[1] == 'i');
    assert(keys[3]@[0] == 't');
    assert(keys[3]@[1] == 'o');
    assert(keys[4]@[0] == 't');
    assert(keys[4]@[1] == 'o');
    assert(keys[0]@ != keys[1]@);
    assert(keys[0]@ != keys[2]@);
    assert(keys[0]@ != keys[3]@);
    assert(keys[0]@ != keys[4]@);
    assert(keys[1]@ != keys[2]@);
    assert(keys[1]@ != keys[3]@);
    assert(keys[1]@ != keys[4]@);
    assert(keys[2]@ != keys[3]@);
    assert(keys[2]@ != keys[4]@);
    assert(keys[3]@ != keys[4]@);
    assert forall|i: int, j: int| 0 <= i < j < keys.len() implies keys[i]@
        != keys[j]@ by {
        if i == 0 && j == 1 {
        } else if i == 0 && j == 2 {
        } else if i == 0 && j == 3 {
        } else if i == 0 && j == 4 {
        } else if i == 1 && j == 2 {
        } else if i == 1 && j == 3 {
        } else if i == 1 && j == 4 {
        } else if i == 2 && j == 3 {
        } else if i == 2 && j == 4 {
        } else {
            assert(i == 3 && j == 4);
        }
    }
}

/// The field names read from a progress object are pairwise
/// different.
proof fn lemma_progress_keys_distinct(keys: Seq<&str>)
    requires
        keys.len() == 11,
        keys[0] == "sessionId",
        keys[1] == "conversationId",
        keys[2] == "conversationTitle",
        keys[3] == "currentIteration",
        keys[4] == "maxIterations",
        keys[5] == "steps",
        keys[6] == "isComplete",
        keys[7] == "isSnoozed",
        keys[8] == "finalContent",
        keys[9] == "streamingContent",
        keys[10] == "conversationHistory",
    ensures
        distinct_keys(keys),
{
    reveal_strlit("sessionId");
    reveal_strlit("conversationId");
    reveal_strlit("conversationTitle");
    reveal_strlit("currentIteration");
    reveal_strlit("maxIterations");
    reveal_strlit("steps");
    reveal_strlit("isComplete");
    reveal_strlit("isSnoozed");
    reveal_strlit("finalContent");
    reveal_strlit("streamingContent");
    reveal_strlit("conversationHistory");
    assert(keys[0]@.len() == 9);
    assert(keys[1]@.len() == 14);
    assert(keys[2]@.len() == 17);
    assert(keys[3]@.len() == 16);
    assert(keys[4]@.len() == 13);
    assert(keys[5]@.len() == 5);
    assert(keys[6]@.len() == 10);
    assert(keys[7]@.len() == 9);
    assert(keys[8]@.len() == 12);
    assert(keys[9]@.len() == 16);
    assert(keys[10]@.len() == 19);
    assert(keys[0]@[0] == 's');
    assert(keys[0]@[1] == 'e');
    assert(keys[1]@[0] == 'c');
    assert(keys[1]@[1] == 'o');
    assert(keys[2]@[0] == 'c');
    assert(keys[2]@[1] == 'o');
    assert(keys[3]@[0] == 'c');
    assert(keys[3]@[1] == 'u');
    assert(keys[4]@[0] == 'm');
    assert(keys[4]@[1] == 'a');
    assert(keys[5]@[0] == 's');
    assert(keys[5]@[1] == 't');
    assert(keys[6]@[0] == 'i');
    assert(keys[6]@[1] == 's');
    assert(keys[7]@[0] == 'i');
    assert(keys[7]@[1] == 's');
    assert(keys[8]@[0] == 'f');
    assert(keys[8]@[1] == 'i');
    assert(keys[9]@[0] == 's');
    assert(keys[9]@[1] == 't');
    assert(keys[10]@[0] == 'c');
    assert(keys[10]@[1] == 'o');
    assert(keys[0]@ != keys[1]@);
    assert(keys[0]@ != keys[2]@);
    assert(keys[0]@ != keys[3]@);
    assert(keys[0]@ != keys[4]@);
    assert(keys[0]@ != keys[5]@);
    assert(keys[0]@ != keys[6]@);
    assert(keys[0]@ != keys[7]@);
    assert(keys[0]@ != keys[8]@);
    assert(keys[0]@ != keys[9]@);
    assert(keys[0]@ != keys[10]@);
    assert(keys[1]@ != keys[2]@);
    assert(keys[1]@ != keys[3]@);
    assert(keys[1]@ != keys[4]@);
    assert(keys[1]@ != keys[5]@);
    assert(keys[1]@ != keys[6]@);
    assert(keys[1]@ != keys[7]@);
    assert(keys[1]@ != keys[8]@);
    assert(keys[1]@ != keys[9]@);
    assert(keys[1]@ != keys[10]@);
    assert(keys[2]@ != keys[3]@);
    assert(keys[2]@ != keys[4]@);
    assert(keys[2]@ != keys[5]@);
    assert(keys[2]@ != keys[6]@);
    assert(keys[2]@ != keys[7]@);
    assert(keys[2]@ != keys[8]@);
    assert(keys[2]@ != keys[9]@);
    assert(keys[2]@ != keys[10]@);
    assert(keys[3]@ != keys[4]@);
    assert(keys[3]@ != keys[5]@);
    assert(keys[3]@ != keys[6]@);
    assert(keys[3]@ != keys[7]@);
    assert(keys[3]@ != keys[8]@);
    assert(keys[3]@ != keys[9]@);
    assert(keys[3]@ != keys[10]@);
    assert(keys[4]@ != keys[5]@);
    assert(keys[4]@ != keys[6]@);
    assert(keys[4]@ != keys[7]@);
    assert(keys[4]@ != keys[8]@);
    assert(keys[4]@ != keys[9]@);
    assert(keys[4]@ != keys[10]@);
    assert(keys[5]@ != keys[6]@);
    assert(keys[5]@ != keys[7]@);
    assert(keys[5]@ != keys[8]@);
    assert(keys[5]@ != keys[9]@);
    assert(keys[5]@ != keys[10]@);
    assert(keys[6]@ != keys[7]@);
    assert(keys[6]@ != keys[8]@);
    assert(keys[6]@ != keys[9]@);
    assert(keys[6]@ != keys[10]@);
    assert(keys[7]@ != keys[8]@);
    assert(keys[7]@ != keys[9]@);
    assert(keys[7]@ != keys[10]@);
    assert(keys[8]@ != keys[9]@);
    assert(keys[8]@ != keys[10]@);
    assert(keys[9]@ != keys[10]@);
    assert forall|i: int, j: int| 0 <= i < j < keys.len() implies keys[i]@
        != keys[j]@ by {
        if i == 0 && j == 1 {
        } else if i == 0 && j == 2 {
        } else if i == 0 && j == 3 {
        } else if i == 0 && j == 4 {
        } else if i == 0 && j == 5 {
        } else if i == 0 && j == 6 {
        } else if i == 0 && j == 7 {
        } else if i == 0 && j == 8 {
        } else if i == 0 && j == 9 {
        } else if i == 0 && j == 10 {
        } else if i == 1 && j == 2 {
        } else if i == 1 && j == 3 {
        } else if i == 1 && j == 4 {
        } else if i == 1 && j == 5 {
        } else if i == 1 && j == 6 {
        } else if i == 1 && j == 7 {
        } else if i == 1 && j == 8 {
        } else if i == 1 && j == 9 {
        } else if i == 1 && j == 10 {
        } else if i == 2 && j == 3 {
        } else if i == 2 && j == 4 {
        } else if i == 2 && j == 5 {
        } else if i == 2 && j == 6 {
        } else if i == 2 && j == 7 {
        } else if i == 2 && j == 8 {
        } else if i == 2 && j == 9 {
        } else if i == 2 && j == 10 {
        } else if i == 3 && j == 4 {
        } else if i == 3 && j == 5 {
        } else if i == 3 && j == 6 {
        } else if i == 3 && j == 7 {
        } else if i == 3 && j == 8 {
        } else if i == 3 && j == 9 {
        } else if i == 3 && j == 10 {
        } else if i == 4 && j == 5 {
        } else if i == 4 && j == 6 {
        } else if i == 4 && j == 7 {
        } else if i == 4 && j == 8 {
        } else if i == 4 && j == 9 {
        } else if i == 4 && j == 10 {
        } else if i == 5 && j == 6 {
        } else if i == 5 && j == 7 {
        } else if i == 5 && j == 8 {
        } else if i == 5 && j == 9 {
        } else if i == 5 && j == 10 {
        } else if i == 6 && j == 7 {
        } else if i == 6 && j == 8 {
        } else if i == 6 && j == 9 {
        } else if i == 6 && j == 10 {
        } else if i == 7 && j == 8 {
        } else if i == 7 && j == 9 {
        } else if i == 7 && j == 10 {
        } else if i == 8 && j == 9 {
        } else if i == 8 && j == 10 {
        } else {
            assert(i == 9 && j == 10);
        }
    }
}

/// The field names read from a done object are pairwise
/// different.
proof fn lemma_done_keys_distinct(keys: Seq<&str>)
    requires
        keys.len() == 6,
        keys[0] == "content",
        keys[1] == "conversationId",
        keys[2] == "conversation_id",
        keys[3] == "conversationHistory",
        keys[4] == "conversation_history",
        keys[5] == "model",
    ensures
        distinct_keys(keys),
{
    reveal_strlit("content");
    reveal_strlit("conversationId");
    reveal_strlit("conversation_id");
    reveal_strlit("conversationHistory");
    reveal_strlit("conversation_history");
    reveal_strlit("model");
    assert(keys[0]@.len() == 7);
    assert(keys[1]@.len() == 14);
    assert(keys[2]@.len() == 15);
    assert(keys[3]@.len() == 19);
    assert(keys[4]@.len() == 20);
    assert(keys[5]@.len() == 5);
    assert(keys[0]@[0] == 'c');
    assert(keys[0]@[1] == 'o');
    assert(keys[1]@[0] == 'c');
    assert(keys[1]@[1] == 'o');
    assert(keys[2]@[0] == 'c');
    assert(keys[2]@[1] == 'o');
    assert(keys[3]@[0] == 'c');
    assert(keys[3]@[1] == 'o');
    assert(keys[4]@[0] == 'c');
    assert(keys[4]@[1] == 'o');
    assert(keys[5]@[0] == 'm');
    assert(keys[5]@[1] == 'o');
    assert(keys[0]@ != keys[1]@);
    assert(keys[0]@ != keys[2]@);
    assert(keys[0]@ != keys[3]@);
    assert(keys[0]@ != keys[4]@);
    assert(keys[0]@ != keys[5]@);
    assert(keys[1]@ != keys[2]@);
    assert(keys[1]@ != keys[3]@);
    assert(keys[1]@ != keys[4]@);
    assert(keys[1]@ != keys[5]@);
    assert(keys[2]@ != keys[3]@);
    assert(keys[2]@ != keys[4]@);
    assert(keys[2]@ != keys[5]@);
    assert(keys[3]@ != keys[4]@);
    assert(keys[3]@ != keys[5]@);
    assert(keys[4]@ != keys[5]@);
    assert forall|i: int, j: int| 0 <= i < j < keys.len() implies keys[i]@
        != keys[j]@ by {
        if i == 0 && j == 1 {
        } else if i == 0 && j == 2 {
        } else if i == 0 && j == 3 {
        } else if i == 0 && j == 4 {
        } else if i == 0 && j == 5 {
        } else if i == 1 && j == 2 {
        } else if i == 1 && j == 3 {
        } else if i == 1 && j == 4 {
        } else if i == 1 && j == 5 {
        } else if i == 2 && j == 3 {
        } else if i == 2 && j == 4 {
        } else if i == 2 && j == 5 {
        } else if i == 3 && j == 4 {
        } else if i == 3 && j == 5 {
        } else {
            assert(i == 4 && j == 5);
        }
    }
}

/// The field names read from a error payload object are pairwise
/// different.
proof fn lemma_error_payload_keys_distinct(keys: Seq<&str>)
    requires
        keys.len() == 1,
        keys[0] == "message",
    ensures
        distinct_keys(keys),
{
    reveal_strlit("message");
    assert(keys[0]@.len() == 7);
    assert(keys[0]@[0] == 'm');
    assert(keys[0]@[1] == 'e');
}

/// The field names read from a envelope object are pairwise
/// different.
proof fn lemma_envelope_keys_distinct(keys: Seq<&str>)
    requires
        keys.len() == 2,
        keys[0] == "type",
        keys[1] == "data",
    ensures
        distinct_keys(keys),
{
    reveal_strlit("type");
    reveal_strlit("data");
    assert(keys[0]@.len() == 4);
    assert(keys[1]@.len() == 4);
    assert(keys[0]@[0] == 't');
    assert(keys[0]@[1] == 'y');
    assert(keys[1]@[0] == 'd');
    assert(keys[1]@[1] == 'a');
    assert(keys[0]@ != keys[1]@);
    assert forall|i: int, j: int| 0 <= i < j < keys.len() implies keys[i]@
        != keys[j]@ by {
        if i == 0 && j == 1 {
        }
    }
}

/// A parsed frame whose envelope and payload have a recognized shape: an
/// object with a textual tag, a data field, and a payload matching the tag.
pub open spec fn spec_frame_recognized(j: Json) -> bool {
    match j {
        Json::Obj(es) => (match (obj_lookup(es@, "type"@), obj_lookup(es@, "data"@)) {
            (Some(Json::Str(t)), Some(d)) => (t@ == "progress"@ && spec_progress_of(d) is Some) || (
            t@ == "done"@ && spec_done_of(d) is Some) || (t@ == "error"@ && spec_error_of(
                d,
            ) is Some),
            _ => false,
        }),
        _ => false,
    }
}

/// Malformed input is isolated, never fatal: every frame that is non-blank,
/// is not the end-of-stream sentinel, and is not a recognized protocol frame
/// decodes to `Unknown` carrying the trimmed text. Decoding itself is total,
/// so no input can make it panic.
pub proof fn lemma_malformed_decodes_to_unknown(s: Seq<char>)
    requires
        spec_trim(s).len() > 0,
        spec_trim(s) != "[DONE]"@,
        match json_of(spec_trim(s)) {
            Some(j) => !spec_frame_recognized(j),
            None => true,
        },
    ensures
        spec_decode(s) == Some(SseEventView::Unknown(spec_trim(s))),
{
}

/// Reads a field that may hold any JSON; see `spec_arg_or_null`.
fn arg_or_null(slot: Option<Json>) -> (r: Json)
    ensures
        r == spec_arg_or_null(slot),
{
    match slot {
        Some(a) => a,
        None => Json::Null,
    }
}

/// Prefers the first of two field spellings; see `spec_alias_lookup`.
fn alias_slot(primary: Option<Json>, fallback: Option<Json>) -> (r: Option<Json>)
    ensures
        r == (match primary {
            Some(v) => Some(v),
            None => fallback,
        }),
{
    match primary {
        Some(v) => Some(v),
        None => fallback,
    }
}

/// Reads an embedded tool call; see `spec_tool_call_info_of`.
fn tool_call_info_from(j: Json) -> (r: Option<ToolCallInfo>)
    ensures
        r.deep_view() == spec_tool_call_info_of(j),
{
    match j {
        Json::Obj(entries) => {
            let keys: Vec<&str> = vec!["name", "arguments", "serverName"];
            proof {
                lemma_tool_call_info_keys_distinct(keys@);
            }
            let mut slots = take_fields(entries, &keys);
            let name_slot = slots.remove(0);
            let args_slot = slots.remove(0);
            let server_slot = slots.remove(0);
            let name = req_str(name_slot);
            let server = opt_str(server_slot);
            match (name, server) {
                (Some(n), Some(sn)) => Some(
                    ToolCallInfo { name: n, arguments: arg_or_null(args_slot), server_name: sn },
                ),
                _ => None,
            }
        },
        _ => None,
    }
}

/// Reads an embedded tool result; see `spec_tool_result_info_of`.
fn tool_result_info_from(j: Json) -> (r: Option<ToolResultInfo>)
    ensures
        r.deep_view() == spec_tool_result_info_of(j),
{
    match j {
        Json::Obj(entries) => {
            let keys: Vec<&str> = vec!["success", "content", "error"];
            proof {
                lemma_tool_result_keys_distinct(keys@);
            }
            let mut slots = take_fields(entries, &keys);
            let success_slot = slots.remove(0);
            let content_slot = slots.remove(0);
            let error_slot = slots.remove(0);
            match (req_bool(success_slot), req_str(content_slot), opt_str(error_slot)) {
                (Some(s), Some(c), Some(e)) => Some(
                    ToolResultInfo { success: s, content: c, error: e },
                ),
                _ => None,
            }
        },
        _ => None,
    }
}

/// Reads an optional embedded tool call; see `spec_opt_tool_call_info`.
fn opt_tool_call_info_from(slot: Option<Json>) -> (r: Option<Option<ToolCallInfo>>)
    ensures
        r.deep_view() == spec_opt_tool_call_info(slot),
{
    match slot {
        None => Some(None),
        Some(Json::Null) => Some(None),
        Some(x) => match tool_call_info_from(x) {
            Some(tc) => Some(Some(tc)),
            None => None,
        },
    }
}

/// Reads an optional embedded tool result; see `spec_opt_tool_result_info`.
fn opt_tool_result_info_from(slot: Option<Json>) -> (r: Option<Option<ToolResultInfo>>)
    ensures
        r.deep_view() == spec_opt_tool_result_info(slot),
{
    match slot {
        None => Some(None),
        Some(Json::Null) => Some(None),
        Some(x) => match tool_result_info_from(x) {
            Some(tr) => Some(Some(tr)),
            None => None,
        },
    }
}

/// Reads one progress step; see `spec_step_of`.
fn step_from(j: Json) -> (r: Option<AgentProgressStep>)
    ensures
        r.deep_view() == spec_step_of(j),
{
    match j {
        Json::Obj(entries) => {
            let keys: Vec<&str> = vec![
                "id",
                "type",
                "title",
                "status",
                "toolCall",
                "toolResult",
                "llmContent",
            ];
            proof {
                lemma_step_keys_distinct(keys@);
            }
            let mut slots = take_fields(entries, &keys);
            let id_slot = slots.remove(0);
            let type_slot = slots.remove(0);
            let title_slot = slots.remove(0);
            let status_slot = slots.remove(0);
            let tc_slot = slots.remove(0);
            let tr_slot = slots.remove(0);
            let lc_slot = slots.remove(0);
            match (req_str(id_slot), req_str(type_slot), req_str(title_slot), req_str(status_slot)) {
                (Some(id), Some(ty), Some(ti), Some(st)) => {
                    match (
                        opt_tool_call_info_from(tc_slot),
                        opt_tool_result_info_from(tr_slot),
                        opt_str(lc_slot),
                    ) {
                        (Some(tc), Some(tr), Some(lc)) => Some(
                            AgentProgressStep {
                                id: id,
                                step_type: ty,
                                title: ti,
                                status: st,
                                tool_call: tc,
                                tool_result: tr,
                                llm_content: lc,
                            },
                        ),
                        _ => None,
                    }
                },
                _ => None,
            }
        },
        _ => None,
    }
}

/// Reads an array of progress steps; see `spec_steps_of`.
fn steps_from_arr(items: Vec<Json>) -> (r: Option<Vec<AgentProgressStep>>)
    ensures
        r.deep_view() == spec_steps_of(items@),
{
    let ghost all = items@;
    let mut rest = items;
    let mut out: Vec<AgentProgressStep> = Vec::new();
    while rest.len() > 0
        invariant
            all == items@,
            spec_steps_of(all) == (match spec_steps_of(rest@) {
                Some(t) => Some(out.deep_view() + t),
                None => None::<Seq<AgentProgressStepView>>,
            }),
        decreases rest@.len(),
    {
        let ghost prev = rest@;
        let e = rest.remove(0);
        proof {
            assert(rest@ =~= prev.drop_first());
        }
        match step_from(e) {
            Some(st) => {
                let ghost old_out = out.deep_view();
                out.push(st);
                proof {
                    assert(out.deep_view() =~= old_out.push(st.deep_view()));
                    if spec_steps_of(rest@) is Some {
                        let t2 = spec_steps_of(rest@)->0;
                        assert((old_out + (seq![st.deep_view()] + t2)) =~= (old_out.push(
                            st.deep_view(),
                        ) + t2));
                    }
                }
            },
            None => {
                proof {
                    assert(prev[0] == e);
                    assert(spec_steps_of(prev) is None);
                }
                return None;
            },
        }
    }
    proof {
        assert(rest@ =~= Seq::<Json>::empty());
        assert(out.deep_view() + Seq::<AgentProgressStepView>::empty() =~= out.deep_view());
    }
    Some(out)
}

/// Reads the required step field of a progress payload; see
/// `spec_req_steps`.
fn req_steps_from(slot: Option<Json>) -> (r: Option<Vec<AgentProgressStep>>)
    ensures
        r.deep_view() == spec_req_steps(slot),
{
    match slot {
        Some(Json::Arr(items)) => steps_from_arr(items),
        _ => None,
    }
}

/// Reads a streaming-content object; see `spec_streaming_content_of`.
fn streaming_content_from(j: Json) -> (r: Option<StreamingContent>)
    ensures
        r.deep_view() == spec_streaming_content_of(j),
{
    match j {
        Json::Obj(entries) => {
            let keys: Vec<&str> = vec!["text", "isStreaming"];
            proof {
                lemma_streaming_keys_distinct(keys@);
            }
            let mut slots = take_fields(entries, &keys);
            let text_slot = slots.remove(0);
            let streaming_slot = slots.remove(0);
            match (req_str(text_slot), req_bool(streaming_slot)) {
                (Some(t), Some(b)) => Some(StreamingContent { text: t, is_streaming: b }),
                _ => None,
            }
        },
        _ => None,
    }
}

/// Reads an optional streaming-content field; see `spec_opt_streaming`.
fn opt_streaming_from(slot: Option<Json>) -> (r: Option<Option<StreamingContent>>)
    ensures
        (match r {
            Some(Some(sc)) => Some(Some(sc.deep_view())),
            Some(None) => Some(None),
            None => None::<Option<StreamingContentView>>,
        }) == spec_opt_streaming(slot),
{
    match slot {
        None => Some(None),
        Some(Json::Null) => Some(None),
        Some(x) => match streaming_content_from(x) {
            Some(sc) => Some(Some(sc)),
            None => None,
        },
    }
}

/// Reads a recorded tool call; see `spec_tool_call_of`.
fn tool_call_from(j: Json) -> (r: Option<ToolCall>)
    ensures
        r.deep_view() == spec_tool_call_of(j),
{
    match j {
        Json::Obj(entries) => {
            let keys: Vec<&str> = vec!["name", "arguments"];
            proof {
                lemma_tool_call_keys_distinct(keys@);
            }
            let mut slots = take_fields(entries, &keys);
            let name_slot = slots.remove(0);
            let args_slot = slots.remove(0);
            match req_str(name_slot) {
                Some(n) => Some(ToolCall { name: n, arguments: arg_or_null(args_slot) }),
                None => None,
            }
        },
        _ => None,
    }
}

/// Reads an array of recorded tool calls; see `spec_tool_calls_of`.
fn tool_calls_from_arr(items: Vec<Json>) -> (r: Option<Vec<ToolCall>>)
    ensures
        r.deep_view() == spec_tool_calls_of(items@),
{
    let ghost all = items@;
    let mut rest = items;
    let mut out: Vec<ToolCall> = Vec::new();
    while rest.len() > 0
        invariant
            all == items@,
            spec_tool_calls_of(all) == (match spec_tool_calls_of(rest@) {
                Some(t) => Some(out.deep_view() + t),
                None => None::<Seq<ToolCallView>>,
            }),
        decreases rest@.len(),
    {
        let ghost prev = rest@;
        let e = rest.remove(0);
        proof {
            assert(rest@ =~= prev.drop_first());
        }
        match tool_call_from(e) {
            Some(tc) => {
                let ghost old_out = out.deep_view();
                out.push(tc);
                proof {
                    assert(out.deep_view() =~= old_out.push(tc.deep_view()));
                    if spec_tool_calls_of(rest@) is Some {
                        let t2 = spec_tool_calls_of(rest@)->0;
                        assert((old_out + (seq![tc.deep_view()] + t2)) =~= (old_out.push(
                            tc.deep_view(),
                        ) + t2));
                    }
                }
            },
            None => {
                proof {
                    assert(prev[0] == e);
                    assert(spec_tool_calls_of(prev) is None);
                }
                return None;
            },
        }
    }
    proof {
        assert(rest@ =~= Seq::<Json>::empty());
        assert(out.deep_view() + Seq::<ToolCallView>::empty() =~= out.deep_view());
    }
    Some(out)
}

/// Reads an optional array of recorded tool calls; see `spec_opt_tool_calls`.
fn opt_tool_calls_from(slot: Option<Json>) -> (r: Option<Option<Vec<ToolCall>>>)
    ensures
        r.deep_view() == spec_opt_tool_calls(slot),
{
    match slot {
        None => Some(None),
        Some(Json::Null) => Some(None),
        Some(Json::Arr(items)) => match tool_calls_from_arr(items) {
            Some(tcs) => Some(Some(tcs)),
            None => None,
        },
        _ => None,
    }
}

/// Reads a recorded tool result; see `spec_tool_result_of`.
fn tool_result_from(j: Json) -> (r: Option<ToolResult>)
    ensures
        r.deep_view() == spec_tool_result_of(j),
{
    match j {
        Json::Obj(entries) => {
            let keys: Vec<&str> = vec!["success", "content", "error"];
            proof {
                lemma_tool_result_keys_distinct(keys@);
            }
            let mut slots = take_fields(entries, &keys);
            let success_slot = slots.remove(0);
            let content_slot = slots.remove(0);
            let error_slot = slots.remove(0);
            match (req_bool(success_slot), req_str(content_slot), opt_str(error_slot)) {
                (Some(s), Some(c), Some(e)) => Some(ToolResult { success: s, content: c, error: e }),
                _ => None,
            }
        },
        _ => None,
    }
}

/// Reads an array of recorded tool results; see `spec_tool_results_of`.
fn tool_results_from_arr(items: Vec<Json>) -> (r: Option<Vec<ToolResult>>)
    ensures
        r.deep_view() == spec_tool_results_of(items@),
{
    let ghost all = items@;
    let mut rest = items;
    let mut out: Vec<ToolResult> = Vec::new();
    while rest.len() > 0
        invariant
            all == items@,
            spec_tool_results_of(all) == (match spec_tool_results_of(rest@) {
                Some(t) => Some(out.deep_view() + t),
                None => None::<Seq<ToolResultView>>,
            }),
        decreases rest@.len(),
    {
        let ghost prev = rest@;
        let e = rest.remove(0);
        proof {
            assert(rest@ =~= prev.drop_first());
        }
        match tool_result_from(e) {
            Some(tr) => {
                let ghost old_out = out.deep_view();
                out.push(tr);
                proof {
                    assert(out.deep_view() =~= old_out.push(tr.deep_view()));
                    if spec_tool_results_of(rest@) is Some {
                        let t2 = spec_tool_results_of(rest@)->0;
                        assert((old_out + (seq![tr.deep_view()] + t2)) =~= (old_out.push(
                            tr.deep_view(),
                        ) + t2));
                    }
                }
            },
            None => {
                proof {
                    assert(prev[0] == e);
                    assert(spec_tool_results_of(prev) is None);
                }
                return None;
            },
        }
    }
    proof {
        assert(rest@ =~= Seq::<Json>::empty());
        assert(out.deep_view() + Seq::<ToolResultView>::empty() =~= out.deep_view());
    }
    Some(out)
}

/// Reads an optional array of recorded tool results; see
/// `spec_opt_tool_results`.
fn opt_tool_results_from(slot: Option<Json>) -> (r: Option<Option<Vec<ToolResult>>>)
    ensures
        r.deep_view() == spec_opt_tool_results(slot),
{
    match slot {
        None => Some(None),
        Some(Json::Null) => Some(None),
        Some(Json::Arr(items)) => match tool_results_from_arr(items) {
            Some(trs) => Some(Some(trs)),
            None => None,
        },
        _ => None,
    }
}

/// Reads one conversation-history message; see `spec_message_of`.
fn message_from(j: Json) -> (r: Option<ConversationMessage>)
    ensures
        r.deep_view() == spec_message_of(j),
{
    match j {
        Json::Obj(entries) => {
            let keys: Vec<&str> = vec!["role", "content", "timestamp", "toolCalls", "toolResults"];
            proof {
                lemma_message_keys_distinct(keys@);
            }
            let mut slots = take_fields(entries, &keys);
            let role_slot = slots.remove(0);
            let content_slot = slots.remove(0);
            let ts_slot = slots.remove(0);
            let tcs_slot = slots.remove(0);
            let trs_slot = slots.remove(0);
            match (req_str(role_slot), req_str(content_slot), opt_u64(ts_slot)) {
                (Some(r0), Some(c), Some(ts)) => {
                    match (opt_tool_calls_from(tcs_slot), opt_tool_results_from(trs_slot)) {
                        (Some(tcs), Some(trs)) => Some(
                            ConversationMessage {
                                role: r0,
                                content: c,
                                timestamp: ts,
                                tool_calls: tcs,
                                tool_results: trs,
                            },
                        ),
                        _ => None,
                    }
                },
                _ => None,
            }
        },
        _ => None,
    }
}

/// Reads an array of conversation-history messages; see `spec_messages_of`.
fn messages_from_arr(items: Vec<Json>) -> (r: Option<Vec<ConversationMessage>>)
    ensures
        r.deep_view() == spec_messages_of(items@),
{
    let ghost all = items@;
    let mut rest = items;
    let mut out: Vec<ConversationMessage> = Vec::new();
    while rest.len() > 0
        invariant
            all == items@,
            spec_messages_of(all) == (match spec_messages_of(rest@) {
                Some(t) => Some(out.deep_view() + t),
                None => None::<Seq<ConversationMessageView>>,
            }),
        decreases rest@.len(),
    {
        let ghost prev = rest@;
        let e = rest.remove(0);
        proof {
            assert(rest@ =~= prev.drop_first());
        }
        match message_from(e) {
            Some(m) => {
                let ghost old_out = out.deep_view();
                out.push(m);
                proof {
                    assert(out.deep_view() =~= old_out.push(m.deep_view()));
                    if spec_messages_of(rest@) is Some {
                        let t2 = spec_messages_of(rest@)->0;
                        assert((old_out + (seq![m.deep_view()] + t2)) =~= (old_out.push(
                            m.deep_view(),
                        ) + t2));
                    }
                }
            },
            None => {
                proof {
                    assert(prev[0] == e);
                    assert(spec_messages_of(prev) is None);
                }
                return None;
            },
        }
    }
    proof {
        assert(rest@ =~= Seq::<Json>::empty());
        assert(out.deep_view() + Seq::<ConversationMessageView>::empty() =~= out.deep_view());
    }
    Some(out)
}

/// Reads an optional conversation history; see `spec_opt_messages`.
fn opt_messages_from(slot: Option<Json>) -> (r: Option<Option<Vec<ConversationMessage>>>)
    ensures
        r.deep_view() == spec_opt_messages(slot),
{
    match slot {
        None => Some(None),
        Some(Json::Null) => Some(None),
        Some(Json::Arr(items)) => match messages_from_arr(items) {
            Some(ms) => Some(Some(ms)),
            None => None,
        },
        _ => None,
    }
}

/// Reads a progress payload; see `spec_progress_of`.
fn progress_from(j: Json) -> (r: Option<AgentProgressUpdate>)
    ensures
        r.deep_view() == spec_progress_of(j),
{
    match j {
        Json::Obj(entries) => {
            let keys: Vec<&str> = vec![
                "sessionId",
                "conversationId",
                "conversationTitle",
                "currentIteration",
                "maxIterations",
                "steps",
                "isComplete",
                "isSnoozed",
                "finalContent",
                "streamingContent",
                "conversationHistory",
            ];
            proof {
                lemma_progress_keys_distinct(keys@);
            }
            let mut slots = take_fields(entries, &keys);
            let sid_slot = slots.remove(0);
            let cid_slot = slots.remove(0);
            let ct_slot = slots.remove(0);
            let ci_slot = slots.remove(0);
            let mi_slot = slots.remove(0);
            let steps_slot = slots.remove(0);
            let ic_slot = slots.remove(0);
            let sn_slot = slots.remove(0);
            let fc_slot = slots.remove(0);
            let sc_slot = slots.remove(0);
            let ch_slot = slots.remove(0);
            match (
                req_str(sid_slot),
                opt_str(cid_slot),
                opt_str(ct_slot),
                req_i32(ci_slot),
                req_i32(mi_slot),
                req_steps_from(steps_slot),
                req_bool(ic_slot),
            ) {
                (Some(sid), Some(cid), Some(ct), Some(ci), Some(mi), Some(steps), Some(ic)) => {
                    match (
                        opt_bool(sn_slot),
                        opt_str(fc_slot),
                        opt_streaming_from(sc_slot),
                        opt_messages_from(ch_slot),
                    ) {
                        (Some(sn), Some(fc), Some(sc), Some(ch)) => Some(
                            AgentProgressUpdate {
                                session_id: sid,
                                conversation_id: cid,
                                conversation_title: ct,
                                current_iteration: ci,
                                max_iterations: mi,
                                steps: steps,
                                is_complete: ic,
                                is_snoozed: sn,
                                final_content: fc,
                                streaming_content: sc,
                                conversation_history: ch,
                            },
                        ),
                        _ => None,
                    }
                },
                _ => None,
            }
        },
        _ => None,
    }
}

/// Reads a terminal-success payload; see `spec_done_of`.
fn done_from(j: Json) -> (r: Option<DoneEvent>)
    ensures
        r.deep_view() == spec_done_of(j),
{
    match j {
        Json::Obj(entries) => {
            let keys: Vec<&str> = vec![
                "content",
                "conversationId",
                "conversation_id",
                "conversationHistory",
                "conversation_history",
                "model",
            ];
            proof {
                lemma_done_keys_distinct(keys@);
            }
            let mut slots = take_fields(entries, &keys);
            let content_slot = slots.remove(0);
            let cid_a = slots.remove(0);
            let cid_b = slots.remove(0);
            let ch_a = slots.remove(0);
            let ch_b = slots.remove(0);
            let model_slot = slots.remove(0);
            let cid_slot = alias_slot(cid_a, cid_b);
            let ch_slot = alias_slot(ch_a, ch_b);
            match (
                req_str(content_slot),
                opt_str(cid_slot),
                opt_messages_from(ch_slot),
                opt_str(model_slot),
            ) {
                (Some(c), Some(cid), Some(ch), Some(m)) => Some(
                    DoneEvent {
                        content: c,
                        conversation_id: cid,
                        conversation_history: ch,
                        model: m,
                    },
                ),
                _ => None,
            }
        },
        _ => None,
    }
}

/// Reads a terminal-failure payload; see `spec_error_of`.
fn error_from(j: Json) -> (r: Option<ErrorEvent>)
    ensures
        r.deep_view() == spec_error_of(j),
{
    match j {
        Json::Obj(entries) => {
            let keys: Vec<&str> = vec!["message"];
            proof {
                lemma_error_payload_keys_distinct(keys@);
            }
            let mut slots = take_fields(entries, &keys);
            let message_slot = slots.remove(0);
            match req_str(message_slot) {
                Some(m) => Some(ErrorEvent { message: m }),
                None => None,
            }
        },
        _ => None,
    }
}

/// Classifies a parsed frame; see `spec_classify`.
fn classify_frame(j: Json, raw: &str) -> (r: SseEvent)
    ensures
        r.deep_view() == spec_classify(j, raw@),
{
    match j {
        Json::Obj(entries) => {
            let keys: Vec<&str> = vec!["type", "data"];
            proof {
                lemma_envelope_keys_distinct(keys@);
            }
            let mut slots = take_fields(entries, &keys);
            let type_slot = slots.remove(0);
            let data_slot = slots.remove(0);
            match (type_slot, data_slot) {
                (Some(Json::Str(t)), Some(d)) => {
                    if str_eq(t.as_str(), "progress") {
                        match progress_from(d) {
                            Some(p) => SseEvent::Progress(p),
                            None => SseEvent::Unknown(raw.to_owned()),
                        }
                    } else if str_eq(t.as_str(), "done") {
                        match done_from(d) {
                            Some(dn) => SseEvent::Done(dn),
                            None => SseEvent::Unknown(raw.to_owned()),
                        }
                    } else if str_eq(t.as_str(), "error") {
                        match error_from(d) {
                            Some(e) => SseEvent::Error(e),
                            None => SseEvent::Unknown(raw.to_owned()),
                        }
                    } else {
                        SseEvent::Unknown(raw.to_owned())
                    }
                },
                _ => SseEvent::Unknown(raw.to_owned()),
            }
        },
        _ => SseEvent::Unknown(raw.to_owned()),
    }
}

/// Decodes one raw frame into at most one event; see `spec_decode`.
///
/// Blank frames and the end-of-stream sentinel yield nothing; text that is
/// not valid JSON, or whose envelope or payload shape is not recognized,
/// yields `Unknown` rather than a failure.
pub fn parse_sse_event(data: &str) -> (r: Option<SseEvent>)
    ensures
        r.deep_view() == spec_decode(data@),
{
    let t = trim_str(data);
    if t.unicode_len() == 0 {
        return None;
    }
    if str_eq(t, "[DONE]") {
        return None;
    }
    match parse_json(t) {
        None => Some(SseEvent::Unknown(t.to_owned())),
        Some(j) => Some(classify_frame(j, t)),
    }
}

} // verus!
