//! Per-turn streaming session: owns the printed-so-far cursor and the final
//! result, applies decoded events, and decides whether the stream continues.
//!
//! The cursor guarantees that each character of the assistant's cumulative
//! output is emitted exactly once: a progress frame whose text does not reach
//! beyond the cursor emits nothing, one that does emits only the new suffix.

use vstd::prelude::*;

use crate::api::{ConversationMessage, ConversationMessageView};
use crate::sse::{
    AgentProgressStep, AgentProgressStepView, AgentProgressUpdate, AgentProgressUpdateView,
    DoneEvent, DoneEventView, ErrorEvent, SseEvent, SseEventView, StreamingContent, ToolCallInfo,
    ToolCallInfoView, ToolResultInfo, ToolResultInfoView,
};
use crate::json::str_eq;

verus! {

/// One unit handed to the caller's sink: a fresh suffix of the assistant's
/// output, or a side-channel notice that never joins the printed text.
pub enum EmitUnit {
    /// A fresh suffix of the cumulative assistant output.
    Text(String),
    /// A tool call reported by a running or completed progress step.
    ToolCallNotice(ToolCallInfo),
    /// A tool result reported by a running or completed progress step.
    ToolResultNotice(ToolResultInfo),
}

/// Spec view of an `EmitUnit`.
pub ghost enum EmitUnitView {
    Text(Seq<char>),
    ToolCallNotice(ToolCallInfoView),
    ToolResultNotice(ToolResultInfoView),
}

impl DeepView for EmitUnit {
    type V = EmitUnitView;

    open spec fn deep_view(&self) -> EmitUnitView {
        match self {
            EmitUnit::Text(t) => EmitUnitView::Text(t@),
            EmitUnit::ToolCallNotice(tc) => EmitUnitView::ToolCallNotice(tc.deep_view()),
            EmitUnit::ToolResultNotice(tr) => EmitUnitView::ToolResultNotice(tr.deep_view()),
        }
    }
}

/// Whether the stream goes on after an event: `Stop(Ok(()))` after terminal
/// success, `Stop(Err(message))` after a remote failure, `Continue` else.
pub enum Continuation {
    Continue,
    Stop(Result<(), String>),
}

/// Spec view of a `Continuation`.
pub ghost enum ContinuationView {
    Continue,
    Stop(Result<(), Seq<char>>),
}

impl DeepView for Continuation {
    type V = ContinuationView;

    open spec fn deep_view(&self) -> ContinuationView {
        match self {
            Continuation::Continue => ContinuationView::Continue,
            Continuation::Stop(r) => ContinuationView::Stop(
                match r {
                    Ok(_) => Ok(()),
                    Err(m) => Err(m@),
                },
            ),
        }
    }
}

/// What a successfully terminated turn hands back to the caller.
pub struct FinalResult {
    pub content: String,
    pub conversation_id: Option<String>,
    pub conversation_history: Option<Vec<ConversationMessage>>,
}

/// Spec view of a `FinalResult`.
pub ghost struct FinalResultView {
    pub content: Seq<char>,
    pub conversation_id: Option<Seq<char>>,
    pub conversation_history: Option<Seq<ConversationMessageView>>,
}

impl DeepView for FinalResult {
    type V = FinalResultView;

    open spec fn deep_view(&self) -> FinalResultView {
        FinalResultView {
            content: self.content@,
            conversation_id: self.conversation_id.deep_view(),
            conversation_history: self.conversation_history.deep_view(),
        }
    }
}

/// Mutable per-turn state: how many characters of the cumulative output have
/// been emitted, and the final result once a terminal success arrived.
pub struct SessionState {
    pub printed_len: usize,
    pub final_result: Option<FinalResult>,
}

/// Spec view of a `SessionState`.
pub ghost struct SessionStateView {
    pub printed_len: nat,
    pub final_result: Option<FinalResultView>,
}

impl DeepView for SessionState {
    type V = SessionStateView;

    open spec fn deep_view(&self) -> SessionStateView {
        SessionStateView {
            printed_len: self.printed_len as nat,
            final_result: match self.final_result {
                Some(fr) => Some(fr.deep_view()),
                None => None,
            },
        }
    }
}

/// What applying one event produced: sink units in order, and the decision
/// whether the stream goes on.
pub struct ApplyOutcome {
    pub emissions: Vec<EmitUnit>,
    pub continuation: Continuation,
}

/// The state at turn start: nothing printed, no final result.
pub open spec fn spec_session_init() -> SessionStateView {
    SessionStateView { printed_len: 0, final_result: None }
}

/// Notices of one step: its tool call and tool result, where the step is
/// reported running or complete.
pub open spec fn spec_step_notices(st: AgentProgressStepView) -> Seq<EmitUnitView> {
    if st.status == "running"@ || st.status == "complete"@ {
        (match st.tool_call {
            Some(c) => seq![EmitUnitView::ToolCallNotice(c)],
            None => Seq::empty(),
        }) + (match st.tool_result {
            Some(r) => seq![EmitUnitView::ToolResultNotice(r)],
            None => Seq::empty(),
        })
    } else {
        Seq::empty()
    }
}

/// Notices of a step list, in step order.
pub open spec fn spec_notices(steps: Seq<AgentProgressStepView>) -> Seq<EmitUnitView>
    decreases steps.len(),
{
    if steps.len() == 0 {
        Seq::empty()
    } else {
        spec_step_notices(steps[0]) + spec_notices(steps.drop_first())
    }
}

/// The new text a progress frame contributes: the suffix of the cumulative
/// text beyond the cursor, provided streaming is in progress and the text
/// reaches past the cursor. A shorter text is a stale frame and contributes
/// nothing.
pub open spec fn spec_text_growth(printed: nat, u: AgentProgressUpdateView) -> Option<Seq<char>> {
    match u.streaming_content {
        Some(sc) => if sc.is_streaming && sc.text.len() > printed {
            Some(sc.text.subrange(printed as int, sc.text.len() as int))
        } else {
            None
        },
        None => None,
    }
}

/// The result of applying one event, at the spec level.
pub ghost struct SpecApplyResult {
    pub state: SessionStateView,
    pub emissions: Seq<EmitUnitView>,
    pub continuation: ContinuationView,
}

/// What applying one decoded event does to the session.
///
/// Progress: emit the step notices, then the fresh text suffix if the text
/// grew; advance the cursor to the new text length; continue. Done: emit the
/// part of the content beyond the cursor, record the final result, stop with
/// success. Error: change nothing, stop with the remote message. Unknown:
/// change nothing, continue.
pub open spec fn spec_apply(st: SessionStateView, ev: SseEventView) -> SpecApplyResult {
    match ev {
        SseEventView::Progress(u) => {
            let notices = spec_notices(u.steps);
            match spec_text_growth(st.printed_len, u) {
                Some(sfx) => SpecApplyResult {
                    state: SessionStateView {
                        printed_len: u.streaming_content->0.text.len(),
                        final_result: st.final_result,
                    },
                    emissions: notices.push(EmitUnitView::Text(sfx)),
                    continuation: ContinuationView::Continue,
                },
                None => SpecApplyResult {
                    state: st,
                    emissions: notices,
                    continuation: ContinuationView::Continue,
                },
            }
        },
        SseEventView::Done(d) => SpecApplyResult {
            state: SessionStateView {
                printed_len: if d.content.len() > st.printed_len {
                    d.content.len()
                } else {
                    st.printed_len
                },
                final_result: Some(
                    FinalResultView {
                        content: d.content,
                        conversation_id: d.conversation_id,
                        conversation_history: d.conversation_history,
                    },
                ),
            },
            emissions: if d.content.len() > st.printed_len {
                seq![
                    EmitUnitView::Text(
                        d.content.subrange(st.printed_len as int, d.content.len() as int),
                    ),
                ]
            } else {
                Seq::empty()
            },
            continuation: ContinuationView::Stop(Ok(())),
        },
        SseEventView::Error(e) => SpecApplyResult {
            state: st,
            emissions: Seq::empty(),
            continuation: ContinuationView::Stop(Err(e.message)),
        },
        SseEventView::Unknown(_) => SpecApplyResult {
            state: st,
            emissions: Seq::empty(),
            continuation: ContinuationView::Continue,
        },
    }
}

/// The printed text of a unit sequence: the concatenation of its text
/// units, notices contributing nothing.
pub open spec fn texts_of(ems: Seq<EmitUnitView>) -> Seq<char>
    decreases ems.len(),
{
    if ems.len() == 0 {
        Seq::empty()
    } else {
        (match ems[0] {
            EmitUnitView::Text(t) => t,
            _ => Seq::empty(),
        }) + texts_of(ems.drop_first())
    }
}

/// `texts_of` distributes over concatenation.
pub proof fn lemma_texts_of_concat(a: Seq<EmitUnitView>, b: Seq<EmitUnitView>)
    ensures
        texts_of(a + b) == texts_of(a) + texts_of(b),
    decreases a.len(),
{
    if a.len() == 0 {
        assert(a + b =~= b);
        assert(texts_of(a) + texts_of(b) =~= texts_of(b));
    } else {
        assert((a + b).drop_first() =~= a.drop_first() + b);
        lemma_texts_of_concat(a.drop_first(), b);
        assert((match (a + b)[0] {
            EmitUnitView::Text(t) => t,
            _ => Seq::empty(),
        }) == (match a[0] {
            EmitUnitView::Text(t) => t,
            _ => Seq::empty(),
        }));
        assert((match a[0] {
            EmitUnitView::Text(t) => t,
            _ => Seq::empty(),
        }) + (texts_of(a.drop_first()) + texts_of(b)) =~= ((match a[0] {
            EmitUnitView::Text(t) => t,
            _ => Seq::empty(),
        }) + texts_of(a.drop_first())) + texts_of(b));
    }
}

/// Step notices carry no printed text.
pub proof fn lemma_notices_have_no_text(steps: Seq<AgentProgressStepView>)
    ensures
        texts_of(spec_notices(steps)) == Seq::<char>::empty(),
    decreases steps.len(),
{
    if steps.len() == 0 {
    } else {
        let head = spec_step_notices(steps[0]);
        lemma_texts_of_concat(head, spec_notices(steps.drop_first()));
        lemma_notices_have_no_text(steps.drop_first());
        assert(texts_of(head) =~= Seq::<char>::empty()) by {
            assert(texts_of(Seq::<EmitUnitView>::empty()) == Seq::<char>::empty());
            if head.len() > 0 {
                assert(texts_of(head.drop_first()) =~= Seq::<char>::empty()) by {
                    if head.drop_first().len() > 0 {
                        assert(head.drop_first().drop_first() =~= Seq::<EmitUnitView>::empty());
                    }
                }
            }
        }
        assert(texts_of(head) + texts_of(spec_notices(steps.drop_first())) =~= Seq::<
            char,
        >::empty());
    }
}

/// Folding a sequence of events through `spec_apply`, collecting every
/// emission in order.
pub open spec fn spec_apply_seq(st: SessionStateView, evs: Seq<SseEventView>) -> (
    SessionStateView,
    Seq<EmitUnitView>,
)
    decreases evs.len(),
{
    if evs.len() == 0 {
        (st, Seq::empty())
    } else {
        let a = spec_apply(st, evs[0]);
        let rest = spec_apply_seq(a.state, evs.drop_first());
        (rest.0, a.emissions + rest.1)
    }
}

/// One text is the other's beginning.
pub open spec fn is_prefix_of(a: Seq<char>, b: Seq<char>) -> bool {
    a.len() <= b.len() && a == b.subrange(0, a.len() as int)
}

/// The cumulative text a progress update carries.
pub open spec fn streaming_text(u: AgentProgressUpdateView) -> Seq<char> {
    u.streaming_content->0.text
}

/// Every update in the sequence is streaming its cumulative text.
pub open spec fn all_streaming(evs: Seq<AgentProgressUpdateView>) -> bool {
    forall|i: int|
        0 <= i < evs.len() ==> (#[trigger] evs[i].streaming_content) is Some
            && evs[i].streaming_content->0.is_streaming
}

/// Each update's text begins with the previous one's.
pub open spec fn prefix_chain(evs: Seq<AgentProgressUpdateView>) -> bool {
    forall|i: int|
        0 <= i < evs.len() - 1 ==> is_prefix_of(
            streaming_text(#[trigger] evs[i]),
            streaming_text(evs[i + 1]),
        )
}

/// Over a run of progress frames whose cumulative texts grow by extension,
/// the printed text already covered by the cursor plus everything the
/// session emits is exactly the last frame's text: every character is
/// delivered once and none is lost.
pub proof fn lemma_stream_concat(
    st: SessionStateView,
    evs: Seq<AgentProgressUpdateView>,
    prev: Seq<char>,
)
    requires
        evs.len() > 0,
        st.printed_len == prev.len(),
        all_streaming(evs),
        prefix_chain(evs),
        is_prefix_of(prev, streaming_text(evs[0])),
    ensures
        ({
            let r = spec_apply_seq(st, evs.map_values(|u| SseEventView::Progress(u)));
            prev + texts_of(r.1) == streaming_text(evs.last()) && r.0.printed_len
                == streaming_text(evs.last()).len() && r.0.final_result == st.final_result
        }),
    decreases evs.len(),
{
    let mapped = evs.map_values(|u| SseEventView::Progress(u));
    assert(mapped[0] == SseEventView::Progress(evs[0]));
    let t0 = streaming_text(evs[0]);
    let a = spec_apply(st, mapped[0]);
    lemma_notices_have_no_text(evs[0].steps);
    let st1 = a.state;
    assert(st1.printed_len == t0.len()) by {
        if t0.len() <= prev.len() {
            assert(t0.len() == prev.len());
        }
    }
    assert(prev + texts_of(a.emissions) == t0) by {
        match spec_text_growth(st.printed_len, evs[0]) {
            Some(sfx) => {
                let notices = spec_notices(evs[0].steps);
                assert(a.emissions =~= notices + seq![EmitUnitView::Text(sfx)]);
                lemma_texts_of_concat(notices, seq![EmitUnitView::Text(sfx)]);
                assert(texts_of(seq![EmitUnitView::Text(sfx)]) =~= sfx) by {
                    assert(texts_of(Seq::<EmitUnitView>::empty()) == Seq::<char>::empty());
                    assert(seq![EmitUnitView::Text(sfx)].drop_first() =~= Seq::<
                        EmitUnitView,
                    >::empty());
                    assert(sfx + Seq::<char>::empty() =~= sfx);
                }
                assert(texts_of(a.emissions) =~= sfx);
                assert(prev + sfx =~= t0);
            },
            None => {
                assert(t0.len() == prev.len());
                assert(prev =~= t0);
                assert(texts_of(a.emissions) =~= Seq::<char>::empty());
                assert(prev + Seq::<char>::empty() =~= prev);
            },
        }
    }
    if evs.len() == 1 {
        assert(mapped.drop_first() =~= Seq::<SseEventView>::empty());
        assert(spec_apply_seq(st1, mapped.drop_first()).1 =~= Seq::<EmitUnitView>::empty());
        lemma_texts_of_concat(a.emissions, Seq::empty());
        assert(a.emissions + Seq::<EmitUnitView>::empty() =~= a.emissions);
    } else {
        let tail = evs.drop_first();
        assert(all_streaming(tail)) by {
            assert forall|i: int| 0 <= i < tail.len() implies (
            #[trigger] tail[i].streaming_content) is Some
                && tail[i].streaming_content->0.is_streaming by {
                assert(tail[i] == evs[i + 1]);
            }
        }
        assert(prefix_chain(tail)) by {
            assert forall|i: int| 0 <= i < tail.len() - 1 implies is_prefix_of(
                streaming_text(#[trigger] tail[i]),
                streaming_text(tail[i + 1]),
            ) by {
                assert(tail[i] == evs[i + 1]);
                assert(tail[i + 1] == evs[i + 2]);
                assert(is_prefix_of(streaming_text(evs[i + 1]), streaming_text(evs[i + 2])));
            }
        }
        assert(is_prefix_of(t0, streaming_text(tail[0]))) by {
            assert(tail[0] == evs[1]);
            assert(is_prefix_of(streaming_text(evs[0]), streaming_text(evs[1])));
        }
        lemma_stream_concat(st1, tail, t0);
        let rtail = spec_apply_seq(st1, tail.map_values(|u| SseEventView::Progress(u)));
        assert(mapped.drop_first() =~= tail.map_values(|u| SseEventView::Progress(u)));
        lemma_texts_of_concat(a.emissions, rtail.1);
        assert(tail.last() == evs.last());
        assert((prev + texts_of(a.emissions)) + texts_of(rtail.1) =~= prev + (texts_of(a.emissions)
            + texts_of(rtail.1)));
        assert(prev + (texts_of(a.emissions) + texts_of(rtail.1)) == t0 + texts_of(rtail.1));
    }
}

/// Replaying a progress frame after one whose text already reached at least
/// as far produces no text emission and leaves the session state unchanged:
/// only its step notices are emitted again.
pub proof fn lemma_replay_is_idle(
    st: SessionStateView,
    u: AgentProgressUpdateView,
    u2: AgentProgressUpdateView,
)
    requires
        u.streaming_content is Some,
        u.streaming_content->0.is_streaming,
        u2.streaming_content is Some,
        u2.streaming_content->0.text.len() <= u.streaming_content->0.text.len(),
    ensures
        ({
            let once = spec_apply(st, SseEventView::Progress(u));
            let twice = spec_apply(once.state, SseEventView::Progress(u2));
            twice.state == once.state && twice.emissions == spec_notices(u2.steps)
        }),
{
}

/// A terminal success whose content reaches past the cursor emits exactly
/// the missing suffix, of length content length minus cursor, and records
/// the full content as the final result.
pub proof fn lemma_done_emits_missing_suffix(st: SessionStateView, d: DoneEventView)
    requires
        st.printed_len < d.content.len(),
    ensures
        ({
            let a = spec_apply(st, SseEventView::Done(d));
            &&& a.emissions == seq![
                EmitUnitView::Text(
                    d.content.subrange(st.printed_len as int, d.content.len() as int),
                ),
            ]
            &&& texts_of(a.emissions).len() == d.content.len() - st.printed_len
            &&& a.state.final_result == Some(
                FinalResultView {
                    content: d.content,
                    conversation_id: d.conversation_id,
                    conversation_history: d.conversation_history,
                },
            )
            &&& a.continuation == ContinuationView::Stop(Ok(()))
        }),
{
    let a = spec_apply(st, SseEventView::Done(d));
    let sfx = d.content.subrange(st.printed_len as int, d.content.len() as int);
    assert(texts_of(a.emissions) =~= sfx) by {
        assert(texts_of(Seq::<EmitUnitView>::empty()) == Seq::<char>::empty());
        assert(a.emissions.drop_first() =~= Seq::<EmitUnitView>::empty());
        assert(sfx + Seq::<char>::empty() =~= sfx);
    }
}

/// Round trip through an echoed terminal frame: where a raw frame decodes to
/// a terminal success, a fresh session applied to that event prints exactly
/// the frame's content and records it as the final result.
pub proof fn lemma_echoed_done_round_trip(s: Seq<char>, dv: DoneEventView)
    requires
        crate::sse::spec_decode(s) == Some(SseEventView::Done(dv)),
    ensures
        ({
            let a = spec_apply(spec_session_init(), SseEventView::Done(dv));
            &&& texts_of(a.emissions) == dv.content
            &&& a.state.final_result == Some(
                FinalResultView {
                    content: dv.content,
                    conversation_id: dv.conversation_id,
                    conversation_history: dv.conversation_history,
                },
            )
            &&& a.continuation == ContinuationView::Stop(Ok(()))
        }),
{
    let a = spec_apply(spec_session_init(), SseEventView::Done(dv));
    if dv.content.len() > 0 {
        assert(texts_of(a.emissions) =~= dv.content) by {
            assert(texts_of(Seq::<EmitUnitView>::empty()) == Seq::<char>::empty());
            assert(a.emissions.drop_first() =~= Seq::<EmitUnitView>::empty());
            assert(dv.content.subrange(0, dv.content.len() as int) =~= dv.content);
            assert(dv.content.subrange(0, dv.content.len() as int) + Seq::<char>::empty()
                =~= dv.content.subrange(0, dv.content.len() as int));
        }
    } else {
        assert(texts_of(a.emissions) =~= dv.content);
    }
}

impl SessionState {
    /// A fresh session at turn start.
    pub fn new() -> (r: SessionState)
        ensures
            r.deep_view() == spec_session_init(),
    {
        SessionState { printed_len: 0, final_result: None }
    }

    /// Applies one decoded event; see `spec_apply`. Total: no input panics.
    pub fn apply(&mut self, event: SseEvent) -> (r: ApplyOutcome)
        ensures
            final(self).deep_view() == spec_apply(old(self).deep_view(), event.deep_view()).state,
            r.emissions.deep_view() == spec_apply(
                old(self).deep_view(),
                event.deep_view(),
            ).emissions,
            r.continuation.deep_view() == spec_apply(
                old(self).deep_view(),
                event.deep_view(),
            ).continuation,
    {
        match event {
            SseEvent::Progress(u) => {
                let AgentProgressUpdate {
                    session_id: _,
                    conversation_id: _,
                    conversation_title: _,
                    current_iteration: _,
                    max_iterations: _,
                    steps,
                    is_complete: _,
                    is_snoozed: _,
                    final_content: _,
                    streaming_content,
                    conversation_history: _,
                } = u;
                let ghost all_steps = steps.deep_view();
                let mut emissions: Vec<EmitUnit> = Vec::new();
                let mut rest = steps;
                while rest.len() > 0
                    invariant
                        spec_notices(all_steps) == emissions.deep_view() + spec_notices(
                            rest.deep_view(),
                        ),
                    decreases rest@.len(),
                {
                    let ghost prev = rest.deep_view();
                    let ghost prev_raw = rest@;
                    let ghost em0 = emissions.deep_view();
                    let step = rest.remove(0);
                    proof {
                        assert(rest@ =~= prev_raw.drop_first());
                        assert(rest.deep_view() =~= prev.drop_first());
                        assert(step.deep_view() == prev[0]);
                    }
                    let ghost sv = step.deep_view();
                    let AgentProgressStep {
                        id: _,
                        step_type: _,
                        title: _,
                        status,
                        tool_call,
                        tool_result,
                        llm_content: _,
                    } = step;
                    if str_eq(status.as_str(), "running") || str_eq(status.as_str(), "complete") {
                        match tool_call {
                            Some(tc) => {
                                let ghost before = emissions.deep_view();
                                emissions.push(EmitUnit::ToolCallNotice(tc));
                                proof {
                                    assert(emissions.deep_view() =~= before.push(
                                        EmitUnitView::ToolCallNotice(sv.tool_call->0),
                                    ));
                                }
                            },
                            None => {},
                        }
                        match tool_result {
                            Some(tr) => {
                                let ghost before = emissions.deep_view();
                                emissions.push(EmitUnit::ToolResultNotice(tr));
                                proof {
                                    assert(emissions.deep_view() =~= before.push(
                                        EmitUnitView::ToolResultNotice(sv.tool_result->0),
                                    ));
                                }
                            },
                            None => {},
                        }
                        proof {
                            assert(emissions.deep_view() =~= em0 + spec_step_notices(sv));
                        }
                    } else {
                        proof {
                            assert(spec_step_notices(sv) =~= Seq::<EmitUnitView>::empty());
                            assert(emissions.deep_view() =~= em0 + spec_step_notices(sv));
                        }
                    }
                    proof {
                        assert(spec_notices(prev) == spec_step_notices(sv) + spec_notices(
                            rest.deep_view(),
                        ));
                        assert((em0 + spec_step_notices(sv)) + spec_notices(rest.deep_view())
                            =~= em0 + (spec_step_notices(sv) + spec_notices(rest.deep_view())));
                    }
                }
                proof {
                    assert(spec_notices(rest.deep_view()) =~= Seq::<EmitUnitView>::empty());
                    assert(emissions.deep_view() + Seq::<EmitUnitView>::empty() =~= emissions.deep_view());
                }
                match streaming_content {
                    Some(sc) => {
                        let StreamingContent { text, is_streaming } = sc;
                        if is_streaming {
                            let text_len = text.as_str().unicode_len();
                            if text_len > self.printed_len {
                                let ghost em1 = emissions.deep_view();
                                let suffix = text.as_str().substring_char(
                                    self.printed_len,
                                    text_len,
                                );
                                let suffix_string = suffix.to_owned();
                                emissions.push(EmitUnit::Text(suffix_string));
                                self.printed_len = text_len;
                                proof {
                                    assert(emissions.deep_view() =~= em1.push(
                                        EmitUnitView::Text(
                                            text@.subrange(
                                                old(self).deep_view().printed_len as int,
                                                text@.len() as int,
                                            ),
                                        ),
                                    ));
                                }
                            }
                        }
                    },
                    None => {},
                }
                ApplyOutcome { emissions, continuation: Continuation::Continue }
            },
            SseEvent::Done(d) => {
                let DoneEvent { content, conversation_id, conversation_history, model: _ } = d;
                let mut emissions: Vec<EmitUnit> = Vec::new();
                let content_len = content.as_str().unicode_len();
                if content_len > self.printed_len {
                    let suffix = content.as_str().substring_char(self.printed_len, content_len);
                    let suffix_string = suffix.to_owned();
                    emissions.push(EmitUnit::Text(suffix_string));
                    self.printed_len = content_len;
                    proof {
                        assert(emissions.deep_view() =~= seq![
                            EmitUnitView::Text(
                                content@.subrange(
                                    old(self).deep_view().printed_len as int,
                                    content@.len() as int,
                                ),
                            ),
                        ]);
                    }
                } else {
                    proof {
                        assert(emissions.deep_view() =~= Seq::<EmitUnitView>::empty());
                    }
                }
                self.final_result = Some(
                    FinalResult { content, conversation_id, conversation_history },
                );
                ApplyOutcome { emissions, continuation: Continuation::Stop(Ok(())) }
            },
            SseEvent::Error(e) => {
                let emissions: Vec<EmitUnit> = Vec::new();
                proof {
                    assert(emissions.deep_view() =~= Seq::<EmitUnitView>::empty());
                }
                ApplyOutcome { emissions, continuation: Continuation::Stop(Err(e.message)) }
            },
            SseEvent::Unknown(_) => {
                let emissions: Vec<EmitUnit> = Vec::new();
                proof {
                    assert(emissions.deep_view() =~= Seq::<EmitUnitView>::empty());
                }
                ApplyOutcome { emissions, continuation: Continuation::Continue }
            },
        }
    }
}

} // verus!
