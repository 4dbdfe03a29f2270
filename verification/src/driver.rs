//! Session driver: feeds raw frames through the decoder and the streaming
//! session, collects every emission in order, and turns the way the stream
//! ended into a final result or a typed failure.
//!
//! The driver is a three-state machine: active at turn start, terminated
//! with success after a terminal-success event, terminated with failure
//! after a remote error. Terminated states absorb: a driver that has
//! terminated processes no further frames.

use vstd::prelude::*;

use crate::session::{
    spec_apply, spec_session_init, ApplyOutcome, Continuation, ContinuationView, EmitUnit,
    EmitUnitView, FinalResult, FinalResultView, SessionState, SessionStateView,
};
use crate::sse::{parse_sse_event, spec_decode};

verus! {

/// Why a turn ended without a final result.
#[derive(Debug)]
pub enum SessionError {
    /// The remote side reported a failure; carries its message.
    Remote(String),
    /// The frame source ended without any terminal event.
    IncompleteStream,
    /// The transport failed or the turn was cancelled; carries the
    /// transport's diagnostic detail.
    Transport(String),
}

/// Spec view of a `SessionError`.
pub ghost enum SessionErrorView {
    Remote(Seq<char>),
    IncompleteStream,
    Transport(Seq<char>),
}

impl DeepView for SessionError {
    type V = SessionErrorView;

    open spec fn deep_view(&self) -> SessionErrorView {
        match self {
            SessionError::Remote(m) => SessionErrorView::Remote(m@),
            SessionError::IncompleteStream => SessionErrorView::IncompleteStream,
            SessionError::Transport(m) => SessionErrorView::Transport(m@),
        }
    }
}

/// The driver's state: still reading frames, terminated with success, or
/// terminated with the remote failure message.
pub enum DriverStatus {
    Active,
    Succeeded,
    Failed(String),
}

/// Spec view of a `DriverStatus`.
pub ghost enum DriverStatusView {
    Active,
    Succeeded,
    Failed(Seq<char>),
}

impl DeepView for DriverStatus {
    type V = DriverStatusView;

    open spec fn deep_view(&self) -> DriverStatusView {
        match self {
            DriverStatus::Active => DriverStatusView::Active,
            DriverStatus::Succeeded => DriverStatusView::Succeeded,
            DriverStatus::Failed(m) => DriverStatusView::Failed(m@),
        }
    }
}

/// One turn's driver: the session state and the state-machine status.
pub struct SessionDriver {
    pub session: SessionState,
    pub status: DriverStatus,
}

/// Spec view of a `SessionDriver`.
pub ghost struct SessionDriverView {
    pub session: SessionStateView,
    pub status: DriverStatusView,
}

impl DeepView for SessionDriver {
    type V = SessionDriverView;

    open spec fn deep_view(&self) -> SessionDriverView {
        SessionDriverView { session: self.session.deep_view(), status: self.status.deep_view() }
    }
}

/// A driver at turn start: fresh session, active.
pub open spec fn spec_driver_init() -> SessionDriverView {
    SessionDriverView { session: spec_session_init(), status: DriverStatusView::Active }
}

/// What one raw frame does to the driver. A terminated driver ignores it; a
/// frame that decodes to nothing is a keep-alive, not stream end; otherwise
/// the decoded event is applied and a stop decision terminates the driver.
pub open spec fn spec_driver_step(dv: SessionDriverView, s: Seq<char>) -> (
    SessionDriverView,
    Seq<EmitUnitView>,
) {
    if !(dv.status is Active) {
        (dv, Seq::empty())
    } else {
        match spec_decode(s) {
            None => (dv, Seq::empty()),
            Some(ev) => {
                let a = spec_apply(dv.session, ev);
                let status = match a.continuation {
                    ContinuationView::Continue => DriverStatusView::Active,
                    ContinuationView::Stop(outcome) => match outcome {
                        Ok(_) => DriverStatusView::Succeeded,
                        Err(m) => DriverStatusView::Failed(m),
                    },
                };
                (SessionDriverView { session: a.state, status: status }, a.emissions)
            },
        }
    }
}

/// What ending the turn yields: the final result after success, the remote
/// message after failure, and the incomplete-stream error where the source
/// ended while the driver was still active.
pub open spec fn spec_finish(dv: SessionDriverView) -> Result<FinalResultView, SessionErrorView> {
    match dv.status {
        DriverStatusView::Active => Err(SessionErrorView::IncompleteStream),
        DriverStatusView::Succeeded => match dv.session.final_result {
            Some(fr) => Ok(fr),
            None => Err(SessionErrorView::IncompleteStream),
        },
        DriverStatusView::Failed(m) => Err(SessionErrorView::Remote(m)),
    }
}

/// Folding a whole frame sequence through the driver, stopping at the first
/// terminal event.
pub open spec fn spec_drive(dv: SessionDriverView, frames: Seq<Seq<char>>) -> (
    SessionDriverView,
    Seq<EmitUnitView>,
)
    decreases frames.len(),
{
    if frames.len() == 0 || !(dv.status is Active) {
        (dv, Seq::empty())
    } else {
        let first = spec_driver_step(dv, frames[0]);
        let rest = spec_drive(first.0, frames.drop_first());
        (rest.0, first.1 + rest.1)
    }
}

/// What a whole turn over a materialized frame sequence produces: the
/// emissions in order, and the final result or the typed failure.
pub open spec fn spec_run_frames(frames: Seq<Seq<char>>) -> (
    Seq<EmitUnitView>,
    Result<FinalResultView, SessionErrorView>,
) {
    let r = spec_drive(spec_driver_init(), frames);
    (r.1, spec_finish(r.0))
}

/// Spec view of a turn's outcome.
pub open spec fn spec_result_view(r: Result<FinalResult, SessionError>) -> Result<
    FinalResultView,
    SessionErrorView,
> {
    match r {
        Ok(f) => Ok(f.deep_view()),
        Err(e) => Err(e.deep_view()),
    }
}

/// Terminated states absorb: a driver that has terminated is left unchanged
/// by any further frame and emits nothing for it.
pub proof fn lemma_terminal_states_absorb(dv: SessionDriverView, s: Seq<char>)
    requires
        !(dv.status is Active),
    ensures
        spec_driver_step(dv, s).0 == dv,
        spec_driver_step(dv, s).1 == Seq::<EmitUnitView>::empty(),
{
}

impl SessionDriver {
    /// A driver at turn start.
    pub fn new() -> (r: SessionDriver)
        ensures
            r.deep_view() == spec_driver_init(),
    {
        SessionDriver { session: SessionState::new(), status: DriverStatus::Active }
    }

    /// Whether a terminal event has been processed.
    pub fn is_terminated(&self) -> (b: bool)
        ensures
            b == !(self.deep_view().status is Active),
    {
        match self.status {
            DriverStatus::Active => false,
            _ => true,
        }
    }

    /// Feeds one raw frame; see `spec_driver_step`. The emissions are handed
    /// back in order for the caller's sink.
    pub fn step(&mut self, raw: &str) -> (emissions: Vec<EmitUnit>)
        ensures
            final(self).deep_view() == spec_driver_step(old(self).deep_view(), raw@).0,
            emissions.deep_view() == spec_driver_step(old(self).deep_view(), raw@).1,
    {
        let active = match self.status {
            DriverStatus::Active => true,
            _ => false,
        };
        if !active {
            let emissions: Vec<EmitUnit> = Vec::new();
            proof {
                assert(emissions.deep_view() =~= Seq::<EmitUnitView>::empty());
            }
            return emissions;
        }
        match parse_sse_event(raw) {
            None => {
                let emissions: Vec<EmitUnit> = Vec::new();
                proof {
                    assert(emissions.deep_view() =~= Seq::<EmitUnitView>::empty());
                }
                emissions
            },
            Some(ev) => {
                let outcome = self.session.apply(ev);
                let ApplyOutcome { emissions, continuation } = outcome;
                match continuation {
                    Continuation::Continue => {},
                    Continuation::Stop(stop) => match stop {
                        Ok(_) => {
                            self.status = DriverStatus::Succeeded;
                        },
                        Err(m) => {
                            self.status = DriverStatus::Failed(m);
                        },
                    },
                }
                emissions
            },
        }
    }

    /// Ends the turn; see `spec_finish`.
    pub fn finish(self) -> (r: Result<FinalResult, SessionError>)
        ensures
            spec_result_view(r) == spec_finish(self.deep_view()),
    {
        match self.status {
            DriverStatus::Active => Err(SessionError::IncompleteStream),
            DriverStatus::Succeeded => match self.session.final_result {
                Some(fr) => Ok(fr),
                None => Err(SessionError::IncompleteStream),
            },
            DriverStatus::Failed(m) => Err(SessionError::Remote(m)),
        }
    }
}

/// Runs one whole turn over a materialized frame sequence; see
/// `spec_run_frames`. Reading stops at the first terminal event: frames
/// after it are not processed.
pub fn run_frames(frames: &Vec<String>) -> (r: (Vec<EmitUnit>, Result<FinalResult, SessionError>))
    ensures
        r.0.deep_view() == spec_run_frames(frames.deep_view()).0,
        spec_result_view(r.1) == spec_run_frames(frames.deep_view()).1,
{
    let ghost all = frames.deep_view();
    let mut driver = SessionDriver::new();
    let mut emissions: Vec<EmitUnit> = Vec::new();
    let mut i: usize = 0;
    proof {
        assert(all.skip(0) =~= all);
        assert(emissions.deep_view() =~= Seq::<EmitUnitView>::empty());
        assert(Seq::<EmitUnitView>::empty() + spec_drive(driver.deep_view(), all).1 =~= spec_drive(
            driver.deep_view(),
            all,
        ).1);
    }
    while i < frames.len() && !driver.is_terminated()
        invariant
            all == frames.deep_view(),
            i <= all.len(),
            spec_drive(spec_driver_init(), all).0 == spec_drive(
                driver.deep_view(),
                all.skip(i as int),
            ).0,
            spec_drive(spec_driver_init(), all).1 == emissions.deep_view() + spec_drive(
                driver.deep_view(),
                all.skip(i as int),
            ).1,
        decreases all.len() - i,
    {
        let ghost dv0 = driver.deep_view();
        let ghost em0 = emissions.deep_view();
        let mut step_emissions = driver.step(frames[i].as_str());
        emissions.append(&mut step_emissions);
        i = i + 1;
        proof {
            let rem = all.skip(i - 1);
            assert(rem[0] == all[i - 1]);
            assert(all[i - 1] == frames@[i - 1]@);
            assert(rem.drop_first() =~= all.skip(i as int));
            let first = spec_driver_step(dv0, rem[0]);
            assert(spec_drive(dv0, rem).0 == spec_drive(driver.deep_view(), all.skip(i as int)).0);
            assert(spec_drive(dv0, rem).1 == first.1 + spec_drive(
                driver.deep_view(),
                all.skip(i as int),
            ).1);
            assert(emissions.deep_view() =~= em0 + first.1);
            assert((em0 + first.1) + spec_drive(driver.deep_view(), all.skip(i as int)).1 =~= em0
                + (first.1 + spec_drive(driver.deep_view(), all.skip(i as int)).1));
        }
    }
    proof {
        if i == all.len() {
            assert(all.skip(i as int) =~= Seq::<Seq<char>>::empty());
        }
        assert(spec_drive(driver.deep_view(), all.skip(i as int)).0 == driver.deep_view());
        assert(spec_drive(driver.deep_view(), all.skip(i as int)).1 =~= Seq::<EmitUnitView>::empty());
        assert(emissions.deep_view() + Seq::<EmitUnitView>::empty() =~= emissions.deep_view());
    }
    let result = driver.finish();
    (emissions, result)
}

} // verus!
