//! The resolution of one breakpoint hit.
//!
//! The tracee has run into a trap. To let it go on, the tracer rewinds its
//! instruction pointer to the trap, puts the replaced byte back, runs that
//! one instruction, plants the trap again and resumes. The order is fixed:
//! a step before the restore would strike the trap again, and a trap
//! planted before the step would run the wrong instruction.

use crate::breakpoint::Breakpoint;
use crate::protocol::{
    forwarded, last_refusal, passed_on, Backend, Exchange, Request, Response, TraceError,
    WaitStatus,
};
use vstd::prelude::*;

verus! {

/// How far the resolution of a hit has come: the request that is out.
#[derive(Clone, Copy, Debug, PartialEq, Eq, Structural)]
pub enum HitStage {
    /// The instruction pointer is being set back to the trap.
    Rewinding,
    /// The word that holds the trap is being read, to take the trap out.
    Reading,
    /// The word with the replaced byte is being written.
    Restoring,
    /// The tracee is being told to run one instruction.
    Stepping,
    /// The tracer waits for the tracee to stop after that instruction.
    Settling,
    /// The word is being read again, to plant the trap; the signal is the
    /// one that the tracee stopped with.
    Rereading(i32),
    /// The word with the trap is being written.
    Arming(i32),
    /// The tracee is being resumed.
    Resuming,
}

/// The resolution of one hit, under way.
#[derive(Clone, Copy, Debug, PartialEq, Eq, Structural)]
pub struct HitCycle {
    /// The breakpoint that was hit, with its flag as the tracee's memory
    /// stands.
    pub breakpoint: Breakpoint,
    /// The request that is out.
    pub stage: HitStage,
}

/// What the resolution of a hit does next.
#[derive(Clone, Copy, Debug, PartialEq, Eq, Structural)]
pub enum HitStep {
    /// It asks for the request and goes on from the cycle when the response
    /// is in.
    Ask(HitCycle, Request),
    /// It is done: the trap is planted again and the tracee runs.
    Resumed(Breakpoint),
    /// It gave up, because a request was refused or answered out of kind.
    Failed(Breakpoint),
}

impl HitStage {
    /// The number of requests that are still to be answered.
    pub open spec fn rank(self) -> nat {
        match self {
            HitStage::Rewinding => 8,
            HitStage::Reading => 7,
            HitStage::Restoring => 6,
            HitStage::Stepping => 5,
            HitStage::Settling => 4,
            HitStage::Rereading(_) => 3,
            HitStage::Arming(_) => 2,
            HitStage::Resuming => 1,
        }
    }
}

impl HitStep {
    /// The number of requests that are still to be answered.
    pub open spec fn rank(self) -> nat {
        match self {
            HitStep::Ask(cycle, _) => cycle.stage.rank(),
            _ => 0,
        }
    }

    /// The breakpoint as this step leaves it.
    pub open spec fn breakpoint(self) -> Breakpoint {
        match self {
            HitStep::Ask(cycle, _) => cycle.breakpoint,
            HitStep::Resumed(bp) => bp,
            HitStep::Failed(bp) => bp,
        }
    }
}

impl HitCycle {
    /// The first step for a hit of `bp`: set the instruction pointer back to
    /// the trap.
    pub open spec fn first(bp: Breakpoint) -> HitStep {
        HitStep::Ask(
            HitCycle { breakpoint: bp, stage: HitStage::Rewinding },
            Request::SetIp(bp.address),
        )
    }

    /// The step that follows when `response` answers the request that is
    /// out.
    pub open spec fn next(self, response: Response) -> HitStep {
        let bp = self.breakpoint;
        match (self.stage, response) {
            (HitStage::Rewinding, Response::Done) => HitStep::Ask(
                HitCycle { breakpoint: bp, stage: HitStage::Reading },
                Request::Peek(bp.word()),
            ),
            (HitStage::Reading, Response::Word(current)) => HitStep::Ask(
                HitCycle { breakpoint: bp, stage: HitStage::Restoring },
                Request::Poke(bp.word(), bp.restored(current)),
            ),
            (HitStage::Restoring, Response::Done) => HitStep::Ask(
                HitCycle {
                    breakpoint: Breakpoint { enabled: false, ..bp },
                    stage: HitStage::Stepping,
                },
                Request::SingleStep,
            ),
            (HitStage::Stepping, Response::Done) => HitStep::Ask(
                HitCycle { breakpoint: bp, stage: HitStage::Settling },
                Request::AwaitStop,
            ),
            (HitStage::Settling, Response::Event(WaitStatus::Stopped(_, signal))) => HitStep::Ask(
                HitCycle { breakpoint: bp, stage: HitStage::Rereading(signal) },
                Request::Peek(bp.word()),
            ),
            (HitStage::Rereading(signal), Response::Word(current)) => HitStep::Ask(
                HitCycle { breakpoint: bp, stage: HitStage::Arming(signal) },
                Request::Poke(bp.word(), bp.armed(current)),
            ),
            (HitStage::Arming(signal), Response::Done) => HitStep::Ask(
                HitCycle {
                    breakpoint: Breakpoint { enabled: true, ..bp },
                    stage: HitStage::Resuming,
                },
                Request::Continue(passed_on(signal)),
            ),
            (HitStage::Resuming, Response::Done) => HitStep::Resumed(bp),
            _ => HitStep::Failed(bp),
        }
    }

    /// Begins the resolution of a hit of `bp`.
    pub fn begin(bp: Breakpoint) -> (step: HitStep)
        ensures
            step == HitCycle::first(bp),
    {
        HitStep::Ask(
            HitCycle { breakpoint: bp, stage: HitStage::Rewinding },
            Request::SetIp(bp.address),
        )
    }

    /// Takes the response to the request that is out and says what is next.
    pub fn advance(self, response: Response) -> (step: HitStep)
        ensures
            step == self.next(response),
            step.rank() < self.stage.rank(),
    {
        let bp = self.breakpoint;
        match (self.stage, response) {
            (HitStage::Rewinding, Response::Done) => HitStep::Ask(
                HitCycle { breakpoint: bp, stage: HitStage::Reading },
                Request::Peek(bp.aligned_address()),
            ),
            (HitStage::Reading, Response::Word(current)) => HitStep::Ask(
                HitCycle { breakpoint: bp, stage: HitStage::Restoring },
                Request::Poke(bp.aligned_address(), bp.restored_word(current)),
            ),
            (HitStage::Restoring, Response::Done) => HitStep::Ask(
                HitCycle { breakpoint: bp.with_enabled(false), stage: HitStage::Stepping },
                Request::SingleStep,
            ),
            (HitStage::Stepping, Response::Done) => HitStep::Ask(
                HitCycle { breakpoint: bp, stage: HitStage::Settling },
                Request::AwaitStop,
            ),
            (HitStage::Settling, Response::Event(WaitStatus::Stopped(_, signal))) => HitStep::Ask(
                HitCycle { breakpoint: bp, stage: HitStage::Rereading(signal) },
                Request::Peek(bp.aligned_address()),
            ),
            (HitStage::Rereading(signal), Response::Word(current)) => HitStep::Ask(
                HitCycle { breakpoint: bp, stage: HitStage::Arming(signal) },
                Request::Poke(bp.aligned_address(), bp.armed_word(current)),
            ),
            (HitStage::Arming(signal), Response::Done) => HitStep::Ask(
                HitCycle { breakpoint: bp.with_enabled(true), stage: HitStage::Resuming },
                Request::Continue(forwarded(signal)),
            ),
            (HitStage::Resuming, Response::Done) => HitStep::Resumed(bp),
            _ => HitStep::Failed(bp),
        }
    }
}

/// Where the resolution of a hit of `bp` in the process `pid` stands after
/// `exchanges`, if they are what it asked for, in its order: each request
/// is the one that the step before named.
pub open spec fn hit_position(bp: Breakpoint, pid: i32, exchanges: Seq<Exchange>) -> Option<
    HitStep,
>
    decreases exchanges.len(),
{
    if exchanges.len() == 0 {
        Some(HitCycle::first(bp))
    } else {
        match hit_position(bp, pid, exchanges.drop_last()) {
            Some(HitStep::Ask(cycle, request)) => {
                let last = exchanges.last();
                if last.pid == pid && last.request == request {
                    Some(cycle.next(last.response))
                } else {
                    None
                }
            },
            _ => None,
        }
    }
}

/// Resolves a hit of `bp` in the process `pid`: asks `backend` for one
/// request after the other until the tracee runs again or a request fails.
/// Returns how it ended, the error of the last refusal if there was one,
/// and the exchanges that it made, which are what the backend's log has
/// grown by.
pub fn resolve_hit<B: Backend>(backend: &mut B, pid: i32, bp: Breakpoint) -> (out: (
    HitStep,
    Option<TraceError>,
    Ghost<Seq<Exchange>>,
))
    ensures
        final(backend).log() == old(backend).log() + out.2@,
        hit_position(bp, pid, out.2@) == Some(out.0),
        !(out.0 is Ask),
        out.0.breakpoint().address == bp.address,
        out.0.breakpoint().original == bp.original,
        out.1 == last_refusal(out.2@, None),
{
    let ghost begun = backend.log();
    let ghost mut made: Seq<Exchange> = Seq::empty();
    let mut refused: Option<TraceError> = None;
    let mut step = HitCycle::begin(bp);
    assert(begun + made =~= begun);
    loop
        invariant
            begun == old(backend).log(),
            backend.log() == begun + made,
            hit_position(bp, pid, made) == Some(step),
            step.breakpoint().address == bp.address,
            step.breakpoint().original == bp.original,
            refused == last_refusal(made, None),
        decreases step.rank(),
    {
        match step {
            HitStep::Ask(cycle, request) => {
                let response = backend.perform(pid, request);
                proof {
                    let before = made;
                    made = made.push(Exchange { pid, request, response });
                    assert(made.drop_last() =~= before);
                    assert(begun + made =~= (begun + before).push(
                        Exchange { pid, request, response },
                    ));
                }
                match response {
                    Response::Failed(error) => {
                        refused = Some(error);
                    },
                    _ => {},
                }
                step = cycle.advance(response);
            },
            _ => {
                return (step, refused, Ghost(made));
            },
        }
    }
}

} // verus!
