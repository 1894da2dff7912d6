//! What the tracer asks of the operating system, and what it is told.
//!
//! The tracer never reaches for the tracee itself. It names a request, a
//! backend performs it, and the response decides what it asks next. Each
//! decision is thereby a function of what came back.

use vstd::prelude::*;

verus! {

/// The signal that a trap raises.
pub const SIGTRAP: i32 = 5;

/// The signal that ends a process at once.
pub const SIGKILL: i32 = 9;

/// The event that the tracee reports when it loads a new program image.
pub const EVENT_EXEC: i32 = 4;

/// The system's number for an argument that is not valid.
pub const EINVAL: i32 = 22;

/// Whether `number` names a signal: the signals have the numbers from 1
/// to 31.
pub open spec fn is_signal(number: i32) -> bool {
    1 <= number <= 31
}

/// Whether `number` names a signal.
pub fn valid_signal(number: i32) -> (valid: bool)
    ensures
        valid == is_signal(number),
{
    1 <= number && number <= 31
}

/// Why an operation on the tracee failed.
#[derive(Clone, Copy, Debug, PartialEq, Eq, Structural)]
pub enum TraceError {
    /// There is no such process, or it is not traced and stopped.
    NoSuchProcess,
    /// The tracer may not trace the process.
    PermissionDenied,
    /// The address lies outside the tracee's memory.
    BadAddress,
    /// The platform does not know the request.
    Unsupported,
    /// Another error of the system, by its number.
    Sys(i32),
}

/// The error that stands for the system's error number `code`.
pub open spec fn error_of(code: i32) -> TraceError {
    if code == 3 {
        TraceError::NoSuchProcess
    } else if code == 1 {
        TraceError::PermissionDenied
    } else if code == 5 || code == 14 {
        TraceError::BadAddress
    } else if code == 38 || code == 95 {
        TraceError::Unsupported
    } else {
        TraceError::Sys(code)
    }
}

impl TraceError {
    /// Whether this error names its cause in one way only: a number that
    /// has a variant of its own is not carried in `Sys`.
    pub open spec fn canonical(self) -> bool {
        match self {
            TraceError::Sys(code) => error_of(code) == self,
            _ => true,
        }
    }

    /// The system's number for this error.
    pub open spec fn number(self) -> i32 {
        match self {
            TraceError::NoSuchProcess => 3,
            TraceError::PermissionDenied => 1,
            TraceError::BadAddress => 5,
            TraceError::Unsupported => 38,
            TraceError::Sys(code) => code,
        }
    }

    /// The error that stands for the system's error number `code`.
    pub fn from_errno(code: i32) -> (error: TraceError)
        ensures
            error == error_of(code),
            error.canonical(),
    {
        if code == 3 {
            TraceError::NoSuchProcess
        } else if code == 1 {
            TraceError::PermissionDenied
        } else if code == 5 || code == 14 {
            TraceError::BadAddress
        } else if code == 38 || code == 95 {
            TraceError::Unsupported
        } else {
            TraceError::Sys(code)
        }
    }

    /// What the error is, in words.
    pub open spec fn words(self) -> Seq<char> {
        match self {
            TraceError::NoSuchProcess => "no such process"@,
            TraceError::PermissionDenied => "operation not permitted"@,
            TraceError::BadAddress => "bad address"@,
            TraceError::Unsupported => "request not supported"@,
            TraceError::Sys(_) => "system error"@,
        }
    }

    /// What the error is, in words.
    pub fn description(self) -> (text: String)
        ensures
            text@ == self.words(),
    {
        match self {
            TraceError::NoSuchProcess => "no such process".to_string(),
            TraceError::PermissionDenied => "operation not permitted".to_string(),
            TraceError::BadAddress => "bad address".to_string(),
            TraceError::Unsupported => "request not supported".to_string(),
            TraceError::Sys(_) => "system error".to_string(),
        }
    }

    /// The system's number for this error.
    pub fn errno(self) -> (code: i32)
        ensures
            code == self.number(),
            self.canonical() ==> error_of(code) == self,
    {
        match self {
            TraceError::NoSuchProcess => 3,
            TraceError::PermissionDenied => 1,
            TraceError::BadAddress => 5,
            TraceError::Unsupported => 38,
            TraceError::Sys(code) => code,
        }
    }
}

/// What a wait for the tracee reports.
#[derive(Clone, Copy, Debug, PartialEq, Eq, Structural)]
pub enum WaitStatus {
    /// The process runs on; there is nothing to report.
    StillAlive,
    /// The process exited, with its exit code.
    Exited(i32, i32),
    /// The process was killed by a signal; the flag tells of a core dump.
    Signaled(i32, i32, bool),
    /// The process is stopped by a signal.
    Stopped(i32, i32),
    /// The process is stopped by a trace event, given behind the signal.
    PtraceEvent(i32, i32, i32),
    /// The process is stopped at a system call.
    PtraceSyscall(i32),
    /// The process was resumed from a job-control stop.
    Continued(i32),
}

/// One request to the operating system, about one process.
#[derive(Clone, Copy, Debug, PartialEq, Eq, Structural)]
pub enum Request {
    /// Look for news of the process without waiting for any.
    Poll,
    /// Wait until the process has stopped or is gone.
    AwaitStop,
    /// Have the tracer told of forks, clones, execs and exits.
    TraceOptions,
    /// Read the instruction pointer.
    ReadIp,
    /// Set the instruction pointer.
    SetIp(u64),
    /// Read the word at an address.
    Peek(u64),
    /// Write a word at an address.
    Poke(u64, u64),
    /// Run one instruction and stop again.
    SingleStep,
    /// Run on, delivering the signal if there is one.
    Continue(Option<i32>),
    /// End the process.
    Kill,
    /// Stop tracing the process.
    Detach,
}

/// What came back for a request.
#[derive(Clone, Copy, Debug, PartialEq, Eq, Structural)]
pub enum Response {
    /// The request was carried out.
    Done,
    /// The word that was read.
    Word(u64),
    /// The news of the process.
    Event(WaitStatus),
    /// The request was refused.
    Failed(TraceError),
}

/// One request to one process, with what came back.
#[derive(Clone, Copy, Debug, PartialEq, Eq, Structural)]
pub struct Exchange {
    pub pid: i32,
    pub request: Request,
    pub response: Response,
}

/// The error of the last refusal among `exchanges`, or `before` if none
/// of them was refused.
pub open spec fn last_refusal(exchanges: Seq<Exchange>, before: Option<TraceError>) -> Option<
    TraceError,
>
    decreases exchanges.len(),
{
    if exchanges.len() == 0 {
        before
    } else {
        match exchanges.last().response {
            Response::Failed(error) => Some(error),
            _ => last_refusal(exchanges.drop_last(), before),
        }
    }
}

/// The last refusal of two runs of exchanges is that of the second, and
/// that of the first where the second has none.
pub proof fn lemma_refusal_of_both(
    first: Seq<Exchange>,
    second: Seq<Exchange>,
    before: Option<TraceError>,
)
    ensures
        last_refusal(first + second, before) == last_refusal(second, last_refusal(first, before)),
    decreases second.len(),
{
    if second.len() == 0 {
        assert(first + second =~= first);
    } else {
        assert((first + second).drop_last() =~= first + second.drop_last());
        assert((first + second).last() == second.last());
        lemma_refusal_of_both(first, second.drop_last(), before);
    }
}

impl Request {
    /// Whether `response` is of the kind that answers this request when it
    /// is carried out.
    pub open spec fn answered_by(self, response: Response) -> bool {
        match self {
            Request::Poll | Request::AwaitStop => response is Event,
            Request::ReadIp | Request::Peek(_) => response is Word,
            _ => response is Done,
        }
    }
}

/// Something that carries out requests: the operating system, or a stand-in
/// for it.
pub trait Backend {
    /// Every exchange that this backend has carried out, in order. The
    /// default is that of a backend that keeps no record.
    open spec fn log(&self) -> Seq<Exchange> {
        Seq::empty()
    }

    /// Carries out `request` on the process `pid` and says what came of it.
    /// The exchange is the next of the backend's log.
    fn perform(&mut self, pid: i32, request: Request) -> (response: Response)
        ensures
            final(self).log() == old(self).log().push(Exchange { pid, request, response }),
    ;
}

/// Whether a stop signal is passed on to the tracee when it is resumed: a
/// trap is the tracer's own and is swallowed, any other is the tracee's.
pub open spec fn passed_on(signal: i32) -> Option<i32> {
    if signal == SIGTRAP {
        None
    } else {
        Some(signal)
    }
}

/// The signal to deliver when a tracee that stopped with `signal` is
/// resumed.
pub fn forwarded(signal: i32) -> (deliver: Option<i32>)
    ensures
        deliver == passed_on(signal),
{
    if signal == SIGTRAP {
        None
    } else {
        Some(signal)
    }
}

} // verus!
