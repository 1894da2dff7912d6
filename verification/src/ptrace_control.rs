//! The tracing primitives of the operating system, one function each.
//!
//! Every function names the process that it acts on and returns what the
//! system answered. None of them promises that the system complies: a
//! process may be gone, or not be the caller's to trace.

use crate::protocol::{
    error_of, is_signal, valid_signal, Backend, Exchange, Request, Response, TraceError,
    WaitStatus, EINVAL,
};
use nix::sys::ptrace::{AddressType, Options};
use nix::sys::signal::Signal;
use nix::sys::wait::{WaitPidFlag, WaitStatus as Status};
use nix::unistd::Pid;
use vstd::prelude::*;

verus! {

/// The offset of the instruction pointer in the tracee's user area.
pub const RIP: u64 = 128;

/// The events that the tracer asks to be told of: system-call stops marked
/// as such, forks, vforks, clones and execs.
pub const TRACE_OPTIONS: i32 = 0x1f;

/// The flag that makes a wait return at once.
pub const WAIT_NO_HANG: i32 = 1;

/// What `get_event_data` reports where the platform has no event data.
pub const EVENT_UNAVAILABLE: i64 = -1;

/// `nix::sys::wait::WaitStatus`, what a wait reports. Nothing is known of
/// a value but what `status_of` reads out of it.
#[verifier::external_type_specification]
#[verifier::external_body]
pub struct ExStatus(Status);

/// `nix::sys::ptrace::traceme`: asks that the calling process be traced by
/// its parent.
/// An error comes back as its number, the discriminant of
/// `nix::errno::Errno`.
#[verifier::external_body]
fn raw_traceme() -> Result<(), i32> {
    nix::sys::ptrace::traceme().map_err(|error| error as i32)
}

/// `nix::sys::ptrace::setoptions`, with the options whose bits are set in
/// `options`.
/// An error comes back as its number, the discriminant of
/// `nix::errno::Errno`.
#[verifier::external_body]
fn raw_setoptions(pid: i32, options: i32) -> Result<(), i32> {
    nix::sys::ptrace::setoptions(Pid::from_raw(pid), Options::from_bits_retain(options))
        .map_err(|error| error as i32)
}

/// `nix::sys::ptrace::detach`, delivering no signal.
/// An error comes back as its number, the discriminant of
/// `nix::errno::Errno`.
#[verifier::external_body]
fn raw_detach(pid: i32) -> Result<(), i32> {
    nix::sys::ptrace::detach(Pid::from_raw(pid), None).map_err(|error| error as i32)
}

/// `nix::sys::ptrace::cont`. The signal goes by its number, which
/// `nix::sys::signal::Signal::try_from` turns into the signal. The number
/// is one that names a signal; the conversion would refuse any other.
/// An error comes back as its number, the discriminant of
/// `nix::errno::Errno`.
#[verifier::external_body]
fn raw_cont(pid: i32, signal: Option<i32>) -> Result<(), i32>
    requires
        signal matches Some(number) ==> is_signal(number),
{
    let deliver = signal.map(Signal::try_from).transpose().map_err(|error| error as i32)?;
    nix::sys::ptrace::cont(Pid::from_raw(pid), deliver).map_err(|error| error as i32)
}

/// `nix::sys::ptrace::step`, delivering no signal.
/// An error comes back as its number, the discriminant of
/// `nix::errno::Errno`.
#[verifier::external_body]
fn raw_step(pid: i32) -> Result<(), i32> {
    nix::sys::ptrace::step(Pid::from_raw(pid), None).map_err(|error| error as i32)
}

/// `nix::sys::ptrace::kill`.
/// An error comes back as its number, the discriminant of
/// `nix::errno::Errno`.
#[verifier::external_body]
fn raw_kill(pid: i32) -> Result<(), i32> {
    nix::sys::ptrace::kill(Pid::from_raw(pid)).map_err(|error| error as i32)
}

/// `nix::sys::ptrace::read`: the word of the tracee's memory at `address`,
/// as its bit pattern. The call clears the error indicator before it asks,
/// so a word that reads as -1 is told from a failure by the indicator
/// alone.
/// An error comes back as its number, the discriminant of
/// `nix::errno::Errno`.
#[verifier::external_body]
fn raw_read(pid: i32, address: u64) -> Result<u64, i32> {
    nix::sys::ptrace::read(Pid::from_raw(pid), address as AddressType)
        .map(|word| word as u64)
        .map_err(|error| error as i32)
}

/// `nix::sys::ptrace::write`: writes the word with the bit pattern `word`
/// into the tracee's memory at `address`.
/// An error comes back as its number, the discriminant of
/// `nix::errno::Errno`.
#[verifier::external_body]
fn raw_write(pid: i32, address: u64, word: u64) -> Result<(), i32> {
    nix::sys::ptrace::write(Pid::from_raw(pid), address as AddressType, word as i64)
        .map_err(|error| error as i32)
}

/// `nix::sys::ptrace::read_user`: the word of the tracee's user area at
/// `offset`. The call clears the error indicator before it asks, so a word
/// that reads as -1 is told from a failure by the indicator alone.
/// An error comes back as its number, the discriminant of
/// `nix::errno::Errno`.
#[verifier::external_body]
fn raw_read_user(pid: i32, offset: u64) -> Result<u64, i32> {
    nix::sys::ptrace::read_user(Pid::from_raw(pid), offset as AddressType)
        .map(|word| word as u64)
        .map_err(|error| error as i32)
}

/// `nix::sys::ptrace::write_user`: writes `word` into the tracee's user
/// area at `offset`.
/// An error comes back as its number, the discriminant of
/// `nix::errno::Errno`.
#[verifier::external_body]
fn raw_write_user(pid: i32, offset: u64, word: u64) -> Result<(), i32> {
    nix::sys::ptrace::write_user(Pid::from_raw(pid), offset as AddressType, word as i64)
        .map_err(|error| error as i32)
}

/// `nix::sys::ptrace::getevent`: the message of the tracee's last trace
/// event.
/// An error comes back as its number, the discriminant of
/// `nix::errno::Errno`.
#[verifier::external_body]
fn raw_getevent(pid: i32) -> Result<i64, i32> {
    nix::sys::ptrace::getevent(Pid::from_raw(pid)).map_err(|error| error as i32)
}

/// `nix::sys::wait::waitpid` on the process `pid`, with the flags whose
/// bits are set in `flags`.
/// An error comes back as its number, the discriminant of
/// `nix::errno::Errno`.
#[verifier::external_body]
fn raw_waitpid(pid: i32, flags: i32) -> Result<Status, i32> {
    nix::sys::wait::waitpid(Pid::from_raw(pid), Some(WaitPidFlag::from_bits_retain(flags)))
        .map_err(|error| error as i32)
}

/// The variant and the fields of a `nix::sys::wait::WaitStatus`, with
/// process ids and signals as their numbers.
#[verifier::external_body]
fn status_of(found: Status) -> WaitStatus {
    match found {
        Status::Exited(p, code) => WaitStatus::Exited(p.as_raw(), code),
        Status::Signaled(p, s, core) => WaitStatus::Signaled(p.as_raw(), s as i32, core),
        Status::Stopped(p, s) => WaitStatus::Stopped(p.as_raw(), s as i32),
        Status::PtraceEvent(p, s, event) => WaitStatus::PtraceEvent(p.as_raw(), s as i32, event),
        Status::PtraceSyscall(p) => WaitStatus::PtraceSyscall(p.as_raw()),
        Status::Continued(p) => WaitStatus::Continued(p.as_raw()),
        Status::StillAlive => WaitStatus::StillAlive,
    }
}

/// What the library reports for an answer of the system: the value where
/// there is one, else the error that stands for the system's number.
pub open spec fn lifted_of<T>(raw: Result<T, i32>) -> Result<T, TraceError> {
    match raw {
        Ok(value) => Ok(value),
        Err(code) => Err(error_of(code)),
    }
}

/// What the library reports for an answer of the system, where an error
/// comes as the system's number for it.
pub fn lift<T>(raw: Result<T, i32>) -> (lifted: Result<T, TraceError>)
    ensures
        lifted == lifted_of(raw),
        lifted matches Err(e) ==> e.canonical(),
{
    match raw {
        Ok(value) => Ok(value),
        Err(code) => Err(TraceError::from_errno(code)),
    }
}

/// The flags of a wait: none for one that waits until there is news, the
/// one that makes it return at once for a look.
pub open spec fn flags_of(block: bool) -> i32 {
    if block {
        0
    } else {
        WAIT_NO_HANG
    }
}

/// The flags of a wait that waits for news, or of one that only looks.
pub fn wait_flags(block: bool) -> (flags: i32)
    ensures
        flags == flags_of(block),
{
    if block {
        0
    } else {
        WAIT_NO_HANG
    }
}

/// What `get_event_data` makes of the system's answer: a platform that
/// has no event data reports `EVENT_UNAVAILABLE` and no error.
pub open spec fn event_data_of(answer: Result<i64, TraceError>) -> Result<i64, TraceError> {
    match answer {
        Err(TraceError::Unsupported) => Ok(EVENT_UNAVAILABLE),
        _ => answer,
    }
}

/// What `get_event_data` makes of the system's answer.
pub fn event_or_unavailable(answer: Result<i64, TraceError>) -> (data: Result<i64, TraceError>)
    ensures
        data == event_data_of(answer),
{
    match answer {
        Err(TraceError::Unsupported) => Ok(EVENT_UNAVAILABLE),
        _ => answer,
    }
}

/// Marks the calling process as one that its parent traces. It is for the
/// child, after the fork and before the test's program image is loaded.
pub fn request_trace() -> (done: Result<(), TraceError>)
    ensures
        done matches Err(e) ==> e.canonical(),
{
    lift(raw_traceme())
}

/// What `trace_children` makes of the system's answer: a platform that
/// knows no trace options goes without them, and that is no error.
pub open spec fn options_outcome(answer: Result<(), TraceError>) -> Result<(), TraceError> {
    match answer {
        Err(TraceError::Unsupported) => Ok(()),
        _ => answer,
    }
}

/// What `trace_children` makes of the system's answer.
pub fn options_or_none(answer: Result<(), TraceError>) -> (done: Result<(), TraceError>)
    ensures
        done == options_outcome(answer),
{
    match answer {
        Err(TraceError::Unsupported) => Ok(()),
        _ => answer,
    }
}

/// Asks that the tracer be told when the process `pid` forks, clones or
/// loads a program image, and that its system-call stops be marked. On a
/// platform without trace options nothing is asked for, and the tracer
/// sees less.
pub fn trace_children(pid: i32) -> (done: Result<(), TraceError>)
    ensures
        done matches Err(e) ==> e.canonical() && e != TraceError::Unsupported,
{
    options_or_none(lift(raw_setoptions(pid, TRACE_OPTIONS)))
}

/// Stops tracing the process `pid` and lets it run free. It may be called
/// on a process that is gone or was let go before: the system then
/// refuses, and the caller may pass over the error.
pub fn detach_child(pid: i32) -> (done: Result<(), TraceError>)
    ensures
        done matches Err(e) ==> e.canonical(),
{
    lift(raw_detach(pid))
}

/// Resumes the stopped process `pid`, delivering `sig` if there is one.
/// The call returns at once; the process runs until it stops or exits. A
/// number that names no signal is refused as an invalid argument, and
/// nothing is asked of the process.
pub fn continue_exec(pid: i32, sig: Option<i32>) -> (done: Result<(), TraceError>)
    ensures
        sig matches Some(number) && !is_signal(number) ==> done == Err::<(), TraceError>(
            TraceError::Sys(EINVAL),
        ),
        done matches Err(e) ==> e.canonical(),
{
    match sig {
        Some(number) => {
            if !valid_signal(number) {
                return Err(TraceError::Sys(EINVAL));
            }
        },
        None => {},
    }
    lift(raw_cont(pid, sig))
}

/// Lets the stopped process `pid` run one instruction.
pub fn single_step(pid: i32) -> (done: Result<(), TraceError>)
    ensures
        done matches Err(e) ==> e.canonical(),
{
    lift(raw_step(pid))
}

/// Ends the process `pid`.
pub fn kill_child(pid: i32) -> (done: Result<(), TraceError>)
    ensures
        done matches Err(e) ==> e.canonical(),
{
    lift(raw_kill(pid))
}

/// Reads the word at `address` in the memory of the process `pid`.
pub fn read_address(pid: i32, address: u64) -> (word: Result<u64, TraceError>)
    ensures
        word matches Err(e) ==> e.canonical(),
{
    lift(raw_read(pid, address))
}

/// Writes `data` at `address` into the memory of the process `pid`.
pub fn write_to_address(pid: i32, address: u64, data: u64) -> (done: Result<(), TraceError>)
    ensures
        done matches Err(e) ==> e.canonical(),
{
    lift(raw_write(pid, address, data))
}

/// Reads the instruction pointer of the process `pid`.
pub fn current_instruction_pointer(pid: i32) -> (ip: Result<u64, TraceError>)
    ensures
        ip matches Err(e) ==> e.canonical(),
{
    lift(raw_read_user(pid, RIP))
}

/// Sets the instruction pointer of the process `pid` to `pc`.
pub fn set_instruction_pointer(pid: i32, pc: u64) -> (done: Result<(), TraceError>)
    ensures
        done matches Err(e) ==> e.canonical(),
{
    lift(raw_write_user(pid, RIP, pc))
}

/// Reads the message of the last trace event of the process `pid`, or
/// `EVENT_UNAVAILABLE` where the platform has none.
pub fn get_event_data(pid: i32) -> (data: Result<i64, TraceError>)
    ensures
        data matches Err(e) ==> e.canonical() && e != TraceError::Unsupported,
{
    event_or_unavailable(lift(raw_getevent(pid)))
}

/// Looks for news of the process `pid`. With `block` it waits until there
/// is some; without, it returns `StillAlive` when there is none.
pub fn wait_for_event(pid: i32, block: bool) -> (news: Result<WaitStatus, TraceError>)
    ensures
        news matches Err(e) ==> e.canonical(),
{
    match lift(raw_waitpid(pid, wait_flags(block))) {
        Ok(found) => Ok(status_of(found)),
        Err(error) => Err(error),
    }
}

/// What a request that returns nothing reports.
pub open spec fn done_response(done: Result<(), TraceError>) -> Response {
    match done {
        Ok(_) => Response::Done,
        Err(error) => Response::Failed(error),
    }
}

/// What a request that reads a word reports.
pub open spec fn word_response(word: Result<u64, TraceError>) -> Response {
    match word {
        Ok(value) => Response::Word(value),
        Err(error) => Response::Failed(error),
    }
}

/// What a wait reports.
pub open spec fn event_response(news: Result<WaitStatus, TraceError>) -> Response {
    match news {
        Ok(status) => Response::Event(status),
        Err(error) => Response::Failed(error),
    }
}

/// The response that tells of a request that returns nothing.
pub fn respond_done(done: Result<(), TraceError>) -> (response: Response)
    ensures
        response == done_response(done),
{
    match done {
        Ok(_) => Response::Done,
        Err(error) => Response::Failed(error),
    }
}

/// The response that tells of a request that reads a word.
pub fn respond_word(word: Result<u64, TraceError>) -> (response: Response)
    ensures
        response == word_response(word),
{
    match word {
        Ok(value) => Response::Word(value),
        Err(error) => Response::Failed(error),
    }
}

/// The response that tells of a wait.
pub fn respond_event(news: Result<WaitStatus, TraceError>) -> (response: Response)
    ensures
        response == event_response(news),
{
    match news {
        Ok(status) => Response::Event(status),
        Err(error) => Response::Failed(error),
    }
}

/// The operating system as a backend: each request goes to the primitive
/// of this file that it names.
pub struct Ptrace {
    /// Every exchange that was carried out.
    log: Ghost<Seq<Exchange>>,
}

impl Ptrace {
    /// The operating system, of which nothing has been asked yet.
    pub fn new() -> (os: Ptrace)
        ensures
            os.log() == Seq::<Exchange>::empty(),
    {
        Ptrace { log: Ghost(Seq::empty()) }
    }
}

impl Backend for Ptrace {
    closed spec fn log(&self) -> Seq<Exchange> {
        self.log@
    }

    fn perform(&mut self, pid: i32, request: Request) -> (response: Response)
        ensures
            response is Failed || request.answered_by(response),
            request matches Request::Continue(Some(number)) && !is_signal(number) ==> response
                == Response::Failed(TraceError::Sys(EINVAL)),
    {
        let response = match request {
            Request::Poll => respond_event(wait_for_event(pid, false)),
            Request::AwaitStop => respond_event(wait_for_event(pid, true)),
            Request::TraceOptions => respond_done(trace_children(pid)),
            Request::ReadIp => respond_word(current_instruction_pointer(pid)),
            Request::SetIp(address) => respond_done(set_instruction_pointer(pid, address)),
            Request::Peek(address) => respond_word(read_address(pid, address)),
            Request::Poke(address, word) => respond_done(write_to_address(pid, address, word)),
            Request::SingleStep => respond_done(single_step(pid)),
            Request::Continue(signal) => respond_done(continue_exec(pid, signal)),
            Request::Kill => respond_done(kill_child(pid)),
            Request::Detach => respond_done(detach_child(pid)),
        };
        proof {
            self.log@ = self.log@.push(Exchange { pid, request, response });
        }
        response
    }
}

} // verus!
