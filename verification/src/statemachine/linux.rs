//! The tracer's data for one run, and its handling of the states.

use crate::breakpoint::{
    aligned_address, bit_shift, byte_of, struck_address, trap_address, word_address, Breakpoint,
    BreakpointTable,
};
use crate::config::Config;
use crate::hit::{hit_position, resolve_hit, HitStep};
use crate::protocol::{
    last_refusal, lemma_refusal_of_both, Backend, Exchange, Request, Response, TraceError,
    WaitStatus, EVENT_EXEC, SIGTRAP,
};
use crate::statemachine::{StateData, TestState};
use crate::traces::{addresses_of, hit_all, Trace, TraceMap};
use vstd::prelude::*;

verus! {

/// What one run holds, as contracts see it.
pub struct RunView {
    /// What the last wait reported.
    pub wait: WaitStatus,
    /// The process id of the test.
    pub parent: i32,
    /// The process that the tracer acts on.
    pub current: i32,
    /// The breakpoints, by address.
    pub table: Map<u64, Breakpoint>,
    /// The records of the coverage sink.
    pub traces: Seq<Trace>,
    /// The last error that a request met.
    pub error: Option<TraceError>,
    /// Whether the test is still held by the tracer.
    pub attached: bool,
    /// What the last look for the test found.
    pub found: Option<TestState>,
    /// The configuration of the run.
    pub config: Config,
    /// Every exchange that the backend has carried out, in order.
    pub history: Seq<Exchange>,
}

/// The tracer's data for one run.
pub struct Data<'a, B: Backend> {
    /// What the last wait reported, for the state machine to handle.
    wait: WaitStatus,
    /// The process id of the test.
    pub(crate) parent: i32,
    /// The process that the tracer acts on.
    current: i32,
    /// The breakpoints, by address.
    breakpoints: BreakpointTable,
    /// The instrumentation points with their coverage.
    traces: TraceMap,
    /// The run's configuration.
    config: &'a Config,
    /// The last error that a request met.
    error: Option<TraceError>,
    /// Whether the test is still held by the tracer.
    attached: bool,
    /// What carries out the requests.
    backend: B,
    /// What the last look for the test found.
    found: Ghost<Option<TestState>>,
}

impl<'a, B: Backend> View for Data<'a, B> {
    type V = RunView;

    closed spec fn view(&self) -> RunView {
        RunView {
            wait: self.wait,
            parent: self.parent,
            current: self.current,
            table: self.breakpoints@,
            traces: self.traces@,
            error: self.error,
            attached: self.attached,
            found: self.found@,
            config: *self.config,
            history: self.backend.log(),
        }
    }
}

impl RunView {
    /// Every breakpoint is filed under its own address.
    pub open spec fn wf(self) -> bool {
        forall|address: u64| #[trigger]
            self.table.contains_key(address) ==> self.table[address].address == address
    }

    /// This view after one more exchange with the process it acts on: the
    /// exchange is kept, and the error of a refusal is noted.
    pub open spec fn asked(self, request: Request, response: Response) -> RunView {
        RunView {
            history: self.history.push(Exchange { pid: self.current, request, response }),
            error: match response {
                Response::Failed(error) => Some(error),
                _ => self.error,
            },
            ..self
        }
    }

    /// Whether this view has come from `before` by exchanges alone: the
    /// history has grown, the error is that of the last refusal, and the
    /// tracer acts on the same process with the same news.
    pub open spec fn extends(self, before: RunView) -> bool {
        &&& before.history.len() <= self.history.len()
        &&& self.history.take(before.history.len() as int) == before.history
        &&& self.parent == before.parent
        &&& self.current == before.current
        &&& self.wait == before.wait
        &&& self.attached == before.attached
        &&& self.found == before.found
        &&& self.config == before.config
        &&& self.error == last_refusal(self.since(before), before.error)
    }

    /// The exchanges that were made since `before`.
    pub open spec fn since(self, before: RunView) -> Seq<Exchange> {
        self.history.skip(before.history.len() as int)
    }

    /// This view after a look for the test that was answered by `response`
    /// and found `found`: the news is kept, and the tracer turns to the
    /// process that stopped.
    pub open spec fn informed(self, response: Response, found: Option<TestState>) -> RunView {
        match response {
            Response::Event(status) => RunView {
                wait: status,
                current: match stopped_process(status) {
                    Some(pid) => pid,
                    None => self.current,
                },
                found,
                ..self
            },
            _ => RunView { found, ..self },
        }
    }
}

/// The process that `status` reports as stopped, if it reports one.
pub open spec fn stopped_process(status: WaitStatus) -> Option<i32> {
    match status {
        WaitStatus::Stopped(pid, _) => Some(pid),
        WaitStatus::PtraceEvent(pid, _, _) => Some(pid),
        WaitStatus::PtraceSyscall(pid) => Some(pid),
        _ => None,
    }
}

/// What the first look for the test comes to: nothing while it has not
/// appeared, `Initialise` once it is stopped, `Unrecoverable` if it is gone
/// or cannot be observed.
pub open spec fn start_outcome(response: Response) -> Option<TestState> {
    match response {
        Response::Event(WaitStatus::StillAlive) => None,
        Response::Event(WaitStatus::Stopped(_, _)) => Some(TestState::Initialise),
        _ => Some(TestState::Unrecoverable),
    }
}

/// What a look for the running test comes to: nothing while it runs,
/// `End` with its code once it has exited, `Stopped` when it is halted,
/// `Unrecoverable` if it was killed or cannot be observed.
pub open spec fn wait_outcome(response: Response) -> Option<TestState> {
    match response {
        Response::Event(WaitStatus::StillAlive) => None,
        Response::Event(WaitStatus::Continued(_)) => None,
        Response::Event(WaitStatus::Exited(_, code)) => Some(TestState::End(code)),
        Response::Event(WaitStatus::Stopped(_, _)) => Some(TestState::Stopped),
        Response::Event(WaitStatus::PtraceEvent(_, _, _)) => Some(TestState::Stopped),
        Response::Event(WaitStatus::PtraceSyscall(_)) => Some(TestState::Stopped),
        _ => Some(TestState::Unrecoverable),
    }
}

/// The breakpoint that stands at `address` once the trap is planted there,
/// where `word` is what the tracee's memory held at the aligned address.
pub open spec fn planted(address: u64, word: u64) -> Breakpoint {
    Breakpoint { address, original: byte_of(word, bit_shift(address)), enabled: true }
}

/// What planting a trap at `address` comes to, where `exchanges` begins
/// with what is asked for it: how many exchanges it takes, and the table
/// after it. An address that has its breakpoint takes none. Any other takes
/// one to read the word, and a second to write the word with the trap; the
/// breakpoint is filed if both are answered. There is no outcome if
/// `exchanges` does not begin with these requests.
pub open spec fn install_step(
    table: Map<u64, Breakpoint>,
    pid: i32,
    address: u64,
    exchanges: Seq<Exchange>,
) -> Option<(int, Map<u64, Breakpoint>)> {
    if table.contains_key(address) {
        Some((0, table))
    } else if exchanges.len() >= 1 && exchanges[0].pid == pid && exchanges[0].request
        == Request::Peek(word_address(address)) {
        match exchanges[0].response {
            Response::Word(word) => {
                let bp = planted(address, word);
                if exchanges.len() >= 2 && exchanges[1].pid == pid && exchanges[1].request
                    == Request::Poke(bp.word(), bp.armed(word)) {
                    Some(
                        (
                            2,
                            if exchanges[1].response is Done {
                                table.insert(address, bp)
                            } else {
                                table
                            },
                        ),
                    )
                } else {
                    None
                }
            },
            _ => Some((1, table)),
        }
    } else {
        None
    }
}

/// The table after the traps are planted at `addresses`, one after the
/// other, where `exchanges` is all that is asked for it; none if it is not.
pub open spec fn install_run(
    table: Map<u64, Breakpoint>,
    pid: i32,
    addresses: Seq<u64>,
    exchanges: Seq<Exchange>,
) -> Option<Map<u64, Breakpoint>>
    decreases addresses.len(),
{
    if addresses.len() == 0 {
        if exchanges.len() == 0 {
            Some(table)
        } else {
            None
        }
    } else {
        match install_step(table, pid, addresses[0], exchanges) {
            Some((taken, next)) => if 0 <= taken <= exchanges.len() {
                install_run(next, pid, addresses.skip(1), exchanges.skip(taken))
            } else {
                None
            },
            None => None,
        }
    }
}

/// Whether `post` is what one look for the test makes of `pre`, where the
/// look found `found`: the backend was asked for news once, the news is
/// kept, and nothing else has changed.
pub open spec fn look_post(pre: RunView, post: RunView, found: Option<TestState>) -> bool {
    &&& post.history.len() == pre.history.len() + 1
    &&& post == pre.asked(Request::Poll, post.history.last().response).informed(
        post.history.last().response,
        found,
    )
}

/// Whether `post` is what letting go of the test makes of `pre`: a test
/// that is held is asked to end and to be released, and the breakpoints
/// are taken down; once the test is let go, nothing is asked and nothing
/// changes.
pub open spec fn release_post(pre: RunView, post: RunView) -> bool {
    &&& !post.attached
    &&& post == if pre.attached {
        released(pre, post.history)
    } else {
        pre
    }
}

/// The view of a run that has let go of its test, where `history` is all
/// that was asked by then: the end of the test was asked for, then its
/// release, and the breakpoints are taken down.
pub open spec fn released(pre: RunView, history: Seq<Exchange>) -> RunView {
    let killed = history[history.len() - 2].response;
    let detached = history[history.len() - 1].response;
    RunView {
        attached: false,
        table: Map::empty(),
        ..pre.asked(Request::Kill, killed).asked(Request::Detach, detached)
    }
}

/// Why the test is halted.
#[derive(Clone, Copy, Debug, PartialEq, Eq, Structural)]
pub enum StopCause {
    /// It ran into a trap.
    Trap,
    /// It was sent the signal.
    Signal(i32),
    /// It loaded a new program image.
    Exec,
    /// It forked or cloned, or reports another trace event.
    Event,
    /// It stands at a system call.
    Syscall,
    /// The news does not tell of a stop.
    Unknown,
}

/// Why the test is halted, by what the last wait reported.
pub open spec fn cause_of(status: WaitStatus) -> StopCause {
    match status {
        WaitStatus::Stopped(_, signal) => if signal == SIGTRAP {
            StopCause::Trap
        } else {
            StopCause::Signal(signal)
        },
        WaitStatus::PtraceEvent(_, _, event) => if event == EVENT_EXEC {
            StopCause::Exec
        } else {
            StopCause::Event
        },
        WaitStatus::PtraceSyscall(_) => StopCause::Syscall,
        _ => StopCause::Unknown,
    }
}

/// What a trap stop is about.
#[derive(Clone, Copy, Debug, PartialEq, Eq, Structural)]
pub enum TrapTarget {
    /// A breakpoint of the table was hit.
    Hit(Breakpoint),
    /// The trap is none of the tracer's.
    Foreign,
    /// The instruction pointer could not be read.
    Lost,
}

/// What a trap stop is about, by the answer to the reading of the
/// instruction pointer: the breakpoint one trap's width before it, if the
/// table has one there.
pub open spec fn target_of(table: Map<u64, Breakpoint>, response: Response) -> TrapTarget {
    match response {
        Response::Word(ip) => match struck_address(ip) {
            Some(address) => if table.contains_key(address) {
                TrapTarget::Hit(table[address])
            } else {
                TrapTarget::Foreign
            },
            None => TrapTarget::Foreign,
        },
        _ => TrapTarget::Lost,
    }
}

/// The state after the test was told to run on: `Waiting` from `now` if
/// it was, `Unrecoverable` if the request was refused.
pub open spec fn resumed_state(response: Response, now: u64) -> TestState {
    if response is Done {
        TestState::Waiting { start_time: now }
    } else {
        TestState::Unrecoverable
    }
}

/// Whether `post` and `next` are what the handling of a stop makes of
/// `pre` at `now`.
///
/// A trap whose address has a breakpoint is counted once in the coverage
/// sink and resolved; the breakpoint is filed as the resolution left it.
/// Any other trap, and any other signal, is delivered to the test as it is
/// resumed. A new program image has the table made anew before the test is
/// resumed. News that tells of no stop cannot be handled.
pub open spec fn stop_post(pre: RunView, post: RunView, next: TestState, now: u64) -> bool {
    let added = post.since(pre);
    let pid = pre.current;
    &&& post.extends(pre)
    &&& match cause_of(pre.wait) {
        StopCause::Unknown => {
            &&& added.len() == 0
            &&& next == TestState::Unrecoverable
            &&& post.table == pre.table
            &&& post.traces == pre.traces
        },
        StopCause::Signal(signal) => {
            &&& added.len() == 1
            &&& added[0].pid == pid
            &&& added[0].request == Request::Continue(Some(signal))
            &&& next == resumed_state(added[0].response, now)
            &&& post.table == pre.table
            &&& post.traces == pre.traces
        },
        StopCause::Event | StopCause::Syscall => {
            &&& added.len() == 1
            &&& added[0].pid == pid
            &&& added[0].request == Request::Continue(None)
            &&& next == resumed_state(added[0].response, now)
            &&& post.table == pre.table
            &&& post.traces == pre.traces
        },
        StopCause::Exec => {
            &&& added.len() >= 1
            &&& install_run(Map::empty(), pid, addresses_of(pre.traces), added.drop_last())
                == Some(post.table)
            &&& added.last().pid == pid
            &&& added.last().request == Request::Continue(None)
            &&& next == resumed_state(added.last().response, now)
            &&& post.traces == pre.traces
        },
        StopCause::Trap => {
            &&& added.len() >= 1
            &&& added[0].pid == pid
            &&& added[0].request == Request::ReadIp
            &&& match target_of(pre.table, added[0].response) {
                TrapTarget::Hit(bp) => {
                    &&& post.traces == hit_all(pre.traces, bp.address)
                    &&& hit_position(bp, pid, added.skip(1)) matches Some(end)
                    &&& !(end is Ask)
                    &&& post.table == pre.table.insert(bp.address, end.breakpoint())
                    &&& next == if end is Resumed {
                        TestState::Waiting { start_time: now }
                    } else {
                        TestState::Unrecoverable
                    }
                },
                TrapTarget::Foreign => {
                    &&& added.len() == 2
                    &&& added[1].pid == pid
                    &&& added[1].request == Request::Continue(Some(SIGTRAP))
                    &&& next == resumed_state(added[1].response, now)
                    &&& post.table == pre.table
                    &&& post.traces == pre.traces
                },
                TrapTarget::Lost => {
                    &&& added.len() == 1
                    &&& next == TestState::Unrecoverable
                    &&& post.table == pre.table
                    &&& post.traces == pre.traces
                },
            }
        },
    }
}

/// Whether `post` is what the first handling of the stopped test makes of
/// `pre`: the trace options are asked for, the traps are planted at the
/// addresses of the coverage sink, and the test is told to run on. A
/// refusal takes nothing back; what could not be planted is left out.
pub open spec fn init_post(pre: RunView, post: RunView) -> bool {
    let added = post.since(pre);
    let pid = pre.current;
    &&& post.extends(pre)
    &&& post.traces == pre.traces
    &&& added.len() >= 2
    &&& added[0].pid == pid
    &&& added[0].request == Request::TraceOptions
    &&& install_run(
        pre.table,
        pid,
        addresses_of(pre.traces),
        added.subrange(1, added.len() - 1),
    ) == Some(post.table)
    &&& added.last().pid == pid
    &&& added.last().request == Request::Continue(None)
}

/// Why the test is halted, by what the last wait reported.
pub fn stop_cause(status: WaitStatus) -> (cause: StopCause)
    ensures
        cause == cause_of(status),
{
    match status {
        WaitStatus::Stopped(_, signal) => {
            if signal == SIGTRAP {
                StopCause::Trap
            } else {
                StopCause::Signal(signal)
            }
        },
        WaitStatus::PtraceEvent(_, _, event) => {
            if event == EVENT_EXEC {
                StopCause::Exec
            } else {
                StopCause::Event
            }
        },
        WaitStatus::PtraceSyscall(_) => StopCause::Syscall,
        _ => StopCause::Unknown,
    }
}

/// What a trap stop is about, by the answer to the reading of the
/// instruction pointer.
pub fn trap_target(table: &BreakpointTable, response: Response) -> (target: TrapTarget)
    ensures
        target == target_of(table@, response),
        target matches TrapTarget::Hit(bp) ==> table@.contains_key(bp.address),
{
    match response {
        Response::Word(ip) => match trap_address(ip) {
            Some(address) => match table.get(address) {
                Some(bp) => TrapTarget::Hit(bp),
                None => TrapTarget::Foreign,
            },
            None => TrapTarget::Foreign,
        },
        _ => TrapTarget::Lost,
    }
}

/// The state after the test was told to run on.
pub fn resumed(response: Response, now: u64) -> (state: TestState)
    ensures
        state == resumed_state(response, now),
{
    match response {
        Response::Done => TestState::wait_state(now),
        _ => TestState::Unrecoverable,
    }
}

/// The process that `status` reports as stopped, if it reports one.
pub fn stopped_pid(status: WaitStatus) -> (pid: Option<i32>)
    ensures
        pid == stopped_process(status),
{
    match status {
        WaitStatus::Stopped(pid, _) => Some(pid),
        WaitStatus::PtraceEvent(pid, _, _) => Some(pid),
        WaitStatus::PtraceSyscall(pid) => Some(pid),
        _ => None,
    }
}

/// What the first look for the test comes to, by its response.
pub fn start_found(response: Response) -> (found: Option<TestState>)
    ensures
        found == start_outcome(response),
{
    match response {
        Response::Event(WaitStatus::StillAlive) => None,
        Response::Event(WaitStatus::Stopped(_, _)) => Some(TestState::Initialise),
        _ => Some(TestState::Unrecoverable),
    }
}

/// What a look for the running test comes to, by its response.
pub fn wait_found(response: Response) -> (found: Option<TestState>)
    ensures
        found == wait_outcome(response),
{
    match response {
        Response::Event(WaitStatus::StillAlive) => None,
        Response::Event(WaitStatus::Continued(_)) => None,
        Response::Event(WaitStatus::Exited(_, code)) => Some(TestState::End(code)),
        Response::Event(WaitStatus::Stopped(_, _)) => Some(TestState::Stopped),
        Response::Event(WaitStatus::PtraceEvent(_, _, _)) => Some(TestState::Stopped),
        Response::Event(WaitStatus::PtraceSyscall(_)) => Some(TestState::Stopped),
        _ => Some(TestState::Unrecoverable),
    }
}

impl<'a, B: Backend> Data<'a, B> {
    /// The data of a run that traces the test `parent`, counts into
    /// `traces` and asks `backend`. The test is taken to be held; the
    /// history is what the backend has carried out before.
    pub fn new(traces: TraceMap, parent: i32, config: &'a Config, backend: B) -> (data: Self)
        ensures
            data@ == (RunView {
                wait: WaitStatus::StillAlive,
                parent,
                current: parent,
                table: Map::empty(),
                traces: traces@,
                error: None,
                attached: true,
                found: None,
                config: *config,
                history: backend.log(),
            }),
            data.backend() == backend,
    {
        Data {
            wait: WaitStatus::StillAlive,
            parent,
            current: parent,
            breakpoints: BreakpointTable::new(),
            traces,
            config,
            error: None,
            attached: true,
            backend,
            found: Ghost(None),
        }
    }

    /// The coverage that the run has counted.
    pub fn traces(&self) -> (traces: &TraceMap)
        ensures
            traces@ == self@.traces,
    {
        &self.traces
    }

    /// The breakpoints of the run.
    pub fn breakpoints(&self) -> (table: &BreakpointTable)
        ensures
            table@ == self@.table,
    {
        &self.breakpoints
    }

    /// What the last wait reported.
    pub fn last_wait(&self) -> (status: WaitStatus)
        ensures
            status == self@.wait,
    {
        self.wait
    }

    /// The process that the tracer acts on.
    pub fn current(&self) -> (pid: i32)
        ensures
            pid == self@.current,
    {
        self.current
    }

    /// The last error that a request met, if any did.
    pub fn last_error(&self) -> (error: Option<TraceError>)
        ensures
            error == self@.error,
    {
        self.error
    }

    /// The last error that a request met, in words, if any did.
    pub fn error_message(&self) -> (message: Option<String>)
        ensures
            message is Some <==> self@.error is Some,
            message matches Some(text) ==> text@ == self@.error->0.words(),
    {
        match self.error {
            Some(error) => Some(error.description()),
            None => None,
        }
    }

    /// Whether the test is still held by the tracer.
    pub fn is_attached(&self) -> (attached: bool)
        ensures
            attached == self@.attached,
    {
        self.attached
    }

    /// The configuration of the run: the one that the data was made with.
    pub fn config(&self) -> (config: &'a Config)
        ensures
            *config == self@.config,
    {
        self.config
    }

    /// The process id of the test.
    pub fn parent(&self) -> (pid: i32)
        ensures
            pid == self@.parent,
    {
        self.parent
    }

    /// What carries out the requests of the run.
    pub closed spec fn backend(&self) -> B {
        self.backend
    }

    /// Ends the use of the data and hands back the coverage sink and the
    /// backend.
    pub fn finish(self) -> (parts: (TraceMap, B))
        ensures
            parts.0@ == self@.traces,
            parts.1 == self.backend(),
    {
        (self.traces, self.backend)
    }

    /// Asks the backend for `request` on the current process and notes the
    /// error of a refusal. The exchange is the next of the history.
    fn issue(&mut self, request: Request) -> (response: Response)
        ensures
            final(self)@ == old(self)@.asked(request, response),
            final(self)@.error == last_refusal(
                seq![Exchange { pid: old(self)@.current, request, response }],
                old(self)@.error,
            ),
    {
        let response = self.backend.perform(self.current, request);
        proof {
            let only = seq![Exchange { pid: self.current, request, response }];
            assert(only.drop_last() =~= Seq::<Exchange>::empty());
            assert(last_refusal(only.drop_last(), self.error) == self.error);
        }
        match response {
            Response::Failed(error) => {
                self.error = Some(error);
            },
            _ => {},
        }
        response
    }

    /// Keeps the news of a look that found `found`, and turns to the
    /// process that stopped.
    fn inform(&mut self, response: Response, found: Option<TestState>)
        ensures
            final(self)@ == old(self)@.informed(response, found),
    {
        proof {
            self.found@ = found;
        }
        match response {
            Response::Event(status) => {
                self.wait = status;
                match stopped_pid(status) {
                    Some(pid) => {
                        self.current = pid;
                    },
                    None => {},
                }
            },
            _ => {},
        }
    }

    /// Lets go of the test: asks for its end and for its release, whatever
    /// the answers, and takes the breakpoints down. Once the test is let
    /// go, nothing is asked and nothing changes.
    pub fn release(&mut self)
        ensures
            release_post(old(self)@, final(self)@),
    {
        if self.attached {
            let killed = self.issue(Request::Kill);
            let detached = self.issue(Request::Detach);
            self.breakpoints.clear();
            self.attached = false;
            assert(self@ == released(old(self)@, self@.history));
        }
    }

    /// Every breakpoint of the run is filed under its own address.
    pub proof fn lemma_wf(&self)
        ensures
            self@.wf(),
    {
        self.breakpoints.lemma_wf();
    }

    /// Plants the trap at `address`, unless a breakpoint stands there: reads
    /// the word, writes it back with the trap, and files the breakpoint if
    /// both were answered.
    fn install(&mut self, address: u64)
        ensures
            final(self)@.extends(old(self)@),
            final(self)@.traces == old(self)@.traces,
            install_step(
                old(self)@.table,
                old(self)@.current,
                address,
                final(self)@.since(old(self)@),
            ) == Some((final(self)@.since(old(self)@).len() as int, final(self)@.table)),
    {
        let ghost pre = self@;
        proof {
            lemma_extends_itself(pre);
        }
        if self.breakpoints.contains(address) {
            return ;
        }
        let aligned = aligned_address(address);
        let read = self.issue(Request::Peek(aligned));
        proof {
            lemma_asked_extends(pre, pre, Request::Peek(aligned), read);
        }
        match read {
            Response::Word(word) => {
                let bp = Breakpoint::new(address, word).with_enabled(true);
                let ghost asked = self@;
                let written = self.issue(Request::Poke(aligned, bp.armed_word(word)));
                proof {
                    lemma_asked_extends(
                        pre,
                        asked,
                        Request::Poke(aligned, bp.armed(word)),
                        written,
                    );
                }
                match written {
                    Response::Done => {
                        self.breakpoints.insert(bp);
                    },
                    _ => {},
                }
            },
            _ => {},
        }
    }

    /// Plants the traps at `addresses`, from the one at `start` on.
    fn install_from(&mut self, addresses: &Vec<u64>, start: usize)
        requires
            start <= addresses@.len(),
        ensures
            final(self)@.extends(old(self)@),
            final(self)@.traces == old(self)@.traces,
            install_run(
                old(self)@.table,
                old(self)@.current,
                addresses@.skip(start as int),
                final(self)@.since(old(self)@),
            ) == Some(final(self)@.table),
        decreases addresses@.len() - start,
    {
        let ghost pre = self@;
        if start < addresses.len() {
            self.install(addresses[start]);
            let ghost mid = self@;
            self.install_from(addresses, start + 1);
            proof {
                let first = mid.since(pre);
                let rest = self@.since(mid);
                let added = self@.since(pre);
                let later = addresses@.skip(start as int);
                lemma_extends_further(pre, mid, self@);
                lemma_install_step_prefix(
                    pre.table,
                    pre.current,
                    addresses@[start as int],
                    first,
                    rest,
                );
                assert(later[0] == addresses@[start as int]);
                assert(later.skip(1) =~= addresses@.skip(start + 1));
                assert(added.skip(first.len() as int) =~= rest);
            }
        } else {
            proof {
                lemma_extends_itself(pre);
            }
        }
    }

    /// Tells the test to run on, delivering `signal` if there is one.
    fn resume(&mut self, signal: Option<i32>, now: u64) -> (next: TestState)
        ensures
            final(self)@.history.len() == old(self)@.history.len() + 1,
            final(self)@ == old(self)@.asked(
                Request::Continue(signal),
                final(self)@.history.last().response,
            ),
            next == resumed_state(final(self)@.history.last().response, now),
    {
        let response = self.issue(Request::Continue(signal));
        resumed(response, now)
    }
}

/// A view has come from itself by no exchange.
proof fn lemma_extends_itself(pre: RunView)
    ensures
        pre.extends(pre),
        pre.since(pre) == Seq::<Exchange>::empty(),
{
    assert(pre.history.take(pre.history.len() as int) =~= pre.history);
    assert(pre.since(pre) =~= Seq::<Exchange>::empty());
}

/// A view that has come from another by exchanges has come from it by one
/// more when one more is made.
proof fn lemma_asked_extends(pre: RunView, mid: RunView, request: Request, response: Response)
    requires
        mid.extends(pre),
    ensures
        mid.asked(request, response).extends(pre),
        mid.asked(request, response).since(pre) == mid.since(pre).push(
            Exchange { pid: pre.current, request, response },
        ),
{
    let post = mid.asked(request, response);
    assert(post.history.take(pre.history.len() as int) =~= mid.history.take(
        pre.history.len() as int,
    ));
    assert(post.since(pre) =~= mid.since(pre).push(
        Exchange { pid: pre.current, request, response },
    ));
    assert(post.since(pre).drop_last() =~= mid.since(pre));
}

/// What has come from a view by exchanges, and gone on by more, has come
/// from it by both.
proof fn lemma_extends_further(pre: RunView, mid: RunView, post: RunView)
    requires
        mid.extends(pre),
        post.extends(mid),
    ensures
        post.extends(pre),
        post.since(pre) == mid.since(pre) + post.since(mid),
{
    assert(post.history.take(pre.history.len() as int) =~= post.history.take(
        mid.history.len() as int,
    ).take(pre.history.len() as int));
    assert(post.since(pre) =~= mid.since(pre) + post.since(mid));
    lemma_refusal_of_both(mid.since(pre), post.since(mid), pre.error);
}

/// The exchanges that planting takes decide its outcome, whatever follows
/// them.
proof fn lemma_install_step_prefix(
    table: Map<u64, Breakpoint>,
    pid: i32,
    address: u64,
    first: Seq<Exchange>,
    rest: Seq<Exchange>,
)
    requires
        install_step(table, pid, address, first) matches Some((taken, _)) && taken == first.len(),
    ensures
        install_step(table, pid, address, first + rest) == install_step(
            table,
            pid,
            address,
            first,
        ),
{
    let all = first + rest;
    if first.len() >= 1 {
        assert(all[0] == first[0]);
    }
    if first.len() >= 2 {
        assert(all[1] == first[1]);
    }
}

impl<'a, B: Backend> StateData for Data<'a, B> {
    open spec fn news(&self) -> Option<TestState> {
        self@.found
    }

    open spec fn appeared(&self, before: &Self, found: Option<TestState>) -> bool {
        &&& look_post(before@, self@, found)
        &&& found == start_outcome(self@.history.last().response)
    }

    open spec fn initialised(&self, before: &Self, now: u64) -> bool {
        init_post(before@, self@)
    }

    open spec fn waited(&self, before: &Self, found: Option<TestState>) -> bool {
        &&& look_post(before@, self@, found)
        &&& found == wait_outcome(self@.history.last().response)
    }

    open spec fn handled(&self, before: &Self, next: TestState, now: u64) -> bool {
        stop_post(before@, self@, next, now)
    }

    open spec fn let_go(&self, before: &Self) -> bool {
        release_post(before@, self@)
    }

    /// Looks whether the test has appeared: asks for news of it once and
    /// keeps what came back.
    fn start(&mut self) -> (found: Option<TestState>) {
        let response = self.issue(Request::Poll);
        let found = start_found(response);
        self.inform(response, found);
        found
    }

    /// Handles the first stop of the test: asks for the trace options,
    /// plants the traps at the addresses of the coverage sink and tells the
    /// test to run on. What is refused is passed over.
    fn init(&mut self, now: u64) -> (next: TestState) {
        let ghost pre = self@;
        let options = self.issue(Request::TraceOptions);
        let ghost asked = self@;
        let addresses = self.traces.addresses();
        self.install_from(&addresses, 0);
        let ghost planted = self@;
        let resume = self.issue(Request::Continue(None));
        proof {
            let added = self@.since(pre);
            assert(addresses@.skip(0) =~= addresses@);
            lemma_extends_itself(pre);
            lemma_asked_extends(pre, pre, Request::TraceOptions, options);
            lemma_extends_further(pre, asked, planted);
            lemma_asked_extends(pre, planted, Request::Continue(None), resume);
            assert(added.subrange(1, added.len() - 1) =~= planted.since(asked));
        }
        TestState::wait_state(now)
    }

    /// Looks whether the test has stopped or exited: asks for news of it
    /// once and keeps what came back.
    fn wait(&mut self) -> (found: Option<TestState>) {
        let response = self.issue(Request::Poll);
        let found = wait_found(response);
        self.inform(response, found);
        found
    }

    /// Handles a stop of the test by its cause, and resumes the test.
    fn stop(&mut self, now: u64) -> (next: TestState) {
        let ghost pre = self@;
        proof {
            lemma_extends_itself(pre);
        }
        match stop_cause(self.wait) {
            StopCause::Unknown => TestState::Unrecoverable,
            StopCause::Signal(signal) => {
                let next = self.resume(Some(signal), now);
                proof {
                    lemma_asked_extends(
                        pre,
                        pre,
                        Request::Continue(Some(signal)),
                        self@.history.last().response,
                    );
                }
                next
            },
            StopCause::Event | StopCause::Syscall => {
                let next = self.resume(None, now);
                proof {
                    lemma_asked_extends(
                        pre,
                        pre,
                        Request::Continue(None),
                        self@.history.last().response,
                    );
                }
                next
            },
            StopCause::Exec => {
                self.breakpoints.clear();
                let ghost cleared = self@;
                let addresses = self.traces.addresses();
                self.install_from(&addresses, 0);
                let ghost planted = self@;
                let next = self.resume(None, now);
                proof {
                    let added = self@.since(pre);
                    assert(addresses@.skip(0) =~= addresses@);
                    assert(cleared.since(pre) =~= Seq::<Exchange>::empty());
                    assert(cleared.extends(pre));
                    lemma_extends_further(pre, cleared, planted);
                    lemma_asked_extends(
                        pre,
                        planted,
                        Request::Continue(None),
                        self@.history.last().response,
                    );
                    assert(added.drop_last() =~= planted.since(cleared));
                }
                next
            },
            StopCause::Trap => {
                let read = self.issue(Request::ReadIp);
                proof {
                    lemma_asked_extends(pre, pre, Request::ReadIp, read);
                }
                let ghost asked = self@;
                match trap_target(&self.breakpoints, read) {
                    TrapTarget::Lost => TestState::Unrecoverable,
                    TrapTarget::Foreign => {
                        let next = self.resume(Some(SIGTRAP), now);
                        proof {
                            lemma_asked_extends(
                                pre,
                                asked,
                                Request::Continue(Some(SIGTRAP)),
                                self@.history.last().response,
                            );
                        }
                        next
                    },
                    TrapTarget::Hit(bp) => {
                        self.traces.record_hit(bp.address);
                        let pid = self.current;
                        let (end, refused, transcript) = resolve_hit(&mut self.backend, pid, bp);
                        match refused {
                            Some(error) => {
                                self.error = Some(error);
                            },
                            None => {},
                        }
                        self.breakpoints.insert(
                            match end {
                                HitStep::Resumed(after) => after,
                                HitStep::Failed(after) => after,
                                HitStep::Ask(cycle, _) => cycle.breakpoint,
                            },
                        );
                        proof {
                            let added = self@.since(pre);
                            assert(self@.history.take(pre.history.len() as int) =~= pre.history);
                            assert(added =~= asked.since(pre) + transcript@);
                            assert(added.skip(1) =~= transcript@);
                            lemma_refusal_of_both(asked.since(pre), transcript@, pre.error);
                            lemma_refusal_of_both(
                                Seq::<Exchange>::empty(),
                                transcript@,
                                asked.error,
                            );
                            lemma_refusal_of_both(Seq::<Exchange>::empty(), transcript@, None);
                            lemma_refusal_default(transcript@, asked.error);
                        }
                        match end {
                            HitStep::Resumed(_) => TestState::wait_state(now),
                            _ => TestState::Unrecoverable,
                        }
                    },
                }
            },
        }
    }

    /// Lets go of the test, as `release` does.
    fn cleanup(&mut self) {
        self.release()
    }
}

/// The last refusal among exchanges is the same whatever stood before,
/// where there is one; where there is none, what stood before stays.
proof fn lemma_refusal_default(exchanges: Seq<Exchange>, before: Option<TraceError>)
    ensures
        last_refusal(exchanges, before) == match last_refusal(exchanges, None) {
            Some(error) => Some(error),
            None => before,
        },
    decreases exchanges.len(),
{
    if exchanges.len() > 0 {
        lemma_refusal_default(exchanges.drop_last(), before);
    }
}

} // verus!
