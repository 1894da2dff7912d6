//! The state machine that sequences the tracing of one test binary.

pub mod linux;

use crate::config::Config;
use crate::protocol::{Backend, WaitStatus};
use crate::statemachine::linux::{Data, RunView};
use crate::traces::TraceMap;
use vstd::prelude::*;

verus! {

/// Where a run stands.
#[derive(Debug, Copy, Clone, Eq, PartialEq, Structural)]
pub enum TestState {
    /// Waiting for the test to appear; `start_time` is when the wait began.
    Start { start_time: u64 },
    /// The test has appeared and is stopped for the first time.
    Initialise,
    /// The test runs; `start_time` is when it was resumed.
    Waiting { start_time: u64 },
    /// The test is halted at a trap or a signal.
    Stopped,
    /// Nothing happened within the timeout.
    Timeout,
    /// Something went wrong that the tracer cannot mend.
    Unrecoverable,
    /// The run is over, with the test's exit code or -1 for a failed run.
    End(i32),
    /// The run is over, and no later run of this binary would fare better.
    Abort,
}

/// What a diagnostic is about.
#[derive(Debug, Copy, Clone, Eq, PartialEq, Structural)]
pub enum Diagnostic {
    /// The test did not appear in time.
    StartTimeout,
    /// The test did not stop or exit in time.
    WaitTimeout,
    /// A state was stepped that has no handler.
    UnhandledState,
}

/// The time that has passed at `now` since `since`; none if the clock reads
/// less than it did.
pub open spec fn elapsed_since(since: u64, now: u64) -> u64 {
    if now >= since {
        (now - since) as u64
    } else {
        0
    }
}

/// Whether a wait that began at `since` has used up `timeout` at `now`.
pub open spec fn timed_out(since: u64, now: u64, timeout: u64) -> bool {
    elapsed_since(since, now) >= timeout
}

/// The state after a look for news of the test, which found `found`.
/// News decides; without news a wait that has used up its time ends in
/// `Timeout`, and any other state stays.
pub open spec fn poll_outcome(
    state: TestState,
    found: Option<TestState>,
    now: u64,
    timeout: u64,
) -> TestState {
    match found {
        Some(next) => next,
        None => match state {
            TestState::Start { start_time } | TestState::Waiting { start_time } => if timed_out(
                start_time,
                now,
                timeout,
            ) {
                TestState::Timeout
            } else {
                state
            },
            _ => state,
        },
    }
}

/// The time that has passed at `now` since `since`.
pub fn elapsed(since: u64, now: u64) -> (passed: u64)
    ensures
        passed == elapsed_since(since, now),
{
    if now >= since {
        now - since
    } else {
        0
    }
}

/// The handling of the states on one platform. The tracer's data for a
/// platform implements it; `TestState::step` calls it.
///
/// Each handler has a relation that says what it makes of the data. An
/// implementation states its own; the defaults are those of handlers that
/// say nothing of their data.
pub trait StateData {
    /// What the last look for the test found: what `start` or `wait`
    /// returned last. The default is that of handlers that never find
    /// anything.
    open spec fn news(&self) -> Option<TestState> {
        None
    }

    /// Whether this is what `start` makes of `before`, having found
    /// `found`.
    open spec fn appeared(&self, before: &Self, found: Option<TestState>) -> bool {
        true
    }

    /// Whether this is what `init` makes of `before` at `now`.
    open spec fn initialised(&self, before: &Self, now: u64) -> bool {
        true
    }

    /// Whether this is what `wait` makes of `before`, having found
    /// `found`.
    open spec fn waited(&self, before: &Self, found: Option<TestState>) -> bool {
        true
    }

    /// Whether this is what `stop` makes of `before` at `now`, with `next`
    /// as the state that it returns.
    open spec fn handled(&self, before: &Self, next: TestState, now: u64) -> bool {
        true
    }

    /// Whether this is what `cleanup` makes of `before`.
    open spec fn let_go(&self, before: &Self) -> bool {
        true
    }

    /// Looks whether the test has appeared. `None` while it has not;
    /// `Initialise` once it is stopped for the first time; `Unrecoverable`
    /// if it is gone or cannot be observed.
    fn start(&mut self) -> (found: Option<TestState>)
        ensures
            found is None || found == Some(TestState::Initialise) || found == Some(
                TestState::Unrecoverable,
            ),
            found == final(self).news(),
            final(self).appeared(old(self), found),
    ;

    /// Installs the trace options and the breakpoints and resumes the test.
    fn init(&mut self, now: u64) -> (next: TestState)
        ensures
            next == (TestState::Waiting { start_time: now }),
            final(self).initialised(old(self), now),
    ;

    /// Looks whether the test has stopped or exited. `None` while it runs.
    fn wait(&mut self) -> (found: Option<TestState>)
        ensures
            found is None || found == Some(TestState::Stopped) || found == Some(
                TestState::Unrecoverable,
            ) || (found matches Some(s) && s is End),
            found == final(self).news(),
            final(self).waited(old(self), found),
    ;

    /// Handles a stop of the test: records the coverage and resumes it.
    fn stop(&mut self, now: u64) -> (next: TestState)
        ensures
            next == (TestState::Waiting { start_time: now }) || next == TestState::Unrecoverable,
            final(self).handled(old(self), next, now),
    ;

    /// Lets go of the test: kills and detaches it.
    fn cleanup(&mut self)
        ensures
            final(self).let_go(old(self)),
    ;
}

impl TestState {
    /// Whether the run is over: it has ended or was given up.
    pub open spec fn is_terminal(self) -> bool {
        self is End || self is Abort
    }

    /// Whether `next` may follow this state in one step taken at `now`.
    pub open spec fn may_step_to(self, next: TestState, now: u64, timeout: u64) -> bool {
        match self {
            TestState::Start { start_time } => {
                ||| next == TestState::Initialise
                ||| next == TestState::Unrecoverable
                ||| next == TestState::Timeout && timed_out(start_time, now, timeout)
                ||| next == self && !timed_out(start_time, now, timeout)
            },
            TestState::Initialise => next == (TestState::Waiting { start_time: now }),
            TestState::Waiting { start_time } => {
                ||| next == TestState::Stopped
                ||| next is End
                ||| next == TestState::Unrecoverable
                ||| next == TestState::Timeout && timed_out(start_time, now, timeout)
                ||| next == self && !timed_out(start_time, now, timeout)
            },
            TestState::Stopped => {
                ||| next == (TestState::Waiting { start_time: now })
                ||| next == TestState::Unrecoverable
            },
            TestState::Timeout | TestState::Unrecoverable => next == TestState::End(-1i32),
            TestState::End(_) | TestState::Abort => next == TestState::End(-1i32),
        }
    }

    /// Whether the test has finished or the run has gone wrong.
    pub fn is_finished(self) -> (finished: bool)
        ensures
            finished == (self is End || self is Unrecoverable || self is Abort),
    {
        match self {
            TestState::End(_) | TestState::Unrecoverable | TestState::Abort => true,
            _ => false,
        }
    }

    /// Whether the run is over, so that no further step is due.
    pub fn is_done(self) -> (done: bool)
        ensures
            done == self.is_terminal(),
    {
        match self {
            TestState::End(_) | TestState::Abort => true,
            _ => false,
        }
    }

    /// The state in which a run begins at `now`.
    pub fn start_state(now: u64) -> (state: TestState)
        ensures
            state == (TestState::Start { start_time: now }),
    {
        TestState::Start { start_time: now }
    }

    /// The state of a test that was resumed at `now`.
    pub fn wait_state(now: u64) -> (state: TestState)
        ensures
            state == (TestState::Waiting { start_time: now }),
    {
        TestState::Waiting { start_time: now }
    }

    /// The state after a look for news of the test that found `found`, by
    /// the clock's reading `now` and the configured `timeout`.
    pub fn after_poll(self, found: Option<TestState>, now: u64, timeout: u64) -> (next: TestState)
        ensures
            next == poll_outcome(self, found, now, timeout),
    {
        match found {
            Some(next) => next,
            None => match self {
                TestState::Start { start_time } | TestState::Waiting { start_time } => {
                    if elapsed(start_time, now) >= timeout {
                        TestState::Timeout
                    } else {
                        self
                    }
                },
                _ => self,
            },
        }
    }

    /// Takes the run one step further, at the clock's reading `now`.
    ///
    /// `Start` and `Waiting` look for news of the test: news decides, and
    /// without news the wait ends in `Timeout` exactly when the timeout has
    /// passed. `Initialise` and `Stopped` are handled by `data`; `Timeout`
    /// and `Unrecoverable` let go of the test and end the run with -1. A
    /// state without a handler ends the run with -1 as well, and leaves
    /// the data as it is. The one handler of the state is called once, and
    /// what it makes of the data is what the step makes of it.
    pub fn step<T: StateData>(self, data: &mut T, config: &Config, now: u64) -> (next: TestState)
        ensures
            self.may_step_to(next, now, config.test_timeout),
            self is Start || self is Waiting ==> next == poll_outcome(
                self,
                final(data).news(),
                now,
                config.test_timeout,
            ),
            self is Start ==> final(data).appeared(old(data), final(data).news()),
            self is Waiting ==> final(data).waited(old(data), final(data).news()),
            self is Initialise ==> final(data).initialised(old(data), now),
            self is Stopped ==> final(data).handled(old(data), next, now),
            self is Timeout || self is Unrecoverable ==> final(data).let_go(old(data)),
            self.is_terminal() ==> *final(data) == *old(data),
            self is Timeout || self is Unrecoverable || self.is_terminal() ==> next
                == TestState::End(-1i32),
    {
        match self {
            TestState::Start { start_time } => {
                let found = data.start();
                self.after_poll(found, now, config.test_timeout)
            },
            TestState::Initialise => data.init(now),
            TestState::Waiting { start_time } => {
                let found = data.wait();
                self.after_poll(found, now, config.test_timeout)
            },
            TestState::Stopped => data.stop(now),
            TestState::Timeout => {
                data.cleanup();
                TestState::End(-1i32)
            },
            TestState::Unrecoverable => {
                data.cleanup();
                TestState::End(-1i32)
            },
            _ => TestState::End(-1i32),
        }
    }

    /// What the user is to be told of the step from this state to `next`,
    /// if anything: that a wait timed out, or, where `config` asks for it,
    /// that a state without a handler was stepped.
    pub fn diagnostic(self, next: TestState, config: &Config) -> (note: Option<Diagnostic>)
        ensures
            note == match self {
                TestState::Start { .. } => if next is Timeout {
                    Some(Diagnostic::StartTimeout)
                } else {
                    None
                },
                TestState::Waiting { .. } => if next is Timeout {
                    Some(Diagnostic::WaitTimeout)
                } else {
                    None
                },
                TestState::End(_) | TestState::Abort => if config.verbose {
                    Some(Diagnostic::UnhandledState)
                } else {
                    None
                },
                _ => None,
            },
    {
        match self {
            TestState::Start { .. } => match next {
                TestState::Timeout => Some(Diagnostic::StartTimeout),
                _ => None,
            },
            TestState::Waiting { .. } => match next {
                TestState::Timeout => Some(Diagnostic::WaitTimeout),
                _ => None,
            },
            TestState::End(_) | TestState::Abort => {
                if config.verbose {
                    Some(Diagnostic::UnhandledState)
                } else {
                    None
                }
            },
            _ => None,
        }
    }
}

impl Diagnostic {
    /// The line that the user reads.
    pub fn message(self) -> (text: String)
        ensures
            text@ == match self {
                Diagnostic::StartTimeout => "Error: Timed out when starting test"@,
                Diagnostic::WaitTimeout => "Error: Timed out waiting for test response"@,
                Diagnostic::UnhandledState => "Tarpaulin error: unhandled test state"@,
            },
    {
        match self {
            Diagnostic::StartTimeout => "Error: Timed out when starting test".to_string(),
            Diagnostic::WaitTimeout => "Error: Timed out waiting for test response".to_string(),
            Diagnostic::UnhandledState => "Tarpaulin error: unhandled test state".to_string(),
        }
    }
}

/// The state and the data with which the tracing of the test `test`
/// begins at `now`: the machine waits for the test to appear, and nothing
/// is asked of `backend`.
pub fn create_state_machine<'a, B: Backend>(
    test: i32,
    traces: TraceMap,
    config: &'a Config,
    backend: B,
    now: u64,
) -> (machine: (TestState, Data<'a, B>))
    ensures
        machine.0 == (TestState::Start { start_time: now }),
        machine.1@ == (RunView {
            wait: WaitStatus::StillAlive,
            parent: test,
            current: test,
            table: Map::empty(),
            traces: traces@,
            error: None,
            attached: true,
            found: None,
            config: *config,
            history: backend.log(),
        }),
{
    let data = Data::new(traces, test, config, backend);
    (TestState::start_state(now), data)
}

/// Whether `next` may follow `state` in one step, at some reading of the
/// clock.
pub open spec fn follows(state: TestState, next: TestState, timeout: u64) -> bool {
    exists|now: u64| state.may_step_to(next, now, timeout)
}

/// Whether `states` is the course of a run: it begins in `Start`, each
/// state follows the one before it, and only a state that is not terminal
/// is stepped.
pub open spec fn is_run(states: Seq<TestState>, timeout: u64) -> bool {
    &&& states.len() > 0
    &&& states[0] is Start
    &&& forall|i: int|
        0 <= i < states.len() - 1 ==> !(#[trigger] states[i]).is_terminal() && follows(
            states[i],
            states[i + 1],
            timeout,
        )
}

/// The number of terminal states among `states`.
pub open spec fn terminal_count(states: Seq<TestState>) -> nat
    decreases states.len(),
{
    if states.len() == 0 {
        0
    } else if states.last().is_terminal() {
        terminal_count(states.drop_last()) + 1
    } else {
        terminal_count(states.drop_last())
    }
}

/// Among states none of which is terminal, the count is nought.
proof fn lemma_no_terminal(states: Seq<TestState>)
    requires
        forall|i: int| 0 <= i < states.len() ==> !(#[trigger] states[i]).is_terminal(),
    ensures
        terminal_count(states) == 0,
    decreases states.len(),
{
    if states.len() > 0 {
        assert(!states[states.len() - 1].is_terminal());
        lemma_no_terminal(states.drop_last());
    }
}

/// A run reaches at most one terminal state, and that state is its last: a
/// run that has ended has reached exactly one.
pub proof fn lemma_one_terminal_state(states: Seq<TestState>, timeout: u64)
    requires
        is_run(states, timeout),
    ensures
        terminal_count(states) == if states.last().is_terminal() {
            1nat
        } else {
            0nat
        },
        forall|i: int| 0 <= i < states.len() - 1 ==> !(#[trigger] states[i]).is_terminal(),
{
    lemma_no_terminal(states.drop_last());
}

/// Without news of the test, a wait ends in `Timeout` at the first step
/// taken when the timeout has passed, and at no step before.
pub proof fn lemma_timeout_exact(start_time: u64, now: u64, timeout: u64)
    ensures
        poll_outcome(TestState::Start { start_time }, None, now, timeout) == TestState::Timeout
            <==> elapsed_since(start_time, now) >= timeout,
        poll_outcome(TestState::Waiting { start_time }, None, now, timeout) == TestState::Timeout
            <==> elapsed_since(start_time, now) >= timeout,
        elapsed_since(start_time, now) < timeout ==> poll_outcome(
            TestState::Start { start_time },
            None,
            now,
            timeout,
        ) == (TestState::Start { start_time }) && poll_outcome(
            TestState::Waiting { start_time },
            None,
            now,
            timeout,
        ) == (TestState::Waiting { start_time }),
{
}

/// A wait that has timed out stays timed out as the clock goes on.
pub proof fn lemma_timeout_monotone(start_time: u64, now: u64, later: u64, timeout: u64)
    requires
        now <= later,
        timed_out(start_time, now, timeout),
    ensures
        timed_out(start_time, later, timeout),
{
}

/// No step leads from `Start` to `Waiting`: a test that never appears is
/// never resumed.
pub proof fn lemma_start_never_waits(start_time: u64, next: TestState, now: u64, timeout: u64)
    requires
        (TestState::Start { start_time }).may_step_to(next, now, timeout),
    ensures
        !(next is Waiting),
        next is Unrecoverable || next is Timeout ==> forall|last: TestState, then: u64|
            next.may_step_to(last, then, timeout) ==> last == TestState::End(-1i32),
{
}

} // verus!
