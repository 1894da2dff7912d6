use std::cell::RefCell;
use std::collections::{BTreeMap, VecDeque};
use std::rc::Rc;

use tarpaulin::breakpoint::Breakpoint;
use tarpaulin::config::Config;
use tarpaulin::hit::{resolve_hit, HitStep};
use tarpaulin::protocol::{Backend, Request, Response, TraceError, WaitStatus, SIGTRAP};
use tarpaulin::statemachine::linux::{
    resumed, start_found, stop_cause, stopped_pid, trap_target, wait_found, Data, StopCause,
    TrapTarget,
};
use tarpaulin::statemachine::{create_state_machine, StateData, TestState};
use tarpaulin::traces::{Trace, TraceMap};

const TEST: i32 = 4242;

/// A tracee that lives in the test: words of memory, an instruction
/// pointer, and the news that the next polls are to report.
struct Inner {
    memory: BTreeMap<u64, u64>,
    ip: u64,
    executed: BTreeMap<u64, u64>,
    news: VecDeque<Response>,
    log: Vec<(i32, Request)>,
    refuse: Option<Request>,
    bytes_at_step: Vec<u64>,
}

#[derive(Clone)]
struct Fake(Rc<RefCell<Inner>>);

impl Fake {
    fn new() -> Fake {
        let mut memory = BTreeMap::new();
        memory.insert(0x1000, 0x1122_3344_5566_7755u64);
        memory.insert(0x2000, 0x0000_0000_0000_0048u64);
        Fake(Rc::new(RefCell::new(Inner {
            memory,
            ip: 0,
            executed: BTreeMap::new(),
            news: VecDeque::new(),
            log: Vec::new(),
            refuse: None,
            bytes_at_step: Vec::new(),
        })))
    }

    fn report(&self, status: WaitStatus) {
        self.0.borrow_mut().news.push_back(Response::Event(status));
    }

    fn word(&self, address: u64) -> u64 {
        self.0.borrow().memory[&address]
    }

    fn requests(&self) -> Vec<Request> {
        self.0.borrow().log.iter().map(|(_, request)| *request).collect()
    }

    fn forget(&self) {
        self.0.borrow_mut().log.clear();
    }
}

impl Backend for Fake {
    fn perform(&mut self, pid: i32, request: Request) -> Response {
        let mut inner = self.0.borrow_mut();
        inner.log.push((pid, request));
        if inner.refuse == Some(request) {
            return Response::Failed(TraceError::NoSuchProcess);
        }
        match request {
            Request::Poll => inner.news.pop_front().unwrap_or(Response::Event(WaitStatus::StillAlive)),
            Request::AwaitStop => Response::Event(WaitStatus::Stopped(pid, SIGTRAP)),
            Request::ReadIp => Response::Word(inner.ip),
            Request::SetIp(address) => {
                inner.ip = address;
                Response::Done
            }
            Request::Peek(address) => match inner.memory.get(&address) {
                Some(word) => Response::Word(*word),
                None => Response::Failed(TraceError::BadAddress),
            },
            Request::Poke(address, word) => match inner.memory.get_mut(&address) {
                Some(slot) => {
                    *slot = word;
                    Response::Done
                }
                None => Response::Failed(TraceError::BadAddress),
            },
            Request::SingleStep => {
                let ip = inner.ip;
                let word = inner.memory[&(ip & !7)];
                inner.bytes_at_step.push(word);
                if (word >> (8 * (ip & 7))) & 0xff != 0xcc {
                    *inner.executed.entry(ip).or_insert(0) += 1;
                }
                inner.ip = ip + 1;
                Response::Done
            }
            _ => Response::Done,
        }
    }
}

fn sink() -> TraceMap {
    let mut traces = TraceMap::new();
    traces.add_trace(Trace { line: 10, address: Some(0x1000), hits: 0 });
    traces.add_trace(Trace { line: 20, address: Some(0x2000), hits: 0 });
    traces
}

/// Takes a run through its first stop: `Start`, `Initialise`, `Waiting`.
fn begun<'a>(fake: &Fake, config: &'a Config) -> (TestState, Data<'a, Fake>) {
    let (state, mut data) = create_state_machine(TEST, sink(), config, fake.clone(), 0);
    fake.report(WaitStatus::Stopped(TEST, SIGTRAP));
    let state = state.step(&mut data, config, 1);
    assert_eq!(state, TestState::Initialise);
    let state = state.step(&mut data, config, 2);
    assert_eq!(state, TestState::Waiting { start_time: 2 });
    (state, data)
}

#[test]
fn a_new_machine_waits_for_the_test_and_has_asked_nothing() {
    let fake = Fake::new();
    let config = Config::new(5);
    let (state, data) = create_state_machine(TEST, sink(), &config, fake.clone(), 7);
    assert_eq!(state, TestState::Start { start_time: 7 });
    assert_eq!(data.current(), TEST);
    assert_eq!(data.last_wait(), WaitStatus::StillAlive);
    assert_eq!(data.last_error(), None);
    assert!(data.is_attached());
    assert_eq!(data.breakpoints().len(), 0);
    assert_eq!(data.traces().len(), 2);
    assert!(fake.requests().is_empty());
}

#[test]
fn the_first_stop_arms_every_breakpoint() {
    let fake = Fake::new();
    let config = Config::new(5);
    let (state, data) = begun(&fake, &config);
    assert_eq!(state, TestState::Waiting { start_time: 2 });
    assert_eq!(
        fake.requests(),
        vec![
            Request::Poll,
            Request::TraceOptions,
            Request::Peek(0x1000),
            Request::Poke(0x1000, 0x1122_3344_5566_77cc),
            Request::Peek(0x2000),
            Request::Poke(0x2000, 0x0000_0000_0000_00cc),
            Request::Continue(None),
        ]
    );
    assert_eq!(data.breakpoints().len(), 2);
    assert_eq!(
        data.breakpoints().get(0x1000),
        Some(Breakpoint { address: 0x1000, original: 0x55, enabled: true })
    );
    assert_eq!(
        data.breakpoints().get(0x2000),
        Some(Breakpoint { address: 0x2000, original: 0x48, enabled: true })
    );
    assert_eq!(fake.word(0x1000) & 0xff, 0xcc);
    assert_eq!(fake.word(0x2000) & 0xff, 0xcc);
    assert_eq!(data.last_wait(), WaitStatus::Stopped(TEST, SIGTRAP));
}

#[test]
fn a_hit_is_counted_once_and_the_trap_planted_again() {
    let fake = Fake::new();
    let config = Config::new(5);
    let (state, mut data) = begun(&fake, &config);
    fake.forget();
    fake.0.borrow_mut().ip = 0x1001;
    fake.report(WaitStatus::Stopped(TEST, SIGTRAP));
    let state = state.step(&mut data, &config, 3);
    assert_eq!(state, TestState::Stopped);
    let state = state.step(&mut data, &config, 4);
    assert_eq!(state, TestState::Waiting { start_time: 4 });
    assert_eq!(
        fake.requests(),
        vec![
            Request::Poll,
            Request::ReadIp,
            Request::SetIp(0x1000),
            Request::Peek(0x1000),
            Request::Poke(0x1000, 0x1122_3344_5566_7755),
            Request::SingleStep,
            Request::AwaitStop,
            Request::Peek(0x1000),
            Request::Poke(0x1000, 0x1122_3344_5566_77cc),
            Request::Continue(None),
        ]
    );
    assert_eq!(data.traces().hits(0x1000), 1);
    assert_eq!(data.traces().hits(0x2000), 0);
    assert_eq!(fake.0.borrow().bytes_at_step, vec![0x1122_3344_5566_7755]);
    assert_eq!(fake.0.borrow().executed.get(&0x1000), Some(&1));
    assert_eq!(fake.word(0x1000), 0x1122_3344_5566_77cc);
    assert_eq!(
        data.breakpoints().get(0x1000),
        Some(Breakpoint { address: 0x1000, original: 0x55, enabled: true })
    );
}

#[test]
fn every_hit_of_the_same_line_is_counted_when_it_occurs() {
    let fake = Fake::new();
    let config = Config::new(5);
    let (mut state, mut data) = begun(&fake, &config);
    for round in 1..=3u64 {
        fake.0.borrow_mut().ip = 0x1001;
        fake.report(WaitStatus::Stopped(TEST, SIGTRAP));
        state = state.step(&mut data, &config, 3);
        state = state.step(&mut data, &config, 3);
        assert_eq!(state, TestState::Waiting { start_time: 3 });
        assert_eq!(data.traces().hits(0x1000), round);
        assert_eq!(fake.0.borrow().executed.get(&0x1000), Some(&round));
        assert_eq!(fake.word(0x1000) & 0xff, 0xcc);
    }
}

#[test]
fn an_exit_ends_the_run_with_the_exit_code() {
    let fake = Fake::new();
    let config = Config::new(5);
    let (state, mut data) = begun(&fake, &config);
    fake.report(WaitStatus::Exited(TEST, 0));
    let state = state.step(&mut data, &config, 3);
    assert_eq!(state, TestState::End(0));
    assert!(state.is_done());
    let (traces, _) = data.finish();
    assert_eq!(traces.hits(0x1000), 0);
}

#[test]
fn an_exit_code_is_passed_up_as_it_is() {
    let fake = Fake::new();
    let config = Config::new(5);
    let (state, mut data) = begun(&fake, &config);
    fake.report(WaitStatus::Exited(TEST, 101));
    assert_eq!(state.step(&mut data, &config, 3), TestState::End(101));
}

#[test]
fn a_silent_test_times_out_and_is_let_go() {
    let fake = Fake::new();
    let config = Config::new(5);
    let (state, mut data) = begun(&fake, &config);
    fake.forget();
    let mut state = state;
    for now in 3..7 {
        state = state.step(&mut data, &config, now);
        assert_eq!(state, TestState::Waiting { start_time: 2 });
    }
    state = state.step(&mut data, &config, 7);
    assert_eq!(state, TestState::Timeout);
    assert!(data.is_attached());
    state = state.step(&mut data, &config, 8);
    assert_eq!(state, TestState::End(-1));
    assert!(!data.is_attached());
    assert_eq!(data.breakpoints().len(), 0);
    let requests = fake.requests();
    assert_eq!(requests[requests.len() - 2..], [Request::Kill, Request::Detach]);
    assert_eq!(requests.iter().filter(|r| **r == Request::Poll).count(), 5);
}

#[test]
fn a_test_that_never_appears_times_out_in_start() {
    let fake = Fake::new();
    let config = Config::new(5);
    let (mut state, mut data) = create_state_machine(TEST, sink(), &config, fake.clone(), 100);
    state = state.step(&mut data, &config, 104);
    assert_eq!(state, TestState::Start { start_time: 100 });
    state = state.step(&mut data, &config, 105);
    assert_eq!(state, TestState::Timeout);
    state = state.step(&mut data, &config, 106);
    assert_eq!(state, TestState::End(-1));
    assert_eq!(
        fake.requests(),
        vec![Request::Poll, Request::Poll, Request::Kill, Request::Detach]
    );
}

#[test]
fn a_failed_launch_ends_in_error_without_waiting() {
    let fake = Fake::new();
    let config = Config::new(5);
    let (mut state, mut data) = create_state_machine(TEST, sink(), &config, fake.clone(), 0);
    fake.report(WaitStatus::Exited(TEST, 127));
    let mut seen = vec![state];
    while !state.is_done() {
        state = state.step(&mut data, &config, 1);
        seen.push(state);
        assert!(seen.len() < 10);
    }
    assert_eq!(
        seen,
        vec![TestState::Start { start_time: 0 }, TestState::Unrecoverable, TestState::End(-1)]
    );
    assert!(!seen.iter().any(|s| matches!(s, TestState::Waiting { .. })));
    assert_eq!(data.breakpoints().len(), 0);
}

#[test]
fn letting_go_twice_asks_once() {
    let fake = Fake::new();
    let config = Config::new(5);
    let (_, mut data) = begun(&fake, &config);
    fake.forget();
    data.release();
    assert_eq!(fake.requests(), vec![Request::Kill, Request::Detach]);
    assert!(!data.is_attached());
    data.release();
    data.cleanup();
    assert_eq!(fake.requests(), vec![Request::Kill, Request::Detach]);
    assert!(!data.is_attached());
}

#[test]
fn letting_go_passes_over_refusals() {
    let fake = Fake::new();
    let config = Config::new(5);
    let (_, mut data) = begun(&fake, &config);
    fake.0.borrow_mut().refuse = Some(Request::Detach);
    data.release();
    assert!(!data.is_attached());
    assert_eq!(TestState::Unrecoverable.step(&mut data, &config, 9), TestState::End(-1));
}

#[test]
fn a_word_written_to_the_tracee_is_read_back() {
    let mut fake = Fake::new();
    assert_eq!(fake.perform(TEST, Request::Poke(0x1000, 0xfeed_face)), Response::Done);
    assert_eq!(fake.perform(TEST, Request::Peek(0x1000)), Response::Word(0xfeed_face));
    assert_eq!(fake.perform(TEST, Request::Peek(0x2000)), Response::Word(0x48));
    assert_eq!(
        fake.perform(TEST, Request::Peek(0x3000)),
        Response::Failed(TraceError::BadAddress)
    );
}

#[test]
fn an_address_that_is_not_mapped_gets_no_breakpoint() {
    let fake = Fake::new();
    let config = Config::new(5);
    let mut traces = sink();
    traces.add_trace(Trace { line: 30, address: Some(0x3000), hits: 0 });
    let (state, mut data) = create_state_machine(TEST, traces, &config, fake.clone(), 0);
    fake.report(WaitStatus::Stopped(TEST, SIGTRAP));
    let state = state.step(&mut data, &config, 1);
    let state = state.step(&mut data, &config, 2);
    assert_eq!(state, TestState::Waiting { start_time: 2 });
    assert_eq!(data.breakpoints().len(), 2);
    assert!(!data.breakpoints().contains(0x3000));
    assert_eq!(data.last_error(), Some(TraceError::BadAddress));
}

#[test]
fn a_refused_write_leaves_the_breakpoint_out() {
    let fake = Fake::new();
    fake.0.borrow_mut().refuse = Some(Request::Poke(0x2000, 0xcc));
    let config = Config::new(5);
    let (_, data) = begun(&fake, &config);
    assert!(data.breakpoints().contains(0x1000));
    assert!(!data.breakpoints().contains(0x2000));
    assert_eq!(fake.word(0x2000), 0x48);
    assert_eq!(data.last_error(), Some(TraceError::NoSuchProcess));
}

#[test]
fn refused_trace_options_do_not_stop_the_run() {
    let fake = Fake::new();
    fake.0.borrow_mut().refuse = Some(Request::TraceOptions);
    let config = Config::new(5);
    let (state, data) = begun(&fake, &config);
    assert_eq!(state, TestState::Waiting { start_time: 2 });
    assert_eq!(data.breakpoints().len(), 2);
}

#[test]
fn an_address_met_twice_is_planted_once() {
    let fake = Fake::new();
    let config = Config::new(5);
    let mut traces = sink();
    traces.add_trace(Trace { line: 11, address: Some(0x1000), hits: 0 });
    let (state, mut data) = create_state_machine(TEST, traces, &config, fake.clone(), 0);
    fake.report(WaitStatus::Stopped(TEST, SIGTRAP));
    let state = state.step(&mut data, &config, 1);
    state.step(&mut data, &config, 2);
    let peeks = fake.requests().iter().filter(|r| **r == Request::Peek(0x1000)).count();
    assert_eq!(peeks, 1);
    assert_eq!(
        data.breakpoints().get(0x1000),
        Some(Breakpoint { address: 0x1000, original: 0x55, enabled: true })
    );
}

#[test]
fn a_foreign_trap_is_delivered_and_not_counted() {
    let fake = Fake::new();
    let config = Config::new(5);
    let (state, mut data) = begun(&fake, &config);
    fake.forget();
    fake.0.borrow_mut().ip = 0x5001;
    fake.report(WaitStatus::Stopped(TEST, SIGTRAP));
    let state = state.step(&mut data, &config, 3);
    let state = state.step(&mut data, &config, 4);
    assert_eq!(state, TestState::Waiting { start_time: 4 });
    assert_eq!(
        fake.requests(),
        vec![Request::Poll, Request::ReadIp, Request::Continue(Some(SIGTRAP))]
    );
    assert_eq!(data.traces().hits(0x1000), 0);
    assert_eq!(data.traces().hits(0x2000), 0);
}

#[test]
fn another_signal_is_delivered_as_the_test_is_resumed() {
    let fake = Fake::new();
    let config = Config::new(5);
    let (state, mut data) = begun(&fake, &config);
    fake.forget();
    fake.report(WaitStatus::Stopped(TEST, 10));
    let state = state.step(&mut data, &config, 3);
    assert_eq!(state, TestState::Stopped);
    let state = state.step(&mut data, &config, 4);
    assert_eq!(state, TestState::Waiting { start_time: 4 });
    assert_eq!(fake.requests(), vec![Request::Poll, Request::Continue(Some(10))]);
}

#[test]
fn a_fork_or_clone_event_resumes_the_test() {
    let fake = Fake::new();
    let config = Config::new(5);
    let (state, mut data) = begun(&fake, &config);
    fake.forget();
    fake.report(WaitStatus::PtraceEvent(TEST, SIGTRAP, 1));
    let state = state.step(&mut data, &config, 3);
    let state = state.step(&mut data, &config, 4);
    assert_eq!(state, TestState::Waiting { start_time: 4 });
    assert_eq!(fake.requests(), vec![Request::Poll, Request::Continue(None)]);
    assert_eq!(data.breakpoints().len(), 2);
}

#[test]
fn a_new_program_image_has_the_table_made_anew() {
    let fake = Fake::new();
    let config = Config::new(5);
    let (state, mut data) = begun(&fake, &config);
    fake.forget();
    {
        let mut inner = fake.0.borrow_mut();
        inner.memory.insert(0x1000, 0x0000_0000_0000_0090);
        inner.memory.remove(&0x2000);
    }
    fake.report(WaitStatus::PtraceEvent(TEST, SIGTRAP, 4));
    let state = state.step(&mut data, &config, 3);
    let state = state.step(&mut data, &config, 4);
    assert_eq!(state, TestState::Waiting { start_time: 4 });
    assert_eq!(
        fake.requests(),
        vec![
            Request::Poll,
            Request::Peek(0x1000),
            Request::Poke(0x1000, 0xcc),
            Request::Peek(0x2000),
            Request::Continue(None),
        ]
    );
    assert_eq!(
        data.breakpoints().get(0x1000),
        Some(Breakpoint { address: 0x1000, original: 0x90, enabled: true })
    );
    assert!(!data.breakpoints().contains(0x2000));
}

#[test]
fn a_refusal_during_a_hit_is_unrecoverable_and_leaves_the_trap_out() {
    let fake = Fake::new();
    let config = Config::new(5);
    let (state, mut data) = begun(&fake, &config);
    fake.0.borrow_mut().ip = 0x1001;
    fake.0.borrow_mut().refuse = Some(Request::SingleStep);
    fake.report(WaitStatus::Stopped(TEST, SIGTRAP));
    let state = state.step(&mut data, &config, 3);
    let state = state.step(&mut data, &config, 4);
    assert_eq!(state, TestState::Unrecoverable);
    assert_eq!(data.traces().hits(0x1000), 1);
    assert_eq!(
        data.breakpoints().get(0x1000),
        Some(Breakpoint { address: 0x1000, original: 0x55, enabled: false })
    );
    assert_eq!(fake.word(0x1000) & 0xff, 0x55);
    assert_eq!(state.step(&mut data, &config, 5), TestState::End(-1));
}

#[test]
fn an_unreadable_instruction_pointer_is_unrecoverable() {
    let fake = Fake::new();
    let config = Config::new(5);
    let (state, mut data) = begun(&fake, &config);
    fake.0.borrow_mut().refuse = Some(Request::ReadIp);
    fake.report(WaitStatus::Stopped(TEST, SIGTRAP));
    let state = state.step(&mut data, &config, 3);
    assert_eq!(state.step(&mut data, &config, 4), TestState::Unrecoverable);
    assert_eq!(data.last_error(), Some(TraceError::NoSuchProcess));
}

#[test]
fn a_refused_resume_is_unrecoverable() {
    let fake = Fake::new();
    let config = Config::new(5);
    let (state, mut data) = begun(&fake, &config);
    fake.0.borrow_mut().refuse = Some(Request::Continue(Some(10)));
    fake.report(WaitStatus::Stopped(TEST, 10));
    let state = state.step(&mut data, &config, 3);
    assert_eq!(state.step(&mut data, &config, 4), TestState::Unrecoverable);
}

#[test]
fn a_stop_without_news_of_a_stop_is_unrecoverable() {
    let fake = Fake::new();
    let config = Config::new(5);
    let (_, mut data) = create_state_machine(TEST, sink(), &config, fake.clone(), 0);
    assert_eq!(data.stop(1), TestState::Unrecoverable);
    assert!(fake.requests().is_empty());
}

#[test]
fn a_killed_test_is_unrecoverable() {
    let fake = Fake::new();
    let config = Config::new(5);
    let (state, mut data) = begun(&fake, &config);
    fake.report(WaitStatus::Signaled(TEST, 9, false));
    assert_eq!(state.step(&mut data, &config, 3), TestState::Unrecoverable);
}

#[test]
fn a_refused_poll_is_unrecoverable_and_noted() {
    let fake = Fake::new();
    fake.0.borrow_mut().refuse = Some(Request::Poll);
    let config = Config::new(5);
    let (state, mut data) = create_state_machine(TEST, sink(), &config, fake.clone(), 0);
    assert_eq!(data.error_message(), None);
    assert_eq!(state.step(&mut data, &config, 1), TestState::Unrecoverable);
    assert_eq!(data.last_error(), Some(TraceError::NoSuchProcess));
    assert_eq!(data.error_message(), Some("no such process".to_string()));
}

#[test]
fn the_tracer_turns_to_the_process_that_stopped() {
    let fake = Fake::new();
    let config = Config::new(5);
    let (state, mut data) = create_state_machine(TEST, sink(), &config, fake.clone(), 0);
    fake.report(WaitStatus::Stopped(TEST + 1, SIGTRAP));
    assert_eq!(state.step(&mut data, &config, 1), TestState::Initialise);
    assert_eq!(data.current(), TEST + 1);
    data.init(2);
    let pids: Vec<i32> = fake.0.borrow().log.iter().map(|(pid, _)| *pid).collect();
    assert_eq!(pids[0], TEST);
    assert!(pids[1..].iter().all(|pid| *pid == TEST + 1));
}

#[test]
fn the_outcome_of_a_look_follows_the_news() {
    assert_eq!(start_found(Response::Event(WaitStatus::StillAlive)), None);
    assert_eq!(
        start_found(Response::Event(WaitStatus::Stopped(1, 19))),
        Some(TestState::Initialise)
    );
    assert_eq!(
        start_found(Response::Event(WaitStatus::Exited(1, 0))),
        Some(TestState::Unrecoverable)
    );
    assert_eq!(
        start_found(Response::Failed(TraceError::PermissionDenied)),
        Some(TestState::Unrecoverable)
    );
    assert_eq!(start_found(Response::Done), Some(TestState::Unrecoverable));
    assert_eq!(wait_found(Response::Event(WaitStatus::StillAlive)), None);
    assert_eq!(wait_found(Response::Event(WaitStatus::Continued(1))), None);
    assert_eq!(wait_found(Response::Event(WaitStatus::Exited(1, 7))), Some(TestState::End(7)));
    assert_eq!(wait_found(Response::Event(WaitStatus::Stopped(1, 5))), Some(TestState::Stopped));
    assert_eq!(
        wait_found(Response::Event(WaitStatus::PtraceEvent(1, 5, 4))),
        Some(TestState::Stopped)
    );
    assert_eq!(
        wait_found(Response::Event(WaitStatus::PtraceSyscall(1))),
        Some(TestState::Stopped)
    );
    assert_eq!(
        wait_found(Response::Event(WaitStatus::Signaled(1, 11, true))),
        Some(TestState::Unrecoverable)
    );
    assert_eq!(wait_found(Response::Word(3)), Some(TestState::Unrecoverable));
}

#[test]
fn the_cause_of_a_stop_follows_the_news() {
    assert_eq!(stop_cause(WaitStatus::Stopped(1, SIGTRAP)), StopCause::Trap);
    assert_eq!(stop_cause(WaitStatus::Stopped(1, 11)), StopCause::Signal(11));
    assert_eq!(stop_cause(WaitStatus::PtraceEvent(1, 5, 4)), StopCause::Exec);
    assert_eq!(stop_cause(WaitStatus::PtraceEvent(1, 5, 3)), StopCause::Event);
    assert_eq!(stop_cause(WaitStatus::PtraceSyscall(1)), StopCause::Syscall);
    assert_eq!(stop_cause(WaitStatus::StillAlive), StopCause::Unknown);
    assert_eq!(stop_cause(WaitStatus::Exited(1, 0)), StopCause::Unknown);
    assert_eq!(stopped_pid(WaitStatus::Stopped(8, 5)), Some(8));
    assert_eq!(stopped_pid(WaitStatus::PtraceEvent(9, 5, 1)), Some(9));
    assert_eq!(stopped_pid(WaitStatus::PtraceSyscall(10)), Some(10));
    assert_eq!(stopped_pid(WaitStatus::Exited(8, 0)), None);
    assert_eq!(stopped_pid(WaitStatus::StillAlive), None);
}

#[test]
fn the_target_of_a_trap_is_found_one_byte_back() {
    let fake = Fake::new();
    let config = Config::new(5);
    let (_, data) = begun(&fake, &config);
    let table = data.breakpoints();
    assert_eq!(
        trap_target(table, Response::Word(0x1001)),
        TrapTarget::Hit(Breakpoint { address: 0x1000, original: 0x55, enabled: true })
    );
    assert_eq!(trap_target(table, Response::Word(0x1000)), TrapTarget::Foreign);
    assert_eq!(trap_target(table, Response::Word(0)), TrapTarget::Foreign);
    assert_eq!(
        trap_target(table, Response::Failed(TraceError::NoSuchProcess)),
        TrapTarget::Lost
    );
    assert_eq!(trap_target(table, Response::Done), TrapTarget::Lost);
    assert_eq!(resumed(Response::Done, 9), TestState::Waiting { start_time: 9 });
    assert_eq!(resumed(Response::Failed(TraceError::BadAddress), 9), TestState::Unrecoverable);
}

#[test]
fn a_hit_can_be_resolved_against_any_backend() {
    let mut fake = Fake::new();
    fake.perform(TEST, Request::Poke(0x1000, 0x1122_3344_5566_77cc));
    fake.0.borrow_mut().ip = 0x1001;
    fake.forget();
    let bp = Breakpoint { address: 0x1000, original: 0x55, enabled: true };
    let (end, refused, _) = resolve_hit(&mut fake, TEST, bp);
    assert_eq!(end, HitStep::Resumed(bp));
    assert_eq!(refused, None);
    assert_eq!(fake.requests().len(), 8);
    assert_eq!(fake.word(0x1000), 0x1122_3344_5566_77cc);
    assert_eq!(fake.0.borrow().executed.get(&0x1000), Some(&1));
    assert_eq!(fake.0.borrow().ip, 0x1001);
}

#[test]
fn a_refused_resolution_reports_its_error() {
    let mut fake = Fake::new();
    fake.0.borrow_mut().refuse = Some(Request::AwaitStop);
    let bp = Breakpoint { address: 0x2000, original: 0x48, enabled: true };
    let (end, refused, _) = resolve_hit(&mut fake, TEST, bp);
    assert_eq!(end, HitStep::Failed(Breakpoint { enabled: false, ..bp }));
    assert_eq!(refused, Some(TraceError::NoSuchProcess));
    assert_eq!(fake.requests().len(), 5);
}

#[test]
fn the_error_of_a_refusal_during_a_hit_is_noted() {
    let fake = Fake::new();
    let config = Config::new(5);
    let (state, mut data) = begun(&fake, &config);
    assert_eq!(data.last_error(), None);
    fake.0.borrow_mut().ip = 0x2001;
    fake.0.borrow_mut().refuse = Some(Request::SetIp(0x2000));
    fake.report(WaitStatus::Stopped(TEST, SIGTRAP));
    let state = state.step(&mut data, &config, 3);
    assert_eq!(state.step(&mut data, &config, 4), TestState::Unrecoverable);
    assert_eq!(data.last_error(), Some(TraceError::NoSuchProcess));
    assert_eq!(data.traces().hits(0x2000), 1);
    assert_eq!(
        data.breakpoints().get(0x2000),
        Some(Breakpoint { address: 0x2000, original: 0x48, enabled: true })
    );
    assert_eq!(data.parent(), TEST);
    assert_eq!(*data.config(), config);
}
