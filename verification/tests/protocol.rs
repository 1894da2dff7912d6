use tarpaulin::breakpoint::Breakpoint;
use tarpaulin::hit::{HitCycle, HitStage, HitStep};
use tarpaulin::protocol::{
    forwarded, Request, Response, TraceError, WaitStatus, EVENT_EXEC, SIGKILL, SIGTRAP,
};

#[test]
fn system_error_numbers_map_to_their_errors() {
    assert_eq!(TraceError::from_errno(3), TraceError::NoSuchProcess);
    assert_eq!(TraceError::from_errno(1), TraceError::PermissionDenied);
    assert_eq!(TraceError::from_errno(5), TraceError::BadAddress);
    assert_eq!(TraceError::from_errno(14), TraceError::BadAddress);
    assert_eq!(TraceError::from_errno(38), TraceError::Unsupported);
    assert_eq!(TraceError::from_errno(95), TraceError::Unsupported);
    assert_eq!(TraceError::from_errno(10), TraceError::Sys(10));
    assert_eq!(TraceError::from_errno(0), TraceError::Sys(0));
    assert_eq!(TraceError::from_errno(-1), TraceError::Sys(-1));
}

#[test]
fn an_error_gives_its_number_back() {
    for code in [1, 3, 5, 38, 10, 22, 0] {
        assert_eq!(TraceError::from_errno(code).errno(), code);
    }
    assert_eq!(TraceError::BadAddress.errno(), 5);
    assert_eq!(TraceError::Unsupported.errno(), 38);
    assert_eq!(TraceError::Sys(3).errno(), 3);
}

#[test]
fn the_signal_numbers_are_those_of_the_platform() {
    assert_eq!(SIGTRAP, nix::sys::signal::Signal::SIGTRAP as i32);
    assert_eq!(SIGKILL, nix::sys::signal::Signal::SIGKILL as i32);
    assert_eq!(EVENT_EXEC, nix::sys::ptrace::Event::PTRACE_EVENT_EXEC as i32);
}

#[test]
fn a_trap_is_swallowed_and_any_other_signal_passed_on() {
    assert_eq!(forwarded(SIGTRAP), None);
    assert_eq!(forwarded(11), Some(11));
    assert_eq!(forwarded(19), Some(19));
    assert_eq!(forwarded(0), Some(0));
}

fn sample() -> Breakpoint {
    Breakpoint { address: 0x1002, original: 0x66, enabled: true }
}

fn ask(step: HitStep) -> (HitCycle, Request) {
    match step {
        HitStep::Ask(cycle, request) => (cycle, request),
        other => panic!("the resolution ended early: {:?}", other),
    }
}

#[test]
fn a_hit_is_resolved_in_eight_requests_in_order() {
    let armed = 0x1122_3344_55cc_7788u64;
    let plain = 0x1122_3344_5566_7788u64;
    let (cycle, request) = ask(HitCycle::begin(sample()));
    assert_eq!(cycle.stage, HitStage::Rewinding);
    assert_eq!(request, Request::SetIp(0x1002));
    let (cycle, request) = ask(cycle.advance(Response::Done));
    assert_eq!(request, Request::Peek(0x1000));
    let (cycle, request) = ask(cycle.advance(Response::Word(armed)));
    assert_eq!(request, Request::Poke(0x1000, plain));
    assert!(cycle.breakpoint.enabled);
    let (cycle, request) = ask(cycle.advance(Response::Done));
    assert_eq!(request, Request::SingleStep);
    assert!(!cycle.breakpoint.enabled);
    let (cycle, request) = ask(cycle.advance(Response::Done));
    assert_eq!(request, Request::AwaitStop);
    let (cycle, request) =
        ask(cycle.advance(Response::Event(WaitStatus::Stopped(42, SIGTRAP))));
    assert_eq!(cycle.stage, HitStage::Rereading(SIGTRAP));
    assert_eq!(request, Request::Peek(0x1000));
    let (cycle, request) = ask(cycle.advance(Response::Word(plain)));
    assert_eq!(request, Request::Poke(0x1000, armed));
    assert!(!cycle.breakpoint.enabled);
    let (cycle, request) = ask(cycle.advance(Response::Done));
    assert_eq!(request, Request::Continue(None));
    assert!(cycle.breakpoint.enabled);
    assert_eq!(cycle.advance(Response::Done), HitStep::Resumed(sample()));
}

#[test]
fn the_restore_keeps_what_else_the_word_holds_now() {
    let (cycle, _) = ask(HitCycle::begin(sample()));
    let (cycle, _) = ask(cycle.advance(Response::Done));
    let (_, request) = ask(cycle.advance(Response::Word(0xcccc_cccc_cccc_ccccu64)));
    assert_eq!(request, Request::Poke(0x1000, 0xcccc_cccc_cc66_ccccu64));
}

#[test]
fn a_signal_met_during_the_step_is_delivered_on_resume() {
    let (cycle, _) = ask(HitCycle::begin(sample()));
    let (cycle, _) = ask(cycle.advance(Response::Done));
    let (cycle, _) = ask(cycle.advance(Response::Word(0)));
    let (cycle, _) = ask(cycle.advance(Response::Done));
    let (cycle, _) = ask(cycle.advance(Response::Done));
    let (cycle, _) = ask(cycle.advance(Response::Event(WaitStatus::Stopped(42, 11))));
    let (cycle, _) = ask(cycle.advance(Response::Word(0)));
    let (_, request) = ask(cycle.advance(Response::Done));
    assert_eq!(request, Request::Continue(Some(11)));
}

#[test]
fn a_refused_request_ends_the_resolution_where_it_stands() {
    let refused = Response::Failed(TraceError::NoSuchProcess);
    let (cycle, _) = ask(HitCycle::begin(sample()));
    assert_eq!(cycle.advance(refused), HitStep::Failed(sample()));
    let (cycle, _) = ask(cycle.advance(Response::Done));
    assert_eq!(cycle.advance(refused), HitStep::Failed(sample()));
    let (cycle, _) = ask(cycle.advance(Response::Word(0)));
    assert_eq!(cycle.advance(refused), HitStep::Failed(sample()));
    let (cycle, _) = ask(cycle.advance(Response::Done));
    let disabled = Breakpoint { enabled: false, ..sample() };
    assert_eq!(cycle.advance(refused), HitStep::Failed(disabled));
    let (cycle, _) = ask(cycle.advance(Response::Done));
    assert_eq!(cycle.advance(refused), HitStep::Failed(disabled));
}

#[test]
fn a_test_that_is_gone_after_the_step_ends_the_resolution() {
    let (cycle, _) = ask(HitCycle::begin(sample()));
    let (cycle, _) = ask(cycle.advance(Response::Done));
    let (cycle, _) = ask(cycle.advance(Response::Word(0)));
    let (cycle, _) = ask(cycle.advance(Response::Done));
    let (cycle, _) = ask(cycle.advance(Response::Done));
    let disabled = Breakpoint { enabled: false, ..sample() };
    assert_eq!(
        cycle.advance(Response::Event(WaitStatus::Exited(42, 0))),
        HitStep::Failed(disabled)
    );
    assert_eq!(
        cycle.advance(Response::Event(WaitStatus::StillAlive)),
        HitStep::Failed(disabled)
    );
}

#[test]
fn a_response_of_the_wrong_kind_ends_the_resolution() {
    let (cycle, _) = ask(HitCycle::begin(sample()));
    assert_eq!(cycle.advance(Response::Word(7)), HitStep::Failed(sample()));
    let (cycle, _) = ask(cycle.advance(Response::Done));
    assert_eq!(cycle.advance(Response::Done), HitStep::Failed(sample()));
}

#[test]
fn an_error_reads_as_words() {
    assert_eq!(TraceError::NoSuchProcess.description(), "no such process");
    assert_eq!(TraceError::PermissionDenied.description(), "operation not permitted");
    assert_eq!(TraceError::BadAddress.description(), "bad address");
    assert_eq!(TraceError::Unsupported.description(), "request not supported");
    assert_eq!(TraceError::Sys(22).description(), "system error");
}
