//! A coverage tracer: it drives one test binary as a debugger would, plants
//! trap instructions at the instrumentation points, and records which of
//! them fire.
//!
//! The decisions of the tracer are verified: the arithmetic that patches a
//! trap into a word of code, the table of breakpoints, the exchange of
//! requests and responses that resolves a hit, and the state machine that
//! sequences one run. The operating system is reached through the functions
//! of `ptrace_control`, whose results are taken as they come. What the
//! requests come to in the traced process is stated over the model of
//! `tracee`.

pub mod breakpoint;
pub mod config;
pub mod hit;
pub mod process_handling;
pub mod protocol;
pub mod ptrace_control;
pub mod reporting;
pub mod statemachine;
pub mod tracee;
pub mod traces;
