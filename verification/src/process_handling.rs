//! What the child does before the test's program image is loaded.
//!
//! The steps are taken in a fixed order: the privileges are set, the child
//! asks to be traced, and the randomisation of its address space is
//! switched off. Only the request to be traced is needed; the other two
//! are tried, and the launch goes on without them, with the refusal kept
//! for the caller to tell.

use crate::protocol::TraceError;
use crate::ptrace_control::{lift, request_trace};
use crate::statemachine::TestState;
use nix::sys::personality::Persona;
use nix::unistd::Gid;
use vstd::prelude::*;

verus! {

/// The flag of a process's execution domain that switches the
/// randomisation of its address space off.
pub const ADDR_NO_RANDOMIZE: i32 = 0x0040000;

/// The execution domain `persona` with the randomisation of the address
/// space switched off, and nothing else changed.
pub open spec fn without_randomization(persona: i32) -> i32 {
    persona | ADDR_NO_RANDOMIZE
}

/// The execution domain `persona` with the randomisation of the address
/// space switched off.
pub fn no_randomize(persona: i32) -> (changed: i32)
    ensures
        changed == without_randomization(persona),
        changed & ADDR_NO_RANDOMIZE == ADDR_NO_RANDOMIZE,
        changed & !ADDR_NO_RANDOMIZE == persona & !ADDR_NO_RANDOMIZE,
{
    assert((persona | 0x0040000i32) & 0x0040000i32 == 0x0040000i32) by (bit_vector);
    assert((persona | 0x0040000i32) & !0x0040000i32 == persona & !0x0040000i32) by (bit_vector);
    persona | ADDR_NO_RANDOMIZE
}

/// `nix::sys::personality::get`: the bits of the calling process's
/// execution domain that the platform names.
/// An error comes back as its number, the discriminant of
/// `nix::errno::Errno`.
#[verifier::external_body]
fn raw_persona() -> Result<i32, i32> {
    nix::sys::personality::get().map(|persona| persona.bits()).map_err(|error| error as i32)
}

/// `nix::sys::personality::set`: makes the execution domain of the calling
/// process the one with the bits of `persona`, and returns the bits that
/// the platform names of the one that it had.
/// An error comes back as its number, the discriminant of
/// `nix::errno::Errno`.
#[verifier::external_body]
fn raw_set_persona(persona: i32) -> Result<i32, i32> {
    nix::sys::personality::set(Persona::from_bits_retain(persona))
        .map(|before| before.bits())
        .map_err(|error| error as i32)
}

/// `nix::unistd::Gid::current`: the real group id of the calling process.
#[verifier::external_body]
fn raw_group() -> u32 {
    Gid::current().as_raw()
}

/// `nix::unistd::setegid`: makes `group` the effective group id of the
/// calling process.
/// An error comes back as its number, the discriminant of
/// `nix::errno::Errno`.
#[verifier::external_body]
fn raw_set_effective_group(group: u32) -> Result<(), i32> {
    nix::unistd::setegid(Gid::from_raw(group)).map_err(|error| error as i32)
}

/// What is to be set, by the answer to the reading of the flags: the
/// flags that were read with the one added; or, where the reading was
/// refused, nothing, and the refusal is what is returned.
pub open spec fn persona_to_set(read: Result<i32, TraceError>) -> Result<i32, TraceError> {
    match read {
        Ok(persona) => Ok(without_randomization(persona)),
        Err(error) => Err(error),
    }
}

/// What is to be set, by the answer to the reading of the flags.
pub fn planned_persona(read: Result<i32, TraceError>) -> (plan: Result<i32, TraceError>)
    ensures
        plan == persona_to_set(read),
{
    match read {
        Ok(persona) => Ok(no_randomize(persona)),
        Err(error) => Err(error),
    }
}

/// Switches the randomisation of the address space off for the calling
/// process and the program images that it loads: reads the flags of its
/// execution domain, and sets them again with the one flag added. Returns
/// the flags that the process had. A refused reading is returned as it
/// is, and nothing is set.
///
/// The reading gives the flags that have a name and no other bit of the
/// execution domain, so the setting clears every other bit, the kind of
/// the domain in its low byte among them.
pub fn disable_aslr() -> (before: Result<i32, TraceError>)
    ensures
        before matches Err(e) ==> e.canonical(),
{
    match planned_persona(lift(raw_persona())) {
        Ok(persona) => lift(raw_set_persona(persona)),
        Err(error) => Err(error),
    }
}

/// Makes the real group of the calling process its effective group, as
/// far as the system lets it.
pub fn set_privileges() -> (done: Result<(), TraceError>)
    ensures
        done matches Err(e) ==> e.canonical(),
{
    lift(raw_set_effective_group(raw_group()))
}

/// What came of one step of the preparation.
#[derive(Clone, Copy, Debug, PartialEq, Eq, Structural)]
pub enum Attempt {
    /// The step was not taken.
    Skipped,
    /// The step was taken and carried out.
    Done,
    /// The step was taken and refused, with the error.
    Refused(TraceError),
}

/// What the steps before the load of the program image came to.
#[derive(Clone, Copy, Debug, PartialEq, Eq, Structural)]
pub struct Preparation {
    /// What came of the setting of the privileges.
    pub privileges: Attempt,
    /// What came of the request to be traced.
    pub traced: Attempt,
    /// What came of the fixing of the layout.
    pub layout: Attempt,
}

/// What came of a step that was taken, by its answer.
pub open spec fn attempt_of<T>(answer: Result<T, TraceError>) -> Attempt {
    match answer {
        Ok(_) => Attempt::Done,
        Err(error) => Attempt::Refused(error),
    }
}

/// What came of a step that was taken, by its answer.
pub fn attempted<T>(answer: &Result<T, TraceError>) -> (attempt: Attempt)
    ensures
        attempt == attempt_of(*answer),
{
    match answer {
        Ok(_) => Attempt::Done,
        Err(error) => Attempt::Refused(*error),
    }
}

impl Preparation {
    /// Whether the program image may be loaded: the child is traced.
    pub open spec fn ready(self) -> bool {
        self.traced is Done
    }

    /// Whether the layout was left alone unless the child is traced.
    pub open spec fn layout_only_if_traced(self) -> bool {
        self.layout is Skipped || self.traced is Done
    }

    /// Whether the program image may be loaded.
    pub fn is_ready(&self) -> (ready: bool)
        ensures
            ready == self.ready(),
    {
        match self.traced {
            Attempt::Done => true,
            _ => false,
        }
    }
}

/// What the steps before the load come to, by what each of them returned.
/// A refusal to set the privileges or to fix the layout is kept and passed
/// over; a refusal to be traced ends the launch, and the layout counts as
/// left alone, whatever is given for it.
pub open spec fn preparation_of(
    privileges: Result<(), TraceError>,
    traced: Result<(), TraceError>,
    layout: Option<Result<i32, TraceError>>,
) -> Preparation {
    Preparation {
        privileges: attempt_of(privileges),
        traced: attempt_of(traced),
        layout: match (traced, layout) {
            (Ok(_), Some(fixed)) => attempt_of(fixed),
            _ => Attempt::Skipped,
        },
    }
}

/// What the steps before the load come to, by what each of them returned.
pub fn prepared(
    privileges: Result<(), TraceError>,
    traced: Result<(), TraceError>,
    layout: Option<Result<i32, TraceError>>,
) -> (outcome: Preparation)
    ensures
        outcome == preparation_of(privileges, traced, layout),
        outcome.layout_only_if_traced(),
        outcome.ready() == traced is Ok,
{
    let fixed = match (&traced, &layout) {
        (Ok(_), Some(fixed)) => attempted(fixed),
        _ => Attempt::Skipped,
    };
    Preparation { privileges: attempted(&privileges), traced: attempted(&traced), layout: fixed }
}

/// Takes the steps that come before the load of the test's program image
/// in the calling process: sets the privileges, asks to be traced, and,
/// if that was granted, fixes the layout. The program image may be loaded
/// if the outcome is ready.
pub fn prepare_child() -> (outcome: Preparation)
    ensures
        !(outcome.privileges is Skipped),
        !(outcome.traced is Skipped),
        outcome.traced is Done <==> !(outcome.layout is Skipped),
{
    let privileges = set_privileges();
    let traced = request_trace();
    match traced {
        Ok(_) => {
            let layout = disable_aslr();
            prepared(privileges, traced, Some(layout))
        },
        Err(_) => prepared(privileges, traced, None),
    }
}

/// The state in which a run ends whose test could not be launched: the
/// run is over at once, and the program image is not tried again.
pub fn launch_failed() -> (state: TestState)
    ensures
        state == TestState::End(-1i32),
        state.is_terminal(),
{
    TestState::End(-1)
}

} // verus!
