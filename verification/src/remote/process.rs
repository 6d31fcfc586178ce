//! The validation of a target before anything in it is read or written.

use crate::error::{outcome, Error, ErrorView, Result};
use crate::pe::layout::{machine_gate, machine_gate_of, MACHINE_AMD64};
use crate::target::Target;
use vstd::prelude::*;

verus! {

/// The value of `INVALID_HANDLE_VALUE`.
pub const INVALID_HANDLE: usize = usize::MAX;

/// The machine type that stands for a process without emulation.
pub const MACHINE_UNKNOWN: u16 = 0;

/// Whose machine types are asked for.
#[derive(Debug, Clone, Copy, PartialEq, Eq, Structural)]
pub enum Subject {
    Injector,
    Target,
}

/// What the validation asks for next.
#[derive(Debug, Clone, Copy, PartialEq, Eq, Structural)]
pub enum ValidationStep {
    /// The id behind the process handle, and that of this process.
    ProcessId,
    /// The process that owns this thread.
    ThreadOwner(usize),
    /// The emulated and native machine types of a process.
    Machine(Subject),
    /// The target is valid.
    Done,
}

/// The machine that a process runs as.
pub open spec fn effective_machine(machine: u16, native: u16) -> u16 {
    if machine == MACHINE_UNKNOWN {
        native
    } else {
        machine
    }
}

/// What the handles alone lead to.
pub open spec fn start_of(target: Target) -> std::result::Result<ValidationStep, ErrorView> {
    if target.process == 0 || target.process == INVALID_HANDLE || target.pid == 0 {
        Err(ErrorView::InvalidTarget("invalid process handle or pid"@))
    } else {
        Ok(ValidationStep::ProcessId)
    }
}

/// What the process ids lead to.
pub open spec fn process_id_of(target: Target, pid: u32, current: u32) -> std::result::Result<
    ValidationStep,
    ErrorView,
> {
    if pid != target.pid || pid == current {
        Err(ErrorView::InvalidTarget("process/pid mismatch or self-injection"@))
    } else {
        match target.main_thread {
            None => Ok(ValidationStep::Machine(Subject::Injector)),
            Some(thread) => if thread == 0 {
                Err(ErrorView::InvalidTarget("null thread handle"@))
            } else {
                Ok(ValidationStep::ThreadOwner(thread))
            },
        }
    }
}

/// What the owner of the thread leads to.
pub open spec fn thread_owner_of(target: Target, owner: u32) -> std::result::Result<
    ValidationStep,
    ErrorView,
> {
    if owner != target.pid {
        Err(ErrorView::InvalidTarget("thread belongs to a different process"@))
    } else {
        Ok(ValidationStep::Machine(Subject::Injector))
    }
}

/// What the machine types of a process lead to.
pub open spec fn machine_of(subject: Subject, machine: u16, native: u16) -> std::result::Result<
    ValidationStep,
    ErrorView,
> {
    match machine_gate_of(effective_machine(machine, native)) {
        Err(fault) => Err(fault),
        Ok(_) => match subject {
            Subject::Injector => Ok(ValidationStep::Machine(Subject::Target)),
            Subject::Target => Ok(ValidationStep::Done),
        },
    }
}

/// Check the handles alone, before any of them is used.
pub fn start_validation(target: &Target) -> (result: Result<ValidationStep>)
    ensures
        outcome(result) == start_of(*target),
{
    if target.process == 0 || target.process == INVALID_HANDLE || target.pid == 0 {
        return Err(Error::InvalidTarget("invalid process handle or pid"));
    }
    Ok(ValidationStep::ProcessId)
}

/// Check the id behind the process handle against the stated and the current one.
pub fn check_process_id(target: &Target, pid: u32, current: u32) -> (result: Result<
    ValidationStep,
>)
    ensures
        outcome(result) == process_id_of(*target, pid, current),
{
    if pid != target.pid || pid == current {
        return Err(Error::InvalidTarget("process/pid mismatch or self-injection"));
    }
    match target.main_thread {
        None => Ok(ValidationStep::Machine(Subject::Injector)),
        Some(thread) => if thread == 0 {
            Err(Error::InvalidTarget("null thread handle"))
        } else {
            Ok(ValidationStep::ThreadOwner(thread))
        },
    }
}

/// Check the owner of the supplied thread.
pub fn check_thread_owner(target: &Target, owner: u32) -> (result: Result<ValidationStep>)
    ensures
        outcome(result) == thread_owner_of(*target, owner),
{
    if owner != target.pid {
        return Err(Error::InvalidTarget("thread belongs to a different process"));
    }
    Ok(ValidationStep::Machine(Subject::Injector))
}

/// Check the machine types of this process, and then of the target.
pub fn check_machine(subject: Subject, machine: u16, native: u16) -> (result: Result<
    ValidationStep,
>)
    ensures
        outcome(result) == machine_of(subject, machine, native),
{
    let effective: u16 = if machine == MACHINE_UNKNOWN {
        native
    } else {
        machine
    };
    match machine_gate(effective) {
        Err(error) => Err(error),
        Ok(_) => match subject {
            Subject::Injector => Ok(ValidationStep::Machine(Subject::Target)),
            Subject::Target => Ok(ValidationStep::Done),
        },
    }
}

/// Refuse to inject from a build for another architecture.
pub fn check_architecture(amd64: bool) -> (result: Result<()>)
    ensures
        outcome(result) == if amd64 {
            Ok::<(), ErrorView>(())
        } else {
            Err(ErrorView::UnsupportedMachine(0))
        },
{
    if !amd64 {
        return Err(Error::UnsupportedMachine(0));
    }
    Ok(())
}

/// Everything that a validation sees of the two processes.
#[derive(Debug, Clone, Copy, PartialEq, Eq, Structural)]
pub struct TargetFacts {
    pub pid: u32,
    pub current: u32,
    pub owner: u32,
    pub injector_machine: u16,
    pub injector_native: u16,
    pub target_machine: u16,
    pub target_native: u16,
}

/// What one step leads to, answered from the facts.
pub open spec fn answered(
    target: Target,
    facts: TargetFacts,
    step: std::result::Result<ValidationStep, ErrorView>,
) -> std::result::Result<ValidationStep, ErrorView> {
    match step {
        Err(fault) => Err(fault),
        Ok(ValidationStep::ProcessId) => process_id_of(target, facts.pid, facts.current),
        Ok(ValidationStep::ThreadOwner(_)) => thread_owner_of(target, facts.owner),
        Ok(ValidationStep::Machine(Subject::Injector)) => machine_of(
            Subject::Injector,
            facts.injector_machine,
            facts.injector_native,
        ),
        Ok(ValidationStep::Machine(Subject::Target)) => machine_of(
            Subject::Target,
            facts.target_machine,
            facts.target_native,
        ),
        Ok(ValidationStep::Done) => Ok(ValidationStep::Done),
    }
}

/// Where a whole validation ends, answered from the facts.
pub open spec fn validation_of(target: Target, facts: TargetFacts) -> std::result::Result<
    ValidationStep,
    ErrorView,
> {
    answered(
        target,
        facts,
        answered(target, facts, answered(target, facts, answered(target, facts, start_of(target)))),
    )
}

/// A validation ends in acceptance exactly when the handles are usable, the id
/// is the stated one and not this process, a supplied thread belongs to it,
/// and both processes run as AMD64.
pub proof fn validation_accepts_exactly(target: Target, facts: TargetFacts)
    ensures
        validation_of(target, facts) == Ok::<ValidationStep, ErrorView>(ValidationStep::Done) <==> {
            &&& target.process != 0
            &&& target.process != INVALID_HANDLE
            &&& target.pid != 0
            &&& facts.pid == target.pid
            &&& facts.pid != facts.current
            &&& target.main_thread matches Some(thread) ==> thread != 0 && facts.owner
                == target.pid
            &&& effective_machine(facts.injector_machine, facts.injector_native) == MACHINE_AMD64
            &&& effective_machine(facts.target_machine, facts.target_native) == MACHINE_AMD64
        },
        validation_of(target, facts) is Err || validation_of(target, facts) == Ok::<
            ValidationStep,
            ErrorView,
        >(ValidationStep::Done),
{
}

} // verus!
