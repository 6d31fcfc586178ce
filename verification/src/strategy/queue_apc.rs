//! # Why QueueUserAPC is reliable here
//!
//! A user-mode APC normally runs only when the target thread enters an alertable wait.
//! A thread that never waits alertably never runs the APC. That is why naive APC
//! injection into a live, already-running thread is unreliable.
//!
//! A thread that has never run starts by calling the APCs that were queued before it
//! began, so no alertable wait is required. The caller's resume is the trigger. The
//! never-run handoff is a caller-attested precondition.
//!
//! The queued path stays allocated until process exit. The caller must retain the DLL and
//! readiness resources until loading completes. Do not retry or queue a fallback after success.

use crate::error::{combine, outcome, Error, ErrorView, Result};
use crate::injector::{InjectedModule, LoadTiming};
use crate::target::Target;
use vstd::prelude::*;

verus! {

/// The thread that an APC is queued on.
pub fn apc_thread(target: &Target) -> (result: Result<usize>)
    ensures
        outcome(result) == match target.main_thread {
            Some(thread) => Ok::<usize, ErrorView>(thread),
            None => Err(ErrorView::MissingThreadHandle),
        },
{
    match target.main_thread {
        Some(thread) => Ok(thread),
        None => Err(Error::MissingThreadHandle),
    }
}

/// Whether the argument of an APC has to be released: only one that was not
/// queued is unused.
pub fn releases_argument(queued: &Result<()>) -> (release: bool)
    ensures
        release == (*queued is Err),
{
    queued.is_err()
}

/// What queueing is answered, given what came of a release.
pub open spec fn queued_of(
    queued: std::result::Result<(), ErrorView>,
    release: std::result::Result<(), ErrorView>,
) -> std::result::Result<InjectedModule, ErrorView> {
    match queued {
        Ok(_) => Ok(InjectedModule { module: None, timing: LoadTiming::OnResume }),
        Err(error) => match release {
            Ok(_) => Err(error),
            Err(cleanup) => Err(error.with_cleanup(cleanup)),
        },
    }
}

/// Answer the injection. `release` is what came of releasing the argument,
/// where [`releases_argument`] asked for that.
pub fn finish_queueing(queued: Result<()>, release: Result<()>) -> (result: Result<InjectedModule>)
    ensures
        outcome(result) == queued_of(outcome(queued), outcome(release)),
{
    match queued {
        Ok(()) => Ok(InjectedModule::on_resume()),
        Err(error) => combine::<InjectedModule>(Err(error), release),
    }
}

} // verus!
