//! Borrowed target views and the selection of a primary thread.

use crate::error::{outcome, Error, ErrorView, Result};
use vstd::prelude::*;

verus! {

/// The caller's current loader-state assertion. A pid cannot establish this state.
#[derive(Debug, Clone, Copy, PartialEq, Eq, Structural)]
pub enum LoaderState {
    /// The loader and primary thread have never run. No other injection has advanced them.
    NotStarted,
    /// The primary thread is stopped at a verified early APC delivery point.
    ///
    /// The loader may already have run. The caller must establish that a queued
    /// APC will execute before application logic when this thread continues.
    /// Only APC injection accepts this assertion; an arbitrary debugger entry
    /// stop or suspend count does not establish it.
    EarlyApc,
    /// The loader has completed. The primary thread has already run.
    LoaderComplete,
    /// No loader-state assertion. Only the remote-thread strategy accepts this state.
    Unknown,
}

/// Raw borrowed handles, as their values. This type does not enforce a lifetime.
///
/// Keep the owner alive through injection. All strategies need process query, VM read,
/// VM write, and VM operation rights. Remote-thread injection also needs create-thread
/// rights. A supplied thread needs query rights; APC also needs set-context rights.
#[derive(Debug, Clone, Copy, PartialEq, Eq, Structural)]
pub struct Target {
    /// Borrowed process handle with the required access rights.
    pub process: usize,
    /// Borrowed primary-thread handle; required for APC injection.
    pub main_thread: Option<usize>,
    /// Process identifier, checked against `process` during injection.
    pub pid: u32,
    /// Caller assertion about loader progress, never inferred from a pid.
    pub loader_state: LoaderState,
}

impl Target {
    /// Change the caller's loader-state assertion without changing the handles.
    ///
    /// This does not verify the assertion. The safety contract of injection
    /// still applies, and a never-run assertion must not be reused after an attempt.
    #[must_use]
    pub fn with_loader_state(self, loader_state: LoaderState) -> (target: Self)
        ensures
            target == (Target { loader_state, ..self }),
    {
        Target { loader_state, ..self }
    }

    /// Borrow handles with a caller-attested never-run loader and primary thread.
    pub fn not_started(process: usize, main_thread: Option<usize>, pid: u32) -> (target: Self)
        ensures
            target == (Target { process, main_thread, pid, loader_state: LoaderState::NotStarted }),
    {
        Self::new(process, main_thread, pid, LoaderState::NotStarted)
    }

    /// Borrow a primary thread at a caller-verified early APC delivery point.
    pub fn early_apc(process: usize, main_thread: usize, pid: u32) -> (target: Self)
        ensures
            target == (Target {
                process,
                main_thread: Some(main_thread),
                pid,
                loader_state: LoaderState::EarlyApc,
            }),
    {
        Self::new(process, Some(main_thread), pid, LoaderState::EarlyApc)
    }

    /// Borrow handles with a caller-attested completed loader state.
    pub fn loader_complete(process: usize, main_thread: Option<usize>, pid: u32) -> (target: Self)
        ensures
            target == (Target {
                process,
                main_thread,
                pid,
                loader_state: LoaderState::LoaderComplete,
            }),
    {
        Self::new(process, main_thread, pid, LoaderState::LoaderComplete)
    }

    /// Create a raw view with an explicit loader-state assertion.
    ///
    /// This constructor neither validates nor takes ownership of the handles.
    pub fn new(
        process: usize,
        main_thread: Option<usize>,
        pid: u32,
        loader_state: LoaderState,
    ) -> (target: Self)
        ensures
            target == (Target { process, main_thread, pid, loader_state }),
    {
        Target { process, main_thread, pid, loader_state }
    }
}

impl From<&Target> for Target {
    fn from(target: &Target) -> (copy: Self) {
        *target
    }
}

impl vstd::std_specs::convert::FromSpecImpl<&Target> for Target {
    open spec fn obeys_from_spec() -> bool {
        true
    }

    open spec fn from_spec(target: &Target) -> Self {
        *target
    }
}

/// Time `i` is before every other one.
pub open spec fn is_unique_earliest(times: Seq<u64>, i: int) -> bool {
    0 <= i < times.len() && forall|k: int|
        0 <= k < times.len() && k != i ==> times[i] < #[trigger] times[k]
}

/// No time is before every other one.
pub open spec fn none_is_earliest(times: Seq<u64>) -> bool {
    forall|i: int| !#[trigger] is_unique_earliest(times, i)
}

/// The index of the one smallest creation time.
pub fn earliest(times: &[u64]) -> (result: Result<usize>)
    ensures
        match result {
            Ok(index) => is_unique_earliest(times@, index as int),
            Err(error) => error@ == ErrorView::AmbiguousPrimaryThread && none_is_earliest(times@),
        },
{
    if times.len() == 0 {
        return Err(Error::AmbiguousPrimaryThread);
    }
    let mut index: usize = 0;
    let mut tied = false;
    let mut i: usize = 1;
    while i < times.len()
        invariant
            1 <= i <= times@.len(),
            index < i,
            forall|k: int| 0 <= k < i ==> times@[index as int] <= #[trigger] times@[k],
            !tied ==> forall|k: int|
                0 <= k < i && k != index ==> times@[index as int] < #[trigger] times@[k],
            tied ==> exists|k: int|
                0 <= k < i && k != index && times@[index as int] == #[trigger] times@[k],
        decreases times@.len() - i,
    {
        if times[i] < times[index] {
            index = i;
            tied = false;
        } else if times[i] == times[index] {
            tied = true;
            assert(times@[index as int] == times@[i as int]);
        }
        i += 1;
    }
    if tied {
        proof {
            let k = choose|k: int|
                0 <= k < i && k != index && times@[index as int] == #[trigger] times@[k];
            assert forall|j: int| !is_unique_earliest(times@, j) by {
                if is_unique_earliest(times@, j) {
                    if j != index {
                        assert(times@[j] < times@[index as int]);
                    } else {
                        assert(times@[j] < times@[k]);
                    }
                }
            }
        }
        return Err(Error::AmbiguousPrimaryThread);
    }
    Ok(index)
}

/// The two halves of a Windows file time as one number.
pub fn file_time(high: u32, low: u32) -> (time: u64)
    ensures
        time == high * 0x1_0000_0000 + low,
{
    high as u64 * 0x1_0000_0000 + low as u64
}

/// The OS error for an identifier that is no longer in use.
pub const ERROR_INVALID_PARAMETER: i32 = 87;

/// The OS error that ends a snapshot walk.
pub const ERROR_NO_MORE_FILES: i32 = 18;

/// How often the selection of a primary thread is tried.
pub const SELECTION_ATTEMPTS: usize = 3;

/// Whether a selection that failed with this OS error is tried again. A thread
/// may exit between the snapshot and its opening.
pub fn retries_selection(attempt: usize, code: Option<i32>) -> (again: bool)
    ensures
        again == (attempt + 1 < SELECTION_ATTEMPTS && code == Some(ERROR_INVALID_PARAMETER)),
{
    match code {
        Some(code) => attempt < SELECTION_ATTEMPTS - 1 && code == ERROR_INVALID_PARAMETER,
        None => false,
    }
}

/// Whether a snapshot walk that stopped with this OS error is complete.
pub fn walk_is_complete(code: Option<i32>) -> (complete: bool)
    ensures
        complete == (code == Some(ERROR_NO_MORE_FILES)),
{
    match code {
        Some(code) => code == ERROR_NO_MORE_FILES,
        None => false,
    }
}

/// A live thread of the process, with its creation time.
#[derive(Debug, Clone, Copy, PartialEq, Eq, Structural)]
pub struct ThreadCandidate {
    pub thread: u32,
    pub created: u64,
}

/// What was seen of a thread after it was opened.
#[derive(Debug, Clone, Copy, PartialEq, Eq, Structural)]
pub struct ThreadFacts {
    /// The process that owns the opened thread.
    pub owner: u32,
    pub created: u64,
    /// Zero while the thread runs.
    pub exited: u64,
}

/// The answer of a wait without a timeout on a retained thread.
#[derive(Debug, Clone, Copy, PartialEq, Eq, Structural)]
pub enum Liveness {
    Running,
    Other,
}

/// The selection of the primary thread of a process from a thread snapshot.
#[derive(Debug)]
pub struct PrimaryScan {
    pid: u32,
    candidates: Vec<ThreadCandidate>,
}

/// The creation times of candidates.
pub open spec fn created_times(candidates: Seq<ThreadCandidate>) -> Seq<u64> {
    candidates.map_values(|c: ThreadCandidate| c.created)
}

/// What an opened thread makes of the candidates for a process.
pub open spec fn observed_of(
    pid: u32,
    candidates: Seq<ThreadCandidate>,
    thread: u32,
    facts: ThreadFacts,
) -> (Seq<ThreadCandidate>, std::result::Result<(), ErrorView>) {
    if facts.owner != pid || facts.exited != 0 {
        (candidates, Err(ErrorView::AmbiguousPrimaryThread))
    } else {
        (candidates.push(ThreadCandidate { thread, created: facts.created }), Ok(()))
    }
}

impl PrimaryScan {
    pub closed spec fn pid(self) -> u32 {
        self.pid
    }

    pub closed spec fn candidates(self) -> Seq<ThreadCandidate> {
        self.candidates@
    }

    /// Begin with no candidate.
    pub fn new(pid: u32) -> (scan: Self)
        ensures
            scan.pid() == pid,
            scan.candidates() == Seq::<ThreadCandidate>::empty(),
    {
        PrimaryScan { pid, candidates: Vec::new() }
    }

    /// Whether a snapshot entry of this owner has to be opened.
    pub fn wants(&self, owner: u32) -> (yes: bool)
        ensures
            yes == (owner == self.pid()),
    {
        owner == self.pid
    }

    /// Retain an opened thread. One that belongs to another process, or has
    /// exited, makes the selection ambiguous.
    pub fn observe(&mut self, thread: u32, facts: ThreadFacts) -> (result: Result<()>)
        ensures
            final(self).pid() == old(self).pid(),
            (final(self).candidates(), outcome(result)) == observed_of(
                old(self).pid(),
                old(self).candidates(),
                thread,
                facts,
            ),
    {
        if facts.owner != self.pid || facts.exited != 0 {
            return Err(Error::AmbiguousPrimaryThread);
        }
        self.candidates.push(ThreadCandidate { thread, created: facts.created });
        Ok(())
    }

    /// The index and id of the candidate that was created first, once the
    /// snapshot is complete.
    pub fn select(&self) -> (result: Result<(usize, u32)>)
        ensures
            match result {
                Ok((index, thread)) => is_unique_earliest(
                    created_times(self.candidates()),
                    index as int,
                ) && thread == self.candidates()[index as int].thread,
                Err(error) => error@ == ErrorView::AmbiguousPrimaryThread && none_is_earliest(
                    created_times(self.candidates()),
                ),
            },
    {
        let mut times: Vec<u64> = Vec::new();
        let mut i: usize = 0;
        while i < self.candidates.len()
            invariant
                i <= self.candidates@.len(),
                times@.len() == i,
                forall|k: int| 0 <= k < i ==> #[trigger] times@[k] == self.candidates@[k].created,
            decreases self.candidates@.len() - i,
        {
            times.push(self.candidates[i].created);
            i += 1;
        }
        assert(times@ =~= created_times(self.candidates()));
        match earliest(&times) {
            Err(error) => Err(error),
            Ok(index) => Ok((index, self.candidates[index].thread)),
        }
    }
}

/// Revalidate a retained candidate. Never select an accessible survivor silently.
pub fn revalidate(liveness: Liveness) -> (result: Result<()>)
    ensures
        outcome(result) == match liveness {
            Liveness::Running => Ok::<(), ErrorView>(()),
            Liveness::Other => Err(ErrorView::AmbiguousPrimaryThread),
        },
{
    match liveness {
        Liveness::Running => Ok(()),
        Liveness::Other => Err(Error::AmbiguousPrimaryThread),
    }
}

/// At most one time is before every other one, so a selection is unambiguous.
pub proof fn earliest_is_unique(times: Seq<u64>, i: int, j: int)
    requires
        is_unique_earliest(times, i),
        is_unique_earliest(times, j),
    ensures
        i == j,
{
    if i != j {
        assert(times[i] < times[j]);
        assert(times[j] < times[i]);
    }
}

} // verus!
