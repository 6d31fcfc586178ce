//! A child process: how it is torn down, what it has loaded, and how an
//! optional tool is found.

use crate::harness::runtimes::{is_white, white};
use crate::remote::modules::same_units;
use vstd::prelude::*;

verus! {

/// How long a terminated child is waited for, in milliseconds.
pub const REAP_TIMEOUT: u32 = 5000;

pub const SIGNALED: u32 = 0;

pub const WAIT_FAILED: u32 = 0xffff_ffff;

/// How far a teardown has come.
#[derive(Debug)]
pub enum TeardownPhase {
    /// The child is asked whether it has ended.
    Probe,
    /// The child is terminated.
    Terminate,
    /// A child that could not be terminated is asked again.
    Confirm(std::io::Error),
    /// The child is waited for.
    Reap,
    /// The process handle is closed.
    CloseProcess,
    /// The thread handle is closed.
    CloseThread,
    /// Nothing is left to do.
    Finished,
}

/// What went wrong in a teardown.
#[derive(Debug)]
pub enum TeardownFailure {
    Terminate(std::io::Error),
    Reap(std::io::Error),
    UnexpectedWait(u32),
    Close(std::io::Error),
}

/// What came of an action.
#[derive(Debug)]
pub enum TeardownEvent {
    /// The result of a wait, and the last error where it failed.
    Waited(u32, Option<std::io::Error>),
    Terminated(std::result::Result<(), std::io::Error>),
    Closed(std::result::Result<(), std::io::Error>),
}

/// The teardown of a child: terminate it if it still runs, reap it, and close
/// its handles, whatever fails on the way.
#[derive(Debug)]
pub struct Teardown {
    pub phase: TeardownPhase,
    pub failures: Vec<TeardownFailure>,
}

/// The mathematical content of a [`Teardown`].
#[verifier::ext_equal]
pub struct TeardownView {
    pub phase: TeardownPhase,
    pub failures: Seq<TeardownFailure>,
}

impl View for Teardown {
    type V = TeardownView;

    open spec fn view(&self) -> TeardownView {
        TeardownView { phase: self.phase, failures: self.failures@ }
    }
}

impl TeardownView {
    /// The next phase, with a failure where there is one.
    pub open spec fn to(self, phase: TeardownPhase, failure: Option<TeardownFailure>) -> TeardownView {
        TeardownView {
            phase,
            failures: match failure {
                None => self.failures,
                Some(failure) => self.failures.push(failure),
            },
        }
    }

    /// The state after an event.
    pub open spec fn after(self, event: TeardownEvent) -> TeardownView {
        match (self.phase, event) {
            (TeardownPhase::Probe, TeardownEvent::Waited(result, _)) => if result == SIGNALED {
                self.to(TeardownPhase::CloseProcess, None)
            } else {
                self.to(TeardownPhase::Terminate, None)
            },
            (TeardownPhase::Terminate, TeardownEvent::Terminated(Ok(_))) => self.to(
                TeardownPhase::Reap,
                None,
            ),
            (TeardownPhase::Terminate, TeardownEvent::Terminated(Err(error))) => self.to(
                TeardownPhase::Confirm(error),
                None,
            ),
            (TeardownPhase::Confirm(error), TeardownEvent::Waited(result, _)) => self.to(
                TeardownPhase::Reap,
                if result == SIGNALED {
                    None
                } else {
                    Some(TeardownFailure::Terminate(error))
                },
            ),
            (TeardownPhase::Reap, TeardownEvent::Waited(result, last)) => self.to(
                TeardownPhase::CloseProcess,
                reap_failure(result, last),
            ),
            (TeardownPhase::CloseProcess, TeardownEvent::Closed(closed)) => self.to(
                TeardownPhase::CloseThread,
                close_failure(closed),
            ),
            (TeardownPhase::CloseThread, TeardownEvent::Closed(closed)) => self.to(
                TeardownPhase::Finished,
                close_failure(closed),
            ),
            _ => self,
        }
    }
}

/// What is wrong with the result of the last wait for a child.
pub open spec fn reap_failure(result: u32, last: Option<std::io::Error>) -> Option<
    TeardownFailure,
> {
    if result == SIGNALED {
        None
    } else {
        match (result == WAIT_FAILED, last) {
            (true, Some(error)) => Some(TeardownFailure::Reap(error)),
            _ => Some(TeardownFailure::UnexpectedWait(result)),
        }
    }
}

/// What is wrong with closing a handle.
pub open spec fn close_failure(closed: std::result::Result<(), std::io::Error>) -> Option<
    TeardownFailure,
> {
    match closed {
        Ok(_) => None,
        Err(error) => Some(TeardownFailure::Close(error)),
    }
}

impl Teardown {
    /// Begin with a child in any state.
    pub fn start() -> (teardown: Self)
        ensures
            teardown@.phase is Probe,
            teardown@.failures == Seq::<TeardownFailure>::empty(),
    {
        Teardown { phase: TeardownPhase::Probe, failures: Vec::new() }
    }

    fn waited(&mut self, phase: TeardownPhase, result: u32, last: Option<std::io::Error>)
        ensures
            final(self)@ == (TeardownView { phase, ..old(self)@ }).after(
                TeardownEvent::Waited(result, last),
            ),
    {
        match phase {
            TeardownPhase::Probe => {
                self.phase = if result == SIGNALED {
                    TeardownPhase::CloseProcess
                } else {
                    TeardownPhase::Terminate
                };
            },
            TeardownPhase::Confirm(error) => {
                if result != SIGNALED {
                    self.failures.push(TeardownFailure::Terminate(error));
                }
                self.phase = TeardownPhase::Reap;
            },
            TeardownPhase::Reap => {
                if result != SIGNALED {
                    self.failures.push(
                        match (result == WAIT_FAILED, last) {
                            (true, Some(error)) => TeardownFailure::Reap(error),
                            _ => TeardownFailure::UnexpectedWait(result),
                        },
                    );
                }
                self.phase = TeardownPhase::CloseProcess;
            },
            other => {
                self.phase = other;
            },
        }
    }

    /// Take what came of the action that the phase asks for.
    pub fn step(&mut self, event: TeardownEvent)
        ensures
            final(self)@ == old(self)@.after(event),
    {
        match event {
            TeardownEvent::Waited(result, last) => {
                let mut phase = TeardownPhase::Finished;
                std::mem::swap(&mut phase, &mut self.phase);
                self.waited(phase, result, last);
            },
            TeardownEvent::Terminated(result) => {
                if let TeardownPhase::Terminate = self.phase {
                    self.phase = match result {
                        Ok(()) => TeardownPhase::Reap,
                        Err(error) => TeardownPhase::Confirm(error),
                    };
                }
            },
            TeardownEvent::Closed(closed) => {
                let next = match self.phase {
                    TeardownPhase::CloseProcess => Some(TeardownPhase::CloseThread),
                    TeardownPhase::CloseThread => Some(TeardownPhase::Finished),
                    _ => None,
                };
                if let Some(next) = next {
                    if let Err(error) = closed {
                        self.failures.push(TeardownFailure::Close(error));
                    }
                    self.phase = next;
                }
            },
        }
    }
}

/// How many phases are left before both handles are closed.
pub open spec fn phases_left(phase: TeardownPhase) -> int {
    match phase {
        TeardownPhase::Probe => 6,
        TeardownPhase::Terminate => 5,
        TeardownPhase::Confirm(_) => 4,
        TeardownPhase::Reap => 3,
        TeardownPhase::CloseProcess => 2,
        TeardownPhase::CloseThread => 1,
        TeardownPhase::Finished => 0,
    }
}

/// A teardown only goes forward, loses no failure, and ends only after both
/// handles were closed and after a child that still ran was waited for.
pub proof fn teardowns_reap_and_close(teardown: TeardownView, event: TeardownEvent)
    ensures
        phases_left(teardown.after(event).phase) <= phases_left(teardown.phase),
        teardown.failures.is_prefix_of(teardown.after(event).failures),
        teardown.after(event).phase is Finished && !(teardown.phase is Finished)
            ==> teardown.phase is CloseThread && event is Closed,
        teardown.after(event).phase is CloseThread && !(teardown.phase is CloseThread)
            ==> teardown.phase is CloseProcess && event is Closed,
        teardown.after(event).phase is CloseProcess && !(teardown.phase is CloseProcess) ==> (
        teardown.phase is Reap || teardown.phase is Probe) && event is Waited,
{
    assert(teardown.failures =~= teardown.after(event).failures.subrange(
        0,
        teardown.failures.len() as int,
    ));
}

/// What a list of module handles asks for.
#[derive(Debug, Clone, Copy, PartialEq, Eq, Structural)]
pub enum SnapshotStep {
    /// This many handles were listed.
    Complete(usize),
    /// List again, with room for this many handles.
    Retry(usize),
}

pub const MODULE_HANDLE_BYTES: usize = 8;

/// What to make of a list of module handles in a buffer with room for
/// `capacity`, when the modules need this many bytes.
pub fn snapshot_step(capacity: usize, needed: u32) -> (step: SnapshotStep)
    ensures
        step == if needed <= capacity * MODULE_HANDLE_BYTES {
            SnapshotStep::Complete((needed / 8) as usize)
        } else {
            SnapshotStep::Retry((needed / 8 + 16) as usize)
        },
{
    let handles: usize = needed as usize / MODULE_HANDLE_BYTES;
    let fits = if needed as usize % MODULE_HANDLE_BYTES == 0 {
        handles <= capacity
    } else {
        handles < capacity
    };
    if fits {
        SnapshotStep::Complete(handles)
    } else {
        SnapshotStep::Retry(handles + 16)
    }
}

/// A loaded module: its base, and its canonical path where it has one.
#[derive(Debug)]
pub struct LoadedModule {
    pub base: usize,
    pub canonical: Option<Vec<u16>>,
}

/// The module lies at this path.
pub open spec fn lies_at(module: LoadedModule, expected: Seq<u16>) -> bool {
    module.canonical matches Some(path) && path@ == expected
}

/// `i` is the first module at this path.
pub open spec fn is_first_at(modules: Seq<LoadedModule>, expected: Seq<u16>, i: int) -> bool {
    &&& 0 <= i < modules.len()
    &&& lies_at(modules[i], expected)
    &&& forall|k: int| 0 <= k < i ==> !lies_at(#[trigger] modules[k], expected)
}

/// No module lies at this path.
pub open spec fn none_lies_at(modules: Seq<LoadedModule>, expected: Seq<u16>) -> bool {
    forall|i: int| 0 <= i < modules.len() ==> !lies_at(#[trigger] modules[i], expected)
}

/// The remote base of the first module whose path is `expected`.
pub fn module_base(modules: &[LoadedModule], expected: &[u16]) -> (base: Option<usize>)
    ensures
        match base {
            Some(base) => exists|i: int|
                #[trigger] is_first_at(modules@, expected@, i) && modules@[i].base == base,
            None => none_lies_at(modules@, expected@),
        },
{
    let mut i: usize = 0;
    while i < modules.len()
        invariant
            i <= modules@.len(),
            forall|k: int| 0 <= k < i ==> !lies_at(#[trigger] modules@[k], expected@),
        decreases modules@.len() - i,
    {
        match &modules[i].canonical {
            Some(path) => {
                if same_units(path, expected) {
                    assert(is_first_at(modules@, expected@, i as int));
                    return Some(modules[i].base);
                }
            },
            None => {},
        }
        i += 1;
    }
    None
}

/// Exact full-path presence check for a module.
pub fn module_loaded(modules: &[LoadedModule], expected: &[u16]) -> (loaded: bool)
    ensures
        loaded == !none_lies_at(modules@, expected@),
{
    match module_base(modules, expected) {
        Some(_) => true,
        None => false,
    }
}

/// Where the text without its leading white space begins.
pub open spec fn trim_start(text: Seq<char>) -> int
    decreases text.len(),
{
    if text.len() > 0 && is_white(text[0]) {
        1 + trim_start(text.skip(1))
    } else {
        0
    }
}

/// Where the text without its trailing white space ends.
pub open spec fn trim_end(text: Seq<char>) -> int
    decreases text.len(),
{
    if text.len() > 0 && is_white(text.last()) {
        trim_end(text.drop_last())
    } else {
        text.len() as int
    }
}

/// The text between its leading and its trailing white space.
pub open spec fn trimmed(text: Seq<char>) -> Seq<char> {
    let start = trim_start(text);
    let end = trim_end(text);
    if start < end {
        text.subrange(start, end)
    } else {
        Seq::empty()
    }
}

/// The path that a probed tool has printed, without the white space around it.
pub fn probe_path(stdout: &str) -> (path: String)
    ensures
        path@ == trimmed(stdout@),
{
    let len: usize = stdout.unicode_len();
    let mut start: usize = 0;
    assert(stdout@.skip(0) =~= stdout@);
    while start < len && white(stdout.get_char(start))
        invariant
            start <= len,
            len == stdout@.len(),
            start + trim_start(stdout@.skip(start as int)) == trim_start(stdout@),
        decreases len - start,
    {
        assert(stdout@.skip(start as int)[0] == stdout@[start as int]);
        assert(stdout@.skip(start as int).skip(1) =~= stdout@.skip(start + 1));
        start += 1;
    }
    proof {
        if start < len {
            assert(stdout@.skip(start as int)[0] == stdout@[start as int]);
        }
    }
    let mut end: usize = len;
    assert(stdout@.take(len as int) =~= stdout@);
    while end > 0 && white(stdout.get_char(end - 1))
        invariant
            end <= len,
            len == stdout@.len(),
            trim_end(stdout@.take(end as int)) == trim_end(stdout@),
        decreases end,
    {
        assert(stdout@.take(end as int).last() == stdout@[end - 1]);
        assert(stdout@.take(end as int).drop_last() =~= stdout@.take(end - 1));
        end -= 1;
    }
    proof {
        if end > 0 {
            assert(stdout@.take(end as int).last() == stdout@[end - 1]);
        }
    }
    let mut path = String::new();
    let mut i: usize = start;
    while i < end
        invariant
            start <= i,
            i <= end || start >= end,
            end <= len,
            len == stdout@.len(),
            start < end ==> path@ == stdout@.subrange(start as int, i as int),
            start >= end ==> path@ == Seq::<char>::empty(),
        decreases end - i,
    {
        path.push(stdout.get_char(i));
        i += 1;
        assert(path@ =~= stdout@.subrange(start as int, i as int));
    }
    assert(path@ =~= trimmed(stdout@));
    path
}

} // verus!
