//! A remote LoadLibrary thread, and the lifetime of its argument.

use crate::error::{combine, combined, last_os_error, outcome, Error, ErrorView, Result};
use crate::injector::{InjectedModule, LoadTiming};
use crate::text::{hexadecimal, push_hexadecimal};
use vstd::prelude::*;

verus! {

/// How long the remote thread is waited for, in milliseconds.
pub const LOAD_TIMEOUT: u32 = 30000;

pub const WAIT_OBJECT_0: u32 = 0x0;

pub const WAIT_TIMEOUT: u32 = 0x102;

pub const WAIT_FAILED: u32 = 0xffff_ffff;

/// How a wait for the remote thread ended.
#[derive(Debug)]
pub enum WaitEnd {
    /// The thread has terminated.
    Signaled,
    /// The time is up.
    TimedOut,
    /// The wait failed, or ended in an unexpected way.
    Failed(std::io::Error),
}

/// How a wait result is described that is none of the known ones.
pub open spec fn unexpected_wait_of(result: u32) -> Seq<char> {
    "unexpected thread wait result: 0x"@ + hexadecimal(result as nat)
}

/// Describe a wait result that is none of the known ones.
pub fn unexpected_wait(result: u32) -> (text: String)
    ensures
        text@ == unexpected_wait_of(result),
{
    let mut text = "unexpected thread wait result: 0x".to_owned();
    push_hexadecimal(&mut text, result);
    text
}

/// The error that `std` makes of a message.
pub uninterp spec fn other_error_of(message: Seq<char>) -> std::io::Error;

/// `std::io::Error::other` makes an error of a message, and of nothing else.
#[verifier::external_body]
fn other_error(message: String) -> (source: std::io::Error)
    ensures
        source == other_error_of(message@),
{
    std::io::Error::other(message)
}

/// How a wait with this result ended, when `last` is the last error of the
/// calling thread. A failed wait is described by that error, any other unknown
/// result by its number.
pub open spec fn wait_end_of(result: u32, last: std::io::Error) -> WaitEnd {
    if result == WAIT_OBJECT_0 {
        WaitEnd::Signaled
    } else if result == WAIT_TIMEOUT {
        WaitEnd::TimedOut
    } else if result == WAIT_FAILED {
        WaitEnd::Failed(last)
    } else {
        WaitEnd::Failed(other_error_of(unexpected_wait_of(result)))
    }
}

/// How a wait with this result ended, when `last` is the last error of the
/// calling thread.
pub fn wait_end_with(result: u32, last: std::io::Error) -> (end: WaitEnd)
    ensures
        end == wait_end_of(result, last),
{
    if result == WAIT_OBJECT_0 {
        WaitEnd::Signaled
    } else if result == WAIT_TIMEOUT {
        WaitEnd::TimedOut
    } else if result == WAIT_FAILED {
        WaitEnd::Failed(last)
    } else {
        WaitEnd::Failed(other_error(unexpected_wait(result)))
    }
}

/// How a wait with this result ended. Which error a failed wait carries is up
/// to the system.
pub fn wait_end(result: u32) -> (end: WaitEnd)
    ensures
        result == WAIT_FAILED ==> end is Failed,
        result != WAIT_FAILED ==> forall|last: std::io::Error|
            end == #[trigger] wait_end_of(result, last),
{
    wait_end_with(result, last_os_error())
}

/// What the end of a wait means for the load.
pub fn wait_outcome(end: WaitEnd) -> (result: Result<()>)
    ensures
        outcome(result) == match end {
            WaitEnd::Signaled => Ok::<(), ErrorView>(()),
            WaitEnd::TimedOut => Err(ErrorView::RemoteTimeout),
            WaitEnd::Failed(source) => Err(ErrorView::RemotePending(source)),
        },
{
    match end {
        WaitEnd::Signaled => Ok(()),
        WaitEnd::TimedOut => Err(Error::RemoteTimeout),
        WaitEnd::Failed(source) => Err(Error::RemotePending(source)),
    }
}

/// How far a remote load has come.
#[derive(Debug, Clone, Copy, PartialEq, Eq, Structural)]
pub enum LoadPhase {
    /// The argument lies in the target; the thread is created.
    Launch,
    /// The thread runs and is waited for.
    Wait,
    /// The thread has ended; the module is looked for.
    Locate,
    /// The argument is released.
    Release,
    /// Nothing is left to do.
    Finished,
}

/// What a remote load asks for next.
#[derive(Debug, Clone, Copy, PartialEq, Eq, Structural)]
pub enum LoadAction {
    CreateThread,
    Wait,
    FindModule,
    ReleaseArgument,
    Finish,
}

/// What came of an action.
#[derive(Debug)]
pub enum LoadEvent {
    Created(Result<()>),
    Waited(Result<()>),
    Located(Result<usize>),
    Released(Result<()>),
}

/// The mathematical content of a [`LoadEvent`].
#[verifier::ext_equal]
pub enum LoadEventView {
    Created(std::result::Result<(), ErrorView>),
    Waited(std::result::Result<(), ErrorView>),
    Located(std::result::Result<usize, ErrorView>),
    Released(std::result::Result<(), ErrorView>),
}

impl View for LoadEvent {
    type V = LoadEventView;

    open spec fn view(&self) -> LoadEventView {
        match *self {
            LoadEvent::Created(result) => LoadEventView::Created(outcome(result)),
            LoadEvent::Waited(result) => LoadEventView::Waited(outcome(result)),
            LoadEvent::Located(result) => LoadEventView::Located(outcome(result)),
            LoadEvent::Released(result) => LoadEventView::Released(outcome(result)),
        }
    }
}

/// A load by a remote thread, from its creation on.
#[derive(Debug)]
pub struct RemoteLoad {
    pub phase: LoadPhase,
    /// Whether the argument is freed when it goes out of scope.
    pub armed: bool,
    /// The module, or why there is none.
    pub result: Result<usize>,
}

/// The mathematical content of a [`RemoteLoad`].
#[verifier::ext_equal]
pub struct RemoteLoadView {
    pub phase: LoadPhase,
    pub armed: bool,
    /// The module, or why there is none.
    pub result: std::result::Result<usize, ErrorView>,
}

impl View for RemoteLoad {
    type V = RemoteLoadView;

    open spec fn view(&self) -> RemoteLoadView {
        RemoteLoadView {
            phase: self.phase,
            armed: self.armed,
            result: outcome(self.result),
        }
    }
}

impl RemoteLoadView {
    /// What the load asks for.
    pub open spec fn action(self) -> LoadAction {
        match self.phase {
            LoadPhase::Launch => LoadAction::CreateThread,
            LoadPhase::Wait => LoadAction::Wait,
            LoadPhase::Locate => LoadAction::FindModule,
            LoadPhase::Release => LoadAction::ReleaseArgument,
            LoadPhase::Finished => LoadAction::Finish,
        }
    }

    /// The state after an event. One that the load does not wait for changes
    /// nothing.
    pub open spec fn after(self, event: LoadEventView) -> RemoteLoadView {
        match (self.phase, event) {
            (LoadPhase::Launch, LoadEventView::Created(Err(error))) => RemoteLoadView {
                phase: LoadPhase::Release,
                result: Err(error),
                ..self
            },
            (LoadPhase::Launch, LoadEventView::Created(Ok(_))) => RemoteLoadView {
                phase: LoadPhase::Wait,
                armed: false,
                ..self
            },
            (LoadPhase::Wait, LoadEventView::Waited(Err(error))) => RemoteLoadView {
                phase: LoadPhase::Finished,
                result: Err(error),
                ..self
            },
            (LoadPhase::Wait, LoadEventView::Waited(Ok(_))) => RemoteLoadView {
                phase: LoadPhase::Locate,
                ..self
            },
            (LoadPhase::Locate, LoadEventView::Located(result)) => RemoteLoadView {
                phase: LoadPhase::Release,
                result,
                ..self
            },
            (LoadPhase::Release, LoadEventView::Released(release)) => RemoteLoadView {
                phase: LoadPhase::Finished,
                armed: if release is Ok {
                    false
                } else {
                    self.armed
                },
                result: combined(self.result, release),
            },
            _ => self,
        }
    }

    /// What the injection is answered.
    pub open spec fn injected(self) -> std::result::Result<InjectedModule, ErrorView> {
        match self.result {
            Ok(module) => Ok(
                InjectedModule { module: Some(module), timing: LoadTiming::Immediate },
            ),
            Err(error) => Err(error),
        }
    }
}

impl RemoteLoad {
    /// Begin with the argument in the target.
    pub fn start() -> (load: Self)
        ensures
            load@ == (RemoteLoadView { phase: LoadPhase::Launch, armed: true, result: Ok(0) }),
    {
        RemoteLoad { phase: LoadPhase::Launch, armed: true, result: Ok(0) }
    }

    /// What to do next.
    pub fn action(&self) -> (action: LoadAction)
        ensures
            action == self@.action(),
    {
        match self.phase {
            LoadPhase::Launch => LoadAction::CreateThread,
            LoadPhase::Wait => LoadAction::Wait,
            LoadPhase::Locate => LoadAction::FindModule,
            LoadPhase::Release => LoadAction::ReleaseArgument,
            LoadPhase::Finished => LoadAction::Finish,
        }
    }

    /// Whether the argument is freed when it goes out of scope.
    pub fn is_armed(&self) -> (armed: bool)
        ensures
            armed == self@.armed,
    {
        self.armed
    }

    /// Take what came of the action.
    pub fn step(&mut self, event: LoadEvent)
        ensures
            final(self)@ == old(self)@.after(event@),
    {
        match (self.phase, event) {
            (LoadPhase::Launch, LoadEvent::Created(Err(error))) => {
                self.result = Err(error);
                self.phase = LoadPhase::Release;
            },
            (LoadPhase::Launch, LoadEvent::Created(Ok(()))) => {
                // The thread can still read the argument on timeout or wait failure.
                self.armed = false;
                self.phase = LoadPhase::Wait;
            },
            (LoadPhase::Wait, LoadEvent::Waited(Err(error))) => {
                self.result = Err(error);
                self.phase = LoadPhase::Finished;
            },
            (LoadPhase::Wait, LoadEvent::Waited(Ok(()))) => {
                self.phase = LoadPhase::Locate;
            },
            (LoadPhase::Locate, LoadEvent::Located(result)) => {
                self.result = result;
                self.phase = LoadPhase::Release;
            },
            (LoadPhase::Release, LoadEvent::Released(release)) => {
                if release.is_ok() {
                    self.armed = false;
                }
                let mut result: Result<usize> = Ok(0);
                std::mem::swap(&mut self.result, &mut result);
                self.result = combine(result, release);
                self.phase = LoadPhase::Finished;
            },
            _ => {},
        }
    }

    /// The outcome.
    pub fn finish(self) -> (result: Result<InjectedModule>)
        ensures
            outcome(result) == self@.injected(),
    {
        match self.result {
            Err(error) => Err(error),
            Ok(module) => Ok(InjectedModule::immediate(module)),
        }
    }
}

/// Once the thread exists, the argument is neither released nor freed out of
/// scope unless the wait has shown that the thread ended: an outcome that
/// comes from the wait leaves the argument in the target.
pub proof fn pending_loads_keep_their_argument(
    load: RemoteLoadView,
    created: LoadEventView,
    waited: LoadEventView,
)
    requires
        load.phase is Launch,
        created matches LoadEventView::Created(result) && result is Ok,
        waited is Waited,
    ensures
        ({
            let running = load.after(created);
            let end = running.after(waited);
            &&& !running.armed
            &&& !end.armed
            &&& running.action() is Wait
            &&& waited matches LoadEventView::Waited(Err(error)) ==> end.action() is Finish
                && end.injected() == Err::<InjectedModule, ErrorView>(error)
            &&& waited matches LoadEventView::Waited(Ok(_)) ==> end.action() is FindModule
        }),
{
}

/// A thread that was not created leaves its argument to be released, and the
/// outcome keeps the recovery facts of both failures.
pub proof fn unlaunched_loads_release_their_argument(
    load: RemoteLoadView,
    error: ErrorView,
    release: std::result::Result<(), ErrorView>,
)
    requires
        load.phase is Launch,
    ensures
        ({
            let refused = load.after(LoadEventView::Created(Err(error)));
            let end = refused.after(LoadEventView::Released(release));
            &&& refused.action() is ReleaseArgument
            &&& end.action() is Finish
            &&& release is Ok ==> end.injected() == Err::<InjectedModule, ErrorView>(error)
            &&& release is Err ==> end.injected() == Err::<InjectedModule, ErrorView>(
                error.with_cleanup(release->Err_0),
            )
        }),
{
}

} // verus!
