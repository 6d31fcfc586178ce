//! Supervision of helper tools: bounded execution, and termination of the
//! whole job, descendants included, on every exit.

use crate::text::{decimal, push_decimal};
use vstd::prelude::*;

verus! {

/// How many capture files are tried before the search for a name ends.
pub const CAPTURE_ATTEMPTS: u32 = 1024;

/// The most that a tool may write to one stream, in bytes.
pub const MAX_CAPTURE_BYTES: u64 = 1048576;

/// How long a terminated job or child may take to disappear, in nanoseconds.
pub const CLEANUP_NANOS: u64 = 5_000_000_000;

/// Why a tool gave no output.
#[derive(Debug)]
pub enum ToolError {
    /// The operating system refused something.
    Os(std::io::Error),
    /// The tool ran longer than it may.
    Exceeded,
    /// A terminated job still has processes.
    JobStillRuns,
    /// Two failures: the first, and the one of stopping the job.
    JobCleanup { error: Box<ToolError>, cleanup: Box<ToolError> },
    /// Behind a failure the child could not be reaped.
    Unreaped { error: Box<ToolError>, killed: Option<std::io::Error>, wait: WaitFailure },
    /// A stream holds more than the limit.
    OutputTooLarge,
}

/// Why waiting for a killed child ended without its exit.
#[derive(Debug)]
pub enum WaitFailure {
    Failed(std::io::Error),
    StillRuns,
}

/// How a tool ended: its exit code, or why there is none.
pub type ToolResult = std::result::Result<i32, ToolError>;

/// What an error is reported as: the kind of the failure that came first.
pub open spec fn first_failure(error: ToolError) -> ToolError
    decreases error,
{
    match error {
        ToolError::JobCleanup { error, .. } => first_failure(*error),
        ToolError::Unreaped { error, .. } => first_failure(*error),
        _ => error,
    }
}

impl ToolError {
    /// Whether the failure that came first is an overrun: that of the tool, or
    /// that of a job which does not end.
    pub fn timed_out(&self) -> (yes: bool)
        ensures
            yes == (first_failure(*self) is Exceeded || first_failure(*self) is JobStillRuns),
        decreases self,
    {
        match self {
            ToolError::JobCleanup { error, .. } => error.timed_out(),
            ToolError::Unreaped { error, .. } => error.timed_out(),
            ToolError::Exceeded | ToolError::JobStillRuns => true,
            _ => false,
        }
    }
}

/// The file name of a capture.
pub open spec fn capture_name_of(pid: u32, id: u64, label: Seq<char>) -> Seq<char> {
    "stork_tool_"@ + decimal(pid as nat) + "_"@ + decimal(id as nat) + "_"@ + label + ".log"@
}

/// The file name of the capture of one stream of a tool.
pub fn capture_name(pid: u32, id: u64, label: &str) -> (name: String)
    ensures
        name@ == capture_name_of(pid, id, label@),
{
    let mut name = "stork_tool_".to_owned();
    push_decimal(&mut name, pid as u64);
    name.append("_");
    push_decimal(&mut name, id);
    name.append("_");
    name.append(label);
    name.append(".log");
    name
}

/// The search for a capture name that nobody has claimed.
#[derive(Debug, Clone, Copy, PartialEq, Eq, Structural)]
pub struct CaptureSearch {
    pub attempts: u32,
}

/// Whether the search goes on after a name that could not be opened.
pub open spec fn tries_on(search: CaptureSearch, claimed: bool) -> bool {
    claimed && search.attempts + 1 < CAPTURE_ATTEMPTS
}

impl CaptureSearch {
    /// The search ends at its limit.
    pub open spec fn well_formed(self) -> bool {
        self.attempts < CAPTURE_ATTEMPTS
    }

    /// Begin with the first name.
    pub fn start() -> (search: Self)
        ensures
            search == (CaptureSearch { attempts: 0 }),
            search.well_formed(),
    {
        CaptureSearch { attempts: 0 }
    }

    /// A name could not be opened. One that is claimed already is skipped, as
    /// long as there are attempts left; anything else ends the search.
    pub fn refused(&mut self, error: std::io::Error, claimed: bool) -> (result: std::result::Result<
        (),
        ToolError,
    >)
        requires
            old(self).well_formed(),
        ensures
            result == if tries_on(*old(self), claimed) {
                Ok::<(), ToolError>(())
            } else {
                Err(ToolError::Os(error))
            },
            final(self).attempts == if result is Ok {
                old(self).attempts + 1
            } else {
                old(self).attempts as int
            },
            final(self).well_formed(),
    {
        if !claimed || self.attempts + 1 >= CAPTURE_ATTEMPTS {
            return Err(ToolError::Os(error));
        }
        self.attempts = self.attempts + 1;
        Ok(())
    }
}

/// How much of a capture to read: one byte more than the limit shows an excess.
pub fn capture_quota() -> (quota: u64)
    ensures
        quota == MAX_CAPTURE_BYTES + 1,
{
    MAX_CAPTURE_BYTES + 1
}

/// Accept what was read of a capture.
pub fn check_capture(read: std::result::Result<Vec<u8>, std::io::Error>) -> (result:
    std::result::Result<Vec<u8>, ToolError>)
    ensures
        result == match read {
            Err(error) => Err::<Vec<u8>, ToolError>(ToolError::Os(error)),
            Ok(bytes) => if bytes@.len() > MAX_CAPTURE_BYTES {
                Err(ToolError::OutputTooLarge)
            } else {
                Ok(bytes)
            },
        },
{
    match read {
        Err(error) => Err(ToolError::Os(error)),
        Ok(bytes) => {
            if bytes.len() as u64 > MAX_CAPTURE_BYTES {
                return Err(ToolError::OutputTooLarge);
            }
            Ok(bytes)
        },
    }
}

/// What to do with a listed thread while the first one of a suspended tool is
/// looked for.
#[derive(Debug, Clone, Copy, PartialEq, Eq, Structural)]
pub enum ThreadStep {
    Resume(u32),
    Next,
}

/// Resume the thread when it belongs to the tool.
pub fn resume_step(pid: u32, owner: u32, thread: u32) -> (step: ThreadStep)
    ensures
        step == if owner == pid {
            ThreadStep::Resume(thread)
        } else {
            ThreadStep::Next
        },
{
    if owner == pid {
        ThreadStep::Resume(thread)
    } else {
        ThreadStep::Next
    }
}

/// How far the end of a job has come.
#[derive(Debug, Clone, Copy, PartialEq, Eq, Structural)]
pub enum JobPhase {
    Terminate,
    Query,
    Sleep,
    Finished,
}

/// What came of an action on a job.
#[derive(Debug)]
pub enum JobEvent {
    Terminated(std::result::Result<(), std::io::Error>),
    /// How many processes are left, after this many nanoseconds.
    Queried { active: std::result::Result<u32, std::io::Error>, elapsed: u64 },
    Slept,
}

/// The end of a job: terminate it and wait until no process is left.
#[derive(Debug)]
pub struct JobStop {
    pub phase: JobPhase,
    pub error: Option<ToolError>,
}

impl JobStop {
    /// Nothing is left to do, with this outcome.
    pub open spec fn ended(error: Option<ToolError>) -> JobStop {
        JobStop { phase: JobPhase::Finished, error }
    }

    /// The state after an event.
    pub open spec fn after(self, event: JobEvent) -> JobStop {
        match (self.phase, event) {
            (JobPhase::Terminate, JobEvent::Terminated(Ok(_))) => JobStop {
                phase: JobPhase::Query,
                ..self
            },
            (JobPhase::Terminate, JobEvent::Terminated(Err(error))) => JobStop::ended(
                Some(ToolError::Os(error)),
            ),
            (JobPhase::Query, JobEvent::Queried { active: Err(error), .. }) => JobStop::ended(
                Some(ToolError::Os(error)),
            ),
            (JobPhase::Query, JobEvent::Queried { active: Ok(active), elapsed }) => if active == 0 {
                JobStop::ended(None)
            } else if elapsed >= CLEANUP_NANOS {
                JobStop::ended(Some(ToolError::JobStillRuns))
            } else {
                JobStop { phase: JobPhase::Sleep, ..self }
            },
            (JobPhase::Sleep, JobEvent::Slept) => JobStop { phase: JobPhase::Query, ..self },
            _ => self,
        }
    }

    /// Begin to terminate the job.
    pub fn start() -> (stop: Self)
        ensures
            stop == (JobStop { phase: JobPhase::Terminate, error: None }),
    {
        JobStop { phase: JobPhase::Terminate, error: None }
    }

    /// Take what came of the action that the phase asks for.
    pub fn step(&mut self, event: JobEvent)
        ensures
            *final(self) == old(self).after(event),
    {
        match (self.phase, event) {
            (JobPhase::Terminate, JobEvent::Terminated(Ok(()))) => {
                self.phase = JobPhase::Query;
            },
            (JobPhase::Terminate, JobEvent::Terminated(Err(error))) => {
                self.error = Some(ToolError::Os(error));
                self.phase = JobPhase::Finished;
            },
            (JobPhase::Query, JobEvent::Queried { active: Err(error), .. }) => {
                self.error = Some(ToolError::Os(error));
                self.phase = JobPhase::Finished;
            },
            (JobPhase::Query, JobEvent::Queried { active: Ok(active), elapsed }) => {
                if active == 0 {
                    self.error = None;
                    self.phase = JobPhase::Finished;
                } else if elapsed >= CLEANUP_NANOS {
                    self.error = Some(ToolError::JobStillRuns);
                    self.phase = JobPhase::Finished;
                } else {
                    self.phase = JobPhase::Sleep;
                }
            },
            (JobPhase::Sleep, JobEvent::Slept) => {
                self.phase = JobPhase::Query;
            },
            _ => {},
        }
    }

    /// The outcome.
    pub fn finish(self) -> (result: std::result::Result<(), ToolError>)
        ensures
            result == match self.error {
                None => Ok::<(), ToolError>(()),
                Some(error) => Err(error),
            },
    {
        match self.error {
            None => Ok(()),
            Some(error) => Err(error),
        }
    }
}

/// How far a supervised tool has come.
#[derive(Debug, Clone, Copy, PartialEq, Eq, Structural)]
pub enum ToolPhase {
    /// The suspended tool is put into its job.
    Assign,
    /// The tool is resumed.
    Resume,
    /// The tool is asked whether it has ended.
    Poll,
    /// A pause before it is asked again.
    Sleep,
    /// The job is terminated.
    Stop,
    /// The child is killed.
    Kill,
    /// The child is asked whether it has ended.
    Reap,
    /// A pause before it is asked again.
    ReapSleep,
    /// Nothing is left to do.
    Finished,
}

/// What came of an action on a tool.
#[derive(Debug)]
pub enum ToolEvent {
    Assigned(std::result::Result<(), std::io::Error>),
    Resumed(std::result::Result<(), std::io::Error>),
    /// The exit code, if there is one, after this many nanoseconds.
    Waited { status: std::result::Result<Option<i32>, std::io::Error>, elapsed: u64 },
    Slept,
    Stopped(std::result::Result<(), ToolError>),
    Killed(std::result::Result<(), std::io::Error>),
}

/// A tool under supervision, from its suspended start on.
#[derive(Debug)]
pub struct Supervisor {
    pub phase: ToolPhase,
    /// How long the tool may run, in nanoseconds.
    pub timeout: u64,
    pub status: i32,
    pub error: Option<ToolError>,
    /// Why the child could not be killed.
    pub kill_error: Option<std::io::Error>,
}

impl Supervisor {
    /// The job is stopped next, because of an error or of an exit.
    pub open spec fn stopping(self, status: i32, error: Option<ToolError>) -> Supervisor {
        Supervisor { phase: ToolPhase::Stop, status, error, ..self }
    }

    /// What the end of the job makes of the outcome so far.
    pub open spec fn stopped(self, stop: std::result::Result<(), ToolError>) -> Supervisor {
        match (self.error, stop) {
            (None, Ok(_)) => Supervisor { phase: ToolPhase::Finished, ..self },
            (Some(_), Ok(_)) => Supervisor { phase: ToolPhase::Kill, ..self },
            (None, Err(cleanup)) => Supervisor {
                phase: ToolPhase::Kill,
                error: Some(cleanup),
                ..self
            },
            (Some(error), Err(cleanup)) => Supervisor {
                phase: ToolPhase::Kill,
                error: Some(
                    ToolError::JobCleanup { error: Box::new(error), cleanup: Box::new(cleanup) },
                ),
                ..self
            },
        }
    }

    /// The killed child cannot be waited for any longer.
    pub open spec fn unreaped(self, wait: WaitFailure) -> Supervisor {
        Supervisor {
            phase: ToolPhase::Finished,
            error: match self.error {
                None => None,
                Some(error) => Some(
                    ToolError::Unreaped { error: Box::new(error), killed: self.kill_error, wait },
                ),
            },
            kill_error: None,
            ..self
        }
    }

    /// The state after an event. One that the supervisor does not wait for
    /// changes nothing.
    pub open spec fn after(self, event: ToolEvent) -> Supervisor {
        match (self.phase, event) {
            (ToolPhase::Assign, ToolEvent::Assigned(Err(error))) => self.stopping(
                self.status,
                Some(ToolError::Os(error)),
            ),
            (ToolPhase::Assign, ToolEvent::Assigned(Ok(_))) => Supervisor {
                phase: ToolPhase::Resume,
                ..self
            },
            (ToolPhase::Resume, ToolEvent::Resumed(Err(error))) => self.stopping(
                self.status,
                Some(ToolError::Os(error)),
            ),
            (ToolPhase::Resume, ToolEvent::Resumed(Ok(_))) => Supervisor {
                phase: ToolPhase::Poll,
                ..self
            },
            (ToolPhase::Poll, ToolEvent::Waited { status: Err(error), .. }) => self.stopping(
                self.status,
                Some(ToolError::Os(error)),
            ),
            (ToolPhase::Poll, ToolEvent::Waited { status: Ok(Some(status)), .. }) => self.stopping(
                status,
                None,
            ),
            (ToolPhase::Poll, ToolEvent::Waited { status: Ok(None), elapsed }) => if elapsed
                >= self.timeout {
                self.stopping(self.status, Some(ToolError::Exceeded))
            } else {
                Supervisor { phase: ToolPhase::Sleep, ..self }
            },
            (ToolPhase::Sleep, ToolEvent::Slept) => Supervisor { phase: ToolPhase::Poll, ..self },
            (ToolPhase::Stop, ToolEvent::Stopped(stop)) => self.stopped(stop),
            (ToolPhase::Kill, ToolEvent::Killed(killed)) => Supervisor {
                phase: ToolPhase::Reap,
                kill_error: match killed {
                    Ok(_) => None,
                    Err(error) => Some(error),
                },
                ..self
            },
            (ToolPhase::Reap, ToolEvent::Waited { status: Ok(Some(_)), .. }) => Supervisor {
                phase: ToolPhase::Finished,
                ..self
            },
            (ToolPhase::Reap, ToolEvent::Waited { status: Ok(None), elapsed }) => if elapsed
                < CLEANUP_NANOS {
                Supervisor { phase: ToolPhase::ReapSleep, ..self }
            } else {
                self.unreaped(WaitFailure::StillRuns)
            },
            (ToolPhase::Reap, ToolEvent::Waited { status: Err(error), .. }) => self.unreaped(
                WaitFailure::Failed(error),
            ),
            (ToolPhase::ReapSleep, ToolEvent::Slept) => Supervisor {
                phase: ToolPhase::Reap,
                ..self
            },
            _ => self,
        }
    }

    /// Begin with a suspended tool that may run this long.
    pub fn start(timeout: u64) -> (supervisor: Self)
        ensures
            supervisor == (Supervisor {
                phase: ToolPhase::Assign,
                timeout,
                status: 0,
                error: None,
                kill_error: None,
            }),
            is_supervised(supervisor),
    {
        Supervisor {
            phase: ToolPhase::Assign,
            timeout,
            status: 0,
            error: None,
            kill_error: None,
        }
    }

    fn failing(&mut self, error: ToolError)
        ensures
            *final(self) == old(self).stopping(old(self).status, Some(error)),
    {
        self.error = Some(error);
        self.phase = ToolPhase::Stop;
    }

    fn job_stopped(&mut self, stop: std::result::Result<(), ToolError>)
        ensures
            *final(self) == old(self).stopped(stop),
    {
        self.error = match (self.error.take(), stop) {
            (None, Ok(())) => {
                self.phase = ToolPhase::Finished;
                return ;
            },
            (Some(error), Ok(())) => Some(error),
            (None, Err(cleanup)) => Some(cleanup),
            (Some(error), Err(cleanup)) => Some(
                ToolError::JobCleanup { error: Box::new(error), cleanup: Box::new(cleanup) },
            ),
        };
        self.phase = ToolPhase::Kill;
    }

    fn not_reaped(&mut self, wait: WaitFailure)
        ensures
            *final(self) == old(self).unreaped(wait),
    {
        let killed = self.kill_error.take();
        self.error = match self.error.take() {
            None => None,
            Some(error) => Some(ToolError::Unreaped { error: Box::new(error), killed, wait }),
        };
        self.phase = ToolPhase::Finished;
    }

    /// Take what came of the action that the phase asks for.
    pub fn step(&mut self, event: ToolEvent)
        ensures
            *final(self) == old(self).after(event),
    {
        match (self.phase, event) {
            (ToolPhase::Assign, ToolEvent::Assigned(Err(error))) => {
                self.failing(ToolError::Os(error));
            },
            (ToolPhase::Assign, ToolEvent::Assigned(Ok(()))) => {
                self.phase = ToolPhase::Resume;
            },
            (ToolPhase::Resume, ToolEvent::Resumed(Err(error))) => {
                self.failing(ToolError::Os(error));
            },
            (ToolPhase::Resume, ToolEvent::Resumed(Ok(()))) => {
                self.phase = ToolPhase::Poll;
            },
            (ToolPhase::Poll, ToolEvent::Waited { status: Err(error), .. }) => {
                self.failing(ToolError::Os(error));
            },
            (ToolPhase::Poll, ToolEvent::Waited { status: Ok(Some(status)), .. }) => {
                self.status = status;
                self.error = None;
                self.phase = ToolPhase::Stop;
            },
            (ToolPhase::Poll, ToolEvent::Waited { status: Ok(None), elapsed }) => {
                if elapsed >= self.timeout {
                    self.failing(ToolError::Exceeded);
                } else {
                    self.phase = ToolPhase::Sleep;
                }
            },
            (ToolPhase::Sleep, ToolEvent::Slept) => {
                self.phase = ToolPhase::Poll;
            },
            (ToolPhase::Stop, ToolEvent::Stopped(stop)) => {
                self.job_stopped(stop);
            },
            (ToolPhase::Kill, ToolEvent::Killed(killed)) => {
                self.kill_error = match killed {
                    Ok(()) => None,
                    Err(error) => Some(error),
                };
                self.phase = ToolPhase::Reap;
            },
            (ToolPhase::Reap, ToolEvent::Waited { status: Ok(Some(_)), .. }) => {
                self.phase = ToolPhase::Finished;
            },
            (ToolPhase::Reap, ToolEvent::Waited { status: Ok(None), elapsed }) => {
                if elapsed < CLEANUP_NANOS {
                    self.phase = ToolPhase::ReapSleep;
                } else {
                    self.not_reaped(WaitFailure::StillRuns);
                }
            },
            (ToolPhase::Reap, ToolEvent::Waited { status: Err(error), .. }) => {
                self.not_reaped(WaitFailure::Failed(error));
            },
            (ToolPhase::ReapSleep, ToolEvent::Slept) => {
                self.phase = ToolPhase::Reap;
            },
            _ => {},
        }
    }

    /// The outcome.
    pub fn finish(self) -> (result: ToolResult)
        ensures
            result == match self.error {
                None => Ok::<i32, ToolError>(self.status),
                Some(error) => Err(error),
            },
    {
        match self.error {
            None => Ok(self.status),
            Some(error) => Err(error),
        }
    }
}

/// The job of a tool has been stopped.
pub open spec fn is_behind_stop(phase: ToolPhase) -> bool {
    phase is Kill || phase is Reap || phase is ReapSleep || phase is Finished
}

/// A run from its start on: behind the end of the job there is an error
/// wherever the child still has to be reaped, and none before a failure.
pub open spec fn is_supervised(supervisor: Supervisor) -> bool {
    &&& supervisor.phase is Kill || supervisor.phase is Reap || supervisor.phase is ReapSleep
        ==> supervisor.error is Some
    &&& supervisor.phase is Assign || supervisor.phase is Resume || supervisor.phase is Poll
        || supervisor.phase is Sleep ==> supervisor.error is None
}

/// However a run goes, it never comes past the end of its job without stopping
/// it, it never goes back to the tool, a failure is never lost, and success
/// means that the tool ended by itself and its job was stopped.
pub proof fn jobs_are_stopped_on_every_exit(supervisor: Supervisor, event: ToolEvent)
    requires
        is_supervised(supervisor),
    ensures
        is_supervised(supervisor.after(event)),
        is_behind_stop(supervisor.after(event).phase) && !is_behind_stop(supervisor.phase)
            ==> supervisor.phase is Stop && event is Stopped,
        is_behind_stop(supervisor.phase) ==> is_behind_stop(supervisor.after(event).phase),
        supervisor.error matches Some(error) ==> supervisor.after(event).error is Some
            && first_failure(supervisor.after(event).error->0) == first_failure(error),
        supervisor.after(event).phase is Finished && !(supervisor.phase is Finished)
            && supervisor.after(event).error is None ==> supervisor.phase is Stop
            && supervisor.error is None && (event matches ToolEvent::Stopped(stop) && stop is Ok),
{
    reveal_with_fuel(first_failure, 2);
}

} // verus!
