//! Commit both header regions, and decide what becomes of the import block.

use crate::error::{
    combine, combine_keeps_recovery_facts, combined, outcome, pe, Error, ErrorView, Result,
};
use crate::injector::{InjectedModule, LoadTiming};
use crate::pe::layout::{le32, le32_bytes, u32_at, Record};
use crate::strategy::import_table::{ClrHeader, CLR_FLAGS_OFFSET, COR_FLAG_ILONLY};
use crate::strategy::patch::{rollback_failed, unless_failed};
use vstd::prelude::*;

verus! {

/// How far a commit has come.
#[derive(Debug, Clone, Copy, PartialEq, Eq, Structural)]
pub enum CommitPhase {
    /// The image headers are patched.
    Headers,
    /// The CLR flags at this address are read.
    ReadFlags(usize),
    /// The CLR flags at this address are patched.
    Flags(usize),
    /// The image headers are patched back.
    Undo,
    /// Nothing is left to do.
    Finished,
}

/// What a commit asks for next.
#[derive(Debug, Clone, Copy, PartialEq, Eq, Structural)]
pub enum CommitAction {
    /// Run the transaction from the original to the new headers.
    PatchHeaders,
    /// Read the four bytes of the CLR flags at this address.
    ReadFlags(usize),
    /// Run the transaction over the CLR flags at this address.
    PatchFlags(usize),
    /// Run the transaction from the new back to the original headers.
    UndoHeaders,
    /// Take the outcome.
    Finish,
}

/// What came of an action.
#[derive(Debug)]
pub enum CommitEvent {
    Patched(Result<()>),
    Read(Result<Vec<u8>>),
}

/// The mathematical content of a [`CommitEvent`].
#[verifier::ext_equal]
pub enum CommitEventView {
    Patched(std::result::Result<(), ErrorView>),
    Read(std::result::Result<Seq<u8>, ErrorView>),
}

impl View for CommitEvent {
    type V = CommitEventView;

    open spec fn view(&self) -> CommitEventView {
        match *self {
            CommitEvent::Patched(result) => CommitEventView::Patched(outcome(result)),
            CommitEvent::Read(result) => CommitEventView::Read(
                match result {
                    Ok(bytes) => Ok(bytes@),
                    Err(error) => Err(error@),
                },
            ),
        }
    }
}

/// A commit of the image headers and, for pure-IL images, of the CLR flags.
#[derive(Debug)]
pub struct Commit {
    pub clr: Option<ClrHeader>,
    pub phase: CommitPhase,
    /// The CLR flags as they were read.
    pub flags: u32,
    pub failure: Option<Error>,
}

/// The mathematical content of a [`Commit`].
#[verifier::ext_equal]
pub struct CommitView {
    pub clr: Option<ClrHeader>,
    pub phase: CommitPhase,
    pub flags: u32,
    pub failure: std::result::Result<(), ErrorView>,
}

impl View for Commit {
    type V = CommitView;

    open spec fn view(&self) -> CommitView {
        CommitView {
            clr: self.clr,
            phase: self.phase,
            flags: self.flags,
            failure: unless_failed(self.failure),
        }
    }
}

/// The flags without the pure-IL mark.
pub open spec fn cleared(flags: u32) -> u32 {
    flags & !COR_FLAG_ILONLY
}

impl CommitView {
    /// The flags could not be changed: the headers have to be patched back.
    pub open spec fn undoing(self, error: ErrorView) -> CommitView {
        CommitView { failure: Err(error), phase: CommitPhase::Undo, ..self }
    }

    /// Nothing is left to do.
    pub open spec fn finished(self) -> CommitView {
        CommitView { phase: CommitPhase::Finished, ..self }
    }

    /// The headers are patched; a pure-IL image needs its flags changed too.
    pub open spec fn headers_patched(self) -> CommitView {
        match self.clr {
            None => self.finished(),
            Some(clr) => if clr.flags & COR_FLAG_ILONLY == 0 {
                self.finished()
            } else if clr.va + CLR_FLAGS_OFFSET > usize::MAX {
                self.undoing(ErrorView::Pe("CLR flags address overflow"@))
            } else {
                CommitView {
                    phase: CommitPhase::ReadFlags((clr.va + CLR_FLAGS_OFFSET) as usize),
                    ..self
                }
            },
        }
    }

    /// What the commit asks for.
    pub open spec fn action(self) -> CommitAction {
        match self.phase {
            CommitPhase::Headers => CommitAction::PatchHeaders,
            CommitPhase::ReadFlags(address) => CommitAction::ReadFlags(address),
            CommitPhase::Flags(address) => CommitAction::PatchFlags(address),
            CommitPhase::Undo => CommitAction::UndoHeaders,
            CommitPhase::Finished => CommitAction::Finish,
        }
    }

    /// The state after an event. One that the commit does not wait for changes
    /// nothing.
    pub open spec fn after(self, event: CommitEventView) -> CommitView {
        match (self.phase, event) {
            (CommitPhase::Headers, CommitEventView::Patched(Ok(_))) => self.headers_patched(),
            (CommitPhase::Headers, CommitEventView::Patched(Err(error))) => CommitView {
                failure: Err(error),
                ..self
            }.finished(),
            (CommitPhase::ReadFlags(address), CommitEventView::Read(Ok(bytes))) => if bytes.len()
                < 4 {
                self.undoing(ErrorView::Pe("truncated data"@))
            } else {
                CommitView { flags: le32(bytes, 0), phase: CommitPhase::Flags(address), ..self }
            },
            (CommitPhase::ReadFlags(_), CommitEventView::Read(Err(error))) => self.undoing(error),
            (CommitPhase::Flags(_), CommitEventView::Patched(Ok(_))) => self.finished(),
            (CommitPhase::Flags(_), CommitEventView::Patched(Err(error))) => self.undoing(error),
            (CommitPhase::Undo, CommitEventView::Patched(result)) => CommitView {
                failure: combined(
                    self.failure,
                    match result {
                        Ok(_) => Ok(()),
                        Err(error) => Err(rollback_failed(error)),
                    },
                ),
                ..self
            }.finished(),
            _ => self,
        }
    }
}

/// A commit that has done nothing yet.
pub open spec fn commit_start(clr: Option<ClrHeader>) -> CommitView {
    CommitView { clr, phase: CommitPhase::Headers, flags: 0, failure: Ok(()) }
}

impl Commit {
    /// Begin with the image headers.
    pub fn start(clr: Option<ClrHeader>) -> (commit: Self)
        ensures
            commit@ == commit_start(clr),
    {
        Commit { clr, phase: CommitPhase::Headers, flags: 0, failure: None }
    }

    /// What to do next.
    pub fn action(&self) -> (action: CommitAction)
        ensures
            action == self@.action(),
    {
        match self.phase {
            CommitPhase::Headers => CommitAction::PatchHeaders,
            CommitPhase::ReadFlags(address) => CommitAction::ReadFlags(address),
            CommitPhase::Flags(address) => CommitAction::PatchFlags(address),
            CommitPhase::Undo => CommitAction::UndoHeaders,
            CommitPhase::Finished => CommitAction::Finish,
        }
    }

    /// The flag bytes that were read, and those to put in their place.
    pub fn flag_bytes(&self) -> (pair: (Vec<u8>, Vec<u8>))
        ensures
            pair.0@ == le32_bytes(self@.flags),
            pair.1@ == le32_bytes(cleared(self@.flags)),
    {
        (self.flags.encode(), (self.flags & !COR_FLAG_ILONLY).encode())
    }

    fn undoing(&mut self, error: Error)
        ensures
            final(self)@ == old(self)@.undoing(error@),
    {
        self.failure = Some(error);
        self.phase = CommitPhase::Undo;
    }

    fn headers_patched(&mut self)
        ensures
            final(self)@ == old(self)@.headers_patched(),
    {
        match self.clr {
            None => {
                self.phase = CommitPhase::Finished;
            },
            Some(clr) => {
                if clr.flags & COR_FLAG_ILONLY == 0 {
                    self.phase = CommitPhase::Finished;
                } else {
                    match clr.va.checked_add(CLR_FLAGS_OFFSET) {
                        None => self.undoing(pe("CLR flags address overflow")),
                        Some(address) => {
                            self.phase = CommitPhase::ReadFlags(address);
                        },
                    }
                }
            },
        }
    }

    /// Take what came of the action.
    pub fn step(&mut self, event: CommitEvent)
        ensures
            final(self)@ == old(self)@.after(event@),
    {
        match (self.phase, event) {
            (CommitPhase::Headers, CommitEvent::Patched(Ok(()))) => {
                self.headers_patched();
            },
            (CommitPhase::Headers, CommitEvent::Patched(Err(error))) => {
                self.failure = Some(error);
                self.phase = CommitPhase::Finished;
            },
            (CommitPhase::ReadFlags(address), CommitEvent::Read(Ok(bytes))) => {
                match u32_at(&bytes, 0) {
                    Err(error) => self.undoing(error),
                    Ok(flags) => {
                        self.flags = flags;
                        self.phase = CommitPhase::Flags(address);
                    },
                }
            },
            (CommitPhase::ReadFlags(_), CommitEvent::Read(Err(error))) => {
                self.undoing(error);
            },
            (CommitPhase::Flags(_), CommitEvent::Patched(Ok(()))) => {
                self.phase = CommitPhase::Finished;
            },
            (CommitPhase::Flags(_), CommitEvent::Patched(Err(error))) => {
                self.undoing(error);
            },
            (CommitPhase::Undo, CommitEvent::Patched(result)) => {
                let rollback = match result {
                    Ok(()) => Ok(()),
                    Err(error) => Err(Error::IatRollbackFailed.with_cleanup(error)),
                };
                let update = match self.failure.take() {
                    Some(error) => Err(error),
                    None => Ok(()),
                };
                self.failure = match combine(update, rollback) {
                    Ok(()) => None,
                    Err(error) => Some(error),
                };
                self.phase = CommitPhase::Finished;
            },
            _ => {},
        }
    }

    /// The outcome.
    pub fn finish(self) -> (result: Result<()>)
        ensures
            outcome(result) == self@.failure,
    {
        match self.failure {
            Some(error) => Err(error),
            None => Ok(()),
        }
    }
}

/// Clearing the pure-IL mark changes no other flag.
pub proof fn only_the_il_mark_is_cleared(flags: u32)
    ensures
        cleared(flags) & COR_FLAG_ILONLY == 0,
        cleared(flags) | (flags & COR_FLAG_ILONLY) == flags,
{
    assert((flags & !0x1u32) & 0x1u32 == 0) by (bit_vector);
    assert((flags & !0x1u32) | (flags & 0x1u32) == flags) by (bit_vector);
}

/// What a commit that began with `clr` keeps: while it goes on, it has failed
/// only if the headers have to be patched back.
pub open spec fn commit_holds(commit: CommitView) -> bool {
    match commit.phase {
        CommitPhase::Headers | CommitPhase::ReadFlags(_) | CommitPhase::Flags(_) => {
            commit.failure is Ok
        },
        CommitPhase::Undo => commit.failure is Err,
        CommitPhase::Finished => true,
    }
}

/// A commit that has to patch the headers back, and cannot, forbids resume. One
/// that can keeps the recovery facts of the failure that made it do so.
pub proof fn failed_undo_forbids_resume(
    commit: CommitView,
    result: std::result::Result<(), ErrorView>,
)
    requires
        commit.phase is Undo,
        commit_holds(commit),
    ensures
        ({
            let end = commit.after(CommitEventView::Patched(result));
            &&& end.phase is Finished
            &&& end.failure is Err
            &&& result is Err ==> end.failure->Err_0.must_not_resume()
            &&& result is Ok ==> end.failure == commit.failure
        }),
{
    match result {
        Err(error) => {
            combine_keeps_recovery_facts(
                commit.failure,
                Err::<(), ErrorView>(rollback_failed(error)),
            );
            reveal_with_fuel(ErrorView::must_not_resume, 2);
        },
        Ok(_) => {},
    }
}

/// Every event keeps what holds of a commit, and a commit succeeds only from a
/// successful patch.
pub proof fn commit_succeeds_only_when_patched(commit: CommitView, event: CommitEventView)
    requires
        commit_holds(commit),
        !(commit.phase is Finished),
    ensures
        commit_holds(commit.after(event)),
        commit.after(event).phase is Finished && commit.after(event).failure is Ok ==> {
            &&& event matches CommitEventView::Patched(result) && result is Ok
            &&& !(commit.phase is Undo)
        },
{
    if commit.phase is Undo {
        match event {
            CommitEventView::Patched(result) => {
                failed_undo_forbids_resume(commit, result);
            },
            _ => {},
        }
    }
}

/// What becomes of the import block after a commit.
#[derive(Debug, Clone, Copy, PartialEq, Eq, Structural)]
pub enum Fate {
    /// The target refers to it, or may do so.
    Retain,
    /// Nothing refers to it.
    Release,
}

/// What becomes of the import block after a commit with this outcome.
pub open spec fn fate_of(result: std::result::Result<(), ErrorView>) -> Fate {
    match result {
        Ok(_) => Fate::Retain,
        Err(error) => if error.must_not_resume() {
            Fate::Retain
        } else {
            Fate::Release
        },
    }
}

/// Retain the import block on success, and when the target may still refer to it.
pub fn block_fate(result: &Result<()>) -> (fate: Fate)
    ensures
        fate == fate_of(outcome(*result)),
{
    match result {
        Ok(_) => Fate::Retain,
        Err(error) => if error.must_not_resume() {
            Fate::Retain
        } else {
            Fate::Release
        },
    }
}

/// What the injection is answered, given what came of a release.
pub open spec fn finished_injection(
    result: std::result::Result<(), ErrorView>,
    release: std::result::Result<(), ErrorView>,
) -> std::result::Result<InjectedModule, ErrorView> {
    match result {
        Ok(_) => Ok(InjectedModule { module: None, timing: LoadTiming::OnResume }),
        Err(error) => if error.must_not_resume() {
            Err(error)
        } else {
            match combined(result, release) {
                Ok(_) => Err(error),
                Err(both) => Err(both),
            }
        },
    }
}

/// Answer the injection. `release` is what came of releasing the import block,
/// where [`block_fate`] asked for that.
pub fn finish_injection(result: Result<()>, release: Result<()>) -> (injected: Result<
    InjectedModule,
>)
    ensures
        outcome(injected) == finished_injection(outcome(result), outcome(release)),
{
    match result {
        Ok(()) => Ok(InjectedModule::on_resume()),
        Err(error) => if error.must_not_resume() {
            Err(error)
        } else {
            combine::<InjectedModule>(Err(error), release)
        },
    }
}

/// The block of a prepared load is never released, and a failure keeps its
/// recovery facts whether or not the release succeeds.
pub proof fn released_blocks_are_unused(
    result: std::result::Result<(), ErrorView>,
    release: std::result::Result<(), ErrorView>,
)
    ensures
        fate_of(result) == Fate::Release <==> result is Err && !result->Err_0.must_not_resume(),
        finished_injection(result, release) is Ok <==> result is Ok,
        result is Err && fate_of(result) == Fate::Retain ==> finished_injection(result, release)
            == Err::<InjectedModule, ErrorView>(result->Err_0),
        result is Err && fate_of(result) == Fate::Release && release is Ok ==> finished_injection(
            result,
            release,
        ) == Err::<InjectedModule, ErrorView>(result->Err_0),
        result is Err && fate_of(result) == Fate::Release && release is Err ==> finished_injection(
            result,
            release,
        ) == Err::<InjectedModule, ErrorView>(result->Err_0.with_cleanup(release->Err_0)),
{
}

} // verus!
