//! Verified header writes with byte rollback and per-page protection restore.
//!
//! A transaction makes every page of a header region writable, writes the new
//! bytes and reads them back. When that fails it writes the original bytes and
//! reads those back. In every case it then restores the page protections, last
//! page first. The transaction decides; a caller performs what it asks for and
//! reports what came of it.

use crate::error::{
    combine, combine_keeps_recovery_facts, combined, forbids_resume, outcome, pe, Error,
    ErrorView, Result,
};
use crate::remote::loader::same_bytes;
use crate::remote::memory::{Region, EXECUTABLE_PROTECTION};
use vstd::prelude::*;

verus! {

pub const PAGE_READWRITE: u32 = 0x4;

pub const PAGE_EXECUTE_READWRITE: u32 = 0x40;

/// A page whose protection was changed, and the protection it had.
#[derive(Debug, Clone, Copy, PartialEq, Eq, Structural)]
pub struct Protection {
    pub address: usize,
    pub size: usize,
    pub old: u32,
}

/// How far a transaction has come.
#[derive(Debug, Clone, Copy, PartialEq, Eq, Structural)]
pub enum Phase {
    /// The next page is queried.
    Query,
    /// The next page gets this protection.
    Protect(u32),
    /// The new bytes are written.
    Write,
    /// The new bytes are read back.
    Verify,
    /// The original bytes are written.
    Rollback,
    /// The original bytes are read back.
    VerifyRollback,
    /// The protections are restored, last page first.
    Restore,
    /// Nothing is left to do.
    Finished,
}

/// What a transaction asks for next.
#[derive(Debug, Clone, Copy, PartialEq, Eq, Structural)]
pub enum PatchAction {
    /// Query the page at this address.
    Query(usize),
    /// Change the protection of a page, and report the one it had.
    Protect { address: usize, size: usize, protection: u32 },
    /// Write the new bytes.
    WritePatched,
    /// Write the original bytes.
    WriteOriginal,
    /// Read the region back.
    Read,
    /// Give a page its protection back.
    Restore { address: usize, size: usize, protection: u32 },
    /// Take the outcome.
    Finish,
}

/// What came of an action.
#[derive(Debug)]
pub enum PatchEvent {
    Region(Result<Region>),
    Protected(Result<u32>),
    Wrote(Result<()>),
    Read(Result<Vec<u8>>),
    Restored(Result<()>),
}

/// The mathematical content of a [`PatchEvent`].
#[verifier::ext_equal]
pub enum PatchEventView {
    Region(std::result::Result<Region, ErrorView>),
    Protected(std::result::Result<u32, ErrorView>),
    Wrote(std::result::Result<(), ErrorView>),
    Read(std::result::Result<Seq<u8>, ErrorView>),
    Restored(std::result::Result<(), ErrorView>),
}

impl View for PatchEvent {
    type V = PatchEventView;

    open spec fn view(&self) -> PatchEventView {
        match *self {
            PatchEvent::Region(result) => PatchEventView::Region(outcome(result)),
            PatchEvent::Protected(result) => PatchEventView::Protected(outcome(result)),
            PatchEvent::Wrote(result) => PatchEventView::Wrote(outcome(result)),
            PatchEvent::Read(result) => PatchEventView::Read(
                match result {
                    Ok(bytes) => Ok(bytes@),
                    Err(error) => Err(error@),
                },
            ),
            PatchEvent::Restored(result) => PatchEventView::Restored(outcome(result)),
        }
    }
}

/// A header write in progress.
#[derive(Debug)]
pub struct PatchTransaction {
    pub base: usize,
    pub original: Vec<u8>,
    pub patched: Vec<u8>,
    pub page: usize,
    /// The next page to make writable, and where the pages end.
    pub next: usize,
    pub end: usize,
    /// The pages that were made writable and not restored yet.
    pub ranges: Vec<Protection>,
    pub phase: Phase,
    /// Why the bytes are not the new ones.
    pub failure: Option<Error>,
    /// Which protections could not be restored.
    pub unrestored: Option<Error>,
}

/// The mathematical content of a [`PatchTransaction`].
#[verifier::ext_equal]
pub struct PatchView {
    pub base: usize,
    pub original: Seq<u8>,
    pub patched: Seq<u8>,
    pub page: usize,
    pub next: usize,
    pub end: usize,
    pub ranges: Seq<Protection>,
    pub phase: Phase,
    pub failure: std::result::Result<(), ErrorView>,
    pub unrestored: std::result::Result<(), ErrorView>,
}

/// Success, unless there is an error.
pub open spec fn unless_failed(error: Option<Error>) -> std::result::Result<(), ErrorView> {
    match error {
        Some(error) => Err(error@),
        None => Ok(()),
    }
}

impl View for PatchTransaction {
    type V = PatchView;

    open spec fn view(&self) -> PatchView {
        PatchView {
            base: self.base,
            original: self.original@,
            patched: self.patched@,
            page: self.page,
            next: self.next,
            end: self.end,
            ranges: self.ranges@,
            phase: self.phase,
            failure: unless_failed(self.failure),
            unrestored: unless_failed(self.unrestored),
        }
    }
}

/// The protection that makes a page writable and keeps it executable.
pub open spec fn writable(protect: u32) -> u32 {
    if protect & EXECUTABLE_PROTECTION != 0 {
        PAGE_EXECUTE_READWRITE
    } else {
        PAGE_READWRITE
    }
}

/// A failed rollback leaves a modified target.
pub open spec fn rollback_failed(error: ErrorView) -> ErrorView {
    ErrorView::IatRollbackFailed.with_cleanup(error)
}

impl PatchView {
    /// The failure together with that of the protections.
    pub open spec fn result(self) -> std::result::Result<(), ErrorView> {
        combined(
            self.failure,
            match self.unrestored {
                Ok(_) => Ok(()),
                Err(error) => Err(ErrorView::ProtectionRestore(Box::new(error))),
            },
        )
    }

    /// Restore what is left of the protections.
    pub open spec fn restoring(self) -> PatchView {
        PatchView {
            phase: if self.ranges.len() == 0 {
                Phase::Finished
            } else {
                Phase::Restore
            },
            ..self
        }
    }

    /// Make the next page writable, or begin to write.
    pub open spec fn protecting(self) -> PatchView {
        PatchView {
            phase: if self.next < self.end {
                Phase::Query
            } else {
                Phase::Write
            },
            ..self
        }
    }

    /// Give up before anything was written.
    pub open spec fn abandoned(self, error: ErrorView) -> PatchView {
        PatchView { failure: Err(error), ..self }.restoring()
    }

    /// Give up after a write: the original bytes have to come back.
    pub open spec fn failed(self, error: ErrorView) -> PatchView {
        PatchView { failure: Err(error), phase: Phase::Rollback, ..self }
    }

    /// The rollback has ended.
    pub open spec fn rolled_back(self, rollback: std::result::Result<(), ErrorView>) -> PatchView {
        PatchView {
            failure: combined(
                self.failure,
                match rollback {
                    Ok(_) => Ok(()),
                    Err(error) => Err(rollback_failed(error)),
                },
            ),
            ..self
        }.restoring()
    }

    /// What the transaction asks for.
    pub open spec fn action(self) -> PatchAction {
        match self.phase {
            Phase::Query => PatchAction::Query(self.next),
            Phase::Protect(protection) => PatchAction::Protect {
                address: self.next,
                size: self.page,
                protection,
            },
            Phase::Write => PatchAction::WritePatched,
            Phase::Verify => PatchAction::Read,
            Phase::Rollback => PatchAction::WriteOriginal,
            Phase::VerifyRollback => PatchAction::Read,
            Phase::Restore => if self.ranges.len() == 0 {
                PatchAction::Finish
            } else {
                PatchAction::Restore {
                    address: self.ranges.last().address,
                    size: self.ranges.last().size,
                    protection: self.ranges.last().old,
                }
            },
            Phase::Finished => PatchAction::Finish,
        }
    }

    /// The state after an event. One that the transaction does not wait for
    /// changes nothing.
    pub open spec fn after(self, event: PatchEventView) -> PatchView {
        match (self.phase, event) {
            (Phase::Query, PatchEventView::Region(Ok(region))) => PatchView {
                phase: Phase::Protect(writable(region.protect)),
                ..self
            },
            (Phase::Query, PatchEventView::Region(Err(error))) => self.abandoned(error),
            (Phase::Protect(_), PatchEventView::Protected(Ok(old))) => PatchView {
                ranges: self.ranges.push(
                    Protection { address: self.next, size: self.page, old },
                ),
                next: if self.next + self.page <= self.end {
                    (self.next + self.page) as usize
                } else {
                    self.end
                },
                ..self
            }.protecting(),
            (Phase::Protect(_), PatchEventView::Protected(Err(error))) => self.abandoned(error),
            (Phase::Write, PatchEventView::Wrote(Ok(_))) => PatchView {
                phase: Phase::Verify,
                ..self
            },
            (Phase::Write, PatchEventView::Wrote(Err(error))) => self.failed(error),
            (Phase::Verify, PatchEventView::Read(Ok(bytes))) => if bytes == self.patched {
                self.restoring()
            } else {
                self.failed(ErrorView::Pe("header verification failed"@))
            },
            (Phase::Verify, PatchEventView::Read(Err(error))) => self.failed(error),
            (Phase::Rollback, PatchEventView::Wrote(Ok(_))) => PatchView {
                phase: Phase::VerifyRollback,
                ..self
            },
            (Phase::Rollback, PatchEventView::Wrote(Err(error))) => self.rolled_back(Err(error)),
            (Phase::VerifyRollback, PatchEventView::Read(Ok(bytes))) => self.rolled_back(
                if bytes == self.original {
                    Ok(())
                } else {
                    Err(ErrorView::Pe("rollback verification failed"@))
                },
            ),
            (Phase::VerifyRollback, PatchEventView::Read(Err(error))) => self.rolled_back(
                Err(error),
            ),
            (Phase::Restore, PatchEventView::Restored(result)) => if self.ranges.len() == 0 {
                self
            } else {
                PatchView {
                    ranges: self.ranges.drop_last(),
                    unrestored: combined(self.unrestored, result),
                    ..self
                }.restoring()
            },
            _ => self,
        }
    }
}

/// The pages that hold `len` bytes at `base`, and the first state.
pub open spec fn started(base: usize, original: Seq<u8>, patched: Seq<u8>, page: usize) -> std::result::Result<
    PatchView,
    ErrorView,
> {
    if original.len() != patched.len() {
        Err(ErrorView::Pe("patch and rollback sizes differ"@))
    } else if base + original.len() + (page - 1) > usize::MAX {
        Err(ErrorView::Pe("header protection overflow"@))
    } else {
        Ok(
            PatchView {
                base,
                original,
                patched,
                page,
                next: (base as int / page as int * page as int) as usize,
                end: ((base + original.len() + (page - 1)) / page as int * page as int) as usize,
                ranges: Seq::empty(),
                phase: Phase::Query,
                failure: Ok(()),
                unrestored: Ok(()),
            }.protecting(),
        )
    }
}

fn to_result(error: Option<Error>) -> (result: Result<()>)
    ensures
        outcome(result) == unless_failed(error),
{
    match error {
        Some(error) => Err(error),
        None => Ok(()),
    }
}

/// Both failures, if both are there.
fn joined(first: Option<Error>, second: Result<()>) -> (error: Option<Error>)
    ensures
        unless_failed(error) == combined(unless_failed(first), outcome(second)),
{
    match combine(to_result(first), second) {
        Ok(()) => None,
        Err(error) => Some(error),
    }
}

impl PatchTransaction {
    /// Begin to replace `original` at `base` by `patched`, on pages of `page` bytes.
    pub fn start(base: usize, original: Vec<u8>, patched: Vec<u8>, page: usize) -> (result: Result<
        Self,
    >)
        requires
            page > 0,
        ensures
            match started(base, original@, patched@, page) {
                Err(fault) => result matches Err(error) && error@ == fault,
                Ok(state) => result matches Ok(transaction) && transaction@ == state,
            },
    {
        if original.len() != patched.len() {
            return Err(pe("patch and rollback sizes differ"));
        }
        let len: usize = original.len();
        let last: usize = match base.checked_add(len) {
            None => return Err(pe("header protection overflow")),
            Some(past) => match past.checked_add(page - 1) {
                None => return Err(pe("header protection overflow")),
                Some(last) => last,
            },
        };
        proof {
            lemma_page_floor(base as int, page as int);
            lemma_page_floor(last as int, page as int);
        }
        let next: usize = base / page * page;
        let end: usize = last / page * page;
        let transaction = PatchTransaction {
            base,
            original,
            patched,
            page,
            next,
            end,
            ranges: Vec::new(),
            phase: if next < end {
                Phase::Query
            } else {
                Phase::Write
            },
            failure: None,
            unrestored: None,
        };
        Ok(transaction)
    }

    /// What to do next.
    pub fn action(&self) -> (action: PatchAction)
        ensures
            action == self@.action(),
    {
        match self.phase {
            Phase::Query => PatchAction::Query(self.next),
            Phase::Protect(protection) => PatchAction::Protect {
                address: self.next,
                size: self.page,
                protection,
            },
            Phase::Write => PatchAction::WritePatched,
            Phase::Verify => PatchAction::Read,
            Phase::Rollback => PatchAction::WriteOriginal,
            Phase::VerifyRollback => PatchAction::Read,
            Phase::Restore => if self.ranges.len() == 0 {
                PatchAction::Finish
            } else {
                let last = self.ranges[self.ranges.len() - 1];
                PatchAction::Restore {
                    address: last.address,
                    size: last.size,
                    protection: last.old,
                }
            },
            Phase::Finished => PatchAction::Finish,
        }
    }

    fn restoring(&mut self)
        ensures
            final(self)@ == old(self)@.restoring(),
    {
        self.phase = if self.ranges.len() == 0 {
            Phase::Finished
        } else {
            Phase::Restore
        };
    }

    fn protecting(&mut self)
        ensures
            final(self)@ == old(self)@.protecting(),
    {
        self.phase = if self.next < self.end {
            Phase::Query
        } else {
            Phase::Write
        };
    }

    fn failed(&mut self, error: Error)
        ensures
            final(self)@ == old(self)@.failed(error@),
    {
        self.failure = Some(error);
        self.phase = Phase::Rollback;
    }

    fn rolled_back(&mut self, rollback: Result<()>)
        ensures
            final(self)@ == old(self)@.rolled_back(outcome(rollback)),
    {
        let rollback = match rollback {
            Ok(()) => Ok(()),
            Err(error) => Err(Error::IatRollbackFailed.with_cleanup(error)),
        };
        self.failure = joined(self.failure.take(), rollback);
        self.restoring();
    }

    /// Take what came of the action.
    pub fn step(&mut self, event: PatchEvent)
        ensures
            final(self)@ == old(self)@.after(event@),
    {
        match (self.phase, event) {
            (Phase::Query, PatchEvent::Region(Ok(region))) => {
                let executable = region.protect & EXECUTABLE_PROTECTION != 0;
                self.phase = Phase::Protect(
                    if executable {
                        PAGE_EXECUTE_READWRITE
                    } else {
                        PAGE_READWRITE
                    },
                );
            },
            (Phase::Query, PatchEvent::Region(Err(error))) => {
                self.failure = Some(error);
                self.restoring();
            },
            (Phase::Protect(_), PatchEvent::Protected(Ok(old))) => {
                self.ranges.push(Protection { address: self.next, size: self.page, old });
                self.next = match self.next.checked_add(self.page) {
                    Some(next) => if next <= self.end {
                        next
                    } else {
                        self.end
                    },
                    None => self.end,
                };
                self.protecting();
            },
            (Phase::Protect(_), PatchEvent::Protected(Err(error))) => {
                self.failure = Some(error);
                self.restoring();
            },
            (Phase::Write, PatchEvent::Wrote(Ok(()))) => {
                self.phase = Phase::Verify;
            },
            (Phase::Write, PatchEvent::Wrote(Err(error))) => {
                self.failed(error);
            },
            (Phase::Verify, PatchEvent::Read(Ok(bytes))) => {
                if same_bytes(&bytes, &self.patched) {
                    self.restoring();
                } else {
                    self.failed(pe("header verification failed"));
                }
            },
            (Phase::Verify, PatchEvent::Read(Err(error))) => {
                self.failed(error);
            },
            (Phase::Rollback, PatchEvent::Wrote(Ok(()))) => {
                self.phase = Phase::VerifyRollback;
            },
            (Phase::Rollback, PatchEvent::Wrote(Err(error))) => {
                self.rolled_back(Err(error));
            },
            (Phase::VerifyRollback, PatchEvent::Read(Ok(bytes))) => {
                if same_bytes(&bytes, &self.original) {
                    self.rolled_back(Ok(()));
                } else {
                    self.rolled_back(Err(pe("rollback verification failed")));
                }
            },
            (Phase::VerifyRollback, PatchEvent::Read(Err(error))) => {
                self.rolled_back(Err(error));
            },
            (Phase::Restore, PatchEvent::Restored(result)) => {
                if self.ranges.len() > 0 {
                    let _ = self.ranges.pop();
                    self.unrestored = joined(self.unrestored.take(), result);
                    self.restoring();
                }
            },
            _ => {},
        }
    }

    /// The outcome: both the failure of the bytes and that of the protections.
    pub fn finish(self) -> (result: Result<()>)
        ensures
            outcome(result) == self@.result(),
    {
        let restore = match self.unrestored {
            None => Ok(()),
            Some(error) => Err(Error::ProtectionRestore(Box::new(error))),
        };
        combine(to_result(self.failure), restore)
    }
}

proof fn lemma_page_floor(address: int, page: int)
    requires
        0 <= address,
        0 < page,
    ensures
        0 <= address / page * page <= address,
        address - address / page * page < page,
{
    vstd::arithmetic::div_mod::lemma_fundamental_div_mod(address, page);
    vstd::arithmetic::div_mod::lemma_mod_bound(address, page);
    vstd::arithmetic::mul::lemma_mul_is_commutative(address / page, page);
    vstd::arithmetic::div_mod::lemma_div_pos_is_pos(address, page);
    vstd::arithmetic::mul::lemma_mul_nonnegative(page, address / page);
}

/// A transaction from its start on: while pages are made writable there is one
/// left, and a write that failed is remembered until the end.
pub open spec fn is_patching(patch: PatchView) -> bool {
    &&& patch.page > 0
    &&& patch.phase is Query || patch.phase is Protect ==> patch.next < patch.end
    &&& patch.phase is Restore ==> patch.ranges.len() > 0
    &&& patch.phase is Rollback || patch.phase is VerifyRollback ==> patch.failure is Err
}

/// An upper bound on the actions that a transaction still asks for.
pub open spec fn actions_left(patch: PatchView) -> int {
    let pages = patch.ranges.len() as int;
    match patch.phase {
        Phase::Query => 3 * (patch.end - patch.next) + pages + 8,
        Phase::Protect(_) => 3 * (patch.end - patch.next) + pages + 7,
        Phase::Write => pages + 5,
        Phase::Verify => pages + 4,
        Phase::Rollback => pages + 3,
        Phase::VerifyRollback => pages + 2,
        Phase::Restore => pages,
        Phase::Finished => 0,
    }
}

/// The event tells what came of the action that the transaction asks for.
pub open spec fn is_awaited(patch: PatchView, event: PatchEventView) -> bool {
    match patch.phase {
        Phase::Query => event is Region,
        Phase::Protect(_) => event is Protected,
        Phase::Write | Phase::Rollback => event is Wrote,
        Phase::Verify | Phase::VerifyRollback => event is Read,
        Phase::Restore => event is Restored,
        Phase::Finished => false,
    }
}

/// Every answered action brings a transaction closer to its end, so it ends
/// whatever the target answers, and it ends with every page restored.
pub proof fn transactions_end(patch: PatchView, event: PatchEventView)
    requires
        is_patching(patch),
        is_awaited(patch, event),
    ensures
        is_patching(patch.after(event)),
        0 <= actions_left(patch.after(event)) < actions_left(patch),
        patch.after(event).phase is Finished ==> patch.after(event).ranges.len() == 0,
{
}

/// A transaction begins as [`is_patching`] says.
pub proof fn transactions_begin(base: usize, original: Seq<u8>, patched: Seq<u8>, page: usize)
    requires
        page > 0,
        started(base, original, patched, page) is Ok,
    ensures
        is_patching(started(base, original, patched, page)->Ok_0),
{
}

/// The event ends a rollback that failed because of `cause`.
pub open spec fn fails_rollback(
    patch: PatchView,
    event: PatchEventView,
    cause: ErrorView,
) -> bool {
    match (patch.phase, event) {
        (Phase::Rollback, PatchEventView::Wrote(Err(error))) => cause == error,
        (Phase::VerifyRollback, PatchEventView::Read(Err(error))) => cause == error,
        (Phase::VerifyRollback, PatchEventView::Read(Ok(bytes))) => bytes != patch.original && cause
            == ErrorView::Pe("rollback verification failed"@),
        _ => false,
    }
}

/// A rollback that fails keeps the write that failed and the cause of its own
/// failure, and forbids resume.
pub proof fn failed_rollbacks_keep_every_cause(
    patch: PatchView,
    event: PatchEventView,
    write: ErrorView,
    cause: ErrorView,
)
    requires
        patch.failure == Err::<(), ErrorView>(write),
        fails_rollback(patch, event, cause),
    ensures
        patch.after(event).failure == Err::<(), ErrorView>(
            write.with_cleanup(ErrorView::IatRollbackFailed.with_cleanup(cause)),
        ),
        forbids_resume(patch.after(event).result()),
{
    let end = patch.after(event);
    let rollback = Err::<(), ErrorView>(rollback_failed(cause));
    combine_keeps_recovery_facts(patch.failure, rollback);
    assert(forbids_resume(rollback)) by {
        reveal_with_fuel(ErrorView::must_not_resume, 3);
    }
    let restore: std::result::Result<(), ErrorView> = match end.unrestored {
        Ok(_) => Ok(()),
        Err(error) => Err(ErrorView::ProtectionRestore(Box::new(error))),
    };
    combine_keeps_recovery_facts(end.failure, restore);
}

} // verus!
