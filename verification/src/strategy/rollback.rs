//! What a header transaction, and a commit of two of them, leave behind.
//!
//! The memory of a target is modelled by the bytes of the patched region and
//! the protection of every page. A run of a transaction is a row of events
//! with the memory after each of them. Nothing is taken for granted of a
//! write: it may leave any bytes, whatever it reports. Reads are truthful, and
//! protection calls do what they report.

use crate::error::{combine_keeps_recovery_facts, ErrorView};
use crate::pe::layout::{le32, le32_bytes};
use crate::strategy::commit::{
    cleared, commit_start, failed_undo_forbids_resume, CommitAction, CommitEventView, CommitPhase,
    CommitView,
};
use crate::strategy::import_table::{ClrHeader, COR_FLAG_ILONLY};
use crate::strategy::patch::{
    rollback_failed, started, PatchAction, PatchEventView, PatchView, Phase, Protection,
};
use vstd::prelude::*;

verus! {

/// The bytes of the patched region, and the protection of the page at each address.
pub struct Memory {
    pub bytes: Seq<u8>,
    pub protection: spec_fn(usize) -> u32,
}

/// `after` has the protections of `before`, except that of the page at `address`.
pub open spec fn only_page_changed(before: Memory, after: Memory, address: usize) -> bool {
    forall|p: usize| p != address ==> #[trigger] (after.protection)(p) == (before.protection)(p)
}

/// `event` and the memory `after` it can come of what `state` asks for.
pub open spec fn can_follow(
    state: PatchView,
    before: Memory,
    event: PatchEventView,
    after: Memory,
) -> bool {
    match state.action() {
        PatchAction::Query(_) => event is Region && after == before,
        PatchAction::Protect { address, protection, .. } => match event {
            PatchEventView::Protected(Ok(old)) => {
                &&& old == (before.protection)(address)
                &&& (after.protection)(address) == protection
                &&& only_page_changed(before, after, address)
                &&& after.bytes == before.bytes
            },
            PatchEventView::Protected(Err(_)) => after == before,
            _ => false,
        },
        PatchAction::WritePatched | PatchAction::WriteOriginal => {
            event is Wrote && after.protection == before.protection
        },
        PatchAction::Read => {
            &&& event is Read
            &&& after == before
            &&& event matches PatchEventView::Read(Ok(bytes)) ==> bytes == before.bytes
        },
        PatchAction::Restore { address, protection, .. } => {
            &&& event is Restored
            &&& after.bytes == before.bytes
            &&& only_page_changed(before, after, address)
            &&& event matches PatchEventView::Restored(Ok(_)) ==> (after.protection)(address)
                == protection
        },
        PatchAction::Finish => false,
    }
}

/// One event, and the memory after it.
pub struct Moment {
    pub event: PatchEventView,
    pub memory: Memory,
}

/// `moments` are a run of the transaction from `state` in `memory`.
pub open spec fn is_run(state: PatchView, memory: Memory, moments: Seq<Moment>) -> bool
    decreases moments.len(),
{
    moments.len() == 0 || {
        &&& can_follow(state, memory, moments[0].event, moments[0].memory)
        &&& is_run(state.after(moments[0].event), moments[0].memory, moments.skip(1))
    }
}

/// The state at the end of a run.
pub open spec fn last_state(state: PatchView, moments: Seq<Moment>) -> PatchView
    decreases moments.len(),
{
    if moments.len() == 0 {
        state
    } else {
        last_state(state.after(moments[0].event), moments.skip(1))
    }
}

/// The memory at the end of a run.
pub open spec fn last_memory(memory: Memory, moments: Seq<Moment>) -> Memory {
    if moments.len() == 0 {
        memory
    } else {
        moments.last().memory
    }
}

/// The page at `address` was made writable and not restored yet.
spec fn is_open(ranges: Seq<Protection>, address: usize) -> bool {
    exists|i: int| 0 <= i < ranges.len() && (#[trigger] ranges[i]).address == address
}

/// Every page that is not open has the protection it had at first, and the
/// open ones are on record with it.
spec fn protections_recorded(state: PatchView, memory: Memory, first: Memory) -> bool {
    &&& forall|p: usize|
        !is_open(state.ranges, p) ==> #[trigger] (memory.protection)(p) == (first.protection)(p)
    &&& forall|i: int|
        0 <= i < state.ranges.len() ==> (#[trigger] state.ranges[i]).old == (first.protection)(
            state.ranges[i].address,
        )
}

/// What holds in every state of a run that began in `first`.
spec fn holds(state: PatchView, memory: Memory, first: Memory) -> bool {
    &&& forall|i: int, j: int|
        0 <= i < j < state.ranges.len() ==> (#[trigger] state.ranges[i]).address < (
        #[trigger] state.ranges[j]).address
    &&& state.unrestored is Ok ==> protections_recorded(state, memory, first)
    &&& match state.phase {
        Phase::Query | Phase::Protect(_) => {
            &&& state.failure is Ok
            &&& state.unrestored is Ok
            &&& memory.bytes == state.original
            &&& state.next < state.end
            &&& state.page > 0
            &&& forall|i: int|
                0 <= i < state.ranges.len() ==> (#[trigger] state.ranges[i]).address < state.next
        },
        Phase::Write => {
            &&& state.failure is Ok
            &&& state.unrestored is Ok
            &&& memory.bytes == state.original
        },
        Phase::Verify => state.failure is Ok && state.unrestored is Ok,
        Phase::Rollback | Phase::VerifyRollback => state.failure is Err && state.unrestored is Ok,
        Phase::Restore | Phase::Finished => {
            &&& state.failure is Ok ==> memory.bytes == state.patched
            &&& state.failure matches Err(error) ==> memory.bytes == state.original
                || error.must_not_resume()
            &&& state.phase is Finished ==> state.ranges.len() == 0
        },
    }
}

proof fn lemma_no_page_open(ranges: Seq<Protection>)
    requires
        ranges.len() == 0,
    ensures
        forall|p: usize| !#[trigger] is_open(ranges, p),
{
}

proof fn lemma_step_keeps(
    state: PatchView,
    memory: Memory,
    first: Memory,
    event: PatchEventView,
    after: Memory,
)
    requires
        holds(state, memory, first),
        can_follow(state, memory, event, after),
    ensures
        holds(state.after(event), after, first),
        state.after(event).original == state.original,
        state.after(event).patched == state.patched,
{
    let next = state.after(event);
    match state.phase {
        Phase::Query => {},
        Phase::Protect(protection) => {
            match event {
                PatchEventView::Protected(Ok(old)) => {
                    let page = state.next;
                    assert(!is_open(state.ranges, page));
                    assert forall|p: usize| !is_open(next.ranges, p) implies #[trigger] (
                    after.protection)(p) == (first.protection)(p) by {
                        assert(next.ranges[next.ranges.len() - 1].address == page);
                        if p != page {
                            assert(!is_open(state.ranges, p)) by {
                                if is_open(state.ranges, p) {
                                    let i = choose|i: int|
                                        0 <= i < state.ranges.len() && (
                                        #[trigger] state.ranges[i]).address == p;
                                    assert(next.ranges[i].address == p);
                                }
                            }
                        }
                    }
                },
                _ => {},
            }
        },
        Phase::Write => {},
        Phase::Verify => {},
        Phase::Rollback => {
            match event {
                PatchEventView::Wrote(Err(error)) => {
                    lemma_rollback_forbids(state.failure, error);
                },
                _ => {},
            }
        },
        Phase::VerifyRollback => {
            match event {
                PatchEventView::Read(Ok(bytes)) => {
                    if bytes != state.original {
                        lemma_rollback_forbids(
                            state.failure,
                            ErrorView::Pe("rollback verification failed"@),
                        );
                    }
                },
                PatchEventView::Read(Err(error)) => {
                    lemma_rollback_forbids(state.failure, error);
                },
                _ => {},
            }
        },
        Phase::Restore => {
            if state.ranges.len() > 0 {
                let last = state.ranges.last();
                if next.unrestored is Ok {
                    assert forall|p: usize| !is_open(next.ranges, p) implies #[trigger] (
                    after.protection)(p) == (first.protection)(p) by {
                        if p == last.address {
                            assert(state.ranges[state.ranges.len() - 1].old == (first.protection)(
                                p,
                            ));
                        } else {
                            assert(!is_open(state.ranges, p)) by {
                                if is_open(state.ranges, p) {
                                    let i = choose|i: int|
                                        0 <= i < state.ranges.len() && (
                                        #[trigger] state.ranges[i]).address == p;
                                    assert(next.ranges[i].address == p);
                                }
                            }
                        }
                    }
                }
            }
        },
        Phase::Finished => {},
    }
}

/// A failed rollback makes any failure forbid resume.
proof fn lemma_rollback_forbids(failure: std::result::Result<(), ErrorView>, error: ErrorView)
    requires
        failure is Err,
    ensures
        crate::error::combined(failure, Err::<(), ErrorView>(rollback_failed(error))) matches Err(
            both,
        ) && both.must_not_resume(),
{
    combine_keeps_recovery_facts(failure, Err::<(), ErrorView>(rollback_failed(error)));
    reveal_with_fuel(ErrorView::must_not_resume, 2);
}

proof fn lemma_run_keeps(state: PatchView, memory: Memory, first: Memory, moments: Seq<Moment>)
    requires
        holds(state, memory, first),
        is_run(state, memory, moments),
    ensures
        holds(last_state(state, moments), last_memory(memory, moments), first),
        last_state(state, moments).original == state.original,
        last_state(state, moments).patched == state.patched,
    decreases moments.len(),
{
    if moments.len() > 0 {
        let next = state.after(moments[0].event);
        lemma_step_keeps(state, memory, first, moments[0].event, moments[0].memory);
        lemma_run_keeps(next, moments[0].memory, first, moments.skip(1));
        if moments.len() > 1 {
            assert(moments.skip(1).last() == moments.last());
        }
    }
}

/// A finished transaction has changed the target completely or not at all,
/// unless its outcome forbids resume: after success the region holds the new
/// bytes, after any other failure the original ones, and in both cases every
/// page has the protection it had at first.
pub proof fn transaction_is_atomic(
    base: usize,
    original: Seq<u8>,
    patched: Seq<u8>,
    page: usize,
    first: Memory,
    moments: Seq<Moment>,
)
    requires
        page > 0,
        started(base, original, patched, page) is Ok,
        first.bytes == original,
        is_run(started(base, original, patched, page)->Ok_0, first, moments),
        last_state(started(base, original, patched, page)->Ok_0, moments).phase is Finished,
    ensures
        ({
            let last = last_memory(first, moments);
            match last_state(started(base, original, patched, page)->Ok_0, moments).result() {
                Ok(_) => last.bytes == patched && forall|p: usize|
                    #[trigger] (last.protection)(p) == (first.protection)(p),
                Err(error) => !error.must_not_resume() ==> last.bytes == original && forall|p: usize|
                    #[trigger] (last.protection)(p) == (first.protection)(p),
            }
        }),
        patch_leaves(
            last_state(started(base, original, patched, page)->Ok_0, moments).result(),
            original,
            patched,
            last_memory(first, moments).bytes,
        ),
{
    let state = started(base, original, patched, page)->Ok_0;
    lemma_no_page_open(state.ranges);
    lemma_run_keeps(state, first, first, moments);
    let end = last_state(state, moments);
    lemma_no_page_open(end.ranges);
    let restore: std::result::Result<(), ErrorView> = match end.unrestored {
        Ok(_) => Ok(()),
        Err(error) => Err(ErrorView::ProtectionRestore(Box::new(error))),
    };
    combine_keeps_recovery_facts(end.failure, restore);
    reveal_with_fuel(ErrorView::must_not_resume, 2);
}

/// What a transaction over one region leaves of `before`: the new bytes after
/// success, and `before` after a failure that does not forbid resume. This is
/// what [`transaction_is_atomic`] says of it.
pub open spec fn patch_leaves(
    result: std::result::Result<(), ErrorView>,
    before: Seq<u8>,
    patched: Seq<u8>,
    after: Seq<u8>,
) -> bool {
    match result {
        Ok(_) => after == patched,
        Err(error) => error.must_not_resume() || after == before,
    }
}

/// The two regions that a commit changes: the image headers and the CLR flags.
pub struct Regions {
    pub headers: Seq<u8>,
    pub flags: Seq<u8>,
}

/// `event` and the regions `after` it can come of what a commit from `original`
/// to `patched` headers asks for.
pub open spec fn commit_can_follow(
    commit: CommitView,
    original: Seq<u8>,
    patched: Seq<u8>,
    before: Regions,
    event: CommitEventView,
    after: Regions,
) -> bool {
    match (commit.action(), event) {
        (CommitAction::PatchHeaders, CommitEventView::Patched(result)) => after.flags
            == before.flags && patch_leaves(result, before.headers, patched, after.headers),
        (CommitAction::ReadFlags(_), CommitEventView::Read(result)) => after == before && (
        result matches Ok(bytes) ==> bytes == before.flags),
        (CommitAction::PatchFlags(_), CommitEventView::Patched(result)) => after.headers
            == before.headers && patch_leaves(
            result,
            before.flags,
            le32_bytes(cleared(commit.flags)),
            after.flags,
        ),
        (CommitAction::UndoHeaders, CommitEventView::Patched(result)) => after.flags
            == before.flags && patch_leaves(result, before.headers, original, after.headers),
        _ => false,
    }
}

/// One event of a commit, and the regions after it.
pub struct CommitMoment {
    pub event: CommitEventView,
    pub regions: Regions,
}

/// `moments` are a run of the commit from `original` to `patched` headers.
pub open spec fn is_commit_run(
    commit: CommitView,
    original: Seq<u8>,
    patched: Seq<u8>,
    regions: Regions,
    moments: Seq<CommitMoment>,
) -> bool
    decreases moments.len(),
{
    moments.len() == 0 || {
        &&& commit_can_follow(
            commit,
            original,
            patched,
            regions,
            moments[0].event,
            moments[0].regions,
        )
        &&& is_commit_run(
            commit.after(moments[0].event),
            original,
            patched,
            moments[0].regions,
            moments.skip(1),
        )
    }
}

/// The commit at the end of a run.
pub open spec fn last_commit(commit: CommitView, moments: Seq<CommitMoment>) -> CommitView
    decreases moments.len(),
{
    if moments.len() == 0 {
        commit
    } else {
        last_commit(commit.after(moments[0].event), moments.skip(1))
    }
}

/// The regions at the end of a run.
pub open spec fn last_regions(regions: Regions, moments: Seq<CommitMoment>) -> Regions {
    if moments.len() == 0 {
        regions
    } else {
        moments.last().regions
    }
}

/// The image is pure IL.
pub open spec fn is_pure_il(clr: Option<ClrHeader>) -> bool {
    clr matches Some(clr) && clr.flags & COR_FLAG_ILONLY != 0
}

/// What holds in every state of a commit that began in `first`.
spec fn commit_keeps(
    commit: CommitView,
    patched: Seq<u8>,
    first: Regions,
    regions: Regions,
) -> bool {
    match commit.phase {
        CommitPhase::Headers => commit.failure is Ok && regions == first,
        CommitPhase::ReadFlags(_) => {
            &&& commit.failure is Ok
            &&& is_pure_il(commit.clr)
            &&& regions == (Regions { headers: patched, flags: first.flags })
        },
        CommitPhase::Flags(_) => {
            &&& commit.failure is Ok
            &&& is_pure_il(commit.clr)
            &&& regions == (Regions { headers: patched, flags: first.flags })
            &&& commit.flags == le32(first.flags, 0)
        },
        CommitPhase::Undo => commit.failure matches Err(error) && (error.must_not_resume()
            || regions.flags == first.flags),
        CommitPhase::Finished => match commit.failure {
            Ok(_) => regions == committed(commit.clr, patched, first),
            Err(error) => error.must_not_resume() || regions == first,
        },
    }
}

/// The regions after a commit: the new headers and, for a pure-IL image, the
/// flags without their pure-IL mark.
pub open spec fn committed(clr: Option<ClrHeader>, patched: Seq<u8>, first: Regions) -> Regions {
    Regions {
        headers: patched,
        flags: if is_pure_il(clr) {
            le32_bytes(cleared(le32(first.flags, 0)))
        } else {
            first.flags
        },
    }
}

proof fn lemma_commit_step(
    commit: CommitView,
    patched: Seq<u8>,
    first: Regions,
    before: Regions,
    event: CommitEventView,
    after: Regions,
)
    requires
        commit_keeps(commit, patched, first, before),
        commit_can_follow(commit, first.headers, patched, before, event, after),
    ensures
        commit_keeps(commit.after(event), patched, first, after),
        commit.after(event).clr == commit.clr,
{
    match (commit.phase, event) {
        (CommitPhase::Undo, CommitEventView::Patched(result)) => {
            failed_undo_forbids_resume(commit, result);
        },
        _ => {},
    }
}

proof fn lemma_commit_run(
    commit: CommitView,
    patched: Seq<u8>,
    first: Regions,
    regions: Regions,
    moments: Seq<CommitMoment>,
)
    requires
        commit_keeps(commit, patched, first, regions),
        is_commit_run(commit, first.headers, patched, regions, moments),
    ensures
        commit_keeps(
            last_commit(commit, moments),
            patched,
            first,
            last_regions(regions, moments),
        ),
        last_commit(commit, moments).clr == commit.clr,
    decreases moments.len(),
{
    if moments.len() > 0 {
        let next = commit.after(moments[0].event);
        lemma_commit_step(
            commit,
            patched,
            first,
            regions,
            moments[0].event,
            moments[0].regions,
        );
        lemma_commit_run(next, patched, first, moments[0].regions, moments.skip(1));
        if moments.len() > 1 {
            assert(moments.skip(1).last() == moments.last());
        }
    }
}

/// A finished commit has changed both regions or neither, unless its outcome
/// forbids resume: after success the image has the new headers and, if it is
/// pure IL, flags that do not say so; after any other failure both regions are
/// as they were.
pub proof fn commits_are_atomic(
    clr: Option<ClrHeader>,
    patched: Seq<u8>,
    first: Regions,
    moments: Seq<CommitMoment>,
)
    requires
        is_commit_run(commit_start(clr), first.headers, patched, first, moments),
        last_commit(commit_start(clr), moments).phase is Finished,
    ensures
        match last_commit(commit_start(clr), moments).failure {
            Ok(_) => last_regions(first, moments) == committed(clr, patched, first),
            Err(error) => !error.must_not_resume() ==> last_regions(first, moments) == first,
        },
{
    lemma_commit_run(commit_start(clr), patched, first, first, moments);
}

} // verus!
