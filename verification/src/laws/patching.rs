//! How header bytes in a target are replaced, checked and put back.

use crate::error::{combine_keeps_recovery_facts, forbids_resume, ErrorView};
use crate::injector::{InjectedModule, LoadTiming};
use crate::laws::bytes::{dword, fields_are_little_endian, values_are_little_endian};
use crate::remote::memory::Region;
use crate::strategy::commit::{
    commit_start, fate_of, finished_injection, Commit, CommitAction, CommitEventView, CommitPhase,
    CommitView, Fate,
};
use crate::strategy::import_table::ClrHeader;
use crate::strategy::patch::{started, PatchAction, PatchEventView, PatchView, Protection};
use vstd::prelude::*;

verus! {

proof fn lemma_floor(address: int, page: int)
    requires
        0 <= address,
        0 < page,
    ensures
        0 <= address / page * page <= address < address / page * page + page,
        (address / page * page) % page == 0,
{
    vstd::arithmetic::div_mod::lemma_fundamental_div_mod(address, page);
    vstd::arithmetic::div_mod::lemma_mod_bound(address, page);
    vstd::arithmetic::mul::lemma_mul_is_commutative(address / page, page);
    vstd::arithmetic::div_mod::lemma_div_pos_is_pos(address, page);
    vstd::arithmetic::mul::lemma_mul_nonnegative(page, address / page);
    vstd::arithmetic::div_mod::lemma_mod_multiples_basic(address / page, page);
}

/// Bytes are replaced by as many others, on the pages that hold them: from the
/// page of the first byte through that of the last.
pub proof fn patches_cover_their_pages(
    base: usize,
    original: Seq<u8>,
    patched: Seq<u8>,
    page: usize,
)
    requires
        page > 0,
    ensures
        started(base, original, patched, page) is Ok <==> original.len() == patched.len() && base
            + original.len() + page - 1 <= usize::MAX,
        started(base, original, patched, page) matches Ok(patch) ==> {
            &&& patch.base == base
            &&& patch.original == original
            &&& patch.patched == patched
            &&& patch.page == page
            &&& patch.next as int % page as int == 0
            &&& patch.next <= base < patch.next + page
            &&& patch.end as int % page as int == 0
            &&& base + original.len() <= patch.end < base + original.len() + page
            &&& patch.ranges.len() == 0
            &&& patch.failure is Ok
            &&& patch.unrestored is Ok
            &&& patch.action() == if patch.next < patch.end {
                PatchAction::Query(patch.next)
            } else {
                PatchAction::WritePatched
            }
        },
{
    lemma_floor(base as int, page as int);
    if base + original.len() + page - 1 <= usize::MAX {
        lemma_floor(base + original.len() + (page - 1), page as int);
    }
}

/// A page becomes writable, and stays executable if it was.
pub proof fn pages_become_writable(patch: PatchView, region: Region)
    requires
        patch.phase is Query,
    ensures
        ({
            let next = patch.after(PatchEventView::Region(Ok(region)));
            &&& next.action() == PatchAction::Protect {
                address: patch.next,
                size: patch.page,
                protection: if region.protect & 0xf0 != 0 {
                    0x40
                } else {
                    0x4
                },
            }
            &&& next.next == patch.next
            &&& next.end == patch.end
            &&& next.page == patch.page
            &&& next.ranges == patch.ranges
            &&& next.original == patch.original
            &&& next.patched == patch.patched
            &&& next.failure == patch.failure
            &&& next.unrestored == patch.unrestored
        }),
{
}

/// A page that was made writable is remembered with the protection it had, and
/// the next page follows. The new bytes are written once there is none.
pub proof fn opened_pages_are_remembered(patch: PatchView, old: u32)
    requires
        patch.phase is Protect,
        patch.next + patch.page <= patch.end,
    ensures
        ({
            let n = patch.ranges.len();
            let next = patch.after(PatchEventView::Protected(Ok(old)));
            &&& next.ranges.len() == n + 1
            &&& next.ranges[n as int] == (Protection {
                address: patch.next,
                size: patch.page,
                old,
            })
            &&& forall|i: int| 0 <= i < n ==> next.ranges[i] == patch.ranges[i]
            &&& next.next == patch.next + patch.page
            &&& next.end == patch.end
            &&& next.page == patch.page
            &&& next.original == patch.original
            &&& next.patched == patch.patched
            &&& next.failure == patch.failure
            &&& next.unrestored == patch.unrestored
            &&& next.action() == if patch.next + patch.page < patch.end {
                PatchAction::Query((patch.next + patch.page) as usize)
            } else {
                PatchAction::WritePatched
            }
        }),
{
}

/// `next` restores what is left of the protections, the last page first.
pub open spec fn restores(patch: PatchView, ranges: Seq<Protection>, next: PatchView) -> bool {
    &&& next.ranges == ranges
    &&& next.original == patch.original
    &&& next.patched == patch.patched
    &&& next.action() == if ranges.len() == 0 {
        PatchAction::Finish
    } else {
        PatchAction::Restore {
            address: ranges[ranges.len() - 1].address,
            size: ranges[ranges.len() - 1].size,
            protection: ranges[ranges.len() - 1].old,
        }
    }
}

/// A page that cannot be queried or made writable ends the patch before
/// anything is written, and the pages before it are restored.
pub proof fn closed_pages_end_the_patch(patch: PatchView, error: ErrorView)
    ensures
        patch.phase is Query ==> {
            let next = patch.after(PatchEventView::Region(Err(error)));
            restores(patch, patch.ranges, next) && next.failure == Err::<(), ErrorView>(error)
                && next.unrestored == patch.unrestored
        },
        patch.phase is Protect ==> {
            let next = patch.after(PatchEventView::Protected(Err(error)));
            restores(patch, patch.ranges, next) && next.failure == Err::<(), ErrorView>(error)
                && next.unrestored == patch.unrestored
        },
{
}

/// Bytes that were written are read back. They stay exactly when all of them
/// are the new ones; after every other answer the original bytes are written.
pub proof fn written_bytes_are_read_back(patch: PatchView, bytes: Seq<u8>, error: ErrorView)
    ensures
        patch.phase is Write ==> {
            let wrote = patch.after(PatchEventView::Wrote(Ok(())));
            let unwritten = patch.after(PatchEventView::Wrote(Err(error)));
            &&& wrote.action() == PatchAction::Read
            &&& wrote.phase is Verify
            &&& wrote.patched == patch.patched
            &&& wrote.original == patch.original
            &&& wrote.ranges == patch.ranges
            &&& wrote.failure == patch.failure
            &&& wrote.unrestored == patch.unrestored
            &&& unwritten.action() == PatchAction::WriteOriginal
            &&& unwritten.failure == Err::<(), ErrorView>(error)
            &&& unwritten.ranges == patch.ranges
        },
        patch.phase is Verify ==> {
            let read = patch.after(PatchEventView::Read(Ok(bytes)));
            let unread = patch.after(PatchEventView::Read(Err(error)));
            &&& bytes == patch.patched ==> restores(patch, patch.ranges, read) && read.failure
                == patch.failure && read.unrestored == patch.unrestored
            &&& bytes != patch.patched ==> read.action() == PatchAction::WriteOriginal
                && read.failure == Err::<(), ErrorView>(
                ErrorView::Pe("header verification failed"@),
            ) && read.ranges == patch.ranges
            &&& unread.action() == PatchAction::WriteOriginal
            &&& unread.failure == Err::<(), ErrorView>(error)
            &&& unread.ranges == patch.ranges
        },
{
}

/// Original bytes that were written back are read too. Where all of them are
/// there, the failure is the one that made them come back; in every other case
/// it forbids resume. The protections are restored either way.
pub proof fn original_bytes_are_read_back(
    patch: PatchView,
    first: ErrorView,
    bytes: Seq<u8>,
    error: ErrorView,
)
    requires
        patch.failure == Err::<(), ErrorView>(first),
    ensures
        patch.phase is Rollback ==> {
            let wrote = patch.after(PatchEventView::Wrote(Ok(())));
            let unwritten = patch.after(PatchEventView::Wrote(Err(error)));
            &&& wrote.action() == PatchAction::Read
            &&& wrote.phase is VerifyRollback
            &&& wrote.failure == patch.failure
            &&& wrote.original == patch.original
            &&& wrote.ranges == patch.ranges
            &&& restores(patch, patch.ranges, unwritten)
            &&& forbids_resume(unwritten.failure)
        },
        patch.phase is VerifyRollback ==> {
            let read = patch.after(PatchEventView::Read(Ok(bytes)));
            let unread = patch.after(PatchEventView::Read(Err(error)));
            &&& restores(patch, patch.ranges, read)
            &&& bytes == patch.original ==> read.failure == patch.failure
            &&& bytes != patch.original ==> forbids_resume(read.failure)
            &&& restores(patch, patch.ranges, unread)
            &&& forbids_resume(unread.failure)
        },
{
    let failed = ErrorView::IatRollbackFailed.with_cleanup(error);
    let unverified = ErrorView::IatRollbackFailed.with_cleanup(
        ErrorView::Pe("rollback verification failed"@),
    );
    reveal_with_fuel(ErrorView::must_not_resume, 3);
    combine_keeps_recovery_facts(patch.failure, Err::<(), ErrorView>(failed));
    combine_keeps_recovery_facts(patch.failure, Err::<(), ErrorView>(unverified));
}

/// Each page gets its own protection back, the last one first, whether or not
/// one before it could be restored, and every failure is kept.
pub proof fn pages_are_restored_in_turn(
    patch: PatchView,
    result: std::result::Result<(), ErrorView>,
)
    requires
        patch.phase is Restore,
        patch.ranges.len() > 0,
    ensures
        ({
            let next = patch.after(PatchEventView::Restored(result));
            let n = patch.ranges.len() - 1;
            &&& patch.action() == PatchAction::Restore {
                address: patch.ranges[n].address,
                size: patch.ranges[n].size,
                protection: patch.ranges[n].old,
            }
            &&& next.ranges.len() == n
            &&& forall|i: int| 0 <= i < n ==> next.ranges[i] == patch.ranges[i]
            &&& restores(patch, next.ranges, next)
            &&& next.failure == patch.failure
            &&& next.unrestored == match (patch.unrestored, result) {
                (Ok(_), Ok(_)) => Ok::<(), ErrorView>(()),
                (Ok(_), Err(second)) => Err(second),
                (Err(first), Ok(_)) => Err(first),
                (Err(first), Err(second)) => Err(first.with_cleanup(second)),
            }
        }),
{
}

/// A patch succeeds exactly when its bytes are there and every page has its
/// protection back. A protection that is not back forbids resume.
pub proof fn patches_succeed_as_a_whole(patch: PatchView)
    ensures
        patch.result() is Ok <==> patch.failure is Ok && patch.unrestored is Ok,
        patch.unrestored is Ok ==> patch.result() == patch.failure,
        patch.failure is Ok && patch.unrestored is Err ==> patch.result() == Err::<(), ErrorView>(
            ErrorView::ProtectionRestore(Box::new(patch.unrestored->Err_0)),
        ),
        patch.unrestored is Err ==> forbids_resume(patch.result()),
        forbids_resume(patch.failure) ==> forbids_resume(patch.result()),
{
    reveal_with_fuel(ErrorView::must_not_resume, 3);
    let restore: std::result::Result<(), ErrorView> = match patch.unrestored {
        Ok(_) => Ok(()),
        Err(error) => Err(ErrorView::ProtectionRestore(Box::new(error))),
    };
    combine_keeps_recovery_facts(patch.failure, restore);
}

/// A commit patches the headers. Of an image that is not pure IL it is done
/// then; of a pure-IL image it goes on with the flags, 16 bytes into the CLR
/// header.
pub proof fn commits_patch_headers_first(clr: Option<ClrHeader>, error: ErrorView)
    ensures
        ({
            let start = commit_start(clr);
            let patched = start.after(CommitEventView::Patched(Ok(())));
            let refused = start.after(CommitEventView::Patched(Err(error)));
            &&& start.action() == CommitAction::PatchHeaders
            &&& start.failure is Ok
            &&& refused.action() == CommitAction::Finish
            &&& refused.failure == Err::<(), ErrorView>(error)
            &&& if clr is None || clr->0.flags & 1 == 0 {
                patched.action() == CommitAction::Finish && patched.failure is Ok
            } else if clr->0.va + 16 > usize::MAX {
                patched.action() == CommitAction::UndoHeaders && patched.failure is Err
            } else {
                &&& patched.action() == CommitAction::ReadFlags((clr->0.va + 16) as usize)
                &&& patched.failure is Ok
                &&& patched.clr == clr
            }
        }),
{
}

/// Flags that were read whole are patched where they were read. Every failure
/// from there on has the headers patched back.
pub proof fn commits_patch_flags_where_they_were_read(
    commit: CommitView,
    address: usize,
    bytes: Seq<u8>,
    error: ErrorView,
)
    ensures
        commit.phase == CommitPhase::ReadFlags(address) ==> {
            let read = commit.after(CommitEventView::Read(Ok(bytes)));
            let unread = commit.after(CommitEventView::Read(Err(error)));
            &&& bytes.len() >= 4 ==> read.action() == CommitAction::PatchFlags(address)
                && read.flags == dword(bytes, 0) && read.failure == commit.failure
            &&& bytes.len() < 4 ==> read.action() == CommitAction::UndoHeaders && read.failure is Err
            &&& unread.action() == CommitAction::UndoHeaders
            &&& unread.failure == Err::<(), ErrorView>(error)
        },
        commit.phase == CommitPhase::Flags(address) ==> {
            let done = commit.after(CommitEventView::Patched(Ok(())));
            let refused = commit.after(CommitEventView::Patched(Err(error)));
            &&& done.action() == CommitAction::Finish
            &&& done.failure == commit.failure
            &&& refused.action() == CommitAction::UndoHeaders
            &&& refused.failure == Err::<(), ErrorView>(error)
        },
{
    fields_are_little_endian(bytes, 0);
}

/// Headers that were patched back leave the failure that made it necessary.
/// Where they were not, the outcome forbids resume.
pub proof fn commits_end_undone(
    commit: CommitView,
    first: ErrorView,
    result: std::result::Result<(), ErrorView>,
)
    requires
        commit.phase is Undo,
        commit.failure == Err::<(), ErrorView>(first),
    ensures
        ({
            let end = commit.after(CommitEventView::Patched(result));
            &&& end.action() == CommitAction::Finish
            &&& result is Ok ==> end.failure == Err::<(), ErrorView>(first)
            &&& result is Err ==> forbids_resume(end.failure)
        }),
{
    reveal_with_fuel(ErrorView::must_not_resume, 3);
    if let Err(error) = result {
        combine_keeps_recovery_facts(
            commit.failure,
            Err::<(), ErrorView>(ErrorView::IatRollbackFailed.with_cleanup(error)),
        );
    }
}

/// The flags lose their lowest bit and nothing else.
pub proof fn only_the_lowest_flag_is_cleared(commit: &Commit, pair: (Vec<u8>, Vec<u8>))
    requires
        call_ensures(Commit::flag_bytes, (commit,), pair),
    ensures
        pair.0@.len() == 4,
        pair.1@.len() == 4,
        dword(pair.0@, 0) == commit.flags,
        dword(pair.1@, 0) == commit.flags - commit.flags % 2,
{
    let flags = commit.flags;
    assert(flags & !1u32 == flags - flags % 2) by (bit_vector);
    values_are_little_endian(0, flags, 0);
    values_are_little_endian(0, flags & !1u32, 0);
}

/// The import block stays in a target that refers to it or may do so, and the
/// injection is answered with a load on resume exactly after a commit.
pub proof fn import_blocks_stay_where_they_are_used(
    result: std::result::Result<(), ErrorView>,
    release: std::result::Result<(), ErrorView>,
)
    ensures
        fate_of(result) == Fate::Release <==> (result is Err && !forbids_resume(result)),
        result is Ok ==> finished_injection(result, release) == Ok::<InjectedModule, ErrorView>(
            InjectedModule { module: None, timing: LoadTiming::OnResume },
        ),
        result matches Err(error) ==> finished_injection(result, release) == Err::<
            InjectedModule,
            ErrorView,
        >(
            if forbids_resume(result) || release is Ok {
                error
            } else {
                error.with_cleanup(release->Err_0)
            },
        ),
{
}

} // verus!
