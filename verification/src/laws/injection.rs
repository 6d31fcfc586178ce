//! Which strategy runs on which target, and what failures mean.

use crate::error::{combined, Error, ErrorView, Result};
use crate::injector::{gate_of, injection_of, InjectedModule, InjectionStep, Injector, LoadTiming};
use crate::strategy::queue_apc::{apc_thread, queued_of, releases_argument};
use crate::strategy::{lower_char, lowercase, name_of, parsed, Strategy};
use crate::target::{
    created_times, earliest, file_time, is_unique_earliest, none_is_earliest, observed_of,
    retries_selection, revalidate, walk_is_complete, Liveness, LoaderState, PrimaryScan, Target,
    ThreadCandidate, ThreadFacts,
};
use vstd::prelude::*;

verus! {

/// The remote thread runs in every state but an early-APC handoff, the APC
/// where a known primary thread has not run or stands at such a handoff, and
/// the import table only of a target that has not run. Nothing else of the
/// target decides.
pub proof fn strategies_fit_the_loader_state(target: Target)
    ensures
        ({
            let state = target.loader_state;
            &&& gate_of(Strategy::LoadLibraryRemoteThread, target) is Ok <==> state
                == LoaderState::NotStarted || state == LoaderState::LoaderComplete || state
                == LoaderState::Unknown
            &&& gate_of(Strategy::QueueUserApc, target) is Ok <==> target.main_thread is Some && (
            state == LoaderState::NotStarted || state == LoaderState::EarlyApc)
            &&& gate_of(Strategy::ImportTableHijack, target) is Ok <==> state
                == LoaderState::NotStarted
            &&& target.main_thread is None ==> gate_of(Strategy::QueueUserApc, target) == Err::<
                (),
                ErrorView,
            >(ErrorView::MissingThreadHandle)
            &&& forall|strategy: Strategy|
                (#[trigger] gate_of(strategy, target) matches Err(fault) && (strategy
                    != Strategy::QueueUserApc || target.main_thread is Some)) ==> (
                gate_of(strategy, target)->Err_0 matches ErrorView::StrategyUnavailable {
                    strategy: named,
                    ..
                } && named == strategy)
        }),
{
}

/// An injection validates the target first, then loads the payload, and then
/// runs the strategy that was selected. The first failure is the answer.
pub proof fn injections_go_in_order(
    strategy: Strategy,
    target: Target,
    validated: Option<std::result::Result<(), ErrorView>>,
    loaded: Option<std::result::Result<(), ErrorView>>,
)
    ensures
        ({
            let next = injection_of(strategy, target, validated, loaded);
            &&& gate_of(strategy, target) matches Err(fault) ==> next == Err::<
                InjectionStep,
                ErrorView,
            >(fault)
            &&& gate_of(strategy, target) is Ok ==> {
                &&& validated is None ==> next == Ok::<InjectionStep, ErrorView>(
                    InjectionStep::Validate,
                )
                &&& validated matches Some(Err(fault)) ==> next == Err::<InjectionStep, ErrorView>(
                    fault,
                )
                &&& validated matches Some(Ok(_)) ==> {
                    &&& loaded is None ==> next == Ok::<InjectionStep, ErrorView>(
                        InjectionStep::LoadPayload,
                    )
                    &&& loaded matches Some(Err(fault)) ==> next == Err::<InjectionStep, ErrorView>(
                        fault,
                    )
                    &&& loaded matches Some(Ok(_)) ==> next == Ok::<InjectionStep, ErrorView>(
                        InjectionStep::Run(strategy),
                    )
                }
            }
        }),
{
}

/// Only ASCII capitals have another lower case, 32 further on.
pub proof fn ascii_capitals_have_a_lower_case(text: Seq<char>, c: char)
    ensures
        65 <= c as int <= 90 ==> lower_char(c) as int == c as int + 32,
        !(65 <= c as int <= 90) ==> lower_char(c) == c,
        lowercase(text).len() == text.len(),
        forall|i: int|
            0 <= i < text.len() ==> #[trigger] lowercase(text)[i] == lower_char(text[i]),
{
}

/// A strategy is parsed from exactly its names and aliases, in any case. Any
/// other text is reported as it was given.
pub proof fn strategies_have_their_names(text: Seq<char>)
    ensures
        ({
            let lower = lowercase(text);
            &&& parsed(text) == Ok::<Strategy, ErrorView>(Strategy::LoadLibraryRemoteThread)
                <==> lower == "loadlibrary"@ || lower == "load-library"@ || lower
                == "remote-thread"@ || lower == "crt"@
            &&& parsed(text) == Ok::<Strategy, ErrorView>(Strategy::QueueUserApc) <==> lower
                == "apc"@ || lower == "queue-user-apc"@ || lower == "early-bird"@
            &&& parsed(text) == Ok::<Strategy, ErrorView>(Strategy::ImportTableHijack) <==> lower
                == "iat"@ || lower == "import-table"@ || lower == "detours"@
            &&& parsed(text) matches Err(fault) ==> fault == ErrorView::UnknownStrategy(text)
        }),
        name_of(Strategy::LoadLibraryRemoteThread) == "loadlibrary"@,
        name_of(Strategy::QueueUserApc) == "apc"@,
        name_of(Strategy::ImportTableHijack) == "iat"@,
{
    reveal_strlit("loadlibrary");
    reveal_strlit("load-library");
    reveal_strlit("remote-thread");
    reveal_strlit("crt");
    reveal_strlit("apc");
    reveal_strlit("queue-user-apc");
    reveal_strlit("early-bird");
    reveal_strlit("iat");
    reveal_strlit("import-table");
    reveal_strlit("detours");
    assert("crt"@[0] != "apc"@[0] && "crt"@[0] != "iat"@[0] && "apc"@[0] != "iat"@[0]);
    assert("loadlibrary"@[0] == 'l' && "load-library"@[0] == 'l' && "remote-thread"@[0] == 'r');
    assert("apc"@[0] == 'a' && "queue-user-apc"@[0] == 'q' && "early-bird"@[0] == 'e');
    assert("iat"@[0] == 'i' && "import-table"@[0] == 'i' && "detours"@[0] == 'd');
}

/// A failure is pending where a wait for the load timed out or failed, and
/// nowhere else; combined failures are if one of their parts is.
pub proof fn unfinished_loads_are_pending(error: ErrorView, cleanup: ErrorView, source: std::io::Error)
    ensures
        ErrorView::RemoteTimeout.is_pending(),
        ErrorView::RemotePending(source).is_pending(),
        error is DllNotFound || error is StrategyUnavailable || error is MissingThreadHandle || error
            is BitnessMismatch || error is ModuleNotFound || error is Pe || error is InvalidTarget
            || error is AmbiguousPrimaryThread || error is UnsupportedMachine || error
            is UnsupportedPath || error is IatRollbackFailed || error is Io || error
            is PayloadTooLarge || error is Win32 || error is UnknownStrategy ==> !error.is_pending(),
        ErrorView::ProtectionRestore(Box::new(error)).is_pending() == error.is_pending(),
        error.with_cleanup(cleanup).is_pending() == (error.is_pending() || cleanup.is_pending()),
{
    reveal_with_fuel(ErrorView::is_pending, 2);
}

/// A failure forbids resume where a rollback or the restoration of a
/// protection failed, and nowhere else; combined failures do if one of their
/// parts does.
pub proof fn failed_repairs_forbid_resume(error: ErrorView, cleanup: ErrorView, source: std::io::Error)
    ensures
        ErrorView::IatRollbackFailed.must_not_resume(),
        ErrorView::ProtectionRestore(Box::new(error)).must_not_resume(),
        error is DllNotFound || error is StrategyUnavailable || error is MissingThreadHandle || error
            is BitnessMismatch || error is ModuleNotFound || error is Pe || error is InvalidTarget
            || error is AmbiguousPrimaryThread || error is UnsupportedMachine || error
            is UnsupportedPath || error is RemoteTimeout || error is RemotePending || error is Io
            || error is PayloadTooLarge || error is Win32 || error is UnknownStrategy
            ==> !error.must_not_resume(),
        error.with_cleanup(cleanup).must_not_resume() == (error.must_not_resume()
            || cleanup.must_not_resume()),
{
    reveal_with_fuel(ErrorView::must_not_resume, 2);
}

/// An operation and its cleanup succeed together, with the value of the
/// operation. One failure is the answer as it is, two are both kept, the
/// operation's first.
pub proof fn failures_are_all_kept<T>(value: T, operation: ErrorView, cleanup: ErrorView)
    ensures
        combined(Ok::<T, ErrorView>(value), Ok(())) == Ok::<T, ErrorView>(value),
        combined(Err::<T, ErrorView>(operation), Ok(())) == Err::<T, ErrorView>(operation),
        combined(Ok::<T, ErrorView>(value), Err(cleanup)) == Err::<T, ErrorView>(cleanup),
        combined(Err::<T, ErrorView>(operation), Err(cleanup)) matches Err(ErrorView::Cleanup {
            operation: first,
            cleanup: second,
        }) && *first == operation && *second == cleanup,
{
}

/// A queued APC loads the payload on resume and keeps its argument. One that
/// was not queued has its argument released, and every failure is kept.
pub proof fn queued_payloads_load_on_resume(
    error: ErrorView,
    cleanup: ErrorView,
    release: std::result::Result<(), ErrorView>,
)
    ensures
        queued_of(Ok(()), release) == Ok::<InjectedModule, ErrorView>(
            InjectedModule { module: None, timing: LoadTiming::OnResume },
        ),
        queued_of(Err(error), Ok(())) == Err::<InjectedModule, ErrorView>(error),
        queued_of(Err(error), Err(cleanup)) matches Err(ErrorView::Cleanup {
            operation: first,
            cleanup: second,
        }) && *first == error && *second == cleanup,
{
}

/// The APC goes to the primary thread of the target, and its argument is
/// released exactly when it was not queued.
pub proof fn apcs_go_to_the_primary_thread(
    target: &Target,
    thread: Result<usize>,
    queued: &Result<()>,
    release: bool,
)
    requires
        call_ensures(apc_thread, (target,), thread),
        call_ensures(releases_argument, (queued,), release),
    ensures
        target.main_thread matches Some(handle) ==> thread == Ok::<usize, Error>(
            handle,
        ),
        target.main_thread is None ==> (thread matches Err(error) && error@
            == ErrorView::MissingThreadHandle),
        release <==> queued is Err,
{
}

/// Another time is no later than time `i`.
pub open spec fn is_rivalled(times: Seq<u64>, i: int) -> bool {
    exists|k: int| 0 <= k < times.len() && k != i && #[trigger] times[k] <= times[i]
}

/// The primary thread is the one that was created before every other one. It
/// is ambiguous without threads or where two were created first.
pub proof fn the_first_thread_is_primary(times: &[u64], result: Result<usize>)
    requires
        call_ensures(earliest, (times,), result),
    ensures
        result matches Ok(index) ==> index < times@.len() && forall|k: int|
            0 <= k < times@.len() && k != index ==> times@[index as int] < #[trigger] times@[k],
        result matches Err(error) ==> error@ == ErrorView::AmbiguousPrimaryThread,
        result is Err ==> forall|i: int|
            0 <= i < times@.len() ==> #[trigger] is_rivalled(times@, i),
{
    if result is Err {
        assert(none_is_earliest(times@));
        assert forall|i: int| 0 <= i < times@.len() implies #[trigger] is_rivalled(times@, i) by {
            assert(!is_unique_earliest(times@, i));
        }
    }
}

/// A selection is tried three times, and again only while a thread has
/// vanished; a snapshot is complete only when the system says so; a candidate
/// that no longer runs is ambiguous.
pub proof fn selections_are_careful(
    attempt: usize,
    code: Option<i32>,
    again: bool,
    complete: bool,
    liveness: Liveness,
    valid: Result<()>,
    high: u32,
    low: u32,
    time: u64,
)
    requires
        call_ensures(retries_selection, (attempt, code), again),
        call_ensures(walk_is_complete, (code,), complete),
        call_ensures(revalidate, (liveness,), valid),
        call_ensures(file_time, (high, low), time),
    ensures
        again <==> attempt < 2 && code == Some(87i32),
        complete <==> code == Some(18i32),
        valid is Ok <==> liveness == Liveness::Running,
        valid matches Err(error) ==> error@ == ErrorView::AmbiguousPrimaryThread,
        time == high * 0x1_0000_0000 + low,
{
}

/// A thread is a candidate exactly when it belongs to the process and runs.
pub proof fn only_running_threads_are_candidates(
    pid: u32,
    candidates: Seq<ThreadCandidate>,
    thread: u32,
    facts: ThreadFacts,
)
    ensures
        ({
            let (next, result) = observed_of(pid, candidates, thread, facts);
            if facts.owner == pid && facts.exited == 0 {
                &&& result is Ok
                &&& next.len() == candidates.len() + 1
                &&& next[candidates.len() as int] == (ThreadCandidate {
                    thread,
                    created: facts.created,
                })
                &&& forall|i: int| 0 <= i < candidates.len() ==> next[i] == candidates[i]
            } else {
                &&& result == Err::<(), ErrorView>(ErrorView::AmbiguousPrimaryThread)
                &&& next == candidates
            }
        }),
{
}

/// The candidate that was created before every other one is selected, by its
/// place and its thread.
pub proof fn the_first_candidate_is_selected(scan: &PrimaryScan, result: Result<(usize, u32)>)
    requires
        call_ensures(PrimaryScan::select, (scan,), result),
    ensures
        ({
            let found = scan.candidates();
            &&& result matches Ok((index, thread)) ==> {
                &&& index < found.len()
                &&& thread == found[index as int].thread
                &&& forall|k: int|
                    0 <= k < found.len() && k != index ==> found[index as int].created < (
                    #[trigger] found[k]).created
            }
            &&& result matches Err(error) ==> {
                &&& error@ == ErrorView::AmbiguousPrimaryThread
                &&& forall|i: int|
                    0 <= i < found.len() ==> #[trigger] is_rivalled(created_times(found), i)
            }
        }),
{
    let found = scan.candidates();
    let times = created_times(found);
    match result {
        Ok((index, thread)) => {
            assert(is_unique_earliest(times, index as int));
            assert forall|k: int| 0 <= k < found.len() && k != index implies
                found[index as int].created < (#[trigger] found[k]).created by {
                assert(times[k] == found[k].created);
                assert(times[index as int] == found[index as int].created);
            }
        },
        Err(_) => {
            assert(none_is_earliest(times));
            assert forall|i: int| 0 <= i < found.len() implies #[trigger] is_rivalled(
                times,
                i,
            ) by {
                assert(!is_unique_earliest(times, i));
            }
        },
    }
}

/// A target is made of what it is given. The state is the one that its
/// constructor names, and changing it changes nothing else.
pub proof fn targets_are_what_they_are_made_of(
    process: usize,
    thread: usize,
    main_thread: Option<usize>,
    pid: u32,
    state: LoaderState,
    fresh: Target,
    early: Target,
    complete: Target,
    made: Target,
    changed: Target,
)
    requires
        call_ensures(Target::not_started, (process, main_thread, pid), fresh),
        call_ensures(Target::early_apc, (process, thread, pid), early),
        call_ensures(Target::loader_complete, (process, main_thread, pid), complete),
        call_ensures(Target::new, (process, main_thread, pid, state), made),
        call_ensures(Target::with_loader_state, (fresh, state), changed),
    ensures
        made.process == process && made.main_thread == main_thread && made.pid == pid
            && made.loader_state == state,
        fresh == (Target { loader_state: LoaderState::NotStarted, ..made }),
        complete == (Target { loader_state: LoaderState::LoaderComplete, ..made }),
        early.process == process && early.main_thread == Some(thread) && early.pid == pid
            && early.loader_state == LoaderState::EarlyApc,
        changed == made,
{
}

/// An injector has the strategy that its constructor names. Without one it is
/// the remote thread.
pub proof fn injectors_have_their_strategy(
    strategy: Strategy,
    plain: Injector,
    queueing: Injector,
    importing: Injector,
    chosen: Injector,
    told: Strategy,
)
    requires
        call_ensures(Injector::new, (), plain),
        call_ensures(Injector::queue_apc, (), queueing),
        call_ensures(Injector::import_table, (), importing),
        call_ensures(Injector::with_strategy, (strategy,), chosen),
        call_ensures(Injector::strategy, (&chosen,), told),
    ensures
        plain@ == Strategy::LoadLibraryRemoteThread,
        queueing@ == Strategy::QueueUserApc,
        importing@ == Strategy::ImportTableHijack,
        chosen@ == strategy,
        told == strategy,
{
}

/// A module that is present has its address. One that loads on resume has
/// none.
pub proof fn only_present_modules_have_an_address(
    module: usize,
    present: InjectedModule,
    prepared: InjectedModule,
)
    requires
        call_ensures(InjectedModule::immediate, (module,), present),
        call_ensures(InjectedModule::on_resume, (), prepared),
    ensures
        present.module == Some(module) && present.timing == LoadTiming::Immediate,
        prepared.module is None && prepared.timing == LoadTiming::OnResume,
{
}

} // verus!
