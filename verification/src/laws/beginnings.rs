//! Where each stepwise operation begins, and what it hands out at its end.

use crate::error::{outcome, Error, ErrorView, Result};
use crate::harness::child::Teardown;
use crate::harness::fixtures::{checkpoint_path, join, joined};
use crate::harness::scripts::checkpoint_name_of;
use crate::harness::supervisor::{
    CaptureSearch, JobPhase, JobStop, Supervisor, ToolError, ToolPhase,
};
use crate::injector::InjectedModule;
use crate::pe::imports::ImportDescriptor;
use crate::remote::images::{mapping_views, FileIdentity, ImageScan, MainImageSearch, Mapping};
use crate::remote::modules::{module_views, Module, ModuleList, ModuleStep};
use crate::remote::near::{near_exhausted, NearSearch, NearStep};
use crate::strategy::argument::{Argument, ArgumentPhase, Prepared};
use crate::strategy::commit::Commit;
use crate::strategy::import_table::ImportWalk;
use crate::strategy::load_library::{LoadPhase, RemoteLoad};
use crate::strategy::patch::PatchTransaction;
use crate::strategy::Strategy;
use crate::target::PrimaryScan;
use crate::text::utf16_units;
use vstd::prelude::*;

verus! {

/// A walk over images begins at the lowest address with nothing found, and
/// hands out what it has found.
pub proof fn image_scans_begin_at_zero(
    limit: usize,
    scan: ImageScan,
    end: ImageScan,
    found: Vec<Mapping>,
)
    requires
        call_ensures(ImageScan::start, (limit,), scan),
        call_ensures(ImageScan::finish, (end,), found),
    ensures
        scan@.address == 0,
        scan@.limit == limit,
        scan@.count == 0,
        scan@.found.len() == 0,
        mapping_views(found@) == mapping_views(end.found@),
{
}

/// The search for the main executable begins with the first mapping and no
/// candidate.
pub proof fn executable_searches_begin_with_the_first_mapping(
    expected: FileIdentity,
    mappings: Vec<Mapping>,
    search: MainImageSearch,
)
    requires
        call_ensures(MainImageSearch::start, (expected, mappings), search),
    ensures
        search@.expected == expected,
        search@.mappings == mapping_views(mappings@),
        search@.index == 0,
        search@.current is None,
        search@.candidates.len() == 0,
{
}

/// A list of modules is first asked for in a buffer of 256 handles, and hands
/// out what was named.
pub proof fn module_lists_begin_with_a_small_buffer(
    start: (ModuleList, ModuleStep),
    end: ModuleList,
    modules: Vec<Module>,
)
    requires
        call_ensures(ModuleList::start, (), start),
        call_ensures(ModuleList::finish, (end,), modules),
    ensures
        start.1 == ModuleStep::Enumerate(256),
        start.0@.capacity == 256,
        start.0@.attempts == 1,
        start.0@.handles.len() == 0,
        start.0@.named.len() == 0,
        start.0@.last_error is None,
        module_views(modules@) == module_views(end.named@),
{
}

/// A search for a place near an image asks for the region where it stands until
/// it is out of reach or has asked a million times. It gives up for the
/// import-table strategy.
pub proof fn near_searches_ask_where_they_stand(search: NearSearch, step: NearStep, error: Error)
    requires
        call_ensures(NearSearch::step, (&search,), step),
        call_ensures(near_exhausted, (), error),
    ensures
        search.address < search.limit && search.attempts < 1000000 ==> step == NearStep::Query(
            search.address,
        ),
        search.address >= search.limit || search.attempts >= 1000000 ==> step
            == NearStep::Exhausted,
        search.passed().address == search.end,
        search.passed().end == search.end && search.passed().base == search.base
            && search.passed().limit == search.limit && search.passed().size == search.size
            && search.passed().granularity == search.granularity && search.passed().attempts
            == search.attempts,
        error@ == (ErrorView::StrategyUnavailable {
            strategy: Strategy::ImportTableHijack,
            reason: "no allocation fits the 32-bit RVA range"@,
        }),
{
}

/// An argument is prepared for its path, from the beginning, and hands out what
/// was prepared.
pub proof fn arguments_begin_with_the_path(
    path: &[u16],
    start: Argument,
    end: Argument,
    prepared: Result<Prepared>,
)
    requires
        call_ensures(Argument::start, (path,), start),
        call_ensures(Argument::finish, (end,), prepared),
    ensures
        start@.path == path@,
        start@.phase == ArgumentPhase::Resolve,
        start@.failure is Ok,
        outcome(prepared) == end@.prepared(),
        end@.failure is Ok ==> outcome(prepared) == Ok::<Prepared, ErrorView>(
            Prepared { function: end.function, address: end.address },
        ),
        end@.failure matches Err(fault) ==> outcome(prepared) == Err::<Prepared, ErrorView>(fault),
{
}

/// A remote load begins before its thread with an argument that is freed if
/// nothing comes of it, and answers the injection at its end.
pub proof fn loads_begin_before_the_thread(
    start: RemoteLoad,
    end: RemoteLoad,
    armed: bool,
    injected: Result<InjectedModule>,
)
    requires
        call_ensures(RemoteLoad::start, (), start),
        call_ensures(RemoteLoad::is_armed, (&end,), armed),
        call_ensures(RemoteLoad::finish, (end,), injected),
    ensures
        start@.phase == LoadPhase::Launch,
        start@.armed,
        armed == end.armed,
        end@.result matches Err(fault) ==> outcome(injected) == Err::<InjectedModule, ErrorView>(
            fault,
        ),
        end@.result matches Ok(module) ==> (injected matches Ok(answer) && answer.module == Some(
            module,
        )),
{
}

/// A commit and a header transaction hand out their outcome as it is.
pub proof fn outcomes_are_handed_out(
    commit: Commit,
    committed: Result<()>,
    patch: PatchTransaction,
    patched: Result<()>,
)
    requires
        call_ensures(Commit::finish, (commit,), committed),
        call_ensures(PatchTransaction::finish, (patch,), patched),
    ensures
        outcome(committed) == commit@.failure,
        outcome(patched) == patch@.result(),
{
}

/// The imports that a walk has found are handed out in order.
pub proof fn found_imports_are_handed_out(walk: ImportWalk, found: Vec<ImportDescriptor>)
    requires
        call_ensures(ImportWalk::finish, (walk,), found),
    ensures
        found@.len() == walk.found@.len(),
        forall|i: int| 0 <= i < found@.len() ==> found@[i] == #[trigger] walk.found@[i],
{
}

/// The threads of a process are looked through from none.
pub proof fn thread_scans_begin_empty(pid: u32, owner: u32, scan: PrimaryScan, wanted: bool)
    requires
        call_ensures(PrimaryScan::new, (pid,), scan),
        call_ensures(PrimaryScan::wants, (&scan, owner), wanted),
    ensures
        scan.candidates().len() == 0,
        wanted <==> owner == pid,
{
}

/// Tools, jobs, captures and teardowns begin without a failure.
pub proof fn supervision_begins_without_failure(
    timeout: u64,
    supervisor: Supervisor,
    stop: JobStop,
    stopped: std::result::Result<(), ToolError>,
    search: CaptureSearch,
    teardown: Teardown,
)
    requires
        call_ensures(Supervisor::start, (timeout,), supervisor),
        call_ensures(JobStop::start, (), stop),
        call_ensures(JobStop::finish, (stop,), stopped),
        call_ensures(CaptureSearch::start, (), search),
        call_ensures(Teardown::start, (), teardown),
    ensures
        supervisor.phase == ToolPhase::Assign,
        supervisor.timeout == timeout,
        supervisor.error is None,
        supervisor.kill_error is None,
        stop.phase == JobPhase::Terminate,
        stop.error is None,
        stopped is Ok,
        search.attempts == 0,
        teardown@.phase is Probe,
        teardown@.failures.len() == 0,
{
}

/// A job that did not end hands out why.
pub proof fn unstopped_jobs_say_why(
    stop: JobStop,
    error: ToolError,
    result: std::result::Result<(), ToolError>,
)
    requires
        stop.error == Some(error),
        call_ensures(JobStop::finish, (stop,), result),
    ensures
        result == Err::<(), ToolError>(error),
{
}

/// The checkpoint of a target lies in its directory, by the name of the
/// process.
pub proof fn checkpoints_lie_in_their_directory(
    dir: &[u16],
    name: &str,
    pid: u32,
    file: Vec<u16>,
    path: Vec<u16>,
)
    requires
        call_ensures(join, (dir, name), file),
        call_ensures(checkpoint_path, (dir, pid), path),
    ensures
        file@ == joined(dir@, utf16_units(name@)),
        path@ == joined(dir@, utf16_units(checkpoint_name_of(pid))),
{
}

} // verus!
