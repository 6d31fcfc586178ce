//! How a path reaches the target, and a thread there loads it.

use crate::error::{ErrorView, Result};
use crate::injector::{InjectedModule, LoadTiming};
use crate::laws::imports::{
    import_blocks_lie_behind_the_image, import_blocks_load_the_payload_first,
};
use crate::paths::import_path_of;
use crate::payload::{Payload, PayloadView};
use crate::pe::headers::import_ordinal_of;
use crate::pe::imports::{imports_fault, imports_of, ImportDescriptor};
use crate::pe::view::DataDirectory;
use crate::remote::images::MainImageView;
use crate::strategy::argument::{
    argument_of, ArgumentAction, ArgumentEventView, ArgumentView, Prepared,
};
use crate::strategy::hijack::{directory_of, import_of, plan_of, Import, ImportView, PlanView};
use crate::strategy::import_table::{
    model_of, redirected, walk_start_of, ClrHeader, ImportBlockView,
};
use crate::strategy::load_library::{
    wait_end_of, wait_outcome, LoadAction, LoadEventView, RemoteLoadView, WaitEnd, LOAD_TIMEOUT,
};
use vstd::prelude::*;

verus! {

/// The function is looked for first, then the argument is allocated with its
/// whole length, and then it is written there.
pub proof fn arguments_are_prepared_in_order(
    argument: ArgumentView,
    function: usize,
    address: usize,
)
    requires
        argument.phase is Resolve,
        argument.failure is Ok,
        argument_of(argument.path) is Ok,
        argument_of(argument.path)->Ok_0.len() <= usize::MAX,
    ensures
        ({
            let bytes = argument_of(argument.path)->Ok_0;
            let found = argument.after(ArgumentEventView::Resolved(Ok(function)));
            let allocated = found.after(ArgumentEventView::Allocated(Ok(address)));
            let ready = allocated.after(ArgumentEventView::Wrote(Ok(())));
            &&& argument.action() == ArgumentAction::Resolve
            &&& found.action() == ArgumentAction::Allocate(bytes.len() as usize)
            &&& allocated.action() == ArgumentAction::Write(address)
            &&& allocated.bytes == bytes
            &&& ready.action() == ArgumentAction::Finish
            &&& ready.prepared() == Ok::<Prepared, ErrorView>(Prepared { function, address })
        }),
{
}

/// A function that is not found, a path that no argument can be made of and
/// memory that is not had end the preparation with their reason.
pub proof fn unprepared_arguments_say_why(
    argument: ArgumentView,
    function: usize,
    error: ErrorView,
)
    ensures
        argument.phase is Resolve ==> {
            let unresolved = argument.after(ArgumentEventView::Resolved(Err(error)));
            &&& unresolved.action() == ArgumentAction::Finish
            &&& unresolved.prepared() == Err::<Prepared, ErrorView>(error)
        },
        argument.phase is Resolve && argument_of(argument.path) is Err ==> {
            let unmade = argument.after(ArgumentEventView::Resolved(Ok(function)));
            &&& unmade.action() == ArgumentAction::Finish
            &&& unmade.prepared() == Err::<Prepared, ErrorView>(
                argument_of(argument.path)->Err_0,
            )
        },
        argument.phase is Allocate ==> {
            let refused = argument.after(ArgumentEventView::Allocated(Err(error)));
            &&& refused.action() == ArgumentAction::Finish
            &&& refused.prepared() == Err::<Prepared, ErrorView>(error)
        },
{
}

/// An argument that cannot be written is released where it was allocated, and
/// the outcome is the failed write, with the failed release if that fails too.
pub proof fn unwritten_arguments_are_released(
    argument: ArgumentView,
    error: ErrorView,
    release: std::result::Result<(), ErrorView>,
)
    requires
        argument.phase is Write,
    ensures
        ({
            let unwritten = argument.after(ArgumentEventView::Wrote(Err(error)));
            let end = unwritten.after(ArgumentEventView::Released(release));
            &&& unwritten.action() == ArgumentAction::Release(argument.address)
            &&& end.action() == ArgumentAction::Finish
            &&& end.prepared() == Err::<Prepared, ErrorView>(
                match release {
                    Ok(_) => error,
                    Err(cleanup) => error.with_cleanup(cleanup),
                },
            )
        }),
{
}

/// A wait ends with a thread that has terminated, in 30 seconds that are over,
/// or with a failure.
pub proof fn waits_end_in_three_ways(result: u32, last: std::io::Error)
    ensures
        LOAD_TIMEOUT == 30000,
        wait_end_of(result, last) is Signaled <==> result == 0,
        wait_end_of(result, last) is TimedOut <==> result == 258,
        wait_end_of(result, last) is Failed <==> result != 0 && result != 258,
        result == 0xffff_ffff ==> wait_end_of(result, last) == WaitEnd::Failed(last),
{
}

/// Only a thread that has terminated has loaded anything. A load that is still
/// on its way is told apart by whether the wait timed out or failed.
pub proof fn only_ended_threads_have_loaded(end: WaitEnd, result: Result<()>)
    requires
        call_ensures(wait_outcome, (end,), result),
    ensures
        result is Ok <==> end is Signaled,
        end is TimedOut ==> (result matches Err(error) && error@ == ErrorView::RemoteTimeout),
        end is Failed ==> (result matches Err(error) && error@ == ErrorView::RemotePending(
            end->Failed_0,
        )),
{
}

/// A thread that ran to its end has its module looked for and its argument
/// released, and the injection is answered with the module.
pub proof fn ended_loads_answer_with_the_module(
    load: RemoteLoadView,
    located: std::result::Result<usize, ErrorView>,
    release: std::result::Result<(), ErrorView>,
)
    requires
        load.phase is Launch,
    ensures
        ({
            let running = load.after(LoadEventView::Created(Ok(())));
            let ended = running.after(LoadEventView::Waited(Ok(())));
            let found = ended.after(LoadEventView::Located(located));
            let done = found.after(LoadEventView::Released(release));
            &&& load.action() == LoadAction::CreateThread
            &&& running.action() == LoadAction::Wait
            &&& ended.action() == LoadAction::FindModule
            &&& found.action() == LoadAction::ReleaseArgument
            &&& done.action() == LoadAction::Finish
            &&& !done.armed
            &&& done.injected() == match (located, release) {
                (Ok(module), Ok(_)) => Ok::<InjectedModule, ErrorView>(
                    InjectedModule { module: Some(module), timing: LoadTiming::Immediate },
                ),
                (Ok(_), Err(cleanup)) => Err(cleanup),
                (Err(error), Ok(_)) => Err(error),
                (Err(error), Err(cleanup)) => Err(error.with_cleanup(cleanup)),
            }
        }),
{
}

/// A thread that was not created, or whose wait failed, leaves the argument as
/// it must: to be released in the one case, and to the target in the other.
pub proof fn unfinished_loads_keep_what_is_read(load: RemoteLoadView, error: ErrorView)
    requires
        load.phase is Launch,
        load.armed,
    ensures
        ({
            let refused = load.after(LoadEventView::Created(Err(error)));
            let freed = refused.after(LoadEventView::Released(Ok(())));
            let kept = refused.after(LoadEventView::Released(Err(error)));
            let pending = load.after(LoadEventView::Created(Ok(()))).after(
                LoadEventView::Waited(Err(error)),
            );
            &&& refused.action() == LoadAction::ReleaseArgument
            &&& refused.armed
            &&& !freed.armed
            &&& kept.armed
            &&& freed.injected() == Err::<InjectedModule, ErrorView>(error)
            &&& pending.action() == LoadAction::Finish
            &&& !pending.armed
            &&& pending.injected() == Err::<InjectedModule, ErrorView>(error)
        }),
{
}

/// A payload is imported by its own path and the ordinal that was found in it.
pub proof fn payloads_are_imported_by_path_and_ordinal(
    payload: PayloadView,
    ordinal: std::result::Result<u16, ErrorView>,
)
    ensures
        import_of(payload, ordinal) is Ok <==> ordinal is Ok,
        import_of(payload, ordinal) matches Ok(import) ==> import.path == payload.path
            && import.ordinal == ordinal->Ok_0,
{
}

/// There is a plan exactly when the path can be an import name and the imports
/// of the model can be walked. It keeps what it was made from.
pub proof fn plans_keep_what_they_are_made_from(
    import: ImportView,
    image: MainImageView,
    clr: Option<ClrHeader>,
)
    ensures
        plan_of(import, image, clr) is Ok <==> {
            &&& model_of(image.headers, image.bytes, clr) matches Ok(model)
            &&& import_path_of(import.path) is Ok
            &&& walk_start_of(image.base, model.headers) is Ok
        },
        plan_of(import, image, clr) matches Ok(plan) ==> {
            &&& plan.ordinal == import.ordinal
            &&& plan.name == import_path_of(import.path)->Ok_0
            &&& plan.base == image.base
            &&& plan.original == image.bytes
            &&& plan.clr == clr
            &&& plan.model == model_of(image.headers, image.bytes, clr)->Ok_0
            &&& plan.walk == walk_start_of(image.base, plan.model.headers)->Ok_0
        },
{
}

/// The directory that names an import block gives its place and its length.
pub proof fn import_directories_name_their_block(block: ImportBlockView)
    requires
        block.bytes.len() <= u32::MAX,
    ensures
        directory_of(block).rva == block.rva,
        directory_of(block).size == block.bytes.len(),
{
}

/// A block can be built for a short enough name, and has one length.
spec fn is_sized(found: Seq<ImportDescriptor>, name: Seq<u8>, rva: u32, at: int) -> bool {
    &&& found.len() <= 4096
    &&& 1 <= name.len() <= 32767
    &&& !name.contains(0)
    &&& rva + at + 33 + name.len() <= u32::MAX
}

#[verifier::spinoff_prover]
proof fn lemma_sized(
    found: Seq<ImportDescriptor>,
    name: Seq<u8>,
    ordinal: u16,
    rva: u32,
    at: int,
)
    requires
        at == (20 * (found.len() as int + 2) + 7) / 8 * 8,
    ensures
        imports_fault(found, name, rva) is None <==> is_sized(found, name, rva, at),
        imports_fault(found, name, rva) is None ==> imports_of(found, name, ordinal, rva).len()
            == at + 33 + name.len(),
{
    import_blocks_load_the_payload_first(found, name, ordinal, rva, at);
    assert(name.contains(0) <==> !(forall|i: int| 0 <= i < name.len() ==> #[trigger] name[i] != 0));
}

/// The place for an import block is as long as the block will be, wherever it
/// is allocated.
#[verifier::spinoff_prover]
pub proof fn import_blocks_fit_their_allocation(plan: PlanView, address: usize)
    ensures
        plan.size_of() is Err ==> plan.block_of(address) is Err,
        plan.block_of(address) matches Ok(block) ==> {
            &&& plan.size_of() == Ok::<usize, ErrorView>(block.bytes.len() as usize)
            &&& block.bytes.len() <= u32::MAX
        },
{
    let found = plan.walk.found;
    let at = (20 * (found.len() as int + 2) + 7) / 8 * 8;
    import_blocks_lie_behind_the_image(plan.base, address, found, plan.name, plan.ordinal);
    lemma_sized(found, plan.name, plan.ordinal, 0, at);
    lemma_sized(found, plan.name, plan.ordinal, (address - plan.base) as u32, at);
}

/// The block of a plan lies at the distance of its allocation from the image,
/// and is made of the imports that were found, the name and the ordinal. The
/// headers of the model are redirected to it.
pub proof fn plans_build_and_name_their_block(
    plan: PlanView,
    address: usize,
    block: ImportBlockView,
)
    requires
        plan.block_of(address) == Ok::<ImportBlockView, ErrorView>(block),
    ensures
        block.rva == address - plan.base,
        block.bytes == imports_of(plan.walk.found, plan.name, plan.ordinal, block.rva),
        plan.patched_of(block) == redirected(
            plan.model.headers,
            plan.model.patched,
            DataDirectory { rva: block.rva, size: block.bytes.len() as u32 },
        ),
{
}

/// A payload is imported by the ordinal that its own bytes export, and refused
/// where they export none.
pub proof fn payloads_are_searched_for_their_ordinal(
    payload: &Payload,
    ordinal: Result<u16>,
    import: Result<Import>,
    path: &[u16],
)
    requires
        call_ensures(Payload::import_ordinal, (payload,), ordinal),
        call_ensures(Import::of, (payload,), import),
        call_ensures(Payload::path, (payload,), path),
    ensures
        ({
            let found = import_ordinal_of(payload@.headers, payload@.bytes);
            &&& ordinal is Ok <==> found is Ok
            &&& ordinal matches Ok(value) ==> value == found->Ok_0
            &&& ordinal matches Err(error) ==> error@ is StrategyUnavailable
            &&& import is Ok <==> found is Ok
            &&& import matches Ok(made) ==> made.ordinal == found->Ok_0 && made.path@ == path@
            &&& path@ == payload@.path
        }),
{
}

} // verus!
