//! Which modules a process has, and where `LoadLibraryW` lies in it.

use crate::error::{ErrorView, Result};
use crate::remote::loader::{
    image_named, is_first_mapping, lookup_of, same_bytes, tested_startup_build, LoadLibraryLookup,
    LookupAnswerView, LookupFacts, LookupStep, LOAD_LIBRARY_PROBE_BYTES,
};
use crate::remote::images::{mapping_views, Mapping};
use crate::remote::memory::Region;
use crate::remote::modules::{
    find_module, is_first_with_path, module_at, module_count_of, module_views, Module,
    ModuleListView, ModuleStep, ModuleView,
};
use crate::strategy::Strategy;
use crate::target::LoaderState;
use vstd::prelude::*;

verus! {

/// A list of modules is taken exactly when it is a whole number of 8-byte
/// handles in at most a mebibyte.
pub proof fn module_lists_are_whole(bytes: usize)
    ensures
        module_count_of(bytes) is Ok <==> bytes <= 1048576 && bytes % 8 == 0,
        module_count_of(bytes) matches Ok(count) ==> 8 * count == bytes,
{
}

/// `next` asks for the list anew, in a buffer of `capacity` handles, unless it
/// was asked for five times: the last failure is then the answer.
pub open spec fn asks_again(
    list: ModuleListView,
    capacity: usize,
    failure: Option<ErrorView>,
    next: ModuleListView,
    step: std::result::Result<ModuleStep, ErrorView>,
) -> bool {
    &&& next.capacity == capacity
    &&& if list.attempts < 5 {
        &&& step == Ok::<ModuleStep, ErrorView>(ModuleStep::Enumerate(capacity))
        &&& next.attempts == list.attempts + 1
        &&& next.last_error == failure
    } else {
        step == Err::<ModuleStep, ErrorView>(
            match failure {
                Some(error) => error,
                None => ErrorView::ModuleNotFound,
            },
        )
    }
}

/// Modules are named from the first handle on when the buffer holds the whole
/// list. A longer list is asked for anew, in a buffer of its size.
pub proof fn whole_lists_are_named(list: ModuleListView, bytes: usize, handles: Seq<usize>)
    requires
        bytes <= 1048576,
        bytes % 8 == 0,
    ensures
        ({
            let (next, step) = list.enumerated_of(bytes, handles);
            let count = bytes as int / 8;
            if count > list.capacity {
                asks_again(list, count as usize, list.last_error, next, step)
            } else {
                let listed = if count <= handles.len() {
                    count
                } else {
                    handles.len() as int
                };
                &&& next.handles.len() == listed
                &&& forall|i: int| 0 <= i < listed ==> next.handles[i] == handles[i]
                &&& next.named.len() == 0
                &&& next.attempts == list.attempts
                &&& step == Ok::<ModuleStep, ErrorView>(
                    if listed > 0 {
                        ModuleStep::Name(handles[0])
                    } else {
                        ModuleStep::Done
                    },
                )
            }
        }),
{
}

/// A module that cannot be named has the list asked for anew.
pub proof fn unnamed_modules_are_listed_anew(list: ModuleListView, error: ErrorView)
    ensures
        asks_again(
            list,
            list.capacity,
            Some(error),
            list.unnamed_of(error).0,
            list.unnamed_of(error).1,
        ),
{
}

/// A named module joins the list with its handle, and the next handle is named.
pub proof fn named_modules_keep_their_handle(list: ModuleListView, path: Seq<u16>)
    requires
        list.named.len() < list.handles.len(),
    ensures
        ({
            let n = list.named.len();
            let (next, step) = list.named_of(path);
            &&& next.handles == list.handles
            &&& next.named.len() == n + 1
            &&& next.named[n as int] == (ModuleView { base: list.handles[n as int], path })
            &&& forall|i: int| 0 <= i < n ==> next.named[i] == list.named[i]
            &&& step == if n + 1 < list.handles.len() {
                ModuleStep::Name(list.handles[n as int + 1])
            } else {
                ModuleStep::Done
            }
        }),
{
}

/// Windows 11 build 26200 and Windows Server 2025 build 26100 are the tested
/// systems, and 32 bytes of the function are compared.
pub proof fn two_builds_are_tested(major: u32, build: u32, tested: bool)
    requires
        call_ensures(tested_startup_build, (major, build), tested),
    ensures
        tested <==> major == 10 && (build == 26200 || build == 26100),
        LOAD_LIBRARY_PROBE_BYTES == 32,
{
}

/// A function begins its lookup exactly when it does not precede its module.
pub proof fn functions_lie_in_their_module(
    local: usize,
    base: usize,
    image_size: u32,
    machine: u16,
    strategy: Strategy,
    result: Result<LoadLibraryLookup>,
)
    requires
        call_ensures(
            LoadLibraryLookup::start,
            (local, base, image_size, machine, strategy),
            result,
        ),
    ensures
        result is Ok <==> base <= local,
        result matches Ok(lookup) ==> {
            &&& lookup.local == local
            &&& lookup.base == base
            &&& lookup.image_size == image_size
            &&& lookup.machine == machine
            &&& lookup.strategy == strategy
        },
{
}

/// Where the module is mapped in the target, the function is found exactly at
/// its local offset in an image of the same size and machine, in committed
/// memory of that image that can be run and read, and with the same first
/// bytes.
pub proof fn mapped_functions_are_found(
    lookup: LoadLibraryLookup,
    state: LoaderState,
    facts: LookupFacts,
    image: usize,
)
    requires
        lookup.base <= lookup.local,
        facts.image == Some(image),
    ensures
        ({
            let end = lookup_of(lookup, state, facts);
            let address = image + (lookup.local - lookup.base);
            &&& end is Ok <==> {
                &&& facts.image_size == lookup.image_size
                &&& facts.machine == lookup.machine
                &&& address <= usize::MAX
                &&& facts.region.allocation_base == image
                &&& facts.region.state == 0x1000
                &&& facts.region.protect & 0xf0 != 0
                &&& facts.region.protect & 0x101 == 0
                &&& facts.local == facts.remote
            }
            &&& end matches Ok(step) ==> step == LookupStep::Found(address as usize)
        }),
{
}

/// Where the module is not mapped, the function is found exactly in a child
/// that has never run, on a tested system, where the local module is the
/// expected one and free memory of the target holds its whole image: at its
/// local address.
pub proof fn unmapped_functions_are_found_in_fresh_children(
    lookup: LoadLibraryLookup,
    state: LoaderState,
    facts: LookupFacts,
)
    requires
        facts.image is None,
    ensures
        ({
            let end = lookup_of(lookup, state, facts);
            let region = facts.startup;
            &&& end is Ok <==> {
                &&& state == LoaderState::NotStarted
                &&& facts.tested
                &&& facts.root_known
                &&& facts.actual == Some(facts.expected)
                &&& lookup.base + lookup.image_size <= usize::MAX
                &&& region.state == 0x1_0000
                &&& region.base <= lookup.base < region.base + region.size <= usize::MAX
                &&& lookup.base + lookup.image_size <= region.base + region.size
            }
            &&& end matches Ok(step) ==> step == LookupStep::Found(lookup.local)
        }),
{
}

/// What each answer asks for next, as long as nothing is refused.
pub proof fn lookups_go_in_order(
    lookup: LoadLibraryLookup,
    state: LoaderState,
    image: usize,
    address: usize,
    region: Region,
    path: Seq<u16>,
)
    requires
        lookup.base <= lookup.local,
        image + (lookup.local - lookup.base) <= usize::MAX,
        region.allocation_base == image,
        region.state == 0x1000,
        region.protect & 0xf0 != 0,
        region.protect & 0x101 == 0,
    ensures
        ({
            let mapped = LookupAnswerView::Mapping { image: Some(image), tested: false };
            let unmapped = LookupAnswerView::Mapping { image: None, tested: true };
            let headers = LookupAnswerView::Headers {
                image_size: lookup.image_size,
                machine: lookup.machine,
            };
            let there = (image + (lookup.local - lookup.base)) as usize;
            let module = LookupAnswerView::Module { actual: Some(path), expected: path };
            &&& lookup.next_of(state, LookupStep::Mapping, mapped) == Ok::<LookupStep, ErrorView>(
                LookupStep::RemoteHeaders(image),
            )
            &&& lookup.next_of(state, LookupStep::RemoteHeaders(image), headers) == Ok::<
                LookupStep,
                ErrorView,
            >(LookupStep::RemoteRegion { image, address: there })
            &&& lookup.next_of(
                state,
                LookupStep::RemoteRegion { image, address },
                LookupAnswerView::Region(region),
            ) == Ok::<LookupStep, ErrorView>(LookupStep::Probe(address))
            &&& lookup.next_of(LoaderState::NotStarted, LookupStep::Mapping, unmapped) == Ok::<
                LookupStep,
                ErrorView,
            >(LookupStep::SystemRoot)
            &&& lookup.next_of(state, LookupStep::SystemRoot, LookupAnswerView::SystemRoot(true))
                == Ok::<LookupStep, ErrorView>(LookupStep::LocalModule)
            &&& lookup.next_of(state, LookupStep::LocalModule, module) == Ok::<
                LookupStep,
                ErrorView,
            >(LookupStep::StartupRegion(lookup.base))
        }),
{
}

/// What a refused lookup is answered.
pub proof fn refused_lookups_say_why(
    lookup: LoadLibraryLookup,
    state: LoaderState,
    tested: bool,
    expected: Seq<u16>,
)
    ensures
        ({
            let unmapped = LookupAnswerView::Mapping { image: None, tested };
            let unknown = LookupAnswerView::SystemRoot(false);
            let unlisted = LookupAnswerView::Module { actual: None, expected };
            &&& state != LoaderState::NotStarted || !tested ==> (lookup.next_of(
                state,
                LookupStep::Mapping,
                unmapped,
            ) matches Err(ErrorView::StrategyUnavailable { strategy, .. }) && strategy
                == lookup.strategy)
            &&& lookup.next_of(state, LookupStep::SystemRoot, unknown) == Err::<
                LookupStep,
                ErrorView,
            >(ErrorView::InvalidTarget("SystemRoot is missing"@))
            &&& lookup.next_of(state, LookupStep::LocalModule, unlisted) == Err::<
                LookupStep,
                ErrorView,
            >(ErrorView::ModuleNotFound)
        }),
{
}

/// Bytes are the same when they have the same length and each is the same.
pub proof fn same_bytes_agree_everywhere(one: &[u8], other: &[u8], same: bool)
    requires
        call_ensures(same_bytes, (one, other), same),
    ensures
        same <==> one@.len() == other@.len() && forall|i: int|
            0 <= i < one@.len() ==> one@[i] == other@[i],
{
    if one@.len() == other@.len() && (forall|i: int|
        0 <= i < one@.len() ==> one@[i] == other@[i]) {
        assert(one@ =~= other@);
    }
}

/// A module is found exactly when one has the expected path, and it is the
/// first that has.
pub proof fn modules_are_found_by_path(modules: &[Module], expected: &[u16], result: Result<usize>)
    requires
        call_ensures(find_module, (modules, expected), result),
    ensures
        result matches Ok(base) ==> exists|i: int|
            {
                &&& 0 <= i < modules@.len()
                &&& (#[trigger] modules@[i]).path@ == expected@
                &&& modules@[i].base == base
                &&& forall|k: int| 0 <= k < i ==> (#[trigger] modules@[k]).path@ != expected@
            },
        result matches Err(error) ==> error@ == ErrorView::ModuleNotFound && forall|k: int|
            0 <= k < modules@.len() ==> (#[trigger] modules@[k]).path@ != expected@,
{
    let views = module_views(modules@);
    match result {
        Ok(base) => {
            let i = choose|i: int|
                #[trigger] is_first_with_path(views, expected@, i) && base == views[i].base;
            assert(modules@[i].path@ == views[i].path);
            assert forall|k: int| 0 <= k < i implies (#[trigger] modules@[k]).path@ != expected@ by {
                assert(views[k].path != expected@);
            }
        },
        Err(_) => {
            assert forall|k: int| 0 <= k < modules@.len() implies (#[trigger] modules@[k]).path@
                != expected@ by {
                assert(views[k].path != expected@);
            }
        },
    }
}

/// A module is found by its base exactly when one is there, and it is the
/// first that is.
pub proof fn modules_are_found_by_base(modules: &[Module], base: usize, found: Option<usize>)
    requires
        call_ensures(module_at, (modules, base), found),
    ensures
        found matches Some(i) ==> {
            &&& i < modules@.len()
            &&& modules@[i as int].base == base
            &&& forall|k: int| 0 <= k < i ==> (#[trigger] modules@[k]).base != base
        },
        found is None ==> forall|k: int|
            0 <= k < modules@.len() ==> (#[trigger] modules@[k]).base != base,
{
}

/// A mapping is found exactly when one has the path, and it is the first that
/// has.
pub proof fn mappings_are_found_by_path(mappings: &[Mapping], path: &[u16], found: Option<usize>)
    requires
        call_ensures(image_named, (mappings, path), found),
    ensures
        found matches Some(base) ==> exists|i: int|
            {
                &&& 0 <= i < mappings@.len()
                &&& (#[trigger] mappings@[i]).path@ == path@
                &&& mappings@[i].base == base
                &&& forall|k: int| 0 <= k < i ==> (#[trigger] mappings@[k]).path@ != path@
            },
        found is None ==> forall|k: int|
            0 <= k < mappings@.len() ==> (#[trigger] mappings@[k]).path@ != path@,
{
    let views = mapping_views(mappings@);
    match found {
        Some(base) => {
            let i = choose|i: int|
                #[trigger] is_first_mapping(views, path@, i) && base == views[i].base;
            assert(mappings@[i].path@ == views[i].path);
            assert forall|k: int| 0 <= k < i implies (#[trigger] mappings@[k]).path@ != path@ by {
                assert(views[k].path != path@);
            }
        },
        None => {
            assert forall|k: int| 0 <= k < mappings@.len() implies (#[trigger] mappings@[k]).path@
                != path@ by {
                assert(views[k].path != path@);
            }
        },
    }
}

} // verus!
