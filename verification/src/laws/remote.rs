//! What is asked of another process, and what its answers lead to.

use crate::error::{Error, ErrorView, Result};
use crate::pe::headers::{headers_of, HeadersView};
use crate::pe::layout::{header_read_size_of, nt_offset_of};
use crate::remote::allocation::{released_of, retained_of, RemoteAlloc};
use crate::remote::images::{
    global_root, identity_path, FetchStepView, FileIdentity, HeaderFetch, ImageScanView,
    MainImageSearchView, MainImageView, MainStep, MappingView, ScanStep,
};
use crate::remote::memory::{
    check_read, check_write, finish_query, finish_read, finish_write, finished_path, region_end_of,
    terminated_len, terminated_len_is_first_nul, Region,
};
use crate::remote::near::{aligned_up, near_start_of, NearSearch, NearStep};
use crate::remote::process::{
    check_architecture, machine_of, process_id_of, start_of, thread_owner_of, validation_of,
    Subject, TargetFacts, ValidationStep,
};
use crate::target::Target;
use vstd::prelude::*;

verus! {

/// A target is accepted exactly when its process handle is neither null nor
/// the invalid one, its id is that of the handle and not of this process, a
/// thread that is handed over belongs to it, and both processes run as AMD64
/// without emulation.
pub proof fn valid_targets_are_accepted(target: Target, facts: TargetFacts)
    ensures
        validation_of(target, facts) == Ok::<ValidationStep, ErrorView>(ValidationStep::Done) <==> {
            &&& target.process != 0
            &&& target.process != usize::MAX
            &&& target.pid != 0
            &&& facts.pid == target.pid
            &&& facts.pid != facts.current
            &&& (target.main_thread is None || (target.main_thread->0 != 0 && facts.owner
                == target.pid))
            &&& facts.injector_machine == 0x8664 || (facts.injector_machine == 0
                && facts.injector_native == 0x8664)
            &&& facts.target_machine == 0x8664 || (facts.target_machine == 0
                && facts.target_native == 0x8664)
        },
{
}

/// What each answer to a validation leads to.
pub proof fn validations_go_in_order(
    target: Target,
    pid: u32,
    current: u32,
    owner: u32,
    machine: u16,
    native: u16,
)
    ensures
        start_of(target) == if target.process == 0 || target.process == usize::MAX || target.pid
            == 0 {
            Err::<ValidationStep, ErrorView>(
                ErrorView::InvalidTarget("invalid process handle or pid"@),
            )
        } else {
            Ok(ValidationStep::ProcessId)
        },
        pid != target.pid || pid == current ==> process_id_of(target, pid, current) == Err::<
            ValidationStep,
            ErrorView,
        >(ErrorView::InvalidTarget("process/pid mismatch or self-injection"@)),
        pid == target.pid && pid != current ==> process_id_of(target, pid, current) == (
        match target.main_thread {
            None => Ok::<ValidationStep, ErrorView>(ValidationStep::Machine(Subject::Injector)),
            Some(0) => Err(ErrorView::InvalidTarget("null thread handle"@)),
            Some(thread) => Ok(ValidationStep::ThreadOwner(thread)),
        }),
        owner == target.pid ==> thread_owner_of(target, owner) == Ok::<ValidationStep, ErrorView>(
            ValidationStep::Machine(Subject::Injector),
        ),
        owner != target.pid ==> thread_owner_of(target, owner) == Err::<ValidationStep, ErrorView>(
            ErrorView::InvalidTarget("thread belongs to a different process"@),
        ),
        machine == 0x8664 || (machine == 0 && native == 0x8664) ==> {
            &&& machine_of(Subject::Injector, machine, native) == Ok::<ValidationStep, ErrorView>(
                ValidationStep::Machine(Subject::Target),
            )
            &&& machine_of(Subject::Target, machine, native) == Ok::<ValidationStep, ErrorView>(
                ValidationStep::Done,
            )
        },
        !(machine == 0x8664 || (machine == 0 && native == 0x8664)) ==> forall|subject: Subject|
            #[trigger]
            machine_of(subject, machine, native) == Err::<ValidationStep, ErrorView>(
                {
                    let runs_as = if machine == 0 {
                        native
                    } else {
                        machine
                    };
                    if runs_as == 0x14c {
                        ErrorView::BitnessMismatch { injector_64: true, target_64: false }
                    } else {
                        ErrorView::UnsupportedMachine(runs_as)
                    }
                },
            ),
{
}

/// Only a build for AMD64 injects.
pub proof fn only_amd64_builds_inject(amd64: bool, result: Result<()>)
    requires
        call_ensures(check_architecture, (amd64,), result),
    ensures
        result is Ok <==> amd64,
{
}

/// A walk over regions goes on at the end of a region that holds its address,
/// and at no other place.
pub proof fn walks_pass_whole_regions(region: Region, address: usize)
    ensures
        region_end_of(region, address) is Ok <==> region.base <= address < region.base + region.size
            <= usize::MAX,
        region_end_of(region, address) matches Ok(end) ==> end == region.base + region.size,
{
}

/// A transfer is tried exactly when it is of at most 16 MiB and ends within
/// the address space.
pub proof fn transfers_are_limited(
    address: usize,
    size: usize,
    read: Result<()>,
    written: Result<()>,
)
    requires
        call_ensures(check_read, (address, size), read),
        call_ensures(check_write, (address, size), written),
    ensures
        read is Ok <==> size <= 16777216 && address + size <= usize::MAX,
        written is Ok <==> size <= 16777216 && address + size <= usize::MAX,
{
}

/// A transfer counts only where it is complete, and a read then gives what was
/// received.
pub proof fn transfers_are_complete(
    buffer: Vec<u8>,
    size: usize,
    count: usize,
    read: Result<Vec<u8>>,
    written: Result<()>,
    queried: Result<()>,
)
    requires
        call_ensures(finish_read, (buffer, count), read),
        call_ensures(finish_write, (size, count), written),
        call_ensures(finish_query, (size, count), queried),
    ensures
        read is Ok <==> count == buffer@.len(),
        read matches Ok(bytes) ==> bytes@ == buffer@,
        written is Ok <==> count == size,
        queried is Ok <==> count == size,
{
}

/// A path is taken exactly when its first NUL stands where Windows says that
/// it ends, and it keeps that NUL.
pub proof fn paths_end_where_they_are_said_to(buffer: Seq<u16>, length: usize)
    ensures
        finished_path(buffer, length) is Ok <==> {
            &&& length < buffer.len()
            &&& buffer[length as int] == 0
            &&& forall|i: int| 0 <= i < length ==> buffer[i] != 0
        },
        finished_path(buffer, length) matches Ok(path) ==> {
            &&& path.len() == length + 1
            &&& forall|i: int| 0 <= i <= length ==> path[i] == buffer[i]
        },
{
    terminated_len_is_first_nul(buffer);
    let n = terminated_len(buffer);
    if length < buffer.len() && buffer[length as int] == 0 && (forall|i: int|
        0 <= i < length ==> buffer[i] != 0) {
        if n < length {
            assert(buffer[n] != 0);
        } else if n > length {
            assert(buffer[length as int] != 0);
        }
    }
}

/// A search behind an image reaches as far as 32 bits do, and begins at the
/// image.
pub proof fn near_searches_begin_at_the_image(base: usize, size: usize, granularity: usize)
    ensures
        near_start_of(base, size, granularity) is Ok <==> granularity > 0 && base + 0xffff_ffff
            <= usize::MAX,
        near_start_of(base, size, granularity) matches Ok(search) ==> {
            &&& search.base == base
            &&& search.size == size
            &&& search.granularity == granularity
            &&& search.limit == base + 0xffff_ffff
            &&& search.address == base
            &&& search.attempts == 0
        },
{
}

proof fn lemma_one_multiple(a: int, c: int, d: int, g: int)
    requires
        0 < g,
        c % g == 0,
        d % g == 0,
        a <= c < a + g,
        a <= d < a + g,
    ensures
        c == d,
{
    vstd::arithmetic::div_mod::lemma_mod_equivalence(c, d, g);
    vstd::arithmetic::div_mod::lemma_mod_equivalence(d, c, g);
    if c > d {
        vstd::arithmetic::div_mod::lemma_small_mod((c - d) as nat, g as nat);
    } else if d > c {
        vstd::arithmetic::div_mod::lemma_small_mod((d - c) as nat, g as nat);
    }
}

proof fn lemma_aligned(address: int, g: int, c: int)
    requires
        0 <= address,
        0 < g,
        c % g == 0,
        address <= c < address + g,
    ensures
        aligned_up(address, g) == c,
{
    let q = address / g;
    let r = address % g;
    vstd::arithmetic::div_mod::lemma_fundamental_div_mod(address, g);
    vstd::arithmetic::div_mod::lemma_mod_bound(address, g);
    if r != 0 {
        vstd::arithmetic::mul::lemma_mul_is_distributive_add(g, q, 1);
        vstd::arithmetic::mul::lemma_mul_is_commutative(g, q + 1);
        vstd::arithmetic::div_mod::lemma_mod_multiples_basic(q + 1, g);
        assert(aligned_up(address, g) == (q + 1) * g);
    }
    lemma_one_multiple(address, aligned_up(address, g), c, g);
}

/// `next` goes on behind the region that ends at `end`, or gives up.
pub open spec fn goes_on(search: NearSearch, end: int, next: NearSearch, step: NearStep) -> bool {
    &&& next.base == search.base
    &&& next.size == search.size
    &&& next.granularity == search.granularity
    &&& next.limit == search.limit
    &&& next.address == end
    &&& step == if end < search.limit && next.attempts < 1000000 {
        NearStep::Query(end as usize)
    } else {
        NearStep::Exhausted
    }
}

/// A free region is tried at the first multiple of the granularity that it
/// has, `candidate`, whenever the bytes fit there and within reach. Every
/// other region is passed.
pub proof fn free_places_are_tried(search: NearSearch, region: Region, candidate: int)
    requires
        search.well_formed(),
        search.attempts < 1000000,
        region.base <= search.address < region.base + region.size <= usize::MAX,
        candidate % (search.granularity as int) == 0,
        search.address <= candidate < search.address + search.granularity,
    ensures
        ({
            let (next, step) = search.region_of(region);
            let end = region.base + region.size;
            if region.state == 0x1_0000 && candidate > usize::MAX {
                step is Err
            } else if region.state == 0x1_0000 && candidate + search.size <= end && candidate
                + search.size <= search.base + 0xffff_ffff {
                &&& step == Ok::<NearStep, ErrorView>(NearStep::Allocate(candidate as usize))
                &&& next.address == search.address
                &&& next.end == end
                &&& next.attempts == search.attempts + 1
            } else {
                &&& step is Ok
                &&& goes_on(search, end, next, step->Ok_0)
                &&& next.attempts == search.attempts + 1
            }
        }),
{
    lemma_aligned(search.address as int, search.granularity as int, candidate);
}

/// An allocation is kept exactly when all of it lies behind the image and
/// within 32 bits. One that lies elsewhere is released, and the search goes
/// on where nothing was allocated.
pub proof fn reachable_allocations_are_kept(search: NearSearch, address: usize)
    requires
        search.well_formed(),
    ensures
        search.allocated_of(Some(address)).0 == search,
        search.allocated_of(Some(address)).1 == if search.base <= address && address + search.size
            <= search.base + 0xffff_ffff {
            NearStep::Keep(address)
        } else {
            NearStep::Release(address)
        },
        goes_on(
            search,
            search.end as int,
            search.allocated_of(None).0,
            search.allocated_of(None).1,
        ),
        search.allocated_of(None).0.attempts == search.attempts,
{
}

/// `next` goes on behind the region that ends at `end`, or has finished, or
/// has asked too often.
pub open spec fn scans_on(
    scan: ImageScanView,
    end: int,
    next: ImageScanView,
    step: std::result::Result<ScanStep, ErrorView>,
) -> bool {
    &&& next.limit == scan.limit
    &&& next.address == end
    &&& if end >= scan.limit {
        step == Ok::<ScanStep, ErrorView>(ScanStep::Done)
    } else if scan.count >= 1000000 {
        step == Err::<ScanStep, ErrorView>(ErrorView::Pe("image scan limit"@))
    } else {
        step == Ok::<ScanStep, ErrorView>(ScanStep::Query(end as usize)) && next.count == scan.count
            + 1
    }
}

/// The start of a mapped image is named when it is committed and can be read:
/// no guard and no inaccessible pages. Every other region is passed.
pub proof fn readable_images_are_named(scan: ImageScanView, region: Region)
    ensures
        ({
            let (next, step) = scan.region_of(region);
            if !(region.base <= scan.address < region.base + region.size <= usize::MAX) {
                step is Err
            } else if region.kind == 0x100_0000 && region.state == 0x1000 && region.base
                == region.allocation_base && region.protect & 0x101 == 0 {
                &&& step == Ok::<ScanStep, ErrorView>(ScanStep::Name(region.base))
                &&& next.image == region.base
                &&& next.next == region.base + region.size
                &&& next.address == scan.address
                &&& next.limit == scan.limit
                &&& next.count == scan.count
                &&& next.found == scan.found
            } else {
                &&& scans_on(scan, region.base + region.size, next, step)
                &&& next.found == scan.found
            }
        }),
{
}

/// A named image joins the list at its end, and the walk goes on behind its
/// first region.
pub proof fn named_images_are_listed(scan: ImageScanView, path: Seq<u16>)
    ensures
        ({
            let (next, step) = scan.named_of(path);
            &&& scans_on(scan, scan.next as int, next, step)
            &&& next.found.len() == scan.found.len() + 1
            &&& next.found[scan.found.len() as int] == (MappingView { base: scan.image, path })
            &&& forall|i: int| 0 <= i < scan.found.len() ==> next.found[i] == scan.found[i]
        }),
        scans_on(scan, scan.address as int, scan.step_of().0, scan.step_of().1),
        scan.step_of().0.found == scan.found,
{
}

/// The headers of a mapped image are read in three reads from its base: the
/// 64 bytes of the DOS header, those through the declared header size, and the
/// headers themselves.
pub proof fn headers_are_fetched_in_three_reads(bytes: Seq<u8>, size: usize)
    ensures
        HeaderFetch::Dos.size_of() == 64,
        HeaderFetch::Prefix(size).size_of() == size,
        HeaderFetch::Full(size).size_of() == size,
        HeaderFetch::Dos.received_of(bytes) == match nt_offset_of(bytes) {
            Ok(nt) => Ok::<FetchStepView, ErrorView>(
                FetchStepView::Read(HeaderFetch::Prefix((nt + 88) as usize)),
            ),
            Err(fault) => Err(fault),
        },
        HeaderFetch::Prefix(size).received_of(bytes) == match header_read_size_of(bytes) {
            Ok(whole) => Ok::<FetchStepView, ErrorView>(
                FetchStepView::Read(HeaderFetch::Full(whole)),
            ),
            Err(fault) => Err(fault),
        },
        HeaderFetch::Full(size).received_of(bytes) == match headers_of(bytes) {
            Ok(headers) => Ok::<FetchStepView, ErrorView>(FetchStepView::Parsed(headers)),
            Err(fault) => Err(fault),
        },
{
}

/// The search for the main executable looks at the next mapping, with the same
/// candidates.
pub open spec fn looks_on(
    search: MainImageSearchView,
    next: MainImageSearchView,
    step: MainStep,
    candidates: Seq<MainImageView>,
) -> bool {
    &&& next.expected == search.expected
    &&& next.mappings == search.mappings
    &&& next.index == search.index + 1
    &&& next.current is None
    &&& next.candidates == candidates
    &&& step == if search.index + 1 < search.mappings.len() {
        MainStep::Headers((search.index + 1) as usize)
    } else {
        MainStep::Finished
    }
}

/// A mapped DLL is passed. Of every other mapping the file is identified.
pub proof fn dlls_are_no_executables(
    search: MainImageSearchView,
    headers: HeadersView,
    bytes: Seq<u8>,
)
    requires
        0 <= search.index < search.mappings.len(),
    ensures
        ({
            let (next, step) = search.headers_of(headers, bytes);
            if headers.characteristics & 0x2000 != 0 {
                looks_on(search, next, step, search.candidates)
            } else {
                &&& step == MainStep::Identity(search.index as usize)
                &&& next.current == Some(
                    MainImageView { base: search.mappings[search.index].base, headers, bytes },
                )
                &&& next.expected == search.expected
                &&& next.mappings == search.mappings
                &&& next.index == search.index
                &&& next.candidates == search.candidates
            }
        }),
{
}

/// Only a mapping of the expected file is walked, from its base to the end of
/// its image.
pub proof fn executables_are_told_by_identity(search: MainImageSearchView, identity: FileIdentity)
    requires
        0 <= search.index < search.mappings.len(),
        search.current is Some,
    ensures
        ({
            let image = search.current->0;
            let (next, step) = search.identity_of(identity);
            if identity.volume != search.expected.volume || identity.index_high
                != search.expected.index_high || identity.index_low != search.expected.index_low {
                step is Ok && looks_on(search, next, step->Ok_0, search.candidates)
            } else if image.base + image.headers.image_size > usize::MAX {
                step is Err
            } else if image.headers.image_size == 0 {
                step is Ok && looks_on(search, next, step->Ok_0, search.candidates.push(image))
            } else {
                &&& step == Ok::<MainStep, ErrorView>(MainStep::Query(image.base))
                &&& next.address == image.base
                &&& next.end == image.base + image.headers.image_size
                &&& next.current == search.current
                &&& next.index == search.index
                &&& next.expected == search.expected
                &&& next.mappings == search.mappings
                &&& next.candidates == search.candidates
            }
        }),
{
}

/// An image is a candidate when regions of its own mapping hold all of it. A
/// region of anything else ends the search.
pub proof fn executables_lie_whole(search: MainImageSearchView, region: Region)
    requires
        0 <= search.index < search.mappings.len(),
        search.current is Some,
    ensures
        ({
            let image = search.current->0;
            let (next, step) = search.region_of(region);
            if region.allocation_base != image.base || region.kind != 0x100_0000 || !(region.base
                <= search.address < region.base + region.size <= usize::MAX) {
                step is Err
            } else if region.base + region.size < search.end {
                &&& step == Ok::<MainStep, ErrorView>(
                    MainStep::Query((region.base + region.size) as usize),
                )
                &&& next.address == region.base + region.size
                &&& next.end == search.end
                &&& next.current == search.current
                &&& next.index == search.index
                &&& next.expected == search.expected
                &&& next.mappings == search.mappings
                &&& next.candidates == search.candidates
            } else {
                step is Ok && looks_on(search, next, step->Ok_0, search.candidates.push(image))
            }
        }),
{
}

/// A search finds the one candidate that it has, and nothing where it has
/// another number of them.
pub proof fn executables_are_not_guessed(search: MainImageSearchView)
    ensures
        search.finished() is Ok <==> search.candidates.len() == 1,
        search.finished() matches Ok(image) ==> image == search.candidates[0],
{
}

/// The file behind a device path is opened under `\\?\GLOBALROOT`, by a path
/// that ends in a NUL.
pub proof fn device_paths_are_opened_by_the_global_root(device: &[u16], path: Vec<u16>)
    requires
        call_ensures(identity_path, (device,), path),
    ensures
        path@.len() == device@.len() + 15,
        forall|i: int| 0 <= i < 14 ==> path@[i] as int == #[trigger] "\\\\?\\GLOBALROOT"@[i] as int,
        forall|i: int| 0 <= i < device@.len() ==> path@[14 + i] == #[trigger] device@[i],
        path@[path@.len() - 1] == 0,
{
    reveal_strlit("\\\\?\\GLOBALROOT");
    let head = global_root();
    assert forall|i: int| 0 <= i < device@.len() implies path@[14 + i] == #[trigger] device@[i] by {
        assert((head + device@)[14 + i] == device@[i]);
    }
}

/// An address that Windows gave is owned and freed later. None is a failed
/// call.
pub proof fn allocations_are_owned(address: usize, result: Result<RemoteAlloc>)
    requires
        call_ensures(RemoteAlloc::new, (address,), result),
    ensures
        address != 0 ==> (result matches Ok(owned) && owned.address == address && owned.armed),
        address == 0 ==> (result matches Err(error) && error@ is Win32),
{
}

/// An allocation whose bytes were written is kept. One whose bytes were not is
/// given up with the reason, and with the reason why it stays if it was not
/// freed.
pub proof fn unwritten_allocations_are_given_up(
    owned: RemoteAlloc,
    written: Result<()>,
    freed: bool,
    result: Result<RemoteAlloc>,
)
    requires
        call_ensures(RemoteAlloc::with_bytes, (owned, written, freed), result),
    ensures
        written is Ok ==> result == Ok::<RemoteAlloc, Error>(owned),
        written is Err && freed ==> (result matches Err(error) && error@ == written->Err_0@),
        written is Err && !freed ==> (result matches Err(error) && (error@ matches ErrorView::Cleanup {
            operation,
            ..
        } && *operation == written->Err_0@)),
{
}

/// An allocation is freed later until it was freed or left to the target. Its
/// address never changes.
pub proof fn allocations_are_freed_once(owned: RemoteAlloc, frees: bool)
    requires
        call_ensures(RemoteAlloc::frees_on_drop, (&owned,), frees),
    ensures
        frees <==> owned.armed,
        !retained_of(owned).armed,
        retained_of(owned).address == owned.address,
        !released_of(owned, true).armed,
        released_of(owned, true).address == owned.address,
        released_of(owned, false) == owned,
{
}

} // verus!
