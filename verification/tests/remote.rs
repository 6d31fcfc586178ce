use stork::pe::headers::Headers;
use stork::pe::layout::{HEADER_PREFIX_SIZE, MAX_HEADERS};
use stork::remote::images::{
    FetchStep, FileIdentity, HeaderFetch, ImageScan, MainImageSearch, MainStep, Mapping, ScanStep,
};
use stork::remote::loader::{
    image_named, tested_startup_build, LoadLibraryLookup, LookupAnswer, LookupStep,
    LOAD_LIBRARY_PROBE_BYTES,
};
use stork::remote::memory::{
    check_read, check_write, finish_path, finish_query, finish_read, finish_write, region_end,
    Region, MAX_REGION_QUERIES, MAX_TRANSFER_BYTES, MEM_COMMIT, MEM_FREE, MEM_IMAGE,
    PATH_BUFFER_UNITS,
};
use stork::remote::modules::{
    find_module, module_at, module_count, Module, ModuleList, ModuleStep, MAX_MODULE_LIST_BYTES,
};
use stork::remote::near::{near_exhausted, NearSearch, NearStep};
use stork::remote::process::{
    check_architecture, check_machine, check_process_id, check_thread_owner, start_validation,
    Subject, ValidationStep,
};
use stork::{Error, LoaderState, Strategy, Target};

fn units(text: &str) -> Vec<u16> {
    text.encode_utf16().collect()
}

fn terminated(text: &str) -> Vec<u16> {
    let mut path = units(text);
    path.push(0);
    path
}

fn region(base: usize, size: usize) -> Region {
    Region { base, size, allocation_base: base, state: MEM_COMMIT, protect: 0x2, kind: MEM_IMAGE }
}

#[test]
fn transfers_reject_bounds_before_using_the_handle() {
    assert!(matches!(check_read(usize::MAX, 1), Err(Error::Pe(_))));
    assert!(matches!(check_read(0, MAX_TRANSFER_BYTES + 1), Err(Error::Pe(_))));
    assert!(matches!(check_write(usize::MAX, 1), Err(Error::Pe(_))));
}

#[test]
fn transfers_must_be_complete() {
    assert!(check_read(0, MAX_TRANSFER_BYTES).is_ok());
    assert!(check_write(usize::MAX, 0).is_ok());
    assert_eq!(
        check_write(0, MAX_TRANSFER_BYTES + 1).unwrap_err().to_string(),
        "PE parse error: remote write exceeds bounds"
    );
    assert_eq!(
        check_read(usize::MAX, 1).unwrap_err().to_string(),
        "PE parse error: remote read exceeds bounds"
    );
    assert_eq!(finish_read(vec![1, 2, 3], 3).unwrap(), [1, 2, 3]);
    assert_eq!(
        finish_read(vec![1, 2, 3], 2).unwrap_err().to_string(),
        "PE parse error: short remote read"
    );
    assert!(finish_write(4, 4).is_ok());
    assert_eq!(
        finish_write(4, 3).unwrap_err().to_string(),
        "PE parse error: short remote write"
    );
    assert!(finish_query(48, 48).is_ok());
    assert_eq!(
        finish_query(48, 28).unwrap_err().to_string(),
        "PE parse error: short memory information query"
    );
}

#[test]
fn region_walk_rejects_gaps_stalls_and_overflow() {
    let mut region = region(0x1000, 0x1000);
    assert_eq!(region_end(&region, 0x1000).unwrap(), 0x2000);
    assert_eq!(region_end(&region, 0x1800).unwrap(), 0x2000);
    for address in [0, 0x2000, 0x3000] {
        assert!(region_end(&region, address).is_err());
    }
    region.size = 0;
    assert!(region_end(&region, 0x1000).is_err());
    region.size = usize::MAX;
    assert!(region_end(&region, 0x1000).is_err());
}

#[test]
fn module_counts_require_complete_handles_within_the_limit() {
    assert_eq!(module_count(0).unwrap(), 0);
    assert_eq!(module_count(8).unwrap(), 1);
    assert_eq!(module_count(MAX_MODULE_LIST_BYTES).unwrap(), MAX_MODULE_LIST_BYTES / 8);
    for bytes in [1, 8 + 1, MAX_MODULE_LIST_BYTES + 8, usize::MAX] {
        assert!(module_count(bytes).is_err());
    }
}

#[test]
fn path_results_reject_truncation_and_preserve_utf16() {
    let path: Vec<u16> = "module-\u{1f980}".encode_utf16().collect();
    let mut buffer = path.clone();
    buffer.push(0);
    let finished = finish_path(buffer.clone(), path.len()).unwrap();
    assert_eq!(finished[..path.len()], path);
    assert_eq!(finished.len(), path.len() + 1);
    assert!(finish_path(buffer.clone(), buffer.len()).is_err());
    assert!(finish_path(buffer, usize::MAX).is_err());
}

#[test]
fn path_output_checks_reported_length_before_shrinking() {
    let mut buffer = vec![0u16; PATH_BUFFER_UNITS];
    assert_eq!(finish_path(buffer.clone(), 0).unwrap(), [0]);
    assert_eq!(buffer.len(), 32 * 1024);
    buffer[..4].copy_from_slice(&[b'a' as u16, b'b' as u16, b'c' as u16, 0]);
    let finished = finish_path(buffer.clone(), 3).unwrap();
    assert_eq!(finished, &[97, 98, 99, 0]);
    // An early NUL or an understated count must not silently change the path.
    assert!(finish_path(buffer.clone(), 4).is_err());
    assert!(finish_path(buffer.clone(), 2).is_err());
    buffer.fill(b'x' as u16);
    assert!(finish_path(buffer, PATH_BUFFER_UNITS - 1).is_err());
}

/// Answer a search from a list of regions, with Windows placing each
/// allocation at `placed`, until it keeps one or gives up.
fn search(
    mut search: NearSearch,
    regions: &[Region],
    placed: impl Fn(usize) -> Option<usize>,
) -> stork::Result<(Option<usize>, Vec<usize>)> {
    let mut released = Vec::new();
    let mut step = search.step();
    loop {
        step = match step {
            NearStep::Query(address) => {
                let found = regions
                    .iter()
                    .find(|r| r.base <= address && address - r.base < r.size)
                    .unwrap();
                search.region(found)?
            }
            NearStep::Allocate(candidate) => search.allocated(placed(candidate)),
            NearStep::Release(address) => {
                released.push(address);
                search.released()
            }
            NearStep::Keep(address) => return Ok((Some(address), released)),
            NearStep::Exhausted => return Ok((None, released)),
        };
    }
}

#[test]
fn allocations_are_found_within_reach() {
    let base = 0x1_4000_0000;
    let free = |base, size| Region { state: MEM_FREE, ..region(base, size) };
    let image = region(base, 0x2_3000);
    let start = |size| NearSearch::start(base, size, 0x1_0000).unwrap();
    // The first aligned place behind the image.
    let regions = [image, free(base + 0x2_3000, 0x10_0000), region(base + 0x12_3000, usize::MAX / 2)];
    assert_eq!(search(start(0x1000), &regions, Some).unwrap(), (Some(base + 0x3_0000), vec![]));
    // A place that fits exactly, and one that does not.
    assert_eq!(search(start(0xf_3000), &regions, Some).unwrap().0, Some(base + 0x3_0000));
    assert_eq!(search(start(0xf_3001), &regions, Some).unwrap().0, None);
    // A failed allocation goes on to the next region.
    let regions = [
        image,
        free(base + 0x2_3000, 0x10_0000),
        region(base + 0x12_3000, 0x1000),
        free(base + 0x12_4000, usize::MAX / 2),
    ];
    let second = base + 0x13_0000;
    assert_eq!(
        search(start(0x1000), &regions, |at| (at == second).then_some(at)).unwrap(),
        (Some(second), vec![])
    );
    // An allocation out of reach is given back.
    let elsewhere = |at: usize| Some(if at == second { at } else { 0x1000 });
    assert_eq!(search(start(0x1000), &regions, elsewhere).unwrap(), (Some(second), vec![0x1000]));
    // A kept allocation has a 32-bit relative address.
    let last = base + u32::MAX as usize - 0x1000;
    assert_eq!(search(start(0x1000), &regions, |_| Some(last)).unwrap().0, Some(last));
    assert_eq!(search(start(0x1000), &regions, |_| Some(last + 1)).unwrap().0, None);
    assert!(matches!(
        near_exhausted(),
        Error::StrategyUnavailable {
            strategy: Strategy::ImportTableHijack,
            reason: "no allocation fits the 32-bit RVA range",
        }
    ));
}

#[test]
fn allocation_searches_are_bounded() {
    assert_eq!(
        NearSearch::start(0, 1, 0).unwrap_err().to_string(),
        "PE parse error: invalid allocation granularity"
    );
    assert_eq!(
        NearSearch::start(usize::MAX, 1, 1).unwrap_err().to_string(),
        "PE parse error: address overflow"
    );
    let mut search = NearSearch::start(0, 0x1000, 0x1_0000).unwrap();
    let mut count = 0;
    let mut step = search.step();
    while let NearStep::Query(address) = step {
        count += 1;
        step = search.region(&region(address, 1)).unwrap();
    }
    assert_eq!(step, NearStep::Exhausted);
    assert_eq!(count, MAX_REGION_QUERIES);
    // A free region at the very end of the address space cannot be aligned up.
    let base = usize::MAX - u32::MAX as usize;
    let mut search = NearSearch::start(base, 1, usize::MAX - 1).unwrap();
    let free = Region { state: MEM_FREE, ..region(base, 0x1000) };
    assert!(matches!(search.region(&free), Ok(NearStep::Query(_))));
    let mut search = NearSearch::start(base, 1, base - 1).unwrap();
    assert_eq!(
        search.region(&free).unwrap_err().to_string(),
        "PE parse error: alignment overflow"
    );
}

#[test]
fn image_scans_list_readable_image_starts() {
    let regions = [
        Region { state: MEM_FREE, kind: 0, ..region(0, 0x1000) },
        region(0x1000, 0x1000),
        Region { allocation_base: 0x1000, ..region(0x2000, 0x1000) },
        Region { kind: 0x2_0000, ..region(0x3000, 0x1000) },
        Region { protect: 0x1, ..region(0x4000, 0x1000) },
        Region { protect: 0x102, ..region(0x5000, 0x1000) },
        Region { state: 0x2000, ..region(0x6000, 0x1000) },
        Region { protect: 0x20, ..region(0x7000, 0x1000) },
    ];
    let mut scan = ImageScan::start(0x8000);
    let mut step = scan.step().unwrap();
    let mut queried = Vec::new();
    loop {
        step = match step {
            ScanStep::Query(address) => {
                queried.push(address);
                scan.region(&regions[address / 0x1000]).unwrap()
            }
            ScanStep::Name(base) => scan.named(vec![base as u16, 0]).unwrap(),
            ScanStep::Done => break,
        };
    }
    assert_eq!(queried, (0..8).map(|n| n * 0x1000).collect::<Vec<_>>());
    let found: Vec<_> = scan.finish().into_iter().map(|m| (m.base, m.path)).collect();
    assert_eq!(found, [(0x1000, vec![0x1000, 0]), (0x7000, vec![0x7000, 0])]);
    // A region that does not hold the scan address ends the walk.
    let mut scan = ImageScan::start(0x8000);
    scan.step().unwrap();
    assert!(scan.region(&region(0x1000, 0x1000)).is_err());
}

#[test]
fn image_scans_are_bounded() {
    let mut scan = ImageScan::start(usize::MAX);
    let mut step = scan.step();
    let mut count = 0;
    while let Ok(ScanStep::Query(address)) = step {
        count += 1;
        step = scan.region(&Region { kind: 0, ..region(address, 1) });
    }
    assert_eq!(count, MAX_REGION_QUERIES);
    assert_eq!(step.unwrap_err().to_string(), "PE parse error: image scan limit");
    assert_eq!(ImageScan::start(0).step().unwrap(), ScanStep::Done);
}

fn put16(b: &mut [u8], o: usize, v: u16) {
    stork::pe::layout::write(b, o, &v).unwrap();
}

fn put32(b: &mut [u8], o: usize, v: u32) {
    stork::pe::layout::write(b, o, &v).unwrap();
}

/// The mapped headers of a PE32+ image of three pages.
fn image(characteristics: u16) -> Vec<u8> {
    let mut b = vec![0; 0x1000];
    put16(&mut b, 0, 0x5a4d);
    put32(&mut b, 60, 0x80);
    put32(&mut b, 0x80, 0x4550);
    put16(&mut b, 0x84, 0x8664);
    put16(&mut b, 0x86, 1);
    put16(&mut b, 0x94, 240);
    put16(&mut b, 0x96, characteristics);
    put16(&mut b, 0x98, 0x20b);
    put32(&mut b, 0xd0, 0x3000);
    put32(&mut b, 0xd4, 0x400);
    put32(&mut b, 0x104, 16);
    put32(&mut b, 0x188 + 8, 0x1000);
    put32(&mut b, 0x188 + 12, 0x1000);
    b
}

/// Fetch headers from memory as the stages ask for them.
fn fetch(memory: &[u8]) -> stork::Result<(Headers, Vec<usize>)> {
    let mut sizes = Vec::new();
    let mut stage = HeaderFetch::Dos;
    loop {
        sizes.push(stage.size());
        let bytes = memory[..stage.size().min(memory.len())].to_vec();
        match stage.received(&bytes)? {
            FetchStep::Read(next) => stage = next,
            FetchStep::Parsed(headers) => return Ok((headers, sizes)),
        }
    }
}

#[test]
fn headers_are_fetched_in_bounded_stages() {
    let memory = image(0x22);
    let (headers, sizes) = fetch(&memory).unwrap();
    assert_eq!(sizes, [64, 0x80 + HEADER_PREFIX_SIZE, 0x400]);
    assert_eq!(headers.image_size, 0x3000);
    let mut oversized = memory.clone();
    put32(&mut oversized, 0xd4, MAX_HEADERS as u32 + 1);
    assert_eq!(
        fetch(&oversized).unwrap_err().to_string(),
        "PE parse error: headers too large"
    );
    assert_eq!(
        fetch(&[0; 64]).unwrap_err().to_string(),
        "PE parse error: bad DOS signature"
    );
    let mut broken = memory;
    put32(&mut broken, 0x80, 0);
    assert_eq!(
        fetch(&broken).unwrap_err().to_string(),
        "PE parse error: invalid PE layout: BadMagic"
    );
}

fn identity(index_low: u32) -> FileIdentity {
    FileIdentity { volume: 7, index_high: 1, index_low }
}

/// Search mappings of images with the given characteristics and identities,
/// whose pages are mapped as far as `extent` says.
fn main_image(images: &[(u16, u32)], extent: usize) -> stork::Result<usize> {
    let mappings = (0..images.len())
        .map(|n| Mapping { base: (n + 1) * 0x10_0000, path: vec![n as u16 + 1, 0] })
        .collect();
    let mut search = MainImageSearch::start(identity(5), mappings);
    let mut step = search.step();
    loop {
        step = match step {
            MainStep::Headers(index) => {
                let bytes = image(images[index].0);
                let headers = Headers::parse_remote(&bytes).unwrap();
                search.headers(headers, bytes)
            }
            MainStep::Identity(index) => search.identity(identity(images[index].1))?,
            MainStep::Query(address) => {
                let allocation_base = address & !0xf_ffff;
                let base = if address - allocation_base < extent { allocation_base } else { address };
                let page = address & !0xfff;
                search.region(&Region { allocation_base: base, ..region(page, 0x1000) })?
            }
            MainStep::Finished => break,
        };
    }
    search.finish().map(|image| image.base)
}

#[test]
fn main_images_are_matched_by_identity_and_whole() {
    assert_eq!(main_image(&[(0x2022, 5), (0x22, 4), (0x22, 5)], 0x3000).unwrap(), 0x30_0000);
    for images in [
        &[][..],
        &[(0x2022, 5)][..],
        &[(0x22, 4)][..],
        &[(0x22, 5), (0x22, 5)][..],
    ] {
        assert_eq!(
            main_image(images, 0x3000).unwrap_err().to_string(),
            "PE parse error: main executable mapping is missing or ambiguous"
        );
    }
    assert_eq!(
        main_image(&[(0x22, 5)], 0x2000).unwrap_err().to_string(),
        "PE parse error: image extends beyond mapping"
    );
}

#[test]
fn main_image_extents_do_not_overflow() {
    let mapping = Mapping { base: usize::MAX - 0xfff, path: vec![0] };
    let mut search = MainImageSearch::start(identity(5), vec![mapping]);
    let bytes = image(0x22);
    let headers = Headers::parse_remote(&bytes).unwrap();
    assert_eq!(search.headers(headers, bytes), MainStep::Identity(0));
    assert_eq!(
        search.identity(identity(5)).unwrap_err().to_string(),
        "PE parse error: image extent overflow"
    );
}

#[test]
fn module_lists_grow_and_start_over() {
    let (mut list, step) = ModuleList::start();
    assert_eq!(step, ModuleStep::Enumerate(256));
    // The list has outgrown its buffer.
    assert_eq!(list.enumerated(300 * 8, vec![0; 256]).unwrap(), ModuleStep::Enumerate(300));
    // A module goes away before it is named.
    assert_eq!(list.enumerated(2 * 8, vec![10, 20, 30]).unwrap(), ModuleStep::Name(10));
    assert_eq!(list.named(units("a")), ModuleStep::Name(20));
    assert_eq!(list.unnamed(Error::RemoteTimeout).unwrap(), ModuleStep::Enumerate(300));
    // The next enumeration begins anew.
    assert_eq!(list.enumerated(2 * 8, vec![10, 40]).unwrap(), ModuleStep::Name(10));
    assert_eq!(list.named(units("a")), ModuleStep::Name(40));
    assert_eq!(list.named(units("b")), ModuleStep::Done);
    let modules = list.finish();
    let listed: Vec<_> = modules.iter().map(|m| (m.base, m.path.clone())).collect();
    assert_eq!(listed, [(10, units("a")), (40, units("b"))]);
    assert_eq!(find_module(&modules, &units("b")).unwrap(), 40);
    assert!(matches!(find_module(&modules, &units("c")), Err(Error::ModuleNotFound)));
    assert_eq!(module_at(&modules, 40), Some(1));
    assert_eq!(module_at(&modules, 50), None);
}

#[test]
fn module_lists_give_up_with_the_last_error() {
    let (mut list, mut step) = ModuleList::start();
    let mut enumerations = 0;
    let error = loop {
        assert!(matches!(step, ModuleStep::Enumerate(256)));
        enumerations += 1;
        assert_eq!(list.enumerated(8, vec![10]).unwrap(), ModuleStep::Name(10));
        match list.unnamed(Error::InvalidTarget("gone")) {
            Ok(next) => step = next,
            Err(error) => break error,
        }
    };
    assert_eq!(enumerations, 5);
    assert!(matches!(error, Error::InvalidTarget("gone")));
    // A list that only ever outgrows its buffer has no such error.
    let (mut list, _) = ModuleList::start();
    let mut capacity = 256;
    let error = loop {
        match list.enumerated((capacity + 1) * 8, Vec::new()) {
            Ok(ModuleStep::Enumerate(next)) => capacity = next,
            Ok(other) => panic!("{other:?}"),
            Err(error) => break error,
        }
    };
    assert_eq!(capacity, 260);
    assert!(matches!(error, Error::ModuleNotFound));
    let (mut list, _) = ModuleList::start();
    assert!(list.enumerated(9, Vec::new()).is_err());
    assert_eq!(list.enumerated(0, Vec::new()).unwrap(), ModuleStep::Done);
    let same = [
        Module { base: 1, path: units("x") },
        Module { base: 2, path: units("x") },
    ];
    assert_eq!(find_module(&same, &units("x")).unwrap(), 1);
}

/// Validate a target against what Windows would say of it.
fn validate(target: &Target, pid: u32, current: u32, owner: u32, machines: [(u16, u16); 2]) -> stork::Result<()> {
    let mut step = start_validation(target)?;
    loop {
        step = match step {
            ValidationStep::ProcessId => check_process_id(target, pid, current)?,
            ValidationStep::ThreadOwner(thread) => {
                assert_eq!(Some(thread), target.main_thread);
                check_thread_owner(target, owner)?
            }
            ValidationStep::Machine(subject) => {
                let (machine, native) = machines[usize::from(subject == Subject::Target)];
                check_machine(subject, machine, native)?
            }
            ValidationStep::Done => return Ok(()),
        };
    }
}

const NATIVE: [(u16, u16); 2] = [(0, 0x8664), (0, 0x8664)];

#[test]
fn invalid_handle_and_identity_combinations() {
    let target = |process, thread, pid| Target::not_started(process, thread, pid);
    assert!(validate(&target(4, Some(8), 100), 100, 1, 100, NATIVE).is_ok());
    assert!(validate(&target(4, None, 100), 100, 1, 0, NATIVE).is_ok());
    for (bad, pid, current, owner, reason) in [
        (target(0, None, 100), 100, 1, 0, "invalid process handle or pid"),
        (target(usize::MAX, None, 100), 100, 1, 0, "invalid process handle or pid"),
        (target(4, None, 0), 0, 1, 0, "invalid process handle or pid"),
        (target(4, None, 100), 101, 1, 0, "process/pid mismatch or self-injection"),
        (target(4, None, 100), 100, 100, 0, "process/pid mismatch or self-injection"),
        (target(4, Some(0), 100), 100, 1, 100, "null thread handle"),
        (target(4, Some(8), 100), 100, 1, 101, "thread belongs to a different process"),
    ] {
        assert!(
            matches!(
                validate(&bad, pid, current, owner, NATIVE),
                Err(Error::InvalidTarget(why)) if why == reason
            ),
            "{reason}"
        );
    }
}

#[test]
fn both_processes_run_as_amd64() {
    let target = Target::not_started(4, None, 100);
    let run = |machines| validate(&target, 100, 1, 0, machines);
    // An emulated AMD64 process on another native machine is accepted.
    assert!(run([(0x8664, 0xaa64), (0, 0x8664)]).is_ok());
    assert!(matches!(
        run([(0, 0x8664), (0x14c, 0x8664)]),
        Err(Error::BitnessMismatch { injector_64: true, target_64: false })
    ));
    assert!(matches!(
        run([(0, 0xaa64), (0, 0x8664)]),
        Err(Error::UnsupportedMachine(0xaa64))
    ));
    assert!(check_architecture(true).is_ok());
    assert!(matches!(check_architecture(false), Err(Error::UnsupportedMachine(0))));
}

fn lookup() -> LoadLibraryLookup {
    LoadLibraryLookup::start(
        0x7000_1234,
        0x7000_0000,
        0x10_0000,
        0x8664,
        Strategy::QueueUserApc,
    )
    .unwrap()
}

#[test]
fn load_library_is_found_in_the_same_module() {
    let mappings = [
        Mapping { base: 0x100, path: terminated("other.dll") },
        Mapping { base: 0x200, path: terminated("kernel32.dll") },
        Mapping { base: 0x300, path: terminated("kernel32.dll") },
    ];
    assert_eq!(image_named(&mappings, &terminated("kernel32.dll")), Some(0x200));
    assert_eq!(image_named(&mappings, &terminated("absent.dll")), None);
    let lookup = lookup();
    assert_eq!(
        lookup.mapping(Some(0x9000_0000), LoaderState::Unknown, false).unwrap(),
        LookupStep::RemoteHeaders(0x9000_0000)
    );
    assert_eq!(
        lookup.headers(0x9000_0000, 0x10_0000, 0x8664).unwrap(),
        LookupStep::RemoteRegion { image: 0x9000_0000, address: 0x9000_1234 }
    );
    let code = Region {
        allocation_base: 0x9000_0000,
        protect: 0x20,
        ..region(0x9000_1000, 0x1000)
    };
    assert_eq!(
        lookup.region(0x9000_0000, 0x9000_1234, &code).unwrap(),
        LookupStep::Probe(0x9000_1234)
    );
    let probe = [0xcc; LOAD_LIBRARY_PROBE_BYTES];
    assert_eq!(
        lookup.probe(0x9000_1234, &probe, &probe).unwrap(),
        LookupStep::Found(0x9000_1234)
    );
    for (result, expected) in [
        (lookup.headers(0x9000_0000, 0x10_0001, 0x8664), "LoadLibrary module differs"),
        (lookup.headers(0x9000_0000, 0x10_0000, 0x14c), "LoadLibrary module differs"),
        (lookup.headers(usize::MAX, 0x10_0000, 0x8664), "function address overflow"),
        (
            lookup.region(0x9000_0000, 0x9000_1234, &Region { protect: 0x2, ..code }),
            "remote LoadLibrary address is not executable",
        ),
        (
            lookup.region(0x9000_0000, 0x9000_1234, &Region { protect: 0x120, ..code }),
            "remote LoadLibrary address is not executable",
        ),
        (
            lookup.region(0x9000_0000, 0x9000_1234, &Region { state: 0x2000, ..code }),
            "remote LoadLibrary address is not executable",
        ),
        (
            lookup.region(0x9100_0000, 0x9000_1234, &code),
            "remote LoadLibrary address is not executable",
        ),
        (lookup.probe(0x9000_1234, &probe, &[0xcd; 32]), "remote LoadLibrary code differs"),
    ] {
        assert_eq!(result.unwrap_err().to_string(), format!("PE parse error: {expected}"));
    }
    assert_eq!(
        LoadLibraryLookup::start(1, 2, 3, 4, Strategy::QueueUserApc).unwrap_err().to_string(),
        "PE parse error: function precedes module"
    );
}

#[test]
fn the_startup_exception_is_narrow() {
    for (major, build, tested) in [
        (10, 26200, true),
        (10, 26100, true),
        (10, 22631, false),
        (11, 26200, false),
    ] {
        assert_eq!(tested_startup_build(major, build), tested);
    }
    let lookup = lookup();
    let absent = |result: stork::Result<LookupStep>| {
        matches!(
            result,
            Err(Error::StrategyUnavailable { strategy: Strategy::QueueUserApc, reason })
                if reason.starts_with("LoadLibrary implementation is absent")
        )
    };
    assert_eq!(
        lookup.mapping(None, LoaderState::NotStarted, true).unwrap(),
        LookupStep::SystemRoot
    );
    assert!(absent(lookup.mapping(None, LoaderState::NotStarted, false)));
    assert!(absent(lookup.mapping(None, LoaderState::EarlyApc, true)));
    assert_eq!(lookup.system_root(true).unwrap(), LookupStep::LocalModule);
    assert!(matches!(
        lookup.system_root(false),
        Err(Error::InvalidTarget("SystemRoot is missing"))
    ));
    let kernel = units(r"C:\Windows\System32\kernel32.dll");
    assert_eq!(
        lookup.module(Some(kernel.clone()), &kernel).unwrap(),
        LookupStep::StartupRegion(0x7000_0000)
    );
    assert!(matches!(lookup.module(None, &kernel), Err(Error::ModuleNotFound)));
    assert!(matches!(
        lookup.module(Some(units("kernelbase.dll")), &kernel),
        Err(Error::StrategyUnavailable {
            strategy: Strategy::QueueUserApc,
            reason: "fresh-child forwarded LoadLibrary module is outside the tested scope",
        })
    ));
    let free = Region { state: MEM_FREE, ..region(0x6fff_0000, 0x11_0000) };
    assert_eq!(lookup.startup_region(&free).unwrap(), LookupStep::Found(0x7000_1234));
    assert!(absent(lookup.startup_region(&Region { size: 0x10_ffff, ..free })));
    assert!(absent(lookup.startup_region(&Region { state: MEM_COMMIT, ..free })));
    assert_eq!(
        lookup.startup_region(&Region { base: 0x7100_0000, ..free }).unwrap_err().to_string(),
        "PE parse error: memory region does not contain scan address"
    );
    let high = LoadLibraryLookup { base: usize::MAX - 1, local: usize::MAX, ..lookup };
    assert_eq!(
        high.startup_region(&free).unwrap_err().to_string(),
        "PE parse error: image extent overflow"
    );
}

/// Look LoadLibrary up in a target that maps its module at `image`, or does not.
fn look_up(image: Option<usize>, state: LoaderState) -> stork::Result<usize> {
    let lookup = lookup();
    let kernel = || units(r"C:\Windows\System32\kernel32.dll");
    let mut step = LookupStep::Mapping;
    loop {
        let answer = match step {
            LookupStep::Mapping => LookupAnswer::Mapping { image, tested: true },
            LookupStep::RemoteHeaders(_) => {
                LookupAnswer::Headers { image_size: 0x10_0000, machine: 0x8664 }
            }
            LookupStep::RemoteRegion { image, address } => LookupAnswer::Region(Region {
                allocation_base: image,
                protect: 0x20,
                ..region(address & !0xfff, 0x1000)
            }),
            LookupStep::Probe(_) => {
                LookupAnswer::Probed { local: vec![0xcc; 32], remote: vec![0xcc; 32] }
            }
            LookupStep::SystemRoot => LookupAnswer::SystemRoot(true),
            LookupStep::LocalModule => {
                LookupAnswer::Module { actual: Some(kernel()), expected: kernel() }
            }
            LookupStep::StartupRegion(base) => {
                LookupAnswer::Region(Region { state: MEM_FREE, ..region(base, 0x10_0000) })
            }
            LookupStep::Found(address) => return Ok(address),
        };
        // An answer to another step changes nothing.
        if step != LookupStep::SystemRoot {
            let other = lookup.next(state, step, LookupAnswer::SystemRoot(false));
            assert_eq!(other.unwrap(), step);
        }
        step = lookup.next(state, step, answer)?;
    }
}

#[test]
fn lookups_find_the_function_or_refuse() {
    for state in [LoaderState::NotStarted, LoaderState::Unknown] {
        assert_eq!(look_up(Some(0x9000_0000), state).unwrap(), 0x9000_1234);
    }
    assert_eq!(look_up(None, LoaderState::NotStarted).unwrap(), 0x7000_1234);
    assert!(matches!(
        look_up(None, LoaderState::LoaderComplete),
        Err(Error::StrategyUnavailable { strategy: Strategy::QueueUserApc, .. })
    ));
}

#[test]
fn dispatch_gates_do_not_touch_handles() {
    // Nothing asks for a process before the loader state admits the strategy.
    let target = |thread, state| Target::new(0, thread, 1, state);
    assert!(
        matches!(
            stork::injector::gate(Strategy::QueueUserApc, &target(None, LoaderState::NotStarted)),
            Err(Error::MissingThreadHandle)
        ),
        "APC without a thread must be refused"
    );
    assert!(
        matches!(
            stork::injector::gate(Strategy::QueueUserApc, &target(Some(0), LoaderState::Unknown)),
            Err(Error::StrategyUnavailable { strategy: Strategy::QueueUserApc, .. })
        ),
        "APC on Unknown loader state must fail"
    );
    for state in [LoaderState::LoaderComplete, LoaderState::Unknown, LoaderState::EarlyApc] {
        assert!(
            matches!(
                stork::injector::gate(Strategy::ImportTableHijack, &target(None, state)),
                Err(Error::StrategyUnavailable { strategy: Strategy::ImportTableHijack, .. })
            ),
            "IAT on {state:?} must be refused"
        );
    }
    let null = target(None, LoaderState::Unknown);
    stork::injector::gate(Strategy::LoadLibraryRemoteThread, &null).unwrap();
    assert!(
        matches!(start_validation(&null), Err(Error::InvalidTarget(_))),
        "CRT is admitted and fails later on the null handle"
    );
}
