//! Whole injections into a simulated target process.

use stork::error::pe;
use stork::injector::InjectionStep;
use stork::paths::{canonical, Resolved};
use stork::payload::Payload;
use stork::pe::headers::Headers;
use stork::pe::imports::ImportDescriptor;
use stork::pe::layout::u32_at;
use stork::pe::view::DataDirectory;
use stork::remote::allocation::RemoteAlloc;
use stork::remote::images::MainImage;
use stork::remote::memory::{
    check_read, check_write, Region, MEM_COMMIT, MEM_FREE, MEM_IMAGE,
};
use stork::remote::near::{near_exhausted, NearStep};
use stork::strategy::argument::{
    load_argument, Argument, ArgumentAction, ArgumentEvent,
};
use stork::strategy::commit::{
    block_fate, finish_injection, Commit, CommitAction, CommitEvent, Fate,
};
use stork::strategy::hijack::Import;
use stork::strategy::import_table::{
    clr_address, clr_header, select_model, ClrHeader, WalkStep,
};
use stork::strategy::load_library::{
    wait_end, wait_end_with, wait_outcome, LoadAction, LoadEvent, RemoteLoad, WaitEnd,
};
use stork::strategy::patch::{PatchAction, PatchEvent, PatchTransaction};
use stork::{Error, InjectedModule, Injector, LoadTiming, LoaderState, Result, Strategy, Target};

const PAGE: usize = 0x1000;
const BASE: usize = 0x1_4000_0000;

fn units(text: &str) -> Vec<u16> {
    text.encode_utf16().collect()
}

fn put16(b: &mut [u8], o: usize, v: u16) {
    stork::pe::layout::write(b, o, &v).unwrap();
}

fn put32(b: &mut [u8], o: usize, v: u32) {
    stork::pe::layout::write(b, o, &v).unwrap();
}

/// A minimal PE32+ AMD64 DLL that exports one symbol as ordinal 1.
fn dll() -> Vec<u8> {
    let mut b = vec![0; 0x1800];
    put16(&mut b, 0, 0x5a4d);
    put32(&mut b, 60, 0x100);
    b[0x100..0x104].copy_from_slice(b"PE\0\0");
    put16(&mut b, 0x104, 0x8664);
    put16(&mut b, 0x106, 1);
    put16(&mut b, 0x114, 240);
    put16(&mut b, 0x116, 0x2000);
    put16(&mut b, 0x118, 0x20b);
    put32(&mut b, 0x150, 0x2000);
    put32(&mut b, 0x154, 0x400);
    put32(&mut b, 0x184, 16);
    put32(&mut b, 0x188, 0x1000);
    put32(&mut b, 0x18c, 0x200);
    for (offset, value) in [(8, 0x1000), (12, 0x1000), (16, 0x1000), (20, 0x800)] {
        put32(&mut b, 0x208 + offset, value);
    }
    for (offset, value) in [(16, 1), (20, 1), (28, 0x1100), (0x100, 0x1300)] {
        put32(&mut b, 0x800 + offset, value);
    }
    b
}

fn payload() -> Payload {
    Payload::load(units(r"\\?\C:\payload.dll"), dll(), Strategy::ImportTableHijack).unwrap()
}

/// A never-run process: the mapped main image, and what was allocated.
struct Process {
    image: Vec<u8>,
    blocks: Vec<(usize, Vec<u8>)>,
    writes: usize,
}

/// A main image of four pages with one section. `magic` tells the format.
fn process(machine: u16, magic: u16) -> Process {
    let mut image = vec![0; 4 * PAGE];
    let (optional, directories) = if magic == 0x20b { (240, 112) } else { (224, 96) };
    put16(&mut image, 0, 0x5a4d);
    put32(&mut image, 60, 0x80);
    put32(&mut image, 0x80, 0x4550);
    put16(&mut image, 0x84, machine);
    put16(&mut image, 0x86, 1);
    put16(&mut image, 0x94, optional);
    put16(&mut image, 0x96, 0x22);
    put16(&mut image, 0x98, magic);
    put32(&mut image, 0xd0, 0x4000);
    put32(&mut image, 0xd4, 0x400);
    put32(&mut image, 0xd8, 0x1234);
    put32(&mut image, 0x98 + directories - 4, 16);
    let section = 0x98 + optional as usize;
    put32(&mut image, section + 8, 0x1000);
    put32(&mut image, section + 12, 0x1000);
    put32(&mut image, section + 16, 0x800);
    put32(&mut image, section + 20, 0x400);
    Process { image, blocks: Vec::new(), writes: 0 }
}

/// A native target that imports from one module.
fn entry() -> Process {
    let mut process = process(0x8664, 0x20b);
    first_import().write(&mut process.image[0x1100..]);
    process.image[0x1200..0x120d].copy_from_slice(b"kernel32.dll\0");
    process.set_directory(1, 0x1100, 40);
    process.set_directory(12, 0x1300, 0x20);
    process
}

fn first_import() -> ImportDescriptor {
    ImportDescriptor {
        original_first_thunk: 0x1280,
        name: 0x1200,
        first_thunk: 0x1300,
        ..Default::default()
    }
}

/// A managed target with these CLR flags.
fn managed(machine: u16, magic: u16, flags: u32) -> Process {
    let mut process = process(machine, magic);
    first_import().write(&mut process.image[0x1100..]);
    process.set_directory(1, 0x1100, 40);
    process.set_directory(14, 0x1400, 72);
    put32(&mut process.image, 0x1400, 72);
    put32(&mut process.image, 0x1410, flags);
    process
}

impl Process {
    fn set_directory(&mut self, index: usize, rva: u32, size: u32) {
        let magic = u16::from_le_bytes([self.image[0x98], self.image[0x99]]);
        let start = 0x98 + if magic == 0x20b { 112 } else { 96 } + index * 8;
        put32(&mut self.image, start, rva);
        put32(&mut self.image, start + 4, size);
    }

    fn read(&self, address: usize, size: usize) -> Result<Vec<u8>> {
        check_read(address, size)?;
        for (start, bytes) in &self.blocks {
            if *start <= address && address + size <= start + bytes.len() {
                return Ok(bytes[address - start..][..size].to_vec());
            }
        }
        self.image
            .get(address - BASE..address - BASE + size)
            .map(<[u8]>::to_vec)
            .ok_or_else(|| pe("unmapped"))
    }

    fn write(&mut self, address: usize, bytes: &[u8]) -> Result<()> {
        check_write(address, bytes.len())?;
        self.writes += 1;
        for (start, block) in &mut self.blocks {
            if *start <= address && address + bytes.len() <= *start + block.len() {
                block[address - *start..][..bytes.len()].copy_from_slice(bytes);
                return Ok(());
            }
        }
        self.image[address - BASE..][..bytes.len()].copy_from_slice(bytes);
        Ok(())
    }

    fn headers(&self) -> Headers {
        Headers::parse_remote(&self.image[..0x400]).unwrap()
    }

    fn patch(&mut self, base: usize, original: &[u8], patched: &[u8]) -> Result<()> {
        let mut transaction =
            PatchTransaction::start(base, original.to_vec(), patched.to_vec(), PAGE)?;
        loop {
            let event = match transaction.action() {
                PatchAction::Query(address) => PatchEvent::Region(Ok(Region {
                    base: address,
                    size: PAGE,
                    allocation_base: BASE,
                    state: MEM_COMMIT,
                    protect: 0x2,
                    kind: MEM_IMAGE,
                })),
                PatchAction::Protect { .. } => PatchEvent::Protected(Ok(0x2)),
                PatchAction::WritePatched => PatchEvent::Wrote(self.write(base, patched)),
                PatchAction::WriteOriginal => PatchEvent::Wrote(self.write(base, original)),
                PatchAction::Read => PatchEvent::Read(self.read(base, patched.len())),
                PatchAction::Restore { .. } => PatchEvent::Restored(Ok(())),
                PatchAction::Finish => return transaction.finish(),
            };
            transaction.step(event);
        }
    }

    fn clr(&self, image: &MainImage) -> Result<Option<ClrHeader>> {
        match clr_address(image.base, &image.headers)? {
            None => Ok(None),
            Some(va) => clr_header(va, &image.headers, &self.read(va, 20)?).map(Some),
        }
    }

    fn allocate_near(&mut self, size: usize) -> Result<RemoteAlloc> {
        let mut search = RemoteAlloc::near(BASE, size, 0x1_0000)?;
        let mut step = search.step();
        loop {
            step = match step {
                NearStep::Query(address) if address < BASE + self.image.len() => {
                    search.region(&Region {
                        base: BASE,
                        size: self.image.len(),
                        allocation_base: BASE,
                        state: MEM_COMMIT,
                        protect: 0x2,
                        kind: MEM_IMAGE,
                    })?
                }
                NearStep::Query(address) => search.region(&Region {
                    base: address,
                    size: 0x100_0000,
                    allocation_base: 0,
                    state: MEM_FREE,
                    protect: 0x1,
                    kind: 0,
                })?,
                NearStep::Allocate(candidate) => search.allocated(Some(candidate)),
                NearStep::Release(_) => search.released(),
                NearStep::Keep(address) => {
                    self.blocks.push((address, vec![0; size]));
                    return RemoteAlloc::new(address);
                }
                NearStep::Exhausted => return Err(near_exhausted()),
            };
        }
    }

    fn commit(&mut self, original: &[u8], patched: &[u8], clr: Option<ClrHeader>) -> Result<()> {
        let mut commit = Commit::start(clr);
        loop {
            let event = match commit.action() {
                CommitAction::PatchHeaders => {
                    CommitEvent::Patched(self.patch(BASE, original, patched))
                }
                CommitAction::ReadFlags(address) => CommitEvent::Read(self.read(address, 4)),
                CommitAction::PatchFlags(address) => {
                    let (current, next) = commit.flag_bytes();
                    CommitEvent::Patched(self.patch(address, &current, &next))
                }
                CommitAction::UndoHeaders => {
                    CommitEvent::Patched(self.patch(BASE, patched, original))
                }
                CommitAction::Finish => return commit.finish(),
            };
            commit.step(event);
        }
    }

    /// Rewrite the imports of the main image.
    fn inject(&mut self, payload: &Payload) -> Result<InjectedModule> {
        let import = Import::of(payload)?;
        let bytes = self.read(BASE, 0x400)?;
        let image = MainImage { base: BASE, headers: Headers::parse_remote(&bytes)?, bytes };
        let clr = self.clr(&image)?;
        let mut plan = import.plan(image, clr)?;
        while let WalkStep::Read(address) = plan.walk.step()? {
            let descriptor = self.read(address, ImportDescriptor::SIZE)?;
            plan.walk.received(&descriptor)?;
        }
        let mut allocation = self.allocate_near(plan.size()?)?;
        let result = plan.block(allocation.address).and_then(|block| {
            self.write(allocation.address, &block.bytes)?;
            let plan = plan.patch(&block)?;
            self.commit(&plan.original, &plan.model.patched, plan.clr)
        });
        let release = match block_fate(&result) {
            Fate::Retain => {
                allocation.retain();
                Ok(())
            }
            Fate::Release => {
                self.blocks.retain(|(start, _)| *start != allocation.address);
                allocation.release(true)
            }
        };
        assert!(!allocation.frees_on_drop());
        finish_injection(result, release)
    }

    /// The descriptors that the import directory names now.
    fn imports(&self) -> Vec<ImportDescriptor> {
        let directory = self.headers().directories[1];
        let mut found = Vec::new();
        loop {
            let address = BASE + directory.rva as usize + found.len() * 20;
            let next = ImportDescriptor::parse(&self.read(address, 20).unwrap()).unwrap();
            if next.name == 0 {
                return found;
            }
            found.push(next);
        }
    }

    /// The module name of a descriptor.
    fn module_name(&self, descriptor: &ImportDescriptor) -> Vec<u8> {
        let mut name = Vec::new();
        loop {
            let address = BASE + descriptor.name as usize + name.len();
            match self.read(address, 1).unwrap()[0] {
                0 => return name,
                byte => name.push(byte),
            }
        }
    }
}

#[test]
fn no_imports_use_the_whole_allocation_for_iat() {
    let mut process = process(0x8664, 0x20b);
    let none = DataDirectory { rva: 0, size: 0 };
    assert_eq!(process.headers().directories[1], none);
    assert_eq!(process.headers().directories[12], none);
    let injected = process.inject(&payload()).unwrap();
    assert_eq!(injected.timing, LoadTiming::OnResume);
    let after = process.headers();
    assert_ne!(after.directories[1].rva, 0);
    assert!(after.directories[1].size > 32);
    assert_eq!(after.directories[12], after.directories[1]);
    assert_eq!(process.imports().len(), 1);
}

#[test]
fn size_zero_import_directory_walks_and_loads() {
    let mut process = entry();
    // The size of the directory goes, its address stays: the walk must find
    // the null descriptor and still succeed.
    process.set_directory(1, 0x1100, 0);
    assert_eq!(process.headers().directories[1].size, 0);
    let injected = process.inject(&payload()).unwrap();
    assert_eq!(injected.timing, LoadTiming::OnResume);
    let imports = process.imports();
    assert_eq!(imports.len(), 2);
    assert_eq!(process.module_name(&imports[0]), br"C:\payload.dll");
    assert_eq!(imports[1], first_import());
}

#[test]
fn missing_iat_directory_falls_back_to_import_section() {
    let mut process = entry();
    let old_import = process.headers().directories[1];
    assert_ne!(old_import.rva, 0, "fixture must import something");
    let sections = process.headers().sections;
    let section = sections
        .iter()
        .find(|s| {
            old_import.rva >= s.rva
                && u64::from(old_import.rva)
                    < u64::from(s.rva) + u64::from(s.virtual_size.max(s.raw_size))
        })
        .expect("import section");
    // Absent IAT directory: rva and size both zero.
    process.set_directory(12, 0, 0);
    assert_eq!(process.inject(&payload()).unwrap().timing, LoadTiming::OnResume);
    let after = process.headers();
    assert_eq!(
        after.directories[12].rva, section.rva,
        "IAT fallback must name the import section"
    );
    assert_eq!(after.directories[12].size, section.raw_size);
}

#[test]
fn bound_import_directory_is_cleared() {
    let mut process = entry();
    process.set_directory(11, 0x2c0, 0x40);
    assert_eq!(process.inject(&payload()).unwrap().timing, LoadTiming::OnResume);
    let after = process.headers();
    assert_eq!(after.directories[11].rva, 0, "bound-import directory must be cleared");
    assert_eq!(after.directories[11].size, 0);
    assert_ne!(after.directories[1].rva, 0, "import directory must be repointed");
}

#[test]
fn import_descriptor_bounds_and_loader_owned_names() {
    let walked = |process: &Process| -> Result<Vec<ImportDescriptor>> {
        let bytes = process.read(BASE, 0x400)?;
        let image = MainImage { base: BASE, headers: Headers::parse_remote(&bytes)?, bytes };
        let mut plan = Import::of(&payload())?.plan(image, None)?;
        while let WalkStep::Read(address) = plan.walk.step()? {
            plan.walk.received(&process.read(address, 20)?)?;
        }
        Ok(plan.walk.finish())
    };
    let mut process = entry();
    // 1. Size without an RVA is inconsistent.
    process.set_directory(1, 0, 40);
    assert!(walked(&process).is_err());
    process.set_directory(1, 0x1100, 40);
    // 2. Name validity belongs to the loader. Flood the image so no NUL exists
    // behind the name.
    let original_names = process.image[0x1200..].to_vec();
    process.image[0x1200..].fill(b'A');
    assert_eq!(walked(&process).unwrap()[0], first_import());
    process.image[0x1200..].copy_from_slice(&original_names);
    assert!(walked(&process).is_ok());
    // 3. Name == 0 terminates the table, even with other fields set.
    process.image[0x110c..0x1110].fill(0);
    assert!(walked(&process).unwrap().is_empty());
}

#[test]
fn rewritten_imports_keep_those_of_the_image() {
    let mut process = entry();
    let before = process.headers();
    process.inject(&payload()).unwrap();
    let imports = process.imports();
    assert_eq!(imports.len(), 2);
    assert_eq!(process.module_name(&imports[0]), br"C:\payload.dll");
    assert_eq!(imports[1], first_import());
    // Both thunk tables of the payload name ordinal 1.
    for table in [imports[0].original_first_thunk, imports[0].first_thunk] {
        let thunks = process.read(BASE + table as usize, 16).unwrap();
        assert_eq!(thunks[..8], 0x8000_0000_0000_0001u64.to_le_bytes());
        assert_eq!(thunks[8..], [0; 8]);
    }
    let after = process.headers();
    assert_eq!(after.directories[12], before.directories[12]);
    assert_eq!(after.sections, before.sections);
    assert_eq!(u32_at(&process.image, 0xd8).unwrap(), 0);
    assert_eq!(process.blocks.len(), 1);
}

#[test]
fn managed_targets_are_widened_and_unmarked() {
    // AnyCPU: PE32 headers in an AMD64 process.
    let mut process = managed(0x14c, 0x10b, 0x0002_0001);
    process.inject(&payload()).unwrap();
    let after = process.headers();
    assert_eq!((after.machine, after.magic), (0x8664, 0x20b));
    assert_eq!(after.directories[14], DataDirectory { rva: 0x1400, size: 72 });
    assert_eq!(u32_at(&process.image, 0x1410).unwrap(), 0x0002_0000);
    // The 32-bit import table is gone.
    assert_eq!(process.imports().len(), 1);
    // AMD64 pure IL keeps its imports and loses the mark.
    let mut process = managed(0x8664, 0x20b, 0x1);
    process.inject(&payload()).unwrap();
    assert_eq!(process.imports().len(), 2);
    assert_eq!(u32_at(&process.image, 0x1410).unwrap(), 0);
    // Mixed mode has no mark.
    let mut process = managed(0x8664, 0x20b, 0);
    process.inject(&payload()).unwrap();
    assert_eq!(process.imports().len(), 2);
}

#[test]
fn refusals_come_before_any_mutation() {
    for (mut process, expected) in [
        (managed(0x8664, 0x20b, 0x2), "32BITREQUIRED managed targets are unsupported"),
        (managed(0x14c, 0x10b, 0x3), "32BITREQUIRED managed targets are unsupported"),
        (managed(0x14c, 0x10b, 0), "mixed-mode 32-bit managed targets are unsupported"),
        (process(0x14c, 0x10b), "PE32 targets need a CLR header (managed AnyCPU)"),
    ] {
        let before = process.image.clone();
        let error = process.inject(&payload()).unwrap_err();
        assert!(matches!(
            error,
            Error::StrategyUnavailable { strategy: Strategy::ImportTableHijack, reason }
                if reason == expected
        ));
        assert_eq!(process.writes, 0);
        assert!(process.blocks.is_empty());
        assert_eq!(process.image, before);
    }
    let exportless = {
        let mut bytes = dll();
        put32(&mut bytes, 0x188, 0);
        put32(&mut bytes, 0x18c, 0);
        Payload::load(units(r"C:\payload.dll"), bytes, Strategy::ImportTableHijack).unwrap()
    };
    assert!(matches!(
        entry().inject(&exportless),
        Err(Error::StrategyUnavailable { strategy: Strategy::ImportTableHijack, .. })
    ));
}

#[test]
fn plans_follow_the_ordinal_and_the_model() {
    let payload = payload();
    assert!(matches!(
        Import::by_ordinal(&payload, Err(Error::ModuleNotFound)),
        Err(Error::ModuleNotFound)
    ));
    let import = Import::by_ordinal(&payload, Ok(7)).unwrap();
    assert_eq!(import.path, payload.path());
    let process = entry();
    let bytes = process.read(BASE, 0x400).unwrap();
    let model = select_model(Headers::parse_remote(&bytes).unwrap(), &bytes, None).unwrap();
    let plan = import.plan_against(BASE, bytes.clone(), None, model).unwrap();
    assert_eq!((plan.ordinal, plan.base), (7, BASE));
    assert_eq!(plan.name, b"C:\\payload.dll");
    assert_eq!(plan.original, bytes);
    assert_eq!(plan.walk.step().unwrap(), WalkStep::Read(BASE + 0x1100));
}

#[test]
fn iat_rejects_non_ascii_and_oversized_paths() {
    let deep = "very-long-directory-name-for-the-iat-path-limit\\".repeat(14);
    let long = format!("C:\\neg\\{deep}test_payload.dll");
    assert!(long.encode_utf16().count() > 260, "the path must exceed MAX_PATH");
    for path in ["C:\\neg\\\u{fc}n\u{ef}code\\test_payload.dll", &long] {
        let payload =
            Payload::load(units(path), dll(), Strategy::ImportTableHijack).unwrap();
        let mut process = entry();
        assert!(matches!(process.inject(&payload), Err(Error::UnsupportedPath(_))));
        assert_eq!(process.writes, 0);
    }
}

#[test]
fn payload_file_errors() {
    let missing = units(r"C:\workspace\no-such-payload.dll");
    assert!(
        matches!(
            canonical(&missing, Resolved::NotFound),
            Err(Error::DllNotFound(path)) if path == missing
        ),
        "a missing DLL must report DllNotFound"
    );
    let directory = units(r"C:\workspace\src");
    assert!(
        matches!(
            canonical(&directory, Resolved::Found { path: directory.clone(), is_file: false }),
            Err(Error::UnsupportedPath(_))
        ),
        "a directory must be rejected"
    );
    // An embedded NUL cannot name a real file.
    let nul_path =
        [b'D' as u16, b':' as u16, b'\\' as u16, b'a' as u16, 0, b'b' as u16];
    assert!(
        matches!(canonical(&nul_path, Resolved::NotFound), Err(Error::UnsupportedPath(_))),
        "an embedded NUL must be rejected"
    );
}

/// Prepare the argument for a path, with what the target answers.
fn prepare(
    path: &str,
    function: Result<usize>,
    address: Result<usize>,
    written: Result<()>,
    released: Result<()>,
) -> (Result<(usize, usize)>, Vec<ArgumentAction>) {
    let mut argument = Argument::start(&units(path));
    let mut actions = Vec::new();
    let (mut function, mut address) = (Some(function), Some(address));
    let (mut written, mut released) = (Some(written), Some(released));
    loop {
        let action = argument.action();
        actions.push(action);
        let event = match action {
            ArgumentAction::Resolve => ArgumentEvent::Resolved(function.take().unwrap()),
            ArgumentAction::Allocate(_) => ArgumentEvent::Allocated(address.take().unwrap()),
            ArgumentAction::Write(_) => ArgumentEvent::Wrote(written.take().unwrap()),
            ArgumentAction::Release(_) => ArgumentEvent::Released(released.take().unwrap()),
            ArgumentAction::Finish => {
                let prepared = argument.finish().map(|p| (p.function, p.address));
                return (prepared, actions);
            }
        };
        argument.step(event);
    }
}

#[test]
fn arguments_are_written_or_released() {
    let (prepared, actions) = prepare("a.dll", Ok(7), Ok(0x9000), Ok(()), Ok(()));
    assert_eq!(prepared.unwrap(), (7, 0x9000));
    assert_eq!(
        actions,
        [
            ArgumentAction::Resolve,
            ArgumentAction::Allocate(12),
            ArgumentAction::Write(0x9000),
            ArgumentAction::Finish,
        ]
    );
    let (prepared, actions) = prepare("a.dll", Err(pe("absent")), Ok(1), Ok(()), Ok(()));
    assert_eq!(prepared.unwrap_err().to_string(), "PE parse error: absent");
    assert_eq!(actions.len(), 2);
    let (prepared, actions) = prepare("a\0.dll", Ok(7), Ok(1), Ok(()), Ok(()));
    assert!(matches!(prepared, Err(Error::UnsupportedPath("embedded NUL"))));
    assert_eq!(actions, [ArgumentAction::Resolve, ArgumentAction::Finish]);
    let (prepared, actions) = prepare("a.dll", Ok(7), Err(pe("full")), Ok(()), Ok(()));
    assert_eq!(prepared.unwrap_err().to_string(), "PE parse error: full");
    assert_eq!(actions.len(), 3);
    let (prepared, actions) =
        prepare("a.dll", Ok(7), Ok(0x9000), Err(pe("unwritten")), Ok(()));
    assert_eq!(prepared.unwrap_err().to_string(), "PE parse error: unwritten");
    assert_eq!(actions[3..], [ArgumentAction::Release(0x9000), ArgumentAction::Finish]);
    let (prepared, _) =
        prepare("a.dll", Ok(7), Ok(0x9000), Err(pe("unwritten")), Err(pe("unreleased")));
    let Error::Cleanup { operation, cleanup } = prepared.unwrap_err() else {
        panic!("both errors must be retained")
    };
    assert_eq!(operation.to_string(), "PE parse error: unwritten");
    assert_eq!(cleanup.to_string(), "PE parse error: unreleased");
}

#[test]
fn wait_failure_keeps_the_original_load_pending() {
    let payload = r"C:\payload.dll";
    let (prepared, _) = prepare(payload, Ok(7), Ok(0x9000), Ok(()), Ok(()));
    let (_, retained_address) = prepared.unwrap();
    assert_eq!(retained_address, 0x9000);
    let mut load = RemoteLoad::start();
    load.step(LoadEvent::Created(Ok(())));
    load.step(LoadEvent::Waited(Err(Error::RemotePending(
        std::io::Error::from_raw_os_error(6),
    ))));
    // Nothing asks for the release of the argument.
    assert_eq!(load.action(), LoadAction::Finish);
    assert!(!load.is_armed());
    let error = load.finish().unwrap_err();
    assert!(
        matches!(error, Error::RemotePending(ref source) if source.raw_os_error() == Some(6))
    );
    let expected: Vec<_> = payload
        .encode_utf16()
        .chain(Some(0))
        .flat_map(|unit| unit.to_le_bytes())
        .collect();
    assert_eq!(load_argument(&units(payload)).unwrap(), expected);
}

#[test]
fn wait_results_are_told_apart() {
    assert!(matches!(wait_end(0), WaitEnd::Signaled));
    assert!(matches!(wait_end(0x102), WaitEnd::TimedOut));
    assert!(matches!(wait_end(0xffff_ffff), WaitEnd::Failed(_)));
    let last = || std::io::Error::from_raw_os_error(6);
    assert!(matches!(wait_end_with(0, last()), WaitEnd::Signaled));
    assert!(matches!(
        wait_end_with(0xffff_ffff, last()),
        WaitEnd::Failed(source) if source.raw_os_error() == Some(6)
    ));
    assert!(matches!(
        wait_end_with(0xdead, last()),
        WaitEnd::Failed(source) if source.to_string() == "unexpected thread wait result: 0xdead"
    ));
    let error = wait_outcome(wait_end(0x80)).unwrap_err();
    assert!(matches!(
        error,
        Error::RemotePending(ref source)
            if source.to_string() == "unexpected thread wait result: 0x80"
    ));
}

#[test]
fn allocations_are_retained_or_released() {
    let mut allocation = RemoteAlloc::new(0x9000).unwrap();
    assert!(allocation.frees_on_drop());
    assert!(matches!(
        allocation.release(false),
        Err(Error::Win32 { call: "VirtualFreeEx", .. })
    ));
    assert!(allocation.frees_on_drop());
    allocation.release(true).unwrap();
    assert!(!allocation.frees_on_drop());
    let mut allocation = RemoteAlloc::new(0x9000).unwrap();
    allocation.retain();
    assert!(!allocation.frees_on_drop());
    assert!(matches!(RemoteAlloc::new(0), Err(Error::Win32 { call: "VirtualAllocEx", .. })));
    let written = RemoteAlloc::new(0x9000).unwrap().with_bytes(Ok(()), false).unwrap();
    assert!(written.frees_on_drop());
    let failed = |freed| RemoteAlloc::new(0x9000).unwrap().with_bytes(Err(pe("write")), freed);
    assert_eq!(failed(true).unwrap_err().to_string(), "PE parse error: write");
    assert!(matches!(failed(false).unwrap_err(), Error::Cleanup { .. }));
}

#[test]
fn injections_check_everything_before_a_strategy_runs() {
    let target = Target::not_started(4, Some(8), 100);
    for strategy in [
        Strategy::LoadLibraryRemoteThread,
        Strategy::QueueUserApc,
        Strategy::ImportTableHijack,
    ] {
        let injector = Injector::with_strategy(strategy);
        assert_eq!(injector.inject(&target, None, None).unwrap(), InjectionStep::Validate);
        assert_eq!(
            injector.inject(&target, Some(Ok(())), None).unwrap(),
            InjectionStep::LoadPayload
        );
        assert_eq!(
            injector.inject(&target, Some(Ok(())), Some(Ok(()))).unwrap(),
            InjectionStep::Run(strategy)
        );
        assert!(matches!(
            injector.inject(&target, Some(Err(Error::InvalidTarget("no"))), None),
            Err(Error::InvalidTarget("no"))
        ));
        assert!(matches!(
            injector.inject(&target, Some(Ok(())), Some(Err(Error::ModuleNotFound))),
            Err(Error::ModuleNotFound)
        ));
    }
    let early = Target::new(4, Some(8), 100, LoaderState::EarlyApc);
    assert!(matches!(
        stork::inject(&early, None, None),
        Err(Error::StrategyUnavailable { .. })
    ));
    assert_eq!(
        stork::inject(&target, Some(Ok(())), Some(Ok(()))).unwrap(),
        InjectionStep::Run(Strategy::LoadLibraryRemoteThread)
    );
}
