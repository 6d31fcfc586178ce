use stork::error::pe;
use stork::remote::memory::{Region, MEM_COMMIT};
use stork::strategy::commit::{
    block_fate, finish_injection, Commit, CommitAction, CommitEvent, Fate,
};
use stork::strategy::import_table::{ClrHeader, CLR_FLAGS_OFFSET, COR_FLAG_ILONLY};
use stork::strategy::patch::{
    PatchAction, PatchEvent, PatchTransaction, PAGE_EXECUTE_READWRITE, PAGE_READWRITE,
};
use stork::{Error, LoadTiming, Result};

const PAGE: usize = 4096;
const PAGE_READONLY: u32 = 0x2;
const PAGE_EXECUTE_READ: u32 = 0x20;

#[derive(Clone, Copy, PartialEq)]
enum Fault {
    Absent,
    PartialWrite,
    Rollback,
    Restore,
    Query(usize),
    Protect(usize),
    Verify,
}

/// Two pages of another process.
struct Process {
    address: usize,
    bytes: Vec<u8>,
    protections: Vec<u32>,
    fault: Fault,
    restored: Vec<usize>,
}

impl Process {
    fn new() -> Self {
        Process {
            address: 0x7ff6_0000_0000,
            bytes: vec![0; 2 * PAGE],
            protections: vec![PAGE_READWRITE; 2],
            fault: Fault::Absent,
            restored: Vec::new(),
        }
    }

    fn write(&mut self, address: usize, bytes: &[u8]) {
        let start = address - self.address;
        for page in start / PAGE..=(start + bytes.len() - 1) / PAGE {
            let protection = self.protections[page];
            assert!(protection == PAGE_READWRITE || protection == PAGE_EXECUTE_READWRITE);
        }
        self.bytes[start..start + bytes.len()].copy_from_slice(bytes);
    }

    fn read(&self, address: usize, size: usize) -> Vec<u8> {
        self.bytes[address - self.address..][..size].to_vec()
    }

    fn page(&self, address: usize) -> usize {
        assert_eq!(address % PAGE, 0);
        (address - self.address) / PAGE
    }

    /// Run a transaction to its end.
    fn patch(&mut self, base: usize, original: &[u8], patched: &[u8]) -> Result<()> {
        let mut transaction =
            PatchTransaction::start(base, original.to_vec(), patched.to_vec(), PAGE)?;
        let mut failed = false;
        loop {
            let event = match transaction.action() {
                PatchAction::Query(address) => PatchEvent::Region(
                    if self.fault == Fault::Query(self.page(address)) {
                        Err(pe("test query failure"))
                    } else {
                        Ok(Region {
                            base: address,
                            size: PAGE,
                            allocation_base: self.address,
                            state: MEM_COMMIT,
                            protect: self.protections[self.page(address)],
                            kind: 0x2_0000,
                        })
                    },
                ),
                PatchAction::Protect { address, size, protection } => {
                    assert_eq!(size, PAGE);
                    let page = self.page(address);
                    PatchEvent::Protected(if self.fault == Fault::Protect(page) {
                        Err(pe("test protection failure"))
                    } else {
                        Ok(std::mem::replace(&mut self.protections[page], protection))
                    })
                }
                PatchAction::WritePatched => PatchEvent::Wrote(
                    if matches!(self.fault, Fault::PartialWrite | Fault::Rollback) {
                        failed = true;
                        self.write(base, &patched[..patched.len() / 2]);
                        Err(pe("test partial write"))
                    } else {
                        self.write(base, patched);
                        Ok(())
                    },
                ),
                PatchAction::WriteOriginal => PatchEvent::Wrote(if self.fault == Fault::Rollback {
                    Err(pe("test rollback write failure"))
                } else {
                    failed = true;
                    self.write(base, original);
                    Ok(())
                }),
                PatchAction::Read => PatchEvent::Read(if self.fault == Fault::Verify && !failed {
                    Ok(vec![0xff; patched.len()])
                } else {
                    Ok(self.read(base, patched.len()))
                }),
                PatchAction::Restore { address, size, protection } => {
                    assert_eq!(size, PAGE);
                    let page = self.page(address);
                    self.restored.push(page);
                    self.protections[page] = protection;
                    PatchEvent::Restored(if self.fault == Fault::Restore {
                        Err(pe("test restoration failure"))
                    } else {
                        Ok(())
                    })
                }
                PatchAction::Finish => return transaction.finish(),
            };
            transaction.step(event);
        }
    }
}

#[test]
fn mismatched_patch_lengths_fail_before_touching_memory() {
    assert!(PatchTransaction::start(0, vec![1], vec![2, 3], PAGE).is_err());
}

#[test]
fn patch_extents_do_not_overflow() {
    for base in [usize::MAX, usize::MAX - PAGE + 1] {
        assert_eq!(
            PatchTransaction::start(base, vec![1], vec![2], PAGE).unwrap_err().to_string(),
            "PE parse error: header protection overflow"
        );
    }
    let past = usize::MAX - PAGE;
    assert!(PatchTransaction::start(past, vec![1], vec![2], PAGE).is_ok());
}

#[test]
fn partial_write_restores_bytes_and_each_page() {
    let mut process = Process::new();
    let old = vec![1; 8192];
    let address = process.address;
    process.write(address, &old);
    process.protections = vec![PAGE_READONLY, PAGE_EXECUTE_READ];
    process.fault = Fault::PartialWrite;
    assert!(process.patch(address, &old, &vec![2; 8192]).is_err());
    assert_eq!(process.read(address, 8192), old);
    assert_eq!(process.protections[0], PAGE_READONLY);
    assert_eq!(process.protections[1], PAGE_EXECUTE_READ);
    process.fault = Fault::Rollback;
    let error = process.patch(address, &old, &vec![3; 8192]).unwrap_err();
    assert!(error.must_not_resume());
    let message = error.to_string();
    assert!(message.contains("test partial write"));
    assert!(message.contains("test rollback write failure"));
    process.fault = Fault::Restore;
    assert!(matches!(
        process.patch(address, &old, &vec![4; 8192]),
        Err(Error::ProtectionRestore(_))
    ));
}

#[test]
fn patches_are_verified_and_restore_the_last_page_first() {
    let mut process = Process::new();
    let address = process.address + PAGE - 2;
    let old = process.read(address, 4);
    process.protections = vec![PAGE_READONLY, PAGE_EXECUTE_READ];
    process.patch(address, &old, &[1, 2, 3, 4]).unwrap();
    assert_eq!(process.read(address, 4), [1, 2, 3, 4]);
    assert_eq!(process.protections, [PAGE_READONLY, PAGE_EXECUTE_READ]);
    assert_eq!(process.restored, [1, 0]);
    // Bytes that do not read back are rolled back.
    process.fault = Fault::Verify;
    let error = process.patch(address, &[1, 2, 3, 4], &[5; 4]).unwrap_err();
    assert_eq!(error.to_string(), "PE parse error: header verification failed");
    assert!(!error.must_not_resume());
    assert_eq!(process.read(address, 4), [1, 2, 3, 4]);
    assert_eq!(process.protections, [PAGE_READONLY, PAGE_EXECUTE_READ]);
}

#[test]
fn pages_that_stay_protected_end_a_patch_before_any_write() {
    for (fault, restored, expected) in [
        (Fault::Query(0), vec![], "PE parse error: test query failure"),
        (Fault::Query(1), vec![0], "PE parse error: test query failure"),
        (Fault::Protect(0), vec![], "PE parse error: test protection failure"),
        (Fault::Protect(1), vec![0], "PE parse error: test protection failure"),
    ] {
        let mut process = Process::new();
        let address = process.address;
        process.protections = vec![PAGE_READONLY, PAGE_EXECUTE_READ];
        process.fault = fault;
        let error = process.patch(address, &[0; 8192], &[1; 8192]).unwrap_err();
        assert_eq!(error.to_string(), expected);
        assert_eq!(process.restored, restored);
        assert_eq!(process.bytes, [0; 8192]);
        assert_eq!(process.protections, [PAGE_READONLY, PAGE_EXECUTE_READ]);
    }
}

#[test]
fn an_empty_patch_touches_no_page() {
    let mut process = Process::new();
    let base = process.address;
    let mut transaction = PatchTransaction::start(base, vec![], vec![], PAGE).unwrap();
    assert_eq!(transaction.action(), PatchAction::WritePatched);
    transaction.step(PatchEvent::Wrote(Ok(())));
    transaction.step(PatchEvent::Read(Ok(vec![])));
    assert_eq!(transaction.action(), PatchAction::Finish);
    transaction.finish().unwrap();
    // A transaction waits for what came of its own action.
    let mut waiting = PatchTransaction::start(base, vec![0], vec![1], PAGE).unwrap();
    waiting.step(PatchEvent::Wrote(Err(pe("unexpected"))));
    assert_eq!(waiting.action(), PatchAction::Query(base));
    process.patch(base, &[0], &[1]).unwrap();
}

/// Run a commit to its end. The flags and the undo transaction fail as told.
fn commit(
    process: &mut Process,
    original: &[u8],
    patched: &[u8],
    clr: Option<ClrHeader>,
    clr_fault: Fault,
    rollback_fault: Fault,
) -> Result<()> {
    let base = process.address;
    let mut commit = Commit::start(clr);
    loop {
        let event = match commit.action() {
            CommitAction::PatchHeaders => {
                process.fault = Fault::Absent;
                CommitEvent::Patched(process.patch(base, original, patched))
            }
            CommitAction::ReadFlags(address) => CommitEvent::Read(Ok(process.read(address, 4))),
            CommitAction::PatchFlags(address) => {
                let (current, next) = commit.flag_bytes();
                process.fault = clr_fault;
                CommitEvent::Patched(process.patch(address, &current, &next))
            }
            CommitAction::UndoHeaders => {
                process.fault = rollback_fault;
                CommitEvent::Patched(process.patch(base, patched, original))
            }
            CommitAction::Finish => return commit.finish(),
        };
        commit.step(event);
    }
}

#[test]
fn clr_patch_restores_bytes_and_protections_across_pages() {
    let mut process = Process::new();
    // Put the four-byte flags field across two differently protected pages.
    let flags_va = process.address + 4094;
    let original = 0x0002_0001u32.to_le_bytes();
    for fault in [Fault::PartialWrite, Fault::Absent] {
        process.write(flags_va, &original);
        process.protections = vec![PAGE_READONLY, PAGE_EXECUTE_READ];
        let mut clear = Commit::start(Some(ClrHeader {
            va: flags_va - CLR_FLAGS_OFFSET,
            flags: 0x0002_0001,
        }));
        clear.step(CommitEvent::Patched(Ok(())));
        assert_eq!(clear.action(), CommitAction::ReadFlags(flags_va));
        clear.step(CommitEvent::Read(Ok(process.read(flags_va, 4))));
        assert_eq!(clear.action(), CommitAction::PatchFlags(flags_va));
        let (current, next) = clear.flag_bytes();
        process.fault = fault;
        let result = process.patch(flags_va, &current, &next);
        let expected = if fault == Fault::Absent {
            result.unwrap();
            0x0002_0000u32.to_le_bytes()
        } else {
            assert!(!result.unwrap_err().must_not_resume());
            original
        };
        assert_eq!(process.read(flags_va, 4), expected);
        assert_eq!(process.protections[0], PAGE_READONLY);
        assert_eq!(process.protections[1], PAGE_EXECUTE_READ);
        process.protections = vec![PAGE_READWRITE; 2];
    }
}

#[test]
fn managed_commit_failure_preserves_must_not_resume_errors() {
    let mut process = Process::new();
    let address = process.address;
    let original = vec![1; 64];
    let patched = vec![2; 64];
    let clr = ClrHeader { va: address + 4096, flags: COR_FLAG_ILONLY };
    for (clr_fault, rollback_fault, dangerous) in [
        (Fault::PartialWrite, Fault::Absent, false),
        (Fault::PartialWrite, Fault::Rollback, true),
        (Fault::Restore, Fault::Absent, true),
        (Fault::Rollback, Fault::Absent, true),
    ] {
        process.write(address, &original);
        process.write(clr.va + 16, &clr.flags.to_le_bytes());
        let error =
            commit(&mut process, &original, &patched, Some(clr), clr_fault, rollback_fault)
                .unwrap_err();
        assert_eq!(error.must_not_resume(), dangerous, "{error:?}");
        if rollback_fault == Fault::Absent {
            assert_eq!(process.read(address, original.len()), original);
        } else {
            assert!(matches!(error, Error::Cleanup { .. }));
        }
        let result = Err(error);
        assert_eq!(block_fate(&result), if dangerous { Fate::Retain } else { Fate::Release });
        assert!(finish_injection(result, Ok(())).is_err());
    }
}

#[test]
fn commits_clear_only_the_il_mark() {
    let mut process = Process::new();
    let address = process.address;
    let clr = ClrHeader { va: address + 4096, flags: 0x0002_0001 };
    process.write(clr.va + 16, &clr.flags.to_le_bytes());
    commit(&mut process, &[0; 8], &[1; 8], Some(clr), Fault::Absent, Fault::Absent).unwrap();
    assert_eq!(process.read(address, 8), [1; 8]);
    assert_eq!(process.read(clr.va + 16, 4), 0x0002_0000u32.to_le_bytes());
    // Images without the mark have their headers patched and nothing else.
    for clr in [None, Some(ClrHeader { va: address + 4096, flags: 0x0002_0000 })] {
        let mut commit = Commit::start(clr);
        commit.step(CommitEvent::Patched(Ok(())));
        assert_eq!(commit.action(), CommitAction::Finish);
        commit.finish().unwrap();
    }
}

#[test]
fn commits_undo_the_headers_when_the_flags_fail() {
    let il = |va| Some(ClrHeader { va, flags: COR_FLAG_ILONLY });
    let mut commit = Commit::start(il(0x1000));
    commit.step(CommitEvent::Patched(Err(pe("headers"))));
    assert_eq!(commit.action(), CommitAction::Finish);
    assert_eq!(commit.finish().unwrap_err().to_string(), "PE parse error: headers");
    for (va, event, expected) in [
        (usize::MAX, None, "CLR flags address overflow"),
        (0x1000, Some(Err(pe("unreadable"))), "unreadable"),
        (0x1000, Some(Ok(vec![1, 0, 0])), "truncated data"),
    ] {
        let mut commit = Commit::start(il(va));
        commit.step(CommitEvent::Patched(Ok(())));
        if let Some(event) = event {
            commit.step(CommitEvent::Read(event));
        }
        assert_eq!(commit.action(), CommitAction::UndoHeaders);
        commit.step(CommitEvent::Patched(Ok(())));
        let error = commit.finish().unwrap_err();
        assert_eq!(error.to_string(), format!("PE parse error: {expected}"));
        assert!(!error.must_not_resume());
    }
    let mut commit = Commit::start(il(usize::MAX));
    commit.step(CommitEvent::Patched(Ok(())));
    commit.step(CommitEvent::Patched(Err(pe("undo"))));
    assert!(commit.finish().unwrap_err().must_not_resume());
}

#[test]
fn failed_allocation_cleanup_keeps_the_operation_error() {
    let release = stork::error::from_win32("VirtualFreeEx", std::io::Error::from_raw_os_error(5));
    let result = Err(pe("original operation"));
    assert_eq!(block_fate(&result), Fate::Release);
    let error = finish_injection(result, Err(release)).unwrap_err();
    let Error::Cleanup { operation, cleanup } = error else {
        panic!("both errors must be retained")
    };
    assert!(operation.to_string().contains("original operation"));
    assert!(matches!(*cleanup, Error::Win32 { call: "VirtualFreeEx", .. }));
}

#[test]
fn prepared_imports_are_retained() {
    let result = Ok(());
    assert_eq!(block_fate(&result), Fate::Retain);
    let injected = finish_injection(result, Ok(())).unwrap();
    assert_eq!(injected.module, None);
    assert_eq!(injected.timing, LoadTiming::OnResume);
}
