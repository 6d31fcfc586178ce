use std::io;
use stork::error::{combine, file_io, from_win32, pe, win32, Source};
use stork::{Error, Strategy};

fn units(text: &str) -> Vec<u16> {
    text.encode_utf16().collect()
}

#[test]
fn cleanup_keeps_both_errors_and_the_primary_source() {
    let error = combine::<()>(Err(pe("initial write")), Err(pe("free allocation"))).unwrap_err();
    assert!(error.to_string().contains("initial write"));
    assert!(error.to_string().contains("free allocation"));
    let Some(Source::Library(source)) = error.source() else {
        panic!("the operation is the source")
    };
    assert_eq!(source.to_string(), "PE parse error: initial write");
    assert!(!error.is_pending());
    assert!(!error.must_not_resume());
}

#[test]
fn cleanup_preserves_values_and_single_failures() {
    assert_eq!(combine(Ok(42), Ok(())).unwrap(), 42);
    assert!(matches!(
        combine::<()>(Err(Error::RemoteTimeout), Ok(())),
        Err(Error::RemoteTimeout)
    ));
    assert!(matches!(
        combine(Ok(42), Err(Error::IatRollbackFailed)),
        Err(Error::IatRollbackFailed)
    ));
}

#[test]
fn recovery_checks_follow_both_cleanup_branches() {
    for error in [
        Error::RemoteTimeout.with_cleanup(Error::IatRollbackFailed),
        pe("initial error")
            .with_cleanup(Error::IatRollbackFailed.with_cleanup(Error::RemoteTimeout)),
        Error::ProtectionRestore(Box::new(Error::RemotePending(
            io::Error::from_raw_os_error(6),
        ))),
    ] {
        assert!(error.is_pending());
        assert!(error.must_not_resume());
    }
}

#[test]
fn file_error_keeps_path_operation_and_os_source() {
    let path = units(r"C:\payloads\layer.dll");
    let error = file_io("open DLL", &path, io::Error::from_raw_os_error(5));
    assert!(error.to_string().contains("open DLL"));
    assert!(error.to_string().contains(r"C:\payloads\layer.dll"));
    let Some(Source::Os(source)) = error.source() else {
        panic!("the OS error is the source")
    };
    assert_eq!(source.raw_os_error(), Some(5));
}

#[test]
fn every_message_reads_as_documented() {
    let os = || io::Error::from_raw_os_error(5);
    let os_text = os().to_string();
    for (error, text) in [
        (
            Error::DllNotFound(units(r"C:\a.dll")),
            r"the DLL path does not exist: C:\a.dll".to_string(),
        ),
        (
            Error::StrategyUnavailable { strategy: Strategy::QueueUserApc, reason: "why" },
            "the strategy QueueUserApc is not available: why".to_string(),
        ),
        (
            Error::StrategyUnavailable {
                strategy: Strategy::LoadLibraryRemoteThread,
                reason: "why",
            },
            "the strategy LoadLibraryRemoteThread is not available: why".to_string(),
        ),
        (
            Error::StrategyUnavailable { strategy: Strategy::ImportTableHijack, reason: "why" },
            "the strategy ImportTableHijack is not available: why".to_string(),
        ),
        (
            Error::MissingThreadHandle,
            "this strategy needs the target main-thread handle".to_string(),
        ),
        (
            Error::BitnessMismatch { injector_64: true, target_64: false },
            "the injector and target bitness differ (injector_64=true, target_64=false)"
                .to_string(),
        ),
        (
            Error::ModuleNotFound,
            "could not confirm the injected module in the target".to_string(),
        ),
        (Error::Pe("bad".to_string()), "PE parse error: bad".to_string()),
        (
            Error::RemoteTimeout,
            "the remote thread timed out; outcome pending; do not retry".to_string(),
        ),
        (
            Error::RemotePending(os()),
            format!("the remote wait failed; outcome pending; allocation retained: {os_text}"),
        ),
        (Error::InvalidTarget("x"), "invalid target or state: x".to_string()),
        (
            Error::AmbiguousPrimaryThread,
            "could not identify the primary thread unambiguously".to_string(),
        ),
        (
            Error::UnsupportedMachine(0xaa64),
            "unsupported machine type: 0xaa64".to_string(),
        ),
        (
            Error::UnsupportedMachine(0x1c),
            format!("unsupported machine type: {:#06x}", 0x1c),
        ),
        (Error::UnsupportedPath("p"), "unsupported payload path: p".to_string()),
        (
            Error::IatRollbackFailed,
            "IAT rollback failed; the target is modified and must not resume".to_string(),
        ),
        (
            Error::ProtectionRestore(Box::new(pe("x"))),
            "protection restoration failed; do not resume: PE parse error: x".to_string(),
        ),
        (
            pe("x").with_cleanup(Error::RemoteTimeout),
            "operation failed: PE parse error: x; cleanup also failed: the remote thread timed out; outcome pending; do not retry".to_string(),
        ),
        (
            file_io("read DLL", &units("a.dll"), os()),
            format!("read DLL failed for a.dll: {os_text}"),
        ),
        (
            Error::PayloadTooLarge { limit: 536870912 },
            "payload file exceeds the 536870912-byte limit".to_string(),
        ),
        (
            Error::PayloadTooLarge { limit: 0 },
            "payload file exceeds the 0-byte limit".to_string(),
        ),
        (from_win32("OpenProcess", os()), format!("OpenProcess failed: {os_text}")),
        (
            Error::UnknownStrategy("magic".to_string()),
            "unknown injection strategy: magic".to_string(),
        ),
    ] {
        assert_eq!(error.to_string(), text);
    }
}

#[test]
fn unpaired_surrogates_in_a_path_are_shown_as_replacements() {
    let path = vec![0x61, 0xd83e, 0xdd80, 0xd800, 0x62, 0xdc00];
    assert_eq!(
        Error::DllNotFound(path).to_string(),
        "the DLL path does not exist: a\u{1f980}\u{fffd}b\u{fffd}"
    );
}

#[test]
fn sources_stop_at_leaf_errors() {
    assert!(pe("leaf").source().is_none());
    assert!(Error::RemoteTimeout.source().is_none());
    assert!(matches!(
        from_win32("call", io::Error::from_raw_os_error(6)).source(),
        Some(Source::Os(os)) if os.raw_os_error() == Some(6)
    ));
    assert!(matches!(
        Error::ProtectionRestore(Box::new(Error::RemoteTimeout)).source(),
        Some(Source::Library(Error::RemoteTimeout))
    ));
}

#[test]
fn last_error_is_captured_with_its_call() {
    assert!(matches!(win32("VirtualQueryEx"), Error::Win32 { call: "VirtualQueryEx", .. }));
}

#[test]
fn combining_keeps_recovery_facts_of_either_branch() {
    let pending = || Err::<(), _>(Error::RemoteTimeout);
    let forbidden = || Err::<(), _>(Error::IatRollbackFailed);
    for (operation, cleanup, is_pending, forbids) in [
        (pending(), Ok(()), true, false),
        (Ok(()), pending(), true, false),
        (forbidden(), pending(), true, true),
        (pending(), forbidden(), true, true),
        (Err(pe("a")), Err(pe("b")), false, false),
    ] {
        let error = combine(operation, cleanup).unwrap_err();
        assert_eq!(error.is_pending(), is_pending);
        assert_eq!(error.must_not_resume(), forbids);
    }
}
