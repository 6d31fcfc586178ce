use std::io::Read;
use stork::payload::{
    check_length, read_limited, read_quota, require_ordinal, Payload, MAX_PAYLOAD_BYTES,
};
use stork::pe::headers::Headers;
use stork::pe::layout::u32_at;
use stork::{Error, Result, Strategy};

fn units(text: &str) -> Vec<u16> {
    text.encode_utf16().collect()
}

/// Read as much as the limit asks for, and judge what came.
fn read(reader: impl Read, path: &str, limit: u64) -> Result<Vec<u8>> {
    let mut bytes = Vec::new();
    let read = reader.take(read_quota(limit)).read_to_end(&mut bytes).map(|_| bytes);
    read_limited(read, &units(path), limit)
}

#[test]
fn payload_limit_accepts_boundary_and_stops_after_one_extra_byte() {
    let path = "payload.dll";
    assert_eq!(read(&b"1234"[..], path, 4).unwrap(), b"1234");
    assert!(read(&b""[..], path, 0).unwrap().is_empty());
    let mut reader = std::io::Cursor::new(b"123456789");
    assert!(matches!(
        read(&mut reader, path, 4),
        Err(Error::PayloadTooLarge { limit: 4 })
    ));
    assert_eq!(reader.position(), 5);
}

struct FailingReader;

impl Read for FailingReader {
    fn read(&mut self, _: &mut [u8]) -> std::io::Result<usize> {
        Err(std::io::Error::from_raw_os_error(5))
    }
}

#[test]
fn payload_read_failure_keeps_context_after_partial_data() {
    let reader = (&b"header"[..]).chain(FailingReader);
    let error = read(reader, "broken.dll", 32).unwrap_err();
    assert!(
        matches!(error, Error::Io { operation: "read DLL", ref path, ref source }
        if *path == units("broken.dll") && source.raw_os_error() == Some(5))
    );
}

#[test]
fn payload_lengths_are_limited() {
    assert_eq!(MAX_PAYLOAD_BYTES, 512 * 1024 * 1024);
    assert!(check_length(MAX_PAYLOAD_BYTES).is_ok());
    assert!(matches!(
        check_length(MAX_PAYLOAD_BYTES + 1),
        Err(Error::PayloadTooLarge { limit: MAX_PAYLOAD_BYTES })
    ));
    assert_eq!(read_quota(4), 5);
    assert_eq!(read_quota(u64::MAX), u64::MAX);
}

fn put16(b: &mut [u8], o: usize, v: u16) {
    stork::pe::layout::write(b, o, &v).unwrap();
}

fn put32(b: &mut [u8], o: usize, v: u32) {
    stork::pe::layout::write(b, o, &v).unwrap();
}

/// A minimal PE32+ AMD64 DLL that exports one symbol as ordinal 1.
fn dll() -> Vec<u8> {
    let mut b = vec![0; 0x1800];
    put16(&mut b, 0, 0x5a4d);
    put32(&mut b, 60, 0x100);
    b[0x100..0x104].copy_from_slice(b"PE\0\0");
    put16(&mut b, 0x104, 0x8664);
    put16(&mut b, 0x106, 1);
    put16(&mut b, 0x114, 240);
    put16(&mut b, 0x116, 0x2000);
    put16(&mut b, 0x118, 0x20b);
    put32(&mut b, 0x150, 0x2000);
    put32(&mut b, 0x154, 0x400);
    put32(&mut b, 0x184, 16);
    put32(&mut b, 0x188, 0x1000);
    put32(&mut b, 0x18c, 0x200);
    for (offset, value) in [(8, 0x1000), (12, 0x1000), (16, 0x1000), (20, 0x800)] {
        put32(&mut b, 0x208 + offset, value);
    }
    for (offset, value) in [(16, 1), (20, 1), (28, 0x1100), (0x100, 0x1300)] {
        put32(&mut b, 0x800 + offset, value);
    }
    b
}

fn load(bytes: Vec<u8>, strategy: Strategy) -> Result<Payload> {
    Payload::load(units(r"C:\payload.dll"), bytes, strategy)
}

#[test]
fn native_payloads_load_with_their_path() {
    for strategy in [
        Strategy::LoadLibraryRemoteThread,
        Strategy::QueueUserApc,
        Strategy::ImportTableHijack,
    ] {
        let payload = load(dll(), strategy).unwrap();
        assert_eq!(payload.path(), units(r"C:\payload.dll"));
        assert_eq!(payload.import_ordinal().unwrap(), 1);
    }
}

#[test]
fn unsupported_payload_machines() {
    let mut x86 = dll();
    put16(&mut x86, 0x104, 0x14c);
    assert!(
        matches!(
            load(x86, Strategy::LoadLibraryRemoteThread),
            Err(Error::BitnessMismatch { injector_64: true, target_64: false })
        ),
        "an x86 payload must be rejected"
    );
    let mut arm64 = dll();
    put16(&mut arm64, 0x104, 0xaa64);
    assert!(
        matches!(
            load(arm64, Strategy::LoadLibraryRemoteThread),
            Err(Error::UnsupportedMachine(0xaa64))
        ),
        "an ARM64 payload must be reported as unsupported"
    );
}

#[test]
fn every_strategy_rejects_managed_payloads_before_loading() {
    for strategy in [
        Strategy::LoadLibraryRemoteThread,
        Strategy::QueueUserApc,
        Strategy::ImportTableHijack,
    ] {
        for (rva, size) in [(1, 0), (0x1100, 0x48), (0x1100, 0), (0, 0x48)] {
            let mut managed = dll();
            put32(&mut managed, 0x188 + 14 * 8, rva);
            put32(&mut managed, 0x188 + 14 * 8 + 4, size);
            assert!(matches!(
                load(managed, strategy),
                Err(Error::StrategyUnavailable {
                    strategy: named,
                    reason: "managed payloads are unsupported",
                }) if named == strategy
            ));
        }
    }
}

#[test]
fn iat_rejects_managed_and_exportless_payloads() {
    let mut managed = dll();
    put32(&mut managed, 0x188 + 14 * 8, 1);
    assert!(matches!(
        load(managed, Strategy::ImportTableHijack),
        Err(Error::StrategyUnavailable {
            strategy: Strategy::ImportTableHijack,
            reason: "managed payloads are unsupported",
        })
    ));
    let mut exportless = dll();
    put32(&mut exportless, 0x188, 0);
    put32(&mut exportless, 0x18c, 0);
    assert_eq!(u32_at(&exportless, 0x188).unwrap(), 0);
    let payload = load(exportless, Strategy::ImportTableHijack).unwrap();
    assert!(matches!(
        payload.import_ordinal(),
        Err(Error::StrategyUnavailable {
            strategy: Strategy::ImportTableHijack,
            reason: "payload must export ordinal 1 (Detours import-table requirement)",
        })
    ));
}

#[test]
fn failed_ordinal_lookups_make_the_strategy_unavailable() {
    assert_eq!(require_ordinal(Ok(1)).unwrap(), 1);
    assert!(matches!(
        require_ordinal(Err(Error::RemoteTimeout)),
        Err(Error::StrategyUnavailable { strategy: Strategy::ImportTableHijack, .. })
    ));
}

#[test]
fn broken_payload_files_are_refused() {
    let mut short = dll();
    short.truncate(0x1700);
    assert_eq!(
        load(short, Strategy::QueueUserApc).unwrap_err().to_string(),
        "PE parse error: truncated data"
    );
    let mut exe = dll();
    put16(&mut exe, 0x116, 0x0002);
    assert_eq!(
        load(exe, Strategy::QueueUserApc).unwrap_err().to_string(),
        "PE parse error: payload is not a DLL"
    );
}

#[test]
fn decoded_headers_make_the_payload() {
    let accept = |bytes: Vec<u8>| {
        let headers = Headers::parse(&bytes).unwrap();
        Payload::from_headers(units(r"C:\payload.dll"), bytes, headers, Strategy::QueueUserApc)
    };
    let payload = accept(dll()).unwrap();
    assert_eq!(payload.path(), units(r"C:\payload.dll"));
    assert_eq!(payload.import_ordinal().unwrap(), 1);
    let mut managed = dll();
    put32(&mut managed, 0x188 + 14 * 8, 0x1100);
    assert!(matches!(
        accept(managed),
        Err(Error::StrategyUnavailable { strategy: Strategy::QueueUserApc, .. })
    ));
}
