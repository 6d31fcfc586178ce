//! Validated native payloads. The bytes and their decoded headers share one owner.

use crate::error::{file_io, outcome, viewed, Error, ErrorView, Result};
use crate::pe::headers::{
    file_check, import_ordinal_of, lemma_decoded_magic, native_headers_of, raw_fault, Headers,
    HeadersView, FILE_IS_DLL,
};
use crate::pe::layout::{MACHINE_AMD64, MAGIC_PE64};
use crate::pe::view::DataDirectory;
use crate::strategy::Strategy;
use vstd::prelude::*;

verus! {

pub const MAX_PAYLOAD_BYTES: u64 = 536870912;

/// The directory of the CLR header.
pub const CLR_DIRECTORY: usize = 14;

/// A native AMD64 DLL validated before any strategy can mutate a target.
///
/// Private fields prevent callers from pairing headers with unrelated bytes.
/// The path must still remain stable until the remote loader finishes with it.
#[derive(Debug)]
pub struct Payload {
    path: Vec<u16>,
    bytes: Vec<u8>,
    headers: Headers,
}

/// The mathematical content of a [`Payload`].
#[verifier::ext_equal]
pub struct PayloadView {
    pub path: Seq<u16>,
    pub bytes: Seq<u8>,
    pub headers: HeadersView,
}

impl View for Payload {
    type V = PayloadView;

    closed spec fn view(&self) -> PayloadView {
        PayloadView { path: self.path@, bytes: self.bytes@, headers: self.headers@ }
    }
}

/// Whether a data directory is there at all.
pub open spec fn is_present(d: DataDirectory) -> bool {
    d.rva != 0 || d.size != 0
}

/// What `bytes`, read from `path`, make for a payload.
pub open spec fn payload_of(
    path: Seq<u16>,
    bytes: Seq<u8>,
    strategy: Strategy,
) -> std::result::Result<PayloadView, ErrorView> {
    match native_headers_of(bytes) {
        Err(fault) => Err(fault),
        Ok(headers) => match file_check(headers, bytes) {
            Err(fault) => Err(fault),
            Ok(_) => if is_present(headers.directories[CLR_DIRECTORY as int]) {
                Err(
                    ErrorView::StrategyUnavailable {
                        strategy,
                        reason: "managed payloads are unsupported"@,
                    },
                )
            } else {
                Ok(PayloadView { path, bytes, headers })
            },
        },
    }
}

impl Payload {
    /// The headers are those of the bytes.
    #[verifier::type_invariant]
    closed spec fn well_formed(self) -> bool {
        native_headers_of(self.bytes@) == Ok::<HeadersView, ErrorView>(self.headers@)
    }

    /// Validate the bytes of the DLL at the canonical `path`, which decode to
    /// `headers`.
    pub fn from_headers(
        path: Vec<u16>,
        bytes: Vec<u8>,
        headers: Headers,
        strategy: Strategy,
    ) -> (result: Result<Self>)
        requires
            native_headers_of(bytes@) == Ok::<HeadersView, ErrorView>(headers@),
        ensures
            viewed(result) == payload_of(path@, bytes@, strategy),
    {
        match headers.validate_file(&bytes) {
            Err(error) => return Err(error),
            Ok(_) => {},
        }
        let clr = headers.directories[CLR_DIRECTORY];
        if clr.rva != 0 || clr.size != 0 {
            return Err(
                Error::StrategyUnavailable { strategy, reason: "managed payloads are unsupported" },
            );
        }
        Ok(Payload { path, bytes, headers })
    }

    /// Validate the bytes of the DLL at the canonical `path`.
    pub fn load(path: Vec<u16>, bytes: Vec<u8>, strategy: Strategy) -> (result: Result<Self>)
        ensures
            viewed(result) == payload_of(path@, bytes@, strategy),
    {
        match Headers::parse(&bytes) {
            Err(error) => Err(error),
            Ok(headers) => Self::from_headers(path, bytes, headers, strategy),
        }
    }

    /// The canonical path.
    pub fn path(&self) -> (path: &[u16])
        ensures
            path@ == self@.path,
    {
        &self.path
    }

    /// Apply IAT's additional export requirement to the same validated bytes.
    pub fn import_ordinal(&self) -> (result: Result<u16>)
        ensures
            outcome(result) == required_ordinal_of(
                import_ordinal_of(self@.headers, self@.bytes),
            ),
    {
        require_ordinal(self.headers.import_ordinal(&self.bytes))
    }
}

/// The refusal of a payload that cannot be imported by ordinal.
pub open spec fn ordinal_required() -> ErrorView {
    ErrorView::StrategyUnavailable {
        strategy: Strategy::ImportTableHijack,
        reason: "payload must export ordinal 1 (Detours import-table requirement)"@,
    }
}

/// What a lookup of the imported ordinal means for the import-table strategy.
pub open spec fn required_ordinal_of(found: std::result::Result<u16, ErrorView>) -> std::result::Result<
    u16,
    ErrorView,
> {
    match found {
        Ok(ordinal) => Ok(ordinal),
        Err(_) => Err(ordinal_required()),
    }
}

/// Report any failed lookup of the imported ordinal as an unavailable strategy.
pub fn require_ordinal(found: Result<u16>) -> (result: Result<u16>)
    ensures
        outcome(result) == required_ordinal_of(outcome(found)),
{
    match found {
        Ok(ordinal) => Ok(ordinal),
        Err(_) => Err(
            Error::StrategyUnavailable {
                strategy: Strategy::ImportTableHijack,
                reason: "payload must export ordinal 1 (Detours import-table requirement)",
            },
        ),
    }
}

/// How many bytes to ask a payload file for: one more than the limit, to
/// detect growth after the metadata check.
pub fn read_quota(limit: u64) -> (quota: u64)
    ensures
        quota == if limit == u64::MAX {
            limit as int
        } else {
            limit + 1
        },
{
    limit.saturating_add(1)
}

/// What a payload file with this length in its metadata is answered.
pub open spec fn length_check(len: u64) -> std::result::Result<(), ErrorView> {
    if len > MAX_PAYLOAD_BYTES {
        Err(ErrorView::PayloadTooLarge { limit: MAX_PAYLOAD_BYTES })
    } else {
        Ok(())
    }
}

/// Refuse a payload file that its metadata already shows to be too large.
pub fn check_length(len: u64) -> (result: Result<()>)
    ensures
        outcome(result) == length_check(len),
{
    if len > MAX_PAYLOAD_BYTES {
        return Err(Error::PayloadTooLarge { limit: MAX_PAYLOAD_BYTES });
    }
    Ok(())
}

/// What a read of at most [`read_quota`] bytes of `path` makes for a payload.
pub open spec fn limited_of(
    read: std::result::Result<Vec<u8>, std::io::Error>,
    path: Seq<u16>,
    limit: u64,
) -> std::result::Result<Seq<u8>, ErrorView> {
    match read {
        Err(source) => Err(ErrorView::Io { operation: "read DLL"@, path, source }),
        Ok(bytes) => if bytes@.len() > limit {
            Err(ErrorView::PayloadTooLarge { limit })
        } else {
            Ok(bytes@)
        },
    }
}

/// Accept what was read of `path`, unless there was more than `limit` allows.
pub fn read_limited(
    read: std::result::Result<Vec<u8>, std::io::Error>,
    path: &[u16],
    limit: u64,
) -> (result: Result<Vec<u8>>)
    ensures
        viewed(result) == limited_of(read, path@, limit),
{
    match read {
        Err(source) => Err(file_io("read DLL", path, source)),
        Ok(bytes) => if bytes.len() as u64 > limit {
            Err(Error::PayloadTooLarge { limit })
        } else {
            Ok(bytes)
        },
    }
}

proof fn lemma_raw_data_lies_in_file(h: HeadersView, len: nat, n: nat)
    requires
        raw_fault(h, len, n) is None,
        n <= h.sections.len(),
    ensures
        forall|i: int|
            0 <= i < n ==> {
                let section = #[trigger] h.sections[i];
                section.raw_size == 0 || section.raw_offset + section.raw_size <= len
            },
    decreases n,
{
    if n > 0 {
        lemma_raw_data_lies_in_file(h, len, (n - 1) as nat);
    }
}

/// A payload that loads is a native AMD64 DLL: a PE32+ image for that machine,
/// marked as a DLL, without a CLR header, and with its headers and the raw
/// data of every section inside the file.
pub proof fn loaded_payloads_are_native_dlls(path: Seq<u16>, bytes: Seq<u8>, strategy: Strategy)
    requires
        payload_of(path, bytes, strategy) is Ok,
    ensures
        ({
            let payload = payload_of(path, bytes, strategy)->Ok_0;
            &&& payload.path == path
            &&& payload.bytes == bytes
            &&& native_headers_of(bytes) == Ok::<HeadersView, ErrorView>(payload.headers)
            &&& payload.headers.magic == MAGIC_PE64
            &&& payload.headers.machine == MACHINE_AMD64
            &&& payload.headers.characteristics & FILE_IS_DLL != 0
            &&& payload.headers.header_size <= bytes.len()
            &&& !is_present(payload.headers.directories[CLR_DIRECTORY as int])
            &&& forall|i: int|
                0 <= i < payload.headers.sections.len() ==> {
                    let section = #[trigger] payload.headers.sections[i];
                    section.raw_size == 0 || section.raw_offset + section.raw_size <= bytes.len()
                }
        }),
{
    let headers = payload_of(path, bytes, strategy)->Ok_0.headers;
    lemma_decoded_magic(bytes, headers);
    lemma_raw_data_lies_in_file(headers, bytes.len(), headers.sections.len());
}

} // verus!
