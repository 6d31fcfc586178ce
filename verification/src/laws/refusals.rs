//! What malformed images and unusable targets are refused with.

use crate::error::ErrorView;
use crate::laws::bytes::{dword, fields_are_little_endian, pe_headers_are_found, word};
use crate::paths::import_path_of;
use crate::payload::payload_of;
use crate::pe::convert::widening_of;
use crate::pe::headers::{
    file_check, file_range_of, headers_of, image_range_of, import_ordinal_of, native_headers_of,
    raw_fault, sections_fault, HeadersView,
};
use crate::pe::imports::{imports_fault, ImportDescriptor};
use crate::pe::layout::{header_read_size_of, nt_offset_of};
use crate::pe::view::{layout_of, DataDirectory, Section};
use crate::strategy::import_table::{
    clr_address_of, clr_header_of, import_block_of, policy_fault, redirected, walk_start_of,
    ClrHeader,
};
use crate::strategy::Strategy;
use vstd::prelude::*;

verus! {

proof fn lemma_sections(sections: Seq<Section>, n: nat, header_size: u32, image_size: u32)
    ensures
        sections_fault(sections, n, header_size, image_size) matches Some(fault) ==> fault is Pe,
    decreases n,
{
    if n > 0 {
        lemma_sections(sections, (n - 1) as nat, header_size, image_size);
    }
}

proof fn lemma_raw(h: HeadersView, len: nat, n: nat)
    ensures
        raw_fault(h, len, n) matches Some(fault) ==> fault is Pe,
    decreases n,
{
    if n > 0 {
        lemma_raw(h, len, (n - 1) as nat);
    }
}

/// Bytes that are no headers are malformed, and so are headers that cannot be
/// widened.
pub proof fn malformed_headers_are_called_so(b: Seq<u8>)
    ensures
        nt_offset_of(b) matches Err(fault) ==> fault is Pe,
        header_read_size_of(b) matches Err(fault) ==> fault is Pe,
        headers_of(b) matches Err(fault) ==> fault is Pe,
        widening_of(b) matches Err(fault) ==> fault is Pe,
{
    let l = layout_of(b);
    lemma_sections(l.sections, l.sections.len(), l.header_size, l.image_size);
}

/// Ranges that an image or its file does not hold are malformed, and so are an
/// import that is not there and a block that cannot be built.
pub proof fn malformed_ranges_are_called_so(
    h: HeadersView,
    b: Seq<u8>,
    rva: u32,
    n: int,
    base: usize,
    address: usize,
    block: DataDirectory,
    old: Seq<ImportDescriptor>,
    name: Seq<u8>,
    ordinal: u16,
)
    ensures
        image_range_of(h, rva, n) matches Err(fault) ==> fault is Pe,
        file_range_of(h, b, rva, n) matches Err(fault) ==> fault is Pe,
        file_check(h, b) matches Err(fault) ==> fault is Pe,
        import_ordinal_of(h, b) matches Err(fault) ==> fault is Pe,
        walk_start_of(base, h) matches Err(fault) ==> fault is Pe,
        redirected(h, b, block) matches Err(fault) ==> fault is Pe,
        clr_address_of(base, h) matches Err(fault) ==> fault is Pe,
        clr_header_of(address, h, b) matches Err(fault) ==> fault is Pe,
        imports_fault(old, name, rva) matches Some(fault) ==> fault is Pe,
        import_block_of(base, address, old, name, ordinal) matches Err(fault) ==> fault is Pe,
{
    lemma_raw(h, b.len(), h.sections.len());
}

/// The machine of a payload is looked at before anything else of its headers.
/// Headers for AMD64 that are no native ones are malformed.
pub proof fn foreign_payloads_are_named(b: Seq<u8>)
    ensures
        ({
            let nt = dword(b, 60);
            let found = b.len() >= 64 && b[0] == 0x4d && b[1] == 0x5a && 64 <= nt <= 0x10_0000
                - 264 && nt + 24 <= b.len();
            let machine = word(b, nt + 4);
            &&& found && machine == 0x14c ==> native_headers_of(b) == Err::<HeadersView, ErrorView>(
                ErrorView::BitnessMismatch { injector_64: true, target_64: false },
            )
            &&& found && machine != 0x14c && machine != 0x8664 ==> native_headers_of(b) == Err::<
                HeadersView,
                ErrorView,
            >(ErrorView::UnsupportedMachine(machine as u16))
            &&& !found || machine == 0x8664 ==> (native_headers_of(b) matches Err(fault)
                ==> fault is Pe)
        }),
{
    pe_headers_are_found(b);
    fields_are_little_endian(b, dword(b, 60) + 4);
    malformed_headers_are_called_so(b);
}

/// A target that the import table is not changed in is refused by the strategy
/// with its reason, or by its machine.
pub proof fn refused_targets_are_told_why(h: HeadersView, clr: Option<ClrHeader>)
    ensures
        h.magic == 0x10b && clr is None ==> policy_fault(h, clr) == Some(
            ErrorView::StrategyUnavailable {
                strategy: Strategy::ImportTableHijack,
                reason: "PE32 targets need a CLR header (managed AnyCPU)"@,
            },
        ),
        h.magic == 0x10b && (clr matches Some(c) && c.flags & 1 == 0) ==> policy_fault(h, clr)
            == Some(
            ErrorView::StrategyUnavailable {
                strategy: Strategy::ImportTableHijack,
                reason: "mixed-mode 32-bit managed targets are unsupported"@,
            },
        ),
        h.magic == 0x10b && (clr matches Some(c) && c.flags & 1 != 0 && c.flags & 2 != 0)
            ==> policy_fault(h, clr) == Some(
            ErrorView::StrategyUnavailable {
                strategy: Strategy::ImportTableHijack,
                reason: "32BITREQUIRED managed targets are unsupported"@,
            },
        ),
        h.magic == 0x10b && (clr matches Some(c) && c.flags & 1 != 0 && c.flags & 2 == 0)
            && h.machine != 0x14c ==> policy_fault(h, clr) == Some(
            ErrorView::UnsupportedMachine(h.machine),
        ),
        h.magic != 0x10b && h.machine != 0x8664 ==> policy_fault(h, clr) == Some(
            ErrorView::UnsupportedMachine(h.machine),
        ),
        h.magic != 0x10b && h.machine == 0x8664 && (clr matches Some(c) && c.flags & 2 != 0)
            ==> policy_fault(h, clr) == Some(
            ErrorView::StrategyUnavailable {
                strategy: Strategy::ImportTableHijack,
                reason: "32BITREQUIRED managed targets are unsupported"@,
            },
        ),
{
}

/// A path that cannot be an import name is an unsupported path, and a payload
/// that is no native DLL is not called a managed one.
pub proof fn refused_payloads_are_told_why(path: Seq<u16>, b: Seq<u8>, strategy: Strategy)
    ensures
        import_path_of(path) matches Err(fault) ==> fault is UnsupportedPath,
        native_headers_of(b) is Err ==> (payload_of(path, b, strategy) matches Err(fault) && fault
            == native_headers_of(b)->Err_0),
        native_headers_of(b) matches Ok(h) ==> (file_check(h, b) is Err ==> (payload_of(
            path,
            b,
            strategy,
        ) matches Err(fault) && fault is Pe)),
{
    if native_headers_of(b) is Ok {
        let h = native_headers_of(b)->Ok_0;
        lemma_raw(h, b.len(), h.sections.len());
    }
}

} // verus!
