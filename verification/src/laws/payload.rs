//! Which files are payloads, how their paths travel, and where their exports
//! and bytes are found.

use crate::error::ErrorView;
use crate::laws::bytes::{dword, fields_are_little_endian, pe_headers_are_found, word};
use crate::laws::headers::{holds_headers, whole_headers_decode};
use crate::paths::{
    canonical_of, contains_nul, import_path_of, normalized, stripped, unc_prefix, verbatim_prefix,
    wide_of, Resolved,
};
use crate::payload::{
    length_check, limited_of, payload_of, read_quota, required_ordinal_of, PayloadView,
};
use crate::pe::headers::{
    file_check, headers_of, image_range_of, native_headers_of, raw_fault, HeadersView,
};
use crate::pe::layout::{le16_bytes, nt_offset_of};
use crate::pe::view::Section;
use crate::strategy::argument::{argument_of, unit_bytes};
use crate::strategy::Strategy;
use vstd::prelude::*;

verus! {

/// A range lies in an image exactly when it ends within the image's size.
pub proof fn image_ranges_end_within(h: HeadersView, rva: u32, size: int)
    ensures
        image_range_of(h, rva, size) is Ok <==> rva + size <= h.image_size,
{
}

/// Native headers are exactly the decodable ones of a PE32+ image for AMD64. A
/// 32-bit image is told apart before anything else of it is read.
pub proof fn native_headers_are_amd64(b: Seq<u8>)
    ensures
        native_headers_of(b) is Ok <==> holds_headers(b) && word(b, dword(b, 60) + 4) == 0x8664
            && word(b, dword(b, 60) + 24) == 0x20b,
        native_headers_of(b) is Ok ==> native_headers_of(b) == headers_of(b),
        nt_offset_of(b) is Ok && dword(b, 60) + 24 <= b.len() && word(b, dword(b, 60) + 4) == 0x14c
            ==> native_headers_of(b) == Err::<HeadersView, ErrorView>(
            ErrorView::BitnessMismatch { injector_64: true, target_64: false },
        ),
        nt_offset_of(b) is Ok && dword(b, 60) + 24 <= b.len() && word(b, dword(b, 60) + 4) != 0x14c
            && word(b, dword(b, 60) + 4) != 0x8664 ==> native_headers_of(b) == Err::<
            HeadersView,
            ErrorView,
        >(ErrorView::UnsupportedMachine(word(b, dword(b, 60) + 4) as u16)),
{
    whole_headers_decode(b);
    pe_headers_are_found(b);
    fields_are_little_endian(b, dword(b, 60) + 4);
}

/// The raw data of a section lies in a file of `len` bytes, behind the headers.
pub open spec fn data_lies_in(s: Section, header_size: int, len: int) -> bool {
    s.raw_size == 0 || (header_size <= s.raw_offset && s.raw_offset + s.raw_size <= len)
}

proof fn lemma_raw(h: HeadersView, len: nat, n: nat)
    requires
        n <= h.sections.len(),
        len <= usize::MAX,
    ensures
        raw_fault(h, len, n) is None <==> forall|i: int|
            0 <= i < n ==> data_lies_in(#[trigger] h.sections[i], h.header_size as int, len as int),
    decreases n,
{
    if n > 0 {
        lemma_raw(h, len, (n - 1) as nat);
    }
}

proof fn lemma_dll(characteristics: u16)
    ensures
        characteristics & 0x2000 == 0 <==> characteristics / 0x2000 % 2 == 0,
{
    assert(characteristics & 0x2000 == 0 <==> characteristics / 0x2000 % 2 == 0) by (bit_vector);
}

/// A file holds its image when its headers and the raw data of every section
/// lie in it, and it is marked as a DLL.
pub proof fn files_hold_their_image(h: HeadersView, b: Seq<u8>)
    requires
        b.len() <= usize::MAX,
    ensures
        file_check(h, b) is Ok <==> {
            &&& h.header_size <= b.len()
            &&& h.characteristics / 0x2000 % 2 == 1
            &&& forall|i: int|
                0 <= i < h.sections.len() ==> data_lies_in(
                    #[trigger] h.sections[i],
                    h.header_size as int,
                    b.len() as int,
                )
        },
{
    lemma_raw(h, b.len(), h.sections.len());
    lemma_dll(h.characteristics);
}

/// A payload loads exactly when its bytes are those of a native AMD64 DLL whose
/// headers and raw data lie in the file, and it has no CLR directory. No other
/// directory matters, and neither does the strategy. It keeps its path and its
/// bytes.
pub proof fn native_dlls_load(path: Seq<u16>, b: Seq<u8>, strategy: Strategy)
    requires
        b.len() <= usize::MAX,
    ensures
        payload_of(path, b, strategy) is Ok <==> (native_headers_of(b) matches Ok(h) && {
            &&& h.header_size <= b.len()
            &&& h.characteristics / 0x2000 % 2 == 1
            &&& forall|i: int|
                0 <= i < h.sections.len() ==> data_lies_in(
                    #[trigger] h.sections[i],
                    h.header_size as int,
                    b.len() as int,
                )
            &&& h.directories[14].rva == 0 && h.directories[14].size == 0
        }),
        payload_of(path, b, strategy) matches Ok(payload) ==> payload.path == path && payload.bytes
            == b && native_headers_of(b) == Ok::<HeadersView, ErrorView>(payload.headers),
        native_headers_of(b) matches Err(fault) ==> payload_of(path, b, strategy) == Err::<
            PayloadView,
            ErrorView,
        >(fault),
{
    if native_headers_of(b) is Ok {
        files_hold_their_image(native_headers_of(b)->Ok_0, b);
    }
}

/// A managed payload is refused for the strategy that was asked for.
pub proof fn managed_payloads_are_refused(
    path: Seq<u16>,
    b: Seq<u8>,
    strategy: Strategy,
    h: HeadersView,
)
    requires
        native_headers_of(b) == Ok::<HeadersView, ErrorView>(h),
        file_check(h, b) is Ok,
        h.directories[14].rva != 0 || h.directories[14].size != 0,
    ensures
        payload_of(path, b, strategy) == Err::<PayloadView, ErrorView>(
            ErrorView::StrategyUnavailable {
                strategy,
                reason: "managed payloads are unsupported"@,
            },
        ),
{
}

/// A payload file may have at most half a gibibyte, by its metadata and by what
/// is read of it; what was read is taken as it is.
pub proof fn payload_files_are_limited(
    len: u64,
    read: std::result::Result<Vec<u8>, std::io::Error>,
    path: Seq<u16>,
    limit: u64,
)
    ensures
        length_check(len) is Ok <==> len <= 0x2000_0000,
        length_check(len) matches Err(fault) ==> fault == (ErrorView::PayloadTooLarge {
            limit: 0x2000_0000,
        }),
        limited_of(read, path, limit) is Ok <==> read is Ok && read->Ok_0@.len() <= limit,
        limited_of(read, path, limit) matches Ok(bytes) ==> bytes == read->Ok_0@,
        read is Ok && read->Ok_0@.len() > limit ==> limited_of(read, path, limit) == Err::<
            Seq<u8>,
            ErrorView,
        >(ErrorView::PayloadTooLarge { limit }),
        read matches Err(source) ==> limited_of(read, path, limit) == Err::<Seq<u8>, ErrorView>(
            ErrorView::Io { operation: "read DLL"@, path, source },
        ),
{
}

/// A found ordinal is the answer; without one the import-table strategy is
/// unavailable.
pub proof fn ordinals_are_required(found: std::result::Result<u16, ErrorView>)
    ensures
        found matches Ok(ordinal) ==> required_ordinal_of(found) == Ok::<u16, ErrorView>(ordinal),
        found is Err ==> required_ordinal_of(found) == Err::<u16, ErrorView>(
            ErrorView::StrategyUnavailable {
                strategy: Strategy::ImportTableHijack,
                reason: "payload must export ordinal 1 (Detours import-table requirement)"@,
            },
        ),
{
}

/// A path is terminated unless it holds a NUL itself; its units stay.
pub proof fn paths_are_terminated(path: Seq<u16>)
    ensures
        wide_of(path) is Ok <==> forall|i: int| 0 <= i < path.len() ==> #[trigger] path[i] != 0,
        wide_of(path) matches Ok(units) ==> {
            &&& units.len() == path.len() + 1
            &&& units[path.len() as int] == 0
            &&& forall|i: int| 0 <= i < path.len() ==> #[trigger] units[i] == path[i]
        },
{
    assert(path.contains(0) <==> !(forall|i: int| 0 <= i < path.len() ==> #[trigger] path[i] != 0));
}

proof fn lemma_unit_bytes(units: Seq<u16>)
    ensures
        unit_bytes(units).len() == 2 * units.len(),
        forall|i: int|
            0 <= i < units.len() ==> unit_bytes(units)[2 * i] == (#[trigger] units[i]) % 256
                && unit_bytes(units)[2 * i + 1] == units[i] / 256,
    decreases units.len(),
{
    if units.len() > 0 {
        let rest = units.drop_last();
        lemma_unit_bytes(rest);
        let last = le16_bytes(units.last());
        assert(last[0] == units.last() % 256 && last[1] == units.last() / 256);
        assert forall|i: int| 0 <= i < units.len() implies unit_bytes(units)[2 * i] == (
        #[trigger] units[i]) % 256 && unit_bytes(units)[2 * i + 1] == units[i] / 256 by {
            if i < rest.len() {
                assert(rest[i] == units[i]);
            }
        }
    }
}

/// LoadLibrary gets every unit of the path as it is, low byte first, and a NUL
/// behind them. Only a path that holds a NUL itself is refused.
pub proof fn arguments_hold_the_path(path: Seq<u16>)
    ensures
        argument_of(path) is Ok <==> forall|i: int|
            0 <= i < path.len() ==> #[trigger] path[i] != 0,
        argument_of(path) matches Ok(bytes) ==> {
            &&& bytes.len() == 2 * path.len() + 2
            &&& forall|i: int|
                0 <= i < path.len() ==> bytes[2 * i] == (#[trigger] path[i]) % 256 && bytes[2 * i
                    + 1] == path[i] / 256
            &&& bytes[2 * path.len() as int] == 0 && bytes[2 * path.len() as int + 1] == 0
        },
        argument_of(path) matches Err(fault) ==> fault == ErrorView::UnsupportedPath(
            "embedded NUL"@,
        ),
{
    paths_are_terminated(path);
    if wide_of(path) is Ok {
        let units = wide_of(path)->Ok_0;
        lemma_unit_bytes(units);
        assert(units[path.len() as int] == 0);
        assert forall|i: int| 0 <= i < path.len() implies unit_bytes(units)[2 * i] == (
        #[trigger] path[i]) % 256 && unit_bytes(units)[2 * i + 1] == path[i] / 256 by {
            assert(units[i] == path[i]);
        }
    }
}

/// The canonical path of a payload is the one that the file system names, if
/// that is a file.
pub proof fn canonical_paths_are_files(path: Seq<u16>, resolved: Resolved)
    requires
        forall|i: int| 0 <= i < path.len() ==> #[trigger] path[i] != 0,
    ensures
        resolved is NotFound ==> canonical_of(path, resolved) == Err::<Seq<u16>, ErrorView>(
            ErrorView::DllNotFound(path),
        ),
        resolved matches Resolved::Failed(source) ==> canonical_of(path, resolved) == Err::<
            Seq<u16>,
            ErrorView,
        >(ErrorView::Io { operation: "canonicalize DLL"@, path, source }),
        resolved matches Resolved::Found { path: found, is_file } ==> {
            &&& is_file ==> canonical_of(path, resolved) == Ok::<Seq<u16>, ErrorView>(found@)
            &&& !is_file ==> canonical_of(path, resolved) == Err::<Seq<u16>, ErrorView>(
                ErrorView::UnsupportedPath("payload is not a file"@),
            )
        },
{
    paths_are_terminated(path);
}

/// `path` begins with `\\?\`.
pub open spec fn is_verbatim(path: Seq<u16>) -> bool {
    path.len() >= 4 && path[0] == 92 && path[1] == 92 && path[2] == 63 && path[3] == 92
}

/// From `skip` on, `path` is that of a local drive, in ASCII and short enough
/// for a classic Windows path.
pub open spec fn is_local_ascii(path: Seq<u16>, skip: int) -> bool {
    let n = path.len() - skip;
    &&& 3 <= n < 260
    &&& (65 <= path[skip] <= 90 || 97 <= path[skip] <= 122)
    &&& path[skip + 1] == 58
    &&& path[skip + 2] == 92 || path[skip + 2] == 47
    &&& forall|i: int| skip <= i < path.len() ==> 0 < #[trigger] path[i] <= 127
}

proof fn lemma_verbatim(path: Seq<u16>)
    ensures
        verbatim_prefix().is_prefix_of(path) <==> is_verbatim(path),
        stripped(path) == (if is_verbatim(path) {
            path.skip(4)
        } else {
            path
        }),
{
    let prefix = verbatim_prefix();
    if prefix.is_prefix_of(path) {
        assert(prefix =~= path.subrange(0, 4));
        assert(path.subrange(0, 4)[0] == path[0]);
        assert(path.subrange(0, 4)[1] == path[1]);
        assert(path.subrange(0, 4)[2] == path[2]);
        assert(path.subrange(0, 4)[3] == path[3]);
    }
    if is_verbatim(path) {
        assert(prefix =~= path.subrange(0, 4));
    }
}

/// A path can be imported exactly when it is an ASCII path of a local drive
/// that fits a classic Windows path, without its verbatim prefix if it has one.
/// The import name has its units, one byte each.
pub proof fn local_ascii_paths_are_imported(path: Seq<u16>)
    ensures
        ({
            let skip: int = if is_verbatim(path) {
                4
            } else {
                0
            };
            &&& import_path_of(path) is Ok <==> is_local_ascii(path, skip)
            &&& import_path_of(path) matches Ok(name) ==> {
                &&& name.len() == path.len() - skip
                &&& forall|i: int| 0 <= i < name.len() ==> #[trigger] name[i] == path[i + skip]
            }
        }),
{
    lemma_verbatim(path);
    let skip: int = if is_verbatim(path) {
        4
    } else {
        0
    };
    let local = stripped(path);
    assert(local.len() == path.len() - skip);
    assert forall|i: int| 0 <= i < local.len() implies #[trigger] local[i] == path[i + skip] by {}
    if is_local_ascii(path, skip) {
        assert forall|i: int| 0 <= i < local.len() implies !(#[trigger] local[i] == 0 || local[i]
            > 127) by {
            assert(local[i] == path[i + skip]);
        }
        if unc_prefix().is_prefix_of(local) {
            assert(unc_prefix() =~= local.subrange(0, 4));
            assert(local.subrange(0, 4)[1] == local[1]);
            assert(unc_prefix()[1] == 78);
        }
    }
    if import_path_of(path) is Ok {
        assert forall|i: int| skip <= i < path.len() implies 0 < #[trigger] path[i] <= 127 by {
            assert(local[i - skip] == path[i]);
        }
        assert(local[0] == path[skip] && local[1] == path[skip + 1] && local[2] == path[skip + 2]);
        let name = import_path_of(path)->Ok_0;
        assert forall|i: int| 0 <= i < name.len() implies #[trigger] name[i] == path[i + skip] by {
            assert(local[i] == path[i + skip]);
        }
    }
}

/// One byte more than the limit is read, to see an excess.
pub proof fn one_byte_too_many_is_read(limit: u64, quota: u64)
    requires
        call_ensures(read_quota, (limit,), quota),
    ensures
        limit < u64::MAX ==> quota == limit + 1,
        limit == u64::MAX ==> quota == limit,
{
}

/// A NUL is found wherever it stands, and paths are compared by the spelling
/// of the file system where it has one.
pub proof fn paths_are_compared_as_they_are_spelled(
    path: &[u16],
    canonical: Option<Vec<u16>>,
    nul: bool,
    units: Vec<u16>,
)
    requires
        call_ensures(contains_nul, (path,), nul),
        call_ensures(normalized, (path, canonical), units),
    ensures
        nul <==> exists|i: int| 0 <= i < path@.len() && #[trigger] path@[i] == 0,
        canonical matches Some(found) ==> units@ == found@,
        canonical is None ==> units@ == path@,
{
    if nul {
        let i = choose|i: int| 0 <= i < path@.len() && path@[i] == 0;
        assert(path@[i] == 0);
    }
}

} // verus!
