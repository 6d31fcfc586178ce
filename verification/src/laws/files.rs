//! Where the addresses of an image lie in its file, and what it exports.

use crate::error::ErrorView;
use crate::laws::bytes::{dword, fields_are_little_endian, pe_headers_are_found};
use crate::laws::headers::{mapped_size, meet, sections_fit, whole_headers_decode};
use crate::pe::headers::{
    checksum_place, directory_place, file_range_of, headers_of, import_ordinal_of, HeadersView,
};
use crate::pe::layout::{le32, nt_offset_of};
use crate::pe::view::{
    directory_at, export_at, export_directory_of, export_places, export_target_of, file_offset_of,
    holds_string, layout_of, offset_in, stored_at, stored_in, table_of, wide_fault, wrapped_end,
    DataDirectory, ExportTarget, Section,
};
use vstd::prelude::*;

verus! {

/// The mapped range of a section holds an address.
pub open spec fn holds(s: Section, rva: u32) -> bool {
    s.rva <= rva < s.rva + mapped_size(s)
}

/// No address lies in two sections, and no section wraps around.
proof fn lemma_one_holder(sections: Seq<Section>, header_size: int, image_size: u32, rva: u32, i: int)
    requires
        sections_fit(sections, header_size, image_size as int),
        0 <= i < sections.len(),
        holds(sections[i], rva),
    ensures
        forall|k: int| 0 <= k < i ==> !holds(#[trigger] sections[k], rva),
        wrapped_end(sections[i]) == sections[i].rva + mapped_size(sections[i]),
{
    assert forall|k: int| 0 <= k < i implies !holds(#[trigger] sections[k], rva) by {
        assert(!meet(sections[k], sections[i]));
    }
    assert(sections[i].rva + mapped_size(sections[i]) <= image_size);
}

proof fn lemma_offset(sections: Seq<Section>, header_size: int, image_size: u32, rva: u32, i: int)
    requires
        sections_fit(sections, header_size, image_size as int),
        0 <= i < sections.len(),
        holds(sections[i], rva),
    ensures
        offset_in(sections, rva) is Ok <==> rva - sections[i].rva < sections[i].raw_size
            && sections[i].raw_offset + sections[i].raw_size <= u32::MAX,
        offset_in(sections, rva) matches Ok(o) ==> o == sections[i].raw_offset + (rva
            - sections[i].rva),
    decreases sections.len(),
{
    lemma_one_holder(sections, header_size, image_size, rva, i);
    if i > 0 {
        assert(!holds(sections[0], rva));
        assert(sections[0].rva + mapped_size(sections[0]) <= image_size);
        lemma_rest_fits(sections, header_size, image_size as int);
        assert(sections.skip(1)[i - 1] == sections[i]);
        lemma_offset(sections.skip(1), header_size, image_size, rva, i - 1);
    }
}

proof fn lemma_rest_fits(sections: Seq<Section>, header_size: int, image_size: int)
    requires
        sections_fit(sections, header_size, image_size),
        sections.len() > 0,
    ensures
        sections_fit(sections.skip(1), header_size, image_size),
{
    let rest = sections.skip(1);
    assert forall|k: int| 0 <= k < rest.len() implies header_size <= (#[trigger] rest[k]).rva
        && rest[k].rva + mapped_size(rest[k]) <= image_size by {
        assert(rest[k] == sections[k + 1]);
    }
    assert forall|i: int, j: int| 0 <= i < j < rest.len() implies !meet(
        #[trigger] rest[i],
        #[trigger] rest[j],
    ) by {
        assert(rest[i] == sections[i + 1] && rest[j] == sections[j + 1]);
    }
}

proof fn lemma_nowhere(sections: Seq<Section>, header_size: int, image_size: u32, rva: u32, b: Seq<u8>, size: int)
    requires
        sections_fit(sections, header_size, image_size as int),
        forall|k: int| 0 <= k < sections.len() ==> !holds(#[trigger] sections[k], rva),
    ensures
        offset_in(sections, rva) is Err,
        stored_at(b, sections, rva, size) is Err,
    decreases sections.len(),
{
    if sections.len() > 0 {
        assert(!holds(sections[0], rva));
        assert(sections[0].rva + mapped_size(sections[0]) <= image_size);
        lemma_rest_fits(sections, header_size, image_size as int);
        assert forall|k: int| 0 <= k < sections.skip(1).len() implies !holds(
            #[trigger] sections.skip(1)[k],
            rva,
        ) by {
            assert(sections.skip(1)[k] == sections[k + 1]);
        }
        lemma_nowhere(sections.skip(1), header_size, image_size, rva, b, size);
    }
}

proof fn lemma_wide(b: Seq<u8>, h: HeadersView)
    requires
        headers_of(b) == Ok::<HeadersView, ErrorView>(h),
        h.magic == 0x20b,
    ensures
        wide_fault(b) is None,
        layout_of(b).sections == h.sections,
        layout_of(b).header_size == h.header_size,
        layout_of(b).directory_count >= 16,
        directory_at(b, 112, 0) == h.directories[0],
        sections_fit(h.sections, h.header_size as int, h.image_size as int),
        h.header_size <= b.len(),
{
    whole_headers_decode(b);
}

/// The bytes of a file that are mapped at an address: those of the headers
/// where they stand, those of a section in its raw data. There are none behind
/// the raw data or between the sections, nor outside the image or the file.
pub proof fn mapped_bytes_are_found(b: Seq<u8>, h: HeadersView, rva: u32, n: int)
    requires
        headers_of(b) == Ok::<HeadersView, ErrorView>(h),
        h.magic == 0x20b,
        b.len() <= usize::MAX,
        0 <= n,
    ensures
        ({
            let found = file_range_of(h, b, rva, n);
            &&& rva < h.header_size ==> {
                &&& found is Ok <==> rva + n <= h.image_size && rva + n <= b.len()
                &&& found matches Ok(bytes) ==> bytes == b.subrange(rva as int, rva + n)
            }
            &&& forall|i: int|
                0 <= i < h.sections.len() && holds(#[trigger] h.sections[i], rva) ==> {
                    let s = h.sections[i];
                    let at = s.raw_offset + (rva - s.rva);
                    &&& found is Ok <==> rva + n <= h.image_size && rva - s.rva < s.raw_size
                        && s.raw_offset + s.raw_size <= u32::MAX && at + n <= b.len()
                    &&& found matches Ok(bytes) ==> bytes == b.subrange(at, at + n)
                }
            &&& rva >= h.header_size && (forall|i: int|
                0 <= i < h.sections.len() ==> !holds(#[trigger] h.sections[i], rva)) ==> found is Err
        }),
{
    lemma_wide(b, h);
    let found = file_range_of(h, b, rva, n);
    assert forall|i: int| 0 <= i < h.sections.len() && holds(#[trigger] h.sections[i], rva) implies {
        let s = h.sections[i];
        let at = s.raw_offset + (rva - s.rva);
        &&& found is Ok <==> rva + n <= h.image_size && rva - s.rva < s.raw_size && s.raw_offset
            + s.raw_size <= u32::MAX && at + n <= b.len()
        &&& found matches Ok(bytes) ==> bytes == b.subrange(at, at + n)
    } by {
        lemma_offset(h.sections, h.header_size as int, h.image_size, rva, i);
    }
    if rva >= h.header_size && (forall|i: int|
        0 <= i < h.sections.len() ==> !holds(#[trigger] h.sections[i], rva)) {
        lemma_nowhere(h.sections, h.header_size as int, h.image_size, rva, b, n);
    }
}

/// `n` bytes at `rva` stand in the file `b` at `at`, in the raw data of section
/// number `i`.
pub open spec fn placed_in(b: Seq<u8>, h: HeadersView, rva: u32, n: int, i: int, at: int) -> bool {
    let s = h.sections[i];
    &&& 0 <= i < h.sections.len()
    &&& holds(s, rva)
    &&& rva - s.rva + n <= s.raw_size
    &&& s.raw_offset + s.raw_size <= b.len() && s.raw_offset + s.raw_size <= u32::MAX
    &&& at == s.raw_offset + (rva - s.rva)
}

/// `n` bytes at `rva` stand in the file `b` at `at`.
pub open spec fn placed(b: Seq<u8>, h: HeadersView, rva: u32, n: int, at: int) -> bool {
    exists|i: int| #[trigger] placed_in(b, h, rva, n, i, at)
}

proof fn lemma_stored(b: Seq<u8>, sections: Seq<Section>, header_size: int, image_size: u32, rva: u32, n: int, i: int)
    requires
        sections_fit(sections, header_size, image_size as int),
        0 <= i < sections.len(),
        holds(sections[i], rva),
    ensures
        stored_at(b, sections, rva, n) == stored_in(b, sections[i], rva, n),
    decreases sections.len(),
{
    lemma_one_holder(sections, header_size, image_size, rva, i);
    if i > 0 {
        assert(!holds(sections[0], rva));
        assert(sections[0].rva + mapped_size(sections[0]) <= image_size);
        lemma_rest_fits(sections, header_size, image_size as int);
        assert(sections.skip(1)[i - 1] == sections[i]);
        lemma_stored(b, sections.skip(1), header_size, image_size, rva, n, i - 1);
    }
}

proof fn lemma_placed(b: Seq<u8>, h: HeadersView, rva: u32, n: int)
    requires
        sections_fit(h.sections, h.header_size as int, h.image_size as int),
        0 <= n,
    ensures
        stored_at(b, h.sections, rva, n) is Ok <==> exists|at: int| #[trigger]
            placed(b, h, rva, n, at),
        forall|at: int| #[trigger]
            placed(b, h, rva, n, at) ==> (stored_at(b, h.sections, rva, n) matches Ok((found, _))
                && found == at),
        forall|i: int, at: int| #[trigger]
            placed_in(b, h, rva, n, i, at) ==> stored_at(b, h.sections, rva, n) == Ok::<
                (int, int),
                Seq<char>,
            >((at, h.sections[i].raw_offset + h.sections[i].raw_size)),
{
    assert forall|i: int, at: int| #[trigger] placed_in(b, h, rva, n, i, at) implies stored_at(
        b,
        h.sections,
        rva,
        n,
    ) == Ok::<(int, int), Seq<char>>(
        (at, h.sections[i].raw_offset + h.sections[i].raw_size),
    ) by {
        lemma_placed_in(b, h, rva, n, i);
    }
    assert forall|at: int| #[trigger] placed(b, h, rva, n, at) implies (stored_at(
        b,
        h.sections,
        rva,
        n,
    ) matches Ok((found, _)) && found == at) by {
        let i = choose|i: int| #[trigger] placed_in(b, h, rva, n, i, at);
        assert(placed_in(b, h, rva, n, i, at));
    }
    if forall|k: int| 0 <= k < h.sections.len() ==> !holds(#[trigger] h.sections[k], rva) {
        lemma_nowhere(h.sections, h.header_size as int, h.image_size, rva, b, n);
    } else {
        let i = choose|k: int| 0 <= k < h.sections.len() && holds(#[trigger] h.sections[k], rva);
        lemma_placed_in(b, h, rva, n, i);
        if stored_at(b, h.sections, rva, n) is Ok {
            let at = stored_at(b, h.sections, rva, n)->Ok_0.0;
            assert(placed_in(b, h, rva, n, i, at));
            assert(placed(b, h, rva, n, at));
        }
    }
}

#[verifier::spinoff_prover]
proof fn lemma_placed_in(b: Seq<u8>, h: HeadersView, rva: u32, n: int, i: int)
    requires
        sections_fit(h.sections, h.header_size as int, h.image_size as int),
        0 <= i < h.sections.len(),
        holds(h.sections[i], rva),
        0 <= n,
    ensures
        ({
            let s = h.sections[i];
            let at = s.raw_offset + (rva - s.rva);
            let found = stored_at(b, h.sections, rva, n);
            &&& found is Ok <==> placed_in(b, h, rva, n, i, at)
            &&& found is Ok ==> found == Ok::<(int, int), Seq<char>>(
                (at, s.raw_offset + s.raw_size),
            )
        }),
{
    lemma_stored(b, h.sections, h.header_size as int, h.image_size, rva, n, i);
    lemma_section(b, h.sections[i], rva, n);
}

proof fn lemma_section(b: Seq<u8>, s: Section, rva: u32, n: int)
    requires
        holds(s, rva),
        0 <= n,
    ensures
        stored_in(b, s, rva, n) is Ok <==> rva - s.rva + n <= s.raw_size && s.raw_offset + s.raw_size
            <= b.len() && s.raw_offset + s.raw_size <= u32::MAX,
        stored_in(b, s, rva, n) is Ok ==> stored_in(b, s, rva, n) == Ok::<(int, int), Seq<char>>(
            (s.raw_offset + (rva - s.rva), s.raw_offset + s.raw_size),
        ),
{
}

/// A table of `count` values of `width` bytes at `rva` can be read: it is
/// aligned and stands in the file, or there is none.
pub open spec fn has_table(b: Seq<u8>, h: HeadersView, rva: int, count: int, width: int) -> bool {
    &&& count * width <= usize::MAX
    &&& rva == 0 || (rva % width == 0 && exists|at: int| #[trigger]
        placed(b, h, rva as u32, count * width, at))
}

/// The exported function at `rva` can be imported: one in the export directory
/// is a terminated name, any other one has bytes in the file.
pub open spec fn can_be_imported(b: Seq<u8>, h: HeadersView, rva: int) -> bool {
    let d = h.directories[0];
    &&& rva != 0
    &&& if d.rva <= rva < d.rva + d.size {
        has_name(b, h, rva as u32)
    } else {
        rva < h.header_size || is_backed(h, rva as u32)
    }
}

/// A terminated string stands in the file at `rva`.
#[verifier::opaque]
pub open spec fn has_name(b: Seq<u8>, h: HeadersView, rva: u32) -> bool {
    exists|i: int, at: int, end: int|
        {
            &&& #[trigger] placed_in(b, h, rva, 0, i, at)
            &&& at <= end < h.sections[i].raw_offset + h.sections[i].raw_size
            &&& #[trigger] b[end] == 0
        }
}

/// The raw data of a section holds the byte at `rva`.
#[verifier::opaque]
pub open spec fn is_backed(h: HeadersView, rva: u32) -> bool {
    exists|i: int|
        0 <= i < h.sections.len() && holds(#[trigger] h.sections[i], rva) && rva
            - h.sections[i].rva < h.sections[i].raw_size && h.sections[i].raw_offset
            + h.sections[i].raw_size <= u32::MAX
}

/// The export directory at `at`, whose functions stand at `functions`, exports
/// ordinal 1.
pub open spec fn exports_one(b: Seq<u8>, h: HeadersView, at: int, functions: int) -> bool {
    let base = dword(b, at + 16);
    let count = dword(b, at + 20);
    let names = dword(b, at + 24);
    &&& placed(b, h, h.directories[0].rva, 40, at)
    &&& base <= 1
    &&& 1 - base < count
    &&& has_table(b, h, dword(b, at + 28), count, 4)
    &&& has_table(b, h, dword(b, at + 32), names, 4)
    &&& has_table(b, h, dword(b, at + 36), names, 2)
    &&& dword(b, at + 28) != 0
    &&& placed(b, h, dword(b, at + 28) as u32, count * 4, functions)
    &&& can_be_imported(b, h, dword(b, functions + 4 * (1 - base)))
}

/// Ordinal 1 is found in a native image exactly when its export directory lies
/// in the image and in the file, aligned, the export tables can be read, and
/// the function with that ordinal can be imported. No other ordinal is ever
/// the answer.
#[verifier::spinoff_prover]
pub proof fn exported_ordinals_are_found(b: Seq<u8>, h: HeadersView)
    requires
        headers_of(b) == Ok::<HeadersView, ErrorView>(h),
        h.magic == 0x20b,
    ensures
        import_ordinal_of(h, b) is Ok <==> {
            let d = h.directories[0];
            &&& d.rva != 0 && d.size >= 40 && d.rva + d.size <= h.image_size
            &&& d.rva % 4 == 0
            &&& exists|at: int, functions: int| #[trigger] exports_one(b, h, at, functions)
        },
        import_ordinal_of(h, b) matches Ok(ordinal) ==> ordinal == 1,
{
    lemma_wide(b, h);
    let d = h.directories[0];
    if d.rva != 0 && d.size >= 40 && d.rva + d.size <= h.image_size {
        lemma_exports(b, h);
    }
}

#[verifier::spinoff_prover]
proof fn lemma_exports(b: Seq<u8>, h: HeadersView)
    requires
        wide_fault(b) is None,
        layout_of(b).sections == h.sections,
        layout_of(b).header_size == h.header_size,
        layout_of(b).directory_count >= 16,
        directory_at(b, 112, 0) == h.directories[0],
        sections_fit(h.sections, h.header_size as int, h.image_size as int),
        h.directories[0].rva != 0,
        h.directories[0].size >= 40,
        h.directories[0].rva + h.directories[0].size <= h.image_size,
    ensures
        import_ordinal_of(h, b) is Ok <==> h.directories[0].rva % 4 == 0 && exists|
            at: int,
            functions: int,
        | #[trigger] exports_one(b, h, at, functions),
{
    let d = h.directories[0];
    lemma_placed(b, h, d.rva, 40);
    if d.rva % 4 == 0 {
        if export_directory_of(b) is Ok {
            let at = export_directory_of(b)->Ok_0;
            assert(exists|o: int| #[trigger] placed(b, h, d.rva, 40, o));
            assert(placed(b, h, d.rva, 40, at));
            lemma_at(b, h, at);
            assert forall|o: int, functions: int| #[trigger] exports_one(b, h, o, functions) implies o
                == at by {
                assert(placed(b, h, d.rva, 40, o));
            }
        } else {
            assert forall|o: int, functions: int| !#[trigger] exports_one(b, h, o, functions) by {
                if exports_one(b, h, o, functions) {
                    assert(placed(b, h, d.rva, 40, o));
                }
            }
        }
    }
}

proof fn lemma_table(b: Seq<u8>, h: HeadersView, rva: u32, count: u32, width: int)
    requires
        layout_of(b).sections == h.sections,
        sections_fit(h.sections, h.header_size as int, h.image_size as int),
        width == 2 || width == 4,
    ensures
        table_of(b, rva, count, width) is Ok <==> has_table(b, h, rva as int, count as int, width),
        table_of(b, rva, count, width) matches Ok(found) ==> {
            &&& found is None <==> rva == 0
            &&& found matches Some(at) ==> placed(b, h, rva, count * width, at)
        },
        forall|at: int| #[trigger]
            placed(b, h, rva, count * width, at) && table_of(b, rva, count, width) is Ok && rva != 0
                ==> table_of(b, rva, count, width)->Ok_0 == Some(at),
{
    assert(0 <= count * width) by (nonlinear_arith)
        requires
            count >= 0,
            width >= 0,
    ;
    lemma_placed(b, h, rva, count * width);
    assert((rva as int) as u32 == rva);
    let (value, n) = (rva as int, count as int);
    assert(value as u32 == rva && n * width == count * width);
    if has_table(b, h, value, n, width) && value != 0 {
        let at = choose|at: int| #[trigger] placed(b, h, value as u32, n * width, at);
        assert(placed(b, h, rva, count * width, at));
    }
    if table_of(b, rva, count, width) is Ok && rva != 0 {
        let at = choose|at: int| #[trigger] placed(b, h, rva, count * width, at);
        assert(placed(b, h, rva, count * width, at));
    }
}

proof fn lemma_import(b: Seq<u8>, h: HeadersView, rva: u32)
    requires
        wide_fault(b) is None,
        layout_of(b).sections == h.sections,
        layout_of(b).header_size == h.header_size,
        directory_at(b, 112, 0) == h.directories[0],
        sections_fit(h.sections, h.header_size as int, h.image_size as int),
        h.directories[0].rva + h.directories[0].size <= h.image_size,
    ensures
        can_be_imported(b, h, rva as int) <==> (export_at(b, rva) matches Ok(target) && (target
            matches ExportTarget::Symbol(symbol) ==> file_offset_of(b, symbol) is Ok)),
{
    lemma_forward(b, h, rva);
    lemma_symbol(h, rva);
    assert(file_offset_of(b, rva) is Ok <==> rva < h.header_size || offset_in(h.sections, rva)
        is Ok);
    lemma_export_at(b, h.directories[0], rva);
    lemma_import_by(
        b,
        h,
        rva,
        export_at(b, rva),
        stored_at(b, h.sections, rva, 0),
        file_offset_of(b, rva) is Ok,
    );
}

#[verifier::spinoff_prover]
proof fn lemma_export_at(b: Seq<u8>, d: DataDirectory, rva: u32)
    requires
        directory_at(b, 112, 0) == d,
        d.rva + d.size <= u32::MAX,
    ensures
        rva == 0 ==> export_at(b, rva) is Err,
        rva != 0 && !(d.rva <= rva < d.rva + d.size) ==> export_at(b, rva) == Ok::<
            ExportTarget,
            Seq<char>,
        >(ExportTarget::Symbol(rva)),
        rva != 0 && d.rva <= rva < d.rva + d.size ==> {
            let found = stored_at(b, layout_of(b).sections, rva, 0);
            &&& export_at(b, rva) is Ok <==> (found matches Ok((at, end)) && holds_string(
                b,
                at,
                end,
            ))
            &&& export_at(b, rva) is Ok ==> export_at(b, rva)->Ok_0 is Forward
        },
{
}

#[verifier::spinoff_prover]
proof fn lemma_import_by(
    b: Seq<u8>,
    h: HeadersView,
    rva: u32,
    target: std::result::Result<ExportTarget, Seq<char>>,
    found: std::result::Result<(int, int), Seq<char>>,
    backed: bool,
)
    requires
        has_name(b, h, rva) <==> (found matches Ok((at, end)) && holds_string(b, at, end)),
        backed <==> rva < h.header_size || is_backed(h, rva),
        rva == 0 ==> target is Err,
        ({
            let d = h.directories[0];
            &&& rva != 0 && !(d.rva <= rva < d.rva + d.size) ==> target == Ok::<
                ExportTarget,
                Seq<char>,
            >(ExportTarget::Symbol(rva))
            &&& rva != 0 && d.rva <= rva < d.rva + d.size ==> {
                &&& target is Ok <==> (found matches Ok((at, end)) && holds_string(b, at, end))
                &&& target is Ok ==> target->Ok_0 is Forward
            }
        }),
    ensures
        can_be_imported(b, h, rva as int) <==> (target matches Ok(target) && (target
            matches ExportTarget::Symbol(symbol) ==> backed)),
{
    assert((rva as int) as u32 == rva);
}

#[verifier::spinoff_prover]
proof fn lemma_forward(b: Seq<u8>, h: HeadersView, rva: u32)
    requires
        sections_fit(h.sections, h.header_size as int, h.image_size as int),
    ensures
        has_name(b, h, rva) <==> (stored_at(b, h.sections, rva, 0) matches Ok((at, end))
            && holds_string(b, at, end)),
{
    reveal(has_name);
    if stored_at(b, h.sections, rva, 0) is Ok {
        lemma_placed(b, h, rva, 0);
        let (at, end) = stored_at(b, h.sections, rva, 0)->Ok_0;
        let o = choose|o: int| #[trigger] placed(b, h, rva, 0, o);
        assert(placed(b, h, rva, 0, o));
        let i = choose|i: int| #[trigger] placed_in(b, h, rva, 0, i, o);
        assert(placed_in(b, h, rva, 0, i, at));
        if holds_string(b, at, end) {
            let z = choose|z: int| at <= z < end && #[trigger] b[z] == 0;
            assert(b[z] == 0);
        }
    }
    if has_name(b, h, rva) {
        let (i, at, end) = choose|i: int, at: int, end: int|
            {
                &&& #[trigger] placed_in(b, h, rva, 0, i, at)
                &&& at <= end < h.sections[i].raw_offset + h.sections[i].raw_size
                &&& #[trigger] b[end] == 0
            };
        lemma_placed_in(b, h, rva, 0, i);
        assert(b[end] == 0);
        assert(holds_string(b, at, h.sections[i].raw_offset + h.sections[i].raw_size));
    }
}

#[verifier::spinoff_prover]
proof fn lemma_symbol(h: HeadersView, rva: u32)
    requires
        sections_fit(h.sections, h.header_size as int, h.image_size as int),
    ensures
        offset_in(h.sections, rva) is Ok <==> is_backed(h, rva),
{
    reveal(is_backed);
    if exists|i: int| 0 <= i < h.sections.len() && holds(#[trigger] h.sections[i], rva) {
        let i = choose|i: int| 0 <= i < h.sections.len() && holds(#[trigger] h.sections[i], rva);
        lemma_offset(h.sections, h.header_size as int, h.image_size, rva, i);
        assert forall|k: int| 0 <= k < h.sections.len() && holds(
            #[trigger] h.sections[k],
            rva,
        ) implies k == i by {
            if k < i {
                assert(!meet(h.sections[k], h.sections[i]));
            } else if i < k {
                assert(!meet(h.sections[i], h.sections[k]));
            }
        }
    } else {
        lemma_nowhere(h.sections, h.header_size as int, h.image_size, rva, Seq::empty(), 0);
    }
}

#[verifier::spinoff_prover]
#[verifier::rlimit(40)]
proof fn lemma_at(b: Seq<u8>, h: HeadersView, at: int)
    requires
        wide_fault(b) is None,
        layout_of(b).sections == h.sections,
        layout_of(b).header_size == h.header_size,
        directory_at(b, 112, 0) == h.directories[0],
        sections_fit(h.sections, h.header_size as int, h.image_size as int),
        h.directories[0].rva != 0,
        h.directories[0].size >= 40,
        h.directories[0].rva + h.directories[0].size <= h.image_size,
        export_directory_of(b) == Ok::<int, Seq<char>>(at),
        placed(b, h, h.directories[0].rva, 40, at),
    ensures
        import_ordinal_of(h, b) is Ok <==> exists|functions: int| #[trigger]
            exports_one(b, h, at, functions),
{
    fields_are_little_endian(b, at + 16);
    fields_are_little_endian(b, at + 20);
    fields_are_little_endian(b, at + 24);
    fields_are_little_endian(b, at + 28);
    fields_are_little_endian(b, at + 32);
    fields_are_little_endian(b, at + 36);
    let base = le32(b, at + 16);
    let count = le32(b, at + 20);
    let names = le32(b, at + 24);
    let rva = le32(b, at + 28);
    lemma_table(b, h, rva, count, 4);
    lemma_table(b, h, le32(b, at + 32), names, 4);
    lemma_table(b, h, le32(b, at + 36), names, 2);
    if base <= 1 && export_places(b) is Ok && rva != 0 && 1 - base < count {
        let functions = table_of(b, rva, count, 4)->Ok_0->0;
        assert(placed(b, h, rva, count * 4, functions));
        let entry = le32(b, functions + (1 - base) * 4);
        fields_are_little_endian(b, functions + (1 - base) * 4);
        lemma_import(b, h, entry);
        assert(export_target_of(b, 1) == export_at(b, entry));
        if import_ordinal_of(h, b) is Ok {
            assert(exports_one(b, h, at, functions));
        }
        if exists|f: int| #[trigger] exports_one(b, h, at, f) {
            let f = choose|f: int| #[trigger] exports_one(b, h, at, f);
            assert(placed(b, h, rva, count * 4, f));
            assert(f == functions);
        }
    }
}

/// A directory is written at its place in the headers of a PE32+ image, and
/// nowhere else.
pub proof fn directories_have_their_place(h: HeadersView, b: Seq<u8>, index: int)
    requires
        0 <= index,
        b.len() <= usize::MAX,
    ensures
        directory_place(h, b, index) is Ok <==> h.magic == 0x20b && index < 16 && nt_offset_of(b)
            is Ok && dword(b, 60) + 136 + 8 * index + 8 <= b.len(),
        directory_place(h, b, index) matches Ok(o) ==> o == dword(b, 60) + 136 + 8 * index,
        checksum_place(h, b) is Ok <==> h.magic == 0x20b && nt_offset_of(b) is Ok && dword(b, 60)
            + 92 <= b.len(),
        checksum_place(h, b) matches Ok(o) ==> o == dword(b, 60) + 88,
{
    pe_headers_are_found(b);
}

} // verus!
