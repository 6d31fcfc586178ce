//! How the imports of an image are read, extended and redirected.

use crate::error::ErrorView;
use crate::laws::bytes::{dword, fields_are_little_endian, values_are_little_endian};
use crate::laws::headers::whole_headers_decode;
use crate::pe::convert::widening_of;
use crate::pe::headers::{headers_of, HeadersView};
use crate::pe::imports::{
    descriptor_in, import_block_reads_back, imports_fault, imports_of, reads_back, ImportDescriptor,
};
use crate::pe::layout::{le32, le64, nt_offset_of, spliced, Record};
use crate::pe::view::{DataDirectory, Section};
use crate::strategy::import_table::{
    clr_address_of, clr_header_of, first_holding, iat_choice, iat_fallback, import_block_of,
    model_of, policy_fault, redirected, redirected_headers_decode, walk_start_of,
    walks_find_the_whole_table, ClrHeader, ImportWalkView,
};
use vstd::prelude::*;

verus! {

/// The descriptor that stands in `b` at `o` is `d`.
pub open spec fn descriptor_stands(b: Seq<u8>, o: int, d: ImportDescriptor) -> bool {
    &&& dword(b, o) == d.original_first_thunk
    &&& dword(b, o + 4) == d.timestamp
    &&& dword(b, o + 8) == d.forwarder
    &&& dword(b, o + 12) == d.name
    &&& dword(b, o + 16) == d.first_thunk
}

/// The thunks that stand in `b` at `o` import this ordinal and nothing else.
pub open spec fn ordinal_stands(b: Seq<u8>, o: int, ordinal: u16) -> bool {
    &&& dword(b, o) == ordinal
    &&& dword(b, o + 4) == 0x8000_0000
    &&& dword(b, o + 8) == 0
    &&& dword(b, o + 12) == 0
}

/// The least multiple of eight that leaves room for `n + 2` descriptors.
pub open spec fn behind_descriptors(n: int, at: int) -> bool {
    at % 8 == 0 && 20 * (n + 2) <= at < 20 * (n + 2) + 8
}

/// An import block is built exactly for at most 4096 existing descriptors and
/// a module name of 1 to 32767 bytes without a NUL, at an address from which
/// it does not reach the end of the 32-bit range. As the loader reads it, it
/// imports the ordinal from the named module first, by thunks that are aligned,
/// then from every module that was there, in order, and then ends.
#[verifier::spinoff_prover]
pub proof fn import_blocks_load_the_payload_first(
    old: Seq<ImportDescriptor>,
    path: Seq<u8>,
    ordinal: u16,
    rva: u32,
    at: int,
)
    requires
        behind_descriptors(old.len() as int, at),
    ensures
        imports_fault(old, path, rva) is None <==> {
            &&& old.len() <= 4096
            &&& 1 <= path.len() <= 32767
            &&& forall|i: int| 0 <= i < path.len() ==> #[trigger] path[i] != 0
            &&& rva + at + 32 + path.len() + 1 <= u32::MAX
        },
        imports_fault(old, path, rva) is None ==> ({
            let b = imports_of(old, path, ordinal, rva);
            let n = old.len() as int;
            &&& b.len() == at + 32 + path.len() + 1
            &&& dword(b, 0) == rva + at && dword(b, 16) == rva + at + 16 && dword(b, 12) == rva + at
                + 32
            &&& dword(b, 4) == 0 && dword(b, 8) == 0
            &&& forall|i: int|
                0 <= i < n ==> descriptor_stands(b, 20 * (i + 1), #[trigger] old[i])
            &&& forall|k: int| 0 <= k < 20 ==> #[trigger] b[20 * (n + 1) + k] == 0
            &&& ordinal_stands(b, at, ordinal)
            &&& ordinal_stands(b, at + 16, ordinal)
            &&& forall|i: int| 0 <= i < path.len() ==> b[at + 32 + i] == #[trigger] path[i]
            &&& b[at + 32 + path.len()] == 0
        }),
{
    let n = old.len() as int;
    assert(at == ((n + 2) * 20 + 7) / 8 * 8);
    assert(path.contains(0) <==> !(forall|i: int| 0 <= i < path.len() ==> #[trigger] path[i] != 0));
    if imports_fault(old, path, rva) is None {
        let b = imports_of(old, path, ordinal, rva);
        import_block_reads_back(old, path, ordinal, rva);
        assert(reads_back(b, old, path, ordinal, rva));
        lemma_block(b, old, path, ordinal, rva, at);
    }
}

#[verifier::spinoff_prover]
proof fn lemma_block(
    b: Seq<u8>,
    old: Seq<ImportDescriptor>,
    path: Seq<u8>,
    ordinal: u16,
    rva: u32,
    at: int,
)
    requires
        reads_back(b, old, path, ordinal, rva),
        at == ((old.len() + 2) * 20 + 7) / 8 * 8,
        rva + at + 32 + path.len() + 1 <= u32::MAX,
    ensures
        b.len() == at + 32 + path.len() + 1,
        dword(b, 0) == rva + at,
        dword(b, 16) == rva + at + 16,
        dword(b, 12) == rva + at + 32,
        dword(b, 4) == 0 && dword(b, 8) == 0,
        forall|i: int|
            0 <= i < old.len() ==> descriptor_stands(b, 20 * (i + 1), #[trigger] old[i]),
        forall|k: int| 0 <= k < 20 ==> #[trigger] b[20 * (old.len() + 1) + k] == 0,
        ordinal_stands(b, at, ordinal),
        ordinal_stands(b, at + 16, ordinal),
        forall|i: int| 0 <= i < path.len() ==> b[at + 32 + i] == #[trigger] path[i],
        b[at + 32 + path.len()] == 0,
{
    let n = old.len() as int;
    lemma_descriptor(b, 0);
    assert forall|i: int| 0 <= i < n implies descriptor_stands(
        b,
        20 * (i + 1),
        #[trigger] old[i],
    ) by {
        assert(descriptor_in(b, i + 1) == old[i]);
        lemma_descriptor(b, i + 1);
    }
    assert(descriptor_in(b, n + 1).name == 0);
    lemma_descriptor(b, n + 1);
    lemma_zero_dword(b, 20 * (n + 1));
    lemma_zero_dword(b, 20 * (n + 1) + 4);
    lemma_zero_dword(b, 20 * (n + 1) + 8);
    lemma_zero_dword(b, 20 * (n + 1) + 12);
    lemma_zero_dword(b, 20 * (n + 1) + 16);
    assert forall|k: int| 0 <= k < 20 implies #[trigger] b[20 * (n + 1) + k] == 0 by {
    }
    lemma_thunk(b, at, ordinal);
    lemma_thunk(b, at + 16, ordinal);
    assert forall|i: int| 0 <= i < path.len() implies b[at + 32 + i] == #[trigger] path[i] by {
        assert(b.subrange(at + 32, at + 32 + path.len())[i] == b[at + 32 + i]);
    }
}

proof fn lemma_zero_dword(b: Seq<u8>, o: int)
    requires
        dword(b, o) == 0,
    ensures
        b[o] == 0 && b[o + 1] == 0 && b[o + 2] == 0 && b[o + 3] == 0,
{
}

proof fn lemma_thunk(b: Seq<u8>, o: int, ordinal: u16)
    requires
        le64(b, o) == 0x8000_0000_0000_0000 + ordinal,
        le64(b, o + 8) == 0,
    ensures
        ordinal_stands(b, o, ordinal),
{
    fields_are_little_endian(b, o);
    fields_are_little_endian(b, o + 8);
    let (low, high) = (dword(b, o), dword(b, o + 4));
    assert(0 <= low < 0x1_0000_0000 && 0 <= high < 0x1_0000_0000);
    assert(high == 0x8000_0000 && low == ordinal);
}

proof fn lemma_descriptor(b: Seq<u8>, i: int)
    requires
        0 <= i,
        20 * i + 20 <= b.len(),
    ensures
        descriptor_stands(b, 20 * i, descriptor_in(b, i)),
{
    let s = b.subrange(i * 20, i * 20 + 20);
    assert forall|k: int| 0 <= k < 20 implies #[trigger] s[k] == b[20 * i + k] by {}
    lemma_moved_dword(s, 0, b, 20 * i);
    lemma_moved_dword(s, 4, b, 20 * i + 4);
    lemma_moved_dword(s, 8, b, 20 * i + 8);
    lemma_moved_dword(s, 12, b, 20 * i + 12);
    lemma_moved_dword(s, 16, b, 20 * i + 16);
}

proof fn lemma_moved_dword(s: Seq<u8>, p: int, b: Seq<u8>, q: int)
    requires
        s[p] == b[q],
        s[p + 1] == b[q + 1],
        s[p + 2] == b[q + 2],
        s[p + 3] == b[q + 3],
    ensures
        le32(s, p) == dword(b, q),
{
}

/// Imports are read as the fields that stand in their bytes.
pub proof fn descriptors_are_read_as_they_stand(b: Seq<u8>)
    requires
        b.len() >= 20,
    ensures
        descriptor_stands(b, 0, ImportDescriptor::spec_decode(b.take(20))),
{
    lemma_descriptor(b, 0);
    assert(b.subrange(0, 20) =~= b.take(20));
}

/// An import block for an allocation lies at the distance of the allocation
/// from the image, which must be behind it and fit in 32 bits.
pub proof fn import_blocks_lie_behind_the_image(
    base: usize,
    address: usize,
    old: Seq<ImportDescriptor>,
    path: Seq<u8>,
    ordinal: u16,
)
    ensures
        import_block_of(base, address, old, path, ordinal) is Ok <==> base <= address && address
            - base <= u32::MAX && imports_fault(old, path, (address - base) as u32) is None,
        import_block_of(base, address, old, path, ordinal) matches Ok(block) ==> block.rva == address
            - base && block.bytes == imports_of(old, path, ordinal, block.rva),
{
}

/// The walk over the imports of an image begins at its import directory. It
/// may read as much as the directory says, or up to the end of the image if
/// that says nothing, whatever the sections are. A directory that lies outside
/// the image, or has a size without an address, is refused; where there is
/// none there is nothing to read.
pub proof fn import_walks_begin_at_their_directory(base: usize, h: HeadersView)
    ensures
        ({
            let d = h.directories[1];
            let start = walk_start_of(base, h);
            &&& start is Ok <==> (d.rva == 0 && d.size == 0) || (d.rva != 0 && d.size == 0) || (
            d.rva != 0 && d.rva + d.size <= h.image_size)
            &&& start matches Ok(walk) ==> {
                &&& walk.base == base
                &&& walk.rva == d.rva
                &&& walk.found.len() == 0
                &&& walk.done <==> d.rva == 0
                &&& d.rva != 0 && d.size != 0 ==> walk.bound == d.size
                &&& d.rva != 0 && d.size == 0 && d.rva <= h.image_size ==> walk.bound
                    == h.image_size - d.rva
                &&& d.rva > h.image_size ==> walk.bound == 0
            }
        }),
{
}

/// The CLR header of an image is looked for exactly where its directory is
/// whole and lies in the image: at the address that the directory names. An
/// image without such a directory is native.
pub proof fn clr_headers_are_looked_for(base: usize, h: HeadersView)
    ensures
        ({
            let d = h.directories[14];
            let found = clr_address_of(base, h);
            &&& found == Ok::<Option<usize>, ErrorView>(None) <==> d.rva == 0 && d.size == 0
            &&& (found matches Ok(Some(_))) <==> d.rva != 0 && d.size >= 72 && d.rva + d.size
                <= h.image_size && base + d.rva <= usize::MAX
            &&& found matches Ok(Some(address)) ==> address == base + d.rva
        }),
{
}

/// A CLR header is accepted when its own size is whole and within its
/// directory; its flags stand at offset sixteen.
pub proof fn clr_headers_have_their_flags(va: usize, h: HeadersView, b: Seq<u8>)
    ensures
        clr_header_of(va, h, b) is Ok <==> b.len() >= 20 && 72 <= dword(b, 0)
            <= h.directories[14].size,
        clr_header_of(va, h, b) matches Ok(clr) ==> clr.va == va && clr.flags == dword(b, 16),
{
    fields_are_little_endian(b, 0);
    fields_are_little_endian(b, 16);
}

proof fn lemma_flags(flags: u32)
    ensures
        flags & 1 == flags % 2,
        flags & 2 == 2 * (flags / 2 % 2),
{
    assert(flags & 1 == flags % 2) by (bit_vector);
    assert(flags & 2 == 2 * (flags / 2 % 2)) by (bit_vector);
}

/// Which targets the import-table strategy admits: native AMD64 images, unless
/// their CLR header requires 32 bits, and PE32 images for x86 that are managed,
/// pure IL, and do not require 32 bits.
pub proof fn admitted_targets(h: HeadersView, clr: Option<ClrHeader>)
    ensures
        policy_fault(h, clr) is None <==> {
            ||| h.magic != 0x10b && h.machine == 0x8664 && (clr matches Some(c) ==> c.flags / 2 % 2
                == 0)
            ||| h.magic == 0x10b && h.machine == 0x14c && (clr matches Some(c) && c.flags % 2 == 1
                && c.flags / 2 % 2 == 0)
        },
        h.magic != 0x10b && h.machine != 0x8664 ==> policy_fault(h, clr) == Some(
            ErrorView::UnsupportedMachine(h.machine),
        ),
{
    if clr is Some {
        lemma_flags(clr->0.flags);
    }
}

/// A native target is planned against as it is. A PE32 target is planned
/// against its widened headers, without the 32-bit imports and with every
/// other directory that these have.
pub proof fn plans_are_made_against_native_headers(
    h: HeadersView,
    original: Seq<u8>,
    clr: Option<ClrHeader>,
)
    ensures
        h.magic != 0x10b && policy_fault(h, clr) is None ==> (model_of(h, original, clr) matches Ok(
            model,
        ) && model.headers == h && model.patched == original),
        h.magic == 0x10b ==> (model_of(h, original, clr) matches Ok(model) ==> {
            let wide = headers_of(model.patched);
            &&& widening_of(original) == Ok::<Seq<u8>, ErrorView>(model.patched)
            &&& wide is Ok
            &&& model.headers.directories[1] == (DataDirectory { rva: 0, size: 0 })
            &&& model.headers.directories.len() == wide->Ok_0.directories.len()
            &&& forall|i: int|
                0 <= i < model.headers.directories.len() && i != 1 ==> (
                #[trigger] model.headers.directories[i]) == wide->Ok_0.directories[i]
            &&& model.headers.sections == wide->Ok_0.sections
            &&& model.headers.machine == wide->Ok_0.machine
            &&& model.headers.magic == wide->Ok_0.magic
            &&& model.headers.characteristics == wide->Ok_0.characteristics
            &&& model.headers.image_size == wide->Ok_0.image_size
            &&& model.headers.header_size == wide->Ok_0.header_size
        }),
        h.magic == 0x10b && policy_fault(h, clr) is None && (widening_of(
            original,
        ) matches Ok(wide) && headers_of(wide) is Ok) ==> model_of(h, original, clr) is Ok,
        policy_fault(h, clr) is Some ==> model_of(h, original, clr) is Err,
{
    if model_of(h, original, clr) is Ok && h.magic == 0x10b {
        whole_headers_decode(model_of(h, original, clr)->Ok_0.patched);
    }
}

/// The first section whose raw data holds `rva` is number `i`.
pub open spec fn holds_first(sections: Seq<Section>, rva: u32, i: int) -> bool {
    &&& 0 <= i < sections.len()
    &&& sections[i].rva <= rva < sections[i].rva + sections[i].raw_size
    &&& forall|k: int|
        0 <= k < i ==> !((#[trigger] sections[k]).rva <= rva < sections[k].rva
            + sections[k].raw_size)
}

proof fn lemma_first_holding(sections: Seq<Section>, rva: u32)
    ensures
        first_holding(sections, rva) is None <==> forall|k: int|
            0 <= k < sections.len() ==> !((#[trigger] sections[k]).rva <= rva < sections[k].rva
                + sections[k].raw_size),
        forall|i: int| #[trigger]
            holds_first(sections, rva, i) ==> first_holding(sections, rva) == Some(sections[i]),
    decreases sections.len(),
{
    if sections.len() > 0 {
        let rest = sections.skip(1);
        lemma_first_holding(rest, rva);
        assert forall|k: int| 0 <= k < rest.len() implies #[trigger] rest[k] == sections[k + 1] by {}
        if !(sections[0].rva <= rva < sections[0].rva + sections[0].raw_size) {
            assert forall|i: int| #[trigger] holds_first(sections, rva, i) implies first_holding(
                sections,
                rva,
            ) == Some(sections[i]) by {
                assert(i > 0);
                assert forall|k: int| 0 <= k < i - 1 implies !((#[trigger] rest[k]).rva <= rva
                    < rest[k].rva + rest[k].raw_size) by {
                    assert(rest[k] == sections[k + 1]);
                }
                assert(rest[i - 1] == sections[i]);
                assert(holds_first(rest, rva, i - 1));
            }
            if forall|k: int|
                0 <= k < rest.len() ==> !((#[trigger] rest[k]).rva <= rva < rest[k].rva
                    + rest[k].raw_size) {
                assert forall|k: int| 0 <= k < sections.len() implies !((
                #[trigger] sections[k]).rva <= rva < sections[k].rva + sections[k].raw_size) by {
                    if k > 0 {
                        assert(rest[k - 1] == sections[k]);
                    }
                }
            } else {
                let k = choose|k: int|
                    0 <= k < rest.len() && ((#[trigger] rest[k]).rva <= rva < rest[k].rva
                        + rest[k].raw_size);
                assert(rest[k] == sections[k + 1]);
            }
        } else {
            assert forall|i: int| #[trigger] holds_first(sections, rva, i) implies first_holding(
                sections,
                rva,
            ) == Some(sections[i]) by {
                assert(i == 0);
            }
        }
    }
}

/// `result` is what redirecting PE32+ header bytes `b`, whose directories begin
/// at `first`, to `block` is to give for an image with headers `h`.
pub open spec fn is_redirected(
    h: HeadersView,
    b: Seq<u8>,
    block: DataDirectory,
    first: int,
    result: std::result::Result<Seq<u8>, ErrorView>,
) -> bool {
    let iat = h.directories[12];
    let imports = h.directories[1];
    &&& result is Ok <==> (iat.rva == 0 && iat.size == 0) || (iat.rva != 0 && iat.rva + iat.size
        <= h.image_size)
    &&& result matches Ok(out) ==> {
        &&& out.len() == b.len()
        &&& dword(out, first + 8) == block.rva && dword(out, first + 12) == block.size
        &&& dword(out, first + 88) == 0 && dword(out, first + 92) == 0
        &&& dword(out, first - 48) == 0
        &&& iat.rva != 0 ==> dword(out, first + 96) == dword(b, first + 96) && dword(
            out,
            first + 100,
        ) == dword(b, first + 100)
        &&& iat.rva == 0 ==> {
            &&& forall|i: int| #[trigger]
                holds_first(h.sections, imports.rva, i) && imports.rva != 0 ==> dword(
                    out,
                    first + 96,
                ) == h.sections[i].rva && dword(out, first + 100) == h.sections[i].raw_size
            &&& imports.rva == 0 || (forall|k: int|
                0 <= k < h.sections.len() ==> !((#[trigger] h.sections[k]).rva <= imports.rva
                    < h.sections[k].rva + h.sections[k].raw_size)) ==> dword(out, first + 96)
                == block.rva && dword(out, first + 100) == block.size
        }
        &&& forall|i: int|
            0 <= i < b.len() && !(first + 8 <= i < first + 16) && !(first + 88 <= i < first + 104)
                && !(first - 48 <= i < first - 44) ==> #[trigger] out[i] == b[i]
    }
}

/// Header bytes are redirected exactly when the IAT directory is either absent
/// or lies in the image. The import directory then names the block, the bound
/// imports and the checksum are zero, and an IAT directory that was there stays
/// as it was. One that was absent becomes the section that holds the old
/// imports, or else the block. Every other byte stays.
pub proof fn redirecting_changes_only_the_imports(
    h: HeadersView,
    b: Seq<u8>,
    block: DataDirectory,
)
    requires
        headers_of(b) is Ok,
        headers_of(b)->Ok_0.magic == 0x20b,
        h.magic == 0x20b,
        h.directories.len() == 16,
    ensures
        is_redirected(h, b, block, dword(b, 60) + 136, redirected(h, b, block)),
{
    lemma_wide_place(b);
    lemma_redirected_bytes(h, b, block, dword(b, 60) + 136);
}

proof fn lemma_wide_place(b: Seq<u8>)
    requires
        headers_of(b) is Ok,
        headers_of(b)->Ok_0.magic == 0x20b,
    ensures
        nt_offset_of(b) == Ok::<usize, ErrorView>(dword(b, 60) as usize),
        64 <= dword(b, 60) <= 0x10_0000,
        dword(b, 60) + 264 <= b.len(),
{
    whole_headers_decode(b);
    fields_are_little_endian(b, 60);
}

#[verifier::spinoff_prover]
proof fn lemma_redirected_bytes(h: HeadersView, b: Seq<u8>, block: DataDirectory, first: int)
    requires
        nt_offset_of(b) == Ok::<usize, ErrorView>((first - 136) as usize),
        200 <= first <= 0x20_0000,
        first + 128 <= b.len(),
        h.magic == 0x20b,
        h.directories.len() == 16,
    ensures
        is_redirected(h, b, block, first, redirected(h, b, block)),
{
    let none = DataDirectory { rva: 0, size: 0 };
    let fallback = iat_fallback(h, block);
    lemma_first_holding(h.sections, h.directories[1].rva);
    let b1 = spliced(b, first + 8, block.spec_encode());
    let b2 = spliced(b1, first + 88, none.spec_encode());
    let b3 = spliced(b2, first + 96, fallback.spec_encode());
    lemma_put(b, first + 8, block);
    lemma_same_start(b, b1);
    lemma_put(b1, first + 88, none);
    lemma_same_start(b, b2);
    lemma_put(b2, first + 96, fallback);
    lemma_same_start(b, b3);
    DataDirectory::encode_has_size(block);
    DataDirectory::encode_has_size(none);
    DataDirectory::encode_has_size(fallback);
    let b4 = if h.directories[12].rva == 0 {
        b3
    } else {
        b2
    };
    lemma_zero_put(b4, first - 48);
    let out = spliced(b4, first - 48, 0u32.spec_encode());
    assert(redirected(h, b, block) matches Ok(found) ==> found == out);
    lemma_keep(b1, b2, first + 8);
    lemma_keep(b1, b2, first + 12);
    lemma_keep(b2, b3, first + 8);
    lemma_keep(b2, b3, first + 12);
    lemma_keep(b2, b3, first + 88);
    lemma_keep(b2, b3, first + 92);
    lemma_keep(b4, out, first + 8);
    lemma_keep(b4, out, first + 12);
    lemma_keep(b4, out, first + 88);
    lemma_keep(b4, out, first + 92);
    lemma_keep(b4, out, first + 96);
    lemma_keep(b4, out, first + 100);
    lemma_keep(b, b2, first + 96);
    lemma_keep(b, b2, first + 100);
}

/// A number keeps its value if its bytes do.
proof fn lemma_keep(b: Seq<u8>, c: Seq<u8>, o: int)
    ensures
        c[o] == b[o] && c[o + 1] == b[o + 1] && c[o + 2] == b[o + 2] && c[o + 3] == b[o + 3]
            ==> dword(c, o) == dword(b, o),
{
}

proof fn lemma_put(b: Seq<u8>, o: int, d: DataDirectory)
    requires
        0 <= o,
        o + 8 <= b.len(),
    ensures
        ({
            let c = spliced(b, o, d.spec_encode());
            &&& c.len() == b.len()
            &&& dword(c, o) == d.rva
            &&& dword(c, o + 4) == d.size
            &&& forall|i: int| 0 <= i < b.len() && !(o <= i < o + 8) ==> #[trigger] c[i] == b[i]
        }),
{
    let e = d.spec_encode();
    let c = spliced(b, o, e);
    values_are_little_endian(0, d.rva, 0);
    values_are_little_endian(0, d.size, 0);
    let (r, s) = (d.rva.spec_encode(), d.size.spec_encode());
    assert(e == r + s);
    assert(e[0] == r[0] && e[1] == r[1] && e[2] == r[2] && e[3] == r[3]);
    assert(e[4] == s[0] && e[5] == s[1] && e[6] == s[2] && e[7] == s[3]);
    assert(c[o] == e[0] && c[o + 1] == e[1] && c[o + 2] == e[2] && c[o + 3] == e[3]);
    assert(c[o + 4] == e[4] && c[o + 5] == e[5] && c[o + 6] == e[6] && c[o + 7] == e[7]);
}

proof fn lemma_zero_put(b: Seq<u8>, o: int)
    requires
        0 <= o,
        o + 4 <= b.len(),
    ensures
        ({
            let c = spliced(b, o, 0u32.spec_encode());
            &&& c.len() == b.len()
            &&& dword(c, o) == 0
            &&& forall|i: int| 0 <= i < b.len() && !(o <= i < o + 4) ==> #[trigger] c[i] == b[i]
        }),
{
    let e = 0u32.spec_encode();
    let c = spliced(b, o, e);
    assert(c[o] == e[0] && c[o + 1] == e[1] && c[o + 2] == e[2] && c[o + 3] == e[3]);
}

/// The place of the PE headers is the same where the DOS header is.
proof fn lemma_same_start(b: Seq<u8>, c: Seq<u8>)
    requires
        b.len() == c.len(),
        b.len() >= 64,
        forall|i: int| 0 <= i < 64 ==> #[trigger] c[i] == b[i],
    ensures
        nt_offset_of(c) == nt_offset_of(b),
{
    assert(c[0] == b[0] && c[1] == b[1]);
    assert(c[60] == b[60] && c[61] == b[61] && c[62] == b[62] && c[63] == b[63]);
}

/// Redirected headers decode. Of the directories only the imports, the bound
/// imports, and an IAT directory that was absent have changed.
pub proof fn redirected_headers_keep_their_directories(
    h: HeadersView,
    b: Seq<u8>,
    block: DataDirectory,
    out: Seq<u8>,
)
    requires
        headers_of(b) == Ok::<HeadersView, ErrorView>(h),
        h.magic == 0x20b,
        redirected(h, b, block) == Ok::<Seq<u8>, ErrorView>(out),
    ensures
        headers_of(out) matches Ok(after) && {
            &&& after.directories.len() == 16
            &&& after.directories[1] == block
            &&& after.directories[11] == (DataDirectory { rva: 0, size: 0 })
            &&& h.directories[12].rva != 0 ==> after.directories[12] == h.directories[12]
            &&& forall|i: int|
                0 <= i < 16 && i != 1 && i != 11 && i != 12 ==> #[trigger] after.directories[i]
                    == h.directories[i]
            &&& after.sections == h.sections
            &&& after.machine == h.machine && after.magic == h.magic
            &&& after.characteristics == h.characteristics
            &&& after.image_size == h.image_size && after.header_size == h.header_size
        },
{
    whole_headers_decode(b);
    redirecting_changes_only_the_imports(h, b, block);
    lemma_choice(h, block);
    redirected_headers_decode(h, b, h, block);
}

proof fn lemma_choice(h: HeadersView, block: DataDirectory)
    ensures
        iat_choice(h, block) is Ok <==> (h.directories[12].rva == 0 && h.directories[12].size == 0)
            || (h.directories[12].rva != 0 && h.directories[12].rva + h.directories[12].size
            <= h.image_size),
        h.directories[12].rva != 0 && iat_choice(h, block) is Ok ==> iat_choice(h, block)->Ok_0
            is None,
{
}

/// Descriptor `i` of a table at `rva` of the image at `base`, as it is read.
pub open spec fn read_at(
    base: usize,
    rva: u32,
    reads: spec_fn(usize) -> std::result::Result<Seq<u8>, ErrorView>,
    i: int,
) -> std::result::Result<Seq<u8>, ErrorView> {
    reads((base + rva + 20 * i) as usize)
}

/// The import table of an image at `base` with headers `h` has exactly `n`
/// descriptors with a name in front of one without, all of them readable and
/// within the table and the address space.
pub open spec fn has_imports(
    base: usize,
    h: HeadersView,
    reads: spec_fn(usize) -> std::result::Result<Seq<u8>, ErrorView>,
    n: int,
) -> bool {
    let d = h.directories[1];
    let room = if d.size == 0 {
        h.image_size - d.rva
    } else {
        d.size as int
    };
    &&& 0 <= n <= 4096
    &&& 20 * (n + 1) <= room
    &&& base + d.rva + 20 * n <= usize::MAX
    &&& forall|i: int|
        0 <= i <= n ==> (#[trigger] read_at(base, d.rva, reads, i) matches Ok(bytes) && bytes.len()
            >= 20 && (dword(bytes, 12) == 0 <==> i == n))
}

/// The walk over the imports of an image finds exactly the descriptors in front
/// of the first one without a name, as they stand in the image and in order. It
/// fails where there is no such descriptor within the table, or none among the
/// first 4097.
#[verifier::spinoff_prover]
pub proof fn import_walks_read_the_table(
    base: usize,
    h: HeadersView,
    walk: ImportWalkView,
    reads: spec_fn(usize) -> std::result::Result<Seq<u8>, ErrorView>,
)
    requires
        walk_start_of(base, h) == Ok::<ImportWalkView, ErrorView>(walk),
        h.directories[1].rva != 0,
    ensures
        forall|n: int| #[trigger]
            has_imports(base, h, reads, n) ==> (walk.run(reads) matches Ok(end) && {
                &&& end.found.len() == n
                &&& forall|i: int|
                    0 <= i < n ==> descriptor_stands(
                        read_at(base, h.directories[1].rva, reads, i)->Ok_0,
                        0,
                        #[trigger] end.found[i],
                    )
            }),
        (forall|n: int| !#[trigger] has_imports(base, h, reads, n)) ==> walk.run(reads) is Err,
{
    let d = h.directories[1];
    import_walks_begin_at_their_directory(base, h);
    walks_find_the_whole_table(base, h, walk, reads);
    assert forall|n: int| #[trigger] has_imports(base, h, reads, n) implies (walk.run(
        reads,
    ) matches Ok(end) && end.found.len() == n && forall|i: int|
        0 <= i < n ==> descriptor_stands(
            read_at(base, d.rva, reads, i)->Ok_0,
            0,
            #[trigger] end.found[i],
        )) by {
        lemma_ends(base, h, walk, reads, n);
        let end = walk.run(reads)->Ok_0;
        assert forall|i: int| 0 <= i < n implies descriptor_stands(
            read_at(base, d.rva, reads, i)->Ok_0,
            0,
            #[trigger] end.found[i],
        ) by {
            descriptors_are_read_as_they_stand(read_at(base, d.rva, reads, i)->Ok_0);
            assert(end.found[i] == walk.descriptor_at(reads, i));
        }
    }
    if forall|n: int| !#[trigger] has_imports(base, h, reads, n) {
        assert forall|n: int| !#[trigger] walk.ends_at(reads, n) by {
            if walk.ends_at(reads, n) {
                lemma_ends(base, h, walk, reads, n);
            }
        }
    }
}

#[verifier::spinoff_prover]
proof fn lemma_ends(
    base: usize,
    h: HeadersView,
    walk: ImportWalkView,
    reads: spec_fn(usize) -> std::result::Result<Seq<u8>, ErrorView>,
    n: int,
)
    requires
        walk.base == base,
        walk.rva == h.directories[1].rva,
        h.directories[1].size != 0 ==> walk.bound == h.directories[1].size,
        h.directories[1].size == 0 && walk.rva <= h.image_size ==> walk.bound == h.image_size
            - walk.rva,
        h.directories[1].size == 0 && walk.rva > h.image_size ==> walk.bound == 0,
    ensures
        has_imports(base, h, reads, n) <==> walk.ends_at(reads, n),
{
    let rva = walk.rva;
    assert forall|i: int| 0 <= i implies walk.place_of(i) == base + rva + 20 * i && (walk.is_readable(
        reads,
        i,
    ) <==> (#[trigger] read_at(base, rva, reads, i) matches Ok(bytes) && bytes.len() >= 20)) && (
    walk.is_readable(reads, i) ==> walk.descriptor_at(reads, i).name == dword(
        read_at(base, rva, reads, i)->Ok_0,
        12,
    )) by {
        if walk.is_readable(reads, i) {
            descriptors_are_read_as_they_stand(read_at(base, rva, reads, i)->Ok_0);
        }
    }
    if walk.ends_at(reads, n) {
        assert forall|i: int| 0 <= i <= n implies (#[trigger] read_at(base, rva, reads, i) matches Ok(
            bytes,
        ) && bytes.len() >= 20 && (dword(bytes, 12) == 0 <==> i == n)) by {
            assert(walk.is_readable(reads, i));
            if i < n {
                assert(walk.descriptor_at(reads, i).name != 0);
            }
        }
    }
    if has_imports(base, h, reads, n) {
        assert forall|i: int| 0 <= i <= n implies #[trigger] walk.is_readable(reads, i) by {
            assert(read_at(base, rva, reads, i) is Ok);
        }
        assert forall|i: int| 0 <= i < n implies (#[trigger] walk.descriptor_at(reads, i)).name
            != 0 by {
            assert(read_at(base, rva, reads, i) is Ok);
        }
        assert(read_at(base, rva, reads, n) is Ok);
    }
}

} // verus!
