//! Detours-compatible PE32 widening without relocating header-resident data.

use crate::error::{pe, viewed, ErrorView, Result};
use crate::pe::headers::{
    headers_of, lemma_decoded_magic, native_headers_of, padded, sections_fault, Headers,
    HeadersView,
};
use crate::pe::layout::{
    le16, le16_bytes, le32, le32_bytes, le64, nt_offset, nt_offset_of, put_bytes, spliced, u16_at,
    Record, FILE_HEADER_OFFSET, MACHINE_AMD64, MAGIC_PE32, MAGIC_PE64, NT_PREFIX_SIZE,
    OPTIONAL32_FIXED, OPTIONAL64_FIXED, OPTIONAL_HEADER64_SIZE, SECTION_HEADER_SIZE,
};
use crate::pe::view::{directory_at, layout_fault, layout_of, section_at, DataDirectory};
use vstd::prelude::*;

verus! {

pub const MAX_CONVERSION_SECTIONS: usize = 32;

/// The directory that holds a file offset, not a mapped address.
pub const SECURITY_DIRECTORY: usize = 4;

/// The bytes of `b` from `from` up to `to`.
pub open spec fn cut(b: Seq<u8>, from: int, to: int) -> Seq<u8> {
    b.subrange(from, to)
}

/// The 32-bit field at `o`, zero-extended to 64 bits.
pub open spec fn extended(b: Seq<u8>, o: int) -> Seq<u8> {
    cut(b, o, o + 4) + le32_bytes(0)
}

/// The file header behind the signature at `nt`, for AMD64 and a PE32+
/// optional header.
pub open spec fn widened_file_header(b: Seq<u8>, nt: int) -> Seq<u8> {
    le16_bytes(MACHINE_AMD64) + cut(b, nt + 6, nt + 20) + le16_bytes(240) + cut(b, nt + 22, nt + 24)
}

/// The PE32 fields at `opt` in their PE32+ places: the image base, the stack
/// sizes and the heap sizes grow to 64 bits, and the data base goes away.
pub open spec fn widened_optional_header(b: Seq<u8>, opt: int) -> Seq<u8> {
    le16_bytes(MAGIC_PE64) + cut(b, opt + 2, opt + 24) + extended(b, opt + 28) + cut(
        b,
        opt + 32,
        opt + 72,
    ) + extended(b, opt + 72) + extended(b, opt + 76) + extended(b, opt + 80) + extended(
        b,
        opt + 84,
    ) + cut(b, opt + 88, opt + 96)
}

/// The header bytes of `b` in the PE32+ layout.
pub open spec fn widened_bytes(b: Seq<u8>, h: HeadersView) -> Seq<u8> {
    let nt = le32(b, 60) as int;
    let opt = nt + NT_PREFIX_SIZE;
    let table = opt + le16(b, nt + 20);
    let table_size = h.sections.len() * 40;
    let with_file = spliced(b.take(h.header_size as int), nt + 4, widened_file_header(b, nt));
    let with_optional = spliced(with_file, opt, widened_optional_header(b, opt));
    let with_directories = spliced(with_optional, opt + 112, cut(b, opt + 96, opt + 224));
    spliced(with_directories, opt + 240, cut(b, table, table + table_size))
}

/// Where the bytes that widening changes end.
pub open spec fn changed_end_of(b: Seq<u8>, h: HeadersView) -> int {
    le32(b, 60) + NT_PREFIX_SIZE + OPTIONAL_HEADER64_SIZE + h.sections.len() * SECTION_HEADER_SIZE
}

/// Directory `d` maps bytes between `nt` and `changed_end`.
pub open spec fn hit(d: DataDirectory, nt: int, changed_end: int) -> bool {
    d.rva != 0 && d.size != 0 && d.rva < changed_end && d.rva + d.size > nt
}

/// Some mapped directory lies in the bytes that widening changes.
pub open spec fn directory_hit(h: HeadersView, nt: int, changed_end: int) -> bool {
    exists|i: int|
        0 <= i < h.directories.len() && i != SECURITY_DIRECTORY && hit(
            #[trigger] h.directories[i],
            nt,
            changed_end,
        )
}

/// What widening makes of the header region `b`.
pub open spec fn widening_of(b: Seq<u8>) -> std::result::Result<Seq<u8>, ErrorView> {
    match headers_of(b) {
        Err(fault) => Err(fault),
        Ok(h) => if h.magic != MAGIC_PE32 || h.sections.len() > MAX_CONVERSION_SECTIONS {
            Err(
                ErrorView::Pe("PE32 widening requires a PE32 image with at most 32 sections"@),
            )
        } else if changed_end_of(b, h) > h.header_size {
            Err(ErrorView::Pe("no room to widen the PE32 optional header"@))
        } else if directory_hit(h, le32(b, 60) as int, changed_end_of(b, h)) {
            Err(ErrorView::Pe("header-resident directory overlaps PE32 widening"@))
        } else {
            Ok(widened_bytes(b, h))
        },
    }
}

/// Append the bytes of `b` from `from` up to `to`.
fn push_cut(out: &mut Vec<u8>, b: &[u8], from: usize, to: usize)
    requires
        from <= to <= b@.len(),
    ensures
        final(out)@ == old(out)@ + cut(b@, from as int, to as int),
{
    let range = &b[from..to];
    out.extend_from_slice(range);
    assert(out@ =~= old(out)@ + cut(b@, from as int, to as int));
}

/// Append the 32-bit field at `o`, zero-extended.
fn push_extended(out: &mut Vec<u8>, b: &[u8], o: usize)
    requires
        o + 4 <= b@.len(),
    ensures
        final(out)@ == old(out)@ + extended(b@, o as int),
{
    let len: usize = b.len();
    assert(o + 4 <= len);
    push_cut(out, b, o, o + 4);
    let mut zeros = 0u32.encode();
    out.append(&mut zeros);
    assert(out@ =~= old(out)@ + extended(b@, o as int));
}

fn file_header(b: &[u8], nt: usize) -> (out: Vec<u8>)
    requires
        nt + 24 <= b@.len(),
    ensures
        out@ == widened_file_header(b@, nt as int),
{
    let len: usize = b.len();
    assert(nt + 24 <= len);
    let mut out = MACHINE_AMD64.encode();
    push_cut(&mut out, b, nt + 6, nt + 20);
    let mut size = 240u16.encode();
    out.append(&mut size);
    push_cut(&mut out, b, nt + 22, nt + 24);
    out
}

fn optional_header(b: &[u8], opt: usize) -> (out: Vec<u8>)
    requires
        opt + 96 <= b@.len(),
    ensures
        out@ == widened_optional_header(b@, opt as int),
{
    let len: usize = b.len();
    assert(opt + 96 <= len);
    let mut out = MAGIC_PE64.encode();
    push_cut(&mut out, b, opt + 2, opt + 24);
    push_extended(&mut out, b, opt + 28);
    push_cut(&mut out, b, opt + 32, opt + 72);
    push_extended(&mut out, b, opt + 72);
    push_extended(&mut out, b, opt + 76);
    push_extended(&mut out, b, opt + 80);
    push_extended(&mut out, b, opt + 84);
    push_cut(&mut out, b, opt + 88, opt + 96);
    out
}

fn assemble(b: &[u8], headers: &Headers, nt: usize, optional_size: usize) -> (out: Vec<u8>)
    requires
        nt == le32(b@, 60),
        optional_size == le16(b@, nt + 20),
        optional_size >= 224,
        headers.sections@.len() <= MAX_CONVERSION_SECTIONS,
        changed_end_of(b@, headers@) <= headers.header_size <= b@.len(),
        nt + NT_PREFIX_SIZE + optional_size + headers.sections@.len() * 40 <= b@.len(),
    ensures
        out@ == widened_bytes(b@, headers@),
{
    let len: usize = b.len();
    let opt: usize = nt + NT_PREFIX_SIZE;
    let section_bytes: usize = headers.sections.len() * SECTION_HEADER_SIZE;
    let mut out: Vec<u8> = Vec::new();
    push_cut(&mut out, b, 0, headers.header_size as usize);
    assert(out@ =~= b@.take(headers.header_size as int));
    let file = file_header(b, nt);
    put_bytes(&mut out, nt + FILE_HEADER_OFFSET, &file);
    let optional = optional_header(b, opt);
    put_bytes(&mut out, opt, &optional);
    put_bytes(&mut out, opt + OPTIONAL64_FIXED, &b[opt + OPTIONAL32_FIXED..opt + 224]);
    // The section table follows the complete optional header, including directories.
    let table: usize = opt + optional_size;
    put_bytes(&mut out, opt + OPTIONAL_HEADER64_SIZE, &b[table..table + section_bytes]);
    out
}

/// Widen the header region `b`, which decodes to `headers`.
pub fn widen(b: &[u8], headers: &Headers) -> (result: Result<Vec<u8>>)
    requires
        headers_of(b@) == Ok::<HeadersView, ErrorView>(headers@),
    ensures
        viewed(result) == widening_of(b@),
{
    if headers.magic != MAGIC_PE32 || headers.sections.len() > MAX_CONVERSION_SECTIONS {
        return Err(pe("PE32 widening requires a PE32 image with at most 32 sections"));
    }
    let nt: usize = match nt_offset(b) {
        Err(error) => return Err(error),
        Ok(nt) => nt,
    };
    let opt: usize = nt + NT_PREFIX_SIZE;
    let optional_size: u16 = match u16_at(b, nt + 20) {
        Err(error) => return Err(error),
        Ok(size) => size,
    };
    let header_size: usize = headers.header_size as usize;
    let changed_end: usize = opt + OPTIONAL_HEADER64_SIZE + headers.sections.len()
        * SECTION_HEADER_SIZE;
    if changed_end > header_size {
        return Err(pe("no room to widen the PE32 optional header"));
    }
    let mut index: usize = 0;
    while index < 16
        invariant
            index <= 16,
            forall|i: int|
                0 <= i < index && i != SECURITY_DIRECTORY ==> !hit(
                    #[trigger] headers@.directories[i],
                    nt as int,
                    changed_end as int,
                ),
            headers_of(b@) == Ok::<HeadersView, ErrorView>(headers@),
            headers.magic == MAGIC_PE32,
            headers.sections@.len() <= MAX_CONVERSION_SECTIONS,
            nt == le32(b@, 60),
            changed_end == changed_end_of(b@, headers@),
            changed_end <= headers.header_size,
        decreases 16 - index,
    {
        let d = headers.directories[index];
        assert(d == headers@.directories[index as int]);
        // The certificate directory uses file offsets, not mapped RVAs.
        if index != SECURITY_DIRECTORY && d.rva != 0 && d.size != 0 && (d.rva as usize)
            < changed_end && d.rva as u64 + d.size as u64 > nt as u64 {
            assert(hit(headers@.directories[index as int], nt as int, changed_end as int));
            return Err(pe("header-resident directory overlaps PE32 widening"));
        }
        index += 1;
    }
    let out = assemble(b, headers, nt, optional_size as usize);
    Ok(out)
}

/// Copy a PE32 header region into a widened PE32+ layout (Detours `UpdateFrom32To64`).
///
/// Only the header bytes change: the optional header grows from 224 to 240
/// bytes, the image base moves to a 64-bit slot, the stack/heap fields widen,
/// and the section table shifts. Section contents, RVAs, image
/// size, and header size are preserved. The input is validated before conversion;
/// its section table must leave room for the widened layout.
pub fn convert_pe32_to_pe64(b: &[u8]) -> (result: Result<Vec<u8>>)
    ensures
        viewed(result) == widening_of(b@),
{
    match Headers::parse_remote(b) {
        Err(error) => Err(error),
        Ok(headers) => widen(b, &headers),
    }
}

/// `v` stands in `b` at `o`.
pub open spec fn stands_at(b: Seq<u8>, o: int, v: Seq<u8>) -> bool {
    b.subrange(o, o + v.len()) == v
}

proof fn lemma_spliced(b: Seq<u8>, o: int, v: Seq<u8>)
    requires
        0 <= o,
        o + v.len() <= b.len(),
    ensures
        spliced(b, o, v).len() == b.len(),
        forall|i: int|
            0 <= i < b.len() ==> #[trigger] spliced(b, o, v)[i] == (if o <= i < o + v.len() {
                v[i - o]
            } else {
                b[i]
            }),
{
}

proof fn lemma_widened_optional_header(b: Seq<u8>, opt: int)
    requires
        0 <= opt,
        opt + 96 <= b.len(),
    ensures
        widened_optional_header(b, opt).len() == 112,
        le16(widened_optional_header(b, opt), 0) == MAGIC_PE64,
        forall|i: int|
            2 <= i < 24 ==> #[trigger] widened_optional_header(b, opt)[i] == b[opt + i],
        forall|i: int|
            32 <= i < 72 ==> #[trigger] widened_optional_header(b, opt)[i] == b[opt + i],
        forall|i: int|
            104 <= i < 112 ==> #[trigger] widened_optional_header(b, opt)[i] == b[opt + i - 16],
        le64(widened_optional_header(b, opt), 24) == le32(b, opt + 28),
        le64(widened_optional_header(b, opt), 72) == le32(b, opt + 72),
        le64(widened_optional_header(b, opt), 80) == le32(b, opt + 76),
        le64(widened_optional_header(b, opt), 88) == le32(b, opt + 80),
        le64(widened_optional_header(b, opt), 96) == le32(b, opt + 84),
{
    let w = widened_optional_header(b, opt);
    assert(w.subrange(24, 32) =~= extended(b, opt + 28));
    assert(w.subrange(72, 80) =~= extended(b, opt + 72));
    assert(w.subrange(80, 88) =~= extended(b, opt + 76));
    assert(w.subrange(88, 96) =~= extended(b, opt + 80));
    assert(w.subrange(96, 104) =~= extended(b, opt + 84));
    lemma_extended(b, opt + 28, w, 24);
    lemma_extended(b, opt + 72, w, 72);
    lemma_extended(b, opt + 76, w, 80);
    lemma_extended(b, opt + 80, w, 88);
    lemma_extended(b, opt + 84, w, 96);
}

proof fn lemma_extended(b: Seq<u8>, o: int, w: Seq<u8>, p: int)
    requires
        0 <= o,
        o + 4 <= b.len(),
        0 <= p,
        p + 8 <= w.len(),
        w.subrange(p, p + 8) == extended(b, o),
    ensures
        le64(w, p) == le32(b, o),
{
    let e = extended(b, o);
    assert forall|i: int| 0 <= i < 8 implies w[p + i] == #[trigger] e[i] by {
        assert(w.subrange(p, p + 8)[i] == w[p + i]);
    }
    assert(e[0] == b[o] && e[1] == b[o + 1] && e[2] == b[o + 2] && e[3] == b[o + 3]);
    assert(e[4] == 0 && e[5] == 0 && e[6] == 0 && e[7] == 0);
    assert(w[p] == e[0] && w[p + 1] == e[1] && w[p + 2] == e[2] && w[p + 3] == e[3]);
    assert(w[p + 4] == e[4] && w[p + 5] == e[5] && w[p + 6] == e[6] && w[p + 7] == e[7]);
    assert(le32(w, p + 4) == 0);
    assert(le32(w, p) == le32(b, o));
}

/// Widening changes no byte before the file header and none behind the
/// widened section table; the table itself is copied as it stands.
pub proof fn widening_keeps_the_rest(b: Seq<u8>, h: HeadersView)
    requires
        headers_of(b) == Ok::<HeadersView, ErrorView>(h),
        widening_of(b) is Ok,
    ensures
        widened_bytes(b, h).len() == h.header_size,
        forall|i: int|
            0 <= i < le32(b, 60) + 4 ==> #[trigger] widened_bytes(b, h)[i] == b[i],
        forall|i: int|
            changed_end_of(b, h) <= i < h.header_size ==> #[trigger] widened_bytes(b, h)[i] == b[i],
        stands_at(
            widened_bytes(b, h),
            le32(b, 60) + 264,
            cut(
                b,
                le32(b, 60) + 24 + le16(b, le32(b, 60) + 20),
                le32(b, 60) + 24 + le16(b, le32(b, 60) + 20) + h.sections.len() * 40,
            ),
        ),
{
    lemma_widenable_fields(b, h);
    lemma_widened_layers(b, h);
    let nt = le32(b, 60) as int;
    let table = nt + 24 + le16(b, nt + 20);
    assert(widened_bytes(b, h).subrange(nt + 264, nt + 264 + h.sections.len() * 40) =~= cut(
        b,
        table,
        table + h.sections.len() * 40,
    ));
}

/// The bytes `c` of headers `h` are those of `b` with this file header and this
/// optional header, and with the directories and sections in their new places.
spec fn layered(
    b: Seq<u8>,
    h: HeadersView,
    c: Seq<u8>,
    file: Seq<u8>,
    optional: Seq<u8>,
) -> bool {
    let nt = le32(b, 60) as int;
    let table = nt + 24 + le16(b, nt + 20);
    &&& c.len() == h.header_size
    &&& forall|i: int| 0 <= i < nt + 4 ==> #[trigger] c[i] == b[i]
    &&& forall|i: int| 0 <= i < 20 ==> c[nt + 4 + i] == #[trigger] file[i]
    &&& forall|i: int| 0 <= i < 112 ==> c[nt + 24 + i] == #[trigger] optional[i]
    &&& forall|i: int| nt + 136 <= i < nt + 264 ==> #[trigger] c[i] == b[i - 16]
    &&& forall|i: int|
        nt + 264 <= i < changed_end_of(b, h) ==> #[trigger] c[i] == b[table + i - nt - 264]
    &&& forall|i: int| changed_end_of(b, h) <= i < h.header_size ==> #[trigger] c[i] == b[i]
}

#[verifier::spinoff_prover]
proof fn lemma_widened_layers(b: Seq<u8>, h: HeadersView)
    requires
        1 <= h.sections.len() <= 32,
        64 <= le32(b, 60),
        224 <= le16(b, le32(b, 60) + 20),
        le32(b, 60) + 24 + le16(b, le32(b, 60) + 20) + h.sections.len() * 40 <= h.header_size,
        h.header_size <= b.len(),
        changed_end_of(b, h) <= h.header_size,
    ensures
        layered(
            b,
            h,
            widened_bytes(b, h),
            widened_file_header(b, le32(b, 60) as int),
            widened_optional_header(b, le32(b, 60) + 24),
        ),
{
    let nt = le32(b, 60) as int;
    let opt = nt + 24;
    let table = opt + le16(b, nt + 20);
    let file = widened_file_header(b, nt);
    let optional = widened_optional_header(b, opt);
    let sections = cut(b, table, table + h.sections.len() * 40);
    assert(file.len() == 20);
    lemma_widened_optional_header(b, opt);
    lemma_layers(b, h, file, optional, cut(b, opt + 96, opt + 224), sections);
}

/// [`lemma_widened_layers`] over any parts of the right sizes.
#[verifier::spinoff_prover]
proof fn lemma_layers(
    b: Seq<u8>,
    h: HeadersView,
    file: Seq<u8>,
    optional: Seq<u8>,
    directories: Seq<u8>,
    sections: Seq<u8>,
)
    requires
        1 <= h.sections.len() <= 32,
        64 <= le32(b, 60),
        224 <= le16(b, le32(b, 60) + 20),
        le32(b, 60) + 24 + le16(b, le32(b, 60) + 20) + h.sections.len() * 40 <= h.header_size,
        h.header_size <= b.len(),
        changed_end_of(b, h) <= h.header_size,
        file.len() == 20,
        optional.len() == 112,
        directories == cut(b, le32(b, 60) + 120, le32(b, 60) + 248),
        sections == cut(
            b,
            le32(b, 60) + 24 + le16(b, le32(b, 60) + 20),
            le32(b, 60) + 24 + le16(b, le32(b, 60) + 20) + h.sections.len() * 40,
        ),
    ensures
        ({
            let nt = le32(b, 60) as int;
            let with_file = spliced(b.take(h.header_size as int), nt + 4, file);
            let with_optional = spliced(with_file, nt + 24, optional);
            let with_directories = spliced(with_optional, nt + 136, directories);
            layered(b, h, spliced(with_directories, nt + 264, sections), file, optional)
        }),
{
    let nt = le32(b, 60) as int;
    let base = b.take(h.header_size as int);
    let with_file = spliced(base, nt + 4, file);
    lemma_spliced(base, nt + 4, file);
    let with_optional = spliced(with_file, nt + 24, optional);
    lemma_spliced(with_file, nt + 24, optional);
    let with_directories = spliced(with_optional, nt + 136, directories);
    lemma_spliced(with_optional, nt + 136, directories);
    lemma_spliced(with_directories, nt + 264, sections);
    let c = spliced(with_directories, nt + 264, sections);
    assert forall|i: int| 0 <= i < 20 implies c[nt + 4 + i] == #[trigger] file[i] by {}
    assert forall|i: int| 0 <= i < 112 implies c[nt + 24 + i] == #[trigger] optional[i] by {}
}

/// `c` holds the header fields of `b` in their widened places.
spec fn fields_moved(b: Seq<u8>, h: HeadersView, c: Seq<u8>) -> bool {
    let nt = le32(b, 60) as int;
    let opt = nt + 24;
    &&& c.len() == h.header_size
    &&& le16(c, 0) == le16(b, 0)
    &&& le32(c, 60) == le32(b, 60)
    &&& le32(c, nt) == le32(b, nt)
    &&& le16(c, nt + 4) == MACHINE_AMD64
    &&& le16(c, nt + 6) == le16(b, nt + 6)
    &&& le16(c, nt + 20) == 240
    &&& le16(c, nt + 22) == le16(b, nt + 22)
    &&& le16(c, opt) == MAGIC_PE64
    &&& le32(c, opt + 56) == le32(b, opt + 56)
    &&& le32(c, opt + 60) == le32(b, opt + 60)
    &&& le32(c, opt + 108) == le32(b, opt + 92)
}

/// `c` holds the directories and sections of `b` in their widened places.
spec fn tables_moved(b: Seq<u8>, h: HeadersView, c: Seq<u8>) -> bool {
    let nt = le32(b, 60) as int;
    &&& forall|i: int| 0 <= i < 16 ==> #[trigger] directory_at(c, 112, i) == directory_at(b, 96, i)
    &&& forall|i: int|
        0 <= i < h.sections.len() ==> #[trigger] section_at(c, nt + 264, i) == section_at(
            b,
            nt + 24 + le16(b, nt + 20),
            i,
        )
}

proof fn lemma_widened_fields(b: Seq<u8>, h: HeadersView)
    requires
        1 <= h.sections.len() <= 32,
        64 <= le32(b, 60),
        224 <= le16(b, le32(b, 60) + 20),
        le32(b, 60) + 24 + le16(b, le32(b, 60) + 20) + h.sections.len() * 40 <= h.header_size,
        h.header_size <= b.len(),
        changed_end_of(b, h) <= h.header_size,
    ensures
        fields_moved(b, h, widened_bytes(b, h)),
{
    let nt = le32(b, 60) as int;
    lemma_widened_layers(b, h);
    lemma_widened_file_header(b, nt);
    lemma_widened_optional_header(b, nt + 24);
    lemma_layered_fields(
        b,
        h,
        widened_bytes(b, h),
        widened_file_header(b, nt),
        widened_optional_header(b, nt + 24),
    );
}

proof fn lemma_widened_file_header(b: Seq<u8>, nt: int)
    requires
        0 <= nt,
        nt + 24 <= b.len(),
    ensures
        le16(widened_file_header(b, nt), 0) == MACHINE_AMD64,
        widened_file_header(b, nt)[2] == b[nt + 6],
        widened_file_header(b, nt)[3] == b[nt + 7],
        le16(widened_file_header(b, nt), 16) == 240,
        widened_file_header(b, nt)[18] == b[nt + 22],
        widened_file_header(b, nt)[19] == b[nt + 23],
{
}

/// [`lemma_widened_fields`] over any file header and optional header that hold
/// the fields.
#[verifier::spinoff_prover]
proof fn lemma_layered_fields(
    b: Seq<u8>,
    h: HeadersView,
    c: Seq<u8>,
    file: Seq<u8>,
    optional: Seq<u8>,
)
    requires
        64 <= le32(b, 60),
        layered(b, h, c, file, optional),
        le16(file, 0) == MACHINE_AMD64,
        file[2] == b[le32(b, 60) + 6],
        file[3] == b[le32(b, 60) + 7],
        le16(file, 16) == 240,
        file[18] == b[le32(b, 60) + 22],
        file[19] == b[le32(b, 60) + 23],
        le16(optional, 0) == MAGIC_PE64,
        forall|i: int|
            32 <= i < 72 ==> #[trigger] optional[i] == b[le32(b, 60) + 24 + i],
        forall|i: int|
            104 <= i < 112 ==> #[trigger] optional[i] == b[le32(b, 60) + 24 + i - 16],
    ensures
        fields_moved(b, h, c),
{
    let nt = le32(b, 60) as int;
    let opt = nt + 24;
    assert(c[0] == b[0] && c[1] == b[1]);
    lemma_same32(c, 60, b, 60);
    lemma_same32(c, nt, b, nt);
    assert(c[nt + 4 + 0] == file[0] && c[nt + 4 + 1] == file[1]);
    assert(c[nt + 4 + 2] == file[2] && c[nt + 4 + 3] == file[3]);
    assert(c[nt + 4 + 16] == file[16] && c[nt + 4 + 17] == file[17]);
    assert(c[nt + 4 + 18] == file[18] && c[nt + 4 + 19] == file[19]);
    assert(c[opt + 0] == optional[0] && c[opt + 1] == optional[1]);
    assert(c[opt + 56] == optional[56] && c[opt + 57] == optional[57] && c[opt + 58]
        == optional[58] && c[opt + 59] == optional[59]);
    assert(c[opt + 60] == optional[60] && c[opt + 61] == optional[61] && c[opt + 62]
        == optional[62] && c[opt + 63] == optional[63]);
    assert(c[opt + 108] == optional[108] && c[opt + 109] == optional[109] && c[opt + 110]
        == optional[110] && c[opt + 111] == optional[111]);
    lemma_same32(c, opt + 56, b, opt + 56);
    lemma_same32(c, opt + 60, b, opt + 60);
    lemma_same32(c, opt + 108, b, opt + 92);
}

proof fn lemma_same32(c: Seq<u8>, p: int, b: Seq<u8>, q: int)
    requires
        c[p] == b[q],
        c[p + 1] == b[q + 1],
        c[p + 2] == b[q + 2],
        c[p + 3] == b[q + 3],
    ensures
        le32(c, p) == le32(b, q),
{
}

/// Directories and sections are read from the same bytes at their new places.
proof fn lemma_moved_tables(c: Seq<u8>, b: Seq<u8>, nt: int, table: int, count: int)
    requires
        le32(c, 60) == nt,
        le32(b, 60) == nt,
        forall|i: int| nt + 136 <= i < nt + 264 ==> #[trigger] c[i] == b[i - 16],
        forall|i: int|
            nt + 264 <= i < nt + 264 + count * 40 ==> #[trigger] c[i] == b[table + i - nt - 264],
    ensures
        forall|i: int|
            0 <= i < 16 ==> #[trigger] directory_at(c, 112, i) == directory_at(b, 96, i),
        forall|i: int|
            0 <= i < count ==> #[trigger] section_at(c, nt + 264, i) == section_at(b, table, i),
{
    assert forall|i: int| 0 <= i < 16 implies #[trigger] directory_at(c, 112, i) == directory_at(
        b,
        96,
        i,
    ) by {
        lemma_same32(c, nt + 136 + i * 8, b, nt + 120 + i * 8);
        lemma_same32(c, nt + 140 + i * 8, b, nt + 124 + i * 8);
    }
    assert forall|i: int| 0 <= i < count implies #[trigger] section_at(c, nt + 264, i)
        == section_at(b, table, i) by {
        lemma_same32(c, nt + 264 + i * 40 + 8, b, table + i * 40 + 8);
        lemma_same32(c, nt + 264 + i * 40 + 12, b, table + i * 40 + 12);
        lemma_same32(c, nt + 264 + i * 40 + 16, b, table + i * 40 + 16);
        lemma_same32(c, nt + 264 + i * 40 + 20, b, table + i * 40 + 20);
    }
}

proof fn lemma_widened_tables(b: Seq<u8>, h: HeadersView)
    requires
        1 <= h.sections.len() <= 32,
        64 <= le32(b, 60),
        224 <= le16(b, le32(b, 60) + 20),
        le32(b, 60) + 24 + le16(b, le32(b, 60) + 20) + h.sections.len() * 40 <= h.header_size,
        h.header_size <= b.len(),
        changed_end_of(b, h) <= h.header_size,
    ensures
        tables_moved(b, h, widened_bytes(b, h)),
{
    lemma_widened_layers(b, h);
    lemma_widened_fields(b, h);
    let nt = le32(b, 60) as int;
    lemma_moved_tables(
        widened_bytes(b, h),
        b,
        nt,
        nt + 24 + le16(b, nt + 20),
        h.sections.len() as int,
    );
}

/// The header bytes of a PE32+ image with headers `h`, field by field.
spec fn wide_fields(c: Seq<u8>, h: HeadersView) -> bool {
    let nt = le32(c, 60) as int;
    let opt = nt + 24;
    &&& c.len() == h.header_size
    &&& nt_offset_of(c) == Ok::<usize, ErrorView>(nt as usize)
    &&& nt % 4 == 0
    &&& le32(c, nt) == 0x4550
    &&& le16(c, nt + 4) == h.machine
    &&& le16(c, nt + 6) == h.sections.len()
    &&& le16(c, nt + 20) == 240
    &&& le16(c, nt + 22) == h.characteristics
    &&& le16(c, opt) == MAGIC_PE64
    &&& le32(c, opt + 56) == h.image_size
    &&& le32(c, opt + 60) == h.header_size
    &&& le32(c, opt + 108) == 16
    &&& h.magic == MAGIC_PE64
    &&& h.machine == MACHINE_AMD64
    &&& 1 <= h.sections.len() <= 96
    &&& 0 < h.header_size <= h.image_size
    &&& h.header_size <= 1048576
    &&& opt + 240 + h.sections.len() * 40 <= h.header_size
    &&& h.directories.len() == 16
    &&& forall|i: int| 0 <= i < 16 ==> #[trigger] directory_at(c, 112, i) == h.directories[i]
    &&& forall|i: int|
        0 <= i < h.sections.len() ==> #[trigger] section_at(c, opt + 240, i) == h.sections[i]
    &&& sections_fault(h.sections, h.sections.len(), h.header_size, h.image_size) is None
}

proof fn lemma_wide_headers(c: Seq<u8>, h: HeadersView)
    requires
        wide_fields(c, h),
    ensures
        headers_of(c) == Ok::<HeadersView, ErrorView>(h),
        native_headers_of(c) == Ok::<HeadersView, ErrorView>(h),
{
    assert(layout_fault(c) is None);
    assert(layout_of(c).sections =~= h.sections);
    assert(padded(layout_of(c).directories) =~= h.directories);
}

/// The header bytes of a PE32 image that can be widened, field by field.
spec fn widenable_fields(b: Seq<u8>, h: HeadersView) -> bool {
    let nt = le32(b, 60) as int;
    let opt = nt + 24;
    let table = opt + le16(b, nt + 20);
    &&& nt_offset_of(b) == Ok::<usize, ErrorView>(nt as usize)
    &&& nt % 4 == 0
    &&& le32(b, nt) == 0x4550
    &&& le16(b, nt + 6) == h.sections.len()
    &&& 224 <= le16(b, nt + 20) <= 4096
    &&& le16(b, nt + 22) == h.characteristics
    &&& le32(b, opt + 56) == h.image_size
    &&& le32(b, opt + 60) == h.header_size
    &&& le32(b, opt + 92) == layout_of(b).directory_count
    &&& 1 <= h.sections.len() <= 32
    &&& 0 < h.header_size <= h.image_size
    &&& h.header_size <= 1048576
    &&& h.header_size <= b.len()
    &&& table + h.sections.len() * 40 <= h.header_size
    &&& changed_end_of(b, h) <= h.header_size
    &&& h.directories == padded(layout_of(b).directories)
    &&& forall|i: int|
        0 <= i < 16 && i < layout_of(b).directory_count ==> #[trigger] directory_at(b, 96, i)
            == layout_of(b).directories[i]
    &&& forall|i: int|
        0 <= i < h.sections.len() ==> #[trigger] section_at(b, table, i) == h.sections[i]
    &&& sections_fault(h.sections, h.sections.len(), h.header_size, h.image_size) is None
}

proof fn lemma_widenable_fields(b: Seq<u8>, h: HeadersView)
    requires
        headers_of(b) == Ok::<HeadersView, ErrorView>(h),
        widening_of(b) is Ok,
    ensures
        widenable_fields(b, h),
{
}

proof fn lemma_fields_decode(b: Seq<u8>, h: HeadersView, c: Seq<u8>)
    requires
        widenable_fields(b, h),
        fields_moved(b, h, c),
        tables_moved(b, h, c),
        layout_of(b).directory_count == 16,
        layout_of(b).directories.len() == 16,
    ensures
        wide_fields(c, HeadersView { machine: MACHINE_AMD64, magic: MAGIC_PE64, ..h }),
{
    let w = HeadersView { machine: MACHINE_AMD64, magic: MAGIC_PE64, ..h };
    assert(nt_offset_of(c) == nt_offset_of(b));
    assert forall|i: int| 0 <= i < 16 implies #[trigger] directory_at(c, 112, i)
        == w.directories[i] by {
        assert(directory_at(b, 96, i) == layout_of(b).directories[i]);
    }
    assert forall|i: int| 0 <= i < w.sections.len() implies #[trigger] section_at(
        c,
        le32(c, 60) + 24 + 240,
        i,
    ) == w.sections[i] by {
        assert(section_at(c, le32(b, 60) + 264, i) == section_at(
            b,
            le32(b, 60) + 24 + le16(b, le32(b, 60) + 20),
            i,
        ));
    }
}

/// Headers that count more directories than the widened optional header has
/// room for do not decode.
#[verifier::spinoff_prover]
proof fn lemma_uncounted(b: Seq<u8>, h: HeadersView, c: Seq<u8>)
    requires
        widenable_fields(b, h),
        fields_moved(b, h, c),
        layout_of(b).directory_count > 16,
    ensures
        headers_of(c) == Err::<HeadersView, ErrorView>(
            ErrorView::Pe("invalid data-directory count"@),
        ),
{
    assert(nt_offset_of(c) == nt_offset_of(b));
    assert(layout_fault(c) is None);
}

/// A widened header region decodes as a native AMD64 image with the sizes,
/// characteristics, directories and sections that it had before. The widened
/// optional header has room for exactly sixteen directories; a region that
/// counts more of them does not decode when it is widened.
#[verifier::spinoff_prover]
pub proof fn widened_headers_decode(b: Seq<u8>, h: HeadersView)
    requires
        headers_of(b) == Ok::<HeadersView, ErrorView>(h),
        widening_of(b) is Ok,
    ensures
        layout_of(b).directory_count == 16 ==> {
            &&& headers_of(widened_bytes(b, h)) == Ok::<HeadersView, ErrorView>(
                HeadersView { machine: MACHINE_AMD64, magic: MAGIC_PE64, ..h },
            )
            &&& native_headers_of(widened_bytes(b, h)) == headers_of(widened_bytes(b, h))
        },
        layout_of(b).directory_count != 16 ==> headers_of(widened_bytes(b, h)) == Err::<
            HeadersView,
            ErrorView,
        >(ErrorView::Pe("invalid data-directory count"@)),
{
    lemma_widenable_fields(b, h);
    if layout_of(b).directory_count == 16 {
        lemma_widened_native(b, h);
    } else {
        lemma_widened_fields(b, h);
        lemma_uncounted(b, h, widened_bytes(b, h));
    }
}

#[verifier::spinoff_prover]
proof fn lemma_widened_native(b: Seq<u8>, h: HeadersView)
    requires
        widenable_fields(b, h),
        layout_of(b).directory_count == 16,
    ensures
        headers_of(widened_bytes(b, h)) == Ok::<HeadersView, ErrorView>(
            HeadersView { machine: MACHINE_AMD64, magic: MAGIC_PE64, ..h },
        ),
        native_headers_of(widened_bytes(b, h)) == headers_of(widened_bytes(b, h)),
{
    lemma_widened_fields(b, h);
    lemma_widened_tables(b, h);
    lemma_fields_decode(b, h, widened_bytes(b, h));
    lemma_wide_headers(
        widened_bytes(b, h),
        HeadersView { machine: MACHINE_AMD64, magic: MAGIC_PE64, ..h },
    );
}

/// The eight bytes of `c` from `p` are those of `w` from `q`.
proof fn lemma_same64(c: Seq<u8>, p: int, w: Seq<u8>, q: int)
    requires
        forall|i: int| 0 <= i < 8 ==> c[p + i] == #[trigger] w[q + i],
    ensures
        le64(c, p) == le64(w, q),
{
    assert(c[p + 0] == w[q + 0] && c[p + 1] == w[q + 1] && c[p + 2] == w[q + 2] && c[p + 3] == w[q
        + 3]);
    assert(c[p + 4] == w[q + 4] && c[p + 5] == w[q + 5] && c[p + 6] == w[q + 6] && c[p + 7] == w[q
        + 7]);
}

/// The machine, the magic, the image base, the stack sizes and the heap sizes
/// of the widened bytes `c` are those of `b` in 64 bits.
pub open spec fn values_kept(b: Seq<u8>, c: Seq<u8>) -> bool {
    let opt = le32(b, 60) + 24;
    &&& le32(c, 60) == le32(b, 60)
    &&& le16(c, opt - 20) == MACHINE_AMD64
    &&& le16(c, opt) == MAGIC_PE64
    &&& le64(c, opt + 24) == le32(b, opt + 28)
    &&& le64(c, opt + 72) == le32(b, opt + 72)
    &&& le64(c, opt + 80) == le32(b, opt + 76)
    &&& le64(c, opt + 88) == le32(b, opt + 80)
    &&& le64(c, opt + 96) == le32(b, opt + 84)
}

/// A widened image is an AMD64 PE32+ image whose image base, stack sizes and
/// heap sizes have the values that they had in 32 bits.
#[verifier::spinoff_prover]
pub proof fn widening_keeps_values(b: Seq<u8>, h: HeadersView)
    requires
        headers_of(b) == Ok::<HeadersView, ErrorView>(h),
        widening_of(b) is Ok,
    ensures
        values_kept(b, widened_bytes(b, h)),
{
    lemma_widenable_fields(b, h);
    lemma_values_kept(b, h);
}

#[verifier::spinoff_prover]
proof fn lemma_values_kept(b: Seq<u8>, h: HeadersView)
    requires
        widenable_fields(b, h),
    ensures
        values_kept(b, widened_bytes(b, h)),
{
    let c = widened_bytes(b, h);
    let opt = le32(b, 60) + 24;
    let w = widened_optional_header(b, opt);
    lemma_widened_fields(b, h);
    lemma_widened_optional_header(b, opt);
    lemma_widened_layers(b, h);
    lemma_same64(c, opt + 24, w, 24);
    lemma_same64(c, opt + 72, w, 72);
    lemma_same64(c, opt + 80, w, 80);
    lemma_same64(c, opt + 88, w, 88);
    lemma_same64(c, opt + 96, w, 96);
}

/// Widened headers that decode are those of a PE32+ image.
#[verifier::spinoff_prover]
pub proof fn lemma_widened_magic(b: Seq<u8>, h: HeadersView, w: HeadersView)
    requires
        headers_of(b) == Ok::<HeadersView, ErrorView>(h),
        widening_of(b) is Ok,
        headers_of(widened_bytes(b, h)) == Ok::<HeadersView, ErrorView>(w),
    ensures
        w.magic == MAGIC_PE64,
{
    lemma_decoded_magic(widened_bytes(b, h), w);
    widening_keeps_values(b, h);
}

} // verus!
