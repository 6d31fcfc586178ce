//! What pelite's checked views show of the bytes of an image.
//!
//! pelite forms references into the bytes, so what it reads must stand at an
//! address that its type allows. A [`PlacedImage`] holds a copy of the bytes
//! where the PE headers are aligned. What lies at an offset that the image
//! itself declares can still be unaligned: a section table behind an optional
//! header of an odd size, or exports in a section whose raw data is not
//! congruent to its address. `requires` leaves these out here; the module
//! `tables` reads them field by field.
//!
//! pelite reads fields in native byte order, so a little-endian machine is
//! taken for granted.

use crate::pe::layout::{
    le16, le32, le64_bytes, Record, DIRECTORY_COUNT, DOS_SIGNATURE, MAGIC_PE32, MAGIC_PE64,
    NT_SIGNATURE, OPTIONAL32_FIXED, OPTIONAL64_FIXED,
};
use pelite::pe64::Pe;
use vstd::prelude::*;

verus! {

/// A data directory of the optional header.
#[derive(Clone, Copy, Debug, PartialEq, Eq, Structural)]
pub struct DataDirectory {
    pub rva: u32,
    pub size: u32,
}

impl Default for DataDirectory {
    fn default() -> (directory: Self)
        ensures
            directory == (DataDirectory { rva: 0, size: 0 }),
    {
        DataDirectory { rva: 0, size: 0 }
    }
}

/// The part of a section header that decides where its bytes lie.
#[derive(Clone, Copy, Debug, PartialEq, Eq, Structural)]
pub struct Section {
    pub virtual_size: u32,
    pub rva: u32,
    pub raw_size: u32,
    pub raw_offset: u32,
}

/// The header fields of an image, without its tables.
#[derive(Clone, Copy, Debug)]
pub struct Fields {
    pub machine: u16,
    pub section_count: u16,
    pub optional_size: u16,
    pub characteristics: u16,
    pub magic: u16,
    pub image_size: u32,
    pub header_size: u32,
    pub directory_count: u32,
}

/// The header fields and tables of an image.
#[verifier::ext_equal]
pub struct LayoutView {
    pub machine: u16,
    pub section_count: u16,
    pub optional_size: u16,
    pub characteristics: u16,
    pub magic: u16,
    pub image_size: u32,
    pub header_size: u32,
    pub directory_count: u32,
    pub directories: Seq<DataDirectory>,
    pub sections: Seq<Section>,
}

impl Fields {
    /// These are the fields of `layout`.
    pub open spec fn belong_to(self, layout: LayoutView) -> bool {
        &&& self.machine == layout.machine
        &&& self.section_count == layout.section_count
        &&& self.optional_size == layout.optional_size
        &&& self.characteristics == layout.characteristics
        &&& self.magic == layout.magic
        &&& self.image_size == layout.image_size
        &&& self.header_size == layout.header_size
        &&& self.directory_count == layout.directory_count
    }
}

/// The offset of the optional header.
pub open spec fn optional_at(b: Seq<u8>) -> int {
    le32(b, 60) + 24
}

/// The size of the fixed part of the optional header that has this magic.
pub open spec fn fixed_size_of(magic: u16) -> int {
    if magic == MAGIC_PE64 {
        OPTIONAL64_FIXED as int
    } else {
        OPTIONAL32_FIXED as int
    }
}

/// How many directories of a declared `count` are there to be read.
pub open spec fn visible_directories(count: u32) -> int {
    if count < DIRECTORY_COUNT {
        count as int
    } else {
        DIRECTORY_COUNT as int
    }
}

/// The directory at `index`, behind a fixed part of `fixed` bytes.
pub open spec fn directory_at(b: Seq<u8>, fixed: int, index: int) -> DataDirectory {
    DataDirectory {
        rva: le32(b, optional_at(b) + fixed + index * 8),
        size: le32(b, optional_at(b) + fixed + index * 8 + 4),
    }
}

/// The section whose header is number `index` in the table at `table`.
pub open spec fn section_at(b: Seq<u8>, table: int, index: int) -> Section {
    Section {
        virtual_size: le32(b, table + index * 40 + 8),
        rva: le32(b, table + index * 40 + 12),
        raw_size: le32(b, table + index * 40 + 16),
        raw_offset: le32(b, table + index * 40 + 20),
    }
}

/// The header fields and tables that stand in `b`.
pub open spec fn layout_of(b: Seq<u8>) -> LayoutView {
    let nt = le32(b, 60) as int;
    let opt = optional_at(b);
    let magic = le16(b, opt);
    let fixed = fixed_size_of(magic);
    let optional_size = le16(b, nt + 20);
    let count = le32(b, opt + fixed - 4);
    LayoutView {
        machine: le16(b, nt + 4),
        section_count: le16(b, nt + 6),
        optional_size,
        characteristics: le16(b, nt + 22),
        magic,
        image_size: le32(b, opt + 56),
        header_size: le32(b, opt + 60),
        directory_count: count,
        directories: Seq::new(
            visible_directories(count) as nat,
            |i: int| directory_at(b, fixed, i),
        ),
        sections: Seq::new(
            le16(b, nt + 6) as nat,
            |i: int| section_at(b, opt + optional_size, i),
        ),
    }
}

/// The fault in everything before the tables: the signatures, the place of the
/// headers, and their declared sizes.
pub open spec fn prefix_fault(b: Seq<u8>) -> Option<Seq<char>> {
    let nt = le32(b, 60) as int;
    let opt = optional_at(b);
    if b.len() < 64 {
        Some("Bounds"@)
    } else if le16(b, 0) != DOS_SIGNATURE {
        Some("BadMagic"@)
    } else if nt % 4 != 0 {
        Some("Misaligned"@)
    } else if nt > 0x100_0000 {
        Some("Insanity"@)
    } else if opt + OPTIONAL64_FIXED > b.len() {
        Some("Bounds"@)
    } else if le32(b, nt) != NT_SIGNATURE || (le16(b, opt) != MAGIC_PE32 && le16(b, opt)
        != MAGIC_PE64) {
        Some("BadMagic"@)
    } else if le32(b, opt + 60) > b.len() {
        Some("Bounds"@)
    } else if le32(b, opt + 60) > le32(b, opt + 56) {
        Some("Insanity"@)
    } else {
        None
    }
}

/// The fault in the directory and section tables.
pub open spec fn tables_fault(b: Seq<u8>) -> Option<Seq<char>> {
    let l = layout_of(b);
    let opt = optional_at(b);
    if opt + fixed_size_of(l.magic) + visible_directories(l.directory_count) * 8 > b.len() {
        Some("Bounds"@)
    } else if l.section_count > 96 {
        Some("Insanity"@)
    } else if opt + l.optional_size + l.section_count * 40 > b.len() {
        Some("Bounds"@)
    } else {
        None
    }
}

/// Why `b` cannot be viewed as an image of either format.
pub open spec fn layout_fault(b: Seq<u8>) -> Option<Seq<char>> {
    match prefix_fault(b) {
        Some(fault) => Some(fault),
        None => tables_fault(b),
    }
}

/// Why `b` cannot be viewed as a PE32+ image.
pub open spec fn wide_fault(b: Seq<u8>) -> Option<Seq<char>> {
    match prefix_fault(b) {
        Some(fault) => Some(fault),
        None => if le16(b, optional_at(b)) != MAGIC_PE64 {
            Some("PeMagic"@)
        } else {
            tables_fault(b)
        },
    }
}

/// A result with its fault's text viewed.
pub open spec fn answer<T>(result: std::result::Result<T, String>) -> std::result::Result<
    T,
    Seq<char>,
> {
    match result {
        Ok(value) => Ok(value),
        Err(fault) => Err(fault@),
    }
}

/// The checks on `b` go as far as to form a reference to its PE headers.
pub open spec fn headers_are_referenced(b: Seq<u8>) -> bool {
    &&& b.len() >= 64
    &&& le16(b, 0) == DOS_SIGNATURE
    &&& le32(b, 60) % 4 == 0
    &&& le32(b, 60) <= 0x100_0000
    &&& optional_at(b) + OPTIONAL64_FIXED <= b.len()
}

/// The bytes of `words` in memory.
pub open spec fn word_bytes(words: Seq<u64>) -> Seq<u8> {
    Seq::new(words.len() * 8, |i: int| le64_bytes(words[i / 8])[i % 8])
}

/// A copy of the bytes of an image, placed in memory so that its PE headers
/// stand at an address divisible by eight.
#[derive(Debug)]
pub struct PlacedImage<'a> {
    bytes: &'a [u8],
    words: Vec<u64>,
    lead: usize,
}

impl<'a> View for PlacedImage<'a> {
    type V = Seq<u8>;

    closed spec fn view(&self) -> Seq<u8> {
        self.bytes@
    }
}

impl<'a> PlacedImage<'a> {
    /// The words hold the bytes, at an address divisible by four, and the PE
    /// headers at one divisible by eight.
    pub closed spec fn well_formed(self) -> bool {
        &&& self.lead + self@.len() <= self.words@.len() * 8
        &&& word_bytes(self.words@).subrange(self.lead as int, self.lead + self@.len()) == self@
        &&& self.lead % 4 == 0
        &&& headers_are_referenced(self@) ==> (self.lead + le32(self@, 60)) % 8 == 0
    }

    /// Copy `b` to where its PE headers are aligned.
    pub fn of(b: &'a [u8]) -> (image: Self)
        ensures
            image.well_formed(),
            image@ == b@,
    {
        let lead: usize = if b.len() >= 64 && <u32 as Record>::decode(&b[60..64]) % 8 == 4 {
            4
        } else {
            0
        };
        let mut padded: Vec<u8> = Vec::new();
        while padded.len() < lead
            invariant
                padded@.len() <= lead,
            decreases lead - padded@.len(),
        {
            padded.push(0);
        }
        padded.extend_from_slice(b);
        assert(padded@.subrange(lead as int, lead + b@.len()) =~= b@);
        while padded.len() % 8 != 0
            invariant
                lead + b@.len() <= padded@.len(),
                padded@.subrange(lead as int, lead + b@.len()) == b@,
            decreases (8 - padded@.len() % 8) % 8,
        {
            padded.push(0);
            assert(padded@.subrange(lead as int, lead + b@.len()) =~= b@);
        }
        let mut words: Vec<u64> = Vec::new();
        let mut at: usize = 0;
        while at < padded.len()
            invariant
                at <= padded@.len(),
                at == words@.len() * 8,
                padded@.len() % 8 == 0,
                forall|j: int|
                    0 <= j < words@.len() ==> le64_bytes(#[trigger] words@[j]) == padded@.subrange(
                        j * 8,
                        j * 8 + 8,
                    ),
            decreases padded@.len() - at,
        {
            let chunk = &padded.as_slice()[at..at + 8];
            proof {
                <u64 as Record>::encode_undoes_decode(chunk@);
            }
            words.push(<u64 as Record>::decode(chunk));
            at += 8;
        }
        proof {
            lemma_words_hold(words@, padded@);
            assert(word_bytes(words@).subrange(lead as int, lead + b@.len()) == b@);
            if b@.len() >= 64 {
                let head = b@.subrange(60, 64);
                assert(head[0] == b@[60] && head[1] == b@[61] && head[2] == b@[62] && head[3]
                    == b@[63]);
                assert(le32(head, 0) == le32(b@, 60));
            }
        }
        PlacedImage { bytes: b, words, lead }
    }

    /// The bytes of the image.
    pub(crate) fn bytes(&self) -> (b: &'a [u8])
        ensures
            b@ == self@,
    {
        self.bytes
    }
}

proof fn lemma_words_hold(words: Seq<u64>, b: Seq<u8>)
    requires
        b.len() == words.len() * 8,
        forall|j: int|
            0 <= j < words.len() ==> le64_bytes(#[trigger] words[j]) == b.subrange(
                j * 8,
                j * 8 + 8,
            ),
    ensures
        word_bytes(words) == b,
{
    assert forall|i: int| 0 <= i < b.len() implies #[trigger] word_bytes(words)[i] == b[i] by {
        let j = i / 8;
        assert(le64_bytes(words[j]) == b.subrange(j * 8, j * 8 + 8));
    }
    assert(word_bytes(words) =~= b);
}

/// `pelite::PeFile::from_bytes` accepts an image when its headers lie within it
/// and are sane; `file_header` and `optional_header` then show the fields in
/// place. `dataview::bytes` gives the memory of the words.
#[verifier::external_body]
pub(crate) fn view_fields(image: &PlacedImage) -> (result: std::result::Result<Fields, String>)
    requires
        image.well_formed(),
    ensures
        match result {
            Ok(fields) => layout_fault(image@) is None && fields.belong_to(layout_of(image@)),
            Err(fault) => layout_fault(image@) == Some(fault@),
        },
{
    let b = &dataview::bytes(image.words.as_slice())[image.lead..][..image.bytes.len()];
    let file = pelite::PeFile::from_bytes(b).map_err(|e| format!("{e:?}"))?;
    let coff = file.file_header();
    let (magic, image_size, header_size, directory_count) = match file.optional_header() {
        pelite::Wrap::T32(h) => (h.Magic, h.SizeOfImage, h.SizeOfHeaders, h.NumberOfRvaAndSizes),
        pelite::Wrap::T64(h) => (h.Magic, h.SizeOfImage, h.SizeOfHeaders, h.NumberOfRvaAndSizes),
    };
    let (machine, section_count) = (coff.Machine, coff.NumberOfSections);
    let (optional_size, characteristics) = (coff.SizeOfOptionalHeader, coff.Characteristics);
    Ok(Fields {
        machine, section_count, optional_size, characteristics, magic, image_size, header_size,
        directory_count,
    })
}

/// `pelite::PeFile::from_bytes` accepts an image as for its fields;
/// `data_directory` shows the directories in place.
#[verifier::external_body]
pub(crate) fn view_directories(image: &PlacedImage) -> (result: std::result::Result<
    Vec<DataDirectory>,
    String,
>)
    requires
        image.well_formed(),
    ensures
        match result {
            Ok(directories) => layout_fault(image@) is None && directories@ == layout_of(
                image@,
            ).directories,
            Err(fault) => layout_fault(image@) == Some(fault@),
        },
{
    let b = &dataview::bytes(image.words.as_slice())[image.lead..][..image.bytes.len()];
    let file = pelite::PeFile::from_bytes(b).map_err(|e| format!("{e:?}"))?;
    Ok(file.data_directory().iter().map(
        |d| DataDirectory { rva: d.VirtualAddress, size: d.Size },
    ).collect())
}

/// `pelite::PeFile::from_bytes` accepts an image as for its fields;
/// `section_headers` shows the section table in place, which must be aligned.
#[verifier::external_body]
pub(crate) fn view_sections(image: &PlacedImage) -> (result: std::result::Result<
    Vec<Section>,
    String,
>)
    requires
        image.well_formed(),
        layout_fault(image@) is None ==> layout_of(image@).optional_size % 4 == 0,
    ensures
        match result {
            Ok(sections) => layout_fault(image@) is None && sections@ == layout_of(image@).sections,
            Err(fault) => layout_fault(image@) == Some(fault@),
        },
{
    let b = &dataview::bytes(image.words.as_slice())[image.lead..][..image.bytes.len()];
    let file = pelite::PeFile::from_bytes(b).map_err(|e| format!("{e:?}"))?;
    Ok(file.section_headers().iter().map(
        |s| Section {
            virtual_size: s.VirtualSize, rva: s.VirtualAddress, raw_size: s.SizeOfRawData,
            raw_offset: s.PointerToRawData,
        },
    ).collect())
}

/// `pelite::pe64::PeFile::from_bytes` accepts an image that can be viewed as
/// PE32+.
#[verifier::external_body]
pub(crate) fn view_wide(image: &PlacedImage) -> (result: std::result::Result<(), String>)
    requires
        image.well_formed(),
    ensures
        match result {
            Ok(_) => wide_fault(image@) is None,
            Err(fault) => wide_fault(image@) == Some(fault@),
        },
{
    let b = &dataview::bytes(image.words.as_slice())[image.lead..][..image.bytes.len()];
    pelite::pe64::PeFile::from_bytes(b).map(|_| ()).map_err(|e| format!("{e:?}"))
}

/// Where the mapped range of a section ends, modulo the address width.
pub open spec fn wrapped_end(s: Section) -> int {
    (s.rva + if s.virtual_size >= s.raw_size {
        s.virtual_size
    } else {
        s.raw_size
    }) % 0x1_0000_0000
}

/// Where the byte at `rva` lies in the file, by the first section that holds it.
pub open spec fn offset_in(sections: Seq<Section>, rva: u32) -> std::result::Result<
    usize,
    Seq<char>,
>
    decreases sections.len(),
{
    if sections.len() == 0 {
        Err("Bounds"@)
    } else {
        let s = sections[0];
        if !(s.rva <= rva < wrapped_end(s)) {
            offset_in(sections.skip(1), rva)
        } else if s.raw_offset + s.raw_size > u32::MAX {
            Err("Overflow"@)
        } else if rva - s.rva < s.raw_size {
            Ok((rva - s.rva + s.raw_offset) as usize)
        } else if rva - s.rva < s.virtual_size {
            Err("ZeroFill"@)
        } else {
            Err("Bounds"@)
        }
    }
}

/// Where the byte at `rva` lies in the PE32+ file `b`. Header bytes keep their
/// place.
pub open spec fn file_offset_of(b: Seq<u8>, rva: u32) -> std::result::Result<usize, Seq<char>> {
    match wide_fault(b) {
        Some(fault) => Err(fault),
        None => if rva < layout_of(b).header_size {
            Ok(rva as usize)
        } else {
            offset_in(layout_of(b).sections, rva)
        },
    }
}

/// `pelite::pe64::Pe::rva_to_file_offset` translates an address through the
/// headers or the first section that holds it. It reads the section table for
/// an address behind the headers, which must then be aligned.
#[verifier::external_body]
pub(crate) fn view_file_offset(image: &PlacedImage, rva: u32) -> (result: std::result::Result<usize, String>)
    requires
        image.well_formed(),
        wide_fault(image@) is None && rva >= layout_of(image@).header_size ==> layout_of(
            image@,
        ).optional_size % 4 == 0,
    ensures
        answer(result) == file_offset_of(image@, rva),
{
    let b = &dataview::bytes(image.words.as_slice())[image.lead..][..image.bytes.len()];
    pelite::pe64::PeFile::from_bytes(b).and_then(|file| file.rva_to_file_offset(rva)).map_err(
        |e| format!("{e:?}"),
    )
}

/// What an exported ordinal stands for.
#[derive(Clone, Copy, Debug, PartialEq, Eq, Structural)]
pub enum ExportTarget {
    /// A symbol at this address of the image.
    Symbol(u32),
    /// A symbol of another module.
    Forward,
}

/// Where `size` bytes at `rva` begin in the file `b`, and where the raw data of
/// the section `s` that holds the address ends, when it holds all of them.
pub open spec fn stored_in(b: Seq<u8>, s: Section, rva: u32, size: int) -> std::result::Result<
    (int, int),
    Seq<char>,
> {
    let end = (s.raw_offset + s.raw_size) % 0x1_0000_0000;
    let at = s.raw_offset + (rva - s.rva);
    if end < s.raw_offset || end > b.len() {
        Err("Invalid"@)
    } else if at + size <= end {
        Ok((at, end))
    } else if size > wrapped_end(s) - rva {
        Err("Bounds"@)
    } else {
        Err("ZeroFill"@)
    }
}

/// [`stored_in`] the first section that holds the address.
pub open spec fn stored_at(
    b: Seq<u8>,
    sections: Seq<Section>,
    rva: u32,
    size: int,
) -> std::result::Result<(int, int), Seq<char>>
    decreases sections.len(),
{
    if sections.len() == 0 {
        Err("Bounds"@)
    } else if sections[0].rva <= rva < wrapped_end(sections[0]) {
        stored_in(b, sections[0], rva, size)
    } else {
        stored_at(b, sections.skip(1), rva, size)
    }
}

/// Where the export directory of the PE32+ image `b` lies in the file.
pub open spec fn export_directory_of(b: Seq<u8>) -> std::result::Result<int, Seq<char>> {
    let rva = directory_at(b, 112, 0).rva;
    match wide_fault(b) {
        Some(fault) => Err(fault),
        None => if layout_of(b).directory_count == 0 {
            Err("Bounds"@)
        } else if rva == 0 {
            Err("Null"@)
        } else if rva % 4 != 0 {
            Err("Misaligned"@)
        } else {
            match stored_at(b, layout_of(b).sections, rva, 40) {
                Err(fault) => Err(fault),
                Ok((at, _)) => Ok(at),
            }
        },
    }
}

/// The ordinal base in the export directory of the PE32+ image `b`.
pub open spec fn export_base_of(b: Seq<u8>) -> std::result::Result<u32, Seq<char>> {
    match export_directory_of(b) {
        Err(fault) => Err(fault),
        Ok(at) => Ok(le32(b, at + 16)),
    }
}

/// Where a table of `count` values of `width` bytes at `rva` begins in the file.
/// There is none at address zero.
pub open spec fn table_of(b: Seq<u8>, rva: u32, count: u32, width: int) -> std::result::Result<
    Option<int>,
    Seq<char>,
> {
    if count * width > usize::MAX {
        Err("Overflow"@)
    } else if rva == 0 {
        Ok(None)
    } else if rva as int % width != 0 {
        Err("Misaligned"@)
    } else {
        match stored_at(b, layout_of(b).sections, rva, count * width) {
            Err(fault) => Err(fault),
            Ok((at, _)) => Ok(Some(at)),
        }
    }
}

/// Where the export directory of the PE32+ image `b` and its table of functions
/// lie in the file, when these and the two tables of names can be read.
pub open spec fn export_places(b: Seq<u8>) -> std::result::Result<(int, Option<int>), Seq<char>> {
    match export_directory_of(b) {
        Err(fault) => Err(fault),
        Ok(at) => match table_of(b, le32(b, at + 28), le32(b, at + 20), 4) {
            Err(fault) => Err(fault),
            Ok(functions) => match table_of(b, le32(b, at + 32), le32(b, at + 24), 4) {
                Err(fault) => Err(fault),
                Ok(_) => match table_of(b, le32(b, at + 36), le32(b, at + 24), 2) {
                    Err(fault) => Err(fault),
                    Ok(_) => Ok((at, functions)),
                },
            },
        },
    }
}

/// Whether the export tables of the PE32+ image `b` can be read.
pub open spec fn export_tables_of(b: Seq<u8>) -> std::result::Result<(), Seq<char>> {
    match export_places(b) {
        Err(fault) => Err(fault),
        Ok(_) => Ok(()),
    }
}

/// `b` holds a terminated string from `at` on, in front of `end`.
pub open spec fn holds_string(b: Seq<u8>, at: int, end: int) -> bool {
    exists|i: int| at <= i < end && #[trigger] b[i] == 0
}

/// What an exported function at `rva` stands for. One that lies in the export
/// directory names a function of another module.
pub open spec fn export_at(b: Seq<u8>, rva: u32) -> std::result::Result<ExportTarget, Seq<char>> {
    let d = directory_at(b, 112, 0);
    if rva == 0 {
        Err("Null"@)
    } else if d.rva <= rva < (d.rva + d.size) % 0x1_0000_0000 {
        match stored_at(b, layout_of(b).sections, rva, 0) {
            Err(fault) => Err(fault),
            Ok((at, end)) => if holds_string(b, at, end) {
                Ok(ExportTarget::Forward)
            } else {
                Err("Encoding"@)
            },
        }
    } else {
        Ok(ExportTarget::Symbol(rva))
    }
}

/// The export of the PE32+ image `b` that has this ordinal.
pub open spec fn export_target_of(b: Seq<u8>, ordinal: u16) -> std::result::Result<
    ExportTarget,
    Seq<char>,
> {
    match export_places(b) {
        Err(fault) => Err(fault),
        Ok((_, None)) => Err("Bounds"@),
        Ok((at, Some(functions))) => {
            let base = le32(b, at + 16);
            if ordinal < base || ordinal - base >= le32(b, at + 20) {
                Err("Bounds"@)
            } else {
                export_at(b, le32(b, functions + (ordinal - base) * 4))
            }
        },
    }
}

/// The section table of `b` is aligned, and so is the raw data of every section
/// wherever its address is.
pub open spec fn exports_are_aligned(b: Seq<u8>) -> bool {
    let l = layout_of(b);
    &&& l.optional_size % 4 == 0
    &&& forall|i: int|
        0 <= i < l.sections.len() ==> (#[trigger] l.sections[i]).raw_offset % 4 == l.sections[i].rva
            % 4
}

/// `pelite::pe64::Pe::exports` finds the export directory in the file; its
/// `image` holds the ordinal base. What it reads must be aligned.
#[verifier::external_body]
pub(crate) fn view_export_base(image: &PlacedImage) -> (result: std::result::Result<u32, String>)
    requires
        image.well_formed(),
        wide_fault(image@) is None ==> exports_are_aligned(image@),
    ensures
        answer(result) == export_base_of(image@),
{
    let b = &dataview::bytes(image.words.as_slice())[image.lead..][..image.bytes.len()];
    pelite::pe64::PeFile::from_bytes(b).and_then(|file| file.exports()).map(
        |exports| exports.image().Base,
    ).map_err(|e| format!("{e:?}"))
}

/// `pelite::pe64::exports::Exports::by` checks that the export tables can be
/// read, and takes one at address zero for empty. What it reads must be aligned.
#[verifier::external_body]
pub(crate) fn view_export_tables(image: &PlacedImage) -> (result: std::result::Result<(), String>)
    requires
        image.well_formed(),
        wide_fault(image@) is None ==> exports_are_aligned(image@),
    ensures
        answer(result) == export_tables_of(image@),
{
    let b = &dataview::bytes(image.words.as_slice())[image.lead..][..image.bytes.len()];
    pelite::pe64::PeFile::from_bytes(b).and_then(|file| file.exports()).and_then(
        |exports| exports.by().map(|_| ()),
    ).map_err(|e| format!("{e:?}"))
}

/// `pelite::pe64::exports::By::ordinal` looks an export up by its ordinal, and
/// follows a forwarded one as far as its name. What it reads must be aligned.
/// It adds the address and size of the export directory, so these must not
/// overflow.
#[verifier::external_body]
pub(crate) fn view_export_target(image: &PlacedImage, ordinal: u16) -> (result: std::result::Result<
    ExportTarget,
    String,
>)
    requires
        image.well_formed(),
        wide_fault(image@) is None ==> exports_are_aligned(image@),
        wide_fault(image@) is None ==> directory_at(image@, 112, 0).rva + directory_at(
            image@,
            112,
            0,
        ).size <= u32::MAX,
    ensures
        answer(result) == export_target_of(image@, ordinal),
{
    let b = &dataview::bytes(image.words.as_slice())[image.lead..][..image.bytes.len()];
    let file = pelite::pe64::PeFile::from_bytes(b).map_err(|e| format!("{e:?}"))?;
    let by = file.exports().and_then(|exports| exports.by()).map_err(|e| format!("{e:?}"))?;
    match by.ordinal(ordinal) {
        Ok(pelite::pe64::exports::Export::Symbol(rva)) => Ok(ExportTarget::Symbol(*rva)),
        Ok(pelite::pe64::exports::Export::Forward(_)) => Ok(ExportTarget::Forward),
        Err(e) => Err(format!("{e:?}")),
    }
}

} // verus!
