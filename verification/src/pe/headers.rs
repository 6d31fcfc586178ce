//! PE header decoding, payload validation, and bounded header mutation.
//!
//! Both PE32 and PE32+ go through pelite's checked views; the decoded model
//! retains only the fields that injection uses.

use crate::error::{outcome, pe, viewed, ErrorView, Result};
use crate::pe::layout::{
    bytes, le16, le32, machine_gate, machine_gate_of, nt_offset, nt_offset_of, range_fault,
    spliced, u16_at, Record, CHECKSUM_OFFSET, DIRECTORIES_SIZE, DIRECTORY_COUNT, DIRECTORY_SIZE,
    FILE_HEADER_OFFSET, FILE_HEADER_SIZE, MAGIC_PE32, MAGIC_PE64, MAX_HEADERS, NT_PREFIX_SIZE,
    OPTIONAL32_FIXED, OPTIONAL64_FIXED, SECTION_HEADER_SIZE,
};
use crate::pe::tables::{exports, file_offset, sections};
use crate::pe::view::{
    answer, directory_at, export_base_of, export_tables_of, export_target_of, file_offset_of,
    fixed_size_of, layout_fault, layout_of, prefix_fault, section_at, view_directories,
    view_fields, view_wide, wide_fault, DataDirectory, ExportTarget, Fields, LayoutView,
    PlacedImage, Section,
};
use vstd::prelude::*;

verus! {

pub const MAX_SECTIONS: u16 = 96;

pub const MAX_OPTIONAL_HEADER_SIZE: usize = 4096;

pub const EXPORT_DIRECTORY: usize = 0;

/// The size of the fixed part of an export directory.
pub const EXPORT_DIRECTORY_SIZE: u32 = 40;

/// The file characteristic of a DLL.
pub const FILE_IS_DLL: u16 = 0x2000;

/// The decoded headers of an image.
#[derive(Clone, Debug)]
pub struct Headers {
    pub machine: u16,
    pub magic: u16,
    pub characteristics: u16,
    pub image_size: u32,
    pub header_size: u32,
    pub directories: [DataDirectory; 16],
    pub sections: Vec<Section>,
}

/// The mathematical content of [`Headers`].
#[verifier::ext_equal]
pub struct HeadersView {
    pub machine: u16,
    pub magic: u16,
    pub characteristics: u16,
    pub image_size: u32,
    pub header_size: u32,
    pub directories: Seq<DataDirectory>,
    pub sections: Seq<Section>,
}

impl View for Headers {
    type V = HeadersView;

    open spec fn view(&self) -> HeadersView {
        HeadersView {
            machine: self.machine,
            magic: self.magic,
            characteristics: self.characteristics,
            image_size: self.image_size,
            header_size: self.header_size,
            directories: self.directories@,
            sections: self.sections@,
        }
    }
}

impl Section {
    /// Mapped bytes: the larger of the virtual and the raw size.
    pub open spec fn extent(self) -> int {
        if self.virtual_size >= self.raw_size {
            self.virtual_size as int
        } else {
            self.raw_size as int
        }
    }

    /// One past the last mapped byte.
    pub open spec fn end(self) -> int {
        self.rva + self.extent()
    }

    /// The mapped ranges have a common byte, or one lies at a point inside the other.
    pub open spec fn overlaps(self, other: Section) -> bool {
        self.rva < other.end() && other.rva < self.end()
    }
}

/// The fault of a section that comes after `earlier`.
pub open spec fn section_fault(
    earlier: Seq<Section>,
    s: Section,
    header_size: u32,
    image_size: u32,
) -> Option<ErrorView> {
    if s.end() > u32::MAX {
        Some(ErrorView::Pe("section overflow"@))
    } else if s.rva < header_size || s.end() > image_size {
        Some(ErrorView::Pe("section outside image"@))
    } else if exists|i: int| 0 <= i < earlier.len() && s.overlaps(#[trigger] earlier[i]) {
        Some(ErrorView::Pe("overlapping sections"@))
    } else {
        None
    }
}

/// The fault of the first faulty section among the first `n`.
pub open spec fn sections_fault(
    sections: Seq<Section>,
    n: nat,
    header_size: u32,
    image_size: u32,
) -> Option<ErrorView>
    decreases n,
{
    if n == 0 {
        None
    } else {
        match sections_fault(sections, (n - 1) as nat, header_size, image_size) {
            Some(fault) => Some(fault),
            None => section_fault(
                sections.take(n - 1),
                sections[n - 1],
                header_size,
                image_size,
            ),
        }
    }
}

/// Sections without a fault lie behind the headers, inside the image, and
/// apart from each other.
pub proof fn lemma_sections_apart(
    sections: Seq<Section>,
    n: nat,
    header_size: u32,
    image_size: u32,
)
    requires
        n <= sections.len(),
        sections_fault(sections, n, header_size, image_size) is None,
    ensures
        forall|i: int|
            0 <= i < n ==> header_size <= (#[trigger] sections[i]).rva && sections[i].end()
                <= image_size,
        forall|i: int, j: int|
            0 <= i < j < n ==> !(#[trigger] sections[j]).overlaps(#[trigger] sections[i]),
    decreases n,
{
    if n > 0 {
        lemma_sections_apart(sections, (n - 1) as nat, header_size, image_size);
        let earlier = sections.take(n - 1);
        assert forall|i: int| 0 <= i < n - 1 implies !(sections[n - 1]).overlaps(
            #[trigger] sections[i],
        ) by {
            assert(earlier[i] == sections[i]);
        }
    }
}

/// Validate one section against image bounds and its predecessors.
fn check_section(earlier: &[Section], s: &Section, header_size: u32, image_size: u32) -> (result:
    Result<()>)
    requires
        forall|i: int| 0 <= i < earlier@.len() ==> (#[trigger] earlier@[i]).end() <= u32::MAX,
    ensures
        match section_fault(earlier@, *s, header_size, image_size) {
            Some(fault) => result matches Err(error) && error@ == fault,
            None => result is Ok,
        },
{
    let extent: u32 = if s.virtual_size >= s.raw_size {
        s.virtual_size
    } else {
        s.raw_size
    };
    let end: u32 = match s.rva.checked_add(extent) {
        None => return Err(pe("section overflow")),
        Some(end) => end,
    };
    if s.rva < header_size || end > image_size {
        return Err(pe("section outside image"));
    }
    let mut i: usize = 0;
    while i < earlier.len()
        invariant
            i <= earlier@.len(),
            end == s.end(),
            forall|k: int| 0 <= k < earlier@.len() ==> (#[trigger] earlier@[k]).end() <= u32::MAX,
            forall|k: int| 0 <= k < i ==> !s.overlaps(#[trigger] earlier@[k]),
            s.rva >= header_size,
            end <= image_size,
        decreases earlier@.len() - i,
    {
        let old = earlier[i];
        let old_extent: u32 = if old.virtual_size >= old.raw_size {
            old.virtual_size
        } else {
            old.raw_size
        };
        assert(earlier@[i as int].end() <= u32::MAX);
        if s.rva < old.rva + old_extent && old.rva < end {
            assert(s.overlaps(earlier@[i as int]));
            return Err(pe("overlapping sections"));
        }
        i += 1;
    }
    Ok(())
}

/// The sixteen directories, padded with empty ones.
pub open spec fn padded(directories: Seq<DataDirectory>) -> Seq<DataDirectory> {
    Seq::new(
        DIRECTORY_COUNT as nat,
        |i: int|
            if i < directories.len() {
                directories[i]
            } else {
                DataDirectory { rva: 0, size: 0 }
            },
    )
}

/// What a layout whose fields are in order decodes to.
pub open spec fn decoded_from(l: LayoutView) -> std::result::Result<HeadersView, ErrorView> {
    match sections_fault(l.sections, l.sections.len(), l.header_size, l.image_size) {
        Some(fault) => Err(fault),
        None => Ok(
            HeadersView {
                machine: l.machine,
                magic: l.magic,
                characteristics: l.characteristics,
                image_size: l.image_size,
                header_size: l.header_size,
                directories: padded(l.directories),
                sections: l.sections,
            },
        ),
    }
}

/// What the headers in `b` decode to.
pub open spec fn headers_of(b: Seq<u8>) -> std::result::Result<HeadersView, ErrorView> {
    match nt_offset_of(b) {
        Err(fault) => Err(fault),
        Ok(nt) => match layout_fault(b) {
            Some(fault) => Err(ErrorView::Pe("invalid PE layout: "@ + fault)),
            None => {
                let l = layout_of(b);
                let fixed = fixed_size_of(l.magic);
                let table = nt + NT_PREFIX_SIZE + l.optional_size;
                if l.section_count == 0 || l.section_count > MAX_SECTIONS {
                    Err(ErrorView::Pe("invalid section count"@))
                } else if l.optional_size < fixed + DIRECTORIES_SIZE || l.optional_size
                    > MAX_OPTIONAL_HEADER_SIZE {
                    Err(ErrorView::Pe("invalid optional-header size"@))
                } else if table > b.len() {
                    Err(ErrorView::Pe("truncated data"@))
                } else if l.directory_count < DIRECTORY_COUNT || l.directory_count > (
                l.optional_size - fixed) / DIRECTORY_SIZE as int {
                    Err(ErrorView::Pe("invalid data-directory count"@))
                } else if l.header_size > MAX_HEADERS || l.header_size == 0 || l.header_size
                    > l.image_size {
                    Err(ErrorView::Pe("invalid image/header size"@))
                } else if l.header_size > b.len() {
                    Err(ErrorView::Pe("truncated data"@))
                } else if table + l.section_count * SECTION_HEADER_SIZE > l.header_size {
                    Err(ErrorView::Pe("sections exceed headers"@))
                } else {
                    decoded_from(l)
                }
            },
        },
    }
}

/// `prefix` and then `detail`, as a malformed-image error.
fn pe_detail(prefix: &str, detail: &str) -> (error: crate::error::Error)
    ensures
        error@ == ErrorView::Pe(prefix@ + detail@),
{
    let mut message = prefix.to_owned();
    message.append(detail);
    pe(message.as_str())
}

impl Headers {
    /// Decode either format. Process bitness and managed-image conversion policy
    /// belong to the caller, independently of the on-disk header format.
    pub fn parse_remote(b: &[u8]) -> (result: Result<Self>)
        ensures
            viewed(result) == headers_of(b@),
    {
        let nt: usize = match nt_offset(b) {
            Err(error) => return Err(error),
            Ok(nt) => nt,
        };
        let image = PlacedImage::of(b);
        let f = match view_fields(&image) {
            Err(fault) => return Err(pe_detail("invalid PE layout: ", fault.as_str())),
            Ok(f) => f,
        };
        let count: u16 = f.section_count;
        if count == 0 || count > MAX_SECTIONS {
            return Err(pe("invalid section count"));
        }
        let fixed: usize = if f.magic == MAGIC_PE64 {
            OPTIONAL64_FIXED
        } else {
            OPTIONAL32_FIXED
        };
        let optional_size: usize = f.optional_size as usize;
        if optional_size < fixed + DIRECTORIES_SIZE || optional_size > MAX_OPTIONAL_HEADER_SIZE {
            return Err(pe("invalid optional-header size"));
        }
        match bytes(b, nt + NT_PREFIX_SIZE, optional_size) {
            Err(error) => return Err(error),
            Ok(_) => {},
        }
        if (f.directory_count as usize) < DIRECTORY_COUNT || f.directory_count as usize > (
        optional_size - fixed) / DIRECTORY_SIZE {
            return Err(pe("invalid data-directory count"));
        }
        if f.header_size as usize > MAX_HEADERS || f.header_size == 0 || f.header_size
            > f.image_size {
            return Err(pe("invalid image/header size"));
        }
        match bytes(b, 0, f.header_size as usize) {
            Err(error) => return Err(error),
            Ok(_) => {},
        }
        if nt + NT_PREFIX_SIZE + optional_size + count as usize * SECTION_HEADER_SIZE
            > f.header_size as usize {
            return Err(pe("sections exceed headers"));
        }
        let directories = match view_directories(&image) {
            Err(fault) => return Err(pe_detail("invalid PE layout: ", fault.as_str())),
            Ok(directories) => directories,
        };
        match sections(&image) {
            Err(fault) => Err(pe_detail("invalid PE layout: ", fault.as_str())),
            Ok(sections) => Self::modelled(&f, &directories, &sections),
        }
    }

    /// The model of an image with these fields and tables.
    fn modelled(f: &Fields, listed: &Vec<DataDirectory>, table: &Vec<Section>) -> (result: Result<
        Self,
    >)
        ensures
            forall|l: LayoutView|
                f.belong_to(l) && l.directories == listed@ && l.sections == table@
                    ==> viewed(result) == #[trigger] decoded_from(l),
    {
        let mut directories = [DataDirectory { rva: 0, size: 0 };16];
        let mut i: usize = 0;
        while i < 16 && i < listed.len()
            invariant
                i <= 16,
                i <= listed@.len(),
                forall|k: int|
                    0 <= k < 16 ==> #[trigger] directories@[k] == (if k < i {
                        listed@[k]
                    } else {
                        DataDirectory { rva: 0, size: 0 }
                    }),
            decreases 16 - i,
        {
            directories[i] = listed[i];
            i += 1;
        }
        assert(directories@ =~= padded(listed@));
        let mut sections: Vec<Section> = Vec::new();
        let mut k: usize = 0;
        while k < table.len()
            invariant
                k <= table@.len(),
                sections@ == table@.take(k as int),
                sections_fault(table@, k as nat, f.header_size, f.image_size) is None,
            decreases table@.len() - k,
        {
            let section = table[k];
            proof {
                lemma_sections_apart(table@, k as nat, f.header_size, f.image_size);
                lemma_first_fault(
                    table@,
                    (k + 1) as nat,
                    table@.len(),
                    f.header_size,
                    f.image_size,
                );
                assert forall|i: int| 0 <= i < sections@.len() implies (
                #[trigger] sections@[i]).end() <= u32::MAX by {
                    assert(sections@[i] == table@[i]);
                }
            }
            match check_section(&sections, &section, f.header_size, f.image_size) {
                Err(error) => return Err(error),
                Ok(_) => {},
            }
            sections.push(section);
            k += 1;
            assert(sections@ =~= table@.take(k as int));
        }
        assert(sections@ =~= table@);
        Ok(
            Headers {
                machine: f.machine,
                magic: f.magic,
                characteristics: f.characteristics,
                image_size: f.image_size,
                header_size: f.header_size,
                directories,
                sections,
            },
        )
    }

    /// Parse a native AMD64 payload; remote managed images use `parse_remote`.
    pub fn parse(b: &[u8]) -> (result: Result<Self>)
        ensures
            viewed(result) == native_headers_of(b@),
    {
        let nt: usize = match nt_offset(b) {
            Err(error) => return Err(error),
            Ok(nt) => nt,
        };
        let file = match bytes(b, nt + FILE_HEADER_OFFSET, FILE_HEADER_SIZE) {
            Err(error) => return Err(error),
            Ok(file) => file,
        };
        let machine: u16 = match u16_at(file, 0) {
            Err(error) => return Err(error),
            Ok(machine) => machine,
        };
        match machine_gate(machine) {
            Err(error) => return Err(error),
            Ok(_) => {},
        }
        let headers = match Self::parse_remote(b) {
            Err(error) => return Err(error),
            Ok(headers) => headers,
        };
        if headers.magic != MAGIC_PE64 {
            return Err(pe("expected PE32+"));
        }
        Ok(headers)
    }

    /// Whether `size` bytes at `rva` lie inside the image.
    pub fn image_range(&self, rva: u32, size: usize) -> (result: Result<()>)
        ensures
            outcome(result) == image_range_of(self@, rva, size as int),
    {
        match (rva as usize).checked_add(size) {
            Some(end) => if end > self.image_size as usize {
                Err(pe("RVA outside image"))
            } else {
                Ok(())
            },
            None => Err(pe("RVA outside image")),
        }
    }

    /// The `n` bytes of the PE32+ file `b` that are mapped at `rva`.
    pub fn file_range<'a>(&self, b: &'a [u8], rva: u32, n: usize) -> (result: Result<&'a [u8]>)
        ensures
            viewed(result) == file_range_of(self@, b@, rva, n as int),
    {
        match self.image_range(rva, n) {
            Err(error) => return Err(error),
            Ok(_) => {},
        }
        let image = PlacedImage::of(b);
        match view_wide(&image) {
            Err(fault) => return Err(pe_detail("invalid PE layout: ", fault.as_str())),
            Ok(_) => {},
        }
        match file_offset(&image, rva) {
            Err(fault) => Err(pe_detail("RVA has no file data: ", fault.as_str())),
            Ok(offset) => bytes(b, offset, n),
        }
    }

    /// Check that the file `b` holds its headers and sections, and is a DLL.
    pub fn validate_file(&self, b: &[u8]) -> (result: Result<()>)
        ensures
            outcome(result) == file_check(self@, b@),
    {
        match bytes(b, 0, self.header_size as usize) {
            Err(error) => return Err(error),
            Ok(_) => {},
        }
        let mut i: usize = 0;
        while i < self.sections.len()
            invariant
                i <= self.sections@.len(),
                self.header_size <= b@.len(),
                raw_fault(self@, b@.len(), i as nat) is None,
            decreases self.sections@.len() - i,
        {
            let s = self.sections[i];
            proof {
                lemma_first_raw_fault(self@, b@.len(), (i + 1) as nat, self.sections@.len());
            }
            if s.raw_size > 0 {
                if s.raw_offset < self.header_size {
                    return Err(pe("section overlaps file headers"));
                }
                match bytes(b, s.raw_offset as usize, s.raw_size as usize) {
                    Err(error) => return Err(error),
                    Ok(_) => {},
                }
            }
            i += 1;
        }
        if self.characteristics & FILE_IS_DLL == 0 {
            return Err(pe("payload is not a DLL"));
        }
        Ok(())
    }

    /// Detours imports ordinal 1; do not silently choose another export.
    pub fn import_ordinal(&self, b: &[u8]) -> (result: Result<u16>)
        ensures
            outcome(result) == import_ordinal_of(self@, b@),
    {
        let d = self.directories[EXPORT_DIRECTORY];
        if d.rva == 0 || d.size < EXPORT_DIRECTORY_SIZE {
            return Err(pe("payload has no export directory"));
        }
        match self.image_range(d.rva, d.size as usize) {
            Err(error) => return Err(error),
            Ok(_) => {},
        }
        let image = PlacedImage::of(b);
        let found = match exports(&image, 1) {
            Err(fault) => return Err(pe_detail("invalid PE layout: ", fault.as_str())),
            Ok(found) => found,
        };
        let backed = match &found.target {
            Ok(ExportTarget::Symbol(rva)) => match file_offset(&image, *rva) {
                Ok(_) => true,
                Err(_) => false,
            },
            _ => true,
        };
        ordinal_one(found.base, found.tables, found.target, backed)
    }

    /// Patch a standard PE32+ directory in a validated local header buffer.
    pub fn set_directory(&self, b: &mut [u8], index: usize, d: DataDirectory) -> (result: Result<
        (),
    >)
        ensures
            match directory_place(self@, old(b)@, index as int) {
                Err(fault) => (result matches Err(error) && error@ == fault) && final(b)@ == old(
                    b,
                )@,
                Ok(offset) => result is Ok && final(b)@ == spliced(
                    old(b)@,
                    offset,
                    d.spec_encode(),
                ),
            },
    {
        if self.magic != MAGIC_PE64 || index >= DIRECTORY_COUNT {
            return Err(pe("invalid PE32+ directory mutation"));
        }
        let nt: usize = match nt_offset(b) {
            Err(error) => return Err(error),
            Ok(nt) => nt,
        };
        let offset: usize = nt + NT_PREFIX_SIZE + OPTIONAL64_FIXED + index * DIRECTORY_SIZE;
        crate::pe::layout::write(b, offset, &d)
    }

    /// The IAT rewrite invalidates the original image checksum.
    pub fn clear_checksum(&self, b: &mut [u8]) -> (result: Result<()>)
        ensures
            match checksum_place(self@, old(b)@) {
                Err(fault) => (result matches Err(error) && error@ == fault) && final(b)@ == old(
                    b,
                )@,
                Ok(offset) => result is Ok && final(b)@ == spliced(
                    old(b)@,
                    offset,
                    0u32.spec_encode(),
                ),
            },
    {
        if self.magic != MAGIC_PE64 {
            return Err(pe("expected PE32+"));
        }
        let nt: usize = match nt_offset(b) {
            Err(error) => return Err(error),
            Ok(nt) => nt,
        };
        crate::pe::layout::write(b, nt + NT_PREFIX_SIZE + CHECKSUM_OFFSET, &0u32)
    }
}

impl Record for DataDirectory {
    open spec fn spec_size() -> nat {
        8
    }

    open spec fn spec_encode(self) -> Seq<u8> {
        self.rva.spec_encode() + self.size.spec_encode()
    }

    open spec fn spec_decode(b: Seq<u8>) -> DataDirectory {
        DataDirectory { rva: le32(b, 0), size: le32(b, 4) }
    }

    proof fn encode_has_size(v: DataDirectory) {
    }

    proof fn decode_undoes_encode(v: DataDirectory) {
        <u32 as Record>::decode_undoes_encode(v.rva);
        <u32 as Record>::decode_undoes_encode(v.size);
        let b = v.spec_encode();
        assert(le32(b, 0) == le32(v.rva.spec_encode(), 0));
        assert(le32(b, 4) == le32(v.size.spec_encode(), 0));
    }

    proof fn encode_undoes_decode(b: Seq<u8>) {
        <u32 as Record>::encode_undoes_decode(b.subrange(0, 4));
        <u32 as Record>::encode_undoes_decode(b.subrange(4, 8));
        assert(b.subrange(0, 4) + b.subrange(4, 8) =~= b);
    }

    fn size() -> usize {
        8
    }

    fn decode(b: &[u8]) -> DataDirectory {
        DataDirectory {
            rva: <u32 as Record>::decode(&b[0..4]),
            size: <u32 as Record>::decode(&b[4..8]),
        }
    }

    fn encode(&self) -> Vec<u8> {
        let mut b = self.rva.encode();
        let mut size = self.size.encode();
        b.append(&mut size);
        b
    }
}

/// Whether `b` has the headers of an AMD64 image, by their machine type alone.
pub open spec fn native_gate_of(b: Seq<u8>) -> std::result::Result<(), ErrorView> {
    match nt_offset_of(b) {
        Err(fault) => Err(fault),
        Ok(nt) => if nt + NT_PREFIX_SIZE > b.len() {
            Err(ErrorView::Pe("truncated data"@))
        } else {
            machine_gate_of(le16(b, nt + FILE_HEADER_OFFSET))
        },
    }
}

/// What the headers of a native AMD64 payload decode to.
pub open spec fn native_headers_of(b: Seq<u8>) -> std::result::Result<HeadersView, ErrorView> {
    match native_gate_of(b) {
        Err(fault) => Err(fault),
        Ok(_) => match headers_of(b) {
            Err(fault) => Err(fault),
            Ok(h) => if h.magic != MAGIC_PE64 {
                Err(ErrorView::Pe("expected PE32+"@))
            } else {
                Ok(h)
            },
        },
    }
}

/// Whether `size` bytes at `rva` lie inside the image.
pub open spec fn image_range_of(h: HeadersView, rva: u32, size: int) -> std::result::Result<
    (),
    ErrorView,
> {
    if rva + size > h.image_size {
        Err(ErrorView::Pe("RVA outside image"@))
    } else {
        Ok(())
    }
}

/// The bytes of `b` mapped at `rva`.
pub open spec fn file_range_of(h: HeadersView, b: Seq<u8>, rva: u32, n: int) -> std::result::Result<
    Seq<u8>,
    ErrorView,
> {
    match image_range_of(h, rva, n) {
        Err(fault) => Err(fault),
        Ok(_) => match wide_fault(b) {
            Some(fault) => Err(ErrorView::Pe("invalid PE layout: "@ + fault)),
            None => match file_offset_of(b, rva) {
                Err(fault) => Err(ErrorView::Pe("RVA has no file data: "@ + fault)),
                Ok(offset) => match range_fault(b.len(), offset as int, n) {
                    Some(fault) => Err(fault),
                    None => Ok(b.subrange(offset as int, offset + n)),
                },
            },
        },
    }
}

/// The fault of the first section among `n` whose raw data is not in a file of
/// `len` bytes, behind the headers.
pub open spec fn raw_fault(h: HeadersView, len: nat, n: nat) -> Option<ErrorView>
    decreases n,
{
    if n == 0 {
        None
    } else {
        let s = h.sections[n - 1];
        match raw_fault(h, len, (n - 1) as nat) {
            Some(fault) => Some(fault),
            None => if s.raw_size == 0 {
                None
            } else if s.raw_offset < h.header_size {
                Some(ErrorView::Pe("section overlaps file headers"@))
            } else {
                range_fault(len, s.raw_offset as int, s.raw_size as int)
            },
        }
    }
}

proof fn lemma_first_raw_fault(h: HeadersView, len: nat, n: nat, m: nat)
    requires
        n <= m,
    ensures
        raw_fault(h, len, n) is Some ==> raw_fault(h, len, m) == raw_fault(h, len, n),
    decreases m,
{
    if n < m {
        lemma_first_raw_fault(h, len, n, (m - 1) as nat);
    }
}

/// What the file check answers for headers `h` and file `b`.
pub open spec fn file_check(h: HeadersView, b: Seq<u8>) -> std::result::Result<(), ErrorView> {
    if h.header_size > b.len() {
        Err(ErrorView::Pe("truncated data"@))
    } else {
        match raw_fault(h, b.len(), h.sections.len()) {
            Some(fault) => Err(fault),
            None => if h.characteristics & FILE_IS_DLL == 0 {
                Err(ErrorView::Pe("payload is not a DLL"@))
            } else {
                Ok(())
            },
        }
    }
}

/// What the export lookups of ordinal 1 mean for the payload.
pub open spec fn ordinal_one_of(
    base: std::result::Result<u32, Seq<char>>,
    tables: std::result::Result<(), Seq<char>>,
    target: std::result::Result<ExportTarget, Seq<char>>,
    backed: bool,
) -> std::result::Result<u16, ErrorView> {
    match base {
        Err(fault) => Err(ErrorView::Pe("invalid export directory: "@ + fault)),
        Ok(base) => if base > 1 {
            Err(ErrorView::Pe("payload must export ordinal 1"@))
        } else {
            match tables {
                Err(fault) => Err(ErrorView::Pe("invalid export tables: "@ + fault)),
                Ok(_) => match target {
                    Err(_) => Err(ErrorView::Pe("payload must export ordinal 1"@)),
                    Ok(ExportTarget::Symbol(_)) => if backed {
                        Ok(1u16)
                    } else {
                        Err(ErrorView::Pe("payload export is not backed by file data"@))
                    },
                    Ok(ExportTarget::Forward) => Ok(1u16),
                },
            }
        },
    }
}

/// Accept ordinal 1 from the ordinal base, the state of the export tables,
/// what the ordinal stands for, and whether a symbol is backed by file data.
pub fn ordinal_one(
    base: std::result::Result<u32, String>,
    tables: std::result::Result<(), String>,
    target: std::result::Result<ExportTarget, String>,
    backed: bool,
) -> (result: Result<u16>)
    ensures
        outcome(result) == ordinal_one_of(answer(base), answer(tables), answer(target), backed),
{
    let base: u32 = match base {
        Err(fault) => return Err(pe_detail("invalid export directory: ", fault.as_str())),
        Ok(base) => base,
    };
    if base > 1 {
        return Err(pe("payload must export ordinal 1"));
    }
    match tables {
        Err(fault) => return Err(pe_detail("invalid export tables: ", fault.as_str())),
        Ok(_) => {},
    }
    match target {
        Err(_) => Err(pe("payload must export ordinal 1")),
        Ok(ExportTarget::Symbol(_)) => if backed {
            Ok(1)
        } else {
            Err(pe("payload export is not backed by file data"))
        },
        Ok(ExportTarget::Forward) => Ok(1),
    }
}

/// Whether ordinal 1 of `b`, if it is a symbol, is backed by file data.
pub open spec fn ordinal_one_backed(b: Seq<u8>) -> bool {
    match export_target_of(b, 1) {
        Ok(ExportTarget::Symbol(rva)) => file_offset_of(b, rva) is Ok,
        _ => true,
    }
}

/// Whether the payload `b` with headers `h` exports ordinal 1.
pub open spec fn import_ordinal_of(h: HeadersView, b: Seq<u8>) -> std::result::Result<
    u16,
    ErrorView,
> {
    let d = h.directories[EXPORT_DIRECTORY as int];
    if d.rva == 0 || d.size < EXPORT_DIRECTORY_SIZE {
        Err(ErrorView::Pe("payload has no export directory"@))
    } else {
        match image_range_of(h, d.rva, d.size as int) {
            Err(fault) => Err(fault),
            Ok(_) => match wide_fault(b) {
                Some(fault) => Err(ErrorView::Pe("invalid PE layout: "@ + fault)),
                None => ordinal_one_of(
                    export_base_of(b),
                    export_tables_of(b),
                    export_target_of(b, 1),
                    ordinal_one_backed(b),
                ),
            },
        }
    }
}

/// Where directory `index` of a PE32+ image stands in its headers `b`.
pub open spec fn directory_place(h: HeadersView, b: Seq<u8>, index: int) -> std::result::Result<
    int,
    ErrorView,
> {
    if h.magic != MAGIC_PE64 || index >= DIRECTORY_COUNT {
        Err(ErrorView::Pe("invalid PE32+ directory mutation"@))
    } else {
        match nt_offset_of(b) {
            Err(fault) => Err(fault),
            Ok(nt) => {
                let offset = nt + NT_PREFIX_SIZE + OPTIONAL64_FIXED + index * DIRECTORY_SIZE;
                match range_fault(b.len(), offset, 8) {
                    Some(fault) => Err(fault),
                    None => Ok(offset),
                }
            },
        }
    }
}

/// Where the checksum of a PE32+ image stands in its headers `b`.
pub open spec fn checksum_place(h: HeadersView, b: Seq<u8>) -> std::result::Result<
    int,
    ErrorView,
> {
    if h.magic != MAGIC_PE64 {
        Err(ErrorView::Pe("expected PE32+"@))
    } else {
        match nt_offset_of(b) {
            Err(fault) => Err(fault),
            Ok(nt) => {
                let offset = nt + NT_PREFIX_SIZE + CHECKSUM_OFFSET;
                match range_fault(b.len(), offset, 4) {
                    Some(fault) => Err(fault),
                    None => Ok(offset),
                }
            },
        }
    }
}

/// A fault found among the first sections is the fault of all of them.
proof fn lemma_first_fault(
    sections: Seq<Section>,
    n: nat,
    m: nat,
    header_size: u32,
    image_size: u32,
)
    requires
        n <= m,
    ensures
        sections_fault(sections, n, header_size, image_size) is Some ==> sections_fault(
            sections,
            m,
            header_size,
            image_size,
        ) == sections_fault(sections, n, header_size, image_size),
    decreases m,
{
    if n < m {
        lemma_first_fault(sections, n, (m - 1) as nat, header_size, image_size);
    }
}

/// `c` has the bytes of `b` outside `lo..hi`.
spec fn same_outside(b: Seq<u8>, c: Seq<u8>, lo: int, hi: int) -> bool {
    &&& c.len() == b.len()
    &&& forall|i: int| 0 <= i < b.len() && !(lo <= i < hi) ==> #[trigger] c[i] == b[i]
}

proof fn lemma_same16(b: Seq<u8>, c: Seq<u8>, lo: int, hi: int, o: int)
    requires
        same_outside(b, c, lo, hi),
        0 <= o,
        o + 2 <= b.len(),
        o + 2 <= lo || hi <= o,
    ensures
        le16(c, o) == le16(b, o),
{
    assert(c[o] == b[o] && c[o + 1] == b[o + 1]);
}

proof fn lemma_same32(b: Seq<u8>, c: Seq<u8>, lo: int, hi: int, o: int)
    requires
        same_outside(b, c, lo, hi),
        0 <= o,
        o + 4 <= b.len(),
        o + 4 <= lo || hi <= o,
    ensures
        le32(c, o) == le32(b, o),
{
    assert(c[o] == b[o] && c[o + 1] == b[o + 1] && c[o + 2] == b[o + 2] && c[o + 3] == b[o + 3]);
}

/// Every header field and section of the PE32+ headers in `b` is the same in `c`.
spec fn fields_kept(b: Seq<u8>, c: Seq<u8>) -> bool {
    let nt = le32(b, 60) as int;
    let opt = nt + 24;
    &&& c.len() == b.len()
    &&& le16(c, 0) == le16(b, 0)
    &&& le32(c, 60) == le32(b, 60)
    &&& le32(c, nt) == le32(b, nt)
    &&& le16(c, nt + 4) == le16(b, nt + 4)
    &&& le16(c, nt + 6) == le16(b, nt + 6)
    &&& le16(c, nt + 20) == le16(b, nt + 20)
    &&& le16(c, nt + 22) == le16(b, nt + 22)
    &&& le16(c, opt) == le16(b, opt)
    &&& le32(c, opt + 56) == le32(b, opt + 56)
    &&& le32(c, opt + 60) == le32(b, opt + 60)
    &&& le32(c, opt + 108) == le32(b, opt + 108)
    &&& forall|i: int|
        0 <= i < le16(b, nt + 6) ==> #[trigger] section_at(c, opt + le16(b, nt + 20), i)
            == section_at(b, opt + le16(b, nt + 20), i)
}

proof fn lemma_fields_kept(b: Seq<u8>, c: Seq<u8>, lo: int, hi: int)
    requires
        same_outside(b, c, lo, hi),
        64 <= le32(b, 60),
        240 <= le16(b, le32(b, 60) + 20),
        le32(b, 60) + 24 + le16(b, le32(b, 60) + 20) + le16(b, le32(b, 60) + 6) * 40 <= b.len(),
        lo <= hi,
        (le32(b, 60) + 24 + 64 <= lo && hi <= le32(b, 60) + 24 + 108) || (le32(b, 60) + 24 + 112
            <= lo && hi <= le32(b, 60) + 24 + 240),
    ensures
        fields_kept(b, c),
{
    let nt = le32(b, 60) as int;
    let opt = nt + 24;
    let table = opt + le16(b, nt + 20);
    lemma_same16(b, c, lo, hi, 0);
    lemma_same32(b, c, lo, hi, 60);
    lemma_same32(b, c, lo, hi, nt);
    lemma_same16(b, c, lo, hi, nt + 4);
    lemma_same16(b, c, lo, hi, nt + 6);
    lemma_same16(b, c, lo, hi, nt + 20);
    lemma_same16(b, c, lo, hi, nt + 22);
    lemma_same16(b, c, lo, hi, opt);
    lemma_same32(b, c, lo, hi, opt + 56);
    lemma_same32(b, c, lo, hi, opt + 60);
    lemma_same32(b, c, lo, hi, opt + 108);
    assert forall|i: int| 0 <= i < le16(b, nt + 6) implies #[trigger] section_at(c, table, i)
        == section_at(b, table, i) by {
        lemma_same32(b, c, lo, hi, table + i * 40 + 8);
        lemma_same32(b, c, lo, hi, table + i * 40 + 12);
        lemma_same32(b, c, lo, hi, table + i * 40 + 16);
        lemma_same32(b, c, lo, hi, table + i * 40 + 20);
    }
}

/// `b` decodes to the headers `h`.
#[verifier::opaque]
pub open spec fn decodes_to(b: Seq<u8>, h: HeadersView) -> bool {
    headers_of(b) == Ok::<HeadersView, ErrorView>(h)
}

/// What PE32+ headers that decode say of their bytes.
#[verifier::spinoff_prover]
proof fn lemma_wide_shape(b: Seq<u8>, h: HeadersView)
    requires
        decodes_to(b, h),
        h.magic == MAGIC_PE64,
    ensures
        nt_offset_of(b) == Ok::<usize, ErrorView>(le32(b, 60) as usize),
        64 <= le32(b, 60) <= 1048312,
        240 <= le16(b, le32(b, 60) + 20) <= 4096,
        le32(b, 60) + 24 + le16(b, le32(b, 60) + 20) + le16(b, le32(b, 60) + 6) * 40 <= b.len(),
        h.directories.len() == 16,
        forall|i: int| 0 <= i < 16 ==> #[trigger] h.directories[i] == directory_at(b, 112, i),
{
    reveal(decodes_to);
}

/// Kept fields decode to the same headers, up to the directories.
#[verifier::spinoff_prover]
proof fn lemma_kept_headers(b: Seq<u8>, c: Seq<u8>, h: HeadersView, directories: Seq<DataDirectory>)
    requires
        decodes_to(b, h),
        h.magic == MAGIC_PE64,
        fields_kept(b, c),
        directories.len() == 16,
        forall|i: int| 0 <= i < 16 ==> #[trigger] directory_at(c, 112, i) == directories[i],
    ensures
        decodes_to(c, HeadersView { directories, ..h }),
{
    reveal(decodes_to);
    assert(layout_of(c).sections =~= layout_of(b).sections);
    assert(padded(layout_of(c).directories) =~= directories);
    assert(nt_offset_of(c) == nt_offset_of(b));
}

proof fn lemma_directory_at(b: Seq<u8>, c: Seq<u8>, lo: int, hi: int, i: int)
    requires
        same_outside(b, c, lo, hi),
        64 <= le32(b, 60),
        le32(c, 60) == le32(b, 60),
        0 <= i < 16,
        le32(b, 60) + 264 <= b.len(),
        le32(b, 60) + 136 + i * 8 + 8 <= lo || hi <= le32(b, 60) + 136 + i * 8,
    ensures
        directory_at(c, 112, i) == directory_at(b, 112, i),
{
    lemma_same32(b, c, lo, hi, le32(b, 60) + 136 + i * 8);
    lemma_same32(b, c, lo, hi, le32(b, 60) + 140 + i * 8);
}

/// Replacing a directory in decodable PE32+ headers succeeds, and the result
/// decodes to the same headers with only that directory replaced.
pub proof fn directory_patch_decodes(b: Seq<u8>, h: HeadersView, index: int, d: DataDirectory)
    requires
        headers_of(b) == Ok::<HeadersView, ErrorView>(h),
        h.magic == MAGIC_PE64,
        0 <= index < 16,
    ensures
        directory_place(h, b, index) == Ok::<int, ErrorView>(le32(b, 60) + 136 + index * 8),
        headers_of(spliced(b, le32(b, 60) + 136 + index * 8, d.spec_encode())) == Ok::<
            HeadersView,
            ErrorView,
        >(HeadersView { directories: h.directories.update(index, d), ..h }),
{
    reveal(decodes_to);
    lemma_directory_patch(b, h, index, d);
}

/// [`directory_patch_decodes`], over [`decodes_to`].
#[verifier::spinoff_prover]
pub proof fn lemma_directory_patch(b: Seq<u8>, h: HeadersView, index: int, d: DataDirectory)
    requires
        decodes_to(b, h),
        h.magic == MAGIC_PE64,
        0 <= index < 16,
    ensures
        directory_place(h, b, index) == Ok::<int, ErrorView>(le32(b, 60) + 136 + index * 8),
        decodes_to(
            spliced(b, le32(b, 60) + 136 + index * 8, d.spec_encode()),
            HeadersView { directories: h.directories.update(index, d), ..h },
        ),
{
    lemma_wide_shape(b, h);
    let nt = le32(b, 60) as int;
    let o = nt + 136 + index * 8;
    let c = spliced(b, o, d.spec_encode());
    DataDirectory::encode_has_size(d);
    DataDirectory::decode_undoes_encode(d);
    assert(same_outside(b, c, o, o + 8));
    lemma_fields_kept(b, c, o, o + 8);
    let directories = h.directories.update(index, d);
    assert forall|i: int| 0 <= i < 16 implies #[trigger] directory_at(c, 112, i)
        == directories[i] by {
        if i == index {
            lemma_spliced_directory(b, o, d);
        } else {
            lemma_directory_at(b, c, o, o + 8, i);
            assert(h.directories[i] == directory_at(b, 112, i));
        }
    }
    lemma_kept_headers(b, c, h, directories);
}

proof fn lemma_spliced_directory(b: Seq<u8>, o: int, d: DataDirectory)
    requires
        0 <= o,
        o + 8 <= b.len(),
    ensures
        le32(spliced(b, o, d.spec_encode()), o) == d.rva,
        le32(spliced(b, o, d.spec_encode()), o + 4) == d.size,
{
    DataDirectory::encode_has_size(d);
    DataDirectory::decode_undoes_encode(d);
    let e = d.spec_encode();
    let c = spliced(b, o, e);
    assert(c[o] == e[0] && c[o + 1] == e[1] && c[o + 2] == e[2] && c[o + 3] == e[3]);
    assert(c[o + 4] == e[4] && c[o + 5] == e[5] && c[o + 6] == e[6] && c[o + 7] == e[7]);
    assert(le32(c, o) == le32(e, 0));
    assert(le32(c, o + 4) == le32(e, 4));
}

/// Clearing the checksum of decodable PE32+ headers succeeds, and the result
/// decodes to the same headers.
pub proof fn checksum_patch_decodes(b: Seq<u8>, h: HeadersView)
    requires
        headers_of(b) == Ok::<HeadersView, ErrorView>(h),
        h.magic == MAGIC_PE64,
    ensures
        checksum_place(h, b) == Ok::<int, ErrorView>(le32(b, 60) + 88),
        headers_of(spliced(b, le32(b, 60) + 88, 0u32.spec_encode())) == Ok::<
            HeadersView,
            ErrorView,
        >(h),
{
    reveal(decodes_to);
    lemma_checksum_patch(b, h);
}

/// [`checksum_patch_decodes`], over [`decodes_to`].
#[verifier::spinoff_prover]
pub proof fn lemma_checksum_patch(b: Seq<u8>, h: HeadersView)
    requires
        decodes_to(b, h),
        h.magic == MAGIC_PE64,
    ensures
        checksum_place(h, b) == Ok::<int, ErrorView>(le32(b, 60) + 88),
        decodes_to(spliced(b, le32(b, 60) + 88, 0u32.spec_encode()), h),
{
    lemma_wide_shape(b, h);
    let o = le32(b, 60) + 88;
    let c = spliced(b, o, 0u32.spec_encode());
    assert(same_outside(b, c, o, o + 4));
    lemma_fields_kept(b, c, o, o + 4);
    assert forall|i: int| 0 <= i < 16 implies #[trigger] directory_at(c, 112, i)
        == h.directories[i] by {
        lemma_directory_at(b, c, o, o + 4, i);
        assert(h.directories[i] == directory_at(b, 112, i));
    }
    lemma_kept_headers(b, c, h, h.directories);
}

/// Decoded headers are sane: there are sections and sixteen directories, the
/// headers lie in the image, and every section lies in the image behind the
/// headers and apart from the others.
pub proof fn decoded_headers_are_sane(b: Seq<u8>, h: HeadersView)
    requires
        headers_of(b) == Ok::<HeadersView, ErrorView>(h),
    ensures
        1 <= h.sections.len() <= MAX_SECTIONS,
        h.directories.len() == DIRECTORY_COUNT,
        0 < h.header_size <= h.image_size,
        h.header_size <= MAX_HEADERS,
        h.header_size <= b.len(),
        forall|i: int|
            0 <= i < h.sections.len() ==> h.header_size <= (#[trigger] h.sections[i]).rva
                && h.sections[i].end() <= h.image_size,
        forall|i: int, j: int|
            0 <= i < j < h.sections.len() ==> !(#[trigger] h.sections[j]).overlaps(
                #[trigger] h.sections[i],
            ),
{
    lemma_sections_apart(h.sections, h.sections.len(), h.header_size, h.image_size);
}

/// A prefix of a decodable header region that leaves out any of the declared
/// header bytes does not decode.
pub proof fn headers_need_their_whole_region(b: Seq<u8>, h: HeadersView, length: int)
    requires
        headers_of(b) == Ok::<HeadersView, ErrorView>(h),
        0 <= length < h.header_size,
    ensures
        headers_of(b.take(length)) is Err,
{
    let c = b.take(length);
    if c.len() >= 64 {
        assert(c[0] == b[0] && c[1] == b[1]);
        assert(c[60] == b[60] && c[61] == b[61] && c[62] == b[62] && c[63] == b[63]);
        let nt = le32(b, 60) as int;
        let opt = nt + 24;
        if opt + OPTIONAL64_FIXED <= c.len() {
            assert forall|i: int| 0 <= i < c.len() implies #[trigger] c[i] == b[i] by {
            }
            assert(le32(c, opt + 60) == le32(b, opt + 60)) by {
                assert(c[opt + 60] == b[opt + 60] && c[opt + 61] == b[opt + 61] && c[opt + 62]
                    == b[opt + 62] && c[opt + 63] == b[opt + 63]);
            }
            assert(prefix_fault(c) is Some);
        }
    }
}

/// Decoded headers have the machine and the magic of their bytes.
#[verifier::spinoff_prover]
pub proof fn lemma_decoded_magic(b: Seq<u8>, h: HeadersView)
    requires
        headers_of(b) == Ok::<HeadersView, ErrorView>(h),
    ensures
        h.machine == le16(b, le32(b, 60) + 4),
        h.magic == le16(b, le32(b, 60) + 24),
        h.magic == MAGIC_PE32 || h.magic == MAGIC_PE64,
{
}

} // verus!
