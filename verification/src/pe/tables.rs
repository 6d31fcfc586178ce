//! The tables of an image, wherever they stand.
//!
//! pelite shows a table in place if it is aligned there. One that is not is
//! read field by field, to the same effect.

use crate::pe::layout::{le32, Record};
use crate::pe::view::{
    answer, directory_at, export_at, export_base_of, export_directory_of, export_places,
    export_tables_of, export_target_of, exports_are_aligned, file_offset_of, holds_string,
    layout_fault, layout_of, offset_in, section_at, stored_at, stored_in, table_of,
    view_directories, view_export_base, view_export_tables, view_export_target, view_fields,
    view_file_offset, view_sections, view_wide, wide_fault, wrapped_end, DataDirectory,
    ExportTarget, PlacedImage, Section,
};
use vstd::prelude::*;

verus! {

/// The 32-bit value at `at`, which needs no alignment.
fn value_at(b: &[u8], at: usize) -> (v: u32)
    requires
        at + 4 <= b@.len(),
    ensures
        v == le32(b@, at as int),
{
    let len: usize = b.len();
    assert(at + 4 <= len);
    let range = &b[at..at + 4];
    assert(range@[0] == b@[at as int] && range@[1] == b@[at + 1] && range@[2] == b@[at + 2]
        && range@[3] == b@[at + 3]);
    <u32 as Record>::decode(range)
}

/// The sections of the table at `table`, field by field.
fn read_sections(b: &[u8], table: usize, count: u16) -> (sections: Vec<Section>)
    requires
        table + count * 40 <= b@.len(),
    ensures
        sections@ == Seq::new(count as nat, |i: int| section_at(b@, table as int, i)),
{
    let mut sections: Vec<Section> = Vec::new();
    let mut at: usize = table;
    let len: usize = b.len();
    while sections.len() < count as usize
        invariant
            sections@.len() <= count,
            at == table + sections@.len() * 40,
            table + count * 40 <= b@.len(),
            len == b@.len(),
            forall|i: int|
                0 <= i < sections@.len() ==> #[trigger] sections@[i] == section_at(
                    b@,
                    table as int,
                    i,
                ),
        decreases count - sections@.len(),
    {
        assert(at + 40 <= len);
        sections.push(
            Section {
                virtual_size: value_at(b, at + 8),
                rva: value_at(b, at + 12),
                raw_size: value_at(b, at + 16),
                raw_offset: value_at(b, at + 20),
            },
        );
        at += 40;
    }
    assert(sections@ =~= Seq::new(count as nat, |i: int| section_at(b@, table as int, i)));
    sections
}

/// The section table of an image of either format.
pub(crate) fn sections(image: &PlacedImage) -> (result: std::result::Result<Vec<Section>, String>)
    requires
        image.well_formed(),
    ensures
        match result {
            Ok(sections) => layout_fault(image@) is None && sections@ == layout_of(image@).sections,
            Err(fault) => layout_fault(image@) == Some(fault@),
        },
{
    let fields = match view_fields(image) {
        Err(fault) => return Err(fault),
        Ok(fields) => fields,
    };
    if fields.optional_size % 4 == 0 {
        return view_sections(image);
    }
    let b = image.bytes();
    let table: usize = value_at(b, 60) as usize + 24 + fields.optional_size as usize;
    let sections = read_sections(b, table, fields.section_count);
    assert(sections@ =~= layout_of(image@).sections);
    Ok(sections)
}

/// Where the mapped range of a section ends, modulo the address width.
fn section_end(s: &Section) -> (end: u32)
    ensures
        end == wrapped_end(*s),
{
    s.rva.wrapping_add(
        if s.virtual_size >= s.raw_size {
            s.virtual_size
        } else {
            s.raw_size
        },
    )
}

/// Where the byte at `rva` lies in the file, by the first section that holds it.
#[verifier::spinoff_prover]
fn offset(sections: &[Section], rva: u32) -> (result: std::result::Result<usize, String>)
    ensures
        answer(result) == offset_in(sections@, rva),
{
    let mut i: usize = 0;
    assert(sections@.skip(0) =~= sections@);
    while i < sections.len()
        invariant
            i <= sections@.len(),
            offset_in(sections@, rva) == offset_in(sections@.skip(i as int), rva),
        decreases sections@.len() - i,
    {
        let s = sections[i];
        assert(sections@.skip(i as int)[0] == s);
        assert(sections@.skip(i as int).skip(1) =~= sections@.skip(i + 1));
        if s.rva <= rva && rva < section_end(&s) {
            let within: u32 = rva - s.rva;
            return match s.raw_offset.checked_add(s.raw_size) {
                None => Err("Overflow".to_owned()),
                Some(_) => if within < s.raw_size {
                    Ok((within + s.raw_offset) as usize)
                } else if within < s.virtual_size {
                    Err("ZeroFill".to_owned())
                } else {
                    Err("Bounds".to_owned())
                },
            };
        }
        i += 1;
    }
    Err("Bounds".to_owned())
}

/// Where the byte at `rva` lies in a PE32+ file.
pub(crate) fn file_offset(image: &PlacedImage, rva: u32) -> (result: std::result::Result<
    usize,
    String,
>)
    requires
        image.well_formed(),
    ensures
        answer(result) == file_offset_of(image@, rva),
{
    match view_wide(image) {
        Err(fault) => return Err(fault),
        Ok(_) => {},
    }
    let fields = match view_fields(image) {
        Err(fault) => return Err(fault),
        Ok(fields) => fields,
    };
    if rva < fields.header_size || fields.optional_size % 4 == 0 {
        return view_file_offset(image, rva);
    }
    match sections(image) {
        Err(fault) => Err(fault),
        Ok(sections) => offset(&sections, rva),
    }
}

/// Where `size` bytes at `rva` begin in the file, and where the raw data of the
/// section that holds them ends.
#[verifier::spinoff_prover]
fn stored_section(b: &[u8], s: &Section, rva: u32, size: u64) -> (result: std::result::Result<
    (usize, usize),
    String,
>)
    requires
        s.rva <= rva < wrapped_end(*s),
        size <= 0x4_0000_0000,
    ensures
        match result {
            Ok((at, end)) => stored_in(b@, *s, rva, size as int) == Ok::<(int, int), Seq<char>>(
                (at as int, end as int),
            ) && at + size <= end <= b@.len(),
            Err(fault) => stored_in(b@, *s, rva, size as int) == Err::<(int, int), Seq<char>>(
                fault@,
            ),
        },
{
    let end: u32 = s.raw_offset.wrapping_add(s.raw_size);
    if end < s.raw_offset || end as usize > b.len() {
        return Err("Invalid".to_owned());
    }
    let at: u64 = s.raw_offset as u64 + (rva - s.rva) as u64;
    if at + size <= end as u64 {
        Ok((at as usize, end as usize))
    } else if size > (section_end(s) - rva) as u64 {
        Err("Bounds".to_owned())
    } else {
        Err("ZeroFill".to_owned())
    }
}

/// [`stored_section`] for the first section that holds the address.
#[verifier::spinoff_prover]
fn stored(b: &[u8], sections: &[Section], rva: u32, size: u64) -> (result: std::result::Result<
    (usize, usize),
    String,
>)
    requires
        size <= 0x4_0000_0000,
    ensures
        match result {
            Ok((at, end)) => stored_at(b@, sections@, rva, size as int) == Ok::<
                (int, int),
                Seq<char>,
            >((at as int, end as int)) && at + size <= end <= b@.len(),
            Err(fault) => stored_at(b@, sections@, rva, size as int) == Err::<
                (int, int),
                Seq<char>,
            >(fault@),
        },
{
    let mut i: usize = 0;
    assert(sections@.skip(0) =~= sections@);
    while i < sections.len()
        invariant
            i <= sections@.len(),
            size <= 0x4_0000_0000,
            stored_at(b@, sections@, rva, size as int) == stored_at(
                b@,
                sections@.skip(i as int),
                rva,
                size as int,
            ),
        decreases sections@.len() - i,
    {
        let s = sections[i];
        assert(sections@.skip(i as int)[0] == s);
        assert(sections@.skip(i as int).skip(1) =~= sections@.skip(i + 1));
        if s.rva <= rva && rva < section_end(&s) {
            return stored_section(b, &s, rva, size);
        }
        i += 1;
    }
    Err("Bounds".to_owned())
}

/// The tables that exports are read through.
struct Tables<'a> {
    b: &'a [u8],
    directories: Vec<DataDirectory>,
    sections: Vec<Section>,
}

impl<'a> Tables<'a> {
    /// These are the tables of the PE32+ image `b`.
    #[verifier::opaque]
    spec fn belong_to(self, b: Seq<u8>) -> bool {
        &&& self.b@ == b
        &&& wide_fault(b) is None
        &&& self.directories@ == layout_of(b).directories
        &&& self.sections@ == layout_of(b).sections
    }

    fn of(image: &PlacedImage<'a>) -> (result: std::result::Result<Self, String>)
        requires
            image.well_formed(),
        ensures
            match result {
                Ok(tables) => tables.belong_to(image@),
                Err(fault) => wide_fault(image@) == Some(fault@),
            },
    {
        match view_wide(image) {
            Err(fault) => return Err(fault),
            Ok(_) => {},
        }
        let directories = match view_directories(image) {
            Err(fault) => return Err(fault),
            Ok(directories) => directories,
        };
        let sections = match sections(image) {
            Err(fault) => return Err(fault),
            Ok(sections) => sections,
        };
        let tables = Tables { b: image.bytes(), directories, sections };
        proof {
            reveal(Tables::belong_to);
        }
        Ok(tables)
    }

    proof fn lemma_belong(&self)
        requires
            self.belong_to(self.b@),
        ensures
            wide_fault(self.b@) is None,
            self.sections@ == layout_of(self.b@).sections,
            self.directories@.len() == 0 <==> layout_of(self.b@).directory_count == 0,
            self.directories@.len() > 0 ==> self.directories@[0] == directory_at(self.b@, 112, 0),
    {
        reveal(Tables::belong_to);
    }

    /// Where the export directory lies in the file.
    fn export_directory(&self) -> (result: std::result::Result<usize, String>)
        requires
            self.belong_to(self.b@),
        ensures
            match result {
                Ok(at) => export_directory_of(self.b@) == Ok::<int, Seq<char>>(at as int) && at + 40
                    <= self.b@.len() <= usize::MAX && self.directories@.len() > 0,
                Err(fault) => export_directory_of(self.b@) == Err::<int, Seq<char>>(fault@),
            },
    {
        proof {
            self.lemma_belong();
        }
        let len: usize = self.b.len();
        if self.directories.len() == 0 {
            return Err("Bounds".to_owned());
        }
        let rva: u32 = self.directories[0].rva;
        if rva == 0 {
            Err("Null".to_owned())
        } else if rva % 4 != 0 {
            Err("Misaligned".to_owned())
        } else {
            match stored(self.b, &self.sections, rva, 40) {
                Err(fault) => Err(fault),
                Ok((at, _)) => Ok(at),
            }
        }
    }

    /// Where a table of `count` values of `width` bytes at `rva` begins.
    fn table(&self, rva: u32, count: u32, width: u32) -> (result: std::result::Result<
        Option<usize>,
        String,
    >)
        requires
            self.belong_to(self.b@),
            width == 2 || width == 4,
        ensures
            match result {
                Ok(Some(at)) => table_of(self.b@, rva, count, width as int) == Ok::<
                    Option<int>,
                    Seq<char>,
                >(Some(at as int)) && at + count * width <= self.b@.len() <= usize::MAX,
                Ok(None) => table_of(self.b@, rva, count, width as int) == Ok::<
                    Option<int>,
                    Seq<char>,
                >(None),
                Err(fault) => table_of(self.b@, rva, count, width as int) == Err::<
                    Option<int>,
                    Seq<char>,
                >(fault@),
            },
    {
        proof {
            self.lemma_belong();
        }
        assert(count * width <= 0x4_0000_0000) by (nonlinear_arith)
            requires
                width <= 4,
                count <= 0xffff_ffff,
        ;
        let size: u64 = count as u64 * width as u64;
        if size > usize::MAX as u64 {
            Err("Overflow".to_owned())
        } else if rva == 0 {
            Ok(None)
        } else if rva % width != 0 {
            Err("Misaligned".to_owned())
        } else {
            let len: usize = self.b.len();
            match stored(self.b, &self.sections, rva, size) {
                Err(fault) => Err(fault),
                Ok((at, _)) => Ok(Some(at)),
            }
        }
    }

    fn export_base(&self) -> (result: std::result::Result<u32, String>)
        requires
            self.belong_to(self.b@),
        ensures
            answer(result) == export_base_of(self.b@),
    {
        match self.export_directory() {
            Err(fault) => Err(fault),
            Ok(at) => Ok(value_at(self.b, at + 16)),
        }
    }

    /// Where the export directory and its table of functions lie in the file.
    #[verifier::spinoff_prover]
    fn export_places(&self) -> (result: std::result::Result<(usize, Option<usize>), String>)
        requires
            self.belong_to(self.b@),
        ensures
            match result {
                Ok((at, functions)) => {
                    &&& export_places(self.b@) == Ok::<(int, Option<int>), Seq<char>>(
                        (
                            at as int,
                            match functions {
                                Some(functions) => Some(functions as int),
                                None => None,
                            },
                        ),
                    )
                    &&& at + 40 <= self.b@.len() <= usize::MAX
                    &&& self.directories@.len() > 0
                    &&& functions matches Some(functions) ==> functions + le32(self.b@, at + 20) * 4
                        <= self.b@.len()
                },
                Err(fault) => export_places(self.b@) == Err::<(int, Option<int>), Seq<char>>(
                    fault@,
                ),
            },
    {
        let at: usize = match self.export_directory() {
            Err(fault) => return Err(fault),
            Ok(at) => at,
        };
        let count: u32 = value_at(self.b, at + 20);
        let names: u32 = value_at(self.b, at + 24);
        let functions = match self.table(value_at(self.b, at + 28), count, 4) {
            Err(fault) => return Err(fault),
            Ok(functions) => functions,
        };
        match self.table(value_at(self.b, at + 32), names, 4) {
            Err(fault) => return Err(fault),
            Ok(_) => {},
        }
        match self.table(value_at(self.b, at + 36), names, 2) {
            Err(fault) => Err(fault),
            Ok(_) => Ok((at, functions)),
        }
    }

    fn export_tables(&self) -> (result: std::result::Result<(), String>)
        requires
            self.belong_to(self.b@),
        ensures
            answer(result) == export_tables_of(self.b@),
    {
        match self.export_places() {
            Err(fault) => Err(fault),
            Ok(_) => Ok(()),
        }
    }

    /// What an exported function at `rva` stands for.
    fn export(&self, rva: u32) -> (result: std::result::Result<ExportTarget, String>)
        requires
            self.belong_to(self.b@),
            self.directories@.len() > 0,
        ensures
            answer(result) == export_at(self.b@, rva),
    {
        proof {
            self.lemma_belong();
        }
        if rva == 0 {
            return Err("Null".to_owned());
        }
        let d = self.directories[0];
        if !(d.rva <= rva && rva < d.rva.wrapping_add(d.size)) {
            return Ok(ExportTarget::Symbol(rva));
        }
        match stored(self.b, &self.sections, rva, 0) {
            Err(fault) => Err(fault),
            Ok((at, end)) => if has_string(self.b, at, end) {
                Ok(ExportTarget::Forward)
            } else {
                Err("Encoding".to_owned())
            },
        }
    }

    fn export_target(&self, ordinal: u16) -> (result: std::result::Result<ExportTarget, String>)
        requires
            self.belong_to(self.b@),
        ensures
            answer(result) == export_target_of(self.b@, ordinal),
    {
        match self.export_places() {
            Err(fault) => Err(fault),
            Ok((_, None)) => Err("Bounds".to_owned()),
            Ok((at, Some(functions))) => {
                let base: u32 = value_at(self.b, at + 16);
                if (ordinal as u32) < base || ordinal as u32 - base >= value_at(self.b, at + 20) {
                    return Err("Bounds".to_owned());
                }
                let index: usize = (ordinal as u32 - base) as usize;
                self.export(value_at(self.b, functions + index * 4))
            },
        }
    }
}

/// Whether `b` holds a terminated string from `at` on, in front of `end`.
fn has_string(b: &[u8], at: usize, end: usize) -> (yes: bool)
    requires
        at <= end <= b@.len(),
    ensures
        yes == holds_string(b@, at as int, end as int),
{
    let mut i: usize = at;
    while i < end
        invariant
            at <= i <= end <= b@.len(),
            forall|k: int| at <= k < i ==> #[trigger] b@[k] != 0,
        decreases end - i,
    {
        if b[i] == 0 {
            return true;
        }
        i += 1;
    }
    false
}

/// Whether the exports of a PE32+ image can be read in place.
fn exports_aligned(image: &PlacedImage, tables: &Tables) -> (yes: bool)
    requires
        image.well_formed(),
        tables.belong_to(image@),
    ensures
        yes ==> exports_are_aligned(image@),
        yes ==> directory_at(image@, 112, 0).rva + directory_at(image@, 112, 0).size <= u32::MAX,
{
    proof {
        reveal(Tables::belong_to);
    }
    match view_fields(image) {
        Err(_) => return false,
        Ok(fields) => if fields.optional_size % 4 != 0 {
            return false;
        },
    }
    if tables.directories.len() == 0 {
        return false;
    }
    match tables.directories[0].rva.checked_add(tables.directories[0].size) {
        None => return false,
        Some(_) => {},
    }
    let mut i: usize = 0;
    while i < tables.sections.len()
        invariant
            i <= tables.sections@.len(),
            forall|k: int|
                0 <= k < i ==> (#[trigger] tables.sections@[k]).raw_offset % 4
                    == tables.sections@[k].rva % 4,
        decreases tables.sections@.len() - i,
    {
        if tables.sections[i].raw_offset % 4 != tables.sections[i].rva % 4 {
            return false;
        }
        i += 1;
    }
    true
}

/// What there is to know of an ordinal of a PE32+ image.
pub(crate) struct Exports {
    /// The ordinal base.
    pub base: std::result::Result<u32, String>,
    /// Whether the export tables can be read.
    pub tables: std::result::Result<(), String>,
    /// What the ordinal stands for.
    pub target: std::result::Result<ExportTarget, String>,
}

/// Look an ordinal up in a PE32+ image.
pub(crate) fn exports(image: &PlacedImage, ordinal: u16) -> (result: std::result::Result<
    Exports,
    String,
>)
    requires
        image.well_formed(),
    ensures
        match result {
            Ok(found) => {
                &&& wide_fault(image@) is None
                &&& answer(found.base) == export_base_of(image@)
                &&& answer(found.tables) == export_tables_of(image@)
                &&& answer(found.target) == export_target_of(image@, ordinal)
            },
            Err(fault) => wide_fault(image@) == Some(fault@),
        },
{
    let tables = match Tables::of(image) {
        Err(fault) => return Err(fault),
        Ok(tables) => tables,
    };
    proof {
        reveal(Tables::belong_to);
    }
    if exports_aligned(image, &tables) {
        Ok(
            Exports {
                base: view_export_base(image),
                tables: view_export_tables(image),
                target: view_export_target(image, ordinal),
            },
        )
    } else {
        Ok(
            Exports {
                base: tables.export_base(),
                tables: tables.export_tables(),
                target: tables.export_target(ordinal),
            },
        )
    }
}

} // verus!
