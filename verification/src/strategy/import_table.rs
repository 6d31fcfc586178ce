//! Prepare IAT imports, commit PE/CLR changes, and retain allocations by outcome.
//!
//! The patch module owns page protection and verified byte rollback. This
//! module owns managed-image policy and the lifetime of the import block.

use crate::error::{outcome, pe, viewed, Error, ErrorView, Result};
use crate::pe::convert::{convert_pe32_to_pe64, widening_of};
use crate::pe::headers::{
    checksum_place, decodes_to, directory_place, headers_of, image_range_of, lemma_checksum_patch,
    lemma_directory_patch, Headers, HeadersView,
};
use crate::pe::imports::{
    build_imports, imports_fault, imports_of, ImportDescriptor, MAX_IMPORTS,
};
use crate::pe::layout::{
    le32, spliced, u32_at, Record, MACHINE_AMD64, MACHINE_I386, MAGIC_PE32, MAGIC_PE64,
};
use crate::pe::view::{DataDirectory, Section};
use crate::strategy::Strategy;
use vstd::prelude::*;

verus! {

pub const IMPORT_DIRECTORY: usize = 1;

pub const BOUND_IMPORT_DIRECTORY: usize = 11;

pub const IAT_DIRECTORY: usize = 12;

pub const CLR_DIRECTORY: usize = 14;

/// The least size of a CLR header.
pub const CLR_HEADER_SIZE: u32 = 72;

/// The bytes of a CLR header through its flags.
pub const CLR_PREFIX_SIZE: usize = 20;

/// The offset of the flags in a CLR header.
pub const CLR_FLAGS_OFFSET: usize = 16;

pub const COR_FLAG_ILONLY: u32 = 0x1;

pub const COR_FLAG_32BIT_REQUIRED: u32 = 0x2;

/// The CLR header of a main image: its remote address and its flags.
#[derive(Debug, Clone, Copy, PartialEq, Eq, Structural)]
pub struct ClrHeader {
    pub va: usize,
    pub flags: u32,
}

/// Where the CLR header of an image at `base` lies; nothing for native images.
pub open spec fn clr_address_of(base: usize, h: HeadersView) -> std::result::Result<
    Option<usize>,
    ErrorView,
> {
    let d = h.directories[CLR_DIRECTORY as int];
    if d.rva == 0 {
        if d.size != 0 {
            Err(ErrorView::Pe("CLR size without RVA"@))
        } else {
            Ok(None)
        }
    } else if d.size < CLR_HEADER_SIZE {
        Err(ErrorView::Pe("truncated CLR directory"@))
    } else {
        match image_range_of(h, d.rva, d.size as int) {
            Err(fault) => Err(fault),
            Ok(_) => if base + d.rva > usize::MAX {
                Err(ErrorView::Pe("CLR address overflow"@))
            } else {
                Ok(Some((base + d.rva) as usize))
            },
        }
    }
}

/// Where to read the CLR header of an image at `base`.
pub fn clr_address(base: usize, headers: &Headers) -> (result: Result<Option<usize>>)
    ensures
        outcome(result) == clr_address_of(base, headers@),
{
    let d = headers.directories[CLR_DIRECTORY];
    if d.rva == 0 {
        if d.size != 0 {
            return Err(pe("CLR size without RVA"));
        }
        return Ok(None);
    }
    if d.size < CLR_HEADER_SIZE {
        return Err(pe("truncated CLR directory"));
    }
    match headers.image_range(d.rva, d.size as usize) {
        Err(error) => return Err(error),
        Ok(_) => {},
    }
    match headers.image_range(d.rva, CLR_PREFIX_SIZE) {
        Err(error) => return Err(error),
        Ok(_) => {},
    }
    match base.checked_add(d.rva as usize) {
        None => Err(pe("CLR address overflow")),
        Some(va) => Ok(Some(va)),
    }
}

/// The CLR header that `bytes`, read at `va`, begin.
pub open spec fn clr_header_of(va: usize, h: HeadersView, bytes: Seq<u8>) -> std::result::Result<
    ClrHeader,
    ErrorView,
> {
    let size = le32(bytes, 0);
    if bytes.len() < CLR_PREFIX_SIZE {
        Err(ErrorView::Pe("truncated data"@))
    } else if size < CLR_HEADER_SIZE || size > h.directories[CLR_DIRECTORY as int].size {
        Err(ErrorView::Pe("invalid CLR header size"@))
    } else {
        Ok(ClrHeader { va, flags: le32(bytes, CLR_FLAGS_OFFSET as int) })
    }
}

/// Decode the CLR header from the bytes that were read at `va`.
pub fn clr_header(va: usize, headers: &Headers, bytes: &[u8]) -> (result: Result<ClrHeader>)
    ensures
        outcome(result) == clr_header_of(va, headers@, bytes@),
{
    if bytes.len() < CLR_PREFIX_SIZE {
        return Err(pe("truncated data"));
    }
    let size: u32 = match u32_at(bytes, 0) {
        Err(error) => return Err(error),
        Ok(size) => size,
    };
    if size < CLR_HEADER_SIZE || size > headers.directories[CLR_DIRECTORY].size {
        return Err(pe("invalid CLR header size"));
    }
    match u32_at(bytes, CLR_FLAGS_OFFSET) {
        Err(error) => Err(error),
        Ok(flags) => Ok(ClrHeader { va, flags }),
    }
}

/// A refusal of the import-table strategy.
pub open spec fn refusal(reason: Seq<char>) -> ErrorView {
    ErrorView::StrategyUnavailable { strategy: Strategy::ImportTableHijack, reason }
}

fn refuse(reason: &'static str) -> (error: Error)
    ensures
        error@ == refusal(reason@),
{
    Error::StrategyUnavailable { strategy: Strategy::ImportTableHijack, reason }
}

/// The headers that the imports are planned against, and the header bytes
/// that the plan changes.
#[derive(Debug)]
pub struct Model {
    pub headers: Headers,
    pub patched: Vec<u8>,
}

/// The mathematical content of a [`Model`].
#[verifier::ext_equal]
pub struct ModelView {
    pub headers: HeadersView,
    pub patched: Seq<u8>,
}

impl View for Model {
    type V = ModelView;

    open spec fn view(&self) -> ModelView {
        ModelView { headers: self.headers@, patched: self.patched@ }
    }
}

/// Why the managed policy refuses an image.
pub open spec fn policy_fault(h: HeadersView, clr: Option<ClrHeader>) -> Option<ErrorView> {
    if h.magic == MAGIC_PE32 {
        match clr {
            None => Some(refusal("PE32 targets need a CLR header (managed AnyCPU)"@)),
            Some(clr) => if clr.flags & COR_FLAG_ILONLY == 0 {
                Some(refusal("mixed-mode 32-bit managed targets are unsupported"@))
            } else if clr.flags & COR_FLAG_32BIT_REQUIRED != 0 {
                Some(refusal("32BITREQUIRED managed targets are unsupported"@))
            } else if h.machine != MACHINE_I386 {
                Some(ErrorView::UnsupportedMachine(h.machine))
            } else {
                None
            },
        }
    } else if h.machine != MACHINE_AMD64 {
        Some(ErrorView::UnsupportedMachine(h.machine))
    } else {
        match clr {
            Some(clr) => if clr.flags & COR_FLAG_32BIT_REQUIRED != 0 {
                Some(refusal("32BITREQUIRED managed targets are unsupported"@))
            } else {
                None
            },
            None => None,
        }
    }
}

/// The headers of a widened image without its 32-bit import table.
pub open spec fn without_imports(h: HeadersView) -> HeadersView {
    HeadersView {
        directories: h.directories.update(
            IMPORT_DIRECTORY as int,
            DataDirectory { rva: 0, size: 0 },
        ),
        ..h
    }
}

/// What the imports of the image with headers `h` and header bytes `original`
/// are planned against.
pub open spec fn model_of(h: HeadersView, original: Seq<u8>, clr: Option<ClrHeader>) -> std::result::Result<
    ModelView,
    ErrorView,
> {
    match policy_fault(h, clr) {
        Some(fault) => Err(fault),
        None => if h.magic == MAGIC_PE32 {
            match widening_of(original) {
                Err(fault) => Err(fault),
                Ok(widened) => match headers_of(widened) {
                    Err(fault) => Err(fault),
                    Ok(wide) => Ok(
                        ModelView { headers: without_imports(wide), patched: widened },
                    ),
                },
            }
        } else {
            Ok(ModelView { headers: h, patched: original })
        },
    }
}

impl Model {
    /// Plan against widened header bytes, which decode to `headers`.
    ///
    /// The PE32-era import table carries 32-bit thunks; the widened image must
    /// not expose it to the 64-bit loader. Detours zeroes the import directory
    /// for converted ILONLY images as well.
    pub fn widened(bytes: Vec<u8>, headers: Headers) -> (model: Self)
        ensures
            model@ == (ModelView { headers: without_imports(headers@), patched: bytes@ }),
    {
        let mut headers = headers;
        headers.directories[IMPORT_DIRECTORY] = DataDirectory { rva: 0, size: 0 };
        Model { headers, patched: bytes }
    }
}

/// Check the managed policy alone.
pub fn check_policy(headers: &Headers, clr: Option<ClrHeader>) -> (result: Result<()>)
    ensures
        match policy_fault(headers@, clr) {
            Some(fault) => result matches Err(error) && error@ == fault,
            None => result is Ok,
        },
{
    if headers.magic == MAGIC_PE32 {
        let flags: u32 = match clr {
            None => return Err(refuse("PE32 targets need a CLR header (managed AnyCPU)")),
            Some(clr) => clr.flags,
        };
        if flags & COR_FLAG_ILONLY == 0 {
            return Err(refuse("mixed-mode 32-bit managed targets are unsupported"));
        }
        if flags & COR_FLAG_32BIT_REQUIRED != 0 {
            return Err(refuse("32BITREQUIRED managed targets are unsupported"));
        }
        if headers.machine != MACHINE_I386 {
            return Err(Error::UnsupportedMachine(headers.machine));
        }
        return Ok(());
    }
    if headers.machine != MACHINE_AMD64 {
        return Err(Error::UnsupportedMachine(headers.machine));
    }
    match clr {
        Some(clr) => {
            if clr.flags & COR_FLAG_32BIT_REQUIRED != 0 {
                return Err(refuse("32BITREQUIRED managed targets are unsupported"));
            }
        },
        None => {},
    }
    Ok(())
}

/// Choose what the imports are planned against.
///
/// Detours parity: a neutral (AnyCPU) PE32 main image inside an AMD64 process
/// is widened to PE32+ in memory when it is pure-IL managed and does not
/// require 32 bits. Everything else must already be native AMD64; mixed-mode
/// 32-bit MSIL and 32BITREQUIRED managed images are refused before any
/// mutation.
pub fn select_model(headers: Headers, original: &Vec<u8>, clr: Option<ClrHeader>) -> (result: Result<
    Model,
>)
    ensures
        viewed(result) == model_of(headers@, original@, clr),
{
    match check_policy(&headers, clr) {
        Err(error) => return Err(error),
        Ok(_) => {},
    }
    if headers.magic == MAGIC_PE32 {
        let widened = match convert_pe32_to_pe64(original) {
            Err(error) => return Err(error),
            Ok(widened) => widened,
        };
        return match Headers::parse_remote(&widened) {
            Err(error) => Err(error),
            Ok(wide) => Ok(Model::widened(widened, wide)),
        };
    }
    let mut patched: Vec<u8> = Vec::new();
    patched.extend_from_slice(original);
    assert(patched@ =~= original@);
    Ok(Model { headers, patched })
}

/// What the walk over an import table asks for next.
#[derive(Debug, Clone, Copy, PartialEq, Eq, Structural)]
pub enum WalkStep {
    /// Read a descriptor at this address.
    Read(usize),
    /// The table has ended.
    Done,
}

/// A bounded walk over the import descriptors of a mapped image.
///
/// Like Detours, descriptors are copied and the loader resolves names and
/// thunks; the walk reads nothing behind a descriptor.
#[derive(Debug)]
pub struct ImportWalk {
    pub base: usize,
    pub rva: u32,
    /// How many bytes of the table may be read.
    pub bound: usize,
    pub found: Vec<ImportDescriptor>,
    pub done: bool,
}

/// The mathematical content of an [`ImportWalk`].
#[verifier::ext_equal]
pub struct ImportWalkView {
    pub base: usize,
    pub rva: u32,
    pub bound: usize,
    pub found: Seq<ImportDescriptor>,
    pub done: bool,
}

impl View for ImportWalk {
    type V = ImportWalkView;

    open spec fn view(&self) -> ImportWalkView {
        ImportWalkView {
            base: self.base,
            rva: self.rva,
            bound: self.bound,
            found: self.found@,
            done: self.done,
        }
    }
}

/// How many bytes there are from `rva` to the end of the image.
pub open spec fn available(h: HeadersView, rva: u32) -> int {
    if rva <= h.image_size {
        h.image_size - rva
    } else {
        0
    }
}

/// How many bytes of the import table may be read. A directory without a size
/// extends to the end of the image.
pub open spec fn import_bound(h: HeadersView, d: DataDirectory) -> int {
    if d.size == 0 || d.size > available(h, d.rva) {
        available(h, d.rva)
    } else {
        d.size as int
    }
}

/// Where the walk over the imports of an image at `base` begins.
pub open spec fn walk_start_of(base: usize, h: HeadersView) -> std::result::Result<
    ImportWalkView,
    ErrorView,
> {
    let d = h.directories[IMPORT_DIRECTORY as int];
    let walk = ImportWalkView {
        base,
        rva: d.rva,
        bound: import_bound(h, d) as usize,
        found: Seq::empty(),
        done: d.rva == 0,
    };
    if d.rva == 0 {
        if d.size == 0 {
            Ok(walk)
        } else {
            Err(ErrorView::Pe("import size without RVA"@))
        }
    } else if d.size != 0 && image_range_of(h, d.rva, d.size as int) is Err {
        Err(ErrorView::Pe("RVA outside image"@))
    } else {
        Ok(walk)
    }
}

impl ImportWalkView {
    /// Where the next descriptor lies, or why the walk cannot go on.
    pub open spec fn step_of(self) -> std::result::Result<WalkStep, ErrorView> {
        let offset = self.found.len() * 20;
        if self.done {
            Ok(WalkStep::Done)
        } else if self.found.len() > MAX_IMPORTS {
            Err(ErrorView::Pe("too many imports"@))
        } else if offset + 20 > self.bound {
            Err(ErrorView::Pe("unterminated or truncated import table"@))
        } else if self.base + self.rva + offset > usize::MAX {
            Err(ErrorView::Pe("import address overflow"@))
        } else {
            Ok(WalkStep::Read((self.base + self.rva + offset) as usize))
        }
    }

    /// The walk after the bytes of a descriptor. One without a name ends it.
    pub open spec fn received_of(self, bytes: Seq<u8>) -> std::result::Result<
        ImportWalkView,
        ErrorView,
    > {
        let descriptor = ImportDescriptor::spec_decode(bytes.take(20));
        if bytes.len() < 20 {
            Err(ErrorView::Pe("truncated data"@))
        } else if descriptor.name == 0 {
            Ok(ImportWalkView { done: true, ..self })
        } else {
            Ok(ImportWalkView { found: self.found.push(descriptor), ..self })
        }
    }
}

impl ImportWalk {
    /// Begin at the import directory of an image at `base`.
    pub fn start(base: usize, headers: &Headers) -> (result: Result<Self>)
        ensures
            viewed(result) == walk_start_of(base, headers@),
    {
        let d = headers.directories[IMPORT_DIRECTORY];
        if d.rva == 0 && d.size != 0 {
            return Err(pe("import size without RVA"));
        }
        if d.rva != 0 && d.size != 0 {
            match headers.image_range(d.rva, d.size as usize) {
                Err(error) => return Err(error),
                Ok(_) => {},
            }
        }
        let available: usize = if d.rva <= headers.image_size {
            (headers.image_size - d.rva) as usize
        } else {
            0
        };
        let bound: usize = if d.size == 0 || d.size as usize > available {
            available
        } else {
            d.size as usize
        };
        Ok(ImportWalk { base, rva: d.rva, bound, found: Vec::new(), done: d.rva == 0 })
    }

    /// Where to read the next descriptor.
    pub fn step(&self) -> (result: Result<WalkStep>)
        ensures
            outcome(result) == self@.step_of(),
    {
        if self.done {
            return Ok(WalkStep::Done);
        }
        if self.found.len() > MAX_IMPORTS {
            return Err(pe("too many imports"));
        }
        let offset: usize = self.found.len() * 20;
        if offset + 20 > self.bound {
            return Err(pe("unterminated or truncated import table"));
        }
        match self.base.checked_add(self.rva as usize) {
            None => Err(pe("import address overflow")),
            Some(table) => match table.checked_add(offset) {
                None => Err(pe("import address overflow")),
                Some(address) => Ok(WalkStep::Read(address)),
            },
        }
    }

    /// Take the bytes of the descriptor.
    pub fn received(&mut self, bytes: &[u8]) -> (result: Result<()>)
        ensures
            match old(self)@.received_of(bytes@) {
                Err(fault) => (result matches Err(error) && error@ == fault) && final(self)@
                    == old(self)@,
                Ok(next) => result is Ok && final(self)@ == next,
            },
    {
        let descriptor = match ImportDescriptor::parse(bytes) {
            Err(error) => return Err(error),
            Ok(descriptor) => descriptor,
        };
        if descriptor.name == 0 {
            self.done = true;
        } else {
            self.found.push(descriptor);
        }
        Ok(())
    }

    /// The descriptors in front of the one that ended the table.
    pub fn finish(self) -> (found: Vec<ImportDescriptor>)
        ensures
            found@ == self@.found,
    {
        self.found
    }
}

impl ImportWalkView {
    /// How the walk ends from here, when every read is answered in turn.
    pub open spec fn run(
        self,
        reads: spec_fn(usize) -> std::result::Result<Seq<u8>, ErrorView>,
    ) -> std::result::Result<ImportWalkView, ErrorView>
        decreases !self.done as int, MAX_IMPORTS + 1 - self.found.len(),
    {
        match self.step_of() {
            Err(fault) => Err(fault),
            Ok(WalkStep::Done) => Ok(self),
            Ok(WalkStep::Read(address)) => match reads(address) {
                Err(fault) => Err(fault),
                Ok(bytes) => match self.received_of(bytes) {
                    Err(fault) => Err(fault),
                    Ok(next) => next.run(reads),
                },
            },
        }
    }

    /// Where descriptor number `i` lies.
    pub open spec fn place_of(self, i: int) -> int {
        self.base + self.rva + i * 20
    }

    /// Descriptor number `i`, as it is read.
    pub open spec fn descriptor_at(
        self,
        reads: spec_fn(usize) -> std::result::Result<Seq<u8>, ErrorView>,
        i: int,
    ) -> ImportDescriptor {
        ImportDescriptor::spec_decode(reads(self.place_of(i) as usize)->Ok_0.take(20))
    }

    /// Descriptor number `i` can be read.
    pub open spec fn is_readable(
        self,
        reads: spec_fn(usize) -> std::result::Result<Seq<u8>, ErrorView>,
        i: int,
    ) -> bool {
        reads(self.place_of(i) as usize) matches Ok(bytes) && bytes.len() >= 20
    }

    /// Descriptor number `n` is the first one without a name. It lies within
    /// the bound of the table, the address range and the import limit, and can
    /// be read like all in front of it.
    pub open spec fn ends_at(
        self,
        reads: spec_fn(usize) -> std::result::Result<Seq<u8>, ErrorView>,
        n: int,
    ) -> bool {
        &&& 0 <= n <= MAX_IMPORTS
        &&& n * 20 + 20 <= self.bound
        &&& self.place_of(n) <= usize::MAX
        &&& forall|i: int| 0 <= i <= n ==> #[trigger] self.is_readable(reads, i)
        &&& forall|i: int| 0 <= i < n ==> (#[trigger] self.descriptor_at(reads, i)).name != 0
        &&& self.descriptor_at(reads, n).name == 0
    }

    /// The walk behind the first `n` descriptors.
    pub open spec fn behind(
        self,
        reads: spec_fn(usize) -> std::result::Result<Seq<u8>, ErrorView>,
        n: int,
    ) -> ImportWalkView {
        ImportWalkView { found: Seq::new(n as nat, |i: int| self.descriptor_at(reads, i)), ..self }
    }
}

proof fn lemma_walk_ends(
    walk: ImportWalkView,
    reads: spec_fn(usize) -> std::result::Result<Seq<u8>, ErrorView>,
    k: int,
    n: int,
)
    requires
        !walk.done,
        walk.ends_at(reads, n),
        0 <= k <= n,
    ensures
        walk.behind(reads, k).run(reads) == Ok::<ImportWalkView, ErrorView>(
            ImportWalkView { done: true, ..walk.behind(reads, n) },
        ),
    decreases n - k,
{
    reveal_with_fuel(ImportWalkView::run, 2);
    assert(walk.is_readable(reads, k));
    if k < n {
        assert(walk.descriptor_at(reads, k).name != 0);
        assert(walk.behind(reads, k).found.push(walk.descriptor_at(reads, k)) =~= walk.behind(
            reads,
            k + 1,
        ).found);
        lemma_walk_ends(walk, reads, k + 1, n);
    }
}

proof fn lemma_walk_fails(
    walk: ImportWalkView,
    reads: spec_fn(usize) -> std::result::Result<Seq<u8>, ErrorView>,
    k: int,
)
    requires
        !walk.done,
        forall|n: int| !#[trigger] walk.ends_at(reads, n),
        0 <= k <= MAX_IMPORTS + 1,
        forall|i: int| 0 <= i < k ==> #[trigger] walk.is_readable(reads, i),
        forall|i: int| 0 <= i < k ==> (#[trigger] walk.descriptor_at(reads, i)).name != 0,
    ensures
        walk.behind(reads, k).run(reads) is Err,
    decreases MAX_IMPORTS + 1 - k,
{
    let at = walk.behind(reads, k);
    if at.step_of() is Ok && walk.is_readable(reads, k) {
        if walk.descriptor_at(reads, k).name == 0 {
            assert(walk.ends_at(reads, k));
        } else {
            assert(at.found.push(walk.descriptor_at(reads, k)) =~= walk.behind(reads, k + 1).found);
            lemma_walk_fails(walk, reads, k + 1);
        }
    }
}

/// The walk over the imports of an image ends with exactly the descriptors in
/// front of the first one without a name. It fails when there is no such
/// descriptor within the bound of the table and the import limit. An image
/// without an import directory has no imports.
pub proof fn walks_find_the_whole_table(
    base: usize,
    h: HeadersView,
    walk: ImportWalkView,
    reads: spec_fn(usize) -> std::result::Result<Seq<u8>, ErrorView>,
)
    requires
        walk_start_of(base, h) == Ok::<ImportWalkView, ErrorView>(walk),
    ensures
        h.directories[IMPORT_DIRECTORY as int].rva == 0 ==> walk.run(reads) == Ok::<
            ImportWalkView,
            ErrorView,
        >(walk) && walk.found.len() == 0,
        h.directories[IMPORT_DIRECTORY as int].rva != 0 ==> {
            &&& forall|n: int| #[trigger]
                walk.ends_at(reads, n) ==> walk.run(reads) == Ok::<ImportWalkView, ErrorView>(
                    ImportWalkView { done: true, ..walk.behind(reads, n) },
                )
            &&& (forall|n: int| !#[trigger] walk.ends_at(reads, n)) ==> walk.run(reads) is Err
        },
{
    if !walk.done {
        assert(walk.behind(reads, 0) =~= walk);
        assert forall|n: int| #[trigger] walk.ends_at(reads, n) implies walk.run(reads) == Ok::<
            ImportWalkView,
            ErrorView,
        >(ImportWalkView { done: true, ..walk.behind(reads, n) }) by {
            lemma_walk_ends(walk, reads, 0, n);
        }
        if forall|n: int| !#[trigger] walk.ends_at(reads, n) {
            lemma_walk_fails(walk, reads, 0);
        }
    }
}

/// A walk in progress: it stays within the image and the import limit.
pub open spec fn walk_is_bounded(walk: ImportWalkView, h: HeadersView) -> bool {
    &&& walk.rva + walk.bound <= h.image_size || walk.bound == 0
    &&& walk.found.len() <= MAX_IMPORTS + 1
    &&& walk.done ==> walk.found.len() <= MAX_IMPORTS
}

/// A walk begins within its bounds and every answered read keeps them. Each
/// descriptor that it asks for lies inside the image, and the descriptors of a
/// finished walk are few enough for the import builder.
pub proof fn import_walk_stays_bounded(
    base: usize,
    h: HeadersView,
    walk: ImportWalkView,
    bytes: Seq<u8>,
)
    ensures
        walk_start_of(base, h) matches Ok(start) ==> walk_is_bounded(start, h),
        walk_is_bounded(walk, h) && (walk.step_of() matches Ok(WalkStep::Read(address))) ==> {
            &&& walk.step_of() matches Ok(WalkStep::Read(address)) && walk.base + walk.rva
                <= address && address + 20 <= walk.base + h.image_size
            &&& walk.received_of(bytes) matches Ok(next) ==> walk_is_bounded(next, h)
        },
{
}

/// An import block for a place in the target.
#[derive(Debug)]
pub struct ImportBlock {
    pub rva: u32,
    pub bytes: Vec<u8>,
}

/// The mathematical content of an [`ImportBlock`].
#[verifier::ext_equal]
pub struct ImportBlockView {
    pub rva: u32,
    pub bytes: Seq<u8>,
}

impl View for ImportBlock {
    type V = ImportBlockView;

    open spec fn view(&self) -> ImportBlockView {
        ImportBlockView { rva: self.rva, bytes: self.bytes@ }
    }
}

/// The import block for an allocation at `address` behind the image at `base`.
pub open spec fn import_block_of(
    base: usize,
    address: usize,
    old: Seq<ImportDescriptor>,
    path: Seq<u8>,
    ordinal: u16,
) -> std::result::Result<ImportBlockView, ErrorView> {
    if address < base {
        Err(ErrorView::Pe("allocation below image"@))
    } else if address - base > u32::MAX {
        Err(ErrorView::Pe("allocation RVA overflow"@))
    } else {
        let rva = (address - base) as u32;
        match imports_fault(old, path, rva) {
            Some(fault) => Err(fault),
            None => Ok(ImportBlockView { rva, bytes: imports_of(old, path, ordinal, rva) }),
        }
    }
}

/// Build the import block for an allocation at `address`.
pub fn import_block(
    base: usize,
    address: usize,
    old: &[ImportDescriptor],
    path: &[u8],
    ordinal: u16,
) -> (result: Result<ImportBlock>)
    ensures
        viewed(result) == import_block_of(base, address, old@, path@, ordinal),
{
    if address < base {
        return Err(pe("allocation below image"));
    }
    let distance: usize = address - base;
    if distance > u32::MAX as usize {
        return Err(pe("allocation RVA overflow"));
    }
    let rva: u32 = distance as u32;
    match build_imports(old, path, ordinal, rva) {
        Err(error) => Err(error),
        Ok(bytes) => Ok(ImportBlock { rva, bytes }),
    }
}

/// The first section whose raw data holds `rva`.
pub open spec fn first_holding(sections: Seq<Section>, rva: u32) -> Option<Section>
    decreases sections.len(),
{
    if sections.len() == 0 {
        None
    } else if sections[0].rva <= rva < sections[0].rva + sections[0].raw_size {
        Some(sections[0])
    } else {
        first_holding(sections.skip(1), rva)
    }
}

/// The IAT directory of an image that had none: the section of the old import
/// table, or else the whole import block.
pub open spec fn iat_fallback(h: HeadersView, block: DataDirectory) -> DataDirectory {
    let old = h.directories[IMPORT_DIRECTORY as int];
    match first_holding(h.sections, old.rva) {
        Some(section) => if old.rva != 0 {
            DataDirectory { rva: section.rva, size: section.raw_size }
        } else {
            block
        },
        None => block,
    }
}

/// The IAT directory that the image gets, if its own cannot stay.
pub open spec fn iat_choice(h: HeadersView, block: DataDirectory) -> std::result::Result<
    Option<DataDirectory>,
    ErrorView,
> {
    let iat = h.directories[IAT_DIRECTORY as int];
    if iat.rva == 0 {
        if iat.size != 0 {
            Err(ErrorView::Pe("IAT size without RVA"@))
        } else {
            Ok(Some(iat_fallback(h, block)))
        }
    } else {
        match image_range_of(h, iat.rva, iat.size as int) {
            Err(fault) => Err(fault),
            Ok(_) => Ok(None),
        }
    }
}

/// `b` with directory `index` replaced.
pub open spec fn with_directory(h: HeadersView, b: Seq<u8>, index: int, d: DataDirectory) -> std::result::Result<
    Seq<u8>,
    ErrorView,
> {
    match directory_place(h, b, index) {
        Err(fault) => Err(fault),
        Ok(offset) => Ok(spliced(b, offset, d.spec_encode())),
    }
}

/// `b` with its checksum cleared.
pub open spec fn without_checksum(h: HeadersView, b: Seq<u8>) -> std::result::Result<
    Seq<u8>,
    ErrorView,
> {
    match checksum_place(h, b) {
        Err(fault) => Err(fault),
        Ok(offset) => Ok(spliced(b, offset, 0u32.spec_encode())),
    }
}

/// `b` with the IAT directory that the image gets.
pub open spec fn with_iat(h: HeadersView, b: Seq<u8>, block: DataDirectory) -> std::result::Result<
    Seq<u8>,
    ErrorView,
> {
    match iat_choice(h, block) {
        Err(fault) => Err(fault),
        Ok(None) => Ok(b),
        Ok(Some(iat)) => with_directory(h, b, IAT_DIRECTORY as int, iat),
    }
}

/// The header bytes that import `block`: the import directory names it, the
/// bound imports go, the IAT directory covers it, and the checksum is cleared.
pub open spec fn redirected(h: HeadersView, b: Seq<u8>, block: DataDirectory) -> std::result::Result<
    Seq<u8>,
    ErrorView,
> {
    match with_directory(h, b, IMPORT_DIRECTORY as int, block) {
        Err(fault) => Err(fault),
        Ok(named) => match with_directory(
            h,
            named,
            BOUND_IMPORT_DIRECTORY as int,
            DataDirectory { rva: 0, size: 0 },
        ) {
            Err(fault) => Err(fault),
            Ok(unbound) => match with_iat(h, unbound, block) {
                Err(fault) => Err(fault),
                Ok(covered) => without_checksum(h, covered),
            },
        },
    }
}

fn find_holding(sections: &[Section], rva: u32) -> (found: Option<Section>)
    ensures
        found == first_holding(sections@, rva),
{
    let mut i: usize = 0;
    assert(sections@.skip(0) =~= sections@);
    while i < sections.len()
        invariant
            i <= sections@.len(),
            first_holding(sections@, rva) == first_holding(sections@.skip(i as int), rva),
        decreases sections@.len() - i,
    {
        let s = sections[i];
        assert(sections@.skip(i as int)[0] == s);
        assert(sections@.skip(i as int).skip(1) =~= sections@.skip(i + 1));
        if s.rva <= rva && (rva as u64) < s.rva as u64 + s.raw_size as u64 {
            return Some(s);
        }
        i += 1;
    }
    None
}

/// Redirect the imports of the header bytes to `block`.
pub fn redirect_imports(headers: &Headers, bytes: Vec<u8>, block: DataDirectory) -> (result: Result<
    Vec<u8>,
>)
    ensures
        viewed(result) == redirected(headers@, bytes@, block),
{
    let mut patched = bytes;
    match headers.set_directory(&mut patched, IMPORT_DIRECTORY, block) {
        Err(error) => return Err(error),
        Ok(_) => {},
    }
    match headers.set_directory(
        &mut patched,
        BOUND_IMPORT_DIRECTORY,
        DataDirectory { rva: 0, size: 0 },
    ) {
        Err(error) => return Err(error),
        Ok(_) => {},
    }
    let iat = headers.directories[IAT_DIRECTORY];
    if iat.rva == 0 {
        if iat.size != 0 {
            return Err(pe("IAT size without RVA"));
        }
        let old_import = headers.directories[IMPORT_DIRECTORY];
        let fallback = match find_holding(&headers.sections, old_import.rva) {
            Some(section) => if old_import.rva != 0 {
                DataDirectory { rva: section.rva, size: section.raw_size }
            } else {
                block
            },
            None => block,
        };
        match headers.set_directory(&mut patched, IAT_DIRECTORY, fallback) {
            Err(error) => return Err(error),
            Ok(_) => {},
        }
    } else {
        match headers.image_range(iat.rva, iat.size as usize) {
            Err(error) => return Err(error),
            Ok(_) => {},
        }
    }
    // The image checksum is invalidated.
    match headers.clear_checksum(&mut patched) {
        Err(error) => Err(error),
        Ok(_) => Ok(patched),
    }
}

/// Redirected header bytes decode to the headers they had, with the import
/// directory at the block, no bound imports, and the chosen IAT directory.
pub proof fn redirected_headers_decode(
    h: HeadersView,
    b: Seq<u8>,
    decoded: HeadersView,
    block: DataDirectory,
)
    requires
        headers_of(b) == Ok::<HeadersView, ErrorView>(decoded),
        decoded.magic == MAGIC_PE64,
        h.magic == MAGIC_PE64,
        iat_choice(h, block) is Ok,
    ensures
        ({
            let named = decoded.directories.update(IMPORT_DIRECTORY as int, block).update(
                BOUND_IMPORT_DIRECTORY as int,
                DataDirectory { rva: 0, size: 0 },
            );
            let directories = match iat_choice(h, block)->Ok_0 {
                Some(iat) => named.update(IAT_DIRECTORY as int, iat),
                None => named,
            };
            &&& redirected(h, b, block) is Ok
            &&& headers_of(redirected(h, b, block)->Ok_0) == Ok::<HeadersView, ErrorView>(
                HeadersView { directories, ..decoded },
            )
        }),
{
    reveal(decodes_to);
    lemma_redirected(h, b, decoded, block);
}

/// The directories that redirected header bytes have.
pub open spec fn redirected_directories(h: HeadersView, decoded: HeadersView, block: DataDirectory) -> Seq<
    DataDirectory,
> {
    let named = decoded.directories.update(1, block).update(11, DataDirectory { rva: 0, size: 0 });
    match iat_choice(h, block)->Ok_0 {
        Some(iat) => named.update(12, iat),
        None => named,
    }
}

/// [`redirected_headers_decode`], over [`decodes_to`].
pub proof fn lemma_redirected(
    h: HeadersView,
    b: Seq<u8>,
    decoded: HeadersView,
    block: DataDirectory,
)
    requires
        decodes_to(b, decoded),
        decoded.magic == MAGIC_PE64,
        h.magic == MAGIC_PE64,
        iat_choice(h, block) is Ok,
    ensures
        redirected(h, b, block) is Ok,
        decodes_to(
            redirected(h, b, block)->Ok_0,
            HeadersView { directories: redirected_directories(h, decoded, block), ..decoded },
        ),
{
    let none = DataDirectory { rva: 0, size: 0 };
    let first = HeadersView { directories: decoded.directories.update(1, block), ..decoded };
    let second = HeadersView { directories: first.directories.update(11, none), ..decoded };
    lemma_with_directory(h, b, decoded, 1, block);
    let named = with_directory(h, b, 1, block)->Ok_0;
    lemma_with_directory(h, named, first, 11, none);
    let unbound = with_directory(h, named, 11, none)->Ok_0;
    match iat_choice(h, block)->Ok_0 {
        Some(iat) => {
            let third = HeadersView { directories: second.directories.update(12, iat), ..decoded };
            lemma_with_directory(h, unbound, second, 12, iat);
            lemma_without_checksum(h, with_directory(h, unbound, 12, iat)->Ok_0, third);
        },
        None => {
            lemma_without_checksum(h, unbound, second);
        },
    }
}

proof fn lemma_with_directory(
    h: HeadersView,
    b: Seq<u8>,
    decoded: HeadersView,
    index: int,
    d: DataDirectory,
)
    requires
        decodes_to(b, decoded),
        decoded.magic == MAGIC_PE64,
        h.magic == MAGIC_PE64,
        0 <= index < 16,
    ensures
        with_directory(h, b, index, d) is Ok,
        decodes_to(
            with_directory(h, b, index, d)->Ok_0,
            HeadersView { directories: decoded.directories.update(index, d), ..decoded },
        ),
{
    lemma_directory_patch(b, decoded, index, d);
    assert(directory_place(h, b, index) == directory_place(decoded, b, index));
}

proof fn lemma_without_checksum(h: HeadersView, b: Seq<u8>, decoded: HeadersView)
    requires
        decodes_to(b, decoded),
        decoded.magic == MAGIC_PE64,
        h.magic == MAGIC_PE64,
    ensures
        without_checksum(h, b) is Ok,
        decodes_to(without_checksum(h, b)->Ok_0, decoded),
{
    lemma_checksum_patch(b, decoded);
    assert(checksum_place(h, b) == checksum_place(decoded, b));
}

} // verus!
