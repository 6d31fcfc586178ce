//! From a validated payload to the plan of an import-table injection.
//!
//! A plan exists only for a payload that can be imported and for a main image
//! that the managed policy admits. Up to the plan nothing is asked of the
//! target but reads, so whatever is refused is refused before any mutation.

use crate::error::{copy_units, outcome, viewed, ErrorView, Result};
use crate::paths::{import_path, import_path_of};
use crate::payload::{required_ordinal_of, Payload, PayloadView};
use crate::pe::convert::lemma_widened_magic;
use crate::pe::headers::{
    decoded_headers_are_sane, decodes_to, headers_of, import_ordinal_of, lemma_decoded_magic,
    HeadersView,
};
use crate::pe::imports::{
    build_imports, import_block_reads_back, imports_fault, imports_of, reads_back,
    ImportDescriptor,
};
use crate::pe::layout::{MAGIC_PE32, MAGIC_PE64};
use crate::pe::view::DataDirectory;
use crate::remote::images::{MainImage, MainImageView};
use crate::strategy::import_table::{
    iat_choice, import_block, import_block_of, lemma_redirected, model_of, policy_fault,
    redirect_imports, redirected, redirected_directories, select_model, walk_start_of, ClrHeader,
    ImportBlock, ImportBlockView, ImportWalk, ImportWalkView, Model, ModelView, IMPORT_DIRECTORY,
};
use vstd::prelude::*;

verus! {

/// A payload as a target imports it: by its path and an ordinal.
#[derive(Debug)]
pub struct Import {
    pub path: Vec<u16>,
    pub ordinal: u16,
}

/// The mathematical content of an [`Import`].
#[verifier::ext_equal]
pub struct ImportView {
    pub path: Seq<u16>,
    pub ordinal: u16,
}

impl View for Import {
    type V = ImportView;

    open spec fn view(&self) -> ImportView {
        ImportView { path: self.path@, ordinal: self.ordinal }
    }
}

/// How a payload is imported, given the ordinal that was found in it.
pub open spec fn import_of(payload: PayloadView, ordinal: std::result::Result<u16, ErrorView>) -> std::result::Result<
    ImportView,
    ErrorView,
> {
    match ordinal {
        Err(fault) => Err(fault),
        Ok(ordinal) => Ok(ImportView { path: payload.path, ordinal }),
    }
}

/// The plan of an import-table injection.
#[derive(Debug)]
pub struct Plan {
    pub ordinal: u16,
    /// The payload path as an import name.
    pub name: Vec<u8>,
    pub base: usize,
    /// The header bytes that the image has.
    pub original: Vec<u8>,
    pub clr: Option<ClrHeader>,
    pub model: Model,
    /// The walk over the imports that the image has.
    pub walk: ImportWalk,
}

/// The mathematical content of a [`Plan`].
#[verifier::ext_equal]
pub struct PlanView {
    pub ordinal: u16,
    pub name: Seq<u8>,
    pub base: usize,
    pub original: Seq<u8>,
    pub clr: Option<ClrHeader>,
    pub model: ModelView,
    pub walk: ImportWalkView,
}

impl View for Plan {
    type V = PlanView;

    open spec fn view(&self) -> PlanView {
        PlanView {
            ordinal: self.ordinal,
            name: self.name@,
            base: self.base,
            original: self.original@,
            clr: self.clr,
            model: self.model@,
            walk: self.walk@,
        }
    }
}

/// The plan to import a payload into an image at `base`, given the model that
/// its imports are planned against.
pub open spec fn plan_against_of(
    import: ImportView,
    base: usize,
    original: Seq<u8>,
    clr: Option<ClrHeader>,
    model: ModelView,
) -> std::result::Result<PlanView, ErrorView> {
    match import_path_of(import.path) {
        Err(fault) => Err(fault),
        Ok(name) => match walk_start_of(base, model.headers) {
            Err(fault) => Err(fault),
            Ok(walk) => Ok(
                PlanView { ordinal: import.ordinal, name, base, original, clr, model, walk },
            ),
        },
    }
}

/// The plan to import a payload into the main image of a target.
pub open spec fn plan_of(import: ImportView, image: MainImageView, clr: Option<ClrHeader>) -> std::result::Result<
    PlanView,
    ErrorView,
> {
    match model_of(image.headers, image.bytes, clr) {
        Err(fault) => Err(fault),
        Ok(model) => plan_against_of(import, image.base, image.bytes, clr, model),
    }
}

impl PlanView {
    /// How much the import block takes, wherever it will lie.
    pub open spec fn size_of(self) -> std::result::Result<usize, ErrorView> {
        match imports_fault(self.walk.found, self.name, 0) {
            Some(fault) => Err(fault),
            None => Ok(imports_of(self.walk.found, self.name, self.ordinal, 0).len() as usize),
        }
    }

    /// The plan after a walk that found these imports.
    pub open spec fn with_imports(self, found: Seq<ImportDescriptor>) -> PlanView {
        PlanView { walk: ImportWalkView { found, done: true, ..self.walk }, ..self }
    }

    /// The import block at `address`.
    pub open spec fn block_of(self, address: usize) -> std::result::Result<
        ImportBlockView,
        ErrorView,
    > {
        import_block_of(self.base, address, self.walk.found, self.name, self.ordinal)
    }

    /// The header bytes that import the block.
    pub open spec fn patched_of(self, block: ImportBlockView) -> std::result::Result<
        Seq<u8>,
        ErrorView,
    > {
        redirected(self.model.headers, self.model.patched, directory_of(block))
    }
}

/// The import directory that names a block.
pub open spec fn directory_of(block: ImportBlockView) -> DataDirectory {
    DataDirectory { rva: block.rva, size: block.bytes.len() as u32 }
}

impl Import {
    /// Import the payload by the ordinal that was found in it.
    pub fn by_ordinal(payload: &Payload, ordinal: Result<u16>) -> (result: Result<Self>)
        ensures
            viewed(result) == import_of(payload@, outcome(ordinal)),
    {
        match ordinal {
            Err(error) => Err(error),
            Ok(ordinal) => Ok(Import { path: copy_units(payload.path()), ordinal }),
        }
    }

    /// Look for the ordinal that a target imports from the payload. A payload
    /// without it is refused.
    pub fn of(payload: &Payload) -> (result: Result<Self>)
        ensures
            viewed(result) == import_of(
                payload@,
                required_ordinal_of(import_ordinal_of(payload@.headers, payload@.bytes)),
            ),
    {
        Self::by_ordinal(payload, payload.import_ordinal())
    }

    /// Plan the import against the model of an image at `base` that has these
    /// header bytes and this CLR header.
    pub fn plan_against(
        self,
        base: usize,
        original: Vec<u8>,
        clr: Option<ClrHeader>,
        model: Model,
    ) -> (result: Result<Plan>)
        ensures
            viewed(result) == plan_against_of(self@, base, original@, clr, model@),
    {
        let name = match import_path(&self.path) {
            Err(error) => return Err(error),
            Ok(name) => name,
        };
        let walk = match ImportWalk::start(base, &model.headers) {
            Err(error) => return Err(error),
            Ok(walk) => walk,
        };
        Ok(Plan { ordinal: self.ordinal, name, base, original, clr, model, walk })
    }

    /// Plan the import into a main image with this CLR header. The plan, and
    /// with it every later step, needs an image that the managed policy admits
    /// and a path that fits an import name.
    pub fn plan(self, image: MainImage, clr: Option<ClrHeader>) -> (result: Result<Plan>)
        ensures
            viewed(result) == plan_of(self@, image@, clr),
    {
        match select_model(image.headers, &image.bytes, clr) {
            Err(error) => Err(error),
            Ok(model) => self.plan_against(image.base, image.bytes, clr, model),
        }
    }
}

impl Plan {
    /// How much to allocate for the import block, once the walk is done.
    pub fn size(&self) -> (result: Result<usize>)
        ensures
            outcome(result) == self@.size_of(),
    {
        match build_imports(&self.walk.found, &self.name, self.ordinal, 0) {
            Err(error) => Err(error),
            Ok(provisional) => Ok(provisional.len()),
        }
    }

    /// Build the import block for an allocation at `address`.
    pub fn block(&self, address: usize) -> (result: Result<ImportBlock>)
        ensures
            viewed(result) == self@.block_of(address),
    {
        import_block(self.base, address, &self.walk.found, &self.name, self.ordinal)
    }

    /// The plan with the header bytes that import the block, in place of those
    /// of the model.
    pub fn patch(self, block: &ImportBlock) -> (result: Result<Plan>)
        ensures
            viewed(result) == match self@.patched_of(block@) {
                Err(fault) => Err::<PlanView, ErrorView>(fault),
                Ok(bytes) => Ok(
                    PlanView { model: ModelView { patched: bytes, ..self@.model }, ..self@ },
                ),
            },
    {
        let directory = DataDirectory { rva: block.rva, size: block.bytes.len() as u32 };
        let Model { headers, patched } = self.model;
        match redirect_imports(&headers, patched, directory) {
            Err(error) => Err(error),
            Ok(patched) => Ok(Plan { model: Model { headers, patched }, ..self }),
        }
    }
}

/// Only an admitted image and an importable path are ever planned for, and a
/// refusal comes before anything that would touch the target.
pub proof fn plans_are_admitted(import: ImportView, image: MainImageView, clr: Option<ClrHeader>)
    ensures
        policy_fault(image.headers, clr) matches Some(fault) ==> plan_of(import, image, clr)
            == Err::<PlanView, ErrorView>(fault),
        plan_of(import, image, clr) matches Ok(plan) ==> {
            &&& policy_fault(image.headers, clr) is None
            &&& import_path_of(import.path) == Ok::<Seq<u8>, ErrorView>(plan.name)
            &&& plan.original == image.bytes
            &&& plan.walk.found.len() == 0
        },
{
}

/// `model` is what the imports of `image` are planned against.
#[verifier::opaque]
spec fn models(image: MainImageView, clr: Option<ClrHeader>, model: ModelView) -> bool {
    model_of(image.headers, image.bytes, clr) == Ok::<ModelView, ErrorView>(model)
}

/// The bytes of a model decode to PE32+ headers.
#[verifier::spinoff_prover]
proof fn lemma_model_decodes(
    image: MainImageView,
    clr: Option<ClrHeader>,
    model: ModelView,
) -> (decoded: HeadersView)
    requires
        decodes_to(image.bytes, image.headers),
        models(image, clr, model),
    ensures
        decodes_to(model.patched, decoded),
        decoded.magic == MAGIC_PE64,
        model.headers.magic == MAGIC_PE64,
{
    reveal(decodes_to);
    reveal(models);
    if image.headers.magic == MAGIC_PE32 {
        let decoded = headers_of(model.patched)->Ok_0;
        lemma_widened_magic(image.bytes, image.headers, decoded);
        decoded
    } else {
        lemma_decoded_magic(image.bytes, image.headers);
        image.headers
    }
}

proof fn lemma_planned(
    image: MainImageView,
    clr: Option<ClrHeader>,
    model: ModelView,
    directory: DataDirectory,
) -> (decoded: HeadersView)
    requires
        decodes_to(image.bytes, image.headers),
        models(image, clr, model),
        iat_choice(model.headers, directory) is Ok,
    ensures
        redirected(model.headers, model.patched, directory) is Ok,
        decodes_to(redirected(model.headers, model.patched, directory)->Ok_0, decoded),
        decoded.directories[IMPORT_DIRECTORY as int] == directory,
{
    let before = lemma_model_decodes(image, clr, model);
    lemma_redirected(model.headers, model.patched, before, directory);
    lemma_directories(model.patched, before);
    HeadersView {
        directories: redirected_directories(model.headers, before, directory),
        ..before
    }
}

proof fn lemma_directories(b: Seq<u8>, h: HeadersView)
    requires
        decodes_to(b, h),
    ensures
        h.directories.len() == 16,
{
    reveal(decodes_to);
    decoded_headers_are_sane(b, h);
}

/// `plan` is the one for this import and image, after a walk that found these
/// imports.
#[verifier::opaque]
pub open spec fn plans(
    import: ImportView,
    image: MainImageView,
    clr: Option<ClrHeader>,
    found: Seq<ImportDescriptor>,
    plan: PlanView,
) -> bool {
    plan_of(import, image, clr) matches Ok(start) && plan == start.with_imports(found)
}

#[verifier::spinoff_prover]
proof fn lemma_plans(
    import: ImportView,
    image: MainImageView,
    clr: Option<ClrHeader>,
    found: Seq<ImportDescriptor>,
    plan: PlanView,
)
    requires
        plans(import, image, clr, found, plan),
    ensures
        models(image, clr, plan.model),
        plan.base == image.base,
        plan.ordinal == import.ordinal,
        plan.walk.found == found,
{
    reveal(plans);
    reveal(models);
}

/// The headers of a planned image decode, with the import directory at the
/// block; and the block begins with the payload, names it by path and ordinal,
/// and keeps every import that the image had, in order, behind it.
pub proof fn planned_images_import_the_payload(
    import: ImportView,
    image: MainImageView,
    clr: Option<ClrHeader>,
    found: Seq<ImportDescriptor>,
    plan: PlanView,
    address: usize,
    block: ImportBlockView,
)
    requires
        decodes_to(image.bytes, image.headers),
        plans(import, image, clr, found, plan),
        plan.block_of(address) == Ok::<ImportBlockView, ErrorView>(block),
        iat_choice(plan.model.headers, directory_of(block)) is Ok,
    ensures
        plan.patched_of(block) is Ok,
        exists|decoded: HeadersView|
            {
                &&& #[trigger] decodes_to(plan.patched_of(block)->Ok_0, decoded)
                &&& decoded.directories[IMPORT_DIRECTORY as int] == directory_of(block)
            },
        directory_of(block).size == block.bytes.len(),
        block.rva == address - image.base,
        reads_back(block.bytes, found, plan.name, import.ordinal, block.rva),
{
    lemma_plans(import, image, clr, found, plan);
    let decoded = lemma_planned(image, clr, plan.model, directory_of(block));
    import_block_reads_back(found, plan.name, import.ordinal, block.rva);
}

} // verus!
