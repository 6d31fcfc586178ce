//! Where `LoadLibraryW` lies in the target.

use crate::error::{outcome, pe, Error, ErrorView, Result};
use crate::remote::images::{mapping_views, Mapping, MappingView};
use crate::remote::memory::{
    region_end, region_end_of, Region, EXECUTABLE_PROTECTION, MEM_COMMIT, MEM_FREE,
    PAGE_UNREADABLE,
};
use crate::remote::modules::same_units;
use crate::strategy::Strategy;
use crate::target::LoaderState;
use vstd::prelude::*;

verus! {

/// How many bytes of the function are compared.
pub const LOAD_LIBRARY_PROBE_BYTES: usize = 32;

pub const TESTED_STARTUP_MAJOR_VERSION: u32 = 10;

/// The builds on which the startup loader was seen to map the system image at
/// its local address before dispatch: Windows 11 and Windows Server 2025.
pub const TESTED_STARTUP_BUILD: u32 = 26200;

pub const TESTED_STARTUP_SERVER_BUILD: u32 = 26100;

/// Whether the running system is one of the tested ones.
pub fn tested_startup_build(major: u32, build: u32) -> (tested: bool)
    ensures
        tested == (major == 10 && (build == 26200 || build == 26100)),
{
    major == TESTED_STARTUP_MAJOR_VERSION && (build == TESTED_STARTUP_BUILD || build
        == TESTED_STARTUP_SERVER_BUILD)
}

/// `i` is the first mapping of the file with this path.
pub open spec fn is_first_mapping(mappings: Seq<MappingView>, path: Seq<u16>, i: int) -> bool {
    &&& 0 <= i < mappings.len()
    &&& mappings[i].path == path
    &&& forall|k: int| 0 <= k < i ==> (#[trigger] mappings[k]).path != path
}

/// No mapping is one of the file with this path.
pub open spec fn none_maps(mappings: Seq<MappingView>, path: Seq<u16>) -> bool {
    forall|i: int| 0 <= i < mappings.len() ==> (#[trigger] mappings[i]).path != path
}

/// The base of the first mapping of the file with this path.
pub fn image_named(mappings: &[Mapping], path: &[u16]) -> (found: Option<usize>)
    ensures
        match found {
            Some(base) => exists|i: int|
                #[trigger] is_first_mapping(mapping_views(mappings@), path@, i) && base
                    == mapping_views(mappings@)[i].base,
            None => none_maps(mapping_views(mappings@), path@),
        },
{
    let mut i: usize = 0;
    while i < mappings.len()
        invariant
            i <= mappings@.len(),
            forall|k: int|
                0 <= k < i ==> (#[trigger] mapping_views(mappings@)[k]).path != path@,
        decreases mappings@.len() - i,
    {
        if same_units(&mappings[i].path, path) {
            assert(is_first_mapping(mapping_views(mappings@), path@, i as int));
            return Some(mappings[i].base);
        }
        i += 1;
    }
    None
}

/// What the lookup asks for next.
#[derive(Debug, Clone, Copy, PartialEq, Eq, Structural)]
pub enum LookupStep {
    /// Look for the module among the target's images, and whether the running
    /// system is a tested one.
    Mapping,
    /// Fetch the headers of the target's image at this base.
    RemoteHeaders(usize),
    /// Query the region at this address of the target's image.
    RemoteRegion { image: usize, address: usize },
    /// Compare the function's first bytes here and at this address of the target.
    Probe(usize),
    /// Read where the system directory is.
    SystemRoot,
    /// Name the local module that holds the function, and the expected one.
    LocalModule,
    /// Query the target's region at the local module's base.
    StartupRegion(usize),
    /// The function lies at this address of the target.
    Found(usize),
}

/// What came of a step.
#[derive(Debug)]
pub enum LookupAnswer {
    /// The base of the target's mapping of the module, if there is one.
    Mapping { image: Option<usize>, tested: bool },
    Headers { image_size: u32, machine: u16 },
    Region(Region),
    /// The first bytes of the function here and in the target.
    Probed { local: Vec<u8>, remote: Vec<u8> },
    /// Whether the system directory is known.
    SystemRoot(bool),
    /// The path of the local module, if it is listed, and the expected one.
    Module { actual: Option<Vec<u16>>, expected: Vec<u16> },
}

/// The mathematical content of a [`LookupAnswer`].
#[verifier::ext_equal]
pub enum LookupAnswerView {
    Mapping { image: Option<usize>, tested: bool },
    Headers { image_size: u32, machine: u16 },
    Region(Region),
    Probed { local: Seq<u8>, remote: Seq<u8> },
    SystemRoot(bool),
    Module { actual: Option<Seq<u16>>, expected: Seq<u16> },
}

/// An optional path, viewed.
pub open spec fn path_view(path: Option<Vec<u16>>) -> Option<Seq<u16>> {
    match path {
        Some(path) => Some(path@),
        None => None,
    }
}

impl View for LookupAnswer {
    type V = LookupAnswerView;

    open spec fn view(&self) -> LookupAnswerView {
        match *self {
            LookupAnswer::Mapping { image, tested } => LookupAnswerView::Mapping { image, tested },
            LookupAnswer::Headers { image_size, machine } => LookupAnswerView::Headers {
                image_size,
                machine,
            },
            LookupAnswer::Region(region) => LookupAnswerView::Region(region),
            LookupAnswer::Probed { local, remote } => LookupAnswerView::Probed {
                local: local@,
                remote: remote@,
            },
            LookupAnswer::SystemRoot(known) => LookupAnswerView::SystemRoot(known),
            LookupAnswer::Module { actual, expected } => LookupAnswerView::Module {
                actual: path_view(actual),
                expected: expected@,
            },
        }
    }
}

/// What is known of the function in this process.
#[derive(Debug, Clone, Copy, PartialEq, Eq, Structural)]
pub struct LoadLibraryLookup {
    /// Where the function lies here.
    pub local: usize,
    /// The base of the module that holds it here.
    pub base: usize,
    pub image_size: u32,
    pub machine: u16,
    pub strategy: Strategy,
}

/// The refusal when the function is not in the target.
pub open spec fn absent(strategy: Strategy) -> ErrorView {
    ErrorView::StrategyUnavailable {
        strategy,
        reason:
            "LoadLibrary implementation is absent in the target; startup address is not validated on this OS"@,
    }
}

/// The refusal when the local function comes from another file than expected.
pub open spec fn outside_scope(strategy: Strategy) -> ErrorView {
    ErrorView::StrategyUnavailable {
        strategy,
        reason: "fresh-child forwarded LoadLibrary module is outside the tested scope"@,
    }
}

/// Committed memory of this image that runs and can be read.
pub open spec fn is_executable(region: Region, image: usize) -> bool {
    region.allocation_base == image && region.state == MEM_COMMIT && region.protect
        & EXECUTABLE_PROTECTION != 0 && region.protect & PAGE_UNREADABLE == 0
}

impl LoadLibraryLookup {
    /// The function does not precede its module.
    pub open spec fn well_formed(self) -> bool {
        self.base <= self.local
    }

    /// What the target's mapping of the module, if any, leads to.
    pub open spec fn mapping_of(self, image: Option<usize>, state: LoaderState, tested: bool) -> std::result::Result<
        LookupStep,
        ErrorView,
    > {
        match image {
            Some(base) => Ok(LookupStep::RemoteHeaders(base)),
            None => if state == LoaderState::NotStarted && tested {
                Ok(LookupStep::SystemRoot)
            } else {
                Err(absent(self.strategy))
            },
        }
    }

    /// What the headers of the target's image lead to.
    pub open spec fn headers_of(self, image: usize, image_size: u32, machine: u16) -> std::result::Result<
        LookupStep,
        ErrorView,
    > {
        if image_size != self.image_size || machine != self.machine {
            Err(ErrorView::Pe("LoadLibrary module differs"@))
        } else if image + (self.local - self.base) > usize::MAX {
            Err(ErrorView::Pe("function address overflow"@))
        } else {
            Ok(
                LookupStep::RemoteRegion {
                    image,
                    address: (image + (self.local - self.base)) as usize,
                },
            )
        }
    }

    /// What the region of the function leads to.
    pub open spec fn region_of(self, image: usize, address: usize, region: Region) -> std::result::Result<
        LookupStep,
        ErrorView,
    > {
        if is_executable(region, image) {
            Ok(LookupStep::Probe(address))
        } else {
            Err(ErrorView::Pe("remote LoadLibrary address is not executable"@))
        }
    }

    /// What the first bytes of the function lead to.
    pub open spec fn probe_of(self, address: usize, local: Seq<u8>, remote: Seq<u8>) -> std::result::Result<
        LookupStep,
        ErrorView,
    > {
        if local == remote {
            Ok(LookupStep::Found(address))
        } else {
            Err(ErrorView::Pe("remote LoadLibrary code differs"@))
        }
    }

    /// What the system directory leads to.
    pub open spec fn root_of(self, known: bool) -> std::result::Result<LookupStep, ErrorView> {
        if known {
            Ok(LookupStep::LocalModule)
        } else {
            Err(ErrorView::InvalidTarget("SystemRoot is missing"@))
        }
    }

    /// What the local module's path, compared with the expected one, leads to.
    pub open spec fn module_of(self, actual: Option<Seq<u16>>, expected: Seq<u16>) -> std::result::Result<
        LookupStep,
        ErrorView,
    > {
        match actual {
            None => Err(ErrorView::ModuleNotFound),
            Some(actual) => if actual == expected {
                Ok(LookupStep::StartupRegion(self.base))
            } else {
                Err(outside_scope(self.strategy))
            },
        }
    }

    /// What the target's region at the local base leads to.
    pub open spec fn startup_of(self, region: Region) -> std::result::Result<
        LookupStep,
        ErrorView,
    > {
        if self.base + self.image_size > usize::MAX {
            Err(ErrorView::Pe("image extent overflow"@))
        } else if region.state != MEM_FREE {
            Err(absent(self.strategy))
        } else {
            match region_end_of(region, self.base) {
                Err(fault) => Err(fault),
                Ok(end) => if end >= self.base + self.image_size {
                    Ok(LookupStep::Found(self.local))
                } else {
                    Err(absent(self.strategy))
                },
            }
        }
    }

    /// What the answer to a step leads to. One to another step changes nothing.
    pub open spec fn next_of(
        self,
        state: LoaderState,
        step: LookupStep,
        answer: LookupAnswerView,
    ) -> std::result::Result<LookupStep, ErrorView> {
        match (step, answer) {
            (LookupStep::Mapping, LookupAnswerView::Mapping { image, tested }) => self.mapping_of(
                image,
                state,
                tested,
            ),
            (
                LookupStep::RemoteHeaders(image),
                LookupAnswerView::Headers { image_size, machine },
            ) => self.headers_of(image, image_size, machine),
            (LookupStep::RemoteRegion { image, address }, LookupAnswerView::Region(region)) => {
                self.region_of(image, address, region)
            },
            (LookupStep::Probe(address), LookupAnswerView::Probed { local, remote }) => {
                self.probe_of(address, local, remote)
            },
            (LookupStep::SystemRoot, LookupAnswerView::SystemRoot(known)) => self.root_of(known),
            (LookupStep::LocalModule, LookupAnswerView::Module { actual, expected }) => {
                self.module_of(actual, expected)
            },
            (LookupStep::StartupRegion(_), LookupAnswerView::Region(region)) => self.startup_of(
                region,
            ),
            _ => Ok(step),
        }
    }

    /// Begin with the function's place in this process.
    pub fn start(
        local: usize,
        base: usize,
        image_size: u32,
        machine: u16,
        strategy: Strategy,
    ) -> (result: Result<Self>)
        ensures
            outcome(result) == if local < base {
                Err::<LoadLibraryLookup, ErrorView>(ErrorView::Pe("function precedes module"@))
            } else {
                Ok(LoadLibraryLookup { local, base, image_size, machine, strategy })
            },
            result matches Ok(lookup) ==> lookup.well_formed(),
    {
        if local < base {
            return Err(pe("function precedes module"));
        }
        Ok(LoadLibraryLookup { local, base, image_size, machine, strategy })
    }

    fn refuse_absent(&self) -> (error: Error)
        ensures
            error@ == absent(self.strategy),
    {
        Error::StrategyUnavailable {
            strategy: self.strategy,
            reason:
                "LoadLibrary implementation is absent in the target; startup address is not validated on this OS",
        }
    }

    /// Take the target's mapping of the module. Without one, only a never-run
    /// child on a tested build goes on.
    pub fn mapping(&self, image: Option<usize>, state: LoaderState, tested: bool) -> (result:
        Result<LookupStep>)
        ensures
            outcome(result) == self.mapping_of(image, state, tested),
    {
        match image {
            Some(base) => Ok(LookupStep::RemoteHeaders(base)),
            None => if state == LoaderState::NotStarted && tested {
                Ok(LookupStep::SystemRoot)
            } else {
                Err(self.refuse_absent())
            },
        }
    }

    /// Take the size and machine of the target's image.
    pub fn headers(&self, image: usize, image_size: u32, machine: u16) -> (result: Result<
        LookupStep,
    >)
        requires
            self.well_formed(),
        ensures
            outcome(result) == self.headers_of(image, image_size, machine),
    {
        if image_size != self.image_size || machine != self.machine {
            return Err(pe("LoadLibrary module differs"));
        }
        match image.checked_add(self.local - self.base) {
            None => Err(pe("function address overflow")),
            Some(address) => Ok(LookupStep::RemoteRegion { image, address }),
        }
    }

    /// Take the region of the function in the target.
    pub fn region(&self, image: usize, address: usize, region: &Region) -> (result: Result<
        LookupStep,
    >)
        ensures
            outcome(result) == self.region_of(image, address, *region),
    {
        if region.allocation_base != image || region.state != MEM_COMMIT || region.protect
            & EXECUTABLE_PROTECTION == 0 || region.protect & PAGE_UNREADABLE != 0 {
            return Err(pe("remote LoadLibrary address is not executable"));
        }
        Ok(LookupStep::Probe(address))
    }

    /// Take the first bytes of the function here and in the target.
    pub fn probe(&self, address: usize, local: &[u8], remote: &[u8]) -> (result: Result<LookupStep>)
        ensures
            outcome(result) == self.probe_of(address, local@, remote@),
    {
        if same_bytes(local, remote) {
            Ok(LookupStep::Found(address))
        } else {
            Err(pe("remote LoadLibrary code differs"))
        }
    }

    /// Take whether the system directory is known.
    pub fn system_root(&self, known: bool) -> (result: Result<LookupStep>)
        ensures
            outcome(result) == self.root_of(known),
    {
        if known {
            Ok(LookupStep::LocalModule)
        } else {
            Err(Error::InvalidTarget("SystemRoot is missing"))
        }
    }

    /// Take the local module's path and the expected one.
    pub fn module(&self, actual: Option<Vec<u16>>, expected: &[u16]) -> (result: Result<LookupStep>)
        ensures
            outcome(result) == self.module_of(path_view(actual), expected@),
    {
        match actual {
            None => Err(Error::ModuleNotFound),
            Some(path) => if same_units(&path, expected) {
                Ok(LookupStep::StartupRegion(self.base))
            } else {
                Err(
                    Error::StrategyUnavailable {
                        strategy: self.strategy,
                        reason:
                            "fresh-child forwarded LoadLibrary module is outside the tested scope",
                    },
                )
            },
        }
    }

    /// Take the target's region at the local base. It has to be free for the
    /// whole image.
    pub fn startup_region(&self, region: &Region) -> (result: Result<LookupStep>)
        ensures
            outcome(result) == self.startup_of(*region),
    {
        let image_end: usize = match self.base.checked_add(self.image_size as usize) {
            None => return Err(pe("image extent overflow")),
            Some(end) => end,
        };
        if region.state == MEM_FREE {
            let end: usize = match region_end(region, self.base) {
                Err(error) => return Err(error),
                Ok(end) => end,
            };
            if end >= image_end {
                return Ok(LookupStep::Found(self.local));
            }
        }
        Err(self.refuse_absent())
    }
}

/// Whether bytes are the same.
pub fn same_bytes(one: &[u8], other: &[u8]) -> (same: bool)
    ensures
        same == (one@ == other@),
{
    if one.len() != other.len() {
        return false;
    }
    let mut i: usize = 0;
    while i < one.len()
        invariant
            i <= one@.len(),
            one@.len() == other@.len(),
            forall|k: int| 0 <= k < i ==> one@[k] == other@[k],
        decreases one@.len() - i,
    {
        if one[i] != other[i] {
            return false;
        }
        i += 1;
    }
    assert(one@ =~= other@);
    true
}

impl LoadLibraryLookup {
    /// Take what came of a step, for a target in this loader state. The first
    /// step is [`LookupStep::Mapping`].
    pub fn next(&self, state: LoaderState, step: LookupStep, answer: LookupAnswer) -> (result:
        Result<LookupStep>)
        requires
            self.well_formed(),
        ensures
            outcome(result) == self.next_of(state, step, answer@),
    {
        match (step, answer) {
            (LookupStep::Mapping, LookupAnswer::Mapping { image, tested }) => self.mapping(
                image,
                state,
                tested,
            ),
            (LookupStep::RemoteHeaders(image), LookupAnswer::Headers { image_size, machine }) => {
                self.headers(image, image_size, machine)
            },
            (LookupStep::RemoteRegion { image, address }, LookupAnswer::Region(region)) => {
                self.region(image, address, &region)
            },
            (LookupStep::Probe(address), LookupAnswer::Probed { local, remote }) => self.probe(
                address,
                &local,
                &remote,
            ),
            (LookupStep::SystemRoot, LookupAnswer::SystemRoot(known)) => self.system_root(known),
            (LookupStep::LocalModule, LookupAnswer::Module { actual, expected }) => self.module(
                actual,
                &expected,
            ),
            (LookupStep::StartupRegion(_), LookupAnswer::Region(region)) => self.startup_region(
                &region,
            ),
            _ => Ok(step),
        }
    }
}

/// Everything that a lookup sees of the two processes.
pub struct LookupFacts {
    pub image: Option<usize>,
    pub tested: bool,
    pub image_size: u32,
    pub machine: u16,
    /// The region of the function in the target.
    pub region: Region,
    pub local: Seq<u8>,
    pub remote: Seq<u8>,
    pub root_known: bool,
    pub actual: Option<Seq<u16>>,
    pub expected: Seq<u16>,
    /// The region of the target at the local module's base.
    pub startup: Region,
}

/// What a step is answered from the facts.
pub open spec fn answer_from(facts: LookupFacts, step: LookupStep) -> LookupAnswerView {
    match step {
        LookupStep::Mapping => LookupAnswerView::Mapping {
            image: facts.image,
            tested: facts.tested,
        },
        LookupStep::RemoteHeaders(_) => LookupAnswerView::Headers {
            image_size: facts.image_size,
            machine: facts.machine,
        },
        LookupStep::RemoteRegion { .. } => LookupAnswerView::Region(facts.region),
        LookupStep::Probe(_) => LookupAnswerView::Probed {
            local: facts.local,
            remote: facts.remote,
        },
        LookupStep::SystemRoot | LookupStep::Found(_) => LookupAnswerView::SystemRoot(
            facts.root_known,
        ),
        LookupStep::LocalModule => LookupAnswerView::Module {
            actual: facts.actual,
            expected: facts.expected,
        },
        LookupStep::StartupRegion(_) => LookupAnswerView::Region(facts.startup),
    }
}

/// One step further, answered from the facts.
pub open spec fn looked_further(
    lookup: LoadLibraryLookup,
    state: LoaderState,
    facts: LookupFacts,
    step: std::result::Result<LookupStep, ErrorView>,
) -> std::result::Result<LookupStep, ErrorView> {
    match step {
        Err(fault) => Err(fault),
        Ok(step) => lookup.next_of(state, step, answer_from(facts, step)),
    }
}

/// Where a whole lookup ends, answered from the facts.
pub open spec fn lookup_of(lookup: LoadLibraryLookup, state: LoaderState, facts: LookupFacts) -> std::result::Result<
    LookupStep,
    ErrorView,
> {
    let first = looked_further(lookup, state, facts, Ok(LookupStep::Mapping));
    let second = looked_further(lookup, state, facts, first);
    let third = looked_further(lookup, state, facts, second);
    looked_further(lookup, state, facts, third)
}

/// The function lies at `address` of a mapped image: at the offset that it has
/// here, in an image of the same size and machine, in executable memory of
/// that image, and with the same first bytes.
pub open spec fn is_mapped_function(
    lookup: LoadLibraryLookup,
    facts: LookupFacts,
    image: usize,
    address: usize,
) -> bool {
    &&& address - image == lookup.local - lookup.base
    &&& facts.image_size == lookup.image_size
    &&& facts.machine == lookup.machine
    &&& is_executable(facts.region, image)
    &&& facts.local == facts.remote
}

/// The function will lie at its local address: the child has never run, the
/// build is a tested one, the local module is the expected one, and the whole
/// local image fits in free memory of the target.
pub open spec fn is_startup_function(
    lookup: LoadLibraryLookup,
    state: LoaderState,
    facts: LookupFacts,
    address: usize,
) -> bool {
    &&& address == lookup.local
    &&& state == LoaderState::NotStarted
    &&& facts.tested
    &&& facts.root_known
    &&& facts.actual == Some(facts.expected)
    &&& facts.startup.state == MEM_FREE
    &&& facts.startup.base <= lookup.base < facts.startup.base + facts.startup.size <= usize::MAX
    &&& lookup.base + lookup.image_size <= facts.startup.base + facts.startup.size
}

/// A lookup ends, and it finds an address exactly when the function lies there
/// in a mapped image or, where the image is not mapped, will lie there by the
/// startup exception. Everything else is refused.
pub proof fn lookups_find_exactly(
    lookup: LoadLibraryLookup,
    state: LoaderState,
    facts: LookupFacts,
    address: usize,
)
    requires
        lookup.well_formed(),
    ensures
        lookup_of(lookup, state, facts) is Err || lookup_of(lookup, state, facts)->Ok_0 is Found,
        lookup_of(lookup, state, facts) == Ok::<LookupStep, ErrorView>(LookupStep::Found(address))
            <==> match facts.image {
            Some(image) => is_mapped_function(lookup, facts, image, address),
            None => is_startup_function(lookup, state, facts, address),
        },
{
}

} // verus!
