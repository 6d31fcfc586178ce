//! The walk over mapped images, the staged fetch of their headers, and the
//! search for the main executable.

use crate::error::{outcome, pe, viewed, ErrorView, Result};
use crate::pe::headers::{headers_of, Headers, HeadersView, FILE_IS_DLL};
use crate::pe::layout::{
    header_read_size, header_read_size_of, nt_offset, nt_offset_of, DOS_HEADER_SIZE,
    HEADER_PREFIX_SIZE, MAX_HEADERS,
};
use crate::remote::memory::{
    region_end, region_end_of, Region, MAX_REGION_QUERIES, MEM_COMMIT, MEM_IMAGE, PAGE_UNREADABLE,
};
use vstd::prelude::*;

verus! {

/// A mapped image and the device path of its file, with its terminator.
#[derive(Debug)]
pub struct Mapping {
    pub base: usize,
    pub path: Vec<u16>,
}

/// The mathematical content of a [`Mapping`].
#[verifier::ext_equal]
pub struct MappingView {
    pub base: usize,
    pub path: Seq<u16>,
}

impl View for Mapping {
    type V = MappingView;

    open spec fn view(&self) -> MappingView {
        MappingView { base: self.base, path: self.path@ }
    }
}

/// The views of mappings in a row.
pub open spec fn mapping_views(mappings: Seq<Mapping>) -> Seq<MappingView> {
    mappings.map_values(|m: Mapping| m@)
}

/// A readable region where a mapped image begins.
pub open spec fn is_image_start(region: Region) -> bool {
    region.kind == MEM_IMAGE && region.state == MEM_COMMIT && region.base == region.allocation_base
        && region.protect & PAGE_UNREADABLE == 0
}

/// What the walk asks for next.
#[derive(Debug, Clone, Copy, PartialEq, Eq, Structural)]
pub enum ScanStep {
    /// Query the region at this address.
    Query(usize),
    /// Name the file that is mapped at this address.
    Name(usize),
    /// The walk has reached its limit.
    Done,
}

/// A walk over the address space that lists the mapped images.
#[derive(Debug)]
pub struct ImageScan {
    pub address: usize,
    pub limit: usize,
    pub count: usize,
    /// The image whose name is awaited, and where its first region ends.
    pub image: usize,
    pub next: usize,
    pub found: Vec<Mapping>,
}

/// The mathematical content of an [`ImageScan`].
#[verifier::ext_equal]
pub struct ImageScanView {
    pub address: usize,
    pub limit: usize,
    pub count: usize,
    pub image: usize,
    pub next: usize,
    pub found: Seq<MappingView>,
}

impl View for ImageScan {
    type V = ImageScanView;

    open spec fn view(&self) -> ImageScanView {
        ImageScanView {
            address: self.address,
            limit: self.limit,
            count: self.count,
            image: self.image,
            next: self.next,
            found: mapping_views(self.found@),
        }
    }
}

impl ImageScanView {
    /// Go on at the address where the walk stands.
    pub open spec fn step_of(self) -> (ImageScanView, std::result::Result<ScanStep, ErrorView>) {
        if self.address >= self.limit {
            (self, Ok(ScanStep::Done))
        } else if self.count >= MAX_REGION_QUERIES {
            (self, Err(ErrorView::Pe("image scan limit"@)))
        } else {
            (
                ImageScanView { count: (self.count + 1) as usize, ..self },
                Ok(ScanStep::Query(self.address)),
            )
        }
    }

    /// What a queried region leads to.
    pub open spec fn region_of(self, region: Region) -> (
        ImageScanView,
        std::result::Result<ScanStep, ErrorView>,
    ) {
        match region_end_of(region, self.address) {
            Err(fault) => (self, Err(fault)),
            Ok(end) => if is_image_start(region) {
                (
                    ImageScanView { image: region.base, next: end, ..self },
                    Ok(ScanStep::Name(region.base)),
                )
            } else {
                ImageScanView { address: end, ..self }.step_of()
            },
        }
    }

    /// What the name of an image leads to.
    pub open spec fn named_of(self, path: Seq<u16>) -> (
        ImageScanView,
        std::result::Result<ScanStep, ErrorView>,
    ) {
        ImageScanView {
            address: self.next,
            found: self.found.push(MappingView { base: self.image, path }),
            ..self
        }.step_of()
    }
}

impl ImageScan {
    /// Begin at the lowest address, up to `limit`.
    pub fn start(limit: usize) -> (scan: Self)
        ensures
            scan@ == (ImageScanView {
                address: 0,
                limit,
                count: 0,
                image: 0,
                next: 0,
                found: Seq::empty(),
            }),
    {
        let scan = ImageScan { address: 0, limit, count: 0, image: 0, next: 0, found: Vec::new() };
        assert(scan@.found =~= Seq::empty());
        scan
    }

    /// What to do first, or after a region is passed.
    pub fn step(&mut self) -> (result: Result<ScanStep>)
        ensures
            (final(self)@, outcome(result)) == old(self)@.step_of(),
    {
        if self.address >= self.limit {
            return Ok(ScanStep::Done);
        }
        if self.count >= MAX_REGION_QUERIES {
            return Err(pe("image scan limit"));
        }
        self.count = self.count + 1;
        Ok(ScanStep::Query(self.address))
    }

    /// Take the region that was queried.
    pub fn region(&mut self, region: &Region) -> (result: Result<ScanStep>)
        ensures
            (final(self)@, outcome(result)) == old(self)@.region_of(*region),
    {
        let end: usize = match region_end(region, self.address) {
            Err(error) => return Err(error),
            Ok(end) => end,
        };
        if region.kind == MEM_IMAGE && region.state == MEM_COMMIT && region.base
            == region.allocation_base && region.protect & PAGE_UNREADABLE == 0 {
            self.image = region.base;
            self.next = end;
            return Ok(ScanStep::Name(region.base));
        }
        self.address = end;
        self.step()
    }

    /// Take the path of the image that was named.
    pub fn named(&mut self, path: Vec<u16>) -> (result: Result<ScanStep>)
        ensures
            (final(self)@, outcome(result)) == old(self)@.named_of(path@),
    {
        let ghost before = self.found@;
        self.found.push(Mapping { base: self.image, path });
        proof {
            assert(mapping_views(self.found@) =~= mapping_views(before).push(
                MappingView { base: self.image, path: path@ },
            ));
        }
        self.address = self.next;
        self.step()
    }

    /// The images that were found, in the order of the walk.
    pub fn finish(self) -> (found: Vec<Mapping>)
        ensures
            mapping_views(found@) == self@.found,
    {
        self.found
    }
}

/// A walk asks at most so many queries, each further on than the one before:
/// a region that holds the scan address ends behind it.
pub proof fn image_scan_advances(scan: ImageScanView, region: Region)
    requires
        scan.region_of(region).1 is Ok,
    ensures
        ({
            let (next, step) = scan.region_of(region);
            &&& step->Ok_0 is Name ==> scan.address < next.next && is_image_start(region)
            &&& step->Ok_0 is Query ==> scan.address < next.address && next.count == scan.count + 1
                && next.count <= MAX_REGION_QUERIES
            &&& next.found == scan.found
        }),
{
}

/// What a target answers to the questions of the walk: the region at an
/// address, and the path of the file that is mapped there.
pub struct ScanAnswers {
    pub regions: spec_fn(usize) -> std::result::Result<Region, ErrorView>,
    pub names: spec_fn(usize) -> std::result::Result<Seq<u16>, ErrorView>,
}

impl ImageScanView {
    /// `step` is one that the walk can have asked for last.
    pub open spec fn awaits(self, step: ScanStep) -> bool {
        match step {
            ScanStep::Query(address) => address == self.address && self.address < self.limit,
            ScanStep::Name(image) => image == self.image && self.address < self.limit
                && self.address < self.next,
            ScanStep::Done => true,
        }
    }

    /// How the walk ends from here, when every step is answered in turn.
    pub open spec fn run(self, step: ScanStep, answers: ScanAnswers) -> std::result::Result<
        Seq<MappingView>,
        ErrorView,
    >
        decreases
            if self.address < self.limit {
                self.limit - self.address
            } else {
                0
            },
            step is Query as int,
        when self.awaits(step)
    {
        match step {
            ScanStep::Query(address) => match (answers.regions)(address) {
                Err(fault) => Err(fault),
                Ok(region) => match self.region_of(region) {
                    (_, Err(fault)) => Err(fault),
                    (next, Ok(step)) => next.run(step, answers),
                },
            },
            ScanStep::Name(image) => match (answers.names)(image) {
                Err(fault) => Err(fault),
                Ok(path) => match self.named_of(path) {
                    (_, Err(fault)) => Err(fault),
                    (next, Ok(step)) => next.run(step, answers),
                },
            },
            ScanStep::Done => Ok(self.found),
        }
    }
}

impl ScanAnswers {
    /// A query gives the same region for every address in it.
    pub open spec fn are_coherent(self) -> bool {
        forall|a: usize, c: usize|
            (#[trigger] (self.regions)(a) matches Ok(region) && region.base <= c < region.base
                + region.size) ==> #[trigger] (self.regions)(c) == (self.regions)(a)
    }

    /// A mapped image that can be read begins at `base`.
    pub open spec fn begin_image(self, base: usize) -> bool {
        (self.regions)(base) matches Ok(region) && region.base == base && is_image_start(region)
    }

    /// `found` lists the images that begin below `end`, in ascending order and
    /// with their paths.
    pub open spec fn are_listed(self, found: Seq<MappingView>, end: int) -> bool {
        &&& forall|i: int|
            0 <= i < found.len() ==> (#[trigger] found[i]).base < end && self.begin_image(
                found[i].base,
            ) && (self.names)(found[i].base) == Ok::<Seq<u16>, ErrorView>(found[i].path)
        &&& forall|i: int, j: int|
            0 <= i < j < found.len() ==> (#[trigger] found[i]).base < (#[trigger] found[j]).base
        &&& forall|base: usize| #[trigger]
            self.begin_image(base) && base < end ==> exists|i: int|
                0 <= i < found.len() && (#[trigger] found[i]).base == base
    }
}

/// The walk has listed the images below its address, which begins a region.
spec fn has_listed(scan: ImageScanView, answers: ScanAnswers) -> bool {
    &&& answers.are_listed(scan.found, scan.address as int)
    &&& forall|i: int| 0 <= i < scan.found.len() ==> (#[trigger] scan.found[i]).base < scan.limit
    &&& scan.address > 0 ==> ((answers.regions)((scan.address - 1) as usize) matches Ok(last)
        && last.base + last.size == scan.address)
}

/// A region at the address of the walk begins there.
proof fn lemma_region_begins(scan: ImageScanView, answers: ScanAnswers, region: Region)
    requires
        answers.are_coherent(),
        has_listed(scan, answers),
        (answers.regions)(scan.address) == Ok::<Region, ErrorView>(region),
        region_end_of(region, scan.address) is Ok,
    ensures
        region.base == scan.address,
        forall|base: usize|
            scan.address < base < region.base + region.size ==> !#[trigger] answers.begin_image(
                base,
            ),
        (answers.regions)((region.base + region.size - 1) as usize) == Ok::<Region, ErrorView>(
            region,
        ),
{
    if region.base < scan.address {
        let before = (scan.address - 1) as usize;
        assert((answers.regions)(before) == (answers.regions)(scan.address));
    }
    assert forall|base: usize| scan.address < base < region.base + region.size implies
        !#[trigger] answers.begin_image(base) by {
        assert((answers.regions)(base) == (answers.regions)(scan.address));
    }
    let last = (region.base + region.size - 1) as usize;
    assert((answers.regions)(last) == (answers.regions)(scan.address));
}

proof fn lemma_scan(scan: ImageScanView, answers: ScanAnswers)
    requires
        answers.are_coherent(),
        has_listed(scan, answers),
        scan.address < scan.limit,
    ensures
        scan.run(ScanStep::Query(scan.address), answers) matches Ok(found) ==> answers.are_listed(
            found,
            scan.limit as int,
        ),
    decreases scan.limit - scan.address,
{
    reveal_with_fuel(ImageScanView::run, 3);
    match (answers.regions)(scan.address) {
        Err(_) => {},
        Ok(region) => if scan.region_of(region).1 is Ok {
            lemma_region_begins(scan, answers, region);
            let end = (region.base + region.size) as usize;
            let (queried, step) = scan.region_of(region);
            let next = if is_image_start(region) {
                let path = (answers.names)(region.base)->Ok_0;
                assert(answers.begin_image(region.base));
                queried.named_of(path).0
            } else {
                assert(!answers.begin_image(scan.address));
                queried
            };
            if !is_image_start(region) || (answers.names)(region.base) is Ok {
                lemma_listed_on(scan, next, answers, region);
                if next.address < next.limit {
                    lemma_scan(next, answers);
                } else {
                    assert(answers.are_listed(next.found, next.limit as int));
                }
            }
        },
    }
}

proof fn lemma_listed_on(
    scan: ImageScanView,
    next: ImageScanView,
    answers: ScanAnswers,
    region: Region,
)
    requires
        has_listed(scan, answers),
        next.limit == scan.limit,
        scan.address < scan.limit,
        region.base == scan.address < region.base + region.size == next.address,
        (answers.regions)(scan.address) == Ok::<Region, ErrorView>(region),
        forall|base: usize|
            scan.address < base < next.address ==> !#[trigger] answers.begin_image(base),
        (answers.regions)((next.address - 1) as usize) == Ok::<Region, ErrorView>(region),
        next.found == (if is_image_start(region) {
            scan.found.push(
                MappingView { base: region.base, path: (answers.names)(region.base)->Ok_0 },
            )
        } else {
            scan.found
        }),
        is_image_start(region) ==> (answers.names)(region.base) is Ok,
    ensures
        has_listed(next, answers),
{
    assert forall|base: usize| #[trigger]
        answers.begin_image(base) && base < next.address implies exists|i: int|
        0 <= i < next.found.len() && (#[trigger] next.found[i]).base == base by {
        if base < scan.address {
            let i = choose|i: int|
                0 <= i < scan.found.len() && (#[trigger] scan.found[i]).base == base;
            assert(next.found[i].base == base);
        } else {
            assert(base == scan.address);
            assert(next.found[scan.found.len() as int].base == base);
        }
    }
}

/// A finished walk lists every mapped image that can be read and begins below
/// the limit, each once, in ascending order and with the path of its file.
pub proof fn finished_scans_are_complete(limit: usize, answers: ScanAnswers, found: Seq<MappingView>)
    requires
        answers.are_coherent(),
        ({
            let start = ImageScanView {
                address: 0,
                limit,
                count: 0,
                image: 0,
                next: 0,
                found: Seq::empty(),
            };
            start.step_of().1 matches Ok(step) && start.step_of().0.run(step, answers) == Ok::<
                Seq<MappingView>,
                ErrorView,
            >(found)
        }),
    ensures
        answers.are_listed(found, limit as int),
{
    let start = ImageScanView {
        address: 0,
        limit,
        count: 0,
        image: 0,
        next: 0,
        found: Seq::empty(),
    };
    if 0 < limit {
        lemma_scan(start.step_of().0, answers);
    }
}

/// How far the staged fetch of an image's headers has come.
#[derive(Debug, Clone, Copy, PartialEq, Eq, Structural)]
pub enum HeaderFetch {
    /// The DOS header is read.
    Dos,
    /// The prefix through the declared header size is read.
    Prefix(usize),
    /// The whole header region is read.
    Full(usize),
}

/// What received header bytes lead to.
#[derive(Debug)]
pub enum FetchStep {
    /// Read again from the image base.
    Read(HeaderFetch),
    /// The headers are decoded.
    Parsed(Headers),
}

/// The mathematical content of a [`FetchStep`].
#[verifier::ext_equal]
pub enum FetchStepView {
    Read(HeaderFetch),
    Parsed(HeadersView),
}

impl View for FetchStep {
    type V = FetchStepView;

    open spec fn view(&self) -> FetchStepView {
        match *self {
            FetchStep::Read(fetch) => FetchStepView::Read(fetch),
            FetchStep::Parsed(headers) => FetchStepView::Parsed(headers@),
        }
    }
}

impl HeaderFetch {
    /// How many bytes to read from the image base.
    pub open spec fn size_of(self) -> usize {
        match self {
            HeaderFetch::Dos => DOS_HEADER_SIZE,
            HeaderFetch::Prefix(size) => size,
            HeaderFetch::Full(size) => size,
        }
    }

    /// What received bytes lead to.
    pub open spec fn received_of(self, bytes: Seq<u8>) -> std::result::Result<
        FetchStepView,
        ErrorView,
    > {
        match self {
            HeaderFetch::Dos => match nt_offset_of(bytes) {
                Err(fault) => Err(fault),
                Ok(nt) => Ok(
                    FetchStepView::Read(HeaderFetch::Prefix((nt + HEADER_PREFIX_SIZE) as usize)),
                ),
            },
            HeaderFetch::Prefix(_) => match header_read_size_of(bytes) {
                Err(fault) => Err(fault),
                Ok(size) => Ok(FetchStepView::Read(HeaderFetch::Full(size))),
            },
            HeaderFetch::Full(_) => match headers_of(bytes) {
                Err(fault) => Err(fault),
                Ok(headers) => Ok(FetchStepView::Parsed(headers)),
            },
        }
    }

    /// How many bytes to read from the image base.
    pub fn size(&self) -> (size: usize)
        ensures
            size == self.size_of(),
    {
        match self {
            HeaderFetch::Dos => DOS_HEADER_SIZE,
            HeaderFetch::Prefix(size) => *size,
            HeaderFetch::Full(size) => *size,
        }
    }

    /// Take the bytes that were read.
    pub fn received(&self, bytes: &[u8]) -> (result: Result<FetchStep>)
        ensures
            viewed(result) == self.received_of(bytes@),
    {
        match self {
            HeaderFetch::Dos => match nt_offset(bytes) {
                Err(error) => Err(error),
                Ok(nt) => Ok(FetchStep::Read(HeaderFetch::Prefix(nt + HEADER_PREFIX_SIZE))),
            },
            HeaderFetch::Prefix(_) => match header_read_size(bytes) {
                Err(error) => Err(error),
                Ok(size) => Ok(FetchStep::Read(HeaderFetch::Full(size))),
            },
            HeaderFetch::Full(_) => match Headers::parse_remote(bytes) {
                Err(error) => Err(error),
                Ok(headers) => Ok(FetchStep::Parsed(headers)),
            },
        }
    }
}

/// Every read that a staged fetch asks for is bounded, whatever the remote
/// bytes say.
pub proof fn header_fetch_is_bounded(fetch: HeaderFetch, bytes: Seq<u8>, next: HeaderFetch)
    requires
        fetch.received_of(bytes) == Ok::<FetchStepView, ErrorView>(FetchStepView::Read(next)),
    ensures
        next.size_of() <= MAX_HEADERS,
        HeaderFetch::Dos.size_of() <= MAX_HEADERS,
{
}

/// The on-disk identity of a file: its volume and its file index.
#[derive(Debug, Clone, Copy, PartialEq, Eq, Structural)]
pub struct FileIdentity {
    pub volume: u32,
    pub index_high: u32,
    pub index_low: u32,
}

/// The prefix that reaches the object namespace from Win32: `\\?\GLOBALROOT`.
pub open spec fn global_root() -> Seq<u16> {
    seq![92u16, 92, 63, 92, 71, 76, 79, 66, 65, 76, 82, 79, 79, 84]
}

/// The terminated Win32 path of the file behind an NT device path such as
/// `\Device\HarddiskVolume1\app.exe`.
pub fn identity_path(device_path: &[u16]) -> (path: Vec<u16>)
    ensures
        path@ == global_root() + device_path@ + seq![0u16],
{
    let mut path: Vec<u16> = vec![92, 92, 63, 92, 71, 76, 79, 66, 65, 76, 82, 79, 79, 84];
    assert(path@ =~= global_root());
    path.extend_from_slice(device_path);
    assert(path@ =~= global_root() + device_path@);
    path.push(0);
    path
}

/// An image with its decoded headers and their bytes.
#[derive(Debug)]
pub struct MainImage {
    pub base: usize,
    pub headers: Headers,
    pub bytes: Vec<u8>,
}

/// The mathematical content of a [`MainImage`].
#[verifier::ext_equal]
pub struct MainImageView {
    pub base: usize,
    pub headers: HeadersView,
    pub bytes: Seq<u8>,
}

impl View for MainImage {
    type V = MainImageView;

    open spec fn view(&self) -> MainImageView {
        MainImageView { base: self.base, headers: self.headers@, bytes: self.bytes@ }
    }
}

/// The views of images in a row.
pub open spec fn image_views(images: Seq<MainImage>) -> Seq<MainImageView> {
    images.map_values(|m: MainImage| m@)
}

/// What the search for the main executable asks for next.
#[derive(Debug, Clone, Copy, PartialEq, Eq, Structural)]
pub enum MainStep {
    /// Fetch the headers of mapping number `index`.
    Headers(usize),
    /// Identify the file of mapping number `index`.
    Identity(usize),
    /// Query the region at this address.
    Query(usize),
    /// Every mapping was looked at.
    Finished,
}

/// The search for the one mapping of the executable that a process runs.
///
/// The kernel names the same on-disk file inconsistently across APIs, so a
/// mapping is matched by on-disk identity, which ignores spelling.
#[derive(Debug)]
pub struct MainImageSearch {
    pub expected: FileIdentity,
    pub mappings: Vec<Mapping>,
    pub index: usize,
    /// The mapping that is looked at, once its headers are fetched.
    pub current: Option<MainImage>,
    /// How far its regions are checked, and where they end.
    pub address: usize,
    pub end: usize,
    pub candidates: Vec<MainImage>,
}

/// The mathematical content of a [`MainImageSearch`].
#[verifier::ext_equal]
pub struct MainImageSearchView {
    pub expected: FileIdentity,
    pub mappings: Seq<MappingView>,
    pub index: int,
    pub current: Option<MainImageView>,
    pub address: usize,
    pub end: usize,
    pub candidates: Seq<MainImageView>,
}

impl View for MainImageSearch {
    type V = MainImageSearchView;

    open spec fn view(&self) -> MainImageSearchView {
        MainImageSearchView {
            expected: self.expected,
            mappings: mapping_views(self.mappings@),
            index: self.index as int,
            current: match self.current {
                Some(image) => Some(image@),
                None => None,
            },
            address: self.address,
            end: self.end,
            candidates: image_views(self.candidates@),
        }
    }
}

impl MainImageSearchView {
    /// Look at the mapping where the search stands.
    pub open spec fn step_of(self) -> MainStep {
        if self.index < self.mappings.len() {
            MainStep::Headers(self.index as usize)
        } else {
            MainStep::Finished
        }
    }

    /// The search with the current mapping left out.
    pub open spec fn skipped(self) -> MainImageSearchView {
        MainImageSearchView { index: self.index + 1, current: None, ..self }
    }

    /// What fetched headers lead to: a DLL is no candidate.
    pub open spec fn headers_of(self, headers: HeadersView, bytes: Seq<u8>) -> (
        MainImageSearchView,
        MainStep,
    ) {
        if self.index >= self.mappings.len() {
            (self, MainStep::Finished)
        } else if headers.characteristics & FILE_IS_DLL != 0 {
            (self.skipped(), self.skipped().step_of())
        } else {
            (
                MainImageSearchView {
                    current: Some(
                        MainImageView { base: self.mappings[self.index].base, headers, bytes },
                    ),
                    ..self
                },
                MainStep::Identity(self.index as usize),
            )
        }
    }

    /// Go on with the regions of the current image, or accept it.
    pub open spec fn walked(self) -> (MainImageSearchView, MainStep) {
        if self.address < self.end {
            (self, MainStep::Query(self.address))
        } else {
            let accepted = MainImageSearchView {
                candidates: self.candidates.push(self.current->0),
                ..self
            };
            (accepted.skipped(), accepted.skipped().step_of())
        }
    }

    /// What the identity of the current mapping leads to.
    pub open spec fn identity_of(self, identity: FileIdentity) -> (
        MainImageSearchView,
        std::result::Result<MainStep, ErrorView>,
    ) {
        match self.current {
            None => (self, Ok(self.step_of())),
            Some(image) => if identity != self.expected {
                (self.skipped(), Ok(self.skipped().step_of()))
            } else if image.base + image.headers.image_size > usize::MAX {
                (self, Err(ErrorView::Pe("image extent overflow"@)))
            } else {
                let (next, step) = MainImageSearchView {
                    address: image.base,
                    end: (image.base + image.headers.image_size) as usize,
                    ..self
                }.walked();
                (next, Ok(step))
            },
        }
    }

    /// What a region of the current image leads to.
    pub open spec fn region_of(self, region: Region) -> (
        MainImageSearchView,
        std::result::Result<MainStep, ErrorView>,
    ) {
        match self.current {
            None => (self, Ok(self.step_of())),
            Some(image) => if region.allocation_base != image.base || region.kind != MEM_IMAGE {
                (self, Err(ErrorView::Pe("image extends beyond mapping"@)))
            } else {
                match region_end_of(region, self.address) {
                    Err(fault) => (self, Err(fault)),
                    Ok(end) => {
                        let (next, step) = MainImageSearchView { address: end, ..self }.walked();
                        (next, Ok(step))
                    },
                }
            },
        }
    }

    /// The one candidate, if there is exactly one.
    pub open spec fn finished(self) -> std::result::Result<MainImageView, ErrorView> {
        if self.candidates.len() != 1 {
            Err(ErrorView::Pe("main executable mapping is missing or ambiguous"@))
        } else {
            Ok(self.candidates[0])
        }
    }
}

impl MainImageSearch {
    /// The search never stands behind its last mapping, except to finish.
    pub open spec fn well_formed(self) -> bool {
        &&& self.index <= self.mappings@.len()
        &&& self.current is Some ==> self.index < self.mappings@.len()
    }

    /// Begin with the first mapping.
    pub fn start(expected: FileIdentity, mappings: Vec<Mapping>) -> (search: Self)
        ensures
            search@ == (MainImageSearchView {
                expected,
                mappings: mapping_views(mappings@),
                index: 0,
                current: None,
                address: 0,
                end: 0,
                candidates: Seq::empty(),
            }),
            search.well_formed(),
    {
        let search = MainImageSearch {
            expected,
            mappings,
            index: 0,
            current: None,
            address: 0,
            end: 0,
            candidates: Vec::new(),
        };
        assert(search@.candidates =~= Seq::empty());
        search
    }

    /// Look at the mapping where the search stands.
    pub fn step(&self) -> (step: MainStep)
        ensures
            step == self@.step_of(),
    {
        if self.index < self.mappings.len() {
            MainStep::Headers(self.index)
        } else {
            MainStep::Finished
        }
    }

    /// Take the headers of the mapping where the search stands.
    pub fn headers(&mut self, headers: Headers, bytes: Vec<u8>) -> (step: MainStep)
        requires
            old(self).well_formed(),
        ensures
            (final(self)@, step) == old(self)@.headers_of(headers@, bytes@),
            final(self).well_formed(),
    {
        if self.index >= self.mappings.len() {
            return MainStep::Finished;
        }
        if headers.characteristics & FILE_IS_DLL != 0 {
            self.index = self.index + 1;
            self.current = None;
            return self.step();
        }
        let base: usize = self.mappings[self.index].base;
        self.current = Some(MainImage { base, headers, bytes });
        MainStep::Identity(self.index)
    }

    /// Go on with the regions of the current image, or accept it.
    fn walk(&mut self) -> (step: MainStep)
        requires
            old(self).well_formed(),
            old(self).current is Some,
        ensures
            (final(self)@, step) == old(self)@.walked(),
            final(self).well_formed(),
    {
        if self.address < self.end {
            return MainStep::Query(self.address);
        }
        let ghost before = self.candidates@;
        match self.current.take() {
            Some(image) => {
                self.candidates.push(image);
                proof {
                    assert(image_views(self.candidates@) =~= image_views(before).push(image@));
                }
            },
            None => {},
        }
        assert(self.index < self.mappings.len());
        self.index = self.index + 1;
        self.step()
    }

    /// Take the identity of the file of the current mapping.
    pub fn identity(&mut self, identity: FileIdentity) -> (result: Result<MainStep>)
        requires
            old(self).well_formed(),
        ensures
            (final(self)@, outcome(result)) == old(self)@.identity_of(identity),
            final(self).well_formed(),
    {
        let (base, size): (usize, u32) = match &self.current {
            None => return Ok(self.step()),
            Some(image) => (image.base, image.headers.image_size),
        };
        if identity != self.expected {
            assert(self.index < self.mappings.len());
            self.index = self.index + 1;
            self.current = None;
            return Ok(self.step());
        }
        let end: usize = match base.checked_add(size as usize) {
            None => return Err(pe("image extent overflow")),
            Some(end) => end,
        };
        self.address = base;
        self.end = end;
        Ok(self.walk())
    }

    /// Take the region of the current image that was queried.
    pub fn region(&mut self, region: &Region) -> (result: Result<MainStep>)
        requires
            old(self).well_formed(),
        ensures
            (final(self)@, outcome(result)) == old(self)@.region_of(*region),
            final(self).well_formed(),
    {
        let base: usize = match &self.current {
            None => return Ok(self.step()),
            Some(image) => image.base,
        };
        if region.allocation_base != base || region.kind != MEM_IMAGE {
            return Err(pe("image extends beyond mapping"));
        }
        let next: usize = match region_end(region, self.address) {
            Err(error) => return Err(error),
            Ok(next) => next,
        };
        self.address = next;
        Ok(self.walk())
    }

    /// The one executable mapping with the expected identity.
    pub fn finish(self) -> (result: Result<MainImage>)
        ensures
            viewed(result) == self@.finished(),
    {
        let mut candidates = self.candidates;
        if candidates.len() != 1 {
            return Err(pe("main executable mapping is missing or ambiguous"));
        }
        match candidates.pop() {
            Some(image) => Ok(image),
            None => Err(pe("main executable mapping is missing or ambiguous")),
        }
    }
}

/// What a target answers to the questions of the search: the headers of a
/// mapping with their bytes, the identity of its file, and the region at an
/// address.
pub struct MainAnswers {
    pub headers: spec_fn(int) -> std::result::Result<(HeadersView, Seq<u8>), ErrorView>,
    pub identities: spec_fn(int) -> std::result::Result<FileIdentity, ErrorView>,
    pub regions: spec_fn(usize) -> std::result::Result<Region, ErrorView>,
}

/// How far the look at one mapping still has to go.
pub open spec fn stage(step: MainStep) -> int {
    match step {
        MainStep::Headers(_) => 2,
        MainStep::Identity(_) => 1,
        _ => 0,
    }
}

impl MainImageSearchView {
    /// `step` is one that the search can have asked for last.
    pub open spec fn awaits(self, step: MainStep) -> bool {
        match step {
            MainStep::Headers(_) => self.index < self.mappings.len(),
            MainStep::Identity(_) => self.index < self.mappings.len() && self.current is Some,
            MainStep::Query(address) => self.index < self.mappings.len() && self.current is Some
                && address == self.address && self.address < self.end,
            MainStep::Finished => true,
        }
    }

    /// How the search ends from here, when every step is answered in turn.
    pub open spec fn run(self, step: MainStep, answers: MainAnswers) -> std::result::Result<
        MainImageView,
        ErrorView,
    >
        decreases self.mappings.len() - self.index, stage(step), self.end - self.address,
        when self.awaits(step)
    {
        match step {
            MainStep::Headers(_) => match (answers.headers)(self.index) {
                Err(fault) => Err(fault),
                Ok((headers, bytes)) => {
                    let (next, step) = self.headers_of(headers, bytes);
                    next.run(step, answers)
                },
            },
            MainStep::Identity(_) => match (answers.identities)(self.index) {
                Err(fault) => Err(fault),
                Ok(identity) => match self.identity_of(identity) {
                    (_, Err(fault)) => Err(fault),
                    (next, Ok(step)) => next.run(step, answers),
                },
            },
            MainStep::Query(address) => match (answers.regions)(address) {
                Err(fault) => Err(fault),
                Ok(region) => match self.region_of(region) {
                    (_, Err(fault)) => Err(fault),
                    (next, Ok(step)) => next.run(step, answers),
                },
            },
            MainStep::Finished => self.finished(),
        }
    }
}

/// The regions from `at` up to `end` belong to the image allocation at `base`.
pub open spec fn lies_whole(
    base: usize,
    at: usize,
    end: usize,
    regions: spec_fn(usize) -> std::result::Result<Region, ErrorView>,
) -> bool
    decreases if at < end {
        end - at
    } else {
        0
    },
{
    at >= end || match regions(at) {
        Err(_) => false,
        Ok(region) => region.allocation_base == base && region.kind == MEM_IMAGE && match
            region_end_of(region, at) {
            Err(_) => false,
            Ok(next) => lies_whole(base, next, end, regions),
        },
    }
}

/// The byte at `a` belongs to the image allocation at `base`.
pub open spec fn is_held(
    base: usize,
    a: usize,
    regions: spec_fn(usize) -> std::result::Result<Region, ErrorView>,
) -> bool {
    regions(a) matches Ok(region) && region.allocation_base == base && region.kind == MEM_IMAGE
        && region_end_of(region, a) is Ok
}

/// Where a query gives the same region for every address in it, regions belong
/// to an image allocation exactly when every byte of them does.
pub proof fn whole_extents_are_held(
    base: usize,
    at: usize,
    end: usize,
    regions: spec_fn(usize) -> std::result::Result<Region, ErrorView>,
)
    requires
        forall|a: usize, c: usize|
            (#[trigger] regions(a) matches Ok(region) && region.base <= c < region.base
                + region.size) ==> #[trigger] regions(c) == regions(a),
    ensures
        lies_whole(base, at, end, regions) <==> forall|a: usize|
            at <= a < end ==> #[trigger] is_held(base, a, regions),
    decreases if at < end {
        end - at
    } else {
        0
    },
{
    if at < end {
        if is_held(base, at, regions) {
            let next = region_end_of(regions(at)->Ok_0, at)->Ok_0;
            whole_extents_are_held(base, next, end, regions);
            assert forall|a: usize| at <= a < next implies #[trigger] is_held(
                base,
                a,
                regions,
            ) by {
                assert(regions(a) == regions(at));
            }
        }
    }
}

/// The mappings of a process, the identity of its executable, and its answers.
pub struct MainScene {
    pub expected: FileIdentity,
    pub mappings: Seq<MappingView>,
    pub answers: MainAnswers,
}

impl MainScene {
    /// Mapping number `i` is no DLL and has the expected identity.
    pub open spec fn is_main(self, i: int) -> bool {
        &&& (self.answers.headers)(i) matches Ok((headers, _)) && headers.characteristics
            & FILE_IS_DLL == 0
        &&& (self.answers.identities)(i) == Ok::<FileIdentity, ErrorView>(self.expected)
    }

    /// Mapping number `i` as an image.
    pub open spec fn image_at(self, i: int) -> MainImageView {
        MainImageView {
            base: self.mappings[i].base,
            headers: (self.answers.headers)(i)->Ok_0.0,
            bytes: (self.answers.headers)(i)->Ok_0.1,
        }
    }

    /// The whole extent of mapping number `i` lies in its own image allocation.
    pub open spec fn is_whole(self, i: int) -> bool {
        let image = self.image_at(i);
        let end = image.base + image.headers.image_size;
        end <= usize::MAX && lies_whole(image.base, image.base, end as usize, self.answers.regions)
    }

    /// Mapping number `i` can be looked at: its headers can be read, its file
    /// can be identified unless it is a DLL, and it is whole if it is a mapping
    /// of the executable.
    pub open spec fn can_be_passed(self, i: int) -> bool {
        &&& (self.answers.headers)(i) matches Ok((headers, _)) && (headers.characteristics
            & FILE_IS_DLL == 0 ==> (self.answers.identities)(i) is Ok)
        &&& self.is_main(i) ==> self.is_whole(i)
    }

    /// Mapping number `i` is the only one of the executable.
    pub open spec fn is_only_main(self, i: int) -> bool {
        &&& 0 <= i < self.mappings.len()
        &&& self.is_main(i)
        &&& forall|j: int| 0 <= j < self.mappings.len() && #[trigger] self.is_main(j) ==> j == i
    }

    /// The search at its first mapping.
    pub open spec fn start(self) -> MainImageSearchView {
        MainImageSearchView {
            expected: self.expected,
            mappings: self.mappings,
            index: 0,
            current: None,
            address: 0,
            end: 0,
            candidates: Seq::empty(),
        }
    }

    /// How the search ends.
    pub open spec fn found(self) -> std::result::Result<MainImageView, ErrorView> {
        self.start().run(self.start().step_of(), self.answers)
    }

    /// The images of the executable among the first `n` mappings.
    spec fn mains(self, n: int) -> Seq<MainImageView>
        decreases n,
    {
        if n <= 0 {
            Seq::empty()
        } else if self.is_main(n - 1) {
            self.mains(n - 1).push(self.image_at(n - 1))
        } else {
            self.mains(n - 1)
        }
    }

    /// `search` has passed the mappings in front of its own.
    spec fn reached_by(self, search: MainImageSearchView) -> bool {
        &&& search.expected == self.expected
        &&& search.mappings == self.mappings
        &&& 0 <= search.index <= self.mappings.len()
        &&& search.candidates == self.mains(search.index)
    }
}

/// The walk over the regions of the current image accepts it if it is whole,
/// and else ends the search.
proof fn lemma_extent_walk(
    search: MainImageSearchView,
    image: MainImageView,
    answers: MainAnswers,
) -> (next: MainImageSearchView)
    requires
        search.current == Some(image),
        0 <= search.index < search.mappings.len(),
    ensures
        lies_whole(image.base, search.address, search.end, answers.regions) ==> {
            &&& search.walked().0.run(search.walked().1, answers) == next.run(
                next.step_of(),
                answers,
            )
            &&& next.expected == search.expected
            &&& next.mappings == search.mappings
            &&& next.index == search.index + 1
            &&& next.candidates == search.candidates.push(image)
        },
        !lies_whole(image.base, search.address, search.end, answers.regions)
            ==> search.walked().0.run(search.walked().1, answers) is Err,
    decreases if search.address < search.end {
        search.end - search.address
    } else {
        0
    },
{
    if search.address >= search.end {
        search.walked().0
    } else {
        match (answers.regions)(search.address) {
            Err(_) => search,
            Ok(region) => match region_end_of(region, search.address) {
                Err(_) => search,
                Ok(end) => lemma_extent_walk(
                    MainImageSearchView { address: end, ..search },
                    image,
                    answers,
                ),
            },
        }
    }
}

/// The look at one mapping: it is passed, and remembered if it is one of the
/// executable, or it ends the search.
proof fn lemma_mapping(scene: MainScene, search: MainImageSearchView) -> (next: MainImageSearchView)
    requires
        scene.reached_by(search),
        search.index < scene.mappings.len(),
    ensures
        scene.can_be_passed(search.index) ==> {
            &&& search.run(search.step_of(), scene.answers) == next.run(
                next.step_of(),
                scene.answers,
            )
            &&& scene.reached_by(next)
            &&& next.index == search.index + 1
        },
        !scene.can_be_passed(search.index) ==> search.run(search.step_of(), scene.answers) is Err,
{
    reveal_with_fuel(MainImageSearchView::run, 3);
    let i = search.index;
    match (scene.answers.headers)(i) {
        Err(_) => search,
        Ok((headers, bytes)) => if headers.characteristics & FILE_IS_DLL != 0 {
            search.skipped()
        } else {
            let looked = search.headers_of(headers, bytes).0;
            let image = scene.image_at(i);
            assert(looked.current == Some(image));
            match (scene.answers.identities)(i) {
                Err(_) => search,
                Ok(identity) => if identity != scene.expected {
                    looked.skipped()
                } else if image.base + image.headers.image_size > usize::MAX {
                    search
                } else {
                    lemma_extent_walk(
                        MainImageSearchView {
                            address: image.base,
                            end: (image.base + image.headers.image_size) as usize,
                            ..looked
                        },
                        image,
                        scene.answers,
                    )
                },
            }
        },
    }
}

/// What the search answers when these are the images of the executable.
spec fn chosen(mains: Seq<MainImageView>) -> std::result::Result<MainImageView, ErrorView> {
    if mains.len() != 1 {
        Err(ErrorView::Pe("main executable mapping is missing or ambiguous"@))
    } else {
        Ok(mains[0])
    }
}

proof fn lemma_search(scene: MainScene, search: MainImageSearchView)
    requires
        scene.reached_by(search),
    ensures
        (forall|j: int|
            search.index <= j < scene.mappings.len() ==> #[trigger] scene.can_be_passed(j))
            ==> search.run(search.step_of(), scene.answers) == chosen(
            scene.mains(scene.mappings.len() as int),
        ),
        (exists|j: int|
            search.index <= j < scene.mappings.len() && !#[trigger] scene.can_be_passed(j))
            ==> search.run(search.step_of(), scene.answers) is Err,
    decreases scene.mappings.len() - search.index,
{
    if search.index < scene.mappings.len() {
        let next = lemma_mapping(scene, search);
        if scene.can_be_passed(search.index) {
            lemma_search(scene, next);
        }
    }
}

proof fn lemma_no_main(scene: MainScene, n: int)
    ensures
        scene.mains(n).len() == 0 <==> forall|j: int| 0 <= j < n ==> !#[trigger] scene.is_main(j),
    decreases n,
{
    if n > 0 {
        lemma_no_main(scene, n - 1);
        if scene.mains(n).len() != 0 && !scene.is_main(n - 1) {
            let j = choose|j: int| 0 <= j < n - 1 && #[trigger] scene.is_main(j);
            assert(scene.is_main(j));
        }
    }
}

proof fn lemma_only_main(scene: MainScene, n: int, i: int)
    requires
        0 <= i < n,
        scene.is_main(i),
        forall|j: int| 0 <= j < n && #[trigger] scene.is_main(j) ==> j == i,
    ensures
        scene.mains(n) == seq![scene.image_at(i)],
    decreases n,
{
    if i == n - 1 {
        lemma_no_main(scene, n - 1);
        assert(scene.mains(n) =~= seq![scene.image_at(i)]);
    } else {
        lemma_only_main(scene, n - 1, i);
    }
}

proof fn lemma_one_main(scene: MainScene, n: int) -> (i: int)
    requires
        scene.mains(n).len() == 1,
    ensures
        0 <= i < n,
        scene.is_main(i),
        forall|j: int| 0 <= j < n && #[trigger] scene.is_main(j) ==> j == i,
    decreases n,
{
    if scene.is_main(n - 1) {
        lemma_no_main(scene, n - 1);
        n - 1
    } else {
        lemma_one_main(scene, n - 1)
    }
}

/// The search ends in an image exactly when every mapping can be passed and
/// exactly one of them is of the executable: is no DLL, has the expected
/// identity, and has its whole extent in its own image allocation. The result
/// is that mapping. With no such mapping, or with several, the search says so.
pub proof fn the_main_image_is_found(scene: MainScene)
    ensures
        forall|i: int|
            #[trigger] scene.is_only_main(i) && (forall|j: int|
                0 <= j < scene.mappings.len() ==> #[trigger] scene.can_be_passed(j))
                ==> scene.found() == Ok::<MainImageView, ErrorView>(scene.image_at(i))
                && scene.is_whole(i),
        scene.found() is Ok ==> {
            &&& forall|j: int|
                0 <= j < scene.mappings.len() ==> #[trigger] scene.can_be_passed(j)
            &&& exists|i: int| #[trigger] scene.is_only_main(i)
        },
        (forall|j: int| 0 <= j < scene.mappings.len() ==> #[trigger] scene.can_be_passed(j)) && (
        forall|i: int| !#[trigger] scene.is_only_main(i)) ==> scene.found() == Err::<
            MainImageView,
            ErrorView,
        >(ErrorView::Pe("main executable mapping is missing or ambiguous"@)),
{
    let n = scene.mappings.len() as int;
    lemma_search(scene, scene.start());
    assert forall|i: int|
        #[trigger] scene.is_only_main(i) && (forall|j: int|
            0 <= j < scene.mappings.len() ==> #[trigger] scene.can_be_passed(
                j,
            )) implies scene.found() == Ok::<MainImageView, ErrorView>(scene.image_at(i))
        && scene.is_whole(i) by {
        assert(scene.can_be_passed(i));
        lemma_only_main(scene, n, i);
    }
    if scene.mains(n).len() == 1 {
        let i = lemma_one_main(scene, n);
        assert(scene.is_only_main(i));
    }
}

} // verus!
