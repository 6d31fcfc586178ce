//! The search for an allocation that 32-bit relative addresses can reach.

use crate::error::{outcome, pe, Error, ErrorView, Result};
use crate::remote::memory::{region_end, region_end_of, Region, MAX_REGION_QUERIES, MEM_FREE};
use crate::strategy::Strategy;
use vstd::prelude::*;

verus! {

/// The next multiple of `granularity` that is not below `address`.
pub open spec fn aligned_up(address: int, granularity: int) -> int {
    if address % granularity == 0 {
        address
    } else {
        address + granularity - address % granularity
    }
}

/// What the search asks for next.
#[derive(Debug, Clone, Copy, PartialEq, Eq, Structural)]
pub enum NearStep {
    /// Query the region at this address.
    Query(usize),
    /// Try to allocate at this address.
    Allocate(usize),
    /// Release the allocation at this address, which Windows placed out of reach.
    Release(usize),
    /// Keep the allocation at this address: the search has succeeded.
    Keep(usize),
    /// Give up.
    Exhausted,
}

/// A walk over the regions behind an image for a free place of `size` bytes.
#[derive(Debug, Clone, Copy, PartialEq, Eq, Structural)]
pub struct NearSearch {
    pub base: usize,
    pub size: usize,
    pub granularity: usize,
    /// The last address that a 32-bit relative address reaches.
    pub limit: usize,
    /// Where the walk stands.
    pub address: usize,
    /// Where the region at `address` ends, once it was queried.
    pub end: usize,
    pub attempts: usize,
}

/// Where a search behind the image at `base` begins.
pub open spec fn near_start_of(base: usize, size: usize, granularity: usize) -> std::result::Result<
    NearSearch,
    ErrorView,
> {
    if granularity == 0 {
        Err(ErrorView::Pe("invalid allocation granularity"@))
    } else if base + u32::MAX > usize::MAX {
        Err(ErrorView::Pe("address overflow"@))
    } else {
        Ok(
            NearSearch {
                base,
                size,
                granularity,
                limit: (base + u32::MAX) as usize,
                address: base,
                end: base,
                attempts: 0,
            },
        )
    }
}

impl NearSearch {
    /// The search never goes back behind its base.
    pub open spec fn well_formed(self) -> bool {
        &&& self.granularity > 0
        &&& self.limit == self.base + u32::MAX
        &&& self.base <= self.address
        &&& self.base <= self.end
        &&& self.attempts <= MAX_REGION_QUERIES
    }

    /// `size` bytes at `address` lie behind the base and within reach.
    pub open spec fn reaches(self, address: usize) -> bool {
        self.base <= address && address + self.size <= self.limit
    }

    /// Go on, or give up.
    pub open spec fn step_of(self) -> NearStep {
        if self.address < self.limit && self.attempts < MAX_REGION_QUERIES {
            NearStep::Query(self.address)
        } else {
            NearStep::Exhausted
        }
    }

    /// The state once the region at `address` is passed.
    pub open spec fn passed(self) -> NearSearch {
        NearSearch { address: self.end, ..self }
    }

    /// The state once the region at `address` is known to end at `end`.
    pub open spec fn queried(self, end: usize) -> NearSearch {
        NearSearch { end, attempts: (self.attempts + 1) as usize, ..self }
    }

    /// What a queried region leads to.
    pub open spec fn region_of(self, region: Region) -> (
        NearSearch,
        std::result::Result<NearStep, ErrorView>,
    ) {
        if self.attempts >= MAX_REGION_QUERIES {
            (self, Ok(NearStep::Exhausted))
        } else {
            match region_end_of(region, self.address) {
                Err(fault) => (self, Err(fault)),
                Ok(end) => {
                    let next = self.queried(end);
                    let candidate = aligned_up(self.address as int, self.granularity as int);
                    if region.state != MEM_FREE {
                        (next.passed(), Ok(next.passed().step_of()))
                    } else if candidate > usize::MAX {
                        (next, Err(ErrorView::Pe("alignment overflow"@)))
                    } else if candidate + self.size <= end && candidate + self.size <= self.limit {
                        (next, Ok(NearStep::Allocate(candidate as usize)))
                    } else {
                        (next.passed(), Ok(next.passed().step_of()))
                    }
                },
            }
        }
    }

    /// What an attempt to allocate leads to.
    pub open spec fn allocated_of(self, address: Option<usize>) -> (NearSearch, NearStep) {
        match address {
            Some(address) => if self.reaches(address) {
                (self, NearStep::Keep(address))
            } else {
                (self, NearStep::Release(address))
            },
            None => (self.passed(), self.passed().step_of()),
        }
    }

    /// Begin behind the image at `base`.
    pub fn start(base: usize, size: usize, granularity: usize) -> (result: Result<Self>)
        ensures
            outcome(result) == near_start_of(base, size, granularity),
            result matches Ok(search) ==> search.well_formed(),
    {
        if granularity == 0 {
            return Err(pe("invalid allocation granularity"));
        }
        let limit: usize = match base.checked_add(u32::MAX as usize) {
            None => return Err(pe("address overflow")),
            Some(limit) => limit,
        };
        Ok(NearSearch { base, size, granularity, limit, address: base, end: base, attempts: 0 })
    }

    /// What to do first, or after a region is passed.
    pub fn step(&self) -> (step: NearStep)
        ensures
            step == self.step_of(),
    {
        if self.address < self.limit && self.attempts < MAX_REGION_QUERIES {
            NearStep::Query(self.address)
        } else {
            NearStep::Exhausted
        }
    }

    /// Take the region that was queried.
    pub fn region(&mut self, region: &Region) -> (result: Result<NearStep>)
        requires
            old(self).well_formed(),
        ensures
            (*final(self), outcome(result)) == old(self).region_of(*region),
            final(self).well_formed(),
    {
        if self.attempts >= MAX_REGION_QUERIES {
            return Ok(NearStep::Exhausted);
        }
        let end: usize = match region_end(region, self.address) {
            Err(error) => return Err(error),
            Ok(end) => end,
        };
        self.attempts = self.attempts + 1;
        self.end = end;
        if region.state == MEM_FREE {
            let past: usize = self.address % self.granularity;
            let candidate: usize = if past == 0 {
                self.address
            } else {
                match self.address.checked_add(self.granularity - past) {
                    None => return Err(pe("alignment overflow")),
                    Some(candidate) => candidate,
                }
            };
            match candidate.checked_add(self.size) {
                Some(last) => {
                    if last <= end && last <= self.limit {
                        return Ok(NearStep::Allocate(candidate));
                    }
                },
                None => {},
            }
        }
        self.address = end;
        Ok(self.step())
    }

    /// Take the address of the allocation, or nothing if it failed.
    pub fn allocated(&mut self, address: Option<usize>) -> (step: NearStep)
        requires
            old(self).well_formed(),
        ensures
            (*final(self), step) == old(self).allocated_of(address),
            final(self).well_formed(),
    {
        match address {
            Some(address) => {
                let reached = address >= self.base && match address.checked_add(self.size) {
                    Some(last) => last <= self.limit,
                    None => false,
                };
                if reached {
                    NearStep::Keep(address)
                } else {
                    NearStep::Release(address)
                }
            },
            None => {
                self.address = self.end;
                self.step()
            },
        }
    }

    /// Go on after an allocation out of reach was released.
    pub fn released(&mut self) -> (step: NearStep)
        requires
            old(self).well_formed(),
        ensures
            *final(self) == old(self).passed(),
            step == final(self).step_of(),
            final(self).well_formed(),
    {
        self.address = self.end;
        self.step()
    }
}

/// The refusal when no place was found.
pub fn near_exhausted() -> (error: Error)
    ensures
        error@ == (ErrorView::StrategyUnavailable {
            strategy: Strategy::ImportTableHijack,
            reason: "no allocation fits the 32-bit RVA range"@,
        }),
{
    Error::StrategyUnavailable {
        strategy: Strategy::ImportTableHijack,
        reason: "no allocation fits the 32-bit RVA range",
    }
}

/// Every place that the search tries is aligned, lies in the free region that
/// was queried, and is within reach of the image.
pub proof fn near_candidates_fit(search: NearSearch, region: Region, candidate: usize)
    requires
        search.well_formed(),
        search.region_of(region).1 == Ok::<NearStep, ErrorView>(NearStep::Allocate(candidate)),
    ensures
        candidate % search.granularity == 0,
        region.state == MEM_FREE,
        region.base <= search.address <= candidate,
        candidate + search.size <= region.base + region.size,
        search.reaches(candidate),
{
    lemma_aligned_up(search.address as int, search.granularity as int);
}

proof fn lemma_aligned_up(address: int, granularity: int)
    requires
        0 <= address,
        0 < granularity,
    ensures
        aligned_up(address, granularity) % granularity == 0,
        address <= aligned_up(address, granularity) < address + granularity,
{
    let q = address / granularity;
    let r = address % granularity;
    vstd::arithmetic::div_mod::lemma_fundamental_div_mod(address, granularity);
    vstd::arithmetic::div_mod::lemma_mod_bound(address, granularity);
    if r != 0 {
        vstd::arithmetic::mul::lemma_mul_is_distributive_add(granularity, q, 1);
        vstd::arithmetic::mul::lemma_mul_is_commutative(granularity, q + 1);
        vstd::arithmetic::div_mod::lemma_mod_multiples_basic(q + 1, granularity);
        assert(aligned_up(address, granularity) == (q + 1) * granularity);
    }
}

/// A kept allocation has a relative address that fits in 32 bits, and so has
/// every byte of it.
pub proof fn near_allocations_are_reachable(search: NearSearch, address: usize)
    requires
        search.well_formed(),
        search.allocated_of(Some(address)).1 == NearStep::Keep(address),
    ensures
        0 <= address - search.base,
        address - search.base + search.size <= u32::MAX,
{
}

/// Each region that the search passes brings it closer to giving up.
pub proof fn near_search_advances(search: NearSearch, region: Region)
    requires
        search.well_formed(),
        search.attempts < MAX_REGION_QUERIES,
        search.region_of(region).1 is Ok,
    ensures
        ({
            let (next, step) = search.region_of(region);
            &&& next.attempts == search.attempts + 1
            &&& search.address < next.end
            &&& step->Ok_0 !is Allocate ==> next.address == next.end
        }),
{
}

/// What a target answers to the search: the region at an address, where an
/// attempt to allocate at an address ends up, and what a release comes to.
pub struct NearAnswers {
    pub regions: spec_fn(usize) -> std::result::Result<Region, ErrorView>,
    pub allocations: spec_fn(usize) -> Option<usize>,
    pub releases: spec_fn(usize) -> std::result::Result<(), ErrorView>,
}

/// How far the work on one region still has to go.
pub open spec fn near_stage(step: NearStep) -> int {
    match step {
        NearStep::Query(_) => 2,
        NearStep::Allocate(_) => 1,
        _ => 0,
    }
}

impl NearSearch {
    /// `step` is one that the search can have asked for last.
    pub open spec fn awaits(self, step: NearStep) -> bool {
        match step {
            NearStep::Query(address) => address == self.address && self.address < self.limit
                && self.attempts < MAX_REGION_QUERIES,
            NearStep::Allocate(_) => self.address < self.limit && self.address < self.end,
            NearStep::Release(_) => self.address < self.limit && self.address < self.end,
            _ => true,
        }
    }

    /// How the search ends from here, when every step is answered in turn: with
    /// its last state, and with the allocation that is kept if there is one.
    pub open spec fn run(self, step: NearStep, answers: NearAnswers) -> std::result::Result<
        (NearSearch, Option<usize>),
        ErrorView,
    >
        decreases
            if self.address < self.limit {
                self.limit - self.address
            } else {
                0
            },
            near_stage(step),
        when self.awaits(step)
    {
        match step {
            NearStep::Query(address) => match (answers.regions)(address) {
                Err(fault) => Err(fault),
                Ok(region) => match self.region_of(region) {
                    (_, Err(fault)) => Err(fault),
                    (next, Ok(step)) => next.run(step, answers),
                },
            },
            NearStep::Allocate(candidate) => {
                let (next, step) = self.allocated_of((answers.allocations)(candidate));
                next.run(step, answers)
            },
            NearStep::Release(address) => match (answers.releases)(address) {
                Err(fault) => Err(fault),
                Ok(_) => self.passed().run(self.passed().step_of(), answers),
            },
            NearStep::Keep(address) => Ok((self, Some(address))),
            NearStep::Exhausted => Ok((self, None)),
        }
    }

    /// Where `size` bytes are tried in a free region that is entered at `address`.
    pub open spec fn candidate(self, address: usize) -> int {
        aligned_up(address as int, self.granularity as int)
    }

    /// A free region is entered at `address`, behind the base, and has room for
    /// an aligned allocation within reach.
    pub open spec fn has_place(self, answers: NearAnswers, address: usize) -> bool {
        &&& self.base <= address < self.limit
        &&& (answers.regions)(address) matches Ok(region) && {
            &&& address == self.base || address == region.base
            &&& region.state == MEM_FREE
            &&& region.base <= address
            &&& self.candidate(address) + self.size <= region.base + region.size <= usize::MAX
            &&& self.candidate(address) + self.size <= self.limit
        }
    }

    /// An attempt in the region at `address` gives an allocation within reach.
    pub open spec fn has_success(self, answers: NearAnswers, address: usize) -> bool {
        (answers.allocations)(self.candidate(address) as usize) matches Some(kept) && self.reaches(
            kept,
        )
    }

    /// No attempt in a region below `end` gives an allocation within reach.
    pub open spec fn fails_below(self, answers: NearAnswers, end: int) -> bool {
        forall|address: usize| #[trigger]
            self.has_place(answers, address) && address < end ==> !self.has_success(
                answers,
                address,
            )
    }

    /// `kept` is what the first attempt within reach gives.
    pub open spec fn is_first(self, answers: NearAnswers, kept: usize) -> bool {
        exists|address: usize|
            {
                &&& #[trigger] self.has_place(answers, address)
                &&& self.has_success(answers, address)
                &&& (answers.allocations)(self.candidate(address) as usize) == Some(kept)
                &&& self.fails_below(answers, address as int)
            }
    }

    /// The two searches look for the same.
    spec fn is_like(self, other: NearSearch) -> bool {
        &&& self.base == other.base
        &&& self.size == other.size
        &&& self.granularity == other.granularity
        &&& self.limit == other.limit
    }
}

impl NearAnswers {
    /// A query gives the same region for every address in it.
    pub open spec fn are_coherent(self) -> bool {
        forall|a: usize, c: usize|
            (#[trigger] (self.regions)(a) matches Ok(region) && region.base <= c < region.base
                + region.size) ==> #[trigger] (self.regions)(c) == (self.regions)(a)
    }
}

/// Everything in front of the search has failed, and a region is entered where
/// it stands.
spec fn has_failed(search: NearSearch, answers: NearAnswers) -> bool {
    &&& search.well_formed()
    &&& search.fails_below(answers, search.address as int)
    &&& search.address > search.base ==> ((answers.regions)((search.address - 1) as usize) matches
        Ok(last) && last.base + last.size == search.address)
}

proof fn lemma_region_entered(search: NearSearch, answers: NearAnswers, region: Region)
    requires
        answers.are_coherent(),
        has_failed(search, answers),
        (answers.regions)(search.address) == Ok::<Region, ErrorView>(region),
        region_end_of(region, search.address) is Ok,
    ensures
        search.address == search.base || search.address == region.base,
        forall|address: usize|
            search.address < address < region.base + region.size ==> !#[trigger] search.has_place(
                answers,
                address,
            ),
        (answers.regions)((region.base + region.size - 1) as usize) == Ok::<Region, ErrorView>(
            region,
        ),
{
    if search.address > search.base && region.base < search.address {
        let before = (search.address - 1) as usize;
        assert((answers.regions)(before) == (answers.regions)(search.address));
    }
    assert forall|address: usize|
        search.address < address < region.base + region.size implies !#[trigger] search.has_place(
        answers,
        address,
    ) by {
        assert((answers.regions)(address) == (answers.regions)(search.address));
    }
    let last = (region.base + region.size - 1) as usize;
    assert((answers.regions)(last) == (answers.regions)(search.address));
}

/// Passing a region where no attempt succeeds.
proof fn lemma_region_passed(
    search: NearSearch,
    next: NearSearch,
    answers: NearAnswers,
    region: Region,
)
    requires
        answers.are_coherent(),
        has_failed(search, answers),
        (answers.regions)(search.address) == Ok::<Region, ErrorView>(region),
        region_end_of(region, search.address) == Ok::<usize, ErrorView>(next.address),
        next.is_like(search),
        next.well_formed(),
        search.has_place(answers, search.address) ==> !search.has_success(answers, search.address),
    ensures
        has_failed(next, answers),
{
    lemma_region_entered(search, answers, region);
    assert forall|address: usize| #[trigger]
        next.has_place(answers, address) && address < next.address implies !next.has_success(
        answers,
        address,
    ) by {
        assert(search.has_place(answers, address));
    }
}

proof fn lemma_near(search: NearSearch, answers: NearAnswers)
    requires
        answers.are_coherent(),
        has_failed(search, answers),
    ensures
        match search.run(search.step_of(), answers) {
            Err(_) => true,
            Ok((end, Some(kept))) => search.is_first(answers, kept),
            Ok((end, None)) => end.attempts < MAX_REGION_QUERIES ==> search.fails_below(
                answers,
                search.limit as int,
            ),
        },
    decreases if search.address < search.limit {
        search.limit - search.address
    } else {
        0
    },
{
    reveal_with_fuel(NearSearch::run, 4);
    if search.step_of() is Query && (answers.regions)(search.address) is Ok {
        let region = (answers.regions)(search.address)->Ok_0;
        let (queried, step) = search.region_of(region);
        if step is Ok {
            lemma_region_entered(search, answers, region);
            let next = if step->Ok_0 is Allocate {
                queried.passed()
            } else {
                queried
            };
            if step->Ok_0 is Allocate && search.has_success(answers, search.address) {
                assert(search.has_place(answers, search.address));
            } else {
                lemma_region_passed(search, next, answers, region);
                lemma_near(next, answers);
                lemma_like(search, next, answers);
            }
        }
    }
}

proof fn lemma_like(search: NearSearch, next: NearSearch, answers: NearAnswers)
    requires
        next.is_like(search),
    ensures
        forall|kept: usize| #[trigger]
            next.is_first(answers, kept) ==> search.is_first(answers, kept),
        forall|end: int| #[trigger]
            next.fails_below(answers, end) ==> search.fails_below(answers, end),
{
    assert forall|end: int| #[trigger] next.fails_below(answers, end) implies search.fails_below(
        answers,
        end,
    ) by {
        assert forall|address: usize| #[trigger]
            search.has_place(answers, address) && address < end implies !search.has_success(
            answers,
            address,
        ) by {
            assert(next.has_place(answers, address));
        }
    }
    assert forall|kept: usize| #[trigger] next.is_first(answers, kept) implies search.is_first(
        answers,
        kept,
    ) by {
        let address = choose|address: usize|
            {
                &&& #[trigger] next.has_place(answers, address)
                &&& next.has_success(answers, address)
                &&& (answers.allocations)(next.candidate(address) as usize) == Some(kept)
                &&& next.fails_below(answers, address as int)
            };
        assert(search.has_place(answers, address));
    }
}

/// The search keeps what the first attempt within reach gives. Where it ends
/// with nothing, short of its query limit, no attempt in any free region gives
/// an allocation within reach.
pub proof fn near_searches_miss_nothing(
    base: usize,
    size: usize,
    granularity: usize,
    search: NearSearch,
    answers: NearAnswers,
)
    requires
        near_start_of(base, size, granularity) == Ok::<NearSearch, ErrorView>(search),
        answers.are_coherent(),
    ensures
        match search.run(search.step_of(), answers) {
            Err(_) => true,
            Ok((end, Some(kept))) => search.is_first(answers, kept),
            Ok((end, None)) => end.attempts < MAX_REGION_QUERIES ==> search.fails_below(
                answers,
                search.limit as int,
            ),
        },
{
    lemma_near(search, answers);
}

} // verus!
