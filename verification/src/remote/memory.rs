//! Bounded transfers, memory regions, and paths that Windows fills in.

use crate::error::{outcome, pe, viewed, ErrorView, Result};
use vstd::prelude::*;

verus! {

pub const MAX_TRANSFER_BYTES: usize = 16777216;

pub const MAX_REGION_QUERIES: usize = 1000000;

/// The units of a buffer that receives a path.
pub const PATH_BUFFER_UNITS: usize = 32768;

pub const MEM_COMMIT: u32 = 0x1000;

pub const MEM_FREE: u32 = 0x1_0000;

pub const MEM_IMAGE: u32 = 0x100_0000;

/// Guarded and inaccessible pages.
pub const PAGE_UNREADABLE: u32 = 0x101;

/// Every protection that lets code run.
pub const EXECUTABLE_PROTECTION: u32 = 0xf0;

/// A region of pages with common attributes.
#[derive(Debug, Clone, Copy, PartialEq, Eq, Structural)]
pub struct Region {
    pub base: usize,
    pub size: usize,
    pub allocation_base: usize,
    pub state: u32,
    pub protect: u32,
    pub kind: u32,
}

/// Where the region ends, if it holds `address`.
pub open spec fn region_end_of(region: Region, address: usize) -> std::result::Result<
    usize,
    ErrorView,
> {
    if region.base + region.size > usize::MAX {
        Err(ErrorView::Pe("memory region overflow"@))
    } else if region.base > address || region.base + region.size <= address {
        Err(ErrorView::Pe("memory region does not contain scan address"@))
    } else {
        Ok((region.base + region.size) as usize)
    }
}

/// Every address-space walk must advance without wrapping or skipping a gap.
pub fn region_end(region: &Region, address: usize) -> (result: Result<usize>)
    ensures
        outcome(result) == region_end_of(*region, address),
{
    let end: usize = match region.base.checked_add(region.size) {
        None => return Err(pe("memory region overflow")),
        Some(end) => end,
    };
    if region.base > address || end <= address {
        return Err(pe("memory region does not contain scan address"));
    }
    Ok(end)
}

/// A walk that goes on at the end of a region has passed its address.
pub proof fn region_walk_advances(region: Region, address: usize)
    requires
        region_end_of(region, address) is Ok,
    ensures
        region.base <= address < region_end_of(region, address)->Ok_0,
{
}

/// The number of units before the first NUL.
pub open spec fn terminated_len(buffer: Seq<u16>) -> int
    decreases buffer.len(),
{
    if buffer.len() == 0 || buffer[0] == 0 {
        0
    } else {
        1 + terminated_len(buffer.skip(1))
    }
}

/// There is no NUL among the units that [`terminated_len`] counts, and one
/// stands behind them unless the buffer ends there.
pub proof fn terminated_len_is_first_nul(buffer: Seq<u16>)
    ensures
        0 <= terminated_len(buffer) <= buffer.len(),
        forall|i: int| 0 <= i < terminated_len(buffer) ==> buffer[i] != 0,
        terminated_len(buffer) < buffer.len() ==> buffer[terminated_len(buffer)] == 0,
    decreases buffer.len(),
{
    if buffer.len() > 0 && buffer[0] != 0 {
        let rest = buffer.skip(1);
        terminated_len_is_first_nul(rest);
        assert forall|i: int| 0 <= i < terminated_len(buffer) implies buffer[i] != 0 by {
            if i > 0 {
                assert(buffer[i] == rest[i - 1]);
            }
        }
        if terminated_len(buffer) < buffer.len() {
            assert(buffer[terminated_len(buffer)] == rest[terminated_len(rest)]);
        }
    }
}

/// The first NUL, or the end, determines how many units are counted.
proof fn lemma_terminated_len(buffer: Seq<u16>, n: int)
    requires
        0 <= n <= buffer.len(),
        forall|i: int| 0 <= i < n ==> buffer[i] != 0,
        n < buffer.len() ==> buffer[n] == 0,
    ensures
        terminated_len(buffer) == n,
{
    terminated_len_is_first_nul(buffer);
    let m = terminated_len(buffer);
    if m < n {
        assert(buffer[m] != 0);
    } else if n < m {
        assert(buffer[n] != 0);
    }
}

fn count_units(buffer: &[u16]) -> (n: usize)
    ensures
        n == terminated_len(buffer@),
{
    let mut n: usize = 0;
    while n < buffer.len() && buffer[n] != 0
        invariant
            n <= buffer@.len(),
            forall|i: int| 0 <= i < n ==> buffer@[i] != 0,
        decreases buffer@.len() - n,
    {
        n += 1;
    }
    proof {
        lemma_terminated_len(buffer@, n as int);
    }
    n
}

/// The path in a buffer for which Windows reported `length` units.
pub open spec fn finished_path(buffer: Seq<u16>, length: usize) -> std::result::Result<
    Seq<u16>,
    ErrorView,
> {
    if length >= buffer.len() {
        Err(ErrorView::Pe("remote path too long"@))
    } else if terminated_len(buffer) != length {
        Err(ErrorView::Pe("remote path length does not match terminator"@))
    } else {
        Ok(buffer.take(length + 1))
    }
}

/// Windows path APIs return UTF-16 units, excluding the terminator. The path
/// keeps its terminator.
pub fn finish_path(buffer: Vec<u16>, length: usize) -> (result: Result<Vec<u16>>)
    ensures
        viewed(result) == finished_path(buffer@, length),
{
    if length >= buffer.len() {
        return Err(pe("remote path too long"));
    }
    if count_units(&buffer) != length {
        return Err(pe("remote path length does not match terminator"));
    }
    let mut path = buffer;
    path.truncate(length + 1);
    assert(path@ =~= buffer@.take(length + 1));
    Ok(path)
}

/// The fault of a transfer of `size` bytes at `address`.
pub open spec fn transfer_fault(address: usize, size: usize) -> bool {
    size > MAX_TRANSFER_BYTES || address + size > usize::MAX
}

/// Whether a remote read may be tried at all.
pub fn check_read(address: usize, size: usize) -> (result: Result<()>)
    ensures
        outcome(result) == if transfer_fault(address, size) {
            Err::<(), ErrorView>(ErrorView::Pe("remote read exceeds bounds"@))
        } else {
            Ok(())
        },
{
    if size > MAX_TRANSFER_BYTES || address.checked_add(size).is_none() {
        return Err(pe("remote read exceeds bounds"));
    }
    Ok(())
}

/// Accept a remote read only if it filled the whole buffer.
pub fn finish_read(buffer: Vec<u8>, count: usize) -> (result: Result<Vec<u8>>)
    ensures
        viewed(result) == if count != buffer@.len() {
            Err::<Seq<u8>, ErrorView>(ErrorView::Pe("short remote read"@))
        } else {
            Ok(buffer@)
        },
{
    if count != buffer.len() {
        return Err(pe("short remote read"));
    }
    Ok(buffer)
}

/// Whether a remote write may be tried at all.
pub fn check_write(address: usize, size: usize) -> (result: Result<()>)
    ensures
        outcome(result) == if transfer_fault(address, size) {
            Err::<(), ErrorView>(ErrorView::Pe("remote write exceeds bounds"@))
        } else {
            Ok(())
        },
{
    if size > MAX_TRANSFER_BYTES || address.checked_add(size).is_none() {
        return Err(pe("remote write exceeds bounds"));
    }
    Ok(())
}

/// Accept a remote write only if it wrote all `size` bytes.
pub fn finish_write(size: usize, count: usize) -> (result: Result<()>)
    ensures
        outcome(result) == if count != size {
            Err::<(), ErrorView>(ErrorView::Pe("short remote write"@))
        } else {
            Ok(())
        },
{
    if count != size {
        return Err(pe("short remote write"));
    }
    Ok(())
}

/// Accept a memory query only if Windows filled the whole record.
pub fn finish_query(size: usize, count: usize) -> (result: Result<()>)
    ensures
        outcome(result) == if count != size {
            Err::<(), ErrorView>(ErrorView::Pe("short memory information query"@))
        } else {
            Ok(())
        },
{
    if count != size {
        return Err(pe("short memory information query"));
    }
    Ok(())
}

} // verus!
