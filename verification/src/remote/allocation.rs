//! Who frees an allocation in the target.

use crate::error::{outcome, win32, Error, ErrorView, Result};
use crate::remote::near::{near_start_of, NearSearch};
use vstd::prelude::*;

verus! {

/// An allocation in the target. One that is armed is freed when it goes out
/// of scope; one that was retained or released is not.
#[derive(Debug)]
pub struct RemoteAlloc {
    pub address: usize,
    pub armed: bool,
}

/// A failed call of this name.
pub open spec fn is_win32(error: ErrorView, name: Seq<char>) -> bool {
    error matches ErrorView::Win32 { call, .. } && call == name
}

/// An allocation that is left to the target.
pub open spec fn retained_of(owned: RemoteAlloc) -> RemoteAlloc {
    RemoteAlloc { armed: false, ..owned }
}

/// An allocation after an attempt to free it.
pub open spec fn released_of(owned: RemoteAlloc, freed: bool) -> RemoteAlloc {
    if freed {
        RemoteAlloc { armed: false, ..owned }
    } else {
        owned
    }
}

impl RemoteAlloc {
    /// Take charge of what was allocated. No address means that nothing was.
    pub fn new(address: usize) -> (result: Result<Self>)
        ensures
            address != 0 ==> result == Ok::<RemoteAlloc, Error>(
                RemoteAlloc { address, armed: true },
            ),
            address == 0 ==> (result matches Err(error) && is_win32(error@, "VirtualAllocEx"@)),
    {
        if address == 0 {
            return Err(win32("VirtualAllocEx"));
        }
        Ok(RemoteAlloc { address, armed: true })
    }

    /// An allocation after its bytes were written, or after it was freed
    /// because they could not be: both failures are reported. `freed` is what
    /// came of freeing it.
    pub fn with_bytes(self, written: Result<()>, freed: bool) -> (result: Result<Self>)
        ensures
            match written {
                Ok(_) => result == Ok::<RemoteAlloc, Error>(self),
                Err(operation) => if freed {
                    result matches Err(error) && error@ == operation@
                } else {
                    &&& result matches Err(error)
                    &&& error@ matches ErrorView::Cleanup { operation: first, cleanup }
                    &&& *first == operation@
                    &&& is_win32(*cleanup, "VirtualFreeEx"@)
                },
            },
    {
        let mut allocation = self;
        match written {
            Ok(()) => Ok(allocation),
            Err(error) => match allocation.release(freed) {
                Ok(()) => Err(error),
                Err(cleanup) => Err(error.with_cleanup(cleanup)),
            },
        }
    }

    /// Leave the allocation to the target.
    pub fn retain(&mut self)
        ensures
            *final(self) == retained_of(*old(self)),
    {
        self.armed = false;
    }

    /// Take what came of freeing the allocation. One that could not be freed
    /// keeps its state.
    pub fn release(&mut self, freed: bool) -> (result: Result<()>)
        ensures
            *final(self) == released_of(*old(self), freed),
            freed ==> result is Ok,
            !freed ==> (result matches Err(error) && is_win32(error@, "VirtualFreeEx"@)),
    {
        if !freed {
            return Err(win32("VirtualFreeEx"));
        }
        self.armed = false;
        Ok(())
    }

    /// Search for a place within 32 bits behind `base`.
    pub fn near(base: usize, size: usize, granularity: usize) -> (result: Result<NearSearch>)
        ensures
            outcome(result) == near_start_of(base, size, granularity),
            result matches Ok(search) ==> search.well_formed(),
    {
        NearSearch::start(base, size, granularity)
    }

    /// Whether the allocation is freed when it goes out of scope.
    pub fn frees_on_drop(&self) -> (frees: bool)
        ensures
            frees == self.armed,
    {
        self.armed
    }
}

} // verus!
