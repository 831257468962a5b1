//! Memory regions and the microkernel's entry address.

use vstd::prelude::*;

verus! {

/// A half-open interval of addresses, `[start, end)`.
#[derive(Clone, Copy, Debug, PartialEq, Eq, Structural)]
pub struct AddressRange {
    pub start: u64,
    pub end: u64,
}

/// A closed interval of addresses, `[first, last]`.
#[derive(Clone, Copy, Debug, PartialEq, Eq, Structural)]
pub struct InclusiveRange {
    pub first: u64,
    pub last: u64,
}

/// A contiguous piece of memory: `len` bytes at `phys_addr`, and, where the
/// mapping is known, at `virt_addr`. The two intervals have the same length,
/// so a mapping is always a flat offset.
#[derive(Clone, Copy, Debug, PartialEq, Eq, Structural)]
pub struct MemoryRegion {
    pub virt_addr: Option<u64>,
    pub phys_addr: u64,
    pub len: u64,
}

/// The microkernel image's program entry address.
#[derive(Clone, Copy, Debug, PartialEq, Eq, Structural)]
pub struct KernelEntry {
    pub virt_entry: u64,
}

impl MemoryRegion {
    /// A region is well formed when it is not empty and the end of each of its
    /// intervals is still an address.
    pub open spec fn wf(&self) -> bool {
        &&& self.len > 0
        &&& self.phys_addr + self.len <= u64::MAX
        &&& self.virt_addr matches Some(virt_addr) ==> virt_addr + self.len <= u64::MAX
    }

    /// One past the last physical address.
    pub open spec fn phys_end(&self) -> int {
        self.phys_addr + self.len
    }

    /// A well-formed region from its parts, or `None` where they describe none.
    pub fn new(virt_addr: Option<u64>, phys_addr: u64, len: u64) -> (region: Option<MemoryRegion>)
        ensures
            region == if (MemoryRegion { virt_addr, phys_addr, len }).wf() {
                Some(MemoryRegion { virt_addr, phys_addr, len })
            } else {
                None
            },
    {
        let region = MemoryRegion { virt_addr, phys_addr, len };
        if region.is_well_formed() {
            Some(region)
        } else {
            None
        }
    }

    /// Whether the region is well formed.
    pub fn is_well_formed(&self) -> (ok: bool)
        ensures
            ok == self.wf(),
    {
        if self.len == 0 || self.len > u64::MAX - self.phys_addr {
            return false;
        }
        match self.virt_addr {
            Some(virt_addr) => self.len <= u64::MAX - virt_addr,
            None => true,
        }
    }

    /// The virtual interval, half open, where the mapping is known.
    pub fn virt_range(&self) -> (range: Option<AddressRange>)
        requires
            self.wf(),
        ensures
            range == match self.virt_addr {
                Some(virt_addr) => Some(
                    AddressRange { start: virt_addr, end: (virt_addr + self.len) as u64 },
                ),
                None => None,
            },
    {
        match self.virt_addr {
            Some(virt_addr) => Some(AddressRange { start: virt_addr, end: virt_addr + self.len }),
            None => None,
        }
    }

    /// The virtual interval, closed, where the mapping is known.
    pub fn virt_range_inclusive(&self) -> (range: Option<InclusiveRange>)
        requires
            self.wf(),
        ensures
            range == match self.virt_addr {
                Some(virt_addr) => Some(
                    InclusiveRange { first: virt_addr, last: (virt_addr + self.len - 1) as u64 },
                ),
                None => None,
            },
    {
        match self.virt_addr {
            Some(virt_addr) => Some(
                InclusiveRange { first: virt_addr, last: virt_addr + self.len - 1 },
            ),
            None => None,
        }
    }

    /// The physical interval, half open.
    pub fn phys_range(&self) -> (range: AddressRange)
        requires
            self.wf(),
        ensures
            range.start == self.phys_addr,
            range.end == self.phys_end(),
    {
        AddressRange { start: self.phys_addr, end: self.phys_addr + self.len }
    }

    /// The physical interval, closed.
    pub fn phys_range_inclusive(&self) -> (range: InclusiveRange)
        requires
            self.wf(),
        ensures
            range.first == self.phys_addr,
            range.last == self.phys_end() - 1,
    {
        InclusiveRange { first: self.phys_addr, last: self.phys_addr + self.len - 1 }
    }
}

} // verus!
