//! Virtual and physical addresses and page numbers.
//!
//! The two address spaces are kept apart at the type level; all page
//! arithmetic is done by the methods below.

use crate::config::PAGE_SIZE;
use vstd::prelude::*;

verus! {

/// A byte address in a task's virtual address space.
#[derive(Clone, Copy, Debug, PartialEq, Eq, Structural)]
pub struct VirtAddr(pub usize);

/// A virtual address divided by the page size.
#[derive(Clone, Copy, Debug, PartialEq, Eq, Structural)]
pub struct VirtPageNum(pub usize);

/// A byte address in physical memory.
#[derive(Clone, Copy, Debug, PartialEq, Eq, Structural)]
pub struct PhysAddr(pub usize);

/// A physical address divided by the page size.
#[derive(Clone, Copy, Debug, PartialEq, Eq, Structural)]
pub struct PhysPageNum(pub usize);

/// Number of the page that holds byte address `addr`.
pub open spec fn page_floor(addr: int) -> int {
    addr / 4096
}

/// Number of the first page that starts at or after byte address `addr`.
pub open spec fn page_ceil(addr: int) -> int {
    (addr + 4095) / 4096
}

/// Position of byte address `addr` inside its page.
pub open spec fn page_offset_of(addr: int) -> int {
    addr % 4096
}

impl VirtAddr {
    /// The page that holds this address.
    pub fn floor(self) -> (vpn: VirtPageNum)
        ensures
            vpn.0 == page_floor(self.0 as int),
    {
        VirtPageNum(self.0 / PAGE_SIZE)
    }

    /// The first page that starts at or after this address.
    pub fn ceil(self) -> (vpn: VirtPageNum)
        ensures
            vpn.0 == page_ceil(self.0 as int),
    {
        if self.0 == 0 {
            VirtPageNum(0)
        } else {
            VirtPageNum((self.0 - 1) / PAGE_SIZE + 1)
        }
    }

    /// The position of this address inside its page.
    pub fn page_offset(self) -> (offset: usize)
        ensures
            offset == page_offset_of(self.0 as int),
            offset < PAGE_SIZE,
    {
        self.0 % PAGE_SIZE
    }

    /// Whether this address is the first byte of a page.
    pub fn aligned(self) -> (yes: bool)
        ensures
            yes == (page_offset_of(self.0 as int) == 0),
    {
        self.page_offset() == 0
    }
}

impl VirtPageNum {
    /// The address of the first byte of this page, where it fits the word.
    pub fn start_addr(self) -> (addr: Option<VirtAddr>)
        ensures
            match addr {
                Some(va) => va.0 == self.0 * 4096,
                None => self.0 * 4096 > usize::MAX,
            },
    {
        match self.0.checked_mul(PAGE_SIZE) {
            Some(a) => Some(VirtAddr(a)),
            None => None,
        }
    }
}

impl PhysAddr {
    /// The frame that holds this address.
    pub fn floor(self) -> (ppn: PhysPageNum)
        ensures
            ppn.0 == page_floor(self.0 as int),
    {
        PhysPageNum(self.0 / PAGE_SIZE)
    }

    /// The position of this address inside its frame.
    pub fn page_offset(self) -> (offset: usize)
        ensures
            offset == page_offset_of(self.0 as int),
            offset < PAGE_SIZE,
    {
        self.0 % PAGE_SIZE
    }
}

impl PhysPageNum {
    /// The physical address of byte `offset` of this frame, where it fits the word.
    pub fn byte_addr(self, offset: usize) -> (addr: Option<PhysAddr>)
        requires
            offset < PAGE_SIZE,
        ensures
            match addr {
                Some(pa) => pa.0 == self.0 * 4096 + offset,
                None => self.0 * 4096 + offset > usize::MAX,
            },
    {
        match self.0.checked_mul(PAGE_SIZE) {
            Some(base) => match base.checked_add(offset) {
                Some(a) => Some(PhysAddr(a)),
                None => None,
            },
            None => None,
        }
    }
}

} // verus!
