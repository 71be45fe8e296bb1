//! Page-table entries and the per-address-space page table.

use crate::address::{PhysPageNum, VirtPageNum};
use std::collections::BTreeMap;
use vstd::prelude::*;

verus! {

/// The access and validity flags of a page-table entry, one field per bit.
///
/// No flag but `valid` means anything unless `valid` is set.
#[derive(Clone, Copy, Debug, PartialEq, Eq, Structural)]
pub struct PTEFlags {
    pub valid: bool,
    pub readable: bool,
    pub writable: bool,
    pub executable: bool,
    pub user: bool,
}

/// Whether `bits` is an acceptable permission request: at least one of
/// read (bit 0), write (bit 1) and execute (bit 2), and nothing above bit 2.
pub open spec fn permission_ok(bits: usize) -> bool {
    1 <= bits <= 7
}

/// The flags of a user page mapped with permission request `bits`.
pub open spec fn user_flags(bits: usize) -> PTEFlags {
    PTEFlags {
        valid: true,
        readable: bits % 2 == 1,
        writable: (bits / 2) % 2 == 1,
        executable: (bits / 4) % 2 == 1,
        user: true,
    }
}

impl PTEFlags {
    /// Decodes a permission request into the flags of a valid user page;
    /// `None` where the request names no access right or an unknown bit.
    pub fn from_permission_bits(bits: usize) -> (flags: Option<PTEFlags>)
        ensures
            flags == (if permission_ok(bits) {
                Some(user_flags(bits))
            } else {
                None
            }),
    {
        if bits == 0 || bits > 7 {
            None
        } else {
            Some(
                PTEFlags {
                    valid: true,
                    readable: bits % 2 == 1,
                    writable: (bits / 2) % 2 == 1,
                    executable: (bits / 4) % 2 == 1,
                    user: true,
                },
            )
        }
    }

    /// The flags packed into one byte: valid, read, write, execute, user
    /// from bit 0 upward.
    pub fn bits(self) -> (b: u8)
        ensures
            b == (if self.valid { 1int } else { 0 }) + (if self.readable { 2int } else { 0 })
                + (if self.writable { 4int } else { 0 }) + (if self.executable { 8int } else { 0 })
                + (if self.user { 16int } else { 0 }),
    {
        let mut b: u8 = 0;
        if self.valid {
            b = b + 1;
        }
        if self.readable {
            b = b + 2;
        }
        if self.writable {
            b = b + 4;
        }
        if self.executable {
            b = b + 8;
        }
        if self.user {
            b = b + 16;
        }
        b
    }
}

/// One translation record: the frame and the flags of a virtual page.
#[derive(Clone, Copy, Debug, PartialEq, Eq, Structural)]
pub struct PageTableEntry {
    pub ppn: PhysPageNum,
    pub flags: PTEFlags,
}

impl PageTableEntry {
    /// An entry for frame `ppn` with `flags`.
    pub fn new(ppn: PhysPageNum, flags: PTEFlags) -> (pte: PageTableEntry)
        ensures
            pte == (PageTableEntry { ppn, flags }),
    {
        PageTableEntry { ppn, flags }
    }

    /// The frame this entry points to.
    pub fn ppn(&self) -> (ppn: PhysPageNum)
        ensures
            ppn == self.ppn,
    {
        self.ppn
    }

    /// Whether the entry is valid.
    pub fn is_valid(&self) -> (yes: bool)
        ensures
            yes == self.flags.valid,
    {
        self.flags.valid
    }

    /// Whether the page may be read.
    pub fn readable(&self) -> (yes: bool)
        ensures
            yes == self.flags.readable,
    {
        self.flags.readable
    }

    /// Whether the page may be written.
    pub fn writable(&self) -> (yes: bool)
        ensures
            yes == self.flags.writable,
    {
        self.flags.writable
    }

    /// Whether the page may be executed.
    pub fn executable(&self) -> (yes: bool)
        ensures
            yes == self.flags.executable,
    {
        self.flags.executable
    }

    /// Whether user code may reach the page.
    pub fn is_user(&self) -> (yes: bool)
        ensures
            yes == self.flags.user,
    {
        self.flags.user
    }
}

/// The translation of one address space: at most one entry per virtual page.
///
/// Its view is the map from virtual page number to entry; a page without an
/// entry is unmapped.
pub struct PageTable {
    root_ppn: PhysPageNum,
    entries: BTreeMap<usize, PageTableEntry>,
}

impl View for PageTable {
    type V = Map<usize, PageTableEntry>;

    closed spec fn view(&self) -> Map<usize, PageTableEntry> {
        self.entries@
    }
}

impl PageTable {
    /// The token that names this table: the number of its root frame.
    pub closed spec fn spec_token(&self) -> usize {
        self.root_ppn.0
    }

    /// Every entry held by the table is valid.
    pub closed spec fn wf(&self) -> bool {
        forall|vpn: usize| #[trigger]
            self.entries@.contains_key(vpn) ==> self.entries@[vpn].flags.valid
    }

    /// An empty table rooted at frame `root_ppn`.
    pub fn new(root_ppn: PhysPageNum) -> (table: PageTable)
        ensures
            table@ == Map::<usize, PageTableEntry>::empty(),
            table.spec_token() == root_ppn.0,
            table.wf(),
    {
        PageTable { root_ppn, entries: BTreeMap::new() }
    }

    /// The token that names this table.
    pub fn token(&self) -> (token: usize)
        ensures
            token == self.spec_token(),
    {
        self.root_ppn.0
    }

    /// Looks `vpn` up: its entry, or `None` where the page is unmapped.
    pub fn translate(&self, vpn: VirtPageNum) -> (pte: Option<PageTableEntry>)
        ensures
            pte == (if self@.contains_key(vpn.0) {
                Some(self@[vpn.0])
            } else {
                None
            }),
    {
        match self.entries.get(&vpn.0) {
            Some(pte) => Some(*pte),
            None => None,
        }
    }

    /// Installs an entry for `vpn`, marked valid. The page must be unmapped.
    pub fn map(&mut self, vpn: VirtPageNum, ppn: PhysPageNum, flags: PTEFlags)
        requires
            !old(self)@.contains_key(vpn.0),
            old(self).wf(),
        ensures
            final(self)@ == old(self)@.insert(
                vpn.0,
                (PageTableEntry { ppn, flags: (PTEFlags { valid: true, ..flags }) }),
            ),
            final(self).spec_token() == old(self).spec_token(),
            final(self).wf(),
    {
        let pte = PageTableEntry {
            ppn,
            flags: PTEFlags {
                valid: true,
                readable: flags.readable,
                writable: flags.writable,
                executable: flags.executable,
                user: flags.user,
            },
        };
        self.entries.insert(vpn.0, pte);
    }

    /// Removes the entry of `vpn`. The page must be mapped.
    pub fn unmap(&mut self, vpn: VirtPageNum)
        requires
            old(self)@.contains_key(vpn.0),
            old(self).wf(),
        ensures
            final(self)@ == old(self)@.remove(vpn.0),
            final(self).spec_token() == old(self).spec_token(),
            final(self).wf(),
    {
        self.entries.remove(&vpn.0);
    }

    /// Every entry of the table is valid.
    pub proof fn lemma_entries_valid(&self, vpn: usize)
        requires
            self.wf(),
            self@.contains_key(vpn),
        ensures
            self@[vpn].flags.valid,
    {
    }
}

} // verus!
