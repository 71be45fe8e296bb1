//! Physical frames and the pool that hands them out.
//!
//! A frame is an owned object that carries its 4096 bytes, so whoever holds a
//! `FrameTracker` holds that piece of physical memory exclusively.

use crate::address::PhysPageNum;
use crate::config::PAGE_SIZE;
use vstd::prelude::*;

verus! {

/// The contents of a frame that has just been handed out: all zero.
pub open spec fn zero_page() -> Seq<u8> {
    Seq::new(4096, |i: int| 0u8)
}

/// One physical frame together with its contents.
pub struct FrameTracker {
    ppn: PhysPageNum,
    data: Vec<u8>,
}

impl FrameTracker {
    /// The frame holds exactly one page of bytes.
    pub closed spec fn wf(&self) -> bool {
        self.data@.len() == 4096
    }

    /// The bytes of the frame.
    pub closed spec fn bytes(&self) -> Seq<u8> {
        self.data@
    }

    /// The number of the frame.
    pub closed spec fn spec_ppn(&self) -> PhysPageNum {
        self.ppn
    }

    /// A well-formed frame holds one page of bytes.
    pub proof fn lemma_len(&self)
        requires
            self.wf(),
        ensures
            self.bytes().len() == 4096,
    {
    }

    fn new(ppn: PhysPageNum) -> (frame: FrameTracker)
        ensures
            frame.wf(),
            frame.spec_ppn() == ppn,
            frame.bytes() == zero_page(),
    {
        let mut data: Vec<u8> = Vec::new();
        let mut i: usize = 0;
        while i < PAGE_SIZE
            invariant
                i <= PAGE_SIZE,
                data@.len() == i,
                forall|j: int| 0 <= j < i ==> data@[j] == 0u8,
            decreases PAGE_SIZE - i,
        {
            data.push(0u8);
            i = i + 1;
        }
        assert(data@ =~= zero_page());
        FrameTracker { ppn, data }
    }

    fn clear(&mut self)
        requires
            old(self).wf(),
        ensures
            final(self).wf(),
            final(self).spec_ppn() == old(self).spec_ppn(),
            final(self).bytes() == zero_page(),
    {
        let mut i: usize = 0;
        while i < PAGE_SIZE
            invariant
                i <= PAGE_SIZE,
                self.data@.len() == 4096,
                self.ppn == old(self).ppn,
                forall|j: int| 0 <= j < i ==> self.data@[j] == 0u8,
            decreases PAGE_SIZE - i,
        {
            self.data[i] = 0u8;
            i = i + 1;
        }
        assert(self.data@ =~= zero_page());
    }

    /// The number of the frame.
    pub fn ppn(&self) -> (ppn: PhysPageNum)
        ensures
            ppn == self.spec_ppn(),
    {
        self.ppn
    }

    /// Reads the byte at `offset`.
    pub fn read_byte(&self, offset: usize) -> (value: u8)
        requires
            self.wf(),
            offset < PAGE_SIZE,
        ensures
            value == self.bytes()[offset as int],
    {
        self.data[offset]
    }

    /// Writes `value` at `offset` and leaves every other byte as it was.
    pub fn write_byte(&mut self, offset: usize, value: u8)
        requires
            old(self).wf(),
            offset < PAGE_SIZE,
        ensures
            final(self).wf(),
            final(self).spec_ppn() == old(self).spec_ppn(),
            final(self).bytes() == old(self).bytes().update(offset as int, value),
    {
        self.data[offset] = value;
    }
}

/// A pool of the frames `[current, end)` that were never handed out, plus the
/// frames that came back.
pub struct StackFrameAllocator {
    current: usize,
    end: usize,
    recycled: Vec<FrameTracker>,
}

impl StackFrameAllocator {
    /// The bounds are ordered and every frame that came back holds one page.
    pub closed spec fn wf(&self) -> bool {
        &&& self.current <= self.end
        &&& forall|i: int| 0 <= i < self.recycled@.len() ==> (#[trigger] self.recycled@[i]).wf()
    }

    /// How many frames the pool can still hand out.
    pub closed spec fn free_count(&self) -> nat {
        (self.recycled@.len() + (self.end - self.current)) as nat
    }

    /// A pool over the frames `[start, end)`; empty where `end <= start`.
    pub fn new(start: PhysPageNum, end: PhysPageNum) -> (pool: StackFrameAllocator)
        ensures
            pool.wf(),
            pool.free_count() == (if end.0 > start.0 {
                end.0 - start.0
            } else {
                0
            }),
    {
        let e = if end.0 > start.0 {
            end.0
        } else {
            start.0
        };
        StackFrameAllocator { current: start.0, end: e, recycled: Vec::new() }
    }

    /// Whether the pool can still hand out `n` frames.
    pub fn can_alloc(&self, n: usize) -> (yes: bool)
        requires
            self.wf(),
        ensures
            yes == (self.free_count() >= n),
    {
        let fresh = self.end - self.current;
        if n <= fresh {
            true
        } else {
            n - fresh <= self.recycled.len()
        }
    }

    /// Hands out one zeroed frame, or `None` where the pool is empty.
    pub fn frame_alloc(&mut self) -> (frame: Option<FrameTracker>)
        requires
            old(self).wf(),
        ensures
            final(self).wf(),
            match frame {
                Some(f) => {
                    &&& old(self).free_count() > 0
                    &&& final(self).free_count() == old(self).free_count() - 1
                    &&& f.wf()
                    &&& f.bytes() == zero_page()
                },
                None => {
                    &&& old(self).free_count() == 0
                    &&& final(self).free_count() == 0
                },
            },
    {
        match self.recycled.pop() {
            Some(mut f) => {
                f.clear();
                Some(f)
            },
            None => {
                if self.current == self.end {
                    None
                } else {
                    let f = FrameTracker::new(PhysPageNum(self.current));
                    self.current = self.current + 1;
                    Some(f)
                }
            },
        }
    }

    /// Takes a frame back.
    pub fn frame_dealloc(&mut self, frame: FrameTracker)
        requires
            old(self).wf(),
            frame.wf(),
        ensures
            final(self).wf(),
            final(self).free_count() == old(self).free_count() + 1,
    {
        self.recycled.push(frame);
    }
}

} // verus!
