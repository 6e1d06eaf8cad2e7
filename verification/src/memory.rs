//! Physical frames and the frame-allocator capability.

use vstd::prelude::*;

verus! {

/// Size of one page / one frame, in bytes.
pub const PAGE_SIZE: u64 = 4096;

/// Largest frame number whose start address still fits in a 64-bit word.
pub const MAX_FRAME_NUMBER: u64 = 0xf_ffff_ffff_ffff;

pub type PhysicalAddress = u64;
pub type VirtualAddress = u64;

/// One unit of physical memory, identified by its index.
#[derive(Debug, Clone, Copy, PartialEq, Eq, Structural)]
pub struct Frame {
    pub number: u64,
}

impl Frame {
    /// Returns the frame containing the given physical address.
    pub fn containing_address(address: PhysicalAddress) -> (r: Frame)
        ensures
            r.number == address / PAGE_SIZE,
    {
        Frame { number: address / PAGE_SIZE }
    }

    /// Returns the starting physical address of the frame.
    pub fn start_address(&self) -> (r: PhysicalAddress)
        requires
            self.number <= MAX_FRAME_NUMBER,
        ensures
            r == self.number * PAGE_SIZE,
    {
        self.number * PAGE_SIZE
    }

    /// Enumerates every frame from `start` to `end`, both inclusive.
    pub fn range_inclusive(start: Frame, end: Frame) -> (r: FrameIter)
        ensures
            r.start == start,
            r.end == end,
    {
        FrameIter { start, end }
    }
}

/// A finite, restartable sequence of consecutive frames; empty once
/// `start` has passed `end`.
#[derive(Debug, Clone, Copy, PartialEq, Eq, Structural)]
pub struct FrameIter {
    pub start: Frame,
    pub end: Frame,
}

impl FrameIter {
    /// Takes the next frame of the range, in ascending order.
    pub fn next(&mut self) -> (r: Option<Frame>)
        requires
            old(self).end.number < u64::MAX,
        ensures
            final(self).end == old(self).end,
            old(self).start.number <= old(self).end.number ==> {
                &&& r == Some(old(self).start)
                &&& final(self).start.number == old(self).start.number + 1
            },
            old(self).start.number > old(self).end.number ==> {
                &&& r is None
                &&& *final(self) == *old(self)
            },
    {
        if self.start.number <= self.end.number {
            let frame = self.start;
            self.start = Frame { number: self.start.number + 1 };
            Some(frame)
        } else {
            None
        }
    }
}

/// Capability through which physical frames are obtained and returned.
/// The allocation policy itself is an external collaborator: nothing is
/// assumed about which frames an implementation hands out, and every
/// consumer of this trait states what holds whatever frame came back.
pub trait FrameAllocator {
    fn allocate_frame(&mut self) -> Option<Frame>;
    fn deallocate_frame(&mut self, frame: Frame);
}

} // verus!
