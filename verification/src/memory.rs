//! Frame allocators: which physical frames the kernel may hand out.

use vstd::prelude::*;

verus! {

/// The size of a physical frame in bytes.
pub const FRAME_SIZE: u64 = 4096;

/// A frame allocator that has no frame to give.
pub struct EmptyFrameAllocator;

impl EmptyFrameAllocator {
    /// Always `None`.
    pub fn allocate_frame(&mut self) -> (frame: Option<u64>)
        ensures
            frame is None,
    {
        None
    }
}

/// One region of the boot loader's memory map: the addresses from `start` up
/// to, but not including, `end`.
#[derive(Debug, Clone, Copy, PartialEq, Eq, Structural)]
pub struct MemoryRegion {
    pub start: u64,
    pub end: u64,
    /// Whether the kernel may use the region.
    pub usable: bool,
}

impl MemoryRegion {
    /// The number of frames that the region gives: one for every
    /// `FRAME_SIZE` bytes from `start` on, and none where the region is not
    /// usable or is empty.
    pub open spec fn frame_count(self) -> nat {
        if self.usable && self.end > self.start {
            ((self.end - self.start - 1) / FRAME_SIZE as int + 1) as nat
        } else {
            0
        }
    }

    /// The start address of the region's `k`-th frame: the frame that holds
    /// the address `k` frame sizes after `start`.
    pub open spec fn frame_at(self, k: int) -> u64 {
        let address = self.start + k * FRAME_SIZE;
        (address - address % FRAME_SIZE as int) as u64
    }

    /// The start addresses of the region's frames, in address order.
    pub open spec fn frames(self) -> Seq<u64> {
        Seq::new(self.frame_count(), |k: int| self.frame_at(k))
    }
}

/// The start addresses of the frames of all usable regions, region after
/// region.
pub open spec fn usable_frames(regions: Seq<MemoryRegion>) -> Seq<u64>
    decreases regions.len(),
{
    if regions.len() == 0 {
        Seq::empty()
    } else {
        usable_frames(regions.drop_last()) + regions.last().frames()
    }
}

/// The `n`-th usable frame, if there are that many.
pub open spec fn nth_usable_frame(regions: Seq<MemoryRegion>, n: int) -> Option<u64> {
    if 0 <= n < usable_frames(regions).len() {
        Some(usable_frames(regions)[n])
    } else {
        None
    }
}

/// The usable frames of the first regions open the sequence of the usable
/// frames of all.
pub proof fn lemma_usable_frames_prefix(regions: Seq<MemoryRegion>, count: int)
    requires
        0 <= count <= regions.len(),
    ensures
        usable_frames(regions.take(count)).len() <= usable_frames(regions).len(),
        usable_frames(regions.take(count)) == usable_frames(regions).take(
            usable_frames(regions.take(count)).len() as int,
        ),
    decreases regions.len(),
{
    if count == regions.len() {
        assert(regions.take(count) =~= regions);
        assert(usable_frames(regions).take(usable_frames(regions).len() as int) =~= usable_frames(
            regions,
        ));
    } else {
        let rest = regions.drop_last();
        lemma_usable_frames_prefix(rest, count);
        assert(rest.take(count) =~= regions.take(count));
        let head = usable_frames(regions.take(count));
        assert(head =~= usable_frames(regions).take(head.len() as int));
    }
}

/// Hands out the usable frames of a memory map one after another.
pub struct BootInfoFrameAllocator<'a> {
    memory_map: &'a [MemoryRegion],
    next: usize,
}

impl<'a> BootInfoFrameAllocator<'a> {
    /// The regions of the memory map.
    pub closed spec fn regions(&self) -> Seq<MemoryRegion> {
        self.memory_map@
    }

    /// The number of frames asked for so far.
    pub closed spec fn next(&self) -> usize {
        self.next
    }

    /// An allocator over the given memory map, with no frame handed out.
    pub fn init(memory_map: &'a [MemoryRegion]) -> (allocator: Self)
        ensures
            allocator.regions() == memory_map@,
            allocator.next() == 0,
    {
        BootInfoFrameAllocator { memory_map, next: 0 }
    }

    /// The number of frames asked for so far.
    pub fn asked(&self) -> (asked: usize)
        ensures
            asked == self.next(),
    {
        self.next
    }

    /// The start address of the `n`-th usable frame of the memory map.
    pub fn usable_frame(&self, n: usize) -> (frame: Option<u64>)
        ensures
            frame == nth_usable_frame(self.regions(), n as int),
    {
        let ghost regions = self.memory_map@;
        let mut remaining: u64 = n as u64;
        let mut i: usize = 0;
        while i < self.memory_map.len()
            invariant
                regions == self.memory_map@,
                i <= regions.len(),
                usable_frames(regions.take(i as int)).len() + remaining == n,
            decreases regions.len() - i,
        {
            let region = self.memory_map[i];
            proof {
                assert(regions.take(i + 1).drop_last() =~= regions.take(i as int));
                assert(regions.take(i + 1).last() == region);
                lemma_usable_frames_prefix(regions, i + 1);
            }
            if region.usable && region.end > region.start {
                let count: u64 = (region.end - region.start - 1) / FRAME_SIZE + 1;
                assert(count == region.frame_count());
                if remaining < count {
                    let address: u64 = region.start + remaining * FRAME_SIZE;
                    let frame: u64 = address - address % FRAME_SIZE;
                    proof {
                        let head = usable_frames(regions.take(i as int));
                        let upto = usable_frames(regions.take(i + 1));
                        assert(upto[n as int] == region.frames()[remaining as int]);
                        assert(usable_frames(regions)[n as int] == upto[n as int]);
                    }
                    return Some(frame);
                }
                remaining = remaining - count;
            }
            i += 1;
        }
        assert(regions.take(i as int) =~= regions);
        None
    }

    /// Hands out the next usable frame, or `None` when all have been handed
    /// out. Every call counts, also one that gives no frame.
    pub fn allocate_frame(&mut self) -> (frame: Option<u64>)
        requires
            old(self).next() < usize::MAX,
        ensures
            frame == nth_usable_frame(old(self).regions(), old(self).next() as int),
            final(self).regions() == old(self).regions(),
            final(self).next() == old(self).next() + 1,
    {
        let frame = self.usable_frame(self.next);
        self.next += 1;
        frame
    }
}

} // verus!
