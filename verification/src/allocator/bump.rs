//! The bump allocator: hands out memory in address order and takes it all
//! back at once when the last allocation is returned.

use crate::allocator::{align_up, aligned_up};
use vstd::prelude::*;

verus! {

/// A bump allocator's state as a mathematical value.
pub struct BumpView {
    /// The first address of the heap.
    pub heap_start: usize,
    /// The address after the last of the heap.
    pub heap_end: usize,
    /// The first address not handed out.
    pub next: usize,
    /// The number of allocations not yet returned.
    pub allocations: usize,
}

impl BumpView {
    /// The first address not handed out lies in the heap or right after it.
    pub open spec fn wf(self) -> bool {
        self.heap_start <= self.next <= self.heap_end
    }
}

/// Hands out memory from a heap in address order, and counts what is out.
pub struct BumpAllocator {
    heap_start: usize,
    heap_end: usize,
    next: usize,
    allocations: usize,
}

impl View for BumpAllocator {
    type V = BumpView;

    closed spec fn view(&self) -> BumpView {
        BumpView {
            heap_start: self.heap_start,
            heap_end: self.heap_end,
            next: self.next,
            allocations: self.allocations,
        }
    }
}

/// Where an allocation of `size` bytes aligned to `align` would start.
pub open spec fn alloc_start(state: BumpView, align: usize) -> int {
    aligned_up(state.next as int, align as int)
}

/// Whether the heap has room for an allocation of `size` bytes aligned to
/// `align`.
pub open spec fn fits(state: BumpView, size: usize, align: usize) -> bool {
    alloc_start(state, align) + size <= state.heap_end
}

/// The state after a request for `size` bytes aligned to `align`.
pub open spec fn after_alloc(state: BumpView, size: usize, align: usize) -> BumpView {
    if fits(state, size, align) {
        BumpView {
            heap_start: state.heap_start,
            heap_end: state.heap_end,
            next: (alloc_start(state, align) + size) as usize,
            allocations: (state.allocations + 1) as usize,
        }
    } else {
        state
    }
}

/// The state after one allocation has been returned.
pub open spec fn after_dealloc(state: BumpView) -> BumpView {
    BumpView {
        heap_start: state.heap_start,
        heap_end: state.heap_end,
        next: if state.allocations == 1 {
            state.heap_start
        } else {
            state.next
        },
        allocations: (state.allocations - 1) as usize,
    }
}

impl BumpAllocator {
    /// An allocator without a heap.
    pub fn new() -> (allocator: Self)
        ensures
            allocator@ == (BumpView { heap_start: 0, heap_end: 0, next: 0, allocations: 0 }),
            allocator@.wf(),
    {
        BumpAllocator { heap_start: 0, heap_end: 0, next: 0, allocations: 0 }
    }

    /// The first address not handed out.
    pub fn next(&self) -> (next: usize)
        ensures
            next == self@.next,
    {
        self.next
    }

    /// The number of allocations not yet returned.
    pub fn allocations(&self) -> (allocations: usize)
        ensures
            allocations == self@.allocations,
    {
        self.allocations
    }

    /// The address after the last of the heap.
    pub fn heap_end(&self) -> (heap_end: usize)
        ensures
            heap_end == self@.heap_end,
    {
        self.heap_end
    }

    /// Gives the allocator the heap of `heap_size` bytes at `heap_start`, all
    /// of it free. The count of allocations stays as it is.
    pub fn init(&mut self, heap_start: usize, heap_size: usize)
        requires
            heap_start + heap_size <= usize::MAX,
        ensures
            final(self)@ == (BumpView {
                heap_start,
                heap_end: (heap_start + heap_size) as usize,
                next: heap_start,
                allocations: old(self)@.allocations,
            }),
            final(self)@.wf(),
    {
        self.heap_start = heap_start;
        self.heap_end = heap_start + heap_size;
        self.next = heap_start;
    }

    /// Whether the start of an allocation aligned to `align` can be named:
    /// whether the first address not handed out, rounded up to a multiple of
    /// `align`, is an address at all.
    pub fn start_fits(&self, align: usize) -> (fits: bool)
        requires
            align > 0,
        ensures
            fits == (alloc_start(self@, align) <= usize::MAX),
    {
        let remainder = self.next % align;
        assert(remainder <= self.next) by (nonlinear_arith)
            requires
                remainder == self.next % align,
                align > 0,
        ;
        remainder == 0 || self.next - remainder <= usize::MAX - align
    }

    /// Whether the heap has room for `size` bytes at a multiple of `align`.
    pub fn has_room(&self, size: usize, align: usize) -> (room: bool)
        requires
            align > 0,
            alloc_start(self@, align) <= usize::MAX,
        ensures
            room == fits(self@, size, align),
    {
        let alloc_start = align_up(self.next, align);
        match alloc_start.checked_add(size) {
            Some(end) => end <= self.heap_end,
            None => false,
        }
    }

    /// Allocates `size` bytes at a multiple of `align`. Returns the address
    /// of the first byte, or `None` where the heap has no room left, and
    /// then changes nothing. A block that is handed out lies in the heap,
    /// after everything handed out before.
    pub fn allocate(&mut self, size: usize, align: usize) -> (address: Option<usize>)
        requires
            old(self)@.wf(),
            align > 0,
            alloc_start(old(self)@, align) <= usize::MAX,
            fits(old(self)@, size, align) ==> old(self)@.allocations < usize::MAX,
        ensures
            final(self)@.wf(),
            final(self)@ == after_alloc(old(self)@, size, align),
            address is Some <==> fits(old(self)@, size, align),
            address matches Some(start) ==> {
                &&& start == alloc_start(old(self)@, align)
                &&& start % align == 0
                &&& old(self)@.heap_start <= old(self)@.next <= start
                &&& start + size <= old(self)@.heap_end
            },
    {
        let alloc_start = align_up(self.next, align);
        let alloc_end = match alloc_start.checked_add(size) {
            Some(end) => end,
            None => {
                return None;
            },
        };
        if alloc_end > self.heap_end {
            None
        } else {
            self.next = alloc_end;
            self.allocations += 1;
            Some(alloc_start)
        }
    }

    /// Takes back one allocation. When the last one has come back, the whole
    /// heap is free again.
    pub fn deallocate(&mut self)
        requires
            old(self)@.wf(),
            old(self)@.allocations > 0,
        ensures
            final(self)@.wf(),
            final(self)@ == after_dealloc(old(self)@),
    {
        self.allocations -= 1;
        if self.allocations == 0 {
            self.next = self.heap_start;
        }
    }
}

} // verus!
