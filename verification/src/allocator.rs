//! Heap placement and the arithmetic shared by the allocators.

pub mod bump;

use vstd::prelude::*;

verus! {

/// An allocator that owns no memory and so never hands any out.
pub struct Dummy;

/// The first address of the kernel heap.
pub const HEAP_START: u64 = 0x_4444_4444_0000;

/// The size of the kernel heap in bytes: 100 KiB.
pub const HEAP_SIZE: usize = 100 * 1024;

/// `addr` rounded up to a multiple of `align`.
pub open spec fn aligned_up(addr: int, align: int) -> int {
    if addr % align == 0 {
        addr
    } else {
        addr - addr % align + align
    }
}

/// For a positive alignment, `aligned_up` gives the least multiple of it that
/// is not below the address.
pub proof fn lemma_aligned_up_is_least(addr: int, align: int)
    requires
        0 <= addr,
        0 < align,
    ensures
        aligned_up(addr, align) % align == 0,
        addr <= aligned_up(addr, align) < addr + align,
        forall|multiple: int|
            addr <= multiple && #[trigger] (multiple % align) == 0 ==> aligned_up(addr, align)
                <= multiple,
{
    let up = aligned_up(addr, align);
    assert(up % align == 0 && addr <= up < addr + align && up == align * (up / align)) by (nonlinear_arith)
        requires
            0 <= addr,
            0 < align,
            up == aligned_up(addr, align),
    ;
    assert forall|multiple: int| addr <= multiple && #[trigger] (multiple % align) == 0 implies up
        <= multiple by {
        assert(up <= multiple) by (nonlinear_arith)
            requires
                0 < align,
                up % align == 0,
                multiple % align == 0,
                up < addr + align,
                addr <= multiple,
        ;
    }
}

/// Rounds `addr` up to a multiple of `align`; an address on a multiple stays
/// as it is.
pub fn align_up(addr: usize, align: usize) -> (aligned: usize)
    requires
        align > 0,
        aligned_up(addr as int, align as int) <= usize::MAX,
    ensures
        aligned == aligned_up(addr as int, align as int),
        aligned % align == 0,
        addr <= aligned < addr + align,
{
    proof {
        lemma_aligned_up_is_least(addr as int, align as int);
    }
    let remainder = addr % align;
    assert(remainder <= addr) by (nonlinear_arith)
        requires
            remainder == addr % align,
            align > 0,
    ;
    if remainder == 0 {
        addr
    } else {
        addr - remainder + align
    }
}

} // verus!
