use vstd::prelude::*;

use memory_addr::{PhysAddr, VirtAddr};

verus! {

/// The size of a physical page frame.
pub const FRAME_SIZE: usize = 0x1000;

/// memory_addr's physical address, a wrapped `usize`, carried as it is.
#[verifier::external_type_specification]
#[verifier::external_body]
pub struct ExPhysAddr(PhysAddr);

/// memory_addr's virtual address, a wrapped `usize`, carried as it is.
#[verifier::external_type_specification]
#[verifier::external_body]
pub struct ExVirtAddr(VirtAddr);

/// The physical address that stands for the integer `addr`.
pub uninterp spec fn phys_addr_of(addr: usize) -> PhysAddr;

/// The virtual address that stands for the integer `addr`.
pub uninterp spec fn virt_addr_of(addr: usize) -> VirtAddr;

/// Relies on memory_addr's `PhysAddr::from_usize`, which wraps the integer.
#[verifier::external_body]
fn to_phys_addr(addr: usize) -> (r: PhysAddr)
    ensures
        r == phys_addr_of(addr),
{
    PhysAddr::from_usize(addr)
}

/// Relies on memory_addr's `VirtAddr::from_usize`, which wraps the integer.
#[verifier::external_body]
fn to_virt_addr(addr: usize) -> (r: VirtAddr)
    ensures
        r == virt_addr_of(addr),
{
    VirtAddr::from_usize(addr)
}

/// A run of `page_count` contiguous page frames starting at `ptr`.
#[derive(Debug)]
pub struct BasicFrame {
    pub ptr: usize,
    pub page_count: usize,
    /// The frames go back to the allocator when the owner is done with them.
    pub dealloc: bool,
}

impl BasicFrame {
    /// The run lies within the address space.
    pub open spec fn wf(&self) -> bool {
        self.ptr + self.page_count * FRAME_SIZE <= usize::MAX
    }

    pub open spec fn end_spec(&self) -> int {
        self.ptr + self.page_count * FRAME_SIZE
    }

    /// The physical address of the first byte.
    pub fn start_phy_addr(&self) -> (r: PhysAddr)
        ensures
            r == phys_addr_of(self.ptr),
    {
        to_phys_addr(self.ptr)
    }

    /// The virtual address of the first byte.
    pub fn start_virt_addr(&self) -> (r: VirtAddr)
        ensures
            r == virt_addr_of(self.ptr),
    {
        to_virt_addr(self.ptr)
    }

    /// The physical address just past the last byte.
    pub fn end_phy_addr(&self) -> (r: PhysAddr)
        requires
            self.wf(),
        ensures
            r == phys_addr_of(self.end_spec() as usize),
    {
        to_phys_addr(self.end())
    }

    /// The virtual address just past the last byte.
    pub fn end_virt_addr(&self) -> (r: VirtAddr)
        requires
            self.wf(),
        ensures
            r == virt_addr_of(self.end_spec() as usize),
    {
        to_virt_addr(self.end())
    }

    /// The address just past the last byte.
    pub fn end(&self) -> (r: usize)
        requires
            self.wf(),
        ensures
            r == self.end_spec(),
    {
        self.ptr + self.size()
    }

    /// The size in bytes.
    pub fn size(&self) -> (r: usize)
        requires
            self.page_count * FRAME_SIZE <= usize::MAX,
        ensures
            r == self.page_count * FRAME_SIZE,
    {
        self.page_count * FRAME_SIZE
    }
}

/// Page frames held by their owner.
#[derive(Debug)]
pub struct FrameTracker(pub BasicFrame);

impl FrameTracker {
    /// Tracks the frames of the physical range `start..end`, which the
    /// tracker does not give back to the allocator.
    pub fn from_phy_range(r: core::ops::Range<usize>) -> (t: Self)
        requires
            r.start % FRAME_SIZE == 0,
            r.end % FRAME_SIZE == 0,
            r.start <= r.end,
        ensures
            t.0.ptr == r.start,
            t.0.page_count == (r.end - r.start) / (FRAME_SIZE as int),
            !t.0.dealloc,
            t.0.wf(),
            t.0.end_spec() == r.end,
    {
        let page_count = (r.end - r.start) / FRAME_SIZE;
        proof {
            let d = (r.end - r.start) as int;
            assert(d % 0x1000 == 0) by {
                assert(r.start % 0x1000 == 0 && r.end % 0x1000 == 0);
                vstd::arithmetic::div_mod::lemma_sub_mod_noop(r.end as int, r.start as int, 0x1000);
            }
            assert(page_count * 0x1000 == d) by {
                vstd::arithmetic::div_mod::lemma_fundamental_div_mod(d, 0x1000);
            }
        }
        FrameTracker(BasicFrame { ptr: r.start, page_count, dealloc: false })
    }

    /// The frames tracked.
    pub fn frame(&self) -> (r: &BasicFrame)
        ensures
            *r == self.0,
    {
        &self.0
    }
}

} // verus!
