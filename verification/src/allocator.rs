//! The kernel heap: its window, address alignment, and the two allocation
//! strategies that can serve it.

use crate::memory::virtaddr::{is_canonical, VirtAddr, LOWER_HALF_END};
use crate::memory::{Page, PhysFrame, FRAME_SIZE};
use vstd::arithmetic::div_mod::{
    lemma_fundamental_div_mod,
    lemma_fundamental_div_mod_converse,
    lemma_mod_multiples_basic,
};
use vstd::arithmetic::power2::is_pow2;
use vstd::prelude::*;

pub mod bump_allocator;
pub mod linked_allocator;

verus! {

/// First address of the kernel heap window.
pub const HEAP_START: u64 = 0x4444_4444_0000;

/// Length of the kernel heap window in bytes (100 KiB).
pub const HEAP_SIZE: usize = 102400;

/// Number of pages that the heap window spans.
pub const HEAP_PAGES: u64 = 25;

/// Page-table flag: the entry maps a frame.
pub const PAGE_PRESENT: u64 = 1;

/// Page-table flag: the mapped frame may be written.
pub const PAGE_WRITABLE: u64 = 2;

/// Why a page could not be mapped.
#[derive(Clone, Copy, Debug)]
pub enum MapToError {
    /// A frame was needed and the frame allocator had none.
    FrameAllocationFailed,
    /// The page is part of an already mapped huge page.
    ParentEntryHugePage,
    /// The page is already mapped to the given frame.
    PageAlreadyMapped(PhysFrame),
}

/// One page-to-frame binding to install, with its page-table flags.
#[derive(Clone, Copy, Debug)]
pub struct HeapMapping {
    /// The page to map.
    pub page: Page,
    /// The frame that backs it.
    pub frame: PhysFrame,
    /// The flags of the page-table entry.
    pub flags: u64,
}

/// The pages from a first to a last one, both included, that are still to
/// be visited, in ascending order.
pub struct PageRangeInclusive {
    next: u64,
    last: u64,
    exhausted: bool,
}

impl View for PageRangeInclusive {
    type V = Seq<int>;

    /// The start addresses of the pages still to be visited.
    closed spec fn view(&self) -> Seq<int> {
        if self.exhausted {
            Seq::empty()
        } else {
            Seq::new(
                ((self.last - self.next) / (FRAME_SIZE as int) + 1) as nat,
                |k: int| self.next + k * FRAME_SIZE,
            )
        }
    }
}

impl PageRangeInclusive {
    #[verifier::type_invariant]
    spec fn valid(self) -> bool {
        !self.exhausted ==> {
            &&& self.next <= self.last
            &&& is_canonical(self.next)
            &&& is_canonical(self.last)
            &&& (self.next < LOWER_HALF_END) == (self.last < LOWER_HALF_END)
            &&& self.next % FRAME_SIZE == 0
            &&& self.last % FRAME_SIZE == 0
        }
    }

    /// The pages from `start` to `end`, both included; none when `end` lies
    /// before `start`. The two lie in the same half of the address space,
    /// unless the range is empty: between the halves there is no page to
    /// step over.
    pub fn new(start: Page, end: Page) -> (range: Self)
        requires
            start@ <= end@ ==> (start@ < LOWER_HALF_END) == (end@ < LOWER_HALF_END),
        ensures
            range@ == if start@ <= end@ {
                Seq::new(
                    ((end@ - start@) / (FRAME_SIZE as int) + 1) as nat,
                    |k: int| start@ + k * FRAME_SIZE,
                )
            } else {
                Seq::empty()
            },
    {
        let next: u64 = start.start_address().as_u64();
        let last: u64 = end.start_address().as_u64();
        PageRangeInclusive { next, last, exhausted: next > last }
    }

    /// Takes the first of the pages still to be visited.
    pub fn next_page(&mut self) -> (page: Option<Page>)
        ensures
            match page {
                Some(p) => old(self)@.len() > 0 && p@ == old(self)@[0] && final(self)@ == old(
                    self,
                )@.drop_first(),
                None => old(self)@.len() == 0 && final(self)@ == old(self)@,
            },
    {
        proof {
            use_type_invariant(&*self);
        }
        if self.exhausted {
            return None;
        }
        let current: u64 = self.next;
        let ghost before = self@;
        let page = Page::containing_address(VirtAddr::new(current));
        if current == self.last {
            self.exhausted = true;
            assert(self@ =~= before.drop_first());
        } else {
            proof {
                lemma_fundamental_div_mod(self.last as int - current as int, 4096);
                lemma_fundamental_div_mod(self.last as int, 4096);
                lemma_fundamental_div_mod(current as int, 4096);
                lemma_step_in_range(current as int, self.last as int);
            }
            self.next = current + FRAME_SIZE;
            assert(self@ =~= before.drop_first()) by {
                assert forall|k: int| 0 <= k < self@.len() implies self@[k] == before.drop_first()[k] by {
                    assert((current + 4096) + k * 4096 == current + (k + 1) * 4096)
                        by (nonlinear_arith);
                }
            }
        }
        Some(page)
    }
}

/// Between two different multiples of the page size, the lower one first,
/// lies a whole page, and stepping over it shortens the way by one page.
proof fn lemma_step_in_range(current: int, last: int)
    requires
        0 <= current < last,
        current % 4096 == 0,
        last % 4096 == 0,
    ensures
        current + 4096 <= last,
        (current + 4096) % 4096 == 0,
        (last - (current + 4096)) / 4096 + 1 == (last - current) / 4096,
{
    lemma_fundamental_div_mod(current, 4096);
    lemma_fundamental_div_mod(last, 4096);
    let a = current / 4096;
    let b = last / 4096;
    assert(a < b);
    lemma_fundamental_div_mod_converse(current + 4096, 4096, a + 1, 0);
    lemma_fundamental_div_mod_converse(last - current, 4096, b - a, 0);
    lemma_fundamental_div_mod_converse(last - (current + 4096), 4096, b - a - 1, 0);
}

/// The start address of the `k`-th page of the heap window.
pub open spec fn heap_page(k: int) -> int {
    HEAP_START + k * FRAME_SIZE
}

/// The pages that make up the heap window, first to last.
pub fn heap_page_range() -> (range: PageRangeInclusive)
    ensures
        range@ == Seq::new(HEAP_PAGES as nat, |k: int| heap_page(k)),
{
    let heap_start = VirtAddr::new(HEAP_START);
    let heap_end = VirtAddr::new(HEAP_START + HEAP_SIZE as u64 - 1);
    let heap_start_page = Page::containing_address(heap_start);
    let heap_end_page = Page::containing_address(heap_end);
    let range = PageRangeInclusive::new(heap_start_page, heap_end_page);
    assert(range@ =~= Seq::new(HEAP_PAGES as nat, |k: int| heap_page(k)));
    range
}

/// Every address of the heap window lies in one of the pages of the heap,
/// and every such page lies in the window.
pub proof fn lemma_heap_pages_cover_window(addr: int)
    requires
        HEAP_START <= addr < HEAP_START + HEAP_SIZE,
    ensures
        0 <= (addr - HEAP_START) / (FRAME_SIZE as int) < HEAP_PAGES,
        heap_page((addr - HEAP_START) / (FRAME_SIZE as int)) <= addr < heap_page(
            (addr - HEAP_START) / (FRAME_SIZE as int),
        ) + FRAME_SIZE,
        heap_page(HEAP_PAGES as int) == HEAP_START + HEAP_SIZE,
{
    lemma_fundamental_div_mod(addr - HEAP_START, 4096);
}

/// Binds a heap page to the frame that the frame allocator gave for it,
/// present and writable; without a frame the mapping fails.
pub fn heap_mapping(page: Page, frame: Option<PhysFrame>) -> (mapping: Result<
    HeapMapping,
    MapToError,
>)
    ensures
        match frame {
            Some(f) => mapping matches Ok(m) && m.page == page && m.frame == f && m.flags == 3,
            None => mapping matches Err(MapToError::FrameAllocationFailed),
        },
{
    match frame {
        Some(frame) => {
            let flags: u64 = PAGE_PRESENT | PAGE_WRITABLE;
            assert(1u64 | 2u64 == 3u64) by (bit_vector);
            Ok(HeapMapping { page, frame, flags })
        },
        None => Err(MapToError::FrameAllocationFailed),
    }
}

/// The smallest multiple of `align` that is not below `addr`.
pub open spec fn align_up_spec(addr: int, align: int) -> int
    recommends
        align > 0,
{
    if addr % align == 0 {
        addr
    } else {
        addr - addr % align + align
    }
}

/// `align_up_spec` yields a multiple of `align`, at or above `addr` and less
/// than one `align` away from it.
pub proof fn lemma_align_up(addr: int, align: int)
    requires
        addr >= 0,
        align > 0,
    ensures
        align_up_spec(addr, align) % align == 0,
        addr <= align_up_spec(addr, align) < addr + align,
{
    let q = addr / align;
    let r = addr % align;
    lemma_fundamental_div_mod(addr, align);
    if r != 0 {
        assert(addr - r + align == (q + 1) * align) by (nonlinear_arith)
            requires
                addr == align * q + r,
        ;
        lemma_mod_multiples_basic(q + 1, align);
    }
}

/// No multiple of `align` lies between `addr` and `align_up_spec(addr, align)`.
pub proof fn lemma_align_up_least(addr: int, align: int, m: int)
    requires
        addr >= 0,
        align > 0,
        m % align == 0,
        m >= addr,
    ensures
        m >= align_up_spec(addr, align),
{
    let q = addr / align;
    let r = addr % align;
    let k = m / align;
    lemma_fundamental_div_mod(addr, align);
    lemma_fundamental_div_mod(m, align);
    if r != 0 && m < addr - r + align {
        assert(false) by (nonlinear_arith)
            requires
                m == align * k,
                addr == align * q + r,
                m >= addr,
                m < addr - r + align,
                0 < r < align,
        ;
    }
}

/// A power of two that is at least 8 is a multiple of 8.
pub proof fn lemma_pow2_multiple_of_8(align: int)
    requires
        is_pow2(align),
        align >= 8,
    ensures
        align % 8 == 0,
{
    reveal_with_fuel(is_pow2, 4);
    let a2 = align / 2;
    let a4 = a2 / 2;
    let a8 = a4 / 2;
    assert(align == 2 * a2);
    assert(a2 == 2 * a4);
    assert(a4 == 2 * a8);
    assert(align == 8 * a8);
    lemma_fundamental_div_mod_converse(align, 8, a8, 0);
}

/// Aligns `addr` upwards to a multiple of `align`.
pub fn align_up(addr: usize, align: usize) -> (aligned: usize)
    requires
        align > 0,
        align_up_spec(addr as int, align as int) <= usize::MAX,
    ensures
        aligned == align_up_spec(addr as int, align as int),
{
    let remainder: usize = addr % align;
    if remainder == 0 {
        addr
    } else {
        proof {
            lemma_fundamental_div_mod(addr as int, align as int);
        }
        addr - remainder + align
    }
}

/// Aligns `addr` upwards to a multiple of `align`, or reports that the
/// aligned address does not fit the address type.
pub fn checked_align_up(addr: usize, align: usize) -> (aligned: Option<usize>)
    requires
        align > 0,
    ensures
        match aligned {
            Some(a) => a == align_up_spec(addr as int, align as int),
            None => align_up_spec(addr as int, align as int) > usize::MAX,
        },
{
    let remainder: usize = addr % align;
    if remainder == 0 {
        Some(addr)
    } else {
        proof {
            lemma_fundamental_div_mod(addr as int, align as int);
        }
        (addr - remainder).checked_add(align)
    }
}

} // verus!
