//! Physical and virtual addresses, frames and pages, and the frame allocator
//! that walks the boot memory map.

use crate::memory::physaddr::{PhysAddr, PHYS_ADDR_LIMIT};
use crate::memory::virtaddr::{is_canonical, VirtAddr};
use vstd::prelude::*;

pub mod physaddr;
pub mod virtaddr;

verus! {

/// Bytes in a frame and in a page.
pub const FRAME_SIZE: u64 = 4096;

/// Number of frames below `PHYS_ADDR_LIMIT`: frame numbers lie below it, and
/// a range of frames ends at or below it.
pub const MAX_FRAME_NUMBER: u64 = 0x0000_0100_0000_0000;

/// What a region of physical memory is used for.
#[derive(Clone, Copy, Debug, PartialEq, Eq, Structural)]
pub enum MemoryRegionType {
    /// Free for the kernel to use.
    Usable,
    /// In use by the kernel.
    InUse,
    /// Reserved by the firmware.
    Reserved,
    /// ACPI tables that may be reclaimed.
    AcpiReclaimable,
    /// ACPI memory that must be kept.
    AcpiNvs,
    /// Defective memory.
    BadMemory,
    /// The kernel image.
    Kernel,
    /// The kernel stack.
    KernelStack,
    /// Page tables set up before the kernel started.
    PageTable,
    /// The boot loader itself.
    Bootloader,
    /// The frame at address zero.
    FrameZero,
    /// An unused entry of the map.
    Empty,
    /// The boot information structure.
    BootInfo,
    /// A package loaded with the kernel.
    Package,
    /// Memory of a kind that this list does not name.
    Unknown,
}

/// A run of frames, from `start_frame_number` up to but not including
/// `end_frame_number`.
#[derive(Clone, Copy, Debug)]
pub struct FrameRange {
    /// Number of the first frame.
    pub start_frame_number: u64,
    /// Number of the frame after the last.
    pub end_frame_number: u64,
}

/// One record of the boot memory map.
#[derive(Clone, Copy, Debug)]
pub struct MemoryRegion {
    /// The frames of the region.
    pub range: FrameRange,
    /// What the region is used for.
    pub region_type: MemoryRegionType,
}

impl MemoryRegion {
    /// First address of the region.
    pub open spec fn start_addr(self) -> int {
        self.range.start_frame_number * FRAME_SIZE
    }

    /// One past the last address of the region.
    pub open spec fn end_addr(self) -> int {
        self.range.end_frame_number * FRAME_SIZE
    }

    /// How many frames the region offers: none unless it is usable.
    pub open spec fn frame_count(self) -> nat {
        if self.region_type == MemoryRegionType::Usable && self.range.start_frame_number
            < self.range.end_frame_number {
            (self.range.end_frame_number - self.range.start_frame_number) as nat
        } else {
            0
        }
    }

    /// The start addresses of the frames the region offers, ascending.
    pub open spec fn frames(self) -> Seq<int> {
        Seq::new(self.frame_count(), |k: int| (self.range.start_frame_number + k) * FRAME_SIZE)
    }

    /// Whether the region is usable and contains the address.
    pub open spec fn holds(self, addr: int) -> bool {
        &&& self.region_type == MemoryRegionType::Usable
        &&& self.start_addr() <= addr < self.end_addr()
    }

    /// Whether the frames the two regions offer are all different.
    pub open spec fn apart(self, other: MemoryRegion) -> bool {
        ||| self.frame_count() == 0
        ||| other.frame_count() == 0
        ||| self.range.end_frame_number <= other.range.start_frame_number
        ||| other.range.end_frame_number <= self.range.start_frame_number
    }
}

/// The start addresses of all frames that the usable regions of `map` offer,
/// region by region in map order.
pub open spec fn usable_frames(map: Seq<MemoryRegion>) -> Seq<int>
    decreases map.len(),
{
    if map.len() == 0 {
        Seq::empty()
    } else {
        usable_frames(map.drop_last()) + map.last().frames()
    }
}

/// A memory map whose usable regions end at or below the physical address
/// limit and do not overlap.
pub open spec fn valid_memory_map(map: Seq<MemoryRegion>) -> bool {
    &&& forall|i: int|
        0 <= i < map.len() && (#[trigger] map[i]).frame_count() > 0
            ==> map[i].range.end_frame_number <= MAX_FRAME_NUMBER
    &&& forall|i: int, j: int|
        0 <= i < j < map.len() ==> (#[trigger] map[i]).apart(#[trigger] map[j])
}

/// Taking one more region of the map adds that region's frames at the end.
pub proof fn lemma_usable_frames_step(map: Seq<MemoryRegion>, i: int)
    requires
        0 <= i < map.len(),
    ensures
        usable_frames(map.take(i + 1)) == usable_frames(map.take(i)) + map[i].frames(),
{
    assert(map.take(i + 1).drop_last() =~= map.take(i));
}

/// The frames of the first `i` regions open the sequence of all frames.
pub proof fn lemma_usable_frames_prefix(map: Seq<MemoryRegion>, i: int)
    requires
        0 <= i <= map.len(),
    ensures
        usable_frames(map.take(i)).is_prefix_of(usable_frames(map)),
    decreases map.len(),
{
    if i == map.len() {
        assert(map.take(i) =~= map);
    } else {
        lemma_usable_frames_prefix(map.drop_last(), i);
        assert(map.drop_last().take(i) =~= map.take(i));
    }
}

/// Every frame of the sequence lies in a usable region of the map and starts
/// at a multiple of the frame size. Returns the index of such a region.
pub proof fn lemma_frame_in_usable_region(map: Seq<MemoryRegion>, n: int) -> (i: int)
    requires
        0 <= n < usable_frames(map).len(),
    ensures
        0 <= i < map.len(),
        map[i].holds(usable_frames(map)[n]),
        map[i].frame_count() > 0,
        usable_frames(map)[n] % (FRAME_SIZE as int) == 0,
    decreases map.len(),
{
    let init = usable_frames(map.drop_last());
    if n < init.len() {
        lemma_frame_in_usable_region(map.drop_last(), n)
    } else {
        let k = n - init.len();
        let region = map.last();
        assert(usable_frames(map)[n] == region.frames()[k]);
        let number = region.range.start_frame_number + k;
        assert(number * 4096 % 4096 == 0) by (nonlinear_arith);
        map.len() - 1
    }
}

/// In a valid memory map no frame occurs twice in the sequence of frames.
pub proof fn lemma_usable_frames_distinct(map: Seq<MemoryRegion>, a: int, b: int)
    requires
        valid_memory_map(map),
        0 <= a < b < usable_frames(map).len(),
    ensures
        usable_frames(map)[a] != usable_frames(map)[b],
    decreases map.len(),
{
    let init = usable_frames(map.drop_last());
    let region = map.last();
    if b < init.len() {
        assert forall|i: int, j: int| 0 <= i < j < map.drop_last().len() implies (
        #[trigger] map.drop_last()[i]).apart(#[trigger] map.drop_last()[j]) by {
            assert(map[i].apart(map[j]));
        }
        assert forall|i: int|
            0 <= i < map.drop_last().len() && (#[trigger] map.drop_last()[i]).frame_count()
                > 0 implies map.drop_last()[i].range.end_frame_number <= MAX_FRAME_NUMBER by {
            assert(map[i].frame_count() > 0);
        }
        lemma_usable_frames_distinct(map.drop_last(), a, b);
    } else if a >= init.len() {
        assert(usable_frames(map)[a] == region.frames()[a - init.len()]);
        assert(usable_frames(map)[b] == region.frames()[b - init.len()]);
    } else {
        let i = lemma_frame_in_usable_region(map.drop_last(), a);
        assert(map[i].apart(region));
        assert(usable_frames(map)[a] == init[a]);
        assert(usable_frames(map)[b] == region.frames()[b - init.len()]);
        assert(region.holds(usable_frames(map)[b]));
    }
}

/// `x86_64`'s `PhysFrame::containing_address` for 4 KiB frames, applied to
/// `PhysAddr::new(addr)`: the start of the frame that contains `addr`, which
/// is `addr` with its last 12 bits cleared. `PhysAddr::new` takes every
/// integer below the physical address limit.
#[verifier::external_body]
fn frame_start_containing(addr: u64) -> (start: u64)
    requires
        addr < PHYS_ADDR_LIMIT,
    ensures
        start == addr - addr % FRAME_SIZE,
{
    x86_64::structures::paging::PhysFrame::<
        x86_64::structures::paging::Size4KiB,
    >::containing_address(x86_64::PhysAddr::new(addr)).start_address().as_u64()
}

/// `x86_64`'s `Page::containing_address` for 4 KiB pages, applied to
/// `VirtAddr::new(addr)`: the start of the page that contains `addr`, which
/// is `addr` with its last 12 bits cleared. `VirtAddr::new` leaves a
/// canonical address as it is.
#[verifier::external_body]
fn page_start_containing(addr: u64) -> (start: u64)
    requires
        is_canonical(addr),
    ensures
        start == addr - addr % FRAME_SIZE,
{
    x86_64::structures::paging::Page::<x86_64::structures::paging::Size4KiB>::containing_address(
        x86_64::VirtAddr::new(addr),
    ).start_address().as_u64()
}

/// A 4 KiB frame of physical memory, named by its start address.
#[derive(Clone, Copy, Debug)]
pub struct PhysFrame {
    start_address: PhysAddr,
}

impl View for PhysFrame {
    type V = u64;

    closed spec fn view(&self) -> u64 {
        self.start_address@
    }
}

impl PhysFrame {
    #[verifier::type_invariant]
    spec fn valid(self) -> bool {
        self.start_address@ % FRAME_SIZE == 0
    }

    /// The frame that contains the given physical address.
    pub fn containing_address(address: PhysAddr) -> (frame: Self)
        ensures
            frame@ == address@ - address@ % FRAME_SIZE,
    {
        let start: u64 = frame_start_containing(address.as_u64());
        PhysFrame { start_address: PhysAddr::new(start) }
    }

    /// The first address of the frame, a multiple of the frame size.
    pub fn start_address(self) -> (address: PhysAddr)
        ensures
            address@ == self@,
            address@ % FRAME_SIZE == 0,
    {
        proof {
            use_type_invariant(&self);
        }
        self.start_address
    }
}

/// A 4 KiB page of virtual memory, named by its start address.
#[derive(Clone, Copy, Debug)]
pub struct Page {
    start_address: VirtAddr,
}

impl View for Page {
    type V = u64;

    closed spec fn view(&self) -> u64 {
        self.start_address@
    }
}

impl Page {
    #[verifier::type_invariant]
    spec fn valid(self) -> bool {
        self.start_address@ % FRAME_SIZE == 0
    }

    /// The page that contains the given virtual address.
    pub fn containing_address(address: VirtAddr) -> (page: Self)
        ensures
            page@ == address@ - address@ % FRAME_SIZE,
    {
        let addr: u64 = address.as_u64();
        let start: u64 = page_start_containing(addr);
        assert(is_canonical(start)) by {
            assert(addr < 0x0000_8000_0000_0000 ==> addr - addr % 4096 < 0x0000_8000_0000_0000);
            assert(addr >= 0xffff_8000_0000_0000 ==> addr - addr % 4096 >= 0xffff_8000_0000_0000);
        }
        Page { start_address: VirtAddr::unsafe_new(start) }
    }

    /// The first address of the page, a multiple of the page size.
    pub fn start_address(self) -> (address: VirtAddr)
        ensures
            address@ == self@,
            address@ % FRAME_SIZE == 0,
    {
        proof {
            use_type_invariant(&self);
        }
        self.start_address
    }
}

/// The frame allocator's state as a mathematical value.
pub struct FrameCursor {
    /// The boot memory map.
    pub map: Seq<MemoryRegion>,
    /// How many frames have been asked for.
    pub next: int,
}

impl FrameCursor {
    /// The frame that the next request gets, if one is left.
    pub open spec fn upcoming(self) -> Option<int> {
        if 0 <= self.next < usable_frames(self.map).len() {
            Some(usable_frames(self.map)[self.next])
        } else {
            None
        }
    }
}

/// Hands out the usable frames of the boot memory map, one after the other.
pub struct BootInfoFrameAllocator<'a> {
    memory_map: &'a [MemoryRegion],
    next: usize,
}

impl<'a> View for BootInfoFrameAllocator<'a> {
    type V = FrameCursor;

    closed spec fn view(&self) -> FrameCursor {
        FrameCursor { map: self.memory_map@, next: self.next as int }
    }
}

/// Tests that the usable regions of a memory map end at or below the
/// physical address limit and do not overlap.
pub fn memory_map_is_valid(memory_map: &[MemoryRegion]) -> (valid: bool)
    ensures
        valid == valid_memory_map(memory_map@),
{
    let n: usize = memory_map.len();
    let mut i: usize = 0;
    while i < n
        invariant
            n == memory_map@.len(),
            0 <= i <= n,
            forall|a: int|
                0 <= a < i && (#[trigger] memory_map@[a]).frame_count() > 0
                    ==> memory_map@[a].range.end_frame_number <= MAX_FRAME_NUMBER,
            forall|a: int, b: int|
                0 <= a < b < n && a < i ==> (#[trigger] memory_map@[a]).apart(
                    #[trigger] memory_map@[b],
                ),
        decreases n - i,
    {
        let region: MemoryRegion = memory_map[i];
        if offers_frames(&region) {
            if region.range.end_frame_number > MAX_FRAME_NUMBER {
                return false;
            }
            let mut j: usize = i + 1;
            while j < n
                invariant
                    n == memory_map@.len(),
                    0 <= i < j <= n,
                    region == memory_map@[i as int],
                    region.frame_count() > 0,
                    forall|b: int|
                        i < b < j ==> (#[trigger] memory_map@[b]).apart(memory_map@[i as int]),
                decreases n - j,
            {
                let other: MemoryRegion = memory_map[j];
                if offers_frames(&other) && !(region.range.end_frame_number
                    <= other.range.start_frame_number || other.range.end_frame_number
                    <= region.range.start_frame_number) {
                    assert(!memory_map@[i as int].apart(memory_map@[j as int]));
                    return false;
                }
                j = j + 1;
            }
        }
        i = i + 1;
    }
    true
}

/// Whether the region is usable and not empty.
pub fn offers_frames(region: &MemoryRegion) -> (offers: bool)
    ensures
        offers == (region.frame_count() > 0),
{
    region.region_type == MemoryRegionType::Usable && region.range.start_frame_number
        < region.range.end_frame_number
}

impl<'a> BootInfoFrameAllocator<'a> {
    /// Creates a frame allocator over the given memory map.
    ///
    /// The caller vouches that the frames marked usable are really unused.
    pub fn init(memory_map: &'a [MemoryRegion]) -> (allocator: Self)
        requires
            valid_memory_map(memory_map@),
        ensures
            allocator@ == (FrameCursor { map: memory_map@, next: 0 }),
    {
        BootInfoFrameAllocator { memory_map, next: 0 }
    }

    /// A valid memory map and a cursor that can still advance.
    pub open spec fn wf(&self) -> bool {
        &&& valid_memory_map(self@.map)
        &&& 0 <= self@.next < usize::MAX
    }

    /// How many frames have been asked for.
    pub fn next(&self) -> (next: usize)
        ensures
            next == self@.next,
    {
        self.next
    }

    /// Hands out the next usable frame, or `None` when the usable regions are
    /// used up. The cursor advances in either case.
    pub fn allocate_frame(&mut self) -> (frame: Option<PhysFrame>)
        requires
            old(self).wf(),
        ensures
            final(self)@ == (FrameCursor { next: old(self)@.next + 1, ..old(self)@ }),
            match frame {
                Some(f) => {
                    &&& old(self)@.upcoming() == Some(f@ as int)
                    &&& exists|i: int|
                        0 <= i < old(self)@.map.len() && (#[trigger] old(self)@.map[i]).holds(
                            f@ as int,
                        )
                },
                None => old(self)@.upcoming().is_none(),
            },
    {
        let ghost map = self.memory_map@;
        let n: usize = self.memory_map.len();
        let mut remaining: usize = self.next;
        let mut i: usize = 0;
        while i < n
            invariant
                self.memory_map@ == map,
                n == map.len(),
                0 <= i <= n,
                valid_memory_map(map),
                self.next == old(self).next,
                self.next < usize::MAX,
                map == old(self)@.map,
                usable_frames(map.take(i as int)).len() + remaining == self.next,
            decreases n - i,
        {
            let region: MemoryRegion = self.memory_map[i];
            proof {
                lemma_usable_frames_step(map, i as int);
                lemma_usable_frames_prefix(map, i as int + 1);
            }
            if offers_frames(&region) {
                let count: u64 = region.range.end_frame_number - region.range.start_frame_number;
                if (remaining as u64) < count {
                    let number: u64 = region.range.start_frame_number + remaining as u64;
                    assert(number * 4096 < 0x0010_0000_0000_0000) by (nonlinear_arith)
                        requires
                            number < 0x0000_0100_0000_0000,
                    ;
                    let addr: u64 = number * FRAME_SIZE;
                    assert(addr % 4096 == 0) by (nonlinear_arith)
                        requires
                            addr == number * 4096,
                    ;
                    let frame = PhysFrame::containing_address(PhysAddr::new(addr));
                    proof {
                        let upto = usable_frames(map.take(i as int + 1));
                        assert(upto[self.next as int] == region.frames()[remaining as int]);
                        assert(usable_frames(map)[self.next as int] == upto[self.next as int]);
                        assert(addr < region.end_addr()) by (nonlinear_arith)
                            requires
                                addr == number * 4096,
                                number < region.range.end_frame_number,
                                region.end_addr() == region.range.end_frame_number * 4096,
                        ;
                        assert(region.start_addr() <= addr) by (nonlinear_arith)
                            requires
                                addr == number * 4096,
                                number >= region.range.start_frame_number,
                                region.start_addr() == region.range.start_frame_number * 4096,
                        ;
                        assert(map[i as int].holds(frame@ as int));
                    }
                    self.next = self.next + 1;
                    return Some(frame);
                } else {
                    remaining = remaining - count as usize;
                }
            }
            i = i + 1;
        }
        proof {
            assert(map.take(n as int) =~= map);
        }
        self.next = self.next + 1;
        None
    }
}

/// A frame allocator that never has a frame to give.
pub struct EmptyFrameAllocator;

impl EmptyFrameAllocator {
    /// Hands out nothing.
    pub fn allocate_frame(&mut self) -> (frame: Option<PhysFrame>)
        ensures
            frame.is_none(),
    {
        None
    }
}

/// Two requests to a frame allocator over a valid memory map never get the
/// same frame: the frames that the cursor positions `first` and `second`
/// name differ.
pub proof fn lemma_frames_never_repeat(map: Seq<MemoryRegion>, first: int, second: int)
    requires
        valid_memory_map(map),
        0 <= first < second,
        (FrameCursor { map, next: first }).upcoming().is_some(),
        (FrameCursor { map, next: second }).upcoming().is_some(),
    ensures
        (FrameCursor { map, next: first }).upcoming() != (FrameCursor {
            map,
            next: second,
        }).upcoming(),
{
    lemma_usable_frames_distinct(map, first, second);
}

} // verus!
