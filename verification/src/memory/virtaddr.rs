//! Virtual addresses: 48 significant bits, sign-extended, and their split
//! into page-table indices.

use vstd::prelude::*;

verus! {

/// One past the largest address of the lower canonical half.
pub const LOWER_HALF_END: u64 = 0x0000_8000_0000_0000;

/// First address of the upper canonical half.
pub const UPPER_HALF_START: u64 = 0xffff_8000_0000_0000;

/// Whether bits 47 to 63 of `addr` are all equal.
pub open spec fn is_canonical(addr: u64) -> bool {
    addr < LOWER_HALF_END || addr >= UPPER_HALF_START
}

/// The lower 48 bits of `addr`, with bit 47 copied into bits 48 to 63.
pub open spec fn sign_extend(addr: u64) -> u64 {
    let low = addr % 0x0001_0000_0000_0000;
    if low < LOWER_HALF_END {
        low
    } else {
        (low + 0xffff_0000_0000_0000) as u64
    }
}

/// The last 12 bits of a virtual address: the offset inside its page.
#[derive(Clone, Copy, Debug)]
pub struct PageOffset(u16);

impl View for PageOffset {
    type V = u16;

    closed spec fn view(&self) -> u16 {
        self.0
    }
}

impl PageOffset {
    #[verifier::type_invariant]
    spec fn valid(self) -> bool {
        self.0 < 4096
    }

    /// Creates an offset from the lower 12 bits of `offset`.
    pub fn new_truncate(offset: u16) -> (page_offset: Self)
        ensures
            page_offset@ == offset % 4096,
    {
        PageOffset(offset % 4096)
    }

    /// The offset as an integer, below 4096.
    pub fn as_u16(self) -> (offset: u16)
        ensures
            offset == self@,
            offset < 4096,
    {
        proof {
            use_type_invariant(&self);
        }
        self.0
    }
}

/// A 9-bit index into a page table.
#[derive(Clone, Copy, Debug)]
pub struct PageTableIndex(u16);

impl View for PageTableIndex {
    type V = u16;

    closed spec fn view(&self) -> u16 {
        self.0
    }
}

impl PageTableIndex {
    #[verifier::type_invariant]
    spec fn valid(self) -> bool {
        self.0 < 512
    }

    /// Creates an index from the lower 9 bits of `index`.
    pub fn new_truncate(index: u16) -> (table_index: Self)
        ensures
            table_index@ == index % 512,
    {
        PageTableIndex(index % 512)
    }

    /// The index as an integer, below 512.
    pub fn as_u16(self) -> (index: u16)
        ensures
            index == self@,
            index < 512,
    {
        proof {
            use_type_invariant(&self);
        }
        self.0
    }
}

/// The four levels of the page-table hierarchy, from the leaf upwards.
#[derive(Clone, Copy, Debug, PartialEq, Eq)]
pub enum PageTableLevel {
    /// The table whose entries point to frames.
    One,
    /// The table whose entries point to level-one tables.
    Two,
    /// The table whose entries point to level-two tables.
    Three,
    /// The root table.
    Four,
}

impl PageTableLevel {
    /// The level as a number from 1 to 4.
    pub open spec fn number(self) -> int {
        match self {
            PageTableLevel::One => 1,
            PageTableLevel::Two => 2,
            PageTableLevel::Three => 3,
            PageTableLevel::Four => 4,
        }
    }
}

/// The 9 bits of `addr` that index the table of the given level, 1 to 4.
pub open spec fn table_index_spec(addr: u64, level: int) -> int {
    if level == 1 {
        (addr as int / 0x1000) % 512
    } else if level == 2 {
        (addr as int / 0x20_0000) % 512
    } else if level == 3 {
        (addr as int / 0x4000_0000) % 512
    } else {
        (addr as int / 0x80_0000_0000) % 512
    }
}

/// A canonical 64-bit virtual memory address.
#[derive(Clone, Copy, Debug)]
pub struct VirtAddr(u64);

impl View for VirtAddr {
    type V = u64;

    closed spec fn view(&self) -> u64 {
        self.0
    }
}

impl VirtAddr {
    #[verifier::type_invariant]
    spec fn valid(self) -> bool {
        is_canonical(self.0)
    }

    /// Creates a virtual address from an integer whose bits 48 to 63 are
    /// zero or a copy of bit 47; bit 47 is then extended upwards.
    pub fn new(addr: u64) -> (virt: Self)
        requires
            addr < 0x0001_0000_0000_0000 || addr >= UPPER_HALF_START,
        ensures
            virt@ == sign_extend(addr),
    {
        Self::new_truncate(addr)
    }

    /// Creates a virtual address, refusing an integer whose bits 48 to 63
    /// are neither zero nor a copy of bit 47.
    pub fn try_new(addr: u64) -> (virt: Result<Self, ()>)
        ensures
            virt.is_ok() == (addr < 0x0001_0000_0000_0000 || addr >= UPPER_HALF_START),
            virt matches Ok(v) ==> v@ == sign_extend(addr),
    {
        let upper: u64 = addr >> 47;
        assert(upper == 0 <==> addr < 0x0000_8000_0000_0000) by (bit_vector)
            requires
                upper == addr >> 47,
        ;
        assert(upper == 0x1ffff <==> addr >= 0xffff_8000_0000_0000) by (bit_vector)
            requires
                upper == addr >> 47,
        ;
        assert(upper == 1 <==> 0x0000_8000_0000_0000 <= addr < 0x0001_0000_0000_0000)
            by (bit_vector)
            requires
                upper == addr >> 47,
        ;
        if upper == 0 || upper == 0x1ffff {
            Ok(VirtAddr(addr))
        } else if upper == 1 {
            Ok(Self::new_truncate(addr))
        } else {
            Err(())
        }
    }

    /// Creates a virtual address from the lower 48 bits of `addr`, with bit
    /// 47 extended upwards.
    pub fn new_truncate(addr: u64) -> (virt: Self)
        ensures
            virt@ == sign_extend(addr),
    {
        let low: u64 = addr & 0x0000_ffff_ffff_ffff;
        assert(low == addr % 0x0001_0000_0000_0000) by (bit_vector)
            requires
                low == addr & 0x0000_ffff_ffff_ffff,
        ;
        if low < LOWER_HALF_END {
            VirtAddr(low)
        } else {
            VirtAddr(low + 0xffff_0000_0000_0000)
        }
    }

    /// Creates a virtual address without testing the upper bits: the caller
    /// vouches that bits 48 to 63 equal bit 47.
    pub fn unsafe_new(addr: u64) -> (virt: Self)
        requires
            is_canonical(addr),
        ensures
            virt@ == addr,
    {
        VirtAddr(addr)
    }

    /// The address as an integer, canonical.
    pub fn as_u64(self) -> (addr: u64)
        ensures
            addr == self@,
            is_canonical(addr),
    {
        proof {
            use_type_invariant(&self);
        }
        self.0
    }

    /// The offset of the address inside its page.
    pub fn page_offset(self) -> (offset: PageOffset)
        ensures
            offset@ == self@ % 4096,
    {
        let addr: u64 = self.0;
        let low: u64 = addr & 0xfff;
        assert(low == addr % 4096) by (bit_vector)
            requires
                low == addr & 0xfff,
        ;
        PageOffset::new_truncate(low as u16)
    }

    /// The index of the address into its level-one table.
    pub fn p1_index(self) -> (index: PageTableIndex)
        ensures
            index@ == table_index_spec(self@, 1),
    {
        self.page_table_index(PageTableLevel::One)
    }

    /// The index of the address into its level-two table.
    pub fn p2_index(self) -> (index: PageTableIndex)
        ensures
            index@ == table_index_spec(self@, 2),
    {
        self.page_table_index(PageTableLevel::Two)
    }

    /// The index of the address into its level-three table.
    pub fn p3_index(self) -> (index: PageTableIndex)
        ensures
            index@ == table_index_spec(self@, 3),
    {
        self.page_table_index(PageTableLevel::Three)
    }

    /// The index of the address into the root table.
    pub fn p4_index(self) -> (index: PageTableIndex)
        ensures
            index@ == table_index_spec(self@, 4),
    {
        self.page_table_index(PageTableLevel::Four)
    }

    /// The index of the address into its table of the given level.
    pub fn page_table_index(self, level: PageTableLevel) -> (index: PageTableIndex)
        ensures
            index@ == table_index_spec(self@, level.number()),
    {
        let addr: u64 = self.0;
        let bits: u64 = match level {
            PageTableLevel::One => (addr >> 12) & 0x1ff,
            PageTableLevel::Two => (addr >> 21) & 0x1ff,
            PageTableLevel::Three => (addr >> 30) & 0x1ff,
            PageTableLevel::Four => (addr >> 39) & 0x1ff,
        };
        assert((addr >> 12) & 0x1ff == (addr / 0x1000) % 512) by (bit_vector);
        assert((addr >> 21) & 0x1ff == (addr / 0x20_0000) % 512) by (bit_vector);
        assert((addr >> 30) & 0x1ff == (addr / 0x4000_0000) % 512) by (bit_vector);
        assert((addr >> 39) & 0x1ff == (addr / 0x80_0000_0000) % 512) by (bit_vector);
        PageTableIndex::new_truncate(bits as u16)
    }
}

/// A canonical address is put together again from its four table indices
/// and its page offset, with bit 47 extended upwards.
pub proof fn lemma_indices_rebuild_address(addr: u64)
    requires
        is_canonical(addr),
    ensures
        addr == sign_extend(
            (table_index_spec(addr, 4) * 0x80_0000_0000 + table_index_spec(addr, 3) * 0x4000_0000
                + table_index_spec(addr, 2) * 0x20_0000 + table_index_spec(addr, 1) * 0x1000 + addr
                % 4096) as u64,
        ),
{
    let top: u64 = (addr / 0x80_0000_0000) % 512;
    let third: u64 = (addr / 0x4000_0000) % 512;
    let second: u64 = (addr / 0x20_0000) % 512;
    let leaf: u64 = (addr / 0x1000) % 512;
    let off: u64 = addr % 4096;
    let low: u64 = addr % 0x0001_0000_0000_0000;
    assert(top * 0x80_0000_0000 + third * 0x4000_0000 + second * 0x20_0000 + leaf * 0x1000 + off == low)
        by (bit_vector)
        requires
            top == (addr / 0x80_0000_0000) % 512,
            third == (addr / 0x4000_0000) % 512,
            second == (addr / 0x20_0000) % 512,
            leaf == (addr / 0x1000) % 512,
            off == addr % 4096,
            low == addr % 0x0001_0000_0000_0000,
    ;
    assert(low % 0x0001_0000_0000_0000 == low) by (bit_vector)
        requires
            low == addr % 0x0001_0000_0000_0000,
    ;
    assert(addr < 0x0000_8000_0000_0000 ==> low == addr) by (bit_vector)
        requires
            low == addr % 0x0001_0000_0000_0000,
    ;
    assert(addr >= 0xffff_8000_0000_0000 ==> low >= 0x0000_8000_0000_0000 && low
        + 0xffff_0000_0000_0000 == addr) by (bit_vector)
        requires
            low == addr % 0x0001_0000_0000_0000,
    ;
}

} // verus!
