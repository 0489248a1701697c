//! Free-list allocation: first fit over a list of free regions, newest
//! first, with no coalescing.
//!
//! Each free region stands for a header that lives at the region's own first
//! address; the list kept here records those headers in list order.

use crate::allocator::{
    align_up,
    align_up_spec,
    checked_align_up,
    lemma_align_up,
    lemma_pow2_multiple_of_8,
};
use vstd::arithmetic::div_mod::{lemma_fundamental_div_mod, lemma_fundamental_div_mod_converse};
use vstd::arithmetic::power2::is_pow2;
use vstd::prelude::*;

verus! {

/// Bytes that a free region needs to hold its own header.
pub const NODE_SIZE: usize = 16;

/// Alignment that a free region's header needs.
pub const NODE_ALIGN: usize = 8;

/// One free region: `size` bytes starting at `start`.
#[derive(Clone, Copy, Debug)]
pub struct ListNode {
    /// First address of the region, where its header lives.
    pub start: usize,
    /// Length of the region in bytes.
    pub size: usize,
}

impl ListNode {
    /// One past the last address of the region.
    pub open spec fn end(self) -> int {
        self.start + self.size
    }

    /// The region's end is an address.
    pub open spec fn wf(self) -> bool {
        self.end() <= usize::MAX
    }

    /// Whether this region and `other` share no address.
    pub open spec fn disjoint(self, other: ListNode) -> bool {
        self.end() <= other.start || other.end() <= self.start
    }

    /// Where an allocation aligned to `align` would start in this region.
    pub open spec fn fit_start(self, align: int) -> int {
        align_up_spec(self.start as int, align)
    }

    /// Whether `size` bytes aligned to `align` can be carved from this
    /// region: they end inside it, and what is left behind them is nothing
    /// or enough for a header.
    pub open spec fn fits(self, size: int, align: int) -> bool {
        let alloc_end = self.fit_start(align) + size;
        &&& alloc_end <= self.end()
        &&& (self.end() - alloc_end == 0 || self.end() - alloc_end >= NODE_SIZE)
    }

    /// Creates the record of a free region.
    pub fn new(start: usize, size: usize) -> (node: Self)
        requires
            start + size <= usize::MAX,
        ensures
            node.start == start,
            node.size == size,
            node.wf(),
    {
        ListNode { start, size }
    }

    /// First address of the region.
    pub fn start_addr(&self) -> (addr: usize)
        ensures
            addr == self.start,
    {
        self.start
    }

    /// One past the last address of the region.
    pub fn end_addr(&self) -> (addr: usize)
        requires
            self.wf(),
        ensures
            addr == self.end(),
    {
        self.start + self.size
    }
}

/// Sum of the sizes of `regions`.
pub open spec fn free_bytes(regions: Seq<ListNode>) -> int
    decreases regions.len(),
{
    if regions.len() == 0 {
        0
    } else {
        regions[0].size + free_bytes(regions.drop_first())
    }
}

/// Index of the first region at or after `from` that fits the request, or
/// the number of regions when none does.
pub open spec fn first_fit(regions: Seq<ListNode>, size: int, align: int, from: int) -> int
    decreases regions.len() - from,
{
    if from < 0 || from >= regions.len() {
        regions.len() as int
    } else if regions[from].fits(size, align) {
        from
    } else {
        first_fit(regions, size, align, from + 1)
    }
}

/// The size and alignment that a request is served with: the alignment is at
/// least that of a header, the size a multiple of it and at least a header.
pub open spec fn size_align_spec(size: int, align: int) -> (int, int) {
    let align = if align >= NODE_ALIGN { align } else { NODE_ALIGN as int };
    let padded = align_up_spec(size, align);
    (if padded >= NODE_SIZE { padded } else { NODE_SIZE as int }, align)
}

/// The free list as a mathematical value: the free regions in list order and
/// the heap window they were cut from.
pub struct FreeList {
    /// The free regions, head of the list first.
    pub regions: Seq<ListNode>,
    /// First address of the heap.
    pub heap_start: int,
    /// One past the last address of the heap.
    pub heap_end: int,
}

impl FreeList {
    /// Whether `region` may stand in this list: aligned for a header, large
    /// enough for one, and inside the heap.
    pub open spec fn admits(self, region: ListNode) -> bool {
        &&& region.start % NODE_ALIGN == 0
        &&& region.size >= NODE_SIZE
        &&& self.heap_start <= region.start
        &&& region.end() <= self.heap_end
    }

    /// Whether `region` shares no address with any free region.
    pub open spec fn apart_from(self, region: ListNode) -> bool {
        forall|i: int| 0 <= i < self.regions.len() ==> (#[trigger] self.regions[i]).disjoint(region)
    }

    /// Every region is admitted, and no two regions overlap.
    pub open spec fn wf(self) -> bool {
        &&& 0 <= self.heap_start <= self.heap_end <= usize::MAX
        &&& forall|i: int| 0 <= i < self.regions.len() ==> self.admits(#[trigger] self.regions[i])
        &&& forall|i: int, j: int|
            0 <= i < j < self.regions.len() ==> (#[trigger] self.regions[i]).disjoint(
                #[trigger] self.regions[j],
            )
    }

    /// Total of the free regions' sizes.
    pub open spec fn free_bytes(self) -> int {
        free_bytes(self.regions)
    }

    /// The list with `region` put at its head.
    pub open spec fn push_front(self, region: ListNode) -> FreeList {
        FreeList { regions: seq![region] + self.regions, ..self }
    }

    /// Index of the region that serves a request already adjusted by
    /// `size_align_spec`, or the number of regions when none does.
    pub open spec fn chosen(self, size: int, align: int) -> int {
        first_fit(self.regions, size, align, 0)
    }

    /// The list after unlinking the region that serves the adjusted request;
    /// unchanged when none does.
    pub open spec fn unlink(self, size: int, align: int) -> FreeList {
        let i = self.chosen(size, align);
        if i < self.regions.len() {
            FreeList { regions: self.regions.remove(i), ..self }
        } else {
            self
        }
    }

    /// The address that a request for `size` bytes aligned to `align` gets,
    /// if any region serves it.
    pub open spec fn allocated(self, size: int, align: int) -> Option<int> {
        let (size, align) = size_align_spec(size, align);
        let i = self.chosen(size, align);
        if i < self.regions.len() {
            Some(self.regions[i].fit_start(align))
        } else {
            None
        }
    }

    /// Bytes skipped at the front of the serving region to reach the asked
    /// alignment; zero when no region serves the request.
    pub open spec fn padding(self, size: int, align: int) -> int {
        let (size, align) = size_align_spec(size, align);
        let i = self.chosen(size, align);
        if i < self.regions.len() {
            self.regions[i].fit_start(align) - self.regions[i].start
        } else {
            0
        }
    }

    /// The list after a request for `size` bytes aligned to `align`: the
    /// serving region is unlinked, and what is left behind the block, if
    /// anything, becomes the new head.
    pub open spec fn allocate(self, size: int, align: int) -> FreeList {
        let (size, align) = size_align_spec(size, align);
        let i = self.chosen(size, align);
        if i < self.regions.len() {
            let region = self.regions[i];
            let alloc_end = region.fit_start(align) + size;
            let rest = self.unlink(size, align);
            if region.end() - alloc_end > 0 {
                rest.push_front(
                    ListNode { start: alloc_end as usize, size: (region.end() - alloc_end) as usize },
                )
            } else {
                rest
            }
        } else {
            self
        }
    }

    /// The region that returning a block of `size` bytes aligned to `align`
    /// at `ptr` adds to the list.
    pub open spec fn returned(ptr: int, size: int, align: int) -> ListNode {
        ListNode { start: ptr as usize, size: size_align_spec(size, align).0 as usize }
    }

    /// The list after the block at `ptr` has been returned.
    pub open spec fn dealloc(self, ptr: int, size: int, align: int) -> FreeList {
        self.push_front(Self::returned(ptr, size, align))
    }
}

/// One request to the allocator: for a block, or to take a block back.
pub enum Request {
    /// A block of `size` bytes aligned to `align` is asked for.
    Allocate { size: int, align: int },
    /// The block of `size` bytes aligned to `align` at `ptr` is returned.
    Return { ptr: int, size: int, align: int },
}

impl FreeList {
    /// Whether `request` may be made of this list: a block is asked for
    /// with a size and a power of two as alignment; a block is returned
    /// that is fit to be a free region and is not free already.
    pub open spec fn permits(self, request: Request) -> bool {
        match request {
            Request::Allocate { size, align } => size >= 0 && is_pow2(align),
            Request::Return { ptr, size, align } => {
                &&& 0 <= ptr <= usize::MAX
                &&& size >= 0
                &&& align > 0
                &&& size_align_spec(size, align).0 <= usize::MAX
                &&& self.admits(Self::returned(ptr, size, align))
                &&& self.apart_from(Self::returned(ptr, size, align))
            },
        }
    }

    /// The list after `request`.
    pub open spec fn step(self, request: Request) -> FreeList {
        match request {
            Request::Allocate { size, align } => self.allocate(size, align),
            Request::Return { ptr, size, align } => self.dealloc(ptr, size, align),
        }
    }

    /// The block that `request` is served with, at its adjusted size, if
    /// the request asks for one and a region serves it.
    pub open spec fn served(self, request: Request) -> Option<ListNode> {
        match request {
            Request::Allocate { size, align } => match self.allocated(size, align) {
                Some(ptr) => Some(Self::returned(ptr, size, align)),
                None => None,
            },
            Request::Return { .. } => None,
        }
    }

    /// The list after `requests`, made in order.
    #[verifier::opaque]
    pub open spec fn run(self, requests: Seq<Request>) -> FreeList
        decreases requests.len(),
    {
        if requests.len() == 0 {
            self
        } else {
            self.run(requests.drop_last()).step(requests.last())
        }
    }

    /// Whether each of `requests`, made in order, may be made of the list
    /// that the ones before it left.
    pub open spec fn permits_run(self, requests: Seq<Request>) -> bool {
        forall|k: int|
            0 <= k < requests.len() ==> self.run(requests.take(k)).permits(#[trigger] requests[k])
    }
}

/// Whether `request` leaves the block `held` with its holder: it returns no
/// block that shares an address with it.
pub open spec fn leaves_alone(request: Request, held: ListNode) -> bool {
    request matches Request::Return { ptr, size, align } ==> FreeList::returned(
        ptr,
        size,
        align,
    ).disjoint(held)
}

/// `first_fit` names a region that fits and is preceded by none that does,
/// or finds that no region at or after `from` fits.
pub proof fn lemma_first_fit(regions: Seq<ListNode>, size: int, align: int, from: int)
    requires
        0 <= from <= regions.len(),
    ensures
        from <= first_fit(regions, size, align, from) <= regions.len(),
        first_fit(regions, size, align, from) < regions.len() ==> regions[first_fit(
            regions,
            size,
            align,
            from,
        )].fits(size, align),
        forall|j: int|
            from <= j < first_fit(regions, size, align, from) ==> !(#[trigger] regions[j]).fits(
                size,
                align,
            ),
    decreases regions.len() - from,
{
    if from < regions.len() && !regions[from].fits(size, align) {
        lemma_first_fit(regions, size, align, from + 1);
    }
}

/// A region that fits and is preceded from `from` on by none that does is
/// the one that `first_fit` names.
pub proof fn lemma_first_fit_is(regions: Seq<ListNode>, size: int, align: int, from: int, i: int)
    requires
        0 <= from <= i <= regions.len(),
        i < regions.len() ==> regions[i].fits(size, align),
        forall|j: int| from <= j < i ==> !(#[trigger] regions[j]).fits(size, align),
    ensures
        first_fit(regions, size, align, from) == i,
    decreases i - from,
{
    if from < i {
        lemma_first_fit_is(regions, size, align, from + 1, i);
    }
}

/// Putting a region at the head adds its size to the total.
pub proof fn lemma_free_bytes_push_front(regions: Seq<ListNode>, region: ListNode)
    ensures
        free_bytes(seq![region] + regions) == region.size + free_bytes(regions),
{
    assert((seq![region] + regions).drop_first() =~= regions);
}

/// Unlinking a region takes its size from the total.
pub proof fn lemma_free_bytes_remove(regions: Seq<ListNode>, i: int)
    requires
        0 <= i < regions.len(),
    ensures
        free_bytes(regions.remove(i)) == free_bytes(regions) - regions[i].size,
    decreases i,
{
    if i == 0 {
        assert(regions.remove(0) =~= regions.drop_first());
    } else {
        lemma_free_bytes_remove(regions.drop_first(), i - 1);
        assert(regions.remove(i).drop_first() =~= regions.drop_first().remove(i - 1));
    }
}

/// The adjusted size is a multiple of the header alignment and at least a
/// header; the adjusted alignment is a multiple of both the header alignment
/// and the requested one.
pub proof fn lemma_size_align(size: int, align: int)
    requires
        size >= 0,
        is_pow2(align),
    ensures
        size_align_spec(size, align).0 >= NODE_SIZE,
        size_align_spec(size, align).0 >= size,
        size_align_spec(size, align).0 % (NODE_ALIGN as int) == 0,
        size_align_spec(size, align).1 % (NODE_ALIGN as int) == 0,
        size_align_spec(size, align).1 % align == 0,
        size_align_spec(size, align).1 >= align,
{
    reveal_with_fuel(is_pow2, 4);
    let a = size_align_spec(size, align).1;
    let padded = align_up_spec(size, a);
    lemma_align_up(size, a);
    if align >= 8 {
        lemma_pow2_multiple_of_8(align);
        lemma_multiple_of_multiple(padded, a, 8);
        lemma_fundamental_div_mod_converse(align, align, 1, 0);
    } else if align == 1 {
        assert(8int % 1 == 0);
    } else if align == 2 {
        assert(8int % 2 == 0);
    } else {
        assert(align == 4);
        assert(8int % 4 == 0);
    }
}

/// A multiple of `m` is a multiple of every divisor `d` of `m`.
pub proof fn lemma_multiple_of_multiple(x: int, m: int, d: int)
    requires
        m > 0,
        d > 0,
        x % m == 0,
        m % d == 0,
    ensures
        x % d == 0,
{
    lemma_fundamental_div_mod(x, m);
    lemma_fundamental_div_mod(m, d);
    let q = (x / m) * (m / d);
    assert(x == q * d) by (nonlinear_arith)
        requires
            x == m * (x / m),
            m == d * (m / d),
            q == (x / m) * (m / d),
    ;
    lemma_fundamental_div_mod_converse(x, d, q, 0);
}

/// Unlinking a region leaves a sound list, and whatever lies inside the
/// unlinked region overlaps none of the regions that stay.
pub proof fn lemma_unlinked(list: FreeList, i: int, part: ListNode)
    requires
        list.wf(),
        0 <= i < list.regions.len(),
        list.regions[i].start <= part.start,
        part.end() <= list.regions[i].end(),
    ensures
        (FreeList { regions: list.regions.remove(i), ..list }).wf(),
        (FreeList { regions: list.regions.remove(i), ..list }).apart_from(part),
{
    let after = list.regions.remove(i);
    assert forall|j: int| 0 <= j < after.len() implies list.admits(#[trigger] after[j])
        && after[j].disjoint(part) by {
        let bj = if j < i { j } else { j + 1 };
        assert(after[j] == list.regions[bj]);
        assert(list.admits(list.regions[bj]));
        assert(list.regions[bj].disjoint(list.regions[i]));
    }
    assert forall|j: int, k: int| 0 <= j < k < after.len() implies (#[trigger] after[j]).disjoint(
        #[trigger] after[k],
    ) by {
        let bj = if j < i { j } else { j + 1 };
        let bk = if k < i { k } else { k + 1 };
        assert(after[j] == list.regions[bj]);
        assert(after[k] == list.regions[bk]);
    }
}

/// Putting a region that the list admits and that overlaps no free region
/// at the head leaves a sound list, and what overlapped neither the list nor
/// the region overlaps nothing of the longer list.
pub proof fn lemma_pushed_front(list: FreeList, region: ListNode, other: ListNode)
    requires
        list.wf(),
        list.admits(region),
        list.apart_from(region),
    ensures
        list.push_front(region).wf(),
        list.apart_from(other) && region.disjoint(other) ==> list.push_front(region).apart_from(
            other,
        ),
{
    let before = list.regions;
    let after = list.push_front(region).regions;
    assert forall|j: int| 0 <= j < after.len() implies list.admits(#[trigger] after[j]) && (
    list.apart_from(other) && region.disjoint(other) ==> after[j].disjoint(other)) by {
        if j > 0 {
            assert(after[j] == before[j - 1]);
        }
    }
    assert forall|j: int, k: int| 0 <= j < k < after.len() implies (#[trigger] after[j]).disjoint(
        #[trigger] after[k],
    ) by {
        assert(after[k] == before[k - 1]);
        if j > 0 {
            assert(after[j] == before[j - 1]);
        }
    }
}

/// What is left of the serving region behind a block: the bytes from the
/// block's end to the region's end.
pub open spec fn rest_behind(list: FreeList, size: int, align: int) -> ListNode {
    let region = list.regions[list.chosen(size, align)];
    ListNode {
        start: (region.fit_start(align) + size) as usize,
        size: (region.end() - (region.fit_start(align) + size)) as usize,
    }
}

/// When a region serves an adjusted request and bytes are left behind the
/// block, those bytes are fit to be a free region of the list without the
/// serving region, and overlap none of its regions.
pub proof fn lemma_rest_is_free(list: FreeList, size: int, align: int)
    requires
        list.wf(),
        size >= 0,
        align > 0,
        size % (NODE_ALIGN as int) == 0,
        align % (NODE_ALIGN as int) == 0,
        list.chosen(size, align) < list.regions.len(),
        rest_behind(list, size, align).size > 0,
    ensures
        list.unlink(size, align).wf(),
        list.unlink(size, align).admits(rest_behind(list, size, align)),
        list.unlink(size, align).apart_from(rest_behind(list, size, align)),
{
    let i = list.chosen(size, align);
    lemma_first_fit(list.regions, size, align, 0);
    let region = list.regions[i];
    let p = region.fit_start(align);
    assert(list.admits(region));
    lemma_align_up(region.start as int, align);
    lemma_multiple_of_multiple(p, align, NODE_ALIGN as int);
    lemma_fundamental_div_mod(p, 8);
    lemma_fundamental_div_mod(size, 8);
    lemma_fundamental_div_mod_converse(p + size, 8, p / 8 + size / 8, 0);
    lemma_unlinked(list, i, rest_behind(list, size, align));
}

/// A block that was served lies inside the heap, is aligned as asked, and
/// may be returned: in the list left by serving it, the block at its adjusted
/// size is fit to be a free region and overlaps none.
pub proof fn lemma_served_block(list: FreeList, size: int, align: int)
    requires
        list.wf(),
        size >= 0,
        is_pow2(align),
        list.allocated(size, align).is_some(),
    ensures
        list.allocate(size, align).wf(),
        list.allocated(size, align).unwrap() % align == 0,
        list.heap_start <= list.allocated(size, align).unwrap(),
        list.allocated(size, align).unwrap() + size <= list.heap_end,
        list.allocate(size, align).admits(
            FreeList::returned(list.allocated(size, align).unwrap(), size, align),
        ),
        list.allocate(size, align).apart_from(
            FreeList::returned(list.allocated(size, align).unwrap(), size, align),
        ),
{
    reveal_with_fuel(is_pow2, 1);
    lemma_size_align(size, align);
    let (size2, align2) = size_align_spec(size, align);
    let i = list.chosen(size2, align2);
    lemma_first_fit(list.regions, size2, align2, 0);
    let region = list.regions[i];
    let p = region.fit_start(align2);
    let alloc_end = p + size2;
    let excess = region.end() - alloc_end;
    assert(list.admits(region));
    lemma_align_up(region.start as int, align2);
    lemma_multiple_of_multiple(p, align2, align);
    lemma_multiple_of_multiple(p, align2, NODE_ALIGN as int);
    let block = FreeList::returned(p, size, align);
    assert(block.start == p && block.size == size2);
    let unlinked = list.unlink(size2, align2);
    lemma_unlinked(list, i, block);
    if excess > 0 {
        lemma_rest_is_free(list, size2, align2);
        lemma_pushed_front(unlinked, rest_behind(list, size2, align2), block);
    }
}

/// A run of no request leaves the list as it is; a longer run is the run of
/// all requests but the last, and then the last.
pub proof fn lemma_run_unfolds(list: FreeList, requests: Seq<Request>)
    ensures
        requests.len() == 0 ==> list.run(requests) == list,
        requests.len() > 0 ==> list.run(requests) == list.run(requests.drop_last()).step(
            requests.last(),
        ),
{
    reveal_with_fuel(FreeList::run, 1);
}

/// Whether the block that serves `request` is as asked: it starts at a
/// multiple of the asked alignment, and the asked bytes lie inside the heap.
pub open spec fn as_asked(list: FreeList, request: Request, block: ListNode) -> bool {
    request matches Request::Allocate { size, align } ==> {
        &&& (block.start as int) % align == 0
        &&& list.heap_start <= block.start
        &&& block.start + size <= list.heap_end
    }
}

/// Over a whole run of requests on a sound list, every block that is served
/// is as asked, the list stays sound, and the heap stays where it is.
pub proof fn lemma_served_blocks_are_as_asked(list: FreeList, requests: Seq<Request>)
    requires
        list.wf(),
        list.permits_run(requests),
    ensures
        list.run(requests).wf(),
        list.run(requests).heap_start == list.heap_start,
        list.run(requests).heap_end == list.heap_end,
        forall|k: int|
            0 <= k < requests.len() ==> (list.run(requests.take(k)).served(
                #[trigger] requests[k],
            ) matches Some(block) ==> as_asked(list, requests[k], block)),
    decreases requests.len(),
{
    lemma_run_unfolds(list, requests);
    if requests.len() > 0 {
        let before = requests.drop_last();
        let last = requests.len() - 1;
        assert(requests.take(last) =~= before);
        assert forall|k: int| 0 <= k < before.len() implies list.run(before.take(k)).permits(
            #[trigger] before[k],
        ) by {
            assert(before.take(k) =~= requests.take(k));
            assert(before[k] == requests[k]);
        }
        lemma_served_blocks_are_as_asked(list, before);
        let state = list.run(before);
        assert(state.permits(requests[last]));
        match requests[last] {
            Request::Allocate { size, align } => {
                if state.allocated(size, align).is_some() {
                    lemma_served_block(state, size, align);
                }
            },
            Request::Return { ptr, size, align } => {
                let block = FreeList::returned(ptr, size, align);
                lemma_pushed_front(state, block, block);
            },
        }
        assert forall|k: int| 0 <= k < requests.len() implies (list.run(requests.take(k)).served(
            #[trigger] requests[k],
        ) matches Some(block) ==> as_asked(list, requests[k], block)) by {
            if k < last {
                assert(before.take(k) =~= requests.take(k));
                assert(before[k] == requests[k]);
            }
        }
    }
}

/// A block that shares no address with any free region shares none with the
/// block that the next request is served with, nor with any free region
/// afterwards, unless the request returns it.
pub proof fn lemma_held_block_survives_request(list: FreeList, held: ListNode, request: Request)
    requires
        list.wf(),
        list.apart_from(held),
        list.permits(request),
        leaves_alone(request, held),
    ensures
        list.step(request).wf(),
        list.step(request).apart_from(held),
        list.served(request) matches Some(block) ==> block.disjoint(held),
{
    match request {
        Request::Allocate { size, align } => {
            if list.allocated(size, align).is_some() {
                reveal_with_fuel(is_pow2, 1);
                lemma_size_align(size, align);
                lemma_served_block(list, size, align);
                let (size2, align2) = size_align_spec(size, align);
                let i = list.chosen(size2, align2);
                lemma_first_fit(list.regions, size2, align2, 0);
                let region = list.regions[i];
                assert(list.admits(region));
                assert(region.disjoint(held));
                lemma_align_up(region.start as int, align2);
                let unlinked = list.unlink(size2, align2);
                assert forall|j: int| 0 <= j < unlinked.regions.len() implies (
                #[trigger] unlinked.regions[j]).disjoint(held) by {
                    let bj = if j < i { j } else { j + 1 };
                    assert(unlinked.regions[j] == list.regions[bj]);
                }
                if rest_behind(list, size2, align2).size > 0 {
                    lemma_rest_is_free(list, size2, align2);
                    lemma_pushed_front(unlinked, rest_behind(list, size2, align2), held);
                }
            }
        },
        Request::Return { ptr, size, align } => {
            lemma_pushed_front(list, FreeList::returned(ptr, size, align), held);
        },
    }
}

/// Over a whole run of requests, a block that is held from before the run to
/// its end shares no address with any block served in the run: the block
/// overlaps no free region at the start, no request returns it, and so it
/// overlaps no free region at any time, and every block is carved from one.
pub proof fn lemma_held_block_stays_apart(list: FreeList, held: ListNode, requests: Seq<Request>)
    requires
        list.wf(),
        list.apart_from(held),
        list.permits_run(requests),
        forall|k: int| 0 <= k < requests.len() ==> leaves_alone(#[trigger] requests[k], held),
    ensures
        list.run(requests).wf(),
        list.run(requests).apart_from(held),
        forall|k: int|
            0 <= k < requests.len() ==> (list.run(requests.take(k)).served(
                #[trigger] requests[k],
            ) matches Some(block) ==> block.disjoint(held)),
    decreases requests.len(),
{
    lemma_run_unfolds(list, requests);
    if requests.len() > 0 {
        let before = requests.drop_last();
        let last = requests.len() - 1;
        assert(requests.take(last) =~= before);
        assert forall|k: int| 0 <= k < before.len() implies list.run(before.take(k)).permits(
            #[trigger] before[k],
        ) by {
            assert(before.take(k) =~= requests.take(k));
            assert(before[k] == requests[k]);
        }
        assert forall|k: int| 0 <= k < before.len() implies leaves_alone(
            #[trigger] before[k],
            held,
        ) by {
            assert(before[k] == requests[k]);
        }
        lemma_held_block_stays_apart(list, held, before);
        assert(list.run(before).permits(requests[last]));
        lemma_held_block_survives_request(list.run(before), held, requests[last]);
        assert forall|k: int| 0 <= k < requests.len() implies (list.run(requests.take(k)).served(
            #[trigger] requests[k],
        ) matches Some(block) ==> block.disjoint(held)) by {
            if k < last {
                assert(before.take(k) =~= requests.take(k));
                assert(before[k] == requests[k]);
            }
        }
    }
}

/// Returning a served block gives back every byte that serving it took from
/// the free regions, except those skipped in front of it to reach the
/// alignment, which are fewer than the adjusted alignment.
pub proof fn lemma_free_bytes_conserved(list: FreeList, size: int, align: int)
    requires
        list.wf(),
        size >= 0,
        is_pow2(align),
        list.allocated(size, align).is_some(),
    ensures
        list.allocate(size, align).dealloc(
            list.allocated(size, align).unwrap(),
            size,
            align,
        ).free_bytes() + list.padding(size, align) == list.free_bytes(),
        0 <= list.padding(size, align) < size_align_spec(size, align).1,
{
    reveal_with_fuel(is_pow2, 1);
    lemma_size_align(size, align);
    let (size2, align2) = size_align_spec(size, align);
    let i = list.chosen(size2, align2);
    lemma_first_fit(list.regions, size2, align2, 0);
    let region = list.regions[i];
    let p = region.fit_start(align2);
    let alloc_end = p + size2;
    let excess = region.end() - alloc_end;
    assert(list.admits(region));
    lemma_align_up(region.start as int, align2);
    let unlinked = list.regions.remove(i);
    lemma_free_bytes_remove(list.regions, i);
    let after = list.allocate(size, align);
    let block = FreeList::returned(p, size, align);
    if excess > 0 {
        let rest = ListNode { start: alloc_end as usize, size: excess as usize };
        assert(after.regions == seq![rest] + unlinked);
        lemma_free_bytes_push_front(unlinked, rest);
    } else {
        assert(after.regions == unlinked);
    }
    lemma_free_bytes_push_front(after.regions, block);
}

/// A free-list allocator over one heap window.
pub struct LinkedListAllocator {
    regions: Vec<ListNode>,
    heap_start: usize,
    heap_end: usize,
}

impl View for LinkedListAllocator {
    type V = FreeList;

    closed spec fn view(&self) -> FreeList {
        FreeList {
            regions: self.regions@,
            heap_start: self.heap_start as int,
            heap_end: self.heap_end as int,
        }
    }
}

impl LinkedListAllocator {
    /// Creates an allocator with no free region and an empty heap window.
    pub fn new() -> (allocator: Self)
        ensures
            allocator@ == (FreeList { regions: Seq::empty(), heap_start: 0, heap_end: 0 }),
            allocator@.wf(),
    {
        LinkedListAllocator { regions: Vec::new(), heap_start: 0, heap_end: 0 }
    }

    /// Hands the heap `[heap_start, heap_start + heap_size)` to a fresh
    /// allocator as one free region.
    ///
    /// The caller vouches that the range is mapped and unused.
    pub fn init(&mut self, heap_start: usize, heap_size: usize)
        requires
            old(self)@.regions.len() == 0,
            heap_start % NODE_ALIGN == 0,
            heap_size >= NODE_SIZE,
            heap_start + heap_size <= usize::MAX,
        ensures
            final(self)@ == (FreeList {
                regions: seq![ListNode { start: heap_start, size: heap_size }],
                heap_start: heap_start as int,
                heap_end: heap_start + heap_size,
            }),
            final(self)@.wf(),
    {
        self.heap_start = heap_start;
        self.heap_end = heap_start + heap_size;
        self.add_free_region(heap_start, heap_size);
        assert(self@.regions =~= seq![ListNode { start: heap_start, size: heap_size }]);
    }

    /// Number of free regions in the list.
    pub fn region_count(&self) -> (count: usize)
        ensures
            count == self@.regions.len(),
    {
        self.regions.len()
    }

    /// The free region at position `index` of the list, the head being at
    /// position zero.
    pub fn region(&self, index: usize) -> (region: ListNode)
        requires
            index < self@.regions.len(),
        ensures
            region == self@.regions[index as int],
    {
        self.regions[index]
    }

    /// Puts the region of `size` bytes at `addr` at the head of the list.
    ///
    /// The region must be fit to hold a header and must not already be free,
    /// in whole or in part.
    pub fn add_free_region(&mut self, addr: usize, size: usize)
        requires
            old(self)@.wf(),
            old(self)@.admits(ListNode { start: addr, size }),
            old(self)@.apart_from(ListNode { start: addr, size }),
        ensures
            final(self)@ == old(self)@.push_front(ListNode { start: addr, size }),
            final(self)@.wf(),
    {
        let node = ListNode::new(addr, size);
        self.regions.insert(0, node);
        proof {
            assert(self@.regions =~= seq![node] + old(self)@.regions);
            lemma_pushed_front(old(self)@, node, node);
        }
    }

    /// Looks for the first free region that can serve `size` bytes aligned to
    /// `align` and unlinks it.
    ///
    /// Returns the block's start, its end, and how many bytes of the region
    /// are left behind the block.
    pub fn find_region(&mut self, size: usize, align: usize) -> (found: Option<(usize, usize, usize)>)
        requires
            old(self)@.wf(),
            align > 0,
        ensures
            final(self)@ == old(self)@.unlink(size as int, align as int),
            final(self)@.wf(),
            match found {
                Some((alloc_start, alloc_end, excess)) => {
                    let i = old(self)@.chosen(size as int, align as int);
                    &&& 0 <= i < old(self)@.regions.len()
                    &&& alloc_start == old(self)@.regions[i].fit_start(align as int)
                    &&& alloc_end == alloc_start + size
                    &&& excess == old(self)@.regions[i].end() - alloc_end
                },
                None => old(self)@.chosen(size as int, align as int) == old(self)@.regions.len(),
            },
    {
        let mut index: usize = 0;
        while index < self.regions.len()
            invariant
                0 <= index <= self.regions.len(),
                align > 0,
                self@ == old(self)@,
                self@.wf(),
                forall|j: int|
                    0 <= j < index ==> !(#[trigger] self@.regions[j]).fits(size as int, align as int),
            decreases self.regions.len() - index,
        {
            let region = self.regions[index];
            proof {
                assert(self@.admits(self@.regions[index as int]));
            }
            match Self::alloc_from_region(&region, size, align) {
                Ok(found) => {
                    proof {
                        lemma_first_fit_is(
                            self@.regions,
                            size as int,
                            align as int,
                            0,
                            index as int,
                        );
                    }
                    self.regions.remove(index);
                    proof {
                        assert(self@.regions =~= old(self)@.regions.remove(index as int));
                        lemma_unlinked(old(self)@, index as int, region);
                    }
                    return Some(found);
                },
                Err(_) => {
                    index = index + 1;
                },
            }
        }
        proof {
            lemma_first_fit_is(
                self@.regions,
                size as int,
                align as int,
                0,
                self@.regions.len() as int,
            );
        }
        None
    }

    /// Tries to carve `size` bytes aligned to `align` from `region`.
    ///
    /// Returns the block's start, its end, and how many bytes of the region
    /// are left behind the block; fails when the block does not fit or would
    /// leave a rest too small for a header.
    pub fn alloc_from_region(region: &ListNode, size: usize, align: usize) -> (carved: Result<
        (usize, usize, usize),
        (),
    >)
        requires
            region.wf(),
            align > 0,
        ensures
            carved.is_ok() == region.fits(size as int, align as int),
            match carved {
                Ok((alloc_start, alloc_end, excess)) => {
                    &&& alloc_start == region.fit_start(align as int)
                    &&& alloc_end == alloc_start + size
                    &&& excess == region.end() - alloc_end
                },
                Err(_) => true,
            },
    {
        proof {
            lemma_align_up(region.start as int, align as int);
        }
        let alloc_start: usize = match checked_align_up(region.start_addr(), align) {
            Some(start) => start,
            None => {
                return Err(());
            },
        };
        let alloc_end: usize = match alloc_start.checked_add(size) {
            Some(end) => end,
            None => {
                return Err(());
            },
        };
        if alloc_end > region.end_addr() {
            return Err(());
        }
        let excess_size: usize = region.end_addr() - alloc_end;
        if excess_size > 0 && excess_size < NODE_SIZE {
            return Err(());
        }
        Ok((alloc_start, alloc_end, excess_size))
    }

    /// Adjusts a request so that the block it gets can later hold a header:
    /// returns the size and the alignment to serve it with.
    pub fn size_align(size: usize, align: usize) -> (adjusted: (usize, usize))
        requires
            align > 0,
            size_align_spec(size as int, align as int).0 <= usize::MAX,
        ensures
            adjusted.0 == size_align_spec(size as int, align as int).0,
            adjusted.1 == size_align_spec(size as int, align as int).1,
    {
        let align: usize = if align >= NODE_ALIGN { align } else { NODE_ALIGN };
        proof {
            lemma_align_up(size as int, align as int);
        }
        let padded: usize = align_up(size, align);
        let size: usize = if padded >= NODE_SIZE { padded } else { NODE_SIZE };
        (size, align)
    }

    /// Serves a request for `size` bytes aligned to `align`, a power of two.
    ///
    /// Returns the start of the block, or `None` when no free region can
    /// serve the adjusted request; the list is then unchanged.
    pub fn allocate(&mut self, size: usize, align: usize) -> (ptr: Option<usize>)
        requires
            old(self)@.wf(),
            is_pow2(align as int),
            size_align_spec(size as int, align as int).0 <= usize::MAX,
        ensures
            final(self)@ == old(self)@.allocate(size as int, align as int),
            final(self)@.wf(),
            match ptr {
                Some(p) => {
                    &&& old(self)@.allocated(size as int, align as int) == Some(p as int)
                    &&& p % align == 0
                    &&& old(self)@.heap_start <= p
                    &&& p + size <= old(self)@.heap_end
                    &&& final(self)@.admits(
                        FreeList::returned(p as int, size as int, align as int),
                    )
                    &&& final(self)@.apart_from(
                        FreeList::returned(p as int, size as int, align as int),
                    )
                },
                None => old(self)@.allocated(size as int, align as int).is_none(),
            },
    {
        proof {
            reveal_with_fuel(is_pow2, 1);
            lemma_size_align(size as int, align as int);
        }
        let (size2, align2) = Self::size_align(size, align);
        proof {
            lemma_first_fit(self@.regions, size2 as int, align2 as int, 0);
            if self@.allocated(size as int, align as int).is_some() {
                lemma_served_block(self@, size as int, align as int);
            }
        }
        match self.find_region(size2, align2) {
            Some((alloc_start, alloc_end, excess_size)) => {
                proof {
                    if excess_size > 0 {
                        lemma_rest_is_free(old(self)@, size2 as int, align2 as int);
                    }
                }
                if excess_size > 0 {
                    self.add_free_region(alloc_end, excess_size);
                }
                Some(alloc_start)
            },
            None => None,
        }
    }

    /// Whether the block of `size` bytes aligned to `align` at `ptr` may be
    /// returned: at its adjusted size it is fit to be a free region of this
    /// heap and shares no address with a region that is free already.
    pub fn accepts(&self, ptr: usize, size: usize, align: usize) -> (ok: bool)
        requires
            self@.wf(),
        ensures
            ok == self@.permits(
                Request::Return { ptr: ptr as int, size: size as int, align: align as int },
            ),
    {
        if align == 0 {
            return false;
        }
        let align2: usize = if align >= NODE_ALIGN { align } else { NODE_ALIGN };
        let padded: usize = match checked_align_up(size, align2) {
            Some(padded) => padded,
            None => {
                return false;
            },
        };
        let size2: usize = if padded >= NODE_SIZE { padded } else { NODE_SIZE };
        if ptr % NODE_ALIGN != 0 || ptr < self.heap_start {
            return false;
        }
        let end: usize = match ptr.checked_add(size2) {
            Some(end) => end,
            None => {
                return false;
            },
        };
        if end > self.heap_end {
            return false;
        }
        let ghost block = FreeList::returned(ptr as int, size as int, align as int);
        assert(block == (ListNode { start: ptr, size: size2 }));
        let mut index: usize = 0;
        while index < self.regions.len()
            invariant
                0 <= index <= self.regions.len(),
                self@.wf(),
                align > 0,
                block == FreeList::returned(ptr as int, size as int, align as int),
                block == (ListNode { start: ptr, size: size2 }),
                size_align_spec(size as int, align as int).0 == size2,
                self@.admits(block),
                end == ptr + size2,
                forall|j: int| 0 <= j < index ==> (#[trigger] self@.regions[j]).disjoint(block),
            decreases self.regions.len() - index,
        {
            let region = self.regions[index];
            proof {
                assert(self@.admits(self@.regions[index as int]));
            }
            if !(region.end_addr() <= ptr || end <= region.start_addr()) {
                assert(!self@.regions[index as int].disjoint(block));
                return false;
            }
            index = index + 1;
        }
        true
    }

    /// Takes back the block of `size` bytes aligned to `align` that starts at
    /// `ptr`: it becomes the head of the free list, at its adjusted size.
    ///
    /// The block must have come from this allocator under the same size and
    /// alignment and must not have been returned already.
    pub fn dealloc(&mut self, ptr: usize, size: usize, align: usize)
        requires
            old(self)@.wf(),
            align > 0,
            size_align_spec(size as int, align as int).0 <= usize::MAX,
            old(self)@.admits(FreeList::returned(ptr as int, size as int, align as int)),
            old(self)@.apart_from(FreeList::returned(ptr as int, size as int, align as int)),
        ensures
            final(self)@ == old(self)@.dealloc(ptr as int, size as int, align as int),
            final(self)@.wf(),
    {
        let (size2, _) = Self::size_align(size, align);
        self.add_free_region(ptr, size2);
    }
}

} // verus!
