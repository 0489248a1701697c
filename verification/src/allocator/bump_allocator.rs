//! Bump allocation: a cursor that only moves forward, reclaimed as a whole
//! once every allocation has been returned.

use crate::allocator::{align_up_spec, checked_align_up, lemma_align_up};
use vstd::prelude::*;

verus! {

/// The state of a bump allocator as mathematical integers.
pub struct BumpState {
    /// First address of the heap.
    pub heap_start: int,
    /// One past the last address of the heap.
    pub heap_end: int,
    /// The address from which the next allocation is carved.
    pub next: int,
    /// Number of allocations handed out and not yet returned.
    pub allocations: int,
}

impl BumpState {
    /// The cursor lies within the heap and the live count is not negative.
    pub open spec fn wf(self) -> bool {
        &&& 0 <= self.heap_start <= self.next <= self.heap_end
        &&& self.allocations >= 0
    }

    /// Where an allocation of `size` bytes aligned to `align` would start.
    pub open spec fn alloc_start(self, align: int) -> int {
        align_up_spec(self.next, align)
    }

    /// Whether an allocation of `size` bytes aligned to `align` fits.
    pub open spec fn can_alloc(self, size: int, align: int) -> bool {
        self.alloc_start(align) + size <= self.heap_end
    }

    /// The state after a request for `size` bytes aligned to `align`:
    /// unchanged when the request does not fit.
    pub open spec fn allocate(self, size: int, align: int) -> BumpState {
        if self.can_alloc(size, align) {
            BumpState {
                next: self.alloc_start(align) + size,
                allocations: self.allocations + 1,
                ..self
            }
        } else {
            self
        }
    }

    /// The state after one allocation has been returned.
    pub open spec fn dealloc(self) -> BumpState {
        if self.allocations == 1 {
            BumpState { next: self.heap_start, allocations: 0, ..self }
        } else {
            BumpState { allocations: self.allocations - 1, ..self }
        }
    }
}

/// One request to the allocator: for a block, or to take a block back.
pub enum Request {
    /// A block of `size` bytes aligned to `align` is asked for.
    Allocate { size: int, align: int },
    /// A block is returned.
    Return,
}

impl BumpState {
    /// Whether `request` may be made in this state: a block is asked for
    /// with a size and an alignment; a block is returned while one is out.
    pub open spec fn permits(self, request: Request) -> bool {
        match request {
            Request::Allocate { size, align } => size >= 0 && align > 0,
            Request::Return => self.allocations > 0,
        }
    }

    /// The state after `request`.
    pub open spec fn step(self, request: Request) -> BumpState {
        match request {
            Request::Allocate { size, align } => self.allocate(size, align),
            Request::Return => self.dealloc(),
        }
    }

    /// The start of the block that `request` is served with, if the request
    /// asks for one and it fits.
    pub open spec fn served(self, request: Request) -> Option<int> {
        match request {
            Request::Allocate { size, align } => if self.can_alloc(size, align) {
                Some(self.alloc_start(align))
            } else {
                None
            },
            Request::Return => None,
        }
    }

    /// The state after `requests`, made in order.
    #[verifier::opaque]
    pub open spec fn run(self, requests: Seq<Request>) -> BumpState
        decreases requests.len(),
    {
        if requests.len() == 0 {
            self
        } else {
            self.run(requests.drop_last()).step(requests.last())
        }
    }

    /// Whether each of `requests`, made in order, may be made in the state
    /// that the ones before it left.
    pub open spec fn permits_run(self, requests: Seq<Request>) -> bool {
        forall|k: int|
            0 <= k < requests.len() ==> self.run(requests.take(k)).permits(#[trigger] requests[k])
    }

    /// Whether a block that is out at the start is still out after each of
    /// `requests`: whenever a block is returned, another one stays out.
    pub open spec fn keeps_one_out(self, requests: Seq<Request>) -> bool {
        forall|k: int|
            0 <= k < requests.len() && #[trigger] requests[k] == Request::Return ==> self.run(
                requests.take(k),
            ).allocations >= 2
    }
}

/// A bump allocator over one contiguous heap.
pub struct BumpAllocator {
    heap_start: usize,
    heap_end: usize,
    next: usize,
    allocations: usize,
}

impl View for BumpAllocator {
    type V = BumpState;

    closed spec fn view(&self) -> BumpState {
        BumpState {
            heap_start: self.heap_start as int,
            heap_end: self.heap_end as int,
            next: self.next as int,
            allocations: self.allocations as int,
        }
    }
}

impl BumpAllocator {
    /// Creates an allocator over an empty heap at address zero.
    pub fn new() -> (allocator: Self)
        ensures
            allocator@ == (BumpState { heap_start: 0, heap_end: 0, next: 0, allocations: 0 }),
            allocator@.wf(),
    {
        BumpAllocator { heap_start: 0, heap_end: 0, next: 0, allocations: 0 }
    }

    /// Points the allocator at the heap `[heap_start, heap_start + heap_size)`.
    ///
    /// The caller vouches that the range is mapped and unused. The count of
    /// live allocations is kept as it was.
    pub fn init(&mut self, heap_start: usize, heap_size: usize)
        requires
            heap_start + heap_size <= usize::MAX,
        ensures
            final(self)@ == (BumpState {
                heap_start: heap_start as int,
                heap_end: heap_start + heap_size,
                next: heap_start as int,
                allocations: old(self)@.allocations,
            }),
            final(self)@.wf(),
    {
        self.heap_start = heap_start;
        self.heap_end = heap_start + heap_size;
        self.next = heap_start;
    }

    /// The address from which the next allocation is carved.
    pub fn next(&self) -> (next: usize)
        ensures
            next == self@.next,
    {
        self.next
    }

    /// Number of allocations handed out and not yet returned.
    pub fn allocations(&self) -> (live: usize)
        ensures
            live == self@.allocations,
    {
        self.allocations
    }

    /// Carves `size` bytes aligned to `align` from the heap.
    ///
    /// Returns the start of the block, or `None` when the aligned block would
    /// end beyond the heap; the state is then unchanged.
    pub fn allocate(&mut self, size: usize, align: usize) -> (ptr: Option<usize>)
        requires
            old(self)@.wf(),
            align > 0,
            old(self)@.allocations < usize::MAX,
        ensures
            final(self)@ == old(self)@.allocate(size as int, align as int),
            final(self)@.wf(),
            match ptr {
                Some(p) => {
                    &&& old(self)@.can_alloc(size as int, align as int)
                    &&& p == old(self)@.alloc_start(align as int)
                    &&& p % align == 0
                    &&& old(self)@.heap_start <= p
                    &&& p + size <= old(self)@.heap_end
                },
                None => !old(self)@.can_alloc(size as int, align as int),
            },
    {
        proof {
            lemma_align_up(self.next as int, align as int);
        }
        let alloc_start: usize = match checked_align_up(self.next, align) {
            Some(start) => start,
            None => {
                return None;
            },
        };
        let alloc_end: usize = match alloc_start.checked_add(size) {
            Some(end) => end,
            None => {
                return None;
            },
        };
        if alloc_end > self.heap_end {
            None
        } else {
            self.next = alloc_end;
            self.allocations = self.allocations + 1;
            Some(alloc_start)
        }
    }

    /// Takes back one allocation. When it was the last one outstanding, the
    /// whole heap becomes free again.
    pub fn dealloc(&mut self, ptr: usize, size: usize, align: usize)
        requires
            old(self)@.wf(),
            old(self)@.allocations > 0,
        ensures
            final(self)@ == old(self)@.dealloc(),
            final(self)@.wf(),
    {
        let _ = ptr;
        let _ = size;
        let _ = align;
        self.allocations = self.allocations - 1;
        if self.allocations == 0 {
            self.next = self.heap_start;
        }
    }
}

/// Once the last outstanding allocation is returned, the next allocation
/// that fits starts at the first suitably aligned address of the heap.
pub proof fn lemma_reset_when_empty(s: BumpState, size: int, align: int)
    requires
        s.wf(),
        s.allocations == 1,
        align > 0,
    ensures
        s.dealloc().allocations == 0,
        s.dealloc().next == s.heap_start,
        s.dealloc().alloc_start(align) == align_up_spec(s.heap_start, align),
        s.dealloc().can_alloc(size, align) <==> align_up_spec(s.heap_start, align) + size
            <= s.heap_end,
        s.heap_start % align == 0 ==> s.dealloc().alloc_start(align) == s.heap_start,
{
}

/// Allocation and return keep the cursor inside the heap, and a block that
/// was handed out lies inside the heap and is aligned as asked.
pub proof fn lemma_block_in_heap(s: BumpState, size: int, align: int)
    requires
        s.wf(),
        size >= 0,
        align > 0,
        s.can_alloc(size, align),
    ensures
        s.allocate(size, align).wf(),
        s.alloc_start(align) % align == 0,
        s.heap_start <= s.alloc_start(align),
        s.alloc_start(align) + size <= s.heap_end,
{
    lemma_align_up(s.next, align);
}

/// A run of no request leaves the state as it is; a longer run is the run
/// of all requests but the last, and then the last.
pub proof fn lemma_run_unfolds(s: BumpState, requests: Seq<Request>)
    ensures
        requests.len() == 0 ==> s.run(requests) == s,
        requests.len() > 0 ==> s.run(requests) == s.run(requests.drop_last()).step(
            requests.last(),
        ),
{
    reveal_with_fuel(BumpState::run, 1);
}

/// Whether the block at `start` that serves `request` is as asked: it starts
/// at a multiple of the asked alignment, and the asked bytes lie inside the
/// heap.
pub open spec fn as_asked(s: BumpState, request: Request, start: int) -> bool {
    request matches Request::Allocate { size, align } ==> {
        &&& start % align == 0
        &&& s.heap_start <= start
        &&& start + size <= s.heap_end
    }
}

/// Over a whole run of requests from a sound state, every block that is
/// served is as asked, the state stays sound, and the heap stays where it
/// is.
pub proof fn lemma_served_blocks_are_as_asked(s: BumpState, requests: Seq<Request>)
    requires
        s.wf(),
        s.permits_run(requests),
    ensures
        s.run(requests).wf(),
        s.run(requests).heap_start == s.heap_start,
        s.run(requests).heap_end == s.heap_end,
        forall|k: int|
            0 <= k < requests.len() ==> (s.run(requests.take(k)).served(
                #[trigger] requests[k],
            ) matches Some(start) ==> as_asked(s, requests[k], start)),
    decreases requests.len(),
{
    lemma_run_unfolds(s, requests);
    if requests.len() > 0 {
        let before = requests.drop_last();
        let last = requests.len() - 1;
        assert(requests.take(last) =~= before);
        assert forall|k: int| 0 <= k < before.len() implies s.run(before.take(k)).permits(
            #[trigger] before[k],
        ) by {
            assert(before.take(k) =~= requests.take(k));
            assert(before[k] == requests[k]);
        }
        lemma_served_blocks_are_as_asked(s, before);
        let state = s.run(before);
        assert(state.permits(requests[last]));
        match requests[last] {
            Request::Allocate { size, align } => {
                lemma_align_up(state.next, align);
            },
            Request::Return => {},
        }
        assert forall|k: int| 0 <= k < requests.len() implies (s.run(requests.take(k)).served(
            #[trigger] requests[k],
        ) matches Some(start) ==> as_asked(s, requests[k], start)) by {
            if k < last {
                assert(before.take(k) =~= requests.take(k));
                assert(before[k] == requests[k]);
            }
        }
    }
}

/// Over a whole run of requests, a block that is out from before the run to
/// its end lies wholly below every block served in the run: the block ends
/// at or below the cursor, the cursor falls back only when the last block
/// out is returned, and every block is carved at or above the cursor.
pub proof fn lemma_held_block_stays_apart(s: BumpState, held_end: int, requests: Seq<Request>)
    requires
        s.wf(),
        s.allocations >= 1,
        held_end <= s.next,
        s.permits_run(requests),
        s.keeps_one_out(requests),
    ensures
        s.run(requests).wf(),
        s.run(requests).allocations >= 1,
        held_end <= s.run(requests).next,
        forall|k: int|
            0 <= k < requests.len() ==> (s.run(requests.take(k)).served(
                #[trigger] requests[k],
            ) matches Some(start) ==> held_end <= start),
    decreases requests.len(),
{
    lemma_run_unfolds(s, requests);
    if requests.len() > 0 {
        let before = requests.drop_last();
        let last = requests.len() - 1;
        assert(requests.take(last) =~= before);
        assert forall|k: int| 0 <= k < before.len() implies s.run(before.take(k)).permits(
            #[trigger] before[k],
        ) by {
            assert(before.take(k) =~= requests.take(k));
            assert(before[k] == requests[k]);
        }
        assert forall|k: int|
            0 <= k < before.len() && #[trigger] before[k] == Request::Return implies s.run(
            before.take(k),
        ).allocations >= 2 by {
            assert(before.take(k) =~= requests.take(k));
            assert(before[k] == requests[k]);
        }
        lemma_held_block_stays_apart(s, held_end, before);
        let state = s.run(before);
        assert(state.permits(requests[last]));
        match requests[last] {
            Request::Allocate { size, align } => {
                lemma_align_up(state.next, align);
            },
            Request::Return => {
                assert(state.allocations >= 2);
            },
        }
        assert forall|k: int| 0 <= k < requests.len() implies (s.run(requests.take(k)).served(
            #[trigger] requests[k],
        ) matches Some(start) ==> held_end <= start) by {
            if k < last {
                assert(before.take(k) =~= requests.take(k));
                assert(before[k] == requests[k]);
            }
        }
    }
}

} // verus!
