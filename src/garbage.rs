use crate::ptr::{
    lemma_live_count_bound, lemma_live_count_push, lemma_live_count_same_shape,
    lemma_live_count_update, live_count, Ptr, Store,
};
use vstd::prelude::*;

verus! {

/// The heap that reference-counted handles live in: one region for the
/// payload blocks and one for the counter blocks. The payload and the counter
/// of a handle sit at the same slot of their regions and are freed together.
pub struct Heap<T> {
    data: Store<T>,
    counts: Store<i32>,
}

impl<T> Heap<T> {
    /// The payload slots; `None` where the block was freed.
    pub closed spec fn payloads(self) -> Seq<Option<T>> {
        self.data@
    }

    /// The counter slots; `None` where the block was freed.
    pub closed spec fn counts(self) -> Seq<Option<i32>> {
        self.counts@
    }

    /// The block counters of both regions agree with their slots.
    pub closed spec fn stores_wf(self) -> bool {
        self.data.wf() && self.counts.wf()
    }

    /// The number of blocks allocated and not yet freed, payloads and
    /// counters together.
    pub open spec fn unfreed_blocks(self) -> nat {
        live_count(self.payloads()) + live_count(self.counts())
    }

    /// Payload and counter slots are allocated and freed together, and every
    /// counter not yet freed is at least one.
    pub open spec fn wf(self) -> bool {
        &&& self.stores_wf()
        &&& self.payloads().len() == self.counts().len()
        &&& 2 * self.counts().len() <= usize::MAX
        &&& forall|i: int|
            #![trigger self.payloads()[i]]
            #![trigger self.counts()[i]]
            0 <= i < self.counts().len() ==> (self.payloads()[i] is Some) == (self.counts()[i] is Some)
        &&& forall|i: int|
            0 <= i < self.counts().len() && #[trigger] self.counts()[i] is Some
                ==> self.counts()[i]->Some_0 >= 1
    }

    /// An empty heap.
    pub fn new() -> (h: Self)
        ensures
            h.wf(),
            h.payloads() == Seq::<Option<T>>::empty(),
            h.counts() == Seq::<Option<i32>>::empty(),
    {
        Heap { data: Store::new(), counts: Store::new() }
    }

    /// The number of blocks allocated and not yet freed.
    pub fn unfreed(&self) -> (r: usize)
        requires
            self.wf(),
        ensures
            r == self.unfreed_blocks(),
    {
        proof {
            lemma_live_count_bound(self.data@);
            lemma_live_count_bound(self.counts@);
        }
        self.data.unfreed() + self.counts.unfreed()
    }
}

/// Every payload block has its counter block, so the blocks not yet freed
/// are twice the handles not yet released.
pub proof fn lemma_unfreed_is_even<T>(heap: Heap<T>)
    requires
        heap.wf(),
    ensures
        heap.unfreed_blocks() == 2 * live_count(heap.counts()),
{
    lemma_live_count_same_shape(heap.payloads(), heap.counts());
}

/// Checks that every handle made in `heap` has been released: `Ok` when no
/// block is left, else `Err` with the number of handles whose blocks leaked.
pub fn check_heap<T>(heap: &Heap<T>) -> (r: Result<(), usize>)
    requires
        heap.wf(),
    ensures
        heap.unfreed_blocks() == 2 * live_count(heap.counts()),
        r == if heap.unfreed_blocks() == 0 {
            Ok::<(), usize>(())
        } else {
            Err(live_count(heap.counts()) as usize)
        },
{
    proof {
        lemma_unfreed_is_even(*heap);
        lemma_live_count_bound(heap.counts@);
    }
    let leaked = heap.counts.unfreed();
    if leaked == 0 {
        Ok(())
    } else {
        Err(leaked)
    }
}

/// A reference-counted handle to a payload block of a `Heap`.
///
/// Copies made with `get` share the payload and the counter; each copy must
/// be released with `collect` exactly once. Releasing the last copy frees
/// both blocks.
pub struct Garbage<T> {
    data: Ptr<T>,
    count: Ptr<i32>,
}

impl<T> Garbage<T> {
    /// The slot of the payload block.
    pub closed spec fn slot(self) -> int {
        self.data.index as int
    }

    /// The payload and the counter sit at the same slot.
    pub closed spec fn paired(self) -> bool {
        self.data.index == self.count.index
    }

    /// Both blocks of the handle are allocated and not freed.
    pub open spec fn live(self, heap: Heap<T>) -> bool {
        &&& self.paired()
        &&& 0 <= self.slot() < heap.counts().len()
        &&& self.slot() < heap.payloads().len()
        &&& heap.counts()[self.slot()] is Some
    }

    /// Both blocks of the handle were allocated and have been freed.
    pub open spec fn freed(self, heap: Heap<T>) -> bool {
        &&& self.paired()
        &&& 0 <= self.slot() < heap.counts().len()
        &&& self.slot() < heap.payloads().len()
        &&& heap.counts()[self.slot()] is None
        &&& heap.payloads()[self.slot()] is None
    }

    /// The two handles share their payload and their counter.
    pub open spec fn aliases(self, other: Self) -> bool {
        self.paired() && other.paired() && self.slot() == other.slot()
    }

    /// The payload the handle refers to.
    pub open spec fn value_in(self, heap: Heap<T>) -> T {
        heap.payloads()[self.slot()]->Some_0
    }

    /// The shared reference count of the handle.
    pub open spec fn count_in(self, heap: Heap<T>) -> i32 {
        heap.counts()[self.slot()]->Some_0
    }

    /// `g` is a new handle holding `data`, with count 1, in blocks appended
    /// to the heap.
    pub open spec fn created(before: Heap<T>, after: Heap<T>, data: T, g: Self) -> bool {
        &&& g.paired()
        &&& g.slot() == before.counts().len()
        &&& after.payloads() == before.payloads().push(Some(data))
        &&& after.counts() == before.counts().push(Some(1i32))
    }

    /// `r` is a copy of the live handle `src`: it shares its blocks, and the
    /// shared count went up by one. No block was allocated.
    pub open spec fn copied(before: Heap<T>, after: Heap<T>, src: Self, r: Self) -> bool {
        &&& src.live(before)
        &&& src.count_in(before) < i32::MAX
        &&& r.aliases(src)
        &&& after.payloads() == before.payloads()
        &&& after.counts() == before.counts().update(
            src.slot(),
            Some((src.count_in(before) + 1) as i32),
        )
    }

    /// The payload of the live handle `g` was overwritten with `t`.
    pub open spec fn replaced(before: Heap<T>, after: Heap<T>, g: Self, t: T) -> bool {
        &&& g.live(before)
        &&& after.payloads() == before.payloads().update(g.slot(), Some(t))
        &&& after.counts() == before.counts()
    }

    /// The live handle `g` was released: its shared count went down by one,
    /// and where it reached zero both blocks were freed.
    pub open spec fn released(before: Heap<T>, after: Heap<T>, g: Self) -> bool {
        &&& g.live(before)
        &&& if g.count_in(before) > 1 {
            &&& after.payloads() == before.payloads()
            &&& after.counts() == before.counts().update(
                g.slot(),
                Some((g.count_in(before) - 1) as i32),
            )
        } else {
            &&& after.payloads() == before.payloads().update(g.slot(), None)
            &&& after.counts() == before.counts().update(g.slot(), None)
        }
    }

    /// Makes a handle to a new payload block holding `data`, with count 1.
    pub fn new(heap: &mut Heap<T>, data: T) -> (g: Self)
        requires
            old(heap).wf(),
            2 * (old(heap).counts().len() + 1) <= usize::MAX,
        ensures
            final(heap).wf(),
            Self::created(*old(heap), *final(heap), data, g),
            final(heap).unfreed_blocks() == old(heap).unfreed_blocks() + 2,
    {
        proof {
            lemma_live_count_push(heap.data@, Some(data));
            lemma_live_count_push(heap.counts@, Some(1i32));
        }
        let data = Ptr::new(&mut heap.data, data);
        let count = Ptr::new(&mut heap.counts, 1);
        Garbage { data, count }
    }

    /// Whether the handle's blocks are still allocated, that is whether it may
    /// be read, written, copied or released.
    pub fn is_live(&self, heap: &Heap<T>) -> (r: bool)
        requires
            heap.wf(),
        ensures
            r == self.live(*heap),
    {
        self.data.index == self.count.index && self.count.is_safe(&heap.counts)
    }

    /// Borrows the payload.
    pub fn decay<'a>(&self, heap: &'a Heap<T>) -> (r: &'a T)
        requires
            heap.wf(),
            self.live(*heap),
        ensures
            *r == self.value_in(*heap),
    {
        self.data.get(&heap.data)
    }

    /// Makes a copy of the handle: it shares the payload and the counter, and
    /// the shared count goes up by one. The copy must be released too.
    pub fn get(&self, heap: &mut Heap<T>) -> (r: Self)
        requires
            old(heap).wf(),
            self.live(*old(heap)),
            self.count_in(*old(heap)) < i32::MAX,
        ensures
            final(heap).wf(),
            Self::copied(*old(heap), *final(heap), *self, r),
            final(heap).unfreed_blocks() == old(heap).unfreed_blocks(),
    {
        let count = *self.count.get(&heap.counts);
        self.count.set(&mut heap.counts, count + 1);
        Garbage { data: self.data, count: self.count }
    }

    /// Overwrites the payload; every alias of the handle sees the new value.
    pub fn set(&mut self, heap: &mut Heap<T>, t: T)
        requires
            old(heap).wf(),
            old(self).live(*old(heap)),
        ensures
            *final(self) == *old(self),
            final(heap).wf(),
            Self::replaced(*old(heap), *final(heap), *old(self), t),
            final(heap).unfreed_blocks() == old(heap).unfreed_blocks(),
    {
        self.data.set(&mut heap.data, t);
    }

    /// The shared reference count.
    pub fn count(&self, heap: &Heap<T>) -> (r: i32)
        requires
            heap.wf(),
            self.live(*heap),
        ensures
            r == self.count_in(*heap),
            r >= 1,
    {
        *self.count.get(&heap.counts)
    }

    /// Releases this copy of the handle: the shared count goes down by one,
    /// and when it reaches zero the payload block and then the counter block
    /// are freed.
    pub fn collect(&mut self, heap: &mut Heap<T>)
        requires
            old(heap).wf(),
            old(self).live(*old(heap)),
        ensures
            *final(self) == *old(self),
            final(heap).wf(),
            Self::released(*old(heap), *final(heap), *old(self)),
            final(heap).unfreed_blocks() == if old(self).count_in(*old(heap)) > 1 {
                old(heap).unfreed_blocks()
            } else {
                (old(heap).unfreed_blocks() - 2) as nat
            },
    {
        let ghost before = *heap;
        let count = *self.count.get(&heap.counts);
        self.count.set(&mut heap.counts, count - 1);
        let new_count = *self.count.get(&heap.counts);
        if new_count == 0 {
            self.data.dealloc(&mut heap.data);
            self.count.dealloc(&mut heap.counts);
            assert(heap.counts() =~= before.counts().update(self.slot(), None));
        }
    }
}

impl<T: Clone> Garbage<T> {
    /// A clone of the payload.
    pub fn unwrap(&self, heap: &Heap<T>) -> (r: T)
        requires
            heap.wf(),
            self.live(*heap),
        ensures
            cloned(self.value_in(*heap), r),
    {
        self.decay(heap).clone()
    }
}

} // verus!
