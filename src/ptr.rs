use std::marker::PhantomData;
use vstd::prelude::*;

verus! {

/// The number of occupied (not yet freed) slots in `s`.
pub open spec fn live_count<T>(s: Seq<Option<T>>) -> nat
    decreases s.len(),
{
    if s.len() == 0 {
        0
    } else {
        live_count(s.drop_last()) + if s.last() is Some {
            1nat
        } else {
            0nat
        }
    }
}

/// Appending a slot adds one to the count exactly when the slot is occupied.
pub proof fn lemma_live_count_push<T>(s: Seq<Option<T>>, x: Option<T>)
    ensures
        live_count(s.push(x)) == live_count(s) + if x is Some {
            1nat
        } else {
            0nat
        },
{
    assert(s.push(x).drop_last() =~= s);
}

/// Overwriting one slot changes the count by the change in that slot alone.
pub proof fn lemma_live_count_update<T>(s: Seq<Option<T>>, i: int, x: Option<T>)
    requires
        0 <= i < s.len(),
    ensures
        live_count(s.update(i, x)) + (if s[i] is Some {
            1nat
        } else {
            0nat
        }) == live_count(s) + (if x is Some {
            1nat
        } else {
            0nat
        }),
    decreases s.len(),
{
    if i < s.len() - 1 {
        assert(s.update(i, x).drop_last() =~= s.drop_last().update(i, x));
        lemma_live_count_update(s.drop_last(), i, x);
    } else {
        assert(s.update(i, x).drop_last() =~= s.drop_last());
    }
}

/// The count never exceeds the number of slots.
pub proof fn lemma_live_count_bound<T>(s: Seq<Option<T>>)
    ensures
        live_count(s) <= s.len(),
    decreases s.len(),
{
    if s.len() > 0 {
        lemma_live_count_bound(s.drop_last());
    }
}

/// Two slot sequences that are occupied at the same places hold the same
/// number of blocks.
pub proof fn lemma_live_count_same_shape<A, B>(a: Seq<Option<A>>, b: Seq<Option<B>>)
    requires
        a.len() == b.len(),
        forall|i: int| 0 <= i < a.len() ==> (a[i] is Some) == (b[i] is Some),
    ensures
        live_count(a) == live_count(b),
    decreases a.len(),
{
    if a.len() > 0 {
        assert(a.last() is Some == b.last() is Some);
        lemma_live_count_same_shape(a.drop_last(), b.drop_last());
    }
}

/// A heap region holding blocks of one type, with a count of the blocks not
/// yet freed.
pub struct Store<T> {
    slots: Vec<Option<T>>,
    unfreed: usize,
}

impl<T> View for Store<T> {
    type V = Seq<Option<T>>;

    closed spec fn view(&self) -> Seq<Option<T>> {
        self.slots@
    }
}

impl<T> Store<T> {
    /// The block counter agrees with the slots.
    pub closed spec fn wf(self) -> bool {
        self.unfreed == live_count(self.slots@)
    }

    /// An empty region.
    pub fn new() -> (s: Self)
        ensures
            s.wf(),
            s@ == Seq::<Option<T>>::empty(),
    {
        Store { slots: Vec::new(), unfreed: 0 }
    }

    /// The number of blocks allocated here and not yet freed.
    pub fn unfreed(&self) -> (r: usize)
        requires
            self.wf(),
        ensures
            r == live_count(self@),
    {
        self.unfreed
    }
}

/// The address of one block in a `Store`.
pub struct Ptr<T> {
    pub index: usize,
    pub kind: PhantomData<T>,
}

/// Copying a `Ptr` copies the address only: the copy names the same block.
impl<T> Clone for Ptr<T> {
    fn clone(&self) -> (r: Self)
        ensures
            r == *self,
    {
        *self
    }
}

impl<T> Copy for Ptr<T> {
}

impl<T> Ptr<T> {
    /// The block is allocated and not freed.
    pub open spec fn safe_in(self, store: Store<T>) -> bool {
        self.index < store@.len() && store@[self.index as int] is Some
    }

    /// The value held by the block.
    pub open spec fn value_in(self, store: Store<T>) -> T {
        store@[self.index as int]->Some_0
    }

    /// Allocates a new block in `store` holding `t`.
    pub fn new(store: &mut Store<T>, t: T) -> (p: Self)
        requires
            old(store).wf(),
            old(store)@.len() < usize::MAX,
        ensures
            final(store).wf(),
            p.index == old(store)@.len(),
            final(store)@ == old(store)@.push(Some(t)),
            live_count(final(store)@) == live_count(old(store)@) + 1,
    {
        proof {
            lemma_live_count_push(store.slots@, Some(t));
            lemma_live_count_bound(store.slots@);
        }
        let index = store.slots.len();
        store.slots.push(Some(t));
        store.unfreed = store.unfreed + 1;
        Ptr { index, kind: PhantomData }
    }

    /// Whether the block may still be read, written or freed.
    pub fn is_safe(&self, store: &Store<T>) -> (r: bool)
        ensures
            r == self.safe_in(*store),
    {
        self.index < store.slots.len() && store.slots[self.index].is_some()
    }

    /// Overwrites the value held by the block.
    pub fn set(&self, store: &mut Store<T>, t: T)
        requires
            old(store).wf(),
            self.safe_in(*old(store)),
        ensures
            final(store).wf(),
            final(store)@ == old(store)@.update(self.index as int, Some(t)),
            live_count(final(store)@) == live_count(old(store)@),
    {
        proof {
            lemma_live_count_update(store.slots@, self.index as int, Some(t));
        }
        store.slots.set(self.index, Some(t));
    }

    /// Borrows the value held by the block.
    pub fn get<'a>(&self, store: &'a Store<T>) -> (r: &'a T)
        requires
            self.safe_in(*store),
        ensures
            *r == self.value_in(*store),
    {
        store.slots[self.index].as_ref().unwrap()
    }

    /// Frees the block.
    pub fn dealloc(&mut self, store: &mut Store<T>)
        requires
            old(store).wf(),
            old(self).safe_in(*old(store)),
        ensures
            *final(self) == *old(self),
            final(store).wf(),
            final(store)@ == old(store)@.update(old(self).index as int, None),
            live_count(final(store)@) + 1 == live_count(old(store)@),
    {
        proof {
            lemma_live_count_update(store.slots@, self.index as int, None);
        }
        store.slots.set(self.index, None);
        store.unfreed = store.unfreed - 1;
    }
}

} // verus!
