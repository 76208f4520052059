use crate::garbage::{Garbage, Heap};
use crate::ptr::{lemma_live_count_push, lemma_live_count_update, live_count};
use vstd::prelude::*;

verus! {

/// One operation on a heap: a handle created, copied, written or released.
pub open spec fn handle_step<T>(before: Heap<T>, after: Heap<T>) -> bool {
    ||| exists|d: T, g: Garbage<T>| Garbage::created(before, after, d, g)
    ||| exists|s: Garbage<T>, r: Garbage<T>| Garbage::copied(before, after, s, r)
    ||| exists|g: Garbage<T>, t: T| Garbage::replaced(before, after, g, t)
    ||| exists|g: Garbage<T>| Garbage::released(before, after, g)
}

/// Creating a handle and releasing it at once leaves the number of unfreed
/// blocks as it was: creation adds the payload and the counter, the release
/// frees both.
pub proof fn lemma_create_release_balanced<T>(
    h0: Heap<T>,
    h1: Heap<T>,
    h2: Heap<T>,
    data: T,
    g: Garbage<T>,
)
    requires
        h0.wf(),
        Garbage::created(h0, h1, data, g),
        Garbage::released(h1, h2, g),
    ensures
        h1.unfreed_blocks() == h0.unfreed_blocks() + 2,
        h2.unfreed_blocks() == h0.unfreed_blocks(),
        g.freed(h2),
{
    lemma_live_count_push(h0.payloads(), Some(data));
    lemma_live_count_push(h0.counts(), Some(1i32));
    lemma_live_count_update(h1.payloads(), g.slot(), None);
    lemma_live_count_update(h1.counts(), g.slot(), None);
}

/// After a handle is created and then copied `n` times, through itself or
/// through any of its copies, its count is `1 + n`, and every copy aliases it.
pub proof fn lemma_count_after_copies<T>(
    before: Heap<T>,
    hs: Seq<Heap<T>>,
    data: T,
    g: Garbage<T>,
    sources: Seq<Garbage<T>>,
    copies: Seq<Garbage<T>>,
)
    requires
        hs.len() == copies.len() + 1,
        sources.len() == copies.len(),
        before.wf(),
        Garbage::created(before, hs[0], data, g),
        forall|k: int|
            #![trigger copies[k]]
            0 <= k < copies.len() ==> sources[k].aliases(g) && Garbage::copied(
                hs[k],
                hs[k + 1],
                sources[k],
                copies[k],
            ),
    ensures
        g.live(hs.last()),
        g.count_in(hs.last()) == 1 + copies.len(),
        forall|k: int| 0 <= k < copies.len() ==> (#[trigger] copies[k]).aliases(g),
    decreases copies.len(),
{
    if copies.len() == 0 {
        assert(hs.last() == hs[0]);
        assert(g.count_in(hs[0]) == 1);
    } else {
        let n = copies.len() - 1;
        let hs0 = hs.drop_last();
        let sources0 = sources.drop_last();
        let copies0 = copies.drop_last();
        assert forall|k: int| 0 <= k < copies0.len() implies sources0[k].aliases(g)
            && Garbage::copied(hs0[k], hs0[k + 1], sources0[k], copies0[k]) by {
            assert(copies0[k] == copies[k]);
        }
        lemma_count_after_copies(before, hs0, data, g, sources0, copies0);
        assert(hs0.last() == hs[n]);
        assert(hs.last() == hs[n + 1]);
        assert(Garbage::copied(hs[n], hs[n + 1], sources[n], copies[n]));
        assert(g.count_in(hs[n + 1]) == g.count_in(hs[n]) + 1);
        assert forall|k: int| 0 <= k < copies.len() implies (#[trigger] copies[k]).aliases(g) by {
            if k < n {
                assert(copies0[k] == copies[k]);
            }
        }
    }
}

/// Releasing a handle whose count is above one frees nothing: the payload
/// stays readable, unchanged, through every alias.
pub proof fn lemma_release_keeps_aliases<T>(
    before: Heap<T>,
    after: Heap<T>,
    g: Garbage<T>,
    a: Garbage<T>,
)
    requires
        before.wf(),
        Garbage::released(before, after, g),
        g.count_in(before) > 1,
        a.aliases(g),
    ensures
        a.live(after),
        a.value_in(after) == a.value_in(before),
        a.count_in(after) == a.count_in(before) - 1,
        after.payloads() == before.payloads(),
        after.unfreed_blocks() == before.unfreed_blocks(),
{
    lemma_live_count_update(before.counts(), g.slot(), Some((g.count_in(before) - 1) as i32));
}

/// Releasing a handle whose count is one frees its payload and its counter:
/// no alias is live any more, so reading, writing, copying or releasing
/// through any of them is refused.
pub proof fn lemma_release_to_zero_frees<T>(
    before: Heap<T>,
    after: Heap<T>,
    g: Garbage<T>,
    a: Garbage<T>,
)
    requires
        before.wf(),
        Garbage::released(before, after, g),
        g.count_in(before) == 1,
        a.aliases(g),
    ensures
        a.freed(after),
        !a.live(after),
        after.unfreed_blocks() + 2 == before.unfreed_blocks(),
{
    lemma_live_count_update(before.payloads(), g.slot(), None);
    lemma_live_count_update(before.counts(), g.slot(), None);
}

/// A freed handle stays freed whatever is done next to the heap.
pub proof fn lemma_freed_is_terminal<T>(before: Heap<T>, after: Heap<T>, a: Garbage<T>)
    requires
        a.freed(before),
        handle_step(before, after),
    ensures
        a.freed(after),
{
    if exists|d: T, g: Garbage<T>| Garbage::created(before, after, d, g) {
        let (d, g) = choose|d: T, g: Garbage<T>| Garbage::created(before, after, d, g);
        assert(after.counts()[a.slot()] == before.counts()[a.slot()]);
        assert(after.payloads()[a.slot()] == before.payloads()[a.slot()]);
    } else if exists|s: Garbage<T>, r: Garbage<T>| Garbage::copied(before, after, s, r) {
        let (s, r) = choose|s: Garbage<T>, r: Garbage<T>| Garbage::copied(before, after, s, r);
        assert(s.slot() != a.slot());
    } else if exists|g: Garbage<T>, t: T| Garbage::replaced(before, after, g, t) {
        let (g, t) = choose|g: Garbage<T>, t: T| Garbage::replaced(before, after, g, t);
        assert(g.slot() != a.slot());
    } else {
        let g = choose|g: Garbage<T>| Garbage::released(before, after, g);
        assert(g.slot() != a.slot());
    }
}

/// Once the count of a handle has reached zero, no alias of it can be
/// released again, at any later point, whichever alias tries.
pub proof fn lemma_second_release_refused<T>(
    before: Heap<T>,
    first: Garbage<T>,
    second: Garbage<T>,
    hs: Seq<Heap<T>>,
)
    requires
        before.wf(),
        hs.len() >= 1,
        Garbage::released(before, hs[0], first),
        first.count_in(before) == 1,
        second.aliases(first),
        forall|k: int| 0 <= k < hs.len() - 1 ==> handle_step(#[trigger] hs[k], hs[k + 1]),
    ensures
        forall|k: int| 0 <= k < hs.len() ==> !second.live(#[trigger] hs[k]),
{
    lemma_release_to_zero_frees(before, hs[0], first, second);
    assert forall|k: int| 0 <= k < hs.len() implies second.freed(#[trigger] hs[k]) by {
        lemma_freed_along(hs, second, k);
    }
}

proof fn lemma_freed_along<T>(hs: Seq<Heap<T>>, a: Garbage<T>, k: int)
    requires
        0 <= k < hs.len(),
        a.freed(hs[0]),
        forall|j: int| 0 <= j < hs.len() - 1 ==> handle_step(#[trigger] hs[j], hs[j + 1]),
    ensures
        a.freed(hs[k]),
    decreases k,
{
    if k > 0 {
        lemma_freed_along(hs, a, k - 1);
        lemma_freed_is_terminal(hs[k - 1], hs[k], a);
    }
}

/// A write through one handle is seen through every alias of it.
pub proof fn lemma_replace_visible<T>(
    before: Heap<T>,
    after: Heap<T>,
    g: Garbage<T>,
    t: T,
    a: Garbage<T>,
)
    requires
        before.wf(),
        Garbage::replaced(before, after, g, t),
        a.aliases(g),
    ensures
        a.live(after),
        a.value_in(after) == t,
        a.count_in(after) == a.count_in(before),
{
}

} // verus!
