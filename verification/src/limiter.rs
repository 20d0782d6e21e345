//! Recency-ordered lists with a fixed capacity. The front of a queue is the
//! most recently used signature; the back is the eviction candidate.

use std::collections::VecDeque;
use vstd::prelude::*;
use vstd::std_specs::vecdeque::VecDequeAdditionalSpecFns;

use crate::tile_signature::TileSignature;

verus! {

/// The first position of `sig` in `q`, if any.
fn position_of(q: &VecDeque<TileSignature>, sig: &TileSignature) -> (r: Option<usize>)
    ensures
        match r {
            Some(i) => {
                &&& i < q@.len()
                &&& q@[i as int] == *sig
                &&& forall|j: int| 0 <= j < i ==> q@[j] != *sig
            },
            None => !q@.contains(*sig),
        },
{
    let n = q.len();
    let mut i: usize = 0;
    while i < n
        invariant
            i <= n,
            n == q@.len(),
            forall|j: int| 0 <= j < i ==> q@[j] != *sig,
        decreases n - i,
    {
        if q[i] == *sig {
            return Some(i);
        }
        i += 1;
    }
    proof {
        assert(forall|j: int| 0 <= j < q@.len() ==> q@[j] != *sig);
    }
    None
}

/// A bounded recency list over tile signatures.
pub struct TileLimiter {
    pub max_count: usize,
    pub priority_queue: VecDeque<TileSignature>,
}

impl TileLimiter {
    /// The recency order, front first.
    pub open spec fn queue(&self) -> Seq<TileSignature> {
        self.priority_queue@
    }

    /// The list never exceeds its capacity and holds each signature at most
    /// once.
    pub open spec fn wf(&self) -> bool {
        &&& self.max_count >= 1
        &&& self.queue().len() <= self.max_count
        &&& self.queue().no_duplicates()
    }

    pub fn new(max_count: usize) -> (r: Self)
        requires
            max_count >= 1,
        ensures
            r.max_count == max_count,
            r.queue() == Seq::<TileSignature>::empty(),
            r.wf(),
    {
        TileLimiter { max_count, priority_queue: VecDeque::new() }
    }

    /// Moves `signature` to the front when present; does nothing otherwise.
    pub fn rearrange(&mut self, signature: &TileSignature)
        requires
            old(self).wf(),
        ensures
            final(self).wf(),
            final(self).max_count == old(self).max_count,
            final(self).queue().to_set() == old(self).queue().to_set(),
            !old(self).queue().contains(*signature) ==> final(self).queue() == old(self).queue(),
            old(self).queue().contains(*signature) ==> exists|i: int|
                {
                    &&& 0 <= i < old(self).queue().len()
                    &&& old(self).queue()[i] == *signature
                    &&& final(self).queue() == seq![*signature] + old(self).queue().remove(i)
                },
    {
        match position_of(&self.priority_queue, signature) {
            None => {},
            Some(x) => {
                let ghost q0 = self.priority_queue@;
                self.priority_queue.remove(x);
                self.priority_queue.push_front(signature.clone());
                proof {
                    assert(self.priority_queue@ == seq![*signature] + q0.remove(x as int));
                    lemma_remove_then_front_keeps_set(q0, x as int);
                    assert(self.priority_queue@.to_set() =~= q0.to_set());
                    q0.remove_ensures(x as int);
                    assert(self.priority_queue@.no_duplicates());
                }
            },
        }
    }

    /// Inserts a signature that is not yet listed at the front; when the
    /// list would exceed its capacity, pops and returns the back entry.
    pub fn add(&mut self, signature: &TileSignature) -> (r: Option<TileSignature>)
        requires
            old(self).wf(),
            !old(self).queue().contains(*signature),
        ensures
            final(self).wf(),
            final(self).max_count == old(self).max_count,
            old(self).queue().len() < old(self).max_count ==> {
                &&& r is None
                &&& final(self).queue() == seq![*signature] + old(self).queue()
            },
            old(self).queue().len() == old(self).max_count ==> {
                &&& r == Some(old(self).queue().last())
                &&& final(self).queue() == (seq![*signature] + old(self).queue()).drop_last()
            },
    {
        self.priority_queue.push_front(signature.clone());
        if self.priority_queue.len() > self.max_count {
            let victim = self.priority_queue.pop_back();
            proof {
                assert((seq![*signature] + old(self).queue()).drop_last().no_duplicates());
            }
            return victim;
        }
        None
    }
}

/// Tracks decoded tiles by recency and tells the store which decoded tile to
/// drop when the bound is reached. Unlike [`TileLimiter`], one call does
/// both jobs: a listed signature is touched, an unlisted one is inserted.
pub struct MemoryLimiter {
    pub max_tile_count: usize,
    pub queue: VecDeque<TileSignature>,
}

impl MemoryLimiter {
    /// The bound always holds and no signature is listed twice.
    pub open spec fn wf(&self) -> bool {
        &&& self.max_tile_count >= 1
        &&& self.queue@.len() <= self.max_tile_count
        &&& self.queue@.no_duplicates()
    }

    pub fn new(max_tile_count: usize) -> (r: Self)
        requires
            max_tile_count >= 1,
        ensures
            r.max_tile_count == max_tile_count,
            r.queue@ == Seq::<TileSignature>::empty(),
            r.wf(),
    {
        MemoryLimiter { max_tile_count, queue: VecDeque::new() }
    }

    /// Records a use of `signature`: a listed signature moves to the front,
    /// an unlisted one is inserted at the front. Returns the signature that
    /// fell off the back when the insertion would exceed the bound.
    pub fn test(&mut self, signature: &TileSignature) -> (r: Option<TileSignature>)
        requires
            old(self).wf(),
        ensures
            final(self).wf(),
            final(self).max_tile_count == old(self).max_tile_count,
            final(self).queue@.len() > 0 && final(self).queue@[0] == *signature,
            forall|x: TileSignature| final(self).queue@.contains(x) <==> (x == *signature || (old(self).queue@.contains(x) && (r matches Some(v) ==> x != v))),
            old(self).queue@.contains(*signature) ==> r is None && final(self).queue@.len() == old(self).queue@.len(),
            old(self).queue@.contains(*signature) ==> exists|idx: int| 0 <= idx < old(self).queue@.len() && old(self).queue@[idx] == *signature && final(self).queue@ == seq![*signature] + old(self).queue@.remove(idx),
            (!old(self).queue@.contains(*signature) && old(self).queue@.len() < old(self).max_tile_count) ==> (r is None && final(self).queue@ == seq![*signature] + old(self).queue@),
            (!old(self).queue@.contains(*signature) && old(self).queue@.len() == old(self).max_tile_count) ==> (r == Some(old(self).queue@.last()) && final(self).queue@ == (seq![*signature] + old(self).queue@).drop_last()),
            r matches Some(v) ==> (old(self).queue@.contains(v) && v != *signature && !(final(self).queue@.contains(v))),
    {
        let ghost q0 = self.queue@;
        match position_of(&self.queue, signature) {
            Some(x) => {
                self.queue.remove(x);
                self.queue.push_front(signature.clone());
                proof {
                    assert(self.queue@ == seq![*signature] + q0.remove(x as int));
                    q0.remove_ensures(x as int);
                    lemma_contains_remove_unique(q0, x as int);
                    assert forall|y: TileSignature| self.queue@.contains(y) <==> (y == *signature
                        || q0.contains(y)) by {
                        lemma_contains_front_insert(q0.remove(x as int), *signature, y);
                    }
                    assert(self.queue@.no_duplicates());
                }
                None
            },
            None => {
                self.queue.push_front(signature.clone());
                proof {
                    assert forall|y: TileSignature| self.queue@.contains(y) <==> (y == *signature
                        || q0.contains(y)) by {
                        lemma_contains_front_insert(q0, *signature, y);
                    }
                }
                if self.queue.len() > self.max_tile_count {
                    let ghost pushed = self.queue@;
                    let victim = self.queue.pop_back();
                    proof {
                        assert(self.queue@ =~= pushed.drop_last());
                        assert(pushed.no_duplicates());
                        lemma_contains_drop_last_unique(pushed);
                        assert forall|y: TileSignature| self.queue@.contains(y) <==> (y
                            == *signature || (q0.contains(y) && y != q0.last())) by {
                            lemma_contains_front_insert(q0, *signature, y);
                        }
                        assert(self.queue@[0] == *signature);
                    }
                    victim
                } else {
                    None
                }
            },
        }
    }
}

impl MemoryLimiter {
    /// Unlists a signature, if it is listed. Used to roll back an insertion
    /// whose decode failed.
    pub fn remove(&mut self, signature: &TileSignature)
        requires
            old(self).wf(),
        ensures
            final(self).wf(),
            final(self).max_tile_count == old(self).max_tile_count,
            forall|x: TileSignature| final(self).queue@.contains(x) <==> (old(self).queue@.contains(x) && x != *signature),
            !old(self).queue@.contains(*signature) ==> final(self).queue@ == old(self).queue@,
            old(self).queue@.contains(*signature) ==> final(self).queue@.len() == old(self).queue@.len() - 1,
            old(self).queue@.contains(*signature) ==> exists|idx: int| 0 <= idx < old(self).queue@.len() && old(self).queue@[idx] == *signature && final(self).queue@ == old(self).queue@.remove(idx),
    {
        let ghost q0 = self.queue@;
        match position_of(&self.queue, signature) {
            None => {},
            Some(x) => {
                self.queue.remove(x);
                proof {
                    q0.remove_ensures(x as int);
                    lemma_contains_remove_unique(q0, x as int);
                }
            },
        }
    }

    /// Forgets every listed signature.
    pub fn clear(&mut self)
        requires
            old(self).wf(),
        ensures
            final(self).wf(),
            final(self).max_tile_count == old(self).max_tile_count,
            final(self).queue@ == Seq::<TileSignature>::empty(),
    {
        self.queue.clear();
    }
}

/// Membership in a sequence with one element pushed on the front.
pub(crate) proof fn lemma_contains_front_insert(
    q: Seq<TileSignature>,
    s: TileSignature,
    x: TileSignature,
)
    ensures
        (seq![s] + q).contains(x) <==> (x == s || q.contains(x)),
{
    let r = seq![s] + q;
    if r.contains(x) {
        let i = choose|i: int| 0 <= i < r.len() && r[i] == x;
        if i > 0 {
            assert(q[i - 1] == x);
        }
    }
    if q.contains(x) {
        let i = choose|i: int| 0 <= i < q.len() && q[i] == x;
        assert(r[i + 1] == x);
    }
    if x == s {
        assert(r[0] == x);
    }
}

/// In a duplicate-free sequence, removing position `i` removes exactly the
/// element that sat there.
pub(crate) proof fn lemma_contains_remove_unique(q: Seq<TileSignature>, i: int)
    requires
        0 <= i < q.len(),
        q.no_duplicates(),
    ensures
        forall|x: TileSignature|
            q.remove(i).contains(x) <==> (q.contains(x) && x != q[i]),
{
    q.remove_ensures(i);
    assert forall|x: TileSignature| q.remove(i).contains(x) implies (q.contains(x) && x
        != q[i]) by {
        let j = choose|j: int| 0 <= j < q.remove(i).len() && q.remove(i)[j] == x;
        if j < i {
            assert(q[j] == x);
        } else {
            assert(q[j + 1] == x);
        }
    }
    assert forall|x: TileSignature| q.contains(x) && x != q[i] implies q.remove(i).contains(
        x,
    ) by {
        let j = choose|j: int| 0 <= j < q.len() && q[j] == x;
        if j < i {
            assert(q.remove(i)[j] == x);
        } else {
            assert(q.remove(i)[j - 1] == x);
        }
    }
}

/// In a duplicate-free sequence, dropping the last position removes exactly
/// the last element.
pub(crate) proof fn lemma_contains_drop_last_unique(q: Seq<TileSignature>)
    requires
        q.len() > 0,
        q.no_duplicates(),
    ensures
        forall|x: TileSignature|
            q.drop_last().contains(x) <==> (q.contains(x) && x != q.last()),
{
    assert(q.drop_last() =~= q.remove(q.len() - 1));
    lemma_contains_remove_unique(q, q.len() - 1);
}

/// Removing an element and reinserting it at the front leaves the set of
/// listed elements unchanged.
proof fn lemma_remove_then_front_keeps_set(q: Seq<TileSignature>, i: int)
    requires
        0 <= i < q.len(),
    ensures
        (seq![q[i]] + q.remove(i)).to_set() == q.to_set(),
{
    let rebuilt = seq![q[i]] + q.remove(i);
    assert forall|x: TileSignature| q.to_set().contains(x) implies rebuilt.to_set().contains(
        x,
    ) by {
        let j = choose|j: int| 0 <= j < q.len() && q[j] == x;
        if j == i {
            assert(rebuilt[0] == x);
        } else if j < i {
            assert(rebuilt[j + 1] == x);
        } else {
            assert(rebuilt[j] == x);
        }
    }
    assert forall|x: TileSignature| rebuilt.to_set().contains(x) implies q.to_set().contains(
        x,
    ) by {
        let j = choose|j: int| 0 <= j < rebuilt.len() && rebuilt[j] == x;
        if j == 0 {
            assert(q[i] == x);
        } else if j <= i {
            assert(q[j - 1] == x);
        } else {
            assert(q[j] == x);
        }
    }
    assert((seq![q[i]] + q.remove(i)).to_set() =~= q.to_set());
}

} // verus!
