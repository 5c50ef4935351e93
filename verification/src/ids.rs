//! The id allocator: signed-byte player ids handed out from a monotone
//! counter, capped at `min(limit, 127)`, and recycled through a stack on
//! disconnect. Id 0 is never assigned.

use vstd::prelude::*;

verus! {

pub struct IdAllocator {
    /// Recycled ids, popped before the counter is touched.
    pub free: Vec<i8>,
    /// The highest id ever assigned; allocation pre-increments.
    pub current: i8,
    /// Hard cap on `current`: `min(configured limit, 127)`.
    pub cap: i8,
}

impl IdAllocator {
    /// Structural invariant: the counter never exceeds the effective cap,
    /// and the free stack holds distinct ids out of those the counter has
    /// passed.
    pub open spec fn wf(self) -> bool {
        &&& 0 <= self.current <= 127
        &&& self.cap <= 127
        &&& self.current as int <= (if self.cap >= 0 {
            self.cap as int
        } else {
            0
        })
        &&& forall|i: int, j: int|
            0 <= i < j < self.free@.len() ==> self.free@[i] != self.free@[j]
        &&& forall|i: int| 0 <= i < self.free@.len() ==> 1 <= #[trigger] self.free@[i] <= self.current
    }

    /// The id is currently assigned to a session.
    pub open spec fn live(self, id: i8) -> bool {
        &&& 1 <= id <= self.current
        &&& !self.free@.contains(id)
    }

    pub fn new(limit: Option<i8>) -> (r: IdAllocator)
        ensures
            r.wf(),
            r.current == 0,
            r.free@.len() == 0,
            r.cap as int == spec_cap(limit),
    {
        let cap: i8 = match limit {
            Option::Some(l) => if l < 127 {
                l
            } else {
                127
            },
            Option::None => 127,
        };
        IdAllocator { free: Vec::new(), current: 0, cap }
    }

    /// Pops a recycled id if one exists; otherwise pre-increments the
    /// counter while below the cap; otherwise fails.
    pub fn allocate(&mut self) -> (r: Option<i8>)
        requires
            old(self).wf(),
        ensures
            final(self).wf(),
            final(self).cap == old(self).cap,
            allocate_rel(*old(self), *final(self), r),
    {
        match self.free.pop() {
            Option::Some(i) => Some(i),
            Option::None => {
                if self.current < self.cap {
                    self.current = self.current + 1;
                    Some(self.current)
                } else {
                    None
                }
            },
        }
    }

    /// Returns a live id to the free stack.
    pub fn recycle(&mut self, id: i8)
        requires
            old(self).wf(),
            old(self).live(id),
        ensures
            final(self).wf(),
            final(self).cap == old(self).cap,
            final(self).current == old(self).current,
            final(self).free@ == old(self).free@.push(id),
    {
        self.free.push(id);
    }
}

/// The effective id cap for a configured limit: `min(limit, 127)`, or 127
/// when no limit is given.
pub open spec fn spec_cap(limit: Option<i8>) -> int {
    match limit {
        Option::Some(l) => if l < 127 {
            l as int
        } else {
            127
        },
        Option::None => 127,
    }
}

/// How one allocation steps the allocator: a recycled id leaves the stack
/// first; only with the stack empty does the counter advance; at the cap
/// allocation fails and nothing changes.
pub open spec fn allocate_rel(pre: IdAllocator, post: IdAllocator, r: Option<i8>) -> bool {
    if pre.free@.len() > 0 {
        &&& r == Some(pre.free@.last())
        &&& post.free@ == pre.free@.drop_last()
        &&& post.current == pre.current
    } else if pre.current < pre.cap {
        &&& r == Some((pre.current + 1) as i8)
        &&& post.free@ == pre.free@
        &&& post.current == pre.current + 1
    } else {
        &&& r is None
        &&& post.free@ == pre.free@
        &&& post.current == pre.current
    }
}

/// Id recycling: while a previously freed id sits on the stack, an
/// allocation never advances the monotone counter, and either returns that
/// very id or leaves it on the stack for a later allocation.
pub proof fn lemma_id_recycling(pre: IdAllocator, post: IdAllocator, r: Option<i8>, i: i8)
    requires
        pre.wf(),
        allocate_rel(pre, post, r),
        pre.free@.contains(i),
    ensures
        post.current == pre.current,
        r == Some(i) || post.free@.contains(i),
{
    let k = choose|k: int| 0 <= k < pre.free@.len() && pre.free@[k] == i;
    if k == pre.free@.len() - 1 {
        assert(r == Some(i));
    } else {
        assert(post.free@[k] == i);
    }
}

/// What allocation does to the set of live ids: a fresh or recycled id
/// becomes live, everything else is untouched; a failed allocation changes
/// nothing.
pub proof fn lemma_allocate_live(pre: IdAllocator, post: IdAllocator, r: Option<i8>)
    requires
        pre.wf(),
        allocate_rel(pre, post, r),
    ensures
        match r {
            Some(x) => {
                &&& !pre.live(x)
                &&& post.live(x)
                &&& forall|q: i8| #[trigger] post.live(q) <==> (pre.live(q) || q == x)
            },
            None => forall|q: i8| #[trigger] post.live(q) <==> pre.live(q),
        },
{
    if pre.free@.len() > 0 {
        let x = pre.free@.last();
        let m = pre.free@.len() - 1;
        assert(!pre.live(x));
        assert(!post.free@.contains(x)) by {
            if post.free@.contains(x) {
                let k = choose|k: int| 0 <= k < post.free@.len() && post.free@[k] == x;
                assert(pre.free@[k] == x && pre.free@[m] == x);
            }
        }
        assert(post.live(x));
        assert forall|q: i8| #[trigger] post.live(q) <==> (pre.live(q) || q == x) by {
            if q != x {
                assert(pre.free@.contains(q) <==> post.free@.contains(q)) by {
                    if pre.free@.contains(q) {
                        let k = choose|k: int| 0 <= k < pre.free@.len() && pre.free@[k] == q;
                        assert(k != m);
                        assert(post.free@[k] == q);
                    }
                    if post.free@.contains(q) {
                        let k = choose|k: int|
                            0 <= k < post.free@.len() && post.free@[k] == q;
                        assert(pre.free@[k] == q);
                    }
                }
            }
        }
    } else if pre.current < pre.cap {
        let x = (pre.current + 1) as i8;
        assert(!pre.live(x));
        assert(post.live(x));
    }
}

/// What deallocation does to the set of live ids: exactly the returned id
/// stops being live.
pub proof fn lemma_recycle_live(pre: IdAllocator, post: IdAllocator, id: i8)
    requires
        pre.wf(),
        pre.live(id),
        post.current == pre.current,
        post.free@ == pre.free@.push(id),
    ensures
        forall|q: i8| #[trigger] post.live(q) <==> (pre.live(q) && q != id),
{
    assert forall|q: i8| #[trigger] post.live(q) <==> (pre.live(q) && q != id) by {
        assert(post.free@.contains(id)) by {
            assert(post.free@[post.free@.len() - 1] == id);
        }
        if q != id {
            assert(pre.free@.contains(q) <==> post.free@.contains(q)) by {
                if pre.free@.contains(q) {
                    let k = choose|k: int| 0 <= k < pre.free@.len() && pre.free@[k] == q;
                    assert(post.free@[k] == q);
                }
                if post.free@.contains(q) {
                    let k = choose|k: int| 0 <= k < post.free@.len() && post.free@[k] == q;
                    assert(k < pre.free@.len());
                    assert(pre.free@[k] == q);
                }
            }
        }
    }
}

} // verus!
