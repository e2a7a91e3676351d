use vstd::prelude::*;

verus! {

/// The abstract state of an [`IdAllocator`]: every id below `next` has been
/// handed out at some point, and `free` holds those that were returned since.
pub ghost struct IdPool {
    pub next: nat,
    pub free: Set<usize>,
}

/// The smallest element of a set of ids.
pub open spec fn smallest(s: Set<usize>) -> usize {
    choose|m: usize| s.contains(m) && forall|x: usize| s.contains(x) ==> m <= x
}

/// A finite, non-empty set of ids has a smallest element.
pub proof fn lemma_smallest(s: Set<usize>)
    requires
        s.finite(),
        !s.is_empty(),
    ensures
        s.contains(smallest(s)),
        forall|x: usize| s.contains(x) ==> smallest(s) <= x,
{
    let leq = |a: usize, b: usize| a <= b;
    if s.len() == 0 {
        s.lemma_len0_is_empty();
    }
    s.find_unique_minimal_ensures(leq);
    let m = s.find_unique_minimal(leq);
    s.lemma_minimal_equivalent_least(leq, m);
    assert(s.contains(m) && forall|x: usize| s.contains(x) ==> m <= x) by {
        assert forall|x: usize| s.contains(x) implies m <= x by {
            assert(leq(m, x));
        }
    }
}

impl IdPool {
    pub open spec fn wf(self) -> bool {
        self.free.finite() && forall|x: usize| self.free.contains(x) ==> x < self.next
    }

    /// An id is live when it has been handed out and not returned since.
    pub open spec fn is_live(self, id: usize) -> bool {
        id < self.next && !self.free.contains(id)
    }

    pub open spec fn can_allocate(self) -> bool {
        !self.free.is_empty() || self.next < usize::MAX
    }

    /// The id that `allocate` hands out.
    pub open spec fn allocated_id(self) -> usize {
        if self.free.is_empty() {
            self.next as usize
        } else {
            smallest(self.free)
        }
    }

    /// The state after `allocate`.
    pub open spec fn after_allocate(self) -> IdPool {
        if self.free.is_empty() {
            IdPool { next: self.next + 1, free: self.free }
        } else {
            IdPool { next: self.next, free: self.free.remove(smallest(self.free)) }
        }
    }

    /// The state after `free(id)`: an id that was never handed out is ignored,
    /// and returning an id twice leaves a single entry.
    pub open spec fn after_free(self, id: usize) -> IdPool {
        if id < self.next {
            IdPool { next: self.next, free: self.free.insert(id) }
        } else {
            self
        }
    }
}

/// Issues small integer ids and recycles returned ones, smallest first.
pub struct IdAllocator {
    current_id: usize,
    /// Returned ids, strictly decreasing, so that the smallest is last.
    recycled_ids: Vec<usize>,
}

pub open spec fn strictly_decreasing(s: Seq<usize>) -> bool {
    forall|i: int, j: int| 0 <= i < j < s.len() ==> s[i] > s[j]
}

impl View for IdAllocator {
    type V = IdPool;

    closed spec fn view(&self) -> IdPool {
        IdPool { next: self.current_id as nat, free: self.recycled_ids@.to_set() }
    }
}

impl IdAllocator {
    pub closed spec fn wf(&self) -> bool {
        &&& strictly_decreasing(self.recycled_ids@)
        &&& forall|i: int|
            0 <= i < self.recycled_ids@.len() ==> self.recycled_ids@[i] < self.current_id
    }

    /// A well-formed allocator has a well-formed state: every returned id is
    /// below the high-water mark.
    pub proof fn lemma_view_wf(&self)
        requires
            self.wf(),
        ensures
            self@.wf(),
    {
        broadcast use vstd::seq_lib::seq_to_set_is_finite;

        assert forall|x: usize| self@.free.contains(x) implies x < self@.next by {
            let i = choose|i: int| 0 <= i < self.recycled_ids@.len() && self.recycled_ids@[i] == x;
        }
    }

    pub fn new() -> (r: Self)
        ensures
            r.wf(),
            r@ == (IdPool { next: 0, free: Set::empty() }),
    {
        let r = IdAllocator { current_id: 0, recycled_ids: Vec::new() };
        assert(r.recycled_ids@.to_set() =~= Set::empty());
        r
    }

    /// Whether `allocate` has an id to hand out.
    pub fn can_allocate(&self) -> (r: bool)
        requires
            self.wf(),
        ensures
            r == self@.can_allocate(),
    {
        proof {
            if self.recycled_ids@.len() > 0 {
                assert(self@.free.contains(self.recycled_ids@[0]));
            } else {
                assert(self@.free =~= Set::empty());
            }
        }
        self.recycled_ids.len() > 0 || self.current_id < usize::MAX
    }

    /// Hands out the smallest returned id, or else the next id never used.
    pub fn allocate(&mut self) -> (id: usize)
        requires
            old(self).wf(),
            old(self)@.can_allocate(),
        ensures
            final(self).wf(),
            id == old(self)@.allocated_id(),
            final(self)@ == old(self)@.after_allocate(),
    {
        match self.recycled_ids.pop() {
            Some(id) => {
                proof {
                    let s = old(self).recycled_ids@;
                    let n = s.len() - 1;
                    let t = self.recycled_ids@;
                    assert(t =~= s.drop_last());
                    assert(s[n] == id);
                    assert(old(self)@.free.contains(id));
                    assert forall|x: usize| old(self)@.free.contains(x) implies id <= x by {
                        let i = choose|i: int| 0 <= i < s.len() && s[i] == x;
                        assert(i == n || s[i] > s[n]);
                    }
                    let m = smallest(old(self)@.free);
                    assert(old(self)@.free.contains(m) && forall|x: usize|
                        old(self)@.free.contains(x) ==> m <= x);
                    assert(m == id);
                    assert(self@.free =~= old(self)@.free.remove(id)) by {
                        assert forall|x: usize| self@.free.contains(x) implies old(self)@.free.contains(x)
                            && x != id by {
                            let i = choose|i: int| 0 <= i < t.len() && t[i] == x;
                            assert(s[i] == x);
                        }
                        assert forall|x: usize| old(self)@.free.contains(x) && x != id
                            implies self@.free.contains(x) by {
                            let i = choose|i: int| 0 <= i < s.len() && s[i] == x;
                            assert(t[i] == x);
                        }
                    }
                    assert(!old(self)@.free.is_empty());
                }
                id
            },
            None => {
                proof {
                    assert(old(self)@.free =~= Set::empty());
                }
                let id = self.current_id;
                self.current_id = self.current_id + 1;
                id
            },
        }
    }

    /// Returns `id` to the pool. An id that was never handed out, or that is
    /// already in the pool, leaves the state as it is.
    pub fn free(&mut self, id: usize)
        requires
            old(self).wf(),
        ensures
            final(self).wf(),
            final(self)@ == old(self)@.after_free(id),
    {
        if id >= self.current_id {
            return ;
        }
        // number of entries greater than id
        let mut lo: usize = 0;
        let mut hi: usize = self.recycled_ids.len();
        while lo < hi
            invariant
                0 <= lo <= hi <= self.recycled_ids@.len(),
                self.recycled_ids@ == old(self).recycled_ids@,
                strictly_decreasing(self.recycled_ids@),
                forall|i: int| 0 <= i < lo ==> self.recycled_ids@[i] > id,
                forall|i: int| hi <= i < self.recycled_ids@.len() ==> self.recycled_ids@[i] <= id,
            decreases hi - lo,
        {
            let mid = lo + (hi - lo) / 2;
            if self.recycled_ids[mid] > id {
                lo = mid + 1;
            } else {
                hi = mid;
            }
        }
        let s = Ghost(self.recycled_ids@);
        if lo < self.recycled_ids.len() && self.recycled_ids[lo] == id {
            proof {
                assert(old(self)@.free.contains(id));
                assert(old(self)@.free.insert(id) =~= old(self)@.free);
            }
            return ;
        }
        self.recycled_ids.insert(lo, id);
        proof {
            let t = self.recycled_ids@;
            assert(t =~= s@.insert(lo as int, id));
            assert forall|i: int, j: int| 0 <= i < j < t.len() implies t[i] > t[j] by {
                if j < lo {
                } else if i > lo {
                } else if i == lo {
                    assert(s@[j - 1] < id);
                } else {
                    assert(j == lo || s@[i] > s@[j - 1]);
                }
            }
            assert(self@.free =~= old(self)@.free.insert(id)) by {
                assert(t[lo as int] == id);
                assert forall|x: usize| self@.free.contains(x) && x != id
                    implies old(self)@.free.contains(x) by {
                    let i = choose|i: int| 0 <= i < t.len() && t[i] == x;
                    if i < lo {
                        assert(s@[i] == x);
                    } else {
                        assert(s@[i - 1] == x);
                    }
                }
                assert forall|x: usize| old(self)@.free.contains(x) implies self@.free.contains(x) by {
                    let i = choose|i: int| 0 <= i < s@.len() && s@[i] == x;
                    if i < lo {
                        assert(t[i] == x);
                    } else {
                        assert(t[i + 1] == x);
                    }
                }
            }
        }
    }
}

/// Allocation hands out an id that is not live, makes it live, and leaves
/// every other id as live or as free as it was.
pub proof fn lemma_allocate_issues_unused_id(p: IdPool)
    requires
        p.wf(),
        p.can_allocate(),
    ensures
        p.after_allocate().wf(),
        !p.is_live(p.allocated_id()),
        p.after_allocate().is_live(p.allocated_id()),
        forall|x: usize|
            x != p.allocated_id() ==> (p.is_live(x) <==> p.after_allocate().is_live(x)),
{
    if !p.free.is_empty() {
        lemma_smallest(p.free);
    }
}

/// An id freed while live is handed out again before any id that was never
/// used: the next allocation returns it, or a smaller id that was returned
/// earlier, and never an id at or above the high-water mark.
pub proof fn lemma_freed_id_reused_first(p: IdPool, id: usize)
    requires
        p.wf(),
        p.is_live(id),
    ensures
        p.after_free(id).wf(),
        p.after_free(id).can_allocate(),
        p.after_free(id).allocated_id() <= id,
        p.after_free(id).allocated_id() < p.next,
        p.after_free(id).free.contains(p.after_free(id).allocated_id()),
{
    let q = p.after_free(id);
    assert(q.free.contains(id));
    lemma_smallest(q.free);
}

} // verus!
