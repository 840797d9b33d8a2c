//! The downstream subscriber registry.
//!
//! Every accepted downstream connection gets a fresh numeric id; the
//! application keeps the socket handle keyed by that id, and the registry
//! is the source of truth for which subscribers exist.  Ids are handed out
//! by a counter, so an id is never reused for the registry's lifetime.
//! After a broadcast pass, the ids whose write failed are pruned in one
//! step.

use vstd::prelude::*;

verus! {

/// The registered subscriber ids, in acceptance order, and the next fresh
/// id.
pub struct Registry {
    pub ids: Vec<u64>,
    pub next_id: u64,
}

impl Registry {
    /// Registered ids are pairwise distinct and below the counter, so a
    /// fresh id never collides with a live or a pruned one.
    pub open spec fn wf(self) -> bool {
        &&& forall|i: int| 0 <= i < self.ids@.len() ==> #[trigger] self.ids@[i] < self.next_id
        &&& forall|i: int, j: int|
            0 <= i < j < self.ids@.len() ==> self.ids@[i] != self.ids@[j]
    }

    /// An empty registry.
    pub fn new() -> (r: Registry)
        ensures
            r.wf(),
            r.ids@.len() == 0,
            r.next_id == 0,
    {
        Registry { ids: Vec::new(), next_id: 0 }
    }

    /// Registers one accepted connection under a fresh id, which is
    /// returned.  The id was never in the registry before.
    pub fn accept(&mut self) -> (id: u64)
        requires
            old(self).wf(),
            old(self).next_id < u64::MAX,
        ensures
            final(self).wf(),
            id == old(self).next_id,
            final(self).ids@ == old(self).ids@.push(id),
            final(self).next_id == old(self).next_id + 1,
            !old(self).ids@.contains(id),
    {
        let id: u64 = self.next_id;
        self.ids.push(id);
        self.next_id = self.next_id + 1;
        proof {
            if old(self).ids@.contains(id) {
                let w = choose|w: int|
                    0 <= w < old(self).ids@.len() && old(self).ids@[w] == id;
                assert(old(self).ids@[w] < id);
            }
        }
        id
    }

    /// Removes every id marked failed, keeping the others in order: the
    /// registered ids afterwards are exactly the previous ones filtered by
    /// survival.
    pub fn prune(&mut self, failed: &Vec<u64>)
        requires
            old(self).wf(),
        ensures
            final(self).wf(),
            final(self).next_id == old(self).next_id,
            final(self).ids@ == old(self).ids@.filter(
                |id: u64| !failed@.contains(id),
            ),
    {
        let ghost pred = |id: u64| !failed@.contains(id);
        let n: usize = self.ids.len();
        let mut kept: Vec<u64> = Vec::new();
        let mut i: usize = 0;
        proof {
            assert(old(self).ids@.subrange(0, 0).filter(pred) =~= Seq::<u64>::empty());
            assert(kept@ =~= Seq::<u64>::empty());
        }
        while i < n
            invariant
                0 <= i <= n,
                n == self.ids@.len(),
                *self == *old(self),
                old(self).wf(),
                kept@ == old(self).ids@.subrange(0, i as int).filter(pred),
                pred == (|id: u64| !failed@.contains(id)),
                forall|k: int|
                    0 <= k < kept@.len() ==> old(self).ids@.subrange(0, i as int).contains(
                        #[trigger] kept@[k],
                    ),
                forall|k: int| 0 <= k < kept@.len() ==> #[trigger] kept@[k] < old(self).next_id,
                forall|k: int, l: int| 0 <= k < l < kept@.len() ==> kept@[k] != kept@[l],
            decreases n - i,
        {
            let ghost prefix = old(self).ids@.subrange(0, i as int);
            let ghost prefix2 = old(self).ids@.subrange(0, i as int + 1);
            proof {
                reveal_with_fuel(Seq::<u64>::filter, 2);
                assert(prefix2.drop_last() =~= prefix);
                assert(prefix2.last() == old(self).ids@[i as int]);
                if pred(old(self).ids@[i as int]) {
                    assert(prefix2.filter(pred) == prefix.filter(pred).push(
                        old(self).ids@[i as int],
                    ));
                } else {
                    assert(prefix2.filter(pred) == prefix.filter(pred));
                }
            }
            let id: u64 = self.ids[i];
            let ghost kept_before = kept@;
            if !contains_u64(failed, id) {
                kept.push(id);
                proof {
                    assert forall|k: int| 0 <= k < kept@.len() implies prefix2.contains(
                        #[trigger] kept@[k],
                    ) by {
                        if k < kept_before.len() {
                            assert(prefix.contains(kept_before[k]));
                            let m = choose|m: int|
                                0 <= m < prefix.len() && prefix[m] == kept_before[k];
                            assert(prefix2[m] == kept_before[k]);
                        } else {
                            assert(prefix2[i as int] == id);
                        }
                    }
                    assert forall|k: int, l: int|
                        0 <= k < l < kept@.len() implies kept@[k] != kept@[l] by {
                        if l == kept@.len() - 1 {
                            assert(prefix.contains(kept_before[k]));
                            let m = choose|m: int|
                                0 <= m < prefix.len() && prefix[m] == kept_before[k];
                            assert(old(self).ids@[m] == kept_before[k]);
                            assert(old(self).ids@[m] != old(self).ids@[i as int]);
                        }
                    }
                }
            } else {
                proof {
                    assert forall|k: int| 0 <= k < kept@.len() implies prefix2.contains(
                        #[trigger] kept@[k],
                    ) by {
                        assert(prefix.contains(kept@[k]));
                        let m = choose|m: int|
                            0 <= m < prefix.len() && prefix[m] == kept@[k];
                        assert(prefix2[m] == kept@[k]);
                    }
                }
            }
            i = i + 1;
        }
        proof {
            assert(old(self).ids@.subrange(0, n as int) =~= old(self).ids@);
        }
        self.ids = kept;
    }
}

/// True when the vector holds the value.
pub fn contains_u64(v: &Vec<u64>, x: u64) -> (r: bool)
    ensures
        r == v@.contains(x),
{
    let n: usize = v.len();
    let mut i: usize = 0;
    while i < n
        invariant
            0 <= i <= n,
            n == v@.len(),
            forall|m: int| 0 <= m < i ==> v@[m] != x,
        decreases n - i,
    {
        if v[i] == x {
            proof {
                assert(v@.contains(x)) by {
                    assert(v@[i as int] == x);
                }
            }
            return true;
        }
        i = i + 1;
    }
    proof {
        if v@.contains(x) {
            let w = choose|w: int| 0 <= w < v@.len() && v@[w] == x;
        }
    }
    false
}

} // verus!
