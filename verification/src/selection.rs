//! The multi-selection: a finite set of task indices, held in a `HashSet`.

use vstd::prelude::*;
use vstd::std_specs::hash::spec_hash_keys_iter;
use vstd::std_specs::iter::IteratorSpec;

verus! {

broadcast use vstd::std_specs::hash::group_hash_axioms;

/// A set of task indices.
pub struct TaskSelection {
    items: std::collections::HashSet<usize>,
}

impl View for TaskSelection {
    type V = Set<usize>;

    closed spec fn view(&self) -> Set<usize> {
        self.items@
    }
}

/// The indices a hash set holds form a finite set: they are the keys its
/// iterator yields.
proof fn lemma_finite(h: &std::collections::HashSet<usize>)
    ensures
        h@.finite(),
{
    let keys = spec_hash_keys_iter(h).remaining();
    assert(keys.unref().to_set() == h@);
    vstd::seq_lib::seq_to_set_is_finite(keys.unref());
}

impl TaskSelection {
    /// The empty selection.
    pub fn new() -> (s: TaskSelection)
        ensures
            s@ == Set::<usize>::empty(),
    {
        TaskSelection { items: std::collections::HashSet::new() }
    }

    pub fn contains(&self, x: &usize) -> (r: bool)
        ensures
            r == self@.contains(*x),
    {
        self.items.contains(x)
    }

    /// The number of indices selected.
    pub fn len(&self) -> (r: usize)
        ensures
            r == self@.len(),
            self@.finite(),
    {
        proof {
            lemma_finite(&self.items);
        }
        self.items.len()
    }

    pub fn is_empty(&self) -> (r: bool)
        ensures
            r == (self@ == Set::<usize>::empty()),
            self@.finite(),
    {
        proof {
            lemma_finite(&self.items);
            if self@.len() == 0 {
                assert(self@ =~= Set::<usize>::empty());
            }
        }
        self.items.len() == 0
    }

    /// Adds `x`; true when it was not selected before.
    pub fn insert(&mut self, x: usize) -> (r: bool)
        ensures
            final(self)@ == old(self)@.insert(x),
            r == !old(self)@.contains(x),
    {
        self.items.insert(x)
    }

    /// Removes `x`; true when it was selected.
    pub fn remove(&mut self, x: &usize) -> (r: bool)
        ensures
            final(self)@ == old(self)@.remove(*x),
            r == old(self)@.contains(*x),
    {
        self.items.remove(x)
    }

    /// Deselects everything.
    pub fn clear(&mut self)
        ensures
            final(self)@ == Set::<usize>::empty(),
    {
        self.items.clear();
    }

    /// The selected indices, each once, in the order the set yields them.
    pub fn to_vec(&self) -> (r: Vec<usize>)
        ensures
            r@.to_set() == self@,
            r@.no_duplicates(),
    {
        let mut r: Vec<usize> = Vec::new();
        let keys = self.items.iter();
        assert(keys.remaining().unref().to_set() == self.items@);
        for x in it: keys
            invariant
                it.seq() == spec_hash_keys_iter(&self.items).remaining(),
                r@ == it.seq().take(it.index() as int).unref(),
            ensures
                r@ == spec_hash_keys_iter(&self.items).remaining().unref(),
        {
            r.push(*x);
            assert(r@ =~= it.seq().take(it.index() + 1).unref());
        }
        proof {
            let keys = spec_hash_keys_iter(&self.items).remaining();
            assert(keys.no_duplicates());
            assert forall|a: int, b: int| 0 <= a < r@.len() && 0 <= b < r@.len() && a != b implies r@[a]
                != r@[b] by {
                assert(r@[a] == *keys[a]);
                assert(r@[b] == *keys[b]);
            }
        }
        r
    }

    /// Keeps only the indices below `bound`.
    pub fn retain_below(&mut self, bound: usize)
        ensures
            final(self)@ == old(self)@.filter(|x: usize| x < bound),
    {
        let v = self.to_vec();
        let mut kept: std::collections::HashSet<usize> = std::collections::HashSet::new();
        let mut i: usize = 0;
        while i < v.len()
            invariant
                i <= v@.len(),
                kept@ == v@.take(i as int).to_set().filter(|x: usize| x < bound),
            decreases v.len() - i,
        {
            let x = v[i];
            proof {
                assert(v@.take(i + 1) =~= v@.take(i as int).push(x));
                v@.take(i as int).lemma_push_to_set_commute(x);
            }
            if x < bound {
                kept.insert(x);
            }
            assert(kept@ =~= v@.take(i + 1).to_set().filter(|y: usize| y < bound));
            i += 1;
        }
        assert(v@.take(v@.len() as int) =~= v@);
        self.items = kept;
        assert(self@ =~= old(self)@.filter(|x: usize| x < bound));
    }
}

} // verus!
