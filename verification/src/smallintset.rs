//! Small sets of small integers: the tiles and platforms the player touches.
use vstd::prelude::*;

use crate::tilemap::TileIndex;

verus! {

/// A value that is identified by a small integer.
pub trait SmallInt: Copy + Sized {
    spec fn id(self) -> int;

    fn to_index(&self) -> (r: usize)
        ensures
            r == self.id(),
    ;

    proof fn lemma_id_injective(a: Self, b: Self)
        ensures
            a.id() == b.id() ==> a == b,
    ;
}

impl SmallInt for usize {
    open spec fn id(self) -> int {
        self as int
    }

    fn to_index(&self) -> (r: usize) {
        *self
    }

    proof fn lemma_id_injective(a: Self, b: Self) {
    }
}

impl SmallInt for TileIndex {
    open spec fn id(self) -> int {
        self.0 as int
    }

    fn to_index(&self) -> (r: usize) {
        self.0
    }

    proof fn lemma_id_injective(a: Self, b: Self) {
    }
}

/// A set of small integers, in the order they were first inserted.
pub struct SmallIntSet<T> {
    items: Vec<T>,
}

impl<T: SmallInt> View for SmallIntSet<T> {
    type V = Set<T>;

    closed spec fn view(&self) -> Set<T> {
        self.items@.to_set()
    }
}

impl<T> SmallIntSet<T> {
    #[verifier::type_invariant]
    closed spec fn inv(self) -> bool {
        forall|i: int, j: int|
            0 <= i < self.items@.len() && 0 <= j < self.items@.len() && i != j ==> self.items@[i]
                != self.items@[j]
    }
}

impl<T: SmallInt> SmallIntSet<T> {

    pub closed spec fn distinct(self) -> bool {
        forall|i: int, j: int|
            0 <= i < self.items@.len() && 0 <= j < self.items@.len() && i != j ==> self.items@[i]
                != self.items@[j]
    }

    /// The members in insertion order.
    pub closed spec fn members(self) -> Seq<T> {
        self.items@
    }

    pub proof fn lemma_members(self)
        ensures
            self.members().to_set() == self@,
    {
    }

    /// The members of a set hold each element once.
    pub proof fn lemma_distinct_members(self)
        requires
            self.distinct(),
        ensures
            self.members().no_duplicates(),
    {
    }

    pub fn new() -> (r: Self)
        ensures
            r@ == Set::<T>::empty(),
            r.members() == Seq::<T>::empty(),
            r.distinct(),
    {
        let r = SmallIntSet { items: Vec::new() };
        assert(r@ =~= Set::<T>::empty());
        r
    }

    pub fn contains(&self, t: T) -> (r: bool)
        ensures
            r == self@.contains(t),
    {
        let k = t.to_index();
        let mut i: usize = 0;
        while i < self.items.len()
            invariant
                i <= self.items@.len(),
                k == t.id(),
                forall|j: int| 0 <= j < i ==> self.items@[j] != t,
            decreases self.items.len() - i,
        {
            if self.items[i].to_index() == k {
                proof {
                    T::lemma_id_injective(self.items@[i as int], t);
                    assert(self.items@[i as int] == t);
                }
                return true;
            }
            proof {
                if self.items@[i as int] == t {
                    assert(self.items@[i as int].id() == t.id());
                }
            }
            i = i + 1;
        }
        proof {
            if self@.contains(t) {
                let j = choose|j: int| 0 <= j < self.items@.len() && self.items@[j] == t;
                assert(self.items@[j] == t);
            }
        }
        false
    }

    pub fn insert(&mut self, t: T)
        ensures
            final(self)@ == old(self)@.insert(t),
            final(self).distinct(),
            final(self).members() == (if old(self)@.contains(t) {
                old(self).members()
            } else {
                old(self).members().push(t)
            }),
    {
        proof {
            use_type_invariant(&*self);
        }
        if self.contains(t) {
            assert(self@.insert(t) =~= self@);
            return;
        }
        let mut items: Vec<T> = Vec::new();
        std::mem::swap(&mut items, &mut self.items);
        items.push(t);
        self.items = items;
        assert(self@ =~= old(self)@.insert(t)) by {
            assert(self.items@ == old(self).items@.push(t));
            assert forall|u: T| self@.contains(u) implies old(self)@.insert(u).contains(u) by {}
            assert forall|u: T| old(self)@.insert(t).contains(u) implies self@.contains(u) by {
                if u == t {
                    assert(self.items@[self.items@.len() - 1] == u);
                } else {
                    let j = choose|j: int| 0 <= j < old(self).items@.len() && old(self).items@[j] == u;
                    assert(self.items@[j] == u);
                }
            }
        }
    }

    pub fn clear(&mut self)
        ensures
            final(self)@ == Set::<T>::empty(),
            final(self).members() == Seq::<T>::empty(),
            final(self).distinct(),
    {
        self.items = Vec::new();
        assert(self@ =~= Set::<T>::empty());
    }

    pub fn len(&self) -> (r: usize)
        ensures
            r == self.members().len(),
            self.distinct(),
    {
        proof {
            use_type_invariant(self);
        }
        self.items.len()
    }

    /// The member at position `i` in insertion order.
    pub fn get(&self, i: usize) -> (r: T)
        requires
            i < self.members().len(),
        ensures
            r == self.members()[i as int],
    {
        self.items[i]
    }
}

} // verus!
