//! A list of items with a current position that moves around it cyclically.

use vstd::prelude::*;

verus! {

/// The position after `pos` in a cyclic list of `len` items.
pub open spec fn next_pos(len: nat, pos: nat) -> nat
    recommends
        len > 0,
{
    (pos + 1) % len
}

/// The position before `pos` in a cyclic list of `len` items.
pub open spec fn prev_pos(len: nat, pos: nat) -> nat
    recommends
        len > 0,
{
    if pos == 0 {
        (len - 1) as nat
    } else {
        (pos - 1) as nat
    }
}

/// A vector containing a list of items, which also keeps track of which
/// element we're pointing at currently.
pub struct MatchesVec<T> {
    vec: Vec<T>,
    idx: usize,
}

impl<T> MatchesVec<T> {
    /// The position is on an item, or is zero for an empty list.
    #[verifier::type_invariant]
    pub closed spec fn wf(&self) -> bool {
        self.idx < self.vec@.len() || (self.idx == 0 && self.vec@.len() == 0)
    }

    /// The items, in order.
    pub closed spec fn items(&self) -> Seq<T> {
        self.vec@
    }

    /// The current position.
    pub closed spec fn pos(&self) -> nat {
        self.idx as nat
    }

    /// The invariant, as seen from outside: the position is on an item, or is
    /// zero for an empty list.
    pub proof fn lemma_pos_in_range(&self)
        requires
            self.wf(),
        ensures
            self.pos() < self.items().len() || (self.pos() == 0 && self.items().len() == 0),
    {
    }

    /// A list over the items of `vec`, pointing at the first one.
    pub fn from_vec(vec: Vec<T>) -> (r: Self)
        ensures
            r.items() == vec@,
            r.pos() == 0,
    {
        MatchesVec { vec, idx: 0 }
    }

    /// A list over the items of `vec`, pointing at position `idx` (or at the
    /// first item where `idx` is not a position of `vec`).
    pub fn from_vec_at(vec: Vec<T>, idx: usize) -> (r: Self)
        ensures
            r.items() == vec@,
            r.pos() == (if idx < vec@.len() { idx as nat } else { 0 }),
    {
        let idx = if idx < vec.len() { idx } else { 0 };
        MatchesVec { vec, idx }
    }

    /// Point at the next item, going round to the first after the last.
    pub fn increment(&mut self)
        requires
            old(self).items().len() > 0,
        ensures
            final(self).items() == old(self).items(),
            final(self).pos() == next_pos(old(self).items().len(), old(self).pos()),
    {
        proof {
            use_type_invariant(&*self);
        }
        let n = self.vec.len();
        self.idx = (self.idx + 1) % n;
    }

    /// Point at the previous item, going round to the last before the first.
    pub fn decrement(&mut self)
        requires
            old(self).items().len() > 0,
        ensures
            final(self).items() == old(self).items(),
            final(self).pos() == prev_pos(old(self).items().len(), old(self).pos()),
    {
        proof {
            use_type_invariant(&*self);
        }
        self.idx = if self.idx >= 1 { self.idx - 1 } else { self.vec.len() - 1 };
    }

    /// The match we're currently pointing at. Returns None if the list of
    /// matches is empty.
    pub fn current_item(&self) -> (r: Option<&T>)
        ensures
            r == (if self.pos() < self.items().len() {
                Some(&self.items()[self.pos() as int])
            } else {
                None
            }),
    {
        proof {
            use_type_invariant(self);
        }
        if self.idx < self.vec.len() {
            Some(&self.vec[self.idx])
        } else {
            None
        }
    }

    /// The index of the match we're currently pointing at. Returns None if
    /// the list of matches is empty.
    pub fn current_pos(&self) -> (r: Option<usize>)
        ensures
            r == (if self.items().len() == 0 {
                None
            } else {
                Some(self.pos() as usize)
            }),
    {
        if self.vec.is_empty() {
            None
        } else {
            Some(self.idx)
        }
    }

    /// Remove all items.
    pub fn clear(&mut self)
        ensures
            final(self).items() == Seq::<T>::empty(),
            final(self).pos() == 0,
    {
        *self = MatchesVec { vec: Vec::new(), idx: 0 };
    }

    /// The number of items.
    pub fn len(&self) -> (r: usize)
        ensures
            r == self.items().len(),
    {
        self.vec.len()
    }

    /// An iterator over the items, in order.
    pub fn iter(&self) -> (r: std::slice::Iter<'_, T>)
        ensures
            vstd::std_specs::iter::IteratorSpec::remaining(&r) == self.items().as_ref(),
    {
        broadcast use vstd::std_specs::slice::axiom_spec_slice_iter;

        self.vec.as_slice().iter()
    }
}

impl<T> Default for MatchesVec<T> {
    fn default() -> (r: Self)
        ensures
            r.items() == Seq::<T>::empty(),
            r.pos() == 0,
    {
        MatchesVec { vec: Vec::new(), idx: 0 }
    }
}

/// Going to the next position and back, or to the previous position and
/// forward, returns to where one started.
pub proof fn lemma_increment_decrement_inverse(len: nat, pos: nat)
    requires
        pos < len,
    ensures
        prev_pos(len, next_pos(len, pos)) == pos,
        next_pos(len, prev_pos(len, pos)) == pos,
        next_pos(len, pos) < len,
        prev_pos(len, pos) < len,
{
    if pos + 1 < len {
        assert((pos + 1) % len == pos + 1) by (nonlinear_arith)
            requires pos + 1 < len;
    } else {
        assert((pos + 1) % len == 0) by (nonlinear_arith)
            requires pos + 1 == len, len > 0;
    }
    if pos == 0 {
        assert(len % len == 0) by (nonlinear_arith)
            requires len > 0;
    } else {
        assert(pos % len == pos) by (nonlinear_arith)
            requires pos < len;
    }
}

} // verus!
