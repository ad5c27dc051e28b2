//! A vector with a filter over it: the items kept by the filter are known by
//! their indices into the whole vector.

use vstd::prelude::*;

verus! {

/// `kept` lists, in increasing order and without repetition, indices below
/// `len`.
pub open spec fn indices_valid(kept: Seq<usize>, len: nat) -> bool {
    &&& forall|j: int| 0 <= j < kept.len() ==> kept[j] < len
    &&& forall|j: int, k: int| 0 <= j < k < kept.len() ==> kept[j] < kept[k]
}

/// The items of `items` at the indices `kept`, in that order.
pub open spec fn select<T>(items: Seq<T>, kept: Seq<usize>) -> Seq<T> {
    Seq::new(kept.len(), |j: int| items[kept[j] as int])
}

/// The sequence `0, 1, ..., len - 1`.
pub open spec fn all_indices(len: nat) -> Seq<usize> {
    Seq::new(len, |i: int| i as usize)
}

/// A vector that keeps track of items that are 'filtered'. It offers
/// indexing/viewing both the vector of filtered items and the whole
/// unfiltered vector.
pub struct FilteredVec<T> {
    all_items: Vec<T>,
    // This vec contains the indices of the items that have not been filtered out
    kept_indices: Vec<usize>,
}

impl<T> FilteredVec<T> {
    /// The kept indices are increasing indices of items.
    #[verifier::type_invariant]
    pub closed spec fn wf(&self) -> bool {
        &&& indices_valid(self.kept_indices@, self.all_items@.len())
        &&& self.all_items@.len() <= usize::MAX
    }

    /// All items, filtered out or not.
    pub closed spec fn items(&self) -> Seq<T> {
        self.all_items@
    }

    /// The indices of the items that the filter kept.
    pub closed spec fn kept(&self) -> Seq<usize> {
        self.kept_indices@
    }

    /// The items that the filter kept, in order.
    pub open spec fn kept_view(&self) -> Seq<T> {
        select(self.items(), self.kept())
    }

    /// The invariant, as seen from outside.
    pub proof fn lemma_kept_valid(&self)
        requires
            self.wf(),
        ensures
            indices_valid(self.kept(), self.items().len()),
            self.items().len() <= usize::MAX,
    {
    }

    /// A collection over the items of `vec`, all of them kept.
    pub fn from(vec: Vec<T>) -> (r: Self)
        ensures
            r.items() == vec@,
            r.kept() == all_indices(vec@.len()),
    {
        let kept_indices = Self::index_range(vec.len());
        FilteredVec { all_items: vec, kept_indices }
    }

    fn index_range(n: usize) -> (r: Vec<usize>)
        ensures
            r@ == all_indices(n as nat),
            indices_valid(r@, n as nat),
    {
        let mut r: Vec<usize> = Vec::new();
        let mut i: usize = 0;
        while i < n
            invariant
                i <= n,
                r@ == all_indices(i as nat),
            decreases n - i,
        {
            r.push(i);
            i = i + 1;
            assert(r@ =~= all_indices(i as nat));
        }
        r
    }

    /// All items, filtered out or not.
    pub fn all_items(&self) -> (r: &Vec<T>)
        ensures
            r@ == self.items(),
    {
        &self.all_items
    }

    /// The indices of the items that the filter kept.
    pub fn kept_indices(&self) -> (r: &Vec<usize>)
        ensures
            r@ == self.kept(),
    {
        &self.kept_indices
    }

    /// Return a vector of all items that have been kept
    pub fn kept_items(&self) -> (r: Vec<&T>)
        ensures
            r@.unref() == self.kept_view(),
    {
        proof {
            use_type_invariant(self);
        }
        let mut r: Vec<&T> = Vec::new();
        let mut j: usize = 0;
        while j < self.kept_indices.len()
            invariant
                self.wf(),
                j <= self.kept_indices@.len(),
                r@.len() == j,
                r@.unref() == select(self.all_items@, self.kept_indices@.take(j as int)),
            decreases self.kept_indices@.len() - j,
        {
            let idx = self.kept_indices[j];
            let ghost prev = r@;
            r.push(&self.all_items[idx]);
            proof {
                assert(self.kept_indices@.take(j + 1).drop_last() =~= self.kept_indices@.take(j as int));
                assert forall|w: int| 0 <= w < j + 1 implies r@.unref()[w] == select(self.all_items@, self.kept_indices@.take(j + 1))[w] by {
                    if w < j {
                        assert(r@[w] == prev[w]);
                        assert(prev.unref()[w] == select(self.all_items@, self.kept_indices@.take(j as int))[w]);
                    } else {
                        assert(*r@[w] == self.all_items@[idx as int]);
                    }
                }
            }
            j = j + 1;
            assert(r@.unref() =~= select(self.all_items@, self.kept_indices@.take(j as int)));
        }
        assert(self.kept_indices@.take(j as int) =~= self.kept_indices@);
        r
    }

    /// Recreate the collection of filtered items by going through all items
    /// in the unfiltered collection and applying a filter function
    pub fn apply_filter<F: Fn(&T) -> bool>(&mut self, filter: F)
        requires
            forall|i: int| 0 <= i < old(self).items().len() ==> filter.requires((&old(self).items()[i],)),
        ensures
            final(self).items() == old(self).items(),
            indices_valid(final(self).kept(), final(self).items().len()),
            forall|j: int| 0 <= j < final(self).kept().len()
                ==> filter.ensures((&final(self).items()[final(self).kept()[j] as int],), true),
            forall|i: int| 0 <= i < final(self).items().len() && !final(self).kept().contains(i as usize)
                ==> filter.ensures((&final(self).items()[i],), false),
    {
        let mut kept: Vec<usize> = Vec::new();
        let n = self.all_items.len();
        let mut i: usize = 0;
        while i < n
            invariant
                n == self.items().len(),
                self.items() == old(self).items(),
                i <= n,
                forall|k: int| 0 <= k < n ==> filter.requires((&self.items()[k],)),
                indices_valid(kept@, n as nat),
                forall|j: int| 0 <= j < kept@.len() ==> kept@[j] < i,
                forall|j: int| 0 <= j < kept@.len() ==> filter.ensures((&self.items()[kept@[j] as int],), true),
                forall|k: int| 0 <= k < i && !kept@.contains(k as usize) ==> filter.ensures((&self.items()[k],), false),
            decreases n - i,
        {
            let item = &self.all_items[i];
            let keep = filter(item);
            let ghost old_kept = kept@;
            assert(*item == self.items()[i as int]);
            if keep {
                kept.push(i);
            }
            proof {
                assert forall|k: int| 0 <= k < i + 1 && !kept@.contains(k as usize)
                    implies filter.ensures((&self.items()[k],), false) by {
                    if k == i {
                        if keep {
                            assert(kept@[kept@.len() - 1] == i);
                        }
                    } else if old_kept.contains(k as usize) {
                        let w = choose|w: int| 0 <= w < old_kept.len() && old_kept[w] == k as usize;
                        assert(kept@[w] == k as usize);
                    }
                }
            }
            i = i + 1;
        }
        self.kept_indices = kept;
    }

    /// Clear the filtered results, so that the kept items contain all items
    pub fn clear_filter(&mut self)
        ensures
            final(self).items() == old(self).items(),
            final(self).kept() == all_indices(old(self).items().len()),
    {
        let kept = Self::index_range(self.all_items.len());
        self.kept_indices = kept;
    }
}

/// There are no more kept indices than items.
pub proof fn lemma_kept_len_bounded(kept: Seq<usize>, len: nat)
    requires
        indices_valid(kept, len),
    ensures
        kept.len() <= len,
{
    if kept.len() > 0 {
        lemma_index_at_least_position(kept, len, kept.len() - 1);
    }
}

proof fn lemma_index_at_least_position(kept: Seq<usize>, len: nat, j: int)
    requires
        indices_valid(kept, len),
        0 <= j < kept.len(),
    ensures
        kept[j] >= j,
    decreases j,
{
    if j > 0 {
        lemma_index_at_least_position(kept, len, j - 1);
    }
}

/// Two lists of valid kept indices that hold the same indices are equal.
pub proof fn lemma_indices_unique(a: Seq<usize>, b: Seq<usize>, len: nat)
    requires
        indices_valid(a, len),
        indices_valid(b, len),
        forall|i: usize| a.contains(i) <==> b.contains(i),
    ensures
        a == b,
    decreases a.len(),
{
    if a.len() == 0 {
        if b.len() > 0 {
            assert(b.contains(b[0]));
        }
        assert(a =~= b);
    } else {
        assert(a.contains(a[0]));
        assert(b.len() > 0);
        assert(b.contains(b[0]));
        let ja = choose|j: int| 0 <= j < b.len() && b[j] == a[0];
        let jb = choose|j: int| 0 <= j < a.len() && a[j] == b[0];
        assert(a[0] == b[0]) by {
            if ja > 0 {
                assert(b[0] < b[ja]);
            }
            if jb > 0 {
                assert(a[0] < a[jb]);
            }
        }
        let a1 = a.drop_first();
        let b1 = b.drop_first();
        assert forall|i: usize| a1.contains(i) <==> b1.contains(i) by {
            if a1.contains(i) {
                let k = choose|k: int| 0 <= k < a1.len() && a1[k] == i;
                assert(a[k + 1] == i);
                assert(i > a[0]);
                assert(b.contains(i));
                let m = choose|m: int| 0 <= m < b.len() && b[m] == i;
                assert(m != 0);
                assert(b1[m - 1] == i);
            }
            if b1.contains(i) {
                let k = choose|k: int| 0 <= k < b1.len() && b1[k] == i;
                assert(b[k + 1] == i);
                assert(i > b[0]);
                assert(a.contains(i));
                let m = choose|m: int| 0 <= m < a.len() && a[m] == i;
                assert(m != 0);
                assert(a1[m - 1] == i);
            }
        }
        lemma_indices_unique(a1, b1, len);
        assert(a =~= b) by {
            assert forall|j: int| 0 <= j < a.len() implies a[j] == b[j] by {
                if j > 0 {
                    assert(a[j] == a1[j - 1]);
                    assert(b[j] == b1[j - 1]);
                }
            }
        }
    }
}

/// The indices `0, 1, ..., len - 1` are valid kept indices, and selecting them
/// gives back every item.
pub proof fn lemma_all_indices_select_all<T>(items: Seq<T>)
    requires
        items.len() <= usize::MAX,
    ensures
        indices_valid(all_indices(items.len()), items.len()),
        select(items, all_indices(items.len())) == items,
{
    assert(select(items, all_indices(items.len())) =~= items);
}

} // verus!
