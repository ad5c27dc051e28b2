//! The order of a folder listing: folders first, then files, each group by
//! name.

use vstd::prelude::*;
use crate::dir_entry::CustomDirEntry;
use crate::text::{chars_of, chars_le, chars_le_exec, lemma_chars_le_total, lemma_chars_le_transitive, lemma_chars_le_reflexive};

verus! {

broadcast use vstd::seq_lib::group_to_multiset_ensures;

/// `a` may stand before `b` in a listing: a folder before a file, and within
/// each group by name.
pub open spec fn entry_le(a: CustomDirEntry, b: CustomDirEntry) -> bool {
    if a.dir() != b.dir() {
        a.dir()
    } else {
        chars_le(a.name(), b.name())
    }
}

/// The entries stand in listing order.
pub open spec fn listing_sorted(s: Seq<CustomDirEntry>) -> bool {
    forall|i: int, j: int| 0 <= i < j < s.len() ==> entry_le(s[i], s[j])
}

/// The listing order is total.
pub proof fn lemma_entry_le_total(a: CustomDirEntry, b: CustomDirEntry)
    ensures
        entry_le(a, b) || entry_le(b, a),
{
    lemma_chars_le_total(a.name(), b.name());
}

/// The listing order is transitive.
pub proof fn lemma_entry_le_transitive(a: CustomDirEntry, b: CustomDirEntry, c: CustomDirEntry)
    requires
        entry_le(a, b),
        entry_le(b, c),
    ensures
        entry_le(a, c),
{
    if a.dir() == b.dir() && b.dir() == c.dir() {
        lemma_chars_le_transitive(a.name(), b.name(), c.name());
    }
}

/// The listing order is reflexive.
pub proof fn lemma_entry_le_reflexive(a: CustomDirEntry)
    ensures
        entry_le(a, a),
{
    lemma_chars_le_reflexive(a.name());
}

fn entry_le_exec(a_dir: bool, a_name: &Vec<char>, b_dir: bool, b_name: &Vec<char>) -> (r: bool)
    ensures
        r == (if a_dir != b_dir { a_dir } else { chars_le(a_name@, b_name@) }),
{
    if a_dir != b_dir {
        a_dir
    } else {
        chars_le_exec(a_name, b_name)
    }
}

/// The two entries hold the same place in listing order: the same folder
/// flag and the same name.
pub open spec fn tied(a: CustomDirEntry, b: CustomDirEntry) -> bool {
    a.dir() == b.dir() && a.name() == b.name()
}

/// `r` is `s` rearranged, item `k` of `r` being item `pos[k]` of `s`, with tied
/// entries kept in their order in `s`.
pub open spec fn stable_arrangement(r: Seq<CustomDirEntry>, s: Seq<CustomDirEntry>, pos: Seq<int>) -> bool {
    &&& r.len() == s.len()
    &&& pos.len() == r.len()
    &&& forall|k: int| 0 <= k < r.len() ==> 0 <= #[trigger] pos[k] < s.len() && r[k] == s[pos[k]]
    &&& forall|k: int, l: int| 0 <= k < l < r.len() ==> #[trigger] pos[k] != #[trigger] pos[l]
    &&& forall|k: int, l: int| 0 <= k < l < r.len() && tied(#[trigger] r[k], #[trigger] r[l]) ==> pos[k] < pos[l]
}

/// `listing` is the listing of a folder whose parent is `pardir` and whose
/// entries are `entries`: the parent and the entries shown (see `listed`),
/// sorted stably into listing order.
pub open spec fn is_listing_of(listing: Seq<CustomDirEntry>, pardir: CustomDirEntry, entries: Seq<CustomDirEntry>, folders_only: bool) -> bool {
    let all = seq![pardir] + listed(entries, folders_only);
    &&& listing_sorted(listing)
    &&& listing.to_multiset() == all.to_multiset()
    &&& exists|pos: Seq<int>| stable_arrangement(listing, all, pos)
}

/// The entries of `entries` in listing order: folders first, then files, each
/// group ordered by name. The sort is stable: tied entries keep their order.
pub fn sort_listing(entries: Vec<CustomDirEntry>) -> (r: Vec<CustomDirEntry>)
    ensures
        listing_sorted(r@),
        r@.to_multiset() == entries@.to_multiset(),
        exists|pos: Seq<int>| stable_arrangement(r@, entries@, pos),
{
    let ghost start = entries@;
    let mut input = entries;
    let mut out: Vec<CustomDirEntry> = Vec::new();
    let mut keys: Vec<Vec<char>> = Vec::new();
    let ghost mut pos: Seq<int> = Seq::empty();
    while input.len() > 0
        invariant
            listing_sorted(out@),
            keys@.len() == out@.len(),
            forall|k: int| 0 <= k < keys@.len() ==> keys@[k]@ == out@[k].name(),
            out@.to_multiset().add(input@.to_multiset()) == start.to_multiset(),
            input@ == start.take(input@.len() as int),
            input@.len() + out@.len() == start.len(),
            pos.len() == out@.len(),
            forall|k: int| 0 <= k < out@.len() ==> input@.len() <= #[trigger] pos[k] < start.len() && out@[k] == start[pos[k]],
            forall|k: int, l: int| 0 <= k < l < out@.len() ==> #[trigger] pos[k] != #[trigger] pos[l],
            forall|k: int, l: int| 0 <= k < l < out@.len() && tied(#[trigger] out@[k], #[trigger] out@[l]) ==> pos[k] < pos[l],
        decreases input@.len(),
    {
        let ghost before = input@;
        let x = input.pop().unwrap();
        assert(before == input@.push(x));
        let xk = chars_of(x.file_name().as_str());
        let xd = x.is_dir();
        let mut lo: usize = 0;
        let mut hi: usize = out.len();
        while lo < hi
            invariant
                0 <= lo <= hi <= out@.len(),
                listing_sorted(out@),
                keys@.len() == out@.len(),
                forall|k: int| 0 <= k < keys@.len() ==> keys@[k]@ == out@[k].name(),
                xk@ == x.name(),
                xd == x.dir(),
                forall|k: int| 0 <= k < lo ==> !entry_le(x, #[trigger] out@[k]),
                forall|k: int| hi <= k < out@.len() ==> entry_le(x, #[trigger] out@[k]),
            decreases hi - lo,
        {
            let mid = lo + (hi - lo) / 2;
            if entry_le_exec(xd, &xk, out[mid].is_dir(), &keys[mid]) {
                proof {
                    assert forall|k: int| mid <= k < out@.len() implies entry_le(x, #[trigger] out@[k]) by {
                        if k > mid {
                            lemma_entry_le_transitive(x, out@[mid as int], out@[k]);
                        } else {
                            assert(k == mid);
                        }
                    }
                }
                hi = mid;
            } else {
                proof {
                    assert forall|k: int| 0 <= k <= mid implies !entry_le(x, #[trigger] out@[k]) by {
                        if k < mid && entry_le(x, out@[k]) {
                            lemma_entry_le_transitive(x, out@[k], out@[mid as int]);
                        }
                    }
                }
                lo = mid + 1;
            }
        }
        let ghost old_out = out@;
        let ghost old_keys = keys@;
        out.insert(lo, x);
        keys.insert(lo, xk);
        proof {
            assert forall|i: int, j: int| 0 <= i < j < out@.len() implies entry_le(out@[i], out@[j]) by {
                if j == lo {
                    lemma_entry_le_total(old_out[i], x);
                } else if i == lo {
                    assert(out@[j] == old_out[j - 1]);
                } else {
                    let oi = if i < lo { i } else { i - 1 };
                    let oj = if j < lo { j } else { j - 1 };
                    assert(out@[i] == old_out[oi]);
                    assert(out@[j] == old_out[oj]);
                }
            }
            assert forall|k: int| 0 <= k < keys@.len() implies keys@[k]@ == out@[k].name() by {
                if k < lo {
                    assert(keys@[k] == old_keys[k]);
                } else if k > lo {
                    assert(keys@[k] == old_keys[k - 1]);
                }
            }
            assert(out@ == old_out.insert(lo as int, x));
            let p = input@.len() as int;
            assert(x == start[p]);
            let old_pos = pos;
            pos = old_pos.insert(lo as int, p);
            assert forall|k: int| 0 <= k < out@.len() implies input@.len() <= #[trigger] pos[k] < start.len() && out@[k] == start[pos[k]] by {
                if k < lo {
                    assert(pos[k] == old_pos[k]);
                } else if k > lo {
                    assert(pos[k] == old_pos[k - 1]);
                }
            }
            assert forall|k: int, l: int| 0 <= k < l < out@.len() implies #[trigger] pos[k] != #[trigger] pos[l] by {
                let ok = if k < lo { k } else { k - 1 };
                let ol = if l < lo { l } else { l - 1 };
                if k != lo && l != lo {
                    assert(pos[k] == old_pos[ok]);
                    assert(pos[l] == old_pos[ol]);
                } else if k == lo {
                    assert(pos[l] == old_pos[ol]);
                } else {
                    assert(pos[k] == old_pos[ok]);
                }
            }
            assert forall|k: int, l: int| 0 <= k < l < out@.len() && tied(#[trigger] out@[k], #[trigger] out@[l]) implies pos[k] < pos[l] by {
                let ok = if k < lo { k } else { k - 1 };
                let ol = if l < lo { l } else { l - 1 };
                if k != lo && l != lo {
                    assert(pos[k] == old_pos[ok]);
                    assert(pos[l] == old_pos[ol]);
                    assert(out@[k] == old_out[ok]);
                    assert(out@[l] == old_out[ol]);
                } else if k == lo {
                    assert(pos[l] == old_pos[ol]);
                } else {
                    assert(out@[k] == old_out[k]);
                    lemma_chars_le_reflexive(x.name());
                    assert(entry_le(x, old_out[k]));
                }
            }
            assert(input@ =~= start.take(input@.len() as int));
            assert(out@.to_multiset() == old_out.to_multiset().insert(x));
            assert(before.to_multiset() == input@.to_multiset().insert(x));
            assert(out@.to_multiset().add(input@.to_multiset()) =~= old_out.to_multiset().add(before.to_multiset()));
        }
    }
    assert(input@.to_multiset() =~= vstd::multiset::Multiset::<CustomDirEntry>::empty());
    assert(out@.to_multiset().add(input@.to_multiset()) =~= out@.to_multiset());
    assert(stable_arrangement(out@, start, pos));
    out
}

/// The entries of a folder that the listing shows: only the folders where
/// `folders_only` is set.
pub open spec fn listed(entries: Seq<CustomDirEntry>, folders_only: bool) -> Seq<CustomDirEntry> {
    if folders_only {
        entries.filter(|e: CustomDirEntry| e.dir())
    } else {
        entries
    }
}

/// With `folders_only`, every folder among the entries is listed and every
/// entry listed is a folder among them; without it, every entry is listed.
pub proof fn lemma_listed_entries_are_the_folders(entries: Seq<CustomDirEntry>)
    ensures
        forall|i: int| 0 <= i < entries.len() && (#[trigger] entries[i]).dir() ==> listed(entries, true).contains(entries[i]),
        forall|j: int| 0 <= j < listed(entries, true).len() ==> {
            &&& (#[trigger] listed(entries, true)[j]).dir()
            &&& entries.contains(listed(entries, true)[j])
        },
        listed(entries, false) == entries,
{
    let p = |e: CustomDirEntry| e.dir();
    assert forall|i: int| 0 <= i < entries.len() && (#[trigger] entries[i]).dir() implies listed(entries, true).contains(entries[i]) by {
        entries.lemma_filter_contains(p, i);
    }
    assert forall|j: int| 0 <= j < listed(entries, true).len() implies {
        &&& (#[trigger] listed(entries, true)[j]).dir()
        &&& entries.contains(listed(entries, true)[j])
    } by {
        entries.lemma_filter_pred(p, j);
        assert(entries.filter(p).contains(entries.filter(p)[j]));
        entries.lemma_filter_contains_rev(p, entries.filter(p)[j]);
    }
}

/// A folder listing holds the parent and every folder read (every entry
/// read, without `folders_only`), and nothing else.
pub proof fn lemma_listing_holds_entries_read(listing: Seq<CustomDirEntry>, pardir: CustomDirEntry, entries: Seq<CustomDirEntry>, folders_only: bool)
    requires
        is_listing_of(listing, pardir, entries, folders_only),
    ensures
        listing.contains(pardir),
        forall|i: int| 0 <= i < entries.len() && (!folders_only || (#[trigger] entries[i]).dir()) ==> listing.contains(entries[i]),
        forall|j: int| 0 <= j < listing.len() && #[trigger] listing[j] != pardir ==> {
            &&& entries.contains(listing[j])
            &&& folders_only ==> listing[j].dir()
        },
{
    broadcast use vstd::seq_lib::group_to_multiset_ensures;
    lemma_listed_entries_are_the_folders(entries);
    let all = seq![pardir] + listed(entries, folders_only);
    assert(all[0] == pardir);
    assert(all.contains(pardir));
    assert(all.to_multiset().count(pardir) > 0);
    assert(listing.to_multiset().count(pardir) > 0);
    assert forall|i: int| 0 <= i < entries.len() && (!folders_only || (#[trigger] entries[i]).dir()) implies listing.contains(entries[i]) by {
        assert(listed(entries, folders_only).contains(entries[i]));
        let k = choose|k: int| 0 <= k < listed(entries, folders_only).len() && listed(entries, folders_only)[k] == entries[i];
        assert(all[k + 1] == entries[i]);
        assert(all.contains(entries[i]));
        assert(all.to_multiset().count(entries[i]) > 0);
        assert(listing.to_multiset().count(entries[i]) > 0);
    }
    assert forall|j: int| 0 <= j < listing.len() && #[trigger] listing[j] != pardir implies {
        &&& entries.contains(listing[j])
        &&& folders_only ==> listing[j].dir()
    } by {
        assert(listing.contains(listing[j]));
        assert(listing.to_multiset().count(listing[j]) > 0);
        assert(all.to_multiset().count(listing[j]) > 0);
        assert(all.contains(listing[j]));
        let k = choose|k: int| 0 <= k < all.len() && all[k] == listing[j];
        assert(k != 0);
        assert(listed(entries, folders_only)[k - 1] == listing[j]);
    }
}

/// The entries that the listing shows, in their order.
#[verifier::spinoff_prover]
pub fn listed_entries(entries: Vec<CustomDirEntry>, folders_only: bool) -> (r: Vec<CustomDirEntry>)
    ensures
        r@ == listed(entries@, folders_only),
{
    if !folders_only {
        return entries;
    }
    let ghost all = entries@;
    let ghost is_folder = |e: CustomDirEntry| e.dir();
    // Turn the entries round, so that popping gives them in their order.
    let mut rest = entries;
    let mut rev: Vec<CustomDirEntry> = Vec::new();
    while rest.len() > 0
        invariant
            rest@ + rev@.reverse() == all,
        decreases rest@.len(),
    {
        let ghost old_rest = rest@;
        let ghost old_rev = rev@;
        let e = rest.pop().unwrap();
        rev.push(e);
        assert(rev@.reverse() =~= seq![e] + old_rev.reverse());
        assert(old_rest =~= rest@.push(e));
        assert(rest@ + rev@.reverse() =~= old_rest + old_rev.reverse());
    }
    assert(rev@.reverse() =~= all);
    let mut out: Vec<CustomDirEntry> = Vec::new();
    let ghost mut k: int = 0;
    assert(all.take(0).filter(is_folder) =~= Seq::<CustomDirEntry>::empty()) by {
        reveal(Seq::filter);
    }
    while rev.len() > 0
        invariant
            0 <= k <= all.len(),
            rev@.reverse() == all.skip(k),
            out@ == all.take(k).filter(is_folder),
            is_folder == |e: CustomDirEntry| e.dir(),
        decreases rev@.len(),
    {
        let ghost old_rev = rev@;
        let e = rev.pop().unwrap();
        proof {
            assert(old_rev =~= rev@.push(e));
            assert(old_rev.reverse() =~= seq![e] + rev@.reverse());
            assert(all.skip(k)[0] == e);
            assert(rev@.reverse() =~= old_rev.reverse().drop_first());
            assert(all.skip(k + 1) =~= all.skip(k).drop_first());
            assert(all.take(k + 1) =~= all.take(k).push(e));
            all.take(k).lemma_filter_push(e, is_folder);
        }
        if e.is_dir() {
            out.push(e);
        }
        proof {
            assert(rev@.reverse() =~= all.skip(k + 1));
            k = k + 1;
        }
    }
    assert(all.take(k) =~= all);
    out
}

} // verus!
