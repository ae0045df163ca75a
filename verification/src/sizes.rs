//! Lists of images kept in ascending order of size, one entry per size: the
//! first entry seen for a size wins, later ones with the same size are dropped.

use vstd::prelude::*;

verus! {

/// An entry that carries a pixel size.
pub trait SizedEntry {
    spec fn entry_size(&self) -> u32;

    fn size(&self) -> (r: u32)
        ensures
            r == self.entry_size(),
    ;
}

/// Sizes strictly increase along `s`.
pub open spec fn strictly_sorted<T: SizedEntry>(s: Seq<T>) -> bool {
    forall|i: int, j: int| 0 <= i < j < s.len() ==> #[trigger] s[i].entry_size() < #[trigger] s[j].entry_size()
}

/// Some entry of `s` has size `sz`.
pub open spec fn has_size<T: SizedEntry>(s: Seq<T>, sz: u32) -> bool {
    exists|i: int| 0 <= i < s.len() && #[trigger] s[i].entry_size() == sz
}

/// Index of the first entry of `s`, from `i` on, whose size is at least `sz`.
pub open spec fn position_for<T: SizedEntry>(s: Seq<T>, sz: u32, i: int) -> int
    decreases s.len() - i,
{
    if i < 0 || i >= s.len() {
        s.len() as int
    } else if s[i].entry_size() >= sz {
        i
    } else {
        position_for(s, sz, i + 1)
    }
}

/// `acc` with `x` added at its place by size, unless `acc` already holds an
/// entry of that size.
pub open spec fn insert_by_size<T: SizedEntry>(acc: Seq<T>, x: T) -> Seq<T> {
    if has_size(acc, x.entry_size()) {
        acc
    } else {
        acc.insert(position_for(acc, x.entry_size(), 0), x)
    }
}

/// The entries of `s` in ascending order of size, keeping for each size the
/// first entry of `s` that has it.
pub open spec fn first_per_size_sorted<T: SizedEntry>(s: Seq<T>) -> Seq<T>
    decreases s.len(),
{
    if s.len() == 0 {
        Seq::empty()
    } else {
        insert_by_size(first_per_size_sorted(s.drop_last()), s.last())
    }
}

/// `s[k]` is the first entry of `s` with its size.
pub open spec fn is_first_of_its_size<T: SizedEntry>(s: Seq<T>, k: int) -> bool {
    forall|m: int| 0 <= m < k ==> #[trigger] s[m].entry_size() != s[k].entry_size()
}

proof fn lemma_position_for<T: SizedEntry>(s: Seq<T>, sz: u32, i: int)
    requires
        0 <= i <= s.len(),
    ensures
        i <= position_for(s, sz, i) <= s.len(),
        forall|k: int| i <= k < position_for(s, sz, i) ==> #[trigger] s[k].entry_size() < sz,
        position_for(s, sz, i) < s.len() ==> s[position_for(s, sz, i)].entry_size() >= sz,
    decreases s.len() - i,
{
    if i < s.len() && s[i].entry_size() < sz {
        lemma_position_for(s, sz, i + 1);
    }
}

/// Adding by size keeps the list strictly sorted, and adds exactly `x` when its
/// size is new.
pub proof fn lemma_insert_by_size<T: SizedEntry>(acc: Seq<T>, x: T)
    requires
        strictly_sorted(acc),
    ensures
        strictly_sorted(insert_by_size(acc, x)),
        has_size(acc, x.entry_size()) ==> insert_by_size(acc, x) == acc,
        forall|y: T| #[trigger] insert_by_size(acc, x).contains(y) <==> acc.contains(y) || (y == x && !has_size(acc, x.entry_size())),
        forall|sz: u32| #[trigger] has_size(insert_by_size(acc, x), sz) <==> has_size(acc, sz) || sz == x.entry_size(),
{
    let sz = x.entry_size();
    if !has_size(acc, sz) {
        lemma_position_for(acc, sz, 0);
        let p = position_for(acc, sz, 0);
        let r = acc.insert(p, x);
        if p < acc.len() {
            assert(acc[p].entry_size() != sz);
        }
        assert forall|i: int, j: int| 0 <= i < j < r.len() implies #[trigger] r[i].entry_size() < #[trigger] r[j].entry_size() by {
            if j < p {
            } else if j == p {
            } else if i < p {
                if p < acc.len() {
                    assert(acc[p].entry_size() > sz);
                    assert(r[j] == acc[j - 1]);
                    if j - 1 > p {
                        assert(acc[p].entry_size() < acc[j - 1].entry_size());
                    }
                }
            } else if i == p {
                assert(r[j] == acc[j - 1]);
                assert(acc[p].entry_size() > sz);
                if j - 1 > p {
                    assert(acc[p].entry_size() < acc[j - 1].entry_size());
                }
            } else {
                assert(r[i] == acc[i - 1]);
                assert(r[j] == acc[j - 1]);
            }
        }
        assert forall|y: T| #[trigger] r.contains(y) <==> acc.contains(y) || y == x by {
            if r.contains(y) {
                let k = choose|k: int| 0 <= k < r.len() && r[k] == y;
                if k < p {
                    assert(acc[k] == y);
                } else if k > p {
                    assert(acc[k - 1] == y);
                }
            }
            if acc.contains(y) {
                let k = choose|k: int| 0 <= k < acc.len() && acc[k] == y;
                if k < p {
                    assert(r[k] == y);
                } else {
                    assert(r[k + 1] == y);
                }
            }
            if y == x {
                assert(r[p] == x);
            }
        }
        assert forall|s2: u32| #[trigger] has_size(r, s2) <==> has_size(acc, s2) || s2 == sz by {
            if has_size(r, s2) {
                let k = choose|k: int| 0 <= k < r.len() && #[trigger] r[k].entry_size() == s2;
                if k < p {
                    assert(acc[k].entry_size() == s2);
                } else if k > p {
                    assert(acc[k - 1].entry_size() == s2);
                }
            }
            if has_size(acc, s2) {
                let k = choose|k: int| 0 <= k < acc.len() && #[trigger] acc[k].entry_size() == s2;
                if k < p {
                    assert(r[k].entry_size() == s2);
                } else {
                    assert(r[k + 1].entry_size() == s2);
                }
            }
            if s2 == sz {
                assert(r[p].entry_size() == sz);
            }
        }
    } else {
        assert forall|s2: u32| #[trigger] has_size(acc, s2) <==> has_size(acc, s2) || s2 == sz by {}
    }
}

/// Adds `item` to the list, which is kept in ascending order of size, unless an
/// entry of the same size is already there.
pub fn keep_first_by_size<T: SizedEntry>(list: &mut Vec<T>, item: T)
    requires
        strictly_sorted(old(list)@),
    ensures
        final(list)@ == insert_by_size(old(list)@, item),
        strictly_sorted(final(list)@),
{
    proof {
        lemma_insert_by_size(old(list)@, item);
        lemma_position_for(old(list)@, item.entry_size(), 0);
    }
    let sz = item.size();
    let n = list.len();
    let mut i: usize = 0;
    while i < n && list[i].size() < sz
        invariant
            n == list@.len(),
            i <= n,
            forall|k: int| 0 <= k < i ==> #[trigger] list@[k].entry_size() < sz,
            position_for(list@, sz, i as int) == position_for(list@, sz, 0),
        decreases n - i,
    {
        i = i + 1;
    }
    proof {
        lemma_position_for(list@, sz, i as int);
    }
    if i < n && list[i].size() == sz {
        assert(has_size(list@, sz));
        return;
    }
    assert(!has_size(list@, sz)) by {
        if has_size(list@, sz) {
            let k = choose|k: int| 0 <= k < list@.len() && #[trigger] list@[k].entry_size() == sz;
            if k >= i {
                if k > i {
                    assert(list@[i as int].entry_size() < list@[k].entry_size());
                }
            }
        }
    }
    list.insert(i, item);
}

/// Every entry of the sorted collection comes from `s` and is the first there with
/// its size; every size in `s` is present; sizes strictly increase.
pub proof fn law_first_per_size_sorted<T: SizedEntry>(s: Seq<T>)
    ensures
        strictly_sorted(first_per_size_sorted(s)),
        forall|sz: u32| #[trigger] has_size(first_per_size_sorted(s), sz) <==> has_size(s, sz),
        forall|y: T| #[trigger] first_per_size_sorted(s).contains(y) ==> exists|k: int|
            0 <= k < s.len() && s[k] == y && is_first_of_its_size(s, k),
    decreases s.len(),
{
    if s.len() > 0 {
        let p = s.drop_last();
        let acc = first_per_size_sorted(p);
        law_first_per_size_sorted(p);
        lemma_insert_by_size(acc, s.last());
        assert forall|sz: u32| #[trigger] has_size(first_per_size_sorted(s), sz) <==> has_size(s, sz) by {
            if has_size(p, sz) {
                let k = choose|k: int| 0 <= k < p.len() && #[trigger] p[k].entry_size() == sz;
                assert(s[k].entry_size() == sz);
            }
            if has_size(s, sz) {
                let k = choose|k: int| 0 <= k < s.len() && #[trigger] s[k].entry_size() == sz;
                if k < p.len() {
                    assert(p[k].entry_size() == sz);
                }
            }
        }
        assert forall|y: T| #[trigger] first_per_size_sorted(s).contains(y) implies exists|k: int|
            0 <= k < s.len() && s[k] == y && is_first_of_its_size(s, k) by {
            if acc.contains(y) {
                let k = choose|k: int| 0 <= k < p.len() && p[k] == y && is_first_of_its_size(p, k);
                assert(s[k] == y);
                assert forall|m: int| 0 <= m < k implies #[trigger] s[m].entry_size() != s[k].entry_size() by {
                    assert(s[m] == p[m]);
                }
            } else {
                let k = s.len() - 1;
                assert(y == s.last());
                assert(!has_size(acc, y.entry_size()));
                assert forall|m: int| 0 <= m < k implies #[trigger] s[m].entry_size() != s[k].entry_size() by {
                    assert(s[m] == p[m]);
                    if s[m].entry_size() == y.entry_size() {
                        assert(has_size(p, y.entry_size()));
                    }
                }
                assert(s[k] == y);
            }
        }
    }
}

/// Collects `items` in ascending order of size, first entry per size.
pub fn sort_first_per_size<T: SizedEntry>(items: Vec<T>) -> (r: Vec<T>)
    ensures
        r@ == first_per_size_sorted(items@),
{
    let ghost all = items@;
    let mut out: Vec<T> = Vec::new();
    for x in it: items
        invariant
            it.seq() == all,
            out@ == first_per_size_sorted(all.take(it.index())),
            strictly_sorted(out@),
    {
        proof {
            let t = it.index();
            assert(all.take(t + 1).drop_last() =~= all.take(t));
            assert(all.take(t + 1).last() == x);
        }
        keep_first_by_size(&mut out, x);
    }
    assert(all.take(all.len() as int) =~= all);
    out
}

} // verus!
