//! The order in which discovered links are processed: ascending by interface
//! index, links of equal index in the order in which they were reported.

use crate::discovery::{LinkRecord, LinkRecordView};
use crate::types::views;
use vstd::prelude::*;
use vstd::seq_lib::{
    to_multiset_build, to_multiset_contains, to_multiset_insert, to_multiset_len,
    to_multiset_remove,
};

verus! {

/// `s` with `x` placed behind the last element whose index is not greater
/// than that of `x`.
pub open spec fn insert_by_index(s: Seq<LinkRecordView>, x: LinkRecordView) -> Seq<LinkRecordView>
    decreases s.len(),
{
    if s.len() == 0 || s.last().index <= x.index {
        s.push(x)
    } else {
        insert_by_index(s.drop_last(), x).push(s.last())
    }
}

/// The links of `s` by ascending index; links of equal index keep the order
/// they have in `s`.
pub open spec fn sort_by_index(s: Seq<LinkRecordView>) -> Seq<LinkRecordView>
    decreases s.len(),
{
    if s.len() == 0 {
        Seq::empty()
    } else {
        insert_by_index(sort_by_index(s.drop_last()), s.last())
    }
}

/// No index decreases along `s`.
pub open spec fn ordered(s: Seq<LinkRecordView>) -> bool {
    forall|i: int, j: int| 0 <= i < j < s.len() ==> s[i].index <= s[j].index
}

/// Every index along `s` is greater than the one before.
pub open spec fn strictly_ordered(s: Seq<LinkRecordView>) -> bool {
    forall|i: int, j: int| 0 <= i < j < s.len() ==> s[i].index < s[j].index
}

/// No two links of `s` share an index.
pub open spec fn distinct_indices(s: Seq<LinkRecordView>) -> bool {
    forall|i: int, j: int| 0 <= i < j < s.len() ==> s[i].index != s[j].index
}

/// The elements of `s` at the positions that `order` lists.
pub open spec fn select(s: Seq<LinkRecordView>, order: Seq<usize>) -> Seq<LinkRecordView> {
    Seq::new(order.len(), |k: int| s[order[k] as int])
}

/// The place at which `insert_by_index` puts `x`.
pub proof fn lemma_insert_position(s: Seq<LinkRecordView>, x: LinkRecordView) -> (p: int)
    ensures
        0 <= p <= s.len(),
        insert_by_index(s, x) == s.insert(p, x),
        forall|j: int| p <= j < s.len() ==> s[j].index > x.index,
        ordered(s) ==> forall|j: int| 0 <= j < p ==> s[j].index <= x.index,
    decreases s.len(),
{
    if s.len() == 0 || s.last().index <= x.index {
        assert(s.insert(s.len() as int, x) =~= s.push(x));
        s.len() as int
    } else {
        let p = lemma_insert_position(s.drop_last(), x);
        assert(s.insert(p, x) =~= s.drop_last().insert(p, x).push(s.last()));
        assert forall|j: int| p <= j < s.len() implies s[j].index > x.index by {
            if j < s.len() - 1 {
                assert(s.drop_last()[j].index > x.index);
            }
        }
        if ordered(s) {
            assert(ordered(s.drop_last()));
            assert forall|j: int| 0 <= j < p implies s[j].index <= x.index by {
                assert(s.drop_last()[j].index <= x.index);
            }
        }
        p
    }
}

/// Inserting at a place behind which every index is greater, and before
/// which the nearest index is not, is what `insert_by_index` does.
pub proof fn lemma_insert_at(s: Seq<LinkRecordView>, x: LinkRecordView, p: int)
    requires
        0 <= p <= s.len(),
        forall|j: int| p <= j < s.len() ==> s[j].index > x.index,
        p == 0 || s[p - 1].index <= x.index,
    ensures
        insert_by_index(s, x) == s.insert(p, x),
    decreases s.len(),
{
    if p == s.len() {
        assert(s.insert(p, x) =~= s.push(x));
    } else {
        lemma_insert_at(s.drop_last(), x, p);
        assert(s.insert(p, x) =~= s.drop_last().insert(p, x).push(s.last()));
    }
}

/// Sorting keeps every link, as often as it occurs.
pub proof fn lemma_sort_permutes(s: Seq<LinkRecordView>)
    ensures
        sort_by_index(s).to_multiset() == s.to_multiset(),
        sort_by_index(s).len() == s.len(),
    decreases s.len(),
{
    if s.len() == 0 {
        assert(sort_by_index(s) =~= s);
    } else {
        let front = s.drop_last();
        lemma_sort_permutes(front);
        let p = lemma_insert_position(sort_by_index(front), s.last());
        to_multiset_insert(sort_by_index(front), p, s.last());
        to_multiset_build(front, s.last());
        assert(front.push(s.last()) =~= s);
    }
}

/// The sorted links are in ascending order of index.
pub proof fn lemma_sort_ordered(s: Seq<LinkRecordView>)
    ensures
        ordered(sort_by_index(s)),
    decreases s.len(),
{
    if s.len() > 0 {
        let front = sort_by_index(s.drop_last());
        lemma_sort_ordered(s.drop_last());
        let p = lemma_insert_position(front, s.last());
        let t = front.insert(p, s.last());
        assert forall|i: int, j: int| 0 <= i < j < t.len() implies t[i].index <= t[j].index by {
            if j < p {
                assert(t[i] == front[i] && t[j] == front[j]);
            } else if j == p {
                assert(t[i] == front[i]);
            } else if i < p {
                assert(t[i] == front[i] && t[j] == front[j - 1]);
            } else if i == p {
                assert(t[j] == front[j - 1]);
            } else {
                assert(t[i] == front[i - 1] && t[j] == front[j - 1]);
            }
        }
    }
}

/// An ascending arrangement of links that pairwise differ in index is
/// strictly ascending.
pub proof fn lemma_ordered_distinct_is_strict(t: Seq<LinkRecordView>, s: Seq<LinkRecordView>)
    requires
        ordered(t),
        distinct_indices(s),
        t.to_multiset() == s.to_multiset(),
    ensures
        strictly_ordered(t),
{
    assert forall|i: int, j: int| 0 <= i < j < t.len() implies t[i].index < t[j].index by {
        if t[i].index == t[j].index {
            to_multiset_contains(t, t[i]);
            to_multiset_contains(s, t[i]);
            to_multiset_contains(t, t[j]);
            to_multiset_contains(s, t[j]);
            assert(t.contains(t[i]));
            assert(t.contains(t[j]));
            let p = choose|p: int| 0 <= p < s.len() && s[p] == t[i];
            let q = choose|q: int| 0 <= q < s.len() && s[q] == t[j];
            if p == q {
                let v = t[i];
                to_multiset_remove(t, i);
                assert(t.remove(i)[j - 1] == v);
                assert(t.remove(i).contains(v));
                to_multiset_contains(t.remove(i), v);
                to_multiset_remove(s, p);
                to_multiset_contains(s.remove(p), v);
                assert(s.remove(p).contains(v));
                let r = choose|r: int| 0 <= r < s.remove(p).len() && s.remove(p)[r] == v;
                if r < p {
                    assert(s[r] == v);
                } else {
                    assert(s[r + 1] == v);
                }
            }
        }
    }
}

/// Two strictly ascending arrangements of the same links are the same
/// sequence.
pub proof fn lemma_strictly_ordered_unique(x: Seq<LinkRecordView>, y: Seq<LinkRecordView>)
    requires
        strictly_ordered(x),
        strictly_ordered(y),
        x.to_multiset() == y.to_multiset(),
    ensures
        x == y,
    decreases x.len(),
{
    to_multiset_len(x);
    to_multiset_len(y);
    if x.len() == 0 {
        assert(x =~= y);
    } else {
        let n = x.len() - 1;
        to_multiset_contains(x, x[n]);
        to_multiset_contains(y, x[n]);
        to_multiset_contains(x, y[n]);
        to_multiset_contains(y, y[n]);
        assert(x.contains(x[n]));
        assert(y.contains(y[n]));
        let j = choose|j: int| 0 <= j < y.len() && y[j] == x[n];
        let k = choose|k: int| 0 <= k < x.len() && x[k] == y[n];
        assert(j == n) by {
            if j < n {
                assert(y[j].index < y[n].index);
                assert(k == n || x[k].index < x[n].index);
            }
        }
        to_multiset_remove(x, n);
        to_multiset_remove(y, n);
        assert(x.remove(n) =~= x.drop_last());
        assert(y.remove(n) =~= y.drop_last());
        lemma_strictly_ordered_unique(x.drop_last(), y.drop_last());
        assert(x =~= x.drop_last().push(x[n]));
        assert(y =~= y.drop_last().push(y[n]));
    }
}

/// Where no two links share an index, the sorted order does not depend on
/// the order in which the links were reported.
pub proof fn lemma_sort_ignores_report_order(a: Seq<LinkRecordView>, b: Seq<LinkRecordView>)
    requires
        distinct_indices(a),
        a.to_multiset() == b.to_multiset(),
    ensures
        sort_by_index(a) == sort_by_index(b),
{
    lemma_sort_permutes(a);
    lemma_sort_permutes(b);
    lemma_sort_ordered(a);
    lemma_sort_ordered(b);
    lemma_ordered_distinct_is_strict(sort_by_index(a), a);
    lemma_ordered_distinct_is_strict(sort_by_index(b), a);
    lemma_strictly_ordered_unique(sort_by_index(a), sort_by_index(b));
}

/// The positions of `records` in sorted order.
pub(crate) fn sorted_positions(records: &Vec<LinkRecord>) -> (order: Vec<usize>)
    ensures
        order@.len() == records@.len(),
        forall|k: int| 0 <= k < order@.len() ==> order@[k] < records@.len(),
        select(views(records@), order@) == sort_by_index(views(records@)),
{
    let mut order: Vec<usize> = Vec::new();
    let ghost all = views(records@);
    let mut i: usize = 0;
    while i < records.len()
        invariant
            i <= records.len(),
            all == views(records@),
            order@.len() == i,
            forall|k: int| 0 <= k < order@.len() ==> order@[k] < i,
            select(all, order@) == sort_by_index(all.take(i as int)),
        decreases records.len() - i,
    {
        let index: u32 = records[i].index;
        let mut p: usize = order.len();
        while p > 0 && records[order[p - 1]].index > index
            invariant
                p <= order@.len(),
                i < records.len(),
                all == views(records@),
                index == records@[i as int].index,
                forall|k: int| 0 <= k < order@.len() ==> order@[k] < i,
                forall|k: int| p <= k < order@.len() ==> all[order@[k] as int].index > index,
            decreases p,
        {
            p -= 1;
        }
        let ghost before = select(all, order@);
        let ghost x = all[i as int];
        proof {
            assert(all.take(i + 1).drop_last() =~= all.take(i as int));
            assert(all.take(i + 1).last() == x);
            lemma_insert_at(before, x, p as int);
        }
        order.insert(p, i);
        proof {
            assert(select(all, order@) =~= before.insert(p as int, x));
        }
        i += 1;
    }
    proof {
        assert(all.take(records@.len() as int) =~= all);
    }
    order
}

} // verus!
