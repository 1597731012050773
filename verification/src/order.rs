//! Putting lists in order.

use vstd::prelude::*;

use crate::text::{
    lemma_text_le_chain, lemma_text_le_total, not_after, text_le,
};

verus! {

/// A type whose values have a place in an order.
pub trait Ranked: Sized {
    /// Whether `self` may stand before `other`.
    spec fn ranks(&self, other: &Self) -> bool;

    /// Any two values are in order one way or the other.
    proof fn rank_total(a: &Self, b: &Self)
        ensures
            a.ranks(b) || b.ranks(a),
    ;

    /// The order is transitive.
    proof fn rank_chain(a: &Self, b: &Self, c: &Self)
        requires
            a.ranks(b),
            b.ranks(c),
        ensures
            a.ranks(c),
    ;

    /// Whether `self` may stand before `other`.
    fn may_precede(&self, other: &Self) -> (r: bool)
        ensures
            r == self.ranks(other),
    ;
}

impl Ranked for u64 {
    open spec fn ranks(&self, other: &Self) -> bool {
        *self <= *other
    }

    proof fn rank_total(a: &Self, b: &Self) {
    }

    proof fn rank_chain(a: &Self, b: &Self, c: &Self) {
    }

    fn may_precede(&self, other: &Self) -> (r: bool) {
        *self <= *other
    }
}

impl Ranked for String {
    open spec fn ranks(&self, other: &Self) -> bool {
        text_le(self@, other@)
    }

    proof fn rank_total(a: &Self, b: &Self) {
        lemma_text_le_total(a@, b@);
    }

    proof fn rank_chain(a: &Self, b: &Self, c: &Self) {
        lemma_text_le_chain(a@, b@, c@);
    }

    fn may_precede(&self, other: &Self) -> (r: bool) {
        not_after(self.as_str(), other.as_str())
    }
}

/// Whether `order` lists the positions of `before` in the order in which
/// `after` holds them: by rank, and by position where two rank the same.
pub open spec fn reorders<K: Ranked, T>(
    order: Seq<int>,
    before: Seq<(K, T)>,
    after: Seq<(K, T)>,
) -> bool {
    &&& order.len() == before.len()
    &&& after.len() == before.len()
    &&& forall|i: int|
        0 <= i < order.len() ==> 0 <= #[trigger] order[i] < before.len() && after[i]
            == before[order[i]]
    &&& forall|i: int, j: int|
        0 <= i < j < order.len() ==> {
            &&& #[trigger] order[i] != #[trigger] order[j]
            &&& before[order[i]].0.ranks(&before[order[j]].0)
            &&& before[order[j]].0.ranks(&before[order[i]].0) ==> order[i] < order[j]
        }
}

/// Whether `after` is `before` sorted by rank, with items of the same rank
/// kept in the order they had.
pub open spec fn stably_sorted<K: Ranked, T>(before: Seq<(K, T)>, after: Seq<(K, T)>) -> bool {
    exists|order: Seq<int>| reorders(order, before, after)
}

/// Sort by rank, keeping the order of items that rank the same.
pub fn stable_sort<K: Ranked, T>(items: Vec<(K, T)>) -> (sorted: Vec<(K, T)>)
    ensures
        stably_sorted(items@, sorted@),
{
    let ghost before = items@;
    let mut rest = items;
    let mut sorted: Vec<(K, T)> = Vec::new();
    let ghost mut order: Seq<int> = Seq::empty();
    let ghost mut done: int = 0;
    while rest.len() > 0
        invariant
            0 <= done <= before.len(),
            rest@ == before.skip(done),
            forall|i: int| 0 <= i < order.len() ==> 0 <= #[trigger] order[i] < done,
            reorders(order, before.take(done), sorted@),
        decreases rest@.len(),
    {
        let item = rest.remove(0);
        proof {
            assert(before.skip(done).remove(0) =~= before.skip(done + 1));
            assert(item == before[done]);
        }
        let mut at: usize = sorted.len();
        while at > 0 && !sorted[at - 1].0.may_precede(&item.0)
            invariant
                at <= sorted@.len(),
                forall|k: int|
                    at <= k < sorted@.len() ==> !(#[trigger] sorted@[k]).0.ranks(&item.0),
            decreases at,
        {
            at = at - 1;
        }
        let ghost held = sorted@;
        let ghost was = order;
        let ghost k0 = at as int;
        sorted.insert(at, item);
        proof {
            order = was.insert(k0, done);
            assert(before.take(done + 1).take(done) =~= before.take(done));
            assert forall|i: int| 0 <= i < was.len() implies held[i] == before[#[trigger] was[i]] by {
                assert(before.take(done)[was[i]] == before[was[i]]);
            }
            assert forall|i: int| 0 <= i < order.len() implies 0 <= #[trigger] order[i]
                < before.take(done + 1).len() && sorted@[i] == before.take(done + 1)[order[i]] by {
                if i < k0 {
                    assert(order[i] == was[i]);
                } else if i == k0 {
                    assert(order[i] == done);
                } else {
                    assert(order[i] == was[i - 1]);
                    assert(sorted@[i] == held[i - 1]);
                }
            }
            assert forall|i: int| 0 <= i < k0 implies (#[trigger] held[i]).0.ranks(&item.0) by {
                if i < k0 - 1 {
                    assert(before.take(done)[was[i]] == held[i]);
                    assert(before.take(done)[was[k0 - 1]] == held[k0 - 1]);
                    K::rank_chain(&held[i].0, &held[k0 - 1].0, &item.0);
                }
            }
            assert forall|i: int| k0 <= i < held.len() implies item.0.ranks(&(#[trigger] held[i]).0) by {
                K::rank_total(&item.0, &held[i].0);
            }
            assert forall|i: int, j: int| 0 <= i < j < order.len() implies {
                &&& #[trigger] order[i] != #[trigger] order[j]
                &&& before.take(done + 1)[order[i]].0.ranks(&before.take(done + 1)[order[j]].0)
                &&& before.take(done + 1)[order[j]].0.ranks(&before.take(done + 1)[order[i]].0)
                    ==> order[i] < order[j]
            } by {
                let a = if i < k0 {
                    i
                } else {
                    i - 1
                };
                let b = if j < k0 {
                    j
                } else {
                    j - 1
                };
                if i != k0 && j != k0 {
                    assert(order[i] == was[a] && order[j] == was[b]);
                    assert(before.take(done)[was[a]] == before.take(done + 1)[order[i]]);
                    assert(before.take(done)[was[b]] == before.take(done + 1)[order[j]]);
                } else if i == k0 {
                    assert(order[j] == was[b]);
                    assert(held[b] == before[was[b]]);
                } else {
                    assert(order[i] == was[a]);
                    assert(held[a] == before[was[a]]);
                }
            }
            done = done + 1;
        }
    }
    assert(before.take(before.len() as int) =~= before);
    sorted
}

/// What a list of pairs holds behind its ranks.
pub open spec fn values<K, T>(pairs: Seq<(K, T)>) -> Seq<T> {
    pairs.map_values(|p: (K, T)| p.1)
}

/// Drop the ranks of a list of pairs.
pub fn without_ranks<K, T>(pairs: Vec<(K, T)>) -> (r: Vec<T>)
    ensures
        r@ == values(pairs@),
{
    let ghost all = pairs@;
    let mut rest = pairs;
    let mut r: Vec<T> = Vec::new();
    while rest.len() > 0
        invariant
            all.len() == r@.len() + rest@.len(),
            rest@ == all.skip(r@.len() as int),
            r@ == values(all).take(r@.len() as int),
        decreases rest@.len(),
    {
        let ghost n = r@.len() as int;
        let (_, value) = rest.remove(0);
        assert(all.skip(n).remove(0) =~= all.skip(n + 1));
        assert(value == values(all)[n]);
        r.push(value);
        assert(values(all).take(n + 1) =~= values(all).take(n).push(values(all)[n]));
    }
    assert(values(all).take(all.len() as int) =~= values(all));
    r
}

/// A stable sort has one result.
pub proof fn lemma_stable_sort_unique<K: Ranked, T>(
    before: Seq<(K, T)>,
    a: Seq<(K, T)>,
    b: Seq<(K, T)>,
)
    requires
        stably_sorted(before, a),
        stably_sorted(before, b),
    ensures
        a == b,
{
    let p = choose|p: Seq<int>| reorders(p, before, a);
    let q = choose|q: Seq<int>| reorders(q, before, b);
    lemma_same_order(p, q, before, a, b, before.len() as int);
    assert(a =~= b) by {
        assert forall|i: int| 0 <= i < a.len() implies a[i] == b[i] by {
            assert(p[i] == q[i]);
        }
    }
}

/// Whether position `x` comes before position `y` in a stable sort.
spec fn earlier<K: Ranked, T>(s: Seq<(K, T)>, x: int, y: int) -> bool {
    s[x].0.ranks(&s[y].0) && (s[y].0.ranks(&s[x].0) ==> x < y)
}

proof fn lemma_same_order<K: Ranked, T>(
    p: Seq<int>,
    q: Seq<int>,
    before: Seq<(K, T)>,
    a: Seq<(K, T)>,
    b: Seq<(K, T)>,
    n: int,
)
    requires
        reorders(p, before, a),
        reorders(q, before, b),
        0 <= n <= before.len(),
    ensures
        forall|i: int| 0 <= i < n ==> p[i] == q[i],
    decreases n,
{
    if n > 0 {
        lemma_same_order(p, q, before, a, b, n - 1);
        let k = n - 1;
        if p[k] != q[k] {
            lemma_onto(p, before.len() as int, q[k]);
            lemma_onto(q, before.len() as int, p[k]);
            let x = choose|x: int| 0 <= x < q.len() && q[x] == p[k];
            let y = choose|y: int| 0 <= y < p.len() && p[y] == q[k];
            assert(x > k) by {
                if x < k {
                    assert(p[x] == q[x]);
                }
            }
            assert(y > k) by {
                if y < k {
                    assert(p[y] == q[y]);
                }
            }
            assert(earlier(before, q[k], q[x]));
            assert(earlier(before, p[k], p[y]));
        }
    }
}

/// A listing of `n` different positions below `n` misses none.
pub proof fn lemma_onto(p: Seq<int>, n: int, v: int)
    requires
        p.len() == n,
        forall|i: int| 0 <= i < n ==> 0 <= #[trigger] p[i] < n,
        forall|i: int, j: int| 0 <= i < j < n ==> #[trigger] p[i] != #[trigger] p[j],
        0 <= v < n,
    ensures
        exists|i: int| 0 <= i < n && #[trigger] p[i] == v,
{
    let s = p.to_set();
    let all = vstd::set_lib::set_int_range(0, n);
    vstd::set_lib::lemma_int_range(0, n);
    p.unique_seq_to_set();
    assert(s.subset_of(all)) by {
        assert forall|x: int| s.contains(x) implies all.contains(x) by {
            let i = choose|i: int| 0 <= i < p.len() && p[i] == x;
            assert(p[i] == x);
        }
    }
    vstd::set_lib::lemma_subset_equality(s, all);
    assert(all.contains(v));
    assert(s.contains(v));
}

/// Sort texts, keeping each as often as it occurs.
pub fn sort_texts(list: Vec<String>) -> (sorted: Vec<String>)
    ensures
        crate::order::texts_sorted(list@, sorted@),
{
    let ghost before = list@;
    let mut rest = list;
    let mut pairs: Vec<(String, ())> = Vec::new();
    while rest.len() > 0
        invariant
            before.len() == pairs@.len() + rest@.len(),
            rest@ == before.skip(pairs@.len() as int),
            forall|i: int| 0 <= i < pairs@.len() ==> (#[trigger] pairs@[i]).0 == before[i],
        decreases rest@.len(),
    {
        let t = rest.remove(0);
        assert(before.skip(pairs@.len() as int).remove(0) =~= before.skip(pairs@.len() as int + 1));
        pairs.push((t, ()));
    }
    let ghost tagged = pairs@;
    let mut held = stable_sort(pairs);
    let ghost after = held@;
    let mut sorted: Vec<String> = Vec::new();
    while held.len() > 0
        invariant
            after.len() == sorted@.len() + held@.len(),
            held@ == after.skip(sorted@.len() as int),
            forall|i: int| 0 <= i < sorted@.len() ==> #[trigger] sorted@[i] == after[i].0,
        decreases held@.len(),
    {
        let (t, _) = held.remove(0);
        assert(after.skip(sorted@.len() as int).remove(0) =~= after.skip(sorted@.len() as int + 1));
        sorted.push(t);
    }
    proof {
        let order = choose|order: Seq<int>| reorders(order, tagged, after);
        assert(arranges(order, before, sorted@)) by {
            assert forall|i: int| 0 <= i < order.len() implies 0 <= #[trigger] order[i]
                < before.len() && sorted@[i] == before[order[i]] by {
                assert(after[i] == tagged[order[i]]);
            }
        }
        assert forall|i: int, j: int| 0 <= i < j < sorted@.len() implies text_le(
            (#[trigger] sorted@[i])@,
            (#[trigger] sorted@[j])@,
        ) by {
            assert(tagged[order[i]].0.ranks(&tagged[order[j]].0));
            assert(after[i] == tagged[order[i]]);
            assert(after[j] == tagged[order[j]]);
        }
    }
    sorted
}

/// Whether `order` lists each position of `before` once, in the order in
/// which `after` holds them.
pub open spec fn arranges<T>(order: Seq<int>, before: Seq<T>, after: Seq<T>) -> bool {
    &&& order.len() == before.len()
    &&& after.len() == before.len()
    &&& forall|i: int|
        0 <= i < order.len() ==> 0 <= #[trigger] order[i] < before.len() && after[i]
            == before[order[i]]
    &&& forall|i: int, j: int|
        0 <= i < j < order.len() ==> #[trigger] order[i] != #[trigger] order[j]
}

/// Whether `after` holds the texts of `before`, each as often, in dictionary
/// order.
pub open spec fn texts_sorted(before: Seq<String>, after: Seq<String>) -> bool {
    &&& exists|order: Seq<int>| arranges(order, before, after)
    &&& forall|i: int, j: int|
        0 <= i < j < after.len() ==> text_le((#[trigger] after[i])@, (#[trigger] after[j])@)
}

/// Whether `list` is in dictionary order and holds nothing twice.
pub open spec fn strictly_ordered(list: Seq<String>) -> bool {
    forall|i: int, j: int|
        0 <= i < j < list.len() ==> text_le((#[trigger] list[i])@, (#[trigger] list[j])@) && list[i]@
            != list[j]@
}

/// Drop repeated texts from an ordered list.
pub fn dedup(list: Vec<String>) -> (r: Vec<String>)
    requires
        forall|i: int, j: int|
            0 <= i < j < list@.len() ==> text_le((#[trigger] list@[i])@, (#[trigger] list@[j])@),
    ensures
        strictly_ordered(r@),
        forall|t: Seq<char>| crate::text::holds(r@, t) == crate::text::holds(list@, t),
{
    let ghost before = list@;
    let mut rest = list;
    let mut r: Vec<String> = Vec::new();
    let ghost mut done: int = 0;
    while rest.len() > 0
        invariant
            0 <= done <= before.len(),
            rest@ == before.skip(done),
            forall|i: int, j: int|
                0 <= i < j < before.len() ==> text_le(
                    (#[trigger] before[i])@,
                    (#[trigger] before[j])@,
                ),
            strictly_ordered(r@),
            done > 0 ==> r@.len() > 0 && r@.last()@ == before[done - 1]@,
            done == 0 ==> r@.len() == 0,
            forall|i: int|
                0 <= i < r@.len() ==> exists|k: int|
                    0 <= k < done && (#[trigger] before[k]) == #[trigger] r@[i],
            forall|k: int|
                0 <= k < done ==> crate::text::holds(r@, (#[trigger] before[k])@),
        decreases rest@.len(),
    {
        let t = rest.remove(0);
        let ghost held = r@;
        assert(before.skip(done).remove(0) =~= before.skip(done + 1));
        assert(t == before[done]);
        let repeated = r.len() > 0 && crate::text::same(r[r.len() - 1].as_str(), t.as_str());
        if !repeated {
            r.push(t);
            proof {
                assert(r@[held.len() as int] == before[done]);
                assert forall|i: int, j: int| 0 <= i < j < r@.len() implies text_le(
                    (#[trigger] r@[i])@,
                    (#[trigger] r@[j])@,
                ) && r@[i]@ != r@[j]@ by {
                    if j == held.len() {
                        let k = choose|k: int| 0 <= k < done && (#[trigger] before[k]) == held[i];
                        assert(text_le(before[k]@, before[done]@));
                        assert(held.last()@ == before[done - 1]@);
                        if i < held.len() - 1 && r@[i]@ == t@ {
                            assert(text_le(before[done - 1]@, before[done]@));
                            assert(text_le(held[i]@, held[held.len() - 1]@));
                            crate::text::lemma_text_le_same(t@, held[held.len() - 1]@);
                        }
                    }
                }
                assert forall|k: int| 0 <= k < done + 1 implies crate::text::holds(
                    r@,
                    (#[trigger] before[k])@,
                ) by {
                    if k < done {
                        let i = choose|i: int|
                            0 <= i < held.len() && (#[trigger] held[i])@ == before[k]@;
                        assert(r@[i] == held[i]);
                    } else {
                        assert(r@[held.len() as int]@ == before[k]@);
                    }
                }
                assert forall|i: int| 0 <= i < r@.len() implies exists|k: int|
                    0 <= k < done + 1 && (#[trigger] before[k]) == #[trigger] r@[i] by {
                    if i < held.len() {
                        let k = choose|k: int| 0 <= k < done && (#[trigger] before[k]) == held[i];
                        assert(before[k] == r@[i]);
                    } else {
                        assert(before[done] == r@[i]);
                    }
                }
            }
        } else {
            proof {
                assert(held[held.len() - 1]@ == before[done]@);
            }
        }
        proof {
            done = done + 1;
        }
    }
    proof {
        assert forall|t: Seq<char>| crate::text::holds(r@, t) == crate::text::holds(before, t) by {
            if crate::text::holds(r@, t) {
                let i = choose|i: int| 0 <= i < r@.len() && (#[trigger] r@[i])@ == t;
                let k = choose|k: int| 0 <= k < done && (#[trigger] before[k]) == r@[i];
                assert(before[k]@ == t);
            }
            if crate::text::holds(before, t) {
                let k = choose|k: int| 0 <= k < before.len() && (#[trigger] before[k])@ == t;
                assert(crate::text::holds(r@, before[k]@));
            }
        }
    }
    r
}

} // verus!
