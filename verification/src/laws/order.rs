//! What holds of lists that are put in order.

use vstd::prelude::*;

use crate::journal::Newest;
use crate::order::{
    arranges, lemma_onto, reorders, stably_sorted, strictly_ordered, texts_sorted, Ranked,
};
use crate::path::{list_le, FileKey};
use crate::picker::Recency;
use crate::text::{text_le, views};

verus! {

/// Whether `order` is a list of all positions below `n`, each once.
pub open spec fn is_rearrangement(order: Seq<int>, n: nat) -> bool {
    &&& order.len() == n
    &&& forall|i: int| 0 <= i < n ==> 0 <= #[trigger] order[i] < n
    &&& forall|i: int, j: int| 0 <= i < j < n ==> #[trigger] order[i] != #[trigger] order[j]
}

/// Sorting keeps every item, as often as it was there, puts each behind those that
/// rank before it, and leaves items of the same rank in the order they had.
pub proof fn law_sorting_keeps_and_orders<K: Ranked, T>(before: Seq<(K, T)>, after: Seq<(K, T)>)
    requires
        stably_sorted(before, after),
    ensures
        after.len() == before.len(),
        exists|order: Seq<int>| #[trigger]
            is_rearrangement(order, before.len()) && (forall|i: int|
                0 <= i < after.len() ==> #[trigger] after[i] == before[order[i]]) && (forall|
                i: int,
                j: int,
            |
                0 <= i < j < after.len() && after[j].0.ranks(&after[i].0) ==> #[trigger] order[i]
                    < #[trigger] order[j]),
        forall|i: int, j: int|
            0 <= i < j < after.len() ==> (#[trigger] after[i]).0.ranks(&(#[trigger] after[j]).0),
        forall|v: int| 0 <= v < before.len() ==> after.contains(#[trigger] before[v]),
{
    let order = choose|order: Seq<int>| reorders(order, before, after);
    assert(is_rearrangement(order, before.len()));
    assert forall|i: int| 0 <= i < after.len() implies #[trigger] after[i] == before[order[i]] by {
        assert(0 <= order[i] < before.len());
    }
    assert forall|i: int, j: int| 0 <= i < j < after.len() implies (#[trigger] after[i]).0.ranks(
        &(#[trigger] after[j]).0,
    ) by {
        assert(order[i] != order[j]);
    }
    assert forall|v: int| 0 <= v < before.len() implies after.contains(#[trigger] before[v]) by {
        lemma_onto(order, before.len() as int, v);
        let i = choose|i: int| 0 <= i < before.len() && #[trigger] order[i] == v;
        assert(after[i] == before[v]);
    }
}

/// Sorting texts keeps every one, as often as it was there, in dictionary order.
pub proof fn law_sorted_texts(before: Seq<String>, after: Seq<String>)
    requires
        texts_sorted(before, after),
    ensures
        after.len() == before.len(),
        exists|order: Seq<int>| #[trigger]
            is_rearrangement(order, before.len()) && (forall|i: int|
                0 <= i < after.len() ==> #[trigger] after[i] == before[order[i]]),
        forall|i: int, j: int|
            0 <= i < j < after.len() ==> text_le((#[trigger] after[i])@, (#[trigger] after[j])@),
{
    let order = choose|order: Seq<int>| arranges(order, before, after);
    assert(is_rearrangement(order, before.len()));
}

/// A list in strict dictionary order holds nothing twice.
pub proof fn law_strict_order_holds_nothing_twice(list: Seq<String>, i: int, j: int)
    requires
        strictly_ordered(list),
        0 <= i < j < list.len(),
    ensures
        list[i]@ != list[j]@,
        text_le(list[i]@, list[j]@),
{
}

/// Numbers rank by size and texts by the dictionary. The newest session ranks first,
/// and one of unknown time last.
pub proof fn law_what_ranks_first(a: u64, b: u64, x: String, y: String)
    ensures
        a.ranks(&b) == (a <= b),
        x.ranks(&y) == text_le(x@, y@),
        Newest(Some(a)).ranks(&Newest(Some(b))) == (b <= a),
        Newest(Some(a)).ranks(&Newest(None)),
        !Newest(None).ranks(&Newest(Some(a))),
{
}

/// Workspaces with live work rank before others, then those that were entered later,
/// and of those the ones that were made later.
pub proof fn law_which_workspace_ranks_first(a: Recency, b: Recency)
    ensures
        a.live && !b.live ==> a.ranks(&b) && !b.ranks(&a),
        a.live == b.live && a.accessed > b.accessed ==> a.ranks(&b) && !b.ranks(&a),
        a.live == b.live && a.accessed == b.accessed && a.created > b.created ==> a.ranks(&b)
            && !b.ranks(&a),
        a == b ==> a.ranks(&b),
{
}

/// Files rank by their directory, and in one directory by the path below it, name by
/// name: the first that differs decides, and a path comes before what lies below it.
pub proof fn law_which_file_ranks_first(a: FileKey, b: FileKey, p: Seq<Seq<char>>, x: Seq<char>, y: Seq<char>)
    ensures
        views(a.root@) == views(b.root@) ==> a.ranks(&b) == list_le(
            views(a.relative@),
            views(b.relative@),
        ),
        views(a.root@) != views(b.root@) ==> a.ranks(&b) == list_le(views(a.root@), views(b.root@)),
        x != y ==> list_le(p.push(x), p.push(y)) == text_le(x, y),
        list_le(p, p.push(x)),
        !list_le(p.push(x), p),
{
    lemma_list_le(p, x, y);
}

proof fn lemma_list_le(p: Seq<Seq<char>>, x: Seq<char>, y: Seq<char>)
    ensures
        x != y ==> list_le(p.push(x), p.push(y)) == text_le(x, y),
        list_le(p, p.push(x)),
        !list_le(p.push(x), p),
    decreases p.len(),
{
    if p.len() > 0 {
        let q = p.skip(1);
        lemma_list_le(q, x, y);
        assert(p.push(x).skip(1) =~= q.push(x));
        assert(p.push(y).skip(1) =~= q.push(y));
        assert(p.push(x)[0] == p[0] && p.push(y)[0] == p[0]);
    } else {
        assert(p.push(x)[0] == x && p.push(y)[0] == y);
        assert(p.push(x).skip(1) =~= p.push(y).skip(1));
    }
}

} // verus!
