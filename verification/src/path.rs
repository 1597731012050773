//! Paths as text, with `/` between their names.

use vstd::prelude::*;

use crate::order::Ranked;
use crate::text::{
    chars_of, is_mark, join as join_texts, joined, lemma_pieces_some, lemma_text_le_chain,
    lemma_text_le_same, lemma_text_le_total, not_after, same, same_list, split_at_each, split_on,
    text_le, views,
};

verus! {

/// Whether a path starts at the root.
pub open spec fn rooted(path: Seq<char>) -> bool {
    path.len() > 0 && path[0] == '/'
}

/// Whether `path` starts at the root.
pub fn is_absolute(path: &str) -> (r: bool)
    ensures
        r == rooted(path@),
{
    let v = chars_of(path);
    v.len() > 0 && v[0] == '/'
}

/// `tail` taken against `base`: itself where it is absolute, and behind `base`
/// and a separator where it is not.
pub open spec fn under(base: Seq<char>, tail: Seq<char>) -> Seq<char> {
    if rooted(tail) {
        tail
    } else if base.len() == 0 || base.last() == '/' {
        base + tail
    } else {
        base.push('/') + tail
    }
}

/// `tail` taken against `base`.
pub fn join(base: &str, tail: &str) -> (r: String)
    ensures
        r@ == under(base@, tail@),
{
    if is_absolute(tail) {
        return tail.to_owned();
    }
    let v = chars_of(base);
    let mut r = base.to_owned();
    if v.len() > 0 && v[v.len() - 1] != '/' {
        r.push('/');
    }
    r.append(tail);
    r
}

// --- Names -------------------------------------------------------------------

/// The names among the pieces of a path: those that are not empty, and a
/// single dot only at the start of a relative path.
pub open spec fn kept_names(pieces: Seq<Seq<char>>) -> Seq<Seq<char>>
    decreases pieces.len(),
{
    if pieces.len() == 0 {
        Seq::empty()
    } else {
        let before = kept_names(pieces.drop_last());
        let last = pieces.last();
        if last.len() == 0 || (last == "."@ && pieces.len() > 1) {
            before
        } else {
            before.push(last)
        }
    }
}

/// The names a path is made of.
pub open spec fn names_in(path: Seq<char>) -> Seq<Seq<char>> {
    kept_names(split_at_each(path, '/'))
}

/// Which of the pieces of a path is the name with `k` names before it.
pub open spec fn piece_of(pieces: Seq<Seq<char>>, k: nat) -> int
    decreases pieces.len(),
{
    if pieces.len() == 0 {
        0
    } else if kept_names(pieces.drop_last()).len() > k {
        piece_of(pieces.drop_last(), k)
    } else {
        pieces.len() - 1
    }
}

/// The start of a path to the end of its first `n` names, as the path spells
/// it.
pub open spec fn upto(path: Seq<char>, n: nat) -> Seq<char> {
    let pieces = split_at_each(path, '/');
    if n > 0 {
        joined(pieces.take(piece_of(pieces, (n - 1) as nat) + 1), "/"@)
    } else if rooted(path) {
        "/"@
    } else {
        Seq::empty()
    }
}

/// A path from the name behind its first `n` to the end of its last, as the
/// path spells it.
pub open spec fn behind(path: Seq<char>, n: nat) -> Seq<char> {
    let pieces = split_at_each(path, '/');
    let all = names_in(path).len();
    if n < all {
        joined(
            pieces.subrange(piece_of(pieces, n), piece_of(pieces, (all - 1) as nat) + 1),
            "/"@,
        )
    } else {
        Seq::empty()
    }
}

/// Whether two texts spell the same path.
pub open spec fn same_place(a: Seq<char>, b: Seq<char>) -> bool {
    rooted(a) == rooted(b) && names_in(a) == names_in(b)
}

/// Whether `names` starts with `prefix`.
pub open spec fn leads(prefix: Seq<Seq<char>>, names: Seq<Seq<char>>) -> bool {
    prefix.len() <= names.len() && names.take(prefix.len() as int) == prefix
}

/// What is left of `path` below `base`, where it lies there, as `path` spells
/// it.
pub open spec fn below(path: Seq<char>, base: Seq<char>) -> Option<Seq<char>> {
    let names = names_in(path);
    let prefix = names_in(base);
    if !rooted(base) && prefix.len() == 0 {
        Some(upto(path, names.len()))
    } else if rooted(path) == rooted(base) && leads(prefix, names) {
        Some(behind(path, prefix.len()))
    } else {
        None
    }
}

/// How many parts a path has, the root among them.
pub open spec fn parts(path: Seq<char>) -> nat {
    names_in(path).len() + if rooted(path) {
        1nat
    } else {
        0nat
    }
}

/// The path that holds the last name of `path`.
pub open spec fn holder(path: Seq<char>) -> Option<Seq<char>> {
    let names = names_in(path);
    if names.len() == 0 {
        None
    } else {
        Some(upto(path, (names.len() - 1) as nat))
    }
}

/// The names `path` is made of.
pub fn names(path: &str) -> (r: Vec<String>)
    ensures
        views(r@) == names_in(path@),
{
    let pieces = split_on(path, '/');
    let ghost all = views(pieces@);
    let mut r: Vec<String> = Vec::new();
    let mut i: usize = 0;
    assert(all.take(0) =~= Seq::<Seq<char>>::empty());
    assert(views(r@) =~= Seq::<Seq<char>>::empty());
    while i < pieces.len()
        invariant
            i <= pieces@.len(),
            all == views(pieces@),
            views(r@) == kept_names(all.take(i as int)),
        decreases pieces.len() - i,
    {
        proof {
            assert(all.take(i + 1).drop_last() =~= all.take(i as int));
            assert(all.take(i + 1).last() == pieces@[i as int]@);
        }
        let piece = pieces[i].as_str();
        if !(piece.is_empty() || (same(piece, ".") && i > 0)) {
            let ghost had = views(r@);
            r.push(pieces[i].clone());
            assert(views(r@) =~= had.push(piece@));
        }
        i = i + 1;
    }
    assert(all.take(all.len() as int) =~= all);
    r
}

pub(crate) proof fn lemma_beginning(pieces: Seq<Seq<char>>, i: int)
    requires
        0 <= i <= pieces.len(),
    ensures
        kept_names(pieces.take(i)).len() <= kept_names(pieces).len(),
        kept_names(pieces.take(i)) == kept_names(pieces).take(
            kept_names(pieces.take(i)).len() as int,
        ),
    decreases pieces.len(),
{
    let n = kept_names(pieces.take(i)).len() as int;
    if i == pieces.len() {
        assert(pieces.take(i) =~= pieces);
        assert(kept_names(pieces).take(n) =~= kept_names(pieces));
    } else {
        lemma_beginning(pieces.drop_last(), i);
        assert(pieces.drop_last().take(i) =~= pieces.take(i));
        assert(kept_names(pieces).take(n) =~= kept_names(pieces.drop_last()).take(n));
    }
}

pub(crate) proof fn lemma_piece_of(pieces: Seq<Seq<char>>, k: nat)
    requires
        k < kept_names(pieces).len(),
    ensures
        ({
            let at = piece_of(pieces, k);
            &&& 0 <= at < pieces.len()
            &&& pieces[at].len() > 0
            &&& !(pieces[at] == "."@ && at > 0)
            &&& kept_names(pieces.take(at)).len() == k
            &&& kept_names(pieces.take(at + 1)).len() == k + 1
        }),
    decreases pieces.len(),
{
    let at = piece_of(pieces, k);
    if kept_names(pieces.drop_last()).len() > k {
        lemma_piece_of(pieces.drop_last(), k);
        assert(pieces.drop_last().take(at) =~= pieces.take(at));
        assert(pieces.drop_last().take(at + 1) =~= pieces.take(at + 1));
    } else {
        assert(pieces.take(at) =~= pieces.drop_last());
        assert(pieces.take(at + 1) =~= pieces);
    }
}

proof fn lemma_is_piece_of(pieces: Seq<Seq<char>>, k: nat, at: int)
    requires
        0 <= at < pieces.len(),
        kept_names(pieces.take(at)).len() == k,
        kept_names(pieces.take(at + 1)).len() == k + 1,
    ensures
        piece_of(pieces, k) == at,
    decreases pieces.len(),
{
    if at + 1 == pieces.len() {
        assert(pieces.take(at) =~= pieces.drop_last());
    } else {
        assert(pieces.drop_last().take(at) =~= pieces.take(at));
        assert(pieces.drop_last().take(at + 1) =~= pieces.take(at + 1));
        lemma_beginning(pieces.drop_last(), at + 1);
        lemma_is_piece_of(pieces.drop_last(), k, at);
    }
}

/// Which of the pieces is the name with `k` names before it.
fn find_piece(pieces: &Vec<String>, k: usize) -> (at: usize)
    requires
        k < kept_names(views(pieces@)).len(),
    ensures
        at == piece_of(views(pieces@), k as nat),
        at < pieces@.len(),
        at < usize::MAX,
{
    let ghost all = views(pieces@);
    let mut seen: usize = 0;
    let mut i: usize = 0;
    assert(all.take(0) =~= Seq::<Seq<char>>::empty());
    while i < pieces.len()
        invariant
            i <= pieces@.len(),
            all == views(pieces@),
            seen == kept_names(all.take(i as int)).len(),
            seen <= k,
            k < kept_names(all).len(),
        decreases pieces.len() - i,
    {
        proof {
            assert(all.take(i + 1).drop_last() =~= all.take(i as int));
            assert(all.take(i + 1).last() == pieces@[i as int]@);
        }
        let piece = pieces[i].as_str();
        if !(piece.is_empty() || (same(piece, ".") && i > 0)) {
            if seen == k {
                proof {
                    lemma_is_piece_of(all, k as nat, i as int);
                }
                return i;
            }
            seen = seen + 1;
        }
        i = i + 1;
    }
    assert(all.take(all.len() as int) =~= all);
    i
}

/// The start of a path to the end of its first `n` names.
fn start_of(path: &str, pieces: &Vec<String>, n: usize) -> (r: String)
    requires
        views(pieces@) == split_at_each(path@, '/'),
        n <= names_in(path@).len(),
    ensures
        r@ == upto(path@, n as nat),
{
    if n > 0 {
        let at = find_piece(pieces, n - 1);
        let head = part_of(pieces, 0, at + 1);
        assert(views(head@) =~= views(pieces@).take(at + 1));
        join_texts(&head, "/")
    } else if is_absolute(path) {
        "/".to_owned()
    } else {
        String::new()
    }
}

/// The texts of `list` from `from` to before `to`.
fn part_of(list: &Vec<String>, from: usize, to: usize) -> (r: Vec<String>)
    requires
        from <= to <= list@.len(),
    ensures
        views(r@) == views(list@).subrange(from as int, to as int),
{
    let mut r: Vec<String> = Vec::new();
    let mut i: usize = from;
    assert(views(r@) =~= views(list@).subrange(from as int, from as int));
    while i < to
        invariant
            from <= i <= to <= list@.len(),
            views(r@) == views(list@).subrange(from as int, i as int),
        decreases to - i,
    {
        let ghost had = views(r@);
        r.push(list[i].clone());
        assert(views(r@) =~= had.push(list@[i as int]@));
        assert(views(list@).subrange(from as int, i + 1) =~= views(list@).subrange(
            from as int,
            i as int,
        ).push(list@[i as int]@));
        i = i + 1;
    }
    r
}

/// What is left of `path` below `base`, where it lies there.
pub fn strip_prefix(path: &str, base: &str) -> (r: Option<String>)
    ensures
        match r {
            Some(rest) => below(path@, base@) == Some(rest@),
            None => below(path@, base@) is None,
        },
{
    let pieces = split_on(path, '/');
    let all = names(path);
    let prefix = names(base);
    let root = is_absolute(path);
    let base_root = is_absolute(base);
    assert(views(all@).len() == all@.len());
    assert(views(prefix@).len() == prefix@.len());
    if !base_root && prefix.len() == 0 {
        return Some(start_of(path, &pieces, all.len()));
    }
    if root != base_root || prefix.len() > all.len() {
        return None;
    }
    let head = part_of(&all, 0, prefix.len());
    assert(views(all@).subrange(0, prefix@.len() as int) =~= views(all@).take(
        prefix@.len() as int,
    ));
    if !same_list(&head, &prefix) {
        return None;
    }
    if prefix.len() == all.len() {
        return Some(String::new());
    }
    let from = find_piece(&pieces, prefix.len());
    let last = find_piece(&pieces, all.len() - 1);
    proof {
        lemma_pieces_in_order(views(pieces@), prefix@.len(), (all@.len() - 1) as nat);
    }
    Some(join_texts(&part_of(&pieces, from, last + 1), "/"))
}

pub(crate) proof fn lemma_pieces_in_order(pieces: Seq<Seq<char>>, k: nat, l: nat)
    requires
        k <= l < kept_names(pieces).len(),
    ensures
        piece_of(pieces, k) <= piece_of(pieces, l) < pieces.len(),
{
    let a = piece_of(pieces, k);
    let b = piece_of(pieces, l);
    lemma_piece_of(pieces, k);
    lemma_piece_of(pieces, l);
    if b < a {
        lemma_beginning(pieces.take(a), b + 1);
        assert(pieces.take(a).take(b + 1) =~= pieces.take(b + 1));
    }
}

// --- There and back ----------------------------------------------------------

pub(crate) proof fn lemma_no_mark_left(s: Seq<char>, mark: char)
    ensures
        forall|i: int|
            0 <= i < split_at_each(s, mark).len() ==> !(#[trigger] split_at_each(
                s,
                mark,
            )[i]).contains(mark),
    decreases s.len(),
{
    let all = split_at_each(s, mark);
    if s.len() > 0 {
        let before = split_at_each(s.drop_last(), mark);
        lemma_no_mark_left(s.drop_last(), mark);
        lemma_pieces_some(s.drop_last(), is_mark(mark));
        assert forall|i: int| 0 <= i < all.len() implies !(#[trigger] all[i]).contains(mark) by {
            if i < before.len() {
                assert(!before[i].contains(mark));
                assert forall|j: int| 0 <= j < all[i].len() implies all[i][j] != mark by {
                    if j < before[i].len() {
                        assert(all[i][j] == before[i][j]);
                    }
                }
            }
        }
    }
}

pub(crate) proof fn lemma_whole(s: Seq<char>, mark: char)
    requires
        !s.contains(mark),
    ensures
        split_at_each(s, mark) == seq![s],
    decreases s.len(),
{
    if s.len() > 0 {
        assert(s.contains(s[s.len() - 1]));
        assert forall|i: int| 0 <= i < s.drop_last().len() implies s.drop_last()[i] != mark by {
            assert(s.contains(s[i]));
        }
        lemma_whole(s.drop_last(), mark);
        assert(s.drop_last().push(s.last()) =~= s);
        assert(split_at_each(s, mark) =~= seq![s]);
    } else {
        assert(s =~= Seq::<char>::empty());
    }
}

pub(crate) proof fn lemma_split_at_a_mark(a: Seq<char>, b: Seq<char>, mark: char)
    ensures
        split_at_each(a.push(mark) + b, mark) == split_at_each(a, mark) + split_at_each(b, mark),
    decreases b.len(),
{
    let whole = a.push(mark) + b;
    lemma_pieces_some(b, is_mark(mark));
    if b.len() == 0 {
        assert(whole.drop_last() =~= a);
        assert(split_at_each(whole, mark) =~= split_at_each(a, mark) + split_at_each(b, mark));
    } else {
        lemma_split_at_a_mark(a, b.drop_last(), mark);
        lemma_pieces_some(b.drop_last(), is_mark(mark));
        assert(whole.drop_last() =~= a.push(mark) + b.drop_last());
        assert(whole.last() == b.last());
        assert(split_at_each(whole, mark) =~= split_at_each(a, mark) + split_at_each(b, mark));
    }
}

pub(crate) proof fn lemma_split_joined(list: Seq<Seq<char>>)
    requires
        list.len() > 0,
        forall|i: int| 0 <= i < list.len() ==> !(#[trigger] list[i]).contains('/'),
    ensures
        split_at_each(joined(list, "/"@), '/') == list,
    decreases list.len(),
{
    assert(!list[list.len() - 1].contains('/'));
    lemma_whole(list.last(), '/');
    if list.len() == 1 {
        assert(list =~= seq![list[0]]);
    } else {
        assert forall|i: int| 0 <= i < list.drop_last().len() implies !(
        #[trigger] list.drop_last()[i]).contains('/') by {
            assert(!list[i].contains('/'));
        }
        lemma_split_joined(list.drop_last());
        let before = joined(list.drop_last(), "/"@);
        reveal_strlit("/");
        assert(before + "/"@ + list.last() =~= before.push('/') + list.last());
        lemma_split_at_a_mark(before, list.last(), '/');
        assert(list.drop_last() + seq![list.last()] =~= list);
    }
}

pub(crate) proof fn lemma_first_piece(s: Seq<char>)
    requires
        s.len() > 0,
    ensures
        split_at_each(s, '/').len() > 0,
        (split_at_each(s, '/')[0].len() == 0) == (s[0] == '/'),
        s[0] == '/' ==> split_at_each(s, '/').len() > 1,
    decreases s.len(),
{
    lemma_pieces_some(s, is_mark('/'));
    lemma_pieces_some(s.drop_last(), is_mark('/'));
    if s.len() > 1 {
        lemma_first_piece(s.drop_last());
    } else {
        assert(s.drop_last() =~= Seq::<char>::empty());
    }
}

pub(crate) proof fn lemma_names_of_both(x: Seq<Seq<char>>, y: Seq<Seq<char>>)
    requires
        y.len() > 0 && x.len() > 0 ==> y[0] != "."@,
    ensures
        kept_names(x + y) == kept_names(x) + kept_names(y),
    decreases y.len(),
{
    if y.len() == 0 {
        assert(x + y =~= x);
        assert(kept_names(x) + kept_names(y) =~= kept_names(x));
    } else {
        lemma_names_of_both(x, y.drop_last());
        assert((x + y).drop_last() =~= x + y.drop_last());
        assert(kept_names(x + y) =~= kept_names(x) + kept_names(y));
    }
}

/// An empty path has no names.
pub proof fn lemma_no_names(s: Seq<char>)
    requires
        s.len() == 0,
    ensures
        names_in(s) == Seq::<Seq<char>>::empty(),
{
    assert(split_at_each(s, '/') =~= seq![Seq::<char>::empty()]);
    reveal_with_fuel(kept_names, 2);
    assert(seq![Seq::<char>::empty()].drop_last() =~= Seq::<Seq<char>>::empty());
}

/// A relative path without names is empty.
pub proof fn lemma_no_names_is_empty(s: Seq<char>)
    requires
        !rooted(s),
        names_in(s).len() == 0,
    ensures
        s.len() == 0,
{
    if s.len() > 0 {
        let pieces = split_at_each(s, '/');
        lemma_first_piece(s);
        lemma_beginning(pieces, 1);
        assert(pieces.take(1).drop_last() =~= Seq::<Seq<char>>::empty());
        assert(pieces.take(1).last() == pieces[0]);
    }
}

pub(crate) proof fn lemma_ended(base: Seq<char>)
    ensures
        names_in(base.push('/')) == names_in(base),
{
    let empty = Seq::<char>::empty();
    lemma_split_at_a_mark(base, empty, '/');
    assert(base.push('/') + empty =~= base.push('/'));
    assert(split_at_each(empty, '/') =~= seq![empty]);
    reveal_strlit(".");
    lemma_names_of_both(split_at_each(base, '/'), seq![empty]);
    lemma_no_names(empty);
    assert(names_in(base) + Seq::<Seq<char>>::empty() =~= names_in(base));
}

/// The start of a path to the end of its first names has those names, and
/// starts at the root where the path does.
pub proof fn lemma_upto(path: Seq<char>, n: nat)
    requires
        n <= names_in(path).len(),
    ensures
        rooted(upto(path, n)) == rooted(path),
        names_in(upto(path, n)) == names_in(path).take(n as int),
{
    let pieces = split_at_each(path, '/');
    if n > 0 {
        let at = piece_of(pieces, (n - 1) as nat);
        lemma_piece_of(pieces, (n - 1) as nat);
        let head = pieces.take(at + 1);
        let start = joined(head, "/"@);
        lemma_no_mark_left(path, '/');
        assert forall|i: int| 0 <= i < head.len() implies !(#[trigger] head[i]).contains('/') by {
            assert(!pieces[i].contains('/'));
        }
        lemma_split_joined(head);
        lemma_beginning(pieces, at + 1);
        if path.len() == 0 {
            lemma_no_names(path);
        }
        if start.len() == 0 {
            lemma_no_names(start);
        }
        lemma_first_piece(path);
        lemma_first_piece(start);
        assert(head[0] == pieces[0]);
    } else {
        assert(names_in(path).take(0) =~= Seq::<Seq<char>>::empty());
        lemma_no_names(Seq::empty());
        reveal_strlit("/");
        assert("/"@ =~= Seq::<char>::empty().push('/'));
        lemma_ended(Seq::empty());
    }
}

pub(crate) proof fn lemma_behind(path: Seq<char>, n: nat)
    requires
        n < names_in(path).len(),
        n > 0 || rooted(path),
    ensures
        ({
            let rest = behind(path, n);
            let pieces = split_at_each(rest, '/');
            &&& !rooted(rest)
            &&& pieces.len() > 0
            &&& pieces[0] != "."@
            &&& names_in(rest) == names_in(path).skip(n as int)
        }),
{
    let pieces = split_at_each(path, '/');
    let all = names_in(path).len();
    let from = piece_of(pieces, n);
    let to = piece_of(pieces, (all - 1) as nat) + 1;
    lemma_piece_of(pieces, n);
    lemma_piece_of(pieces, (all - 1) as nat);
    lemma_pieces_in_order(pieces, n, (all - 1) as nat);
    let part = pieces.subrange(from, to);
    let rest = joined(part, "/"@);
    lemma_no_mark_left(path, '/');
    assert forall|i: int| 0 <= i < part.len() implies !(#[trigger] part[i]).contains('/') by {
        assert(!pieces[from + i].contains('/'));
    }
    lemma_split_joined(part);
    assert(part[0] == pieces[from]);
    if rest.len() > 0 {
        lemma_first_piece(rest);
    }
    if from == 0 {
        assert(pieces.take(0) =~= Seq::<Seq<char>>::empty());
        lemma_first_piece(path);
    }
    assert(pieces.take(from) + part =~= pieces.take(to));
    lemma_names_of_both(pieces.take(from), part);
    lemma_beginning(pieces, from);
    lemma_beginning(pieces, to);
    assert(names_in(path).take(all as int) =~= names_in(path));
    assert(names_in(path).take(n as int) + kept_names(part) == names_in(path));
    assert(kept_names(part) =~= names_in(path).skip(n as int));
}

/// What is left of a path below another leads back to it: taken against the
/// other, it is the same path.
pub proof fn law_what_is_left_leads_back(path: Seq<char>, base: Seq<char>)
    requires
        below(path, base) is Some,
    ensures
        same_place(under(base, below(path, base)->Some_0), path),
{
    let rest = below(path, base)->Some_0;
    let names = names_in(path);
    let prefix = names_in(base);
    if !rooted(base) && prefix.len() == 0 {
        lemma_no_names_is_empty(base);
        assert(base + rest =~= rest);
        lemma_upto(path, names.len());
        assert(names.take(names.len() as int) =~= names);
    } else {
        if base.len() == 0 {
            lemma_no_names(base);
        }
        assert(names =~= prefix + names.skip(prefix.len() as int));
        if prefix.len() < names.len() {
            lemma_behind(path, prefix.len());
            let pieces = split_at_each(rest, '/');
            if base.last() == '/' {
                let start = base.drop_last();
                assert(start.push('/') =~= base);
                lemma_ended(start);
                lemma_split_at_a_mark(start, rest, '/');
                lemma_names_of_both(split_at_each(start, '/'), pieces);
            } else {
                lemma_split_at_a_mark(base, rest, '/');
                lemma_names_of_both(split_at_each(base, '/'), pieces);
            }
        } else {
            assert(names =~= prefix);
            lemma_ended(base);
            assert(base + rest =~= base);
            assert(base.push('/') + rest =~= base.push('/'));
        }
    }
}

/// How many parts `path` has, the root among them.
pub fn depth(path: &str) -> (r: u128)
    ensures
        r == parts(path@),
{
    let all = names(path);
    assert(views(all@).len() == all@.len());
    if is_absolute(path) {
        all.len() as u128 + 1
    } else {
        all.len() as u128
    }
}

/// The path that holds the last name of `path`.
pub fn parent(path: &str) -> (r: Option<String>)
    ensures
        match r {
            Some(p) => holder(path@) == Some(p@),
            None => holder(path@) is None,
        },
{
    let all = names(path);
    assert(views(all@).len() == all@.len());
    if all.len() == 0 {
        return None;
    }
    Some(start_of(path, &split_on(path, '/'), all.len() - 1))
}

/// A path and the paths that hold it, innermost first.
pub open spec fn ancestry(path: Seq<char>) -> Seq<Seq<char>> {
    let names = names_in(path);
    Seq::new(
        names.len() + 1,
        |i: int|
            if i == 0 {
                path
            } else {
                upto(path, (names.len() - i) as nat)
            },
    )
}

/// `path` and the paths that hold it, innermost first.
pub fn ancestors(path: &str) -> (r: Vec<String>)
    ensures
        views(r@) == ancestry(path@),
{
    let all = names(path);
    let pieces = split_on(path, '/');
    let ghost line = ancestry(path@);
    assert(views(all@).len() == all@.len());
    let mut r: Vec<String> = Vec::new();
    r.push(path.to_owned());
    assert(views(r@) =~= line.take(1));
    let count: usize = all.len();
    let mut left: usize = count;
    while left > 0
        invariant
            left <= count == all@.len(),
            views(pieces@) == split_at_each(path@, '/'),
            views(all@) == names_in(path@),
            line == ancestry(path@),
            views(all@).len() == all@.len(),
            views(r@) == line.take(count - left + 1),
        decreases left,
    {
        left = left - 1;
        let up = start_of(path, &pieces, left);
        let ghost had = views(r@);
        let ghost i = count - left;
        r.push(up);
        assert(views(r@) =~= had.push(up@));
        assert(line[i] == up@);
        assert(line.take(i + 1) =~= line.take(i).push(line[i]));
    }
    assert(line.take(line.len() as int) =~= line);
    r
}

/// The last name of `path`, where it is neither the root nor a step up.
pub open spec fn last_name(path: Seq<char>) -> Option<Seq<char>> {
    let names = names_in(path);
    if names.len() == 0 || names.last() == ".."@ || names.last() == "."@ {
        None
    } else {
        Some(names.last())
    }
}

/// The last name of `path`.
pub fn file_name(path: &str) -> (r: Option<String>)
    ensures
        match r {
            Some(name) => last_name(path@) == Some(name@),
            None => last_name(path@) is None,
        },
{
    let all = names(path);
    assert(views(all@).len() == all@.len());
    if all.len() == 0 {
        return None;
    }
    let name = all[all.len() - 1].clone();
    assert(views(all@).last() == name@);
    if same(name.as_str(), "..") || same(name.as_str(), ".") {
        None
    } else {
        Some(name)
    }
}

/// Whether two texts spell the same path.
pub fn same_path(a: &str, b: &str) -> (r: bool)
    ensures
        r == same_place(a@, b@),
{
    is_absolute(a) == is_absolute(b) && same_list(&names(a), &names(b))
}

// --- Order -------------------------------------------------------------------

/// A part of a path as it is ordered: the root, then a dot, then two dots, then
/// names.
pub open spec fn part_key(name: Seq<char>) -> Seq<char> {
    if name == "."@ {
        seq!['1']
    } else if name == ".."@ {
        seq!['2']
    } else {
        seq!['3'] + name
    }
}

/// The parts of a path as they are ordered.
pub open spec fn path_key(path: Seq<char>) -> Seq<Seq<char>> {
    let rest = names_in(path).map_values(|n: Seq<char>| part_key(n));
    if rooted(path) {
        seq![seq!['0']] + rest
    } else {
        rest
    }
}

/// The order of lists of texts, text by text.
pub open spec fn list_le(a: Seq<Seq<char>>, b: Seq<Seq<char>>) -> bool
    decreases a.len(),
{
    if a.len() == 0 {
        true
    } else if b.len() == 0 {
        false
    } else if a[0] != b[0] {
        text_le(a[0], b[0])
    } else {
        list_le(a.skip(1), b.skip(1))
    }
}

proof fn lemma_list_le_total(a: Seq<Seq<char>>, b: Seq<Seq<char>>)
    ensures
        list_le(a, b) || list_le(b, a),
    decreases a.len(),
{
    if a.len() > 0 && b.len() > 0 {
        if a[0] == b[0] {
            lemma_list_le_total(a.skip(1), b.skip(1));
        } else {
            lemma_text_le_total(a[0], b[0]);
        }
    }
}

proof fn lemma_list_le_same(a: Seq<Seq<char>>, b: Seq<Seq<char>>)
    requires
        list_le(a, b),
        list_le(b, a),
    ensures
        a == b,
    decreases a.len(),
{
    if a.len() > 0 && b.len() > 0 {
        if a[0] != b[0] {
            lemma_text_le_same(a[0], b[0]);
        }
        lemma_list_le_same(a.skip(1), b.skip(1));
        assert(a =~= seq![a[0]] + a.skip(1));
        assert(b =~= seq![b[0]] + b.skip(1));
    } else {
        assert(a =~= b);
    }
}

proof fn lemma_list_le_chain(a: Seq<Seq<char>>, b: Seq<Seq<char>>, c: Seq<Seq<char>>)
    requires
        list_le(a, b),
        list_le(b, c),
    ensures
        list_le(a, c),
    decreases a.len(),
{
    if a.len() > 0 && b.len() > 0 && c.len() > 0 {
        if a[0] == b[0] && b[0] == c[0] {
            lemma_list_le_chain(a.skip(1), b.skip(1), c.skip(1));
        } else if a[0] != b[0] && b[0] != c[0] {
            lemma_text_le_chain(a[0], b[0], c[0]);
            if a[0] == c[0] {
                lemma_text_le_same(a[0], b[0]);
            }
        }
    }
}

fn list_not_after(a: &Vec<String>, b: &Vec<String>) -> (r: bool)
    ensures
        r == list_le(views(a@), views(b@)),
{
    let ghost x = views(a@);
    let ghost y = views(b@);
    let mut i: usize = 0;
    assert(x.skip(0) =~= x);
    assert(y.skip(0) =~= y);
    while i < a.len() && i < b.len() && same(a[i].as_str(), b[i].as_str())
        invariant
            i <= a@.len(),
            i <= b@.len(),
            x == views(a@),
            y == views(b@),
            list_le(x, y) == list_le(x.skip(i as int), y.skip(i as int)),
        decreases a.len() - i,
    {
        assert(x.skip(i as int)[0] == a@[i as int]@);
        assert(y.skip(i as int)[0] == b@[i as int]@);
        assert(x.skip(i as int).skip(1) =~= x.skip(i + 1));
        assert(y.skip(i as int).skip(1) =~= y.skip(i + 1));
        i = i + 1;
    }
    if i == a.len() {
        true
    } else if i == b.len() {
        false
    } else {
        assert(x.skip(i as int)[0] == a@[i as int]@);
        assert(y.skip(i as int)[0] == b@[i as int]@);
        not_after(a[i].as_str(), b[i].as_str())
    }
}

/// The place of a file in a list that is ordered by directory and then by the
/// path below it.
pub struct FileKey {
    pub root: Vec<String>,
    pub relative: Vec<String>,
}

/// Whether one pair of a directory and a path below it may stand before
/// another.
pub open spec fn pair_le(
    root: Seq<Seq<char>>,
    relative: Seq<Seq<char>>,
    other_root: Seq<Seq<char>>,
    other_relative: Seq<Seq<char>>,
) -> bool {
    if root != other_root {
        list_le(root, other_root)
    } else {
        list_le(relative, other_relative)
    }
}

impl Ranked for FileKey {
    open spec fn ranks(&self, other: &Self) -> bool {
        pair_le(
            views(self.root@),
            views(self.relative@),
            views(other.root@),
            views(other.relative@),
        )
    }

    proof fn rank_total(a: &Self, b: &Self) {
        lemma_list_le_total(views(a.root@), views(b.root@));
        lemma_list_le_total(views(a.relative@), views(b.relative@));
    }

    proof fn rank_chain(a: &Self, b: &Self, c: &Self) {
        let (x, y, z) = (views(a.root@), views(b.root@), views(c.root@));
        if x == y && y == z {
            lemma_list_le_chain(views(a.relative@), views(b.relative@), views(c.relative@));
        } else if x != y && y != z {
            lemma_list_le_chain(x, y, z);
            if x == z {
                lemma_list_le_same(x, y);
            }
        }
    }

    fn may_precede(&self, other: &Self) -> (r: bool) {
        if same_list(&self.root, &other.root) {
            list_not_after(&self.relative, &other.relative)
        } else {
            list_not_after(&self.root, &other.root)
        }
    }
}

/// The parts of `path` as they are ordered.
pub fn key(path: &str) -> (r: Vec<String>)
    ensures
        views(r@) == path_key(path@),
{
    let all = names(path);
    let ghost listed = views(all@);
    let ghost keyed = listed.map_values(|n: Seq<char>| part_key(n));
    let mut r: Vec<String> = Vec::new();
    if is_absolute(path) {
        let mut root = String::new();
        root.push('0');
        r.push(root);
    }
    let ghost head = views(r@);
    assert(rooted(path@) ==> head =~= seq![seq!['0']]);
    assert(!rooted(path@) ==> head =~= Seq::<Seq<char>>::empty());
    let mut i: usize = 0;
    assert(head + keyed.take(0) =~= head);
    while i < all.len()
        invariant
            i <= all@.len(),
            listed == views(all@),
            keyed == listed.map_values(|n: Seq<char>| part_key(n)),
            views(r@) == head + keyed.take(i as int),
        decreases all.len() - i,
    {
        let name = all[i].as_str();
        let mut part = String::new();
        if same(name, ".") {
            part.push('1');
        } else if same(name, "..") {
            part.push('2');
        } else {
            part.push('3');
            part.append(name);
        }
        proof {
            assert(listed[i as int] == name@);
            assert(part@ =~= part_key(name@));
            assert(keyed.take(i + 1) =~= keyed.take(i as int).push(part@));
        }
        let ghost had = views(r@);
        r.push(part);
        assert(views(r@) =~= had.push(part@));
        assert(had.push(part@) =~= head + keyed.take(i + 1));
        i = i + 1;
    }
    assert(keyed.take(all@.len() as int) =~= keyed);
    assert(!rooted(path@) ==> head + keyed =~= keyed);
    r
}

} // verus!
