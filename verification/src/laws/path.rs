//! What holds of paths, name by name.

use vstd::prelude::*;

use crate::laws::text::{
    law_a_text_without_the_mark_is_whole, law_cutting_at_a_mark, law_joining_is_undone_by_cutting,
};
use crate::path::{
    ancestry, below, holder, kept_names, last_name, law_what_is_left_leads_back, lemma_ended,
    lemma_first_piece, lemma_names_of_both, lemma_no_names, lemma_upto, names_in, parts, rooted,
    same_place, under,
};
use crate::text::{is_mark, joined, lemma_pieces_some, split_at_each};

verus! {

/// Whether a text is a name: something without a slash, and no single dot.
pub open spec fn is_name(s: Seq<char>) -> bool {
    s.len() > 0 && !s.contains('/') && s != "."@
}

/// Whether all of the texts are names.
pub open spec fn are_names(list: Seq<Seq<char>>) -> bool {
    forall|i: int| 0 <= i < list.len() ==> is_name(#[trigger] list[i])
}

proof fn lemma_all_kept(list: Seq<Seq<char>>)
    requires
        are_names(list),
    ensures
        kept_names(list) == list,
    decreases list.len(),
{
    if list.len() > 0 {
        let before = list.drop_last();
        assert forall|i: int| 0 <= i < before.len() implies is_name(#[trigger] before[i]) by {
            assert(is_name(list[i]));
        }
        lemma_all_kept(before);
        assert(is_name(list[list.len() - 1]));
        assert(before.push(list.last()) =~= list);
    } else {
        assert(list =~= Seq::<Seq<char>>::empty());
    }
}

/// Names with slashes between them are the names of the path, with a slash in front
/// or without. With one in front, and only then, the path starts at the root.
pub proof fn law_names_stand_between_slashes(list: Seq<Seq<char>>)
    requires
        list.len() > 0,
        are_names(list),
    ensures
        names_in(joined(list, seq!['/'])) == list,
        !rooted(joined(list, seq!['/'])),
        names_in(seq!['/'] + joined(list, seq!['/'])) == list,
        rooted(seq!['/'] + joined(list, seq!['/'])),
        names_in(seq!['/']) == Seq::<Seq<char>>::empty(),
        names_in(Seq::empty()) == Seq::<Seq<char>>::empty(),
{
    let path = joined(list, seq!['/']);
    let none = Seq::<char>::empty();
    assert forall|i: int| 0 <= i < list.len() implies !(#[trigger] list[i]).contains('/') by {
        assert(is_name(list[i]));
    }
    law_joining_is_undone_by_cutting(list, '/');
    lemma_all_kept(list);
    assert(is_name(list[0]));
    lemma_no_names(none);
    if path.len() > 0 {
        lemma_first_piece(path);
    }
    assert(none.push('/') + path =~= seq!['/'] + path);
    law_cutting_at_a_mark(none, path, '/');
    law_a_text_without_the_mark_is_whole(none, '/');
    lemma_names_of_both(seq![none], list);
    assert(kept_names(seq![none]) == names_in(none));
    assert(Seq::<Seq<char>>::empty() + list =~= list);
    lemma_ended(none);
    assert(none.push('/') =~= seq!['/']);
}

proof fn lemma_nothing_between(x: Seq<Seq<char>>, idle: Seq<char>, y: Seq<Seq<char>>)
    requires
        x.len() > 0,
        idle.len() == 0 || idle == "."@,
    ensures
        kept_names(x + seq![idle] + y) == kept_names(x + y),
    decreases y.len(),
{
    let with = x + seq![idle] + y;
    if y.len() == 0 {
        assert(with.drop_last() =~= x);
        assert(with.last() == idle);
        assert(x + y =~= x);
    } else {
        lemma_nothing_between(x, idle, y.drop_last());
        assert(with.drop_last() =~= x + seq![idle] + y.drop_last());
        assert((x + y).drop_last() =~= x + y.drop_last());
    }
}

/// Slashes that follow one another count as one, and so does a single dot between
/// two.
pub proof fn law_empty_steps_make_no_difference(a: Seq<char>, b: Seq<char>)
    ensures
        names_in(a.push('/').push('/') + b) == names_in(a.push('/') + b),
        names_in(a.push('/').push('.').push('/') + b) == names_in(a.push('/') + b),
{
    let none = Seq::<char>::empty();
    reveal_strlit(".");
    let dot = seq!['.'];
    assert("."@ =~= dot);
    let x = split_at_each(a, '/');
    let y = split_at_each(b, '/');
    lemma_pieces_some(a, is_mark('/'));
    law_cutting_at_a_mark(a, b, '/');
    law_a_text_without_the_mark_is_whole(none, '/');
    law_a_text_without_the_mark_is_whole(dot, '/');
    law_cutting_at_a_mark(a, none.push('/') + b, '/');
    law_cutting_at_a_mark(none, b, '/');
    assert(a.push('/') + (none.push('/') + b) =~= a.push('/').push('/') + b);
    assert(x + (seq![none] + y) =~= x + seq![none] + y);
    lemma_nothing_between(x, none, y);
    law_cutting_at_a_mark(a, dot.push('/') + b, '/');
    law_cutting_at_a_mark(dot, b, '/');
    assert(a.push('/') + (dot.push('/') + b) =~= a.push('/').push('.').push('/') + b);
    assert(x + (seq![dot] + y) =~= x + seq![dot] + y);
    lemma_nothing_between(x, dot, y);
}

/// A path taken against another goes on from it, name by name, and an absolute one
/// stands for itself.
pub proof fn law_a_path_goes_on_from_its_base(base: Seq<char>, list: Seq<Seq<char>>, tail: Seq<char>)
    requires
        list.len() > 0,
        are_names(list),
    ensures
        rooted(tail) ==> under(base, tail) == tail,
        rooted(under(base, joined(list, seq!['/']))) == rooted(base),
        names_in(under(base, joined(list, seq!['/']))) == names_in(base) + list,
        !rooted(tail) ==> under(base, tail).len() >= base.len() && under(base, tail).take(
            base.len() as int,
        ) == base,
{
    let rest = joined(list, seq!['/']);
    law_names_stand_between_slashes(list);
    assert forall|i: int| 0 <= i < list.len() implies !(#[trigger] list[i]).contains('/') by {
        assert(is_name(list[i]));
    }
    law_joining_is_undone_by_cutting(list, '/');
    assert(is_name(list[0]));
    lemma_no_names(Seq::<char>::empty());
    if base.len() == 0 {
        assert(base =~= Seq::<char>::empty());
        assert(base + rest =~= rest);
        assert(names_in(base) + list =~= list);
    } else if base.last() == '/' {
        let start = base.drop_last();
        assert(start.push('/') =~= base);
        lemma_ended(start);
        law_cutting_at_a_mark(start, rest, '/');
        lemma_names_of_both(split_at_each(start, '/'), list);
    } else {
        law_cutting_at_a_mark(base, rest, '/');
        lemma_names_of_both(split_at_each(base, '/'), list);
    }
    if !rooted(tail) {
        assert(under(base, tail).take(base.len() as int) =~= base);
    }
}

/// A path lies below another exactly where it starts with the other's names, from the
/// root or not as the other does. What is left are the names behind them. Every path
/// lies below the empty one.
pub proof fn law_what_lies_below(path: Seq<char>, base: Seq<char>)
    ensures
        (below(path, base) is Some) == ((!rooted(base) && names_in(base).len() == 0) || (rooted(path)
            == rooted(base) && names_in(base).len() <= names_in(path).len() && forall|i: int|
            0 <= i < names_in(base).len() ==> #[trigger] names_in(base)[i] == names_in(path)[i])),
        below(path, base) is Some ==> same_place(under(base, below(path, base)->Some_0), path),
{
    let names = names_in(path);
    let prefix = names_in(base);
    if prefix.len() <= names.len() {
        if names.take(prefix.len() as int) == prefix {
            assert forall|i: int| 0 <= i < prefix.len() implies #[trigger] prefix[i] == names[i] by {
                assert(names.take(prefix.len() as int)[i] == names[i]);
            }
        }
        if forall|i: int| 0 <= i < prefix.len() ==> #[trigger] prefix[i] == names[i] {
            assert(names.take(prefix.len() as int) =~= prefix);
        }
    }
    if below(path, base) is Some {
        law_what_is_left_leads_back(path, base);
    }
}

/// The directory that holds a path has all of its names but the last, and the last is
/// the file's name, unless it leads up. The root and the empty path have neither.
pub proof fn law_a_path_is_its_directory_and_its_name(path: Seq<char>)
    ensures
        (holder(path) is None) == (names_in(path).len() == 0),
        holder(path) matches Some(directory) ==> rooted(directory) == rooted(path) && names_in(
            directory,
        ) == names_in(path).drop_last(),
        last_name(path) matches Some(name) ==> names_in(path).len() > 0 && name == names_in(
            path,
        ).last(),
        names_in(path).len() > 0 && names_in(path).last() != ".."@ && names_in(path).last() != "."@
            ==> last_name(path) is Some,
        names_in(path).len() > 0 && names_in(path).last() == ".."@ ==> last_name(path) is None,
        names_in(path).len() == 0 ==> last_name(path) is None,
        parts(path) == names_in(path).len() + if rooted(path) {
            1int
        } else {
            0
        },
{
    let names = names_in(path);
    if names.len() > 0 {
        lemma_upto(path, (names.len() - 1) as nat);
        assert(names.take(names.len() - 1) =~= names.drop_last());
    }
}

/// The paths above a path lose one name after another, from the path itself to what
/// has none.
pub proof fn law_the_paths_above(path: Seq<char>, i: int)
    requires
        0 <= i < ancestry(path).len(),
    ensures
        ancestry(path).len() == names_in(path).len() + 1,
        ancestry(path)[0] == path,
        rooted(ancestry(path)[i]) == rooted(path),
        names_in(ancestry(path)[i]) == names_in(path).take(names_in(path).len() - i),
{
    let names = names_in(path);
    if i > 0 {
        lemma_upto(path, (names.len() - i) as nat);
    } else {
        assert(names.take(names.len() as int) =~= names);
    }
}

} // verus!
