//! Which files a text names, and where they are.

use vstd::prelude::*;

use crate::agent::sandbox_workspace;
use crate::files::{
    citations, is_divider, is_wrapping, looked_for, names_file, ordered_items, path_in, resolved, token_names,
    unwrapped, FileItem, FilesView,
};
use crate::laws::path::are_names;
use crate::laws::show::{lemma_between, stands_in};
use crate::laws::text::{
    law_a_text_without_the_mark_is_whole, law_cutting_at_a_mark, lemma_filter_of_both,
};
use crate::order::{reorders, stably_sorted, values};
use crate::path::{below, lemma_no_names, names_in, rooted, same_place, under, FileKey};
use crate::references::{
    cited_line, cited_path, references_from, refers_to, Reference, ReferenceView,
};
use crate::text::{decimal, holds, is_space, pieces, split_at_each, words};

verus! {

// --- Tokens ------------------------------------------------------------------

/// What stands in quotes, brackets or before punctuation is taken out of them.
pub proof fn law_a_path_is_taken_out_of_its_wrapping(a: Seq<char>, s: Seq<char>, b: Seq<char>)
    requires
        forall|i: int| 0 <= i < a.len() ==> is_wrapping(#[trigger] a[i]),
        forall|i: int| 0 <= i < b.len() ==> is_wrapping(#[trigger] b[i]),
        s.len() > 0,
        !is_wrapping(s[0]),
        !is_wrapping(s.last()),
    ensures
        unwrapped(a + s + b) == s,
        s.contains('/') || s.contains('.') ==> path_in(a + s + b) == Some(s),
        !s.contains('/') && !s.contains('.') ==> path_in(a + s + b) is None,
    decreases a.len() + b.len(),
{
    let whole = a + s + b;
    if a.len() > 0 {
        let rest = a.skip(1);
        assert forall|i: int| 0 <= i < rest.len() implies is_wrapping(#[trigger] rest[i]) by {
            assert(is_wrapping(a[i + 1]));
        }
        assert(is_wrapping(a[0]));
        assert(whole.skip(1) =~= rest + s + b);
        law_a_path_is_taken_out_of_its_wrapping(rest, s, b);
    } else if b.len() > 0 {
        let rest = b.drop_last();
        assert forall|i: int| 0 <= i < rest.len() implies is_wrapping(#[trigger] rest[i]) by {
            assert(is_wrapping(b[i]));
        }
        assert(whole[0] == s[0]);
        assert(is_wrapping(b[b.len() - 1]));
        assert(whole.drop_last() =~= a + s + rest);
        law_a_path_is_taken_out_of_its_wrapping(a, s, rest);
    } else {
        assert(whole =~= s);
    }
}

/// The wrapping of a path is quotes, brackets, commas, colons and semicolons. Nothing
/// that a path is made of is among them.
pub proof fn law_wrapping_is_punctuation(c: char)
    ensures
        is_wrapping('`') && is_wrapping('\'') && is_wrapping('"') && is_wrapping('(')
            && is_wrapping(')') && is_wrapping('[') && is_wrapping(']') && is_wrapping('{')
            && is_wrapping('}') && is_wrapping(',') && is_wrapping(':') && is_wrapping(';'),
        'a' <= c <= 'z' || 'A' <= c <= 'Z' || '0' <= c <= '9' || c == '/' || c == '.' || c == '-' || c
            == '_' || c == '~' || c == '+' || c == '@' ==> !is_wrapping(c) && !is_divider(c),
        is_space(c) ==> is_divider(c),
        is_divider('(') && is_divider(')') && is_divider('[') && is_divider(']') && is_divider('{')
            && is_divider('}'),
        !is_divider(':') && !is_divider(',') && !is_divider('`'),
{
}

/// The citations of two texts with white space or a bracket between are those of
/// each.
pub proof fn law_citations_of_both(a: Seq<char>, c: char, b: Seq<char>)
    requires
        is_divider(c),
    ensures
        citations(a.push(c) + b) == citations(a) + citations(b),
{
    let cut = |c: char| is_divider(c);
    let bare = |p: Seq<char>| unwrapped(p);
    let filled = |p: Seq<char>| p.len() > 0;
    lemma_divided(a, c, b);
    assert((pieces(a, cut) + pieces(b, cut)).map_values(bare) =~= pieces(a, cut).map_values(bare)
        + pieces(b, cut).map_values(bare));
    lemma_filter_of_both(
        pieces(a, cut).map_values(bare),
        pieces(b, cut).map_values(bare),
        filled,
    );
    assert(citations(a) == pieces(a, cut).map_values(bare).filter(filled));
    assert(citations(b) == pieces(b, cut).map_values(bare).filter(filled));
    assert(citations(a.push(c) + b) == pieces(a.push(c) + b, cut).map_values(bare).filter(filled));
}

proof fn lemma_divided(a: Seq<char>, c: char, b: Seq<char>)
    requires
        is_divider(c),
    ensures
        pieces(a.push(c) + b, |c: char| is_divider(c)) == pieces(a, |c: char| is_divider(c))
            + pieces(b, |c: char| is_divider(c)),
    decreases b.len(),
{
    let cut = |c: char| is_divider(c);
    let whole = a.push(c) + b;
    crate::text::lemma_pieces_some(b, cut);
    if b.len() == 0 {
        assert(whole.drop_last() =~= a);
        assert(pieces(whole, cut) =~= pieces(a, cut) + pieces(b, cut));
    } else {
        lemma_divided(a, c, b.drop_last());
        crate::text::lemma_pieces_some(b.drop_last(), cut);
        assert(whole.drop_last() =~= a.push(c) + b.drop_last());
        assert(whole.last() == b.last());
        assert(pieces(whole, cut) =~= pieces(a, cut) + pieces(b, cut));
    }
}

/// A token without white space and brackets is one citation, without its wrapping.
pub proof fn law_a_token_is_one_citation(token: Seq<char>)
    requires
        forall|i: int| 0 <= i < token.len() ==> !is_divider(#[trigger] token[i]),
    ensures
        unwrapped(token).len() > 0 ==> citations(token) == seq![unwrapped(token)],
        unwrapped(token).len() == 0 ==> citations(token) == Seq::<Seq<char>>::empty(),
{
    let cut = |c: char| is_divider(c);
    let bare = |p: Seq<char>| unwrapped(p);
    let filled = |p: Seq<char>| p.len() > 0;
    lemma_undivided(token);
    reveal_with_fuel(Seq::filter, 2);
    let one = seq![token].map_values(bare);
    assert(one =~= seq![unwrapped(token)]);
    assert(one.drop_last() =~= Seq::<Seq<char>>::empty());
    assert(citations(token) == one.filter(filled));
    if unwrapped(token).len() > 0 {
        assert(citations(token) =~= seq![unwrapped(token)]);
    } else {
        assert(citations(token) =~= Seq::<Seq<char>>::empty());
    }
}

proof fn lemma_undivided(s: Seq<char>)
    requires
        forall|i: int| 0 <= i < s.len() ==> !is_divider(#[trigger] s[i]),
    ensures
        pieces(s, |c: char| is_divider(c)) == seq![s],
    decreases s.len(),
{
    let cut = |c: char| is_divider(c);
    if s.len() > 0 {
        assert forall|i: int| 0 <= i < s.drop_last().len() implies !is_divider(
            #[trigger] s.drop_last()[i],
        ) by {
            assert(!is_divider(s[i]));
        }
        lemma_undivided(s.drop_last());
        assert(!is_divider(s[s.len() - 1]));
        assert(s.drop_last().push(s.last()) =~= s);
        assert(pieces(s, cut) =~= seq![s]);
    } else {
        assert(s =~= Seq::<char>::empty());
    }
}

/// A citation names the file before its first colon and the line behind it, whatever
/// follows.
pub proof fn law_a_citation_names_a_file_and_a_line(path: Seq<char>, n: u32, more: Seq<char>)
    requires
        !path.contains(':'),
    ensures
        cited_path(path) == path,
        cited_line(path) is None,
        cited_path(path.push(':') + decimal(n as nat)) == path,
        cited_line(path.push(':') + decimal(n as nat)) == Some(n),
        cited_path(path.push(':') + (decimal(n as nat).push(':') + more)) == path,
        cited_line(path.push(':') + (decimal(n as nat).push(':') + more)) == Some(n),
{
    let digits = decimal(n as nat);
    crate::laws::text::law_a_written_number_is_read(n as nat, u32::MAX as nat);
    if digits.contains(':') {
        let i = choose|i: int| 0 <= i < digits.len() && digits[i] == ':';
        assert('0' <= digits[i] <= '9');
    }
    law_a_text_without_the_mark_is_whole(path, ':');
    law_a_text_without_the_mark_is_whole(digits, ':');
    law_cutting_at_a_mark(path, digits, ':');
    law_cutting_at_a_mark(path, digits.push(':') + more, ':');
    law_cutting_at_a_mark(digits, more, ':');
    let fields = split_at_each(path.push(':') + (digits.push(':') + more), ':');
    assert(fields[0] == path && fields[1] == digits);
}

// --- References --------------------------------------------------------------

/// Whether a citation means a file: its path, taken out of its wrapping, is looked
/// for at this place.
pub open spec fn means(citation: Seq<char>, root: Option<Seq<char>>, place: Seq<char>) -> bool {
    path_in(cited_path(citation)) matches Some(path) && looked_for(root, path) == Some(place)
}

/// Every citation of a file that is there leads to a reference to that file, however
/// many there are.
pub proof fn law_every_cited_file_is_listed(
    cited: Seq<Seq<char>>,
    root: Option<Seq<char>>,
    present: Seq<String>,
    k: int,
    place: Seq<char>,
)
    requires
        0 <= k < cited.len(),
        means(cited[k], root, place),
        holds(present, place),
    ensures
        exists|i: int|
            0 <= i < references_from(cited, root, present).len() && same_place(
                (#[trigger] references_from(cited, root, present)[i]).resolved,
                place,
            ),
    decreases cited.len(),
{
    let before = references_from(cited.drop_last(), root, present);
    let all = references_from(cited, root, present);
    if k == cited.len() - 1 {
        if refers_to(before, place) {
            let i = choose|i: int|
                0 <= i < before.len() && same_place((#[trigger] before[i]).resolved, place);
            assert(all[i] == before[i]);
        } else {
            assert(all[before.len() as int].resolved == place);
        }
    } else {
        assert(cited.drop_last()[k] == cited[k]);
        law_every_cited_file_is_listed(cited.drop_last(), root, present, k, place);
        let i = choose|i: int|
            0 <= i < before.len() && same_place((#[trigger] before[i]).resolved, place);
        assert(all[i] == before[i]);
    }
}

/// Whether the references stand for the citations at these places: each for the first
/// citation of a file that is there, in the order of the citations.
pub open spec fn stand_for(
    references: Seq<ReferenceView>,
    at: Seq<int>,
    cited: Seq<Seq<char>>,
    root: Option<Seq<char>>,
    present: Seq<String>,
) -> bool {
    &&& at.len() == references.len()
    &&& forall|i: int, j: int| 0 <= i < j < at.len() ==> #[trigger] at[i] < #[trigger] at[j]
    &&& forall|i: int|
        0 <= i < at.len() ==> {
            &&& 0 <= #[trigger] at[i] < cited.len()
            &&& references[i].reported == cited[at[i]]
            &&& references[i].line == cited_line(cited[at[i]])
            &&& means(cited[at[i]], root, references[i].resolved)
            &&& holds(present, references[i].resolved)
        }
}

/// Every reference stands for a citation of a file that is there, spelled as it was
/// cited and with the line that was cited. The references stand in the order of those
/// citations.
pub proof fn law_references_stand_for_citations(
    cited: Seq<Seq<char>>,
    root: Option<Seq<char>>,
    present: Seq<String>,
)
    ensures
        exists|at: Seq<int>|
            stand_for(references_from(cited, root, present), at, cited, root, present),
    decreases cited.len(),
{
    let all = references_from(cited, root, present);
    if cited.len() == 0 {
        assert(stand_for(all, Seq::<int>::empty(), cited, root, present));
    } else {
        let less = cited.drop_last();
        let before = references_from(less, root, present);
        law_references_stand_for_citations(less, root, present);
        let at = choose|at: Seq<int>| stand_for(before, at, less, root, present);
        assert forall|i: int| 0 <= i < at.len() implies cited[#[trigger] at[i]] == less[at[i]] by {}
        if all.len() > before.len() {
            assert(stand_for(all, at.push(cited.len() - 1), cited, root, present));
        } else {
            assert(stand_for(all, at, cited, root, present));
        }
    }
}

/// A reference is made of the first citation of its file: no citation before it means
/// the same file.
pub proof fn law_a_file_is_listed_where_it_is_first_cited(
    cited: Seq<Seq<char>>,
    root: Option<Seq<char>>,
    present: Seq<String>,
    k: int,
    place: Seq<char>,
)
    requires
        0 <= k < cited.len(),
        means(cited[k], root, place),
        holds(present, place),
        forall|j: int, other: Seq<char>|
            0 <= j < k && #[trigger] means(cited[j], root, other) && holds(present, other)
                ==> !same_place(other, place),
    ensures
        references_from(cited.take(k + 1), root, present) == references_from(
            cited.take(k),
            root,
            present,
        ).push(
            ReferenceView { reported: cited[k], line: cited_line(cited[k]), resolved: place },
        ),
{
    let before = references_from(cited.take(k), root, present);
    assert(cited.take(k + 1).drop_last() =~= cited.take(k));
    assert(cited.take(k + 1).last() == cited[k]);
    if refers_to(before, place) {
        let i = choose|i: int|
            0 <= i < before.len() && same_place((#[trigger] before[i]).resolved, place);
        law_references_stand_for_citations(cited.take(k), root, present);
        let at = choose|at: Seq<int>| stand_for(before, at, cited.take(k), root, present);
        assert(0 <= at[i] < k);
        assert(cited.take(k)[at[i]] == cited[at[i]]);
        assert(means(cited[at[i]], root, before[i].resolved));
    }
}

// --- Places ------------------------------------------------------------------

/// A relative path is looked for under the root, an absolute one outside of the
/// sandbox where it says, and one inside the sandbox under the root. Without a root
/// only absolute paths can be looked for, where they say.
pub proof fn law_where_a_path_is_looked_for(root: Seq<char>, path: Seq<char>)
    ensures
        !rooted(path) ==> resolved(root, path) == under(root, path) && looked_for(Some(root), path)
            == Some(under(root, path)) && looked_for(None, path) is None,
        rooted(path) ==> looked_for(None, path) == Some(path) && looked_for(Some(root), path)
            == Some(resolved(root, path)),
        rooted(path) && below(path, sandbox_workspace()) is None ==> resolved(root, path) == path,
{
}

/// A path inside the sandbox's workspace is the same path under the root.
pub proof fn law_a_sandbox_path_is_re_rooted(root: Seq<char>, path: Seq<char>, list: Seq<Seq<char>>)
    requires
        rooted(path),
        rooted(sandbox_workspace()),
        are_names(list),
        list.len() > 0,
        names_in(path) == names_in(sandbox_workspace()) + list,
    ensures
        rooted(resolved(root, path)) == rooted(root),
        names_in(resolved(root, path)) == names_in(root) + list,
{
    let base = sandbox_workspace();
    let names = names_in(path);
    let prefix = names_in(base);
    assert(names.take(prefix.len() as int) =~= prefix);
    assert(below(path, base) is Some);
    let rest = below(path, base)->Some_0;
    crate::path::lemma_behind(path, prefix.len());
    assert(names.skip(prefix.len() as int) =~= list);
    lemma_no_names(Seq::<char>::empty());
    if root.len() == 0 {
        assert(root =~= Seq::<char>::empty());
        assert(root + rest =~= rest);
        assert(names_in(root) + list =~= list);
    } else if root.last() == '/' {
        let start = root.drop_last();
        assert(start.push('/') =~= root);
        crate::path::lemma_ended(start);
        law_cutting_at_a_mark(start, rest, '/');
        crate::path::lemma_names_of_both(split_at_each(start, '/'), split_at_each(rest, '/'));
    } else {
        law_cutting_at_a_mark(root, rest, '/');
        crate::path::lemma_names_of_both(split_at_each(root, '/'), split_at_each(rest, '/'));
    }
}

// --- The list of files -------------------------------------------------------

/// Whether the rows are those of the reported paths, in another order.
pub open spec fn rearranged(order: Seq<int>, reported: Seq<String>, items: Seq<FileItem>) -> bool {
    &&& order.len() == reported.len()
    &&& items.len() == reported.len()
    &&& forall|i: int|
        0 <= i < order.len() ==> 0 <= #[trigger] order[i] < reported.len() && items[i].reported@
            == reported[order[i]]@
    &&& forall|i: int, j: int|
        0 <= i < j < order.len() ==> #[trigger] order[i] != #[trigger] order[j]
}

/// Every reported path has a row, and every row is of a reported path: as many as
/// there are, none dropped and none made up. Each row shows where its path is on this
/// host, under the root where it lies there.
pub proof fn law_every_reported_file_has_a_row(
    root: Seq<char>,
    reported: Seq<String>,
    items: Seq<FileItem>,
)
    requires
        ordered_items(root, reported, items),
    ensures
        exists|order: Seq<int>| rearranged(order, reported, items),
        forall|i: int|
            0 <= i < items.len() ==> (#[trigger] items[i]).resolved@ == resolved(
                root,
                items[i].reported@,
            ) && (below(items[i].resolved@, root) is Some ==> items[i].root@ == root),
{
    let (before, after) = choose|
        before: Seq<(FileKey, FileItem)>,
        after: Seq<(FileKey, FileItem)>,
    |
        {
            &&& before.len() == reported.len()
            &&& forall|i: int|
                0 <= i < before.len() ==> crate::files::listed_as(
                    root,
                    reported[i]@,
                    (#[trigger] before[i]).1,
                ) && crate::files::keyed(before[i].0, before[i].1)
            &&& #[trigger] stably_sorted(before, after)
            &&& items == values(after)
        };
    let order = choose|order: Seq<int>| reorders(order, before, after);
    assert forall|i: int| 0 <= i < order.len() implies 0 <= #[trigger] order[i] < reported.len()
        && items[i].reported@ == reported[order[i]]@ by {
        assert(after[i] == before[order[i]]);
    }
    assert(rearranged(order, reported, items));
    assert forall|i: int| 0 <= i < items.len() implies (#[trigger] items[i]).resolved@ == resolved(
        root,
        items[i].reported@,
    ) && (below(items[i].resolved@, root) is Some ==> items[i].root@ == root) by {
        assert(0 <= order[i] < before.len());
        assert(items[i] == before[order[i]].1);
    }
}

/// A word of a text names a file where it holds a slash or a dot, and where the file is
/// there; and nothing else of the text does.
pub proof fn law_which_files_a_text_names(
    text: Seq<char>,
    root: Option<Seq<char>>,
    present: Seq<String>,
    path: Seq<char>,
    place: Seq<char>,
    k: int,
)
    requires
        looked_for(root, path) == Some(place),
    ensures
        0 <= k < words(text).len() && unwrapped(words(text)[k]) == path && (path.contains('/')
            || path.contains('.')) && holds(present, place) ==> names_file(
            text,
            root,
            present,
            path,
        ),
        names_file(text, root, present, path) ==> holds(present, place) && (path.contains('/')
            || path.contains('.')),
        (forall|j: int|
            0 <= j < words(text).len() ==> unwrapped(#[trigger] words(text)[j]) != path)
            ==> !names_file(text, root, present, path),
{
    if 0 <= k < words(text).len() && unwrapped(words(text)[k]) == path && (path.contains('/')
        || path.contains('.')) && holds(present, place) {
        assert(token_names(words(text)[k], root, present, path));
    }
}

/// The rows of the list are walked one by one, as far as the last.
pub proof fn law_walking_the_files(view: FilesView, last: usize)
    ensures
        view.selected < last ==> view.next(last).selected == view.selected + 1 && view.next(
            last,
        ).prev() == view,
        view.selected >= last ==> view.next(last).selected == last,
        view.selected > 0 ==> view.prev().selected + 1 == view.selected,
        view.selected == 0 ==> view.prev() == view,
        view.next(last).show_all == view.show_all && view.prev().show_all == view.show_all,
{
}

/// The row of a cited file shows the citation as it was written, and the file it means
/// where that is not what was written.
pub proof fn law_a_row_shows_the_citation(reference: Reference)
    ensures
        stands_in(reference.reported@, reference.row()),
        cited_path(reference.reported@) != reference.resolved@ ==> stands_in(
            reference.resolved@,
            reference.row(),
        ),
        cited_path(reference.reported@) == reference.resolved@ ==> reference.row()
            == reference.reported@,
{
    let none = Seq::<char>::empty();
    let row = reference.row();
    if cited_path(reference.reported@) == reference.resolved@ {
        lemma_between(none, reference.reported@, none, row);
    } else {
        lemma_between(none, reference.reported@, "  →  "@ + reference.resolved@, row);
        lemma_between(reference.reported@ + "  →  "@, reference.resolved@, none, row);
    }
}

} // verus!
