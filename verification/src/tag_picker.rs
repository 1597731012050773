//! Choosing an interaction's tags.

use vstd::prelude::*;

use crate::order::{arranges, dedup, sort_texts, strictly_ordered, texts_sorted};
use crate::text::{
    contains_text, holds, lemma_holds_push, lemma_text_le_same, position_of, text_le, trim, trimmed,
    views,
};

verus! {

/// The tags that can be chosen, the ones that are, and the row the cursor is
/// on.
#[derive(Debug, PartialEq, Eq)]
pub struct TagPicker {
    pub available: Vec<String>,
    pub selected: Vec<String>,
    pub cursor: usize,
    /// The tag being typed.
    pub new_tag: Option<String>,
}

pub proof fn lemma_same_texts(before: Seq<String>, after: Seq<String>)
    requires
        texts_sorted(before, after),
    ensures
        forall|t: Seq<char>| holds(before, t) == holds(after, t),
{
    let order = choose|order: Seq<int>| arranges(order, before, after);
    assert forall|t: Seq<char>| holds(before, t) == holds(after, t) by {
        if holds(after, t) {
            let i = choose|i: int| 0 <= i < after.len() && (#[trigger] after[i])@ == t;
            assert(after[i] == before[order[i]]);
        }
        if holds(before, t) {
            let v = choose|v: int| 0 <= v < before.len() && (#[trigger] before[v])@ == t;
            crate::order::lemma_onto(order, before.len() as int, v);
            let i = choose|i: int| 0 <= i < order.len() && #[trigger] order[i] == v;
            assert(after[i] == before[order[i]]);
        }
    }
}

/// Sorted, with nothing twice.
fn tidied(list: Vec<String>) -> (r: Vec<String>)
    ensures
        strictly_ordered(r@),
        forall|t: Seq<char>| holds(r@, t) == holds(list@, t),
{
    let sorted = sort_texts(list);
    proof {
        lemma_same_texts(list@, sorted@);
    }
    dedup(sorted)
}

/// The row after the cursor's, and after the last the first. A picker of no tag
/// has no other row.
pub open spec fn row_after(picker: TagPicker) -> usize {
    if picker.available@.len() > 0 {
        ((picker.cursor + 1) % picker.available@.len() as int) as usize
    } else {
        picker.cursor
    }
}

/// The row before the cursor's, and before the first the last. A picker of no
/// tag has no other row.
pub open spec fn row_before(picker: TagPicker) -> usize {
    if picker.available@.len() == 0 {
        picker.cursor
    } else if picker.cursor > 0 {
        (picker.cursor - 1) as usize
    } else {
        (picker.available@.len() - 1) as usize
    }
}

/// Going to the next row and back, or back and to the next, returns to the row
/// the cursor was on. Where there are no tags it never leaves it.
pub proof fn law_a_step_is_undone(picker: TagPicker)
    requires
        picker.available@.len() <= usize::MAX,
        picker.available@.len() > 0 ==> picker.cursor < picker.available@.len(),
    ensures
        row_before((TagPicker { cursor: row_after(picker), ..picker })) == picker.cursor,
        row_after((TagPicker { cursor: row_before(picker), ..picker })) == picker.cursor,
{
    let rows = picker.available@.len() as int;
    if rows > 0 {
        let next = picker.cursor + 1;
        if next < rows {
            vstd::arithmetic::div_mod::lemma_small_mod(next as nat, rows as nat);
        } else {
            vstd::arithmetic::div_mod::lemma_mod_self_0(rows);
        }
        vstd::arithmetic::div_mod::lemma_small_mod(picker.cursor as nat, rows as nat);
        vstd::arithmetic::div_mod::lemma_mod_self_0(rows);
    }
}

/// The row the cursor is on after `n` steps to the next.
pub open spec fn row_after_steps(picker: TagPicker, n: nat) -> usize
    decreases n,
{
    if n == 0 {
        picker.cursor
    } else {
        row_after((TagPicker { cursor: row_after_steps(picker, (n - 1) as nat), ..picker }))
    }
}

/// As many steps as there are tags bring the cursor round to where it was, and
/// on the way there it is on every row once: after `n` steps it is `n` rows
/// further on, counted round the end.
pub proof fn law_the_rows_come_round(picker: TagPicker, n: nat)
    requires
        picker.cursor < picker.available@.len() <= usize::MAX,
    ensures
        row_after_steps(picker, n) == (picker.cursor + n) % picker.available@.len() as int,
        row_after_steps(picker, picker.available@.len()) == picker.cursor,
    decreases n,
{
    let rows = picker.available@.len() as int;
    lemma_steps(picker, n);
    lemma_steps(picker, rows as nat);
    vstd::arithmetic::div_mod::lemma_mod_add_multiples_vanish(picker.cursor as int, rows);
    vstd::arithmetic::div_mod::lemma_small_mod(picker.cursor as nat, rows as nat);
    assert((picker.cursor + rows) % rows == picker.cursor as int % rows);
}

proof fn lemma_steps(picker: TagPicker, n: nat)
    requires
        picker.cursor < picker.available@.len() <= usize::MAX,
    ensures
        row_after_steps(picker, n) == (picker.cursor + n) % picker.available@.len() as int,
    decreases n,
{
    let rows = picker.available@.len() as int;
    if n == 0 {
        vstd::arithmetic::div_mod::lemma_small_mod(picker.cursor as nat, rows as nat);
    } else {
        lemma_steps(picker, (n - 1) as nat);
        let at = picker.cursor + n - 1;
        vstd::arithmetic::div_mod::lemma_mod_bound(at, rows);
        vstd::arithmetic::div_mod::lemma_add_mod_noop(at, 1, rows);
        vstd::arithmetic::div_mod::lemma_mod_bound(at % rows + 1, rows);
        vstd::arithmetic::div_mod::lemma_add_mod_noop(at % rows, 1, rows);
        vstd::arithmetic::div_mod::lemma_mod_twice(at, rows);
        assert((at % rows + 1) % rows == (at + 1) % rows);
    }
}

impl TagPicker {
    /// A picker of these tags. Whatever is chosen can also be chosen; both
    /// lists are in dictionary order and hold nothing twice.
    pub fn new(available: Vec<String>, selected: Vec<String>) -> (r: TagPicker)
        ensures
            strictly_ordered(r.available@),
            strictly_ordered(r.selected@),
            forall|t: Seq<char>| holds(r.selected@, t) == holds(selected@, t),
            forall|t: Seq<char>|
                holds(r.available@, t) == (holds(available@, t) || holds(selected@, t)),
            r.cursor == 0,
            r.new_tag is None,
    {
        let chosen = tidied(selected);
        let mut all = available;
        let mut i: usize = 0;
        while i < chosen.len()
            invariant
                i <= chosen@.len(),
                forall|t: Seq<char>|
                    holds(all@, t) == (holds(available@, t) || holds(chosen@.take(i as int), t)),
            decreases chosen.len() - i,
        {
            let ghost had = all@;
            all.push(chosen[i].clone());
            proof {
                assert forall|t: Seq<char>|
                    holds(all@, t) == (holds(available@, t) || holds(chosen@.take(i + 1), t)) by {
                    lemma_holds_push(had, all@.last(), t);
                    assert(all@ =~= had.push(all@.last()));
                    lemma_holds_push(chosen@.take(i as int), chosen@[i as int], t);
                    assert(chosen@.take(i + 1) =~= chosen@.take(i as int).push(chosen@[i as int]));
                }
            }
            i = i + 1;
        }
        assert(chosen@.take(chosen@.len() as int) =~= chosen@);
        TagPicker { available: tidied(all), selected: chosen, cursor: 0, new_tag: None }
    }

    /// The row after this one, and after the last the first.
    pub fn next(&mut self)
        requires
            old(self).available@.len() > 0 ==> old(self).cursor < usize::MAX,
        ensures
            *final(self) == (TagPicker { cursor: row_after(*old(self)), ..*old(self) }),
    {
        if self.available.len() > 0 {
            self.cursor = (self.cursor + 1) % self.available.len();
        }
    }

    /// The row before this one, and before the first the last.
    pub fn previous(&mut self)
        ensures
            *final(self) == (TagPicker { cursor: row_before(*old(self)), ..*old(self) }),
    {
        if self.available.len() > 0 {
            if self.cursor > 0 {
                self.cursor = self.cursor - 1;
            } else {
                self.cursor = self.available.len() - 1;
            }
        }
    }

    /// Choose the tag under the cursor, or drop it where it is chosen.
    pub fn toggle(&mut self)
        ensures
            final(self).available == old(self).available,
            final(self).cursor == old(self).cursor,
            final(self).new_tag == old(self).new_tag,
            toggled(*old(self), final(self).selected@),
    {
        if self.cursor >= self.available.len() {
            return ;
        }
        let tag = self.available[self.cursor].clone();
        match position_of(&self.selected, tag.as_str()) {
            Some(index) => {
                let _ = self.selected.remove(index);
            },
            None => {
                let mut chosen: Vec<String> = Vec::new();
                std::mem::swap(&mut chosen, &mut self.selected);
                chosen.push(tag);
                self.selected = sort_texts(chosen);
            },
        }
    }

    /// Choose the tag that was typed, and offer it from now on. A blank one is
    /// no tag.
    pub fn add_new(&mut self)
        ensures
            final(self).cursor == old(self).cursor,
            final(self).new_tag is None,
            match typed_tag(*old(self)) {
                Some(tag) => with_tag(old(self).available@, tag, final(self).available@) && with_tag(
                    old(self).selected@,
                    tag,
                    final(self).selected@,
                ),
                None => final(self).available == old(self).available && final(self).selected == old(
                    self,
                ).selected,
            },
    {
        let typed = self.new_tag.take();
        let tag = match typed {
            Some(tag) => trim(tag.as_str()),
            None => {
                return ;
            },
        };
        if tag.as_str().is_empty() {
            return ;
        }
        if !contains_text(&self.available, tag.as_str()) {
            let mut all: Vec<String> = Vec::new();
            std::mem::swap(&mut all, &mut self.available);
            all.push(tag.clone());
            self.available = sort_texts(all);
            proof {
                assert(all@ =~= old(self).available@.push(tag));
                assert(with_tag(old(self).available@, tag@, self.available@));
            }
        }
        if !contains_text(&self.selected, tag.as_str()) {
            let mut chosen: Vec<String> = Vec::new();
            std::mem::swap(&mut chosen, &mut self.selected);
            chosen.push(tag);
            self.selected = sort_texts(chosen);
            proof {
                assert(chosen@ =~= old(self).selected@.push(tag));
                assert(with_tag(old(self).selected@, tag@, self.selected@));
            }
        }
    }
}

/// The tag that was typed, where it is one.
pub open spec fn typed_tag(picker: TagPicker) -> Option<Seq<char>> {
    match picker.new_tag {
        Some(typed) => if trimmed(typed@).len() > 0 {
            Some(trimmed(typed@))
        } else {
            None
        },
        None => None,
    }
}

/// Whether `after` is `before` with the tag: as it is where it holds the tag,
/// and otherwise with the tag added, in dictionary order.
pub open spec fn with_tag(before: Seq<String>, tag: Seq<char>, after: Seq<String>) -> bool {
    if holds(before, tag) {
        after == before
    } else {
        exists|item: String| item@ == tag && #[trigger] texts_sorted(before.push(item), after)
    }
}

/// Whether `selected` is what is chosen after the tag under the cursor is
/// chosen or dropped. Where it was chosen, its first mention is taken out.
pub open spec fn toggled(picker: TagPicker, selected: Seq<String>) -> bool {
    if picker.cursor >= picker.available@.len() {
        selected == picker.selected@
    } else {
        let tag = picker.available@[picker.cursor as int]@;
        if holds(picker.selected@, tag) {
            exists|i: int|
                0 <= i < picker.selected@.len() && (#[trigger] picker.selected@[i])@ == tag && (
                forall|j: int| 0 <= j < i ==> (#[trigger] picker.selected@[j])@ != tag) && selected
                    == picker.selected@.remove(i)
        } else {
            with_tag(picker.selected@, tag, selected)
        }
    }
}

/// Choosing the tag under the cursor and dropping it again, or the other way
/// round, leaves the list of chosen tags as it was.
pub proof fn law_toggling_twice_returns(picker: TagPicker, once: TagPicker, twice: Seq<String>)
    requires
        strictly_ordered(picker.selected@),
        toggled(picker, once.selected@),
        once.available == picker.available,
        once.cursor == picker.cursor,
        toggled(once, twice),
    ensures
        views(twice) == views(picker.selected@),
{
    lemma_toggled_in_order(picker, once.selected@);
    lemma_toggled_in_order(once, twice);
    assert forall|tag: Seq<char>| holds(twice, tag) == holds(picker.selected@, tag) by {
        lemma_same_tags(picker, once, twice, tag);
    }
    lemma_same_texts_in_order(twice, picker.selected@);
}

proof fn lemma_toggled_in_order(picker: TagPicker, selected: Seq<String>)
    requires
        strictly_ordered(picker.selected@),
        toggled(picker, selected),
    ensures
        strictly_ordered(selected),
{
    let before = picker.selected@;
    if picker.cursor < picker.available@.len() {
        let tag = picker.available@[picker.cursor as int]@;
        if holds(before, tag) {
            let i = choose|i: int|
                0 <= i < before.len() && (#[trigger] before[i])@ == tag && (forall|j: int|
                    0 <= j < i ==> (#[trigger] before[j])@ != tag) && selected == before.remove(i);
            assert forall|a: int, b: int| 0 <= a < b < selected.len() implies text_le(
                (#[trigger] selected[a])@,
                (#[trigger] selected[b])@,
            ) && selected[a]@ != selected[b]@ by {
                let x = if a < i {
                    a
                } else {
                    a + 1
                };
                let y = if b < i {
                    b
                } else {
                    b + 1
                };
                assert(selected[a] == before[x] && selected[b] == before[y]);
            }
        } else {
            let item = choose|item: String|
                item@ == tag && #[trigger] texts_sorted(before.push(item), selected);
            let more = before.push(item);
            let order = choose|order: Seq<int>| arranges(order, more, selected);
            assert forall|a: int, b: int| 0 <= a < b < selected.len() implies text_le(
                (#[trigger] selected[a])@,
                (#[trigger] selected[b])@,
            ) && selected[a]@ != selected[b]@ by {
                let (x, y) = (order[a], order[b]);
                assert(selected[a] == more[x] && selected[b] == more[y]);
                if x < before.len() && y < before.len() {
                    assert(more[x] == before[x] && more[y] == before[y]);
                } else if x < before.len() {
                    assert(more[x] == before[x]);
                } else {
                    assert(more[y] == before[y]);
                }
            }
        }
    }
}

/// Lists in dictionary order that hold the same texts are the same.
proof fn lemma_same_texts_in_order(a: Seq<String>, b: Seq<String>)
    requires
        strictly_ordered(a),
        strictly_ordered(b),
        forall|t: Seq<char>| holds(a, t) == holds(b, t),
    ensures
        views(a) == views(b),
    decreases a.len(),
{
    if a.len() == 0 {
        if b.len() > 0 {
            assert(holds(b, b[0]@));
            assert(holds(a, b[0]@));
        }
        assert(views(a) =~= views(b));
    } else {
        let (m, n) = (a.len() - 1, b.len() - 1);
        assert(a[m]@ == a.last()@);
        assert(holds(a, a[m]@));
        assert(holds(b, a[m]@));
        let k = choose|k: int| 0 <= k < b.len() && (#[trigger] b[k])@ == a[m]@;
        assert(holds(b, b[n]@));
        assert(holds(a, b[n]@));
        let l = choose|l: int| 0 <= l < a.len() && (#[trigger] a[l])@ == b[n]@;
        if l < m && k < n {
            assert(text_le(a[l]@, a[m]@));
            assert(text_le(b[k]@, b[n]@));
            lemma_text_le_same(a[m]@, b[n]@);
        }
        assert(a[m]@ == b[n]@);
        let (x, y) = (a.drop_last(), b.drop_last());
        assert forall|t: Seq<char>| holds(x, t) == holds(y, t) by {
            assert(x =~= a.remove(m));
            assert(y =~= b.remove(n));
            lemma_holds_without(a, m, t);
            lemma_holds_without(b, n, t);
        }
        lemma_same_texts_in_order(x, y);
        assert forall|i: int| 0 <= i < a.len() implies views(a)[i] == views(b)[i] by {
            assert(views(x).len() == views(y).len());
            if i < m {
                assert(views(x)[i] == views(y)[i]);
                assert(views(a)[i] == views(x)[i]);
                assert(views(b)[i] == views(y)[i]);
            }
        }
        assert(views(x).len() == views(y).len());
        assert(views(a) =~= views(b));
    }
}

proof fn lemma_same_tags(picker: TagPicker, once: TagPicker, twice: Seq<String>, tag: Seq<char>)
    requires
        strictly_ordered(picker.selected@),
        toggled(picker, once.selected@),
        once.available == picker.available,
        once.cursor == picker.cursor,
        toggled(once, twice),
    ensures
        holds(twice, tag) == holds(picker.selected@, tag),
{
    if picker.cursor < picker.available@.len() {
        let under = picker.available@[picker.cursor as int]@;
        let before = picker.selected@;
        let between = once.selected@;
        if holds(before, under) {
            let i = choose|i: int|
                0 <= i < before.len() && (#[trigger] before[i])@ == under && (forall|j: int|
                    0 <= j < i ==> (#[trigger] before[j])@ != under) && between == before.remove(i);
            lemma_holds_without(before, i, tag);
            lemma_holds_without(before, i, under);
            let item = choose|item: String|
                item@ == under && #[trigger] texts_sorted(between.push(item), twice);
            lemma_same_texts(between.push(item), twice);
            lemma_holds_push(between, item, tag);
        } else {
            let item = choose|item: String|
                item@ == under && #[trigger] texts_sorted(before.push(item), between);
            let more = before.push(item);
            lemma_same_texts(more, between);
            lemma_holds_push(before, item, under);
            lemma_holds_push(before, item, tag);
            let i = choose|i: int|
                0 <= i < between.len() && (#[trigger] between[i])@ == under && (forall|j: int|
                    0 <= j < i ==> (#[trigger] between[j])@ != under) && twice == between.remove(i);
            let order = choose|order: Seq<int>| arranges(order, more, between);
            assert forall|j: int| 0 <= j < between.len() && j != i implies (
            #[trigger] between[j])@ != under by {
                assert(between[j] == more[order[j]]);
                assert(between[i] == more[order[i]]);
                if order[i] < before.len() {
                    assert(before[order[i]]@ == under);
                }
                if order[j] < before.len() && between[j]@ == under {
                    assert(before[order[j]]@ == under);
                }
            }
            if holds(twice, tag) {
                let k = choose|k: int| 0 <= k < twice.len() && (#[trigger] twice[k])@ == tag;
                let at = if k < i {
                    k
                } else {
                    k + 1
                };
                assert(twice[k] == between[at]);
                assert(between[at]@ == tag);
                assert(holds(between, tag));
            }
            if holds(before, tag) {
                assert(holds(between, tag));
                let k = choose|k: int| 0 <= k < between.len() && (#[trigger] between[k])@ == tag;
                let at = if k < i {
                    k
                } else {
                    k - 1
                };
                assert(k != i);
                assert(twice[at] == between[k]);
            }
        }
    }
}

proof fn lemma_holds_without(list: Seq<String>, i: int, t: Seq<char>)
    requires
        strictly_ordered(list),
        0 <= i < list.len(),
    ensures
        holds(list.remove(i), t) == (holds(list, t) && list[i]@ != t),
{
    let less = list.remove(i);
    if holds(less, t) {
        let k = choose|k: int| 0 <= k < less.len() && (#[trigger] less[k])@ == t;
        let at = if k < i {
            k
        } else {
            k + 1
        };
        assert(list[at] == less[k]);
        assert(list[i]@ != list[at]@);
    }
    if holds(list, t) && list[i]@ != t {
        let k = choose|k: int| 0 <= k < list.len() && (#[trigger] list[k])@ == t;
        let at = if k < i {
            k
        } else {
            k - 1
        };
        assert(less[at] == list[k]);
    }
}

} // verus!
