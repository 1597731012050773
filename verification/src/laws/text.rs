//! What holds of text that is trimmed, cut up, joined and compared.

use vstd::prelude::*;

use crate::text::{
    all_digits, decimal, is_control, is_mark, is_space, joined, lemma_decimal_value,
    lemma_pieces_some, padded, parsed, pieces, signed_decimal, split_at_each, starts, text_le,
    trimmed, trimmed_end, trimmed_start, unsigned_digits, value, words,
};

verus! {

// --- Characters --------------------------------------------------------------

/// Of the ASCII characters, white space are the space and the five that move to
/// another column or line. No letter, digit or punctuation mark is.
pub proof fn law_ascii_white_space(c: char)
    requires
        (c as u32) < 128,
    ensures
        is_space(c) == (c == ' ' || c == '\t' || c == '\n' || c == '\r' || c == '\u{0b}' || c
            == '\u{0c}'),
{
}

/// Of the ASCII characters, control characters are those before the space and the
/// last one; among the others are the 32 after it.
pub proof fn law_control_characters(c: char)
    ensures
        is_control(c) == (c < ' ' || '\u{7f}' <= c <= '\u{9f}'),
        is_control('\u{1b}'),
        is_control('\u{07}'),
{
}

// --- Trimming ----------------------------------------------------------------

proof fn lemma_start(s: Seq<char>) -> (a: int)
    ensures
        0 <= a <= s.len(),
        trimmed_start(s) == s.skip(a),
        forall|i: int| 0 <= i < a ==> is_space(#[trigger] s[i]),
        a < s.len() ==> !is_space(s[a]),
    decreases s.len(),
{
    if s.len() > 0 && is_space(s[0]) {
        let rest = s.skip(1);
        let a = lemma_start(rest);
        assert(rest.skip(a) =~= s.skip(a + 1));
        assert forall|i: int| 0 <= i < a + 1 implies is_space(#[trigger] s[i]) by {
            if i > 0 {
                assert(s[i] == rest[i - 1]);
            }
        }
        a + 1
    } else {
        assert(s.skip(0) =~= s);
        0
    }
}

proof fn lemma_end(s: Seq<char>) -> (b: int)
    ensures
        0 <= b <= s.len(),
        trimmed_end(s) == s.take(b),
        forall|i: int| b <= i < s.len() ==> is_space(#[trigger] s[i]),
        0 < b ==> !is_space(s[b - 1]),
    decreases s.len(),
{
    if s.len() > 0 && is_space(s.last()) {
        let rest = s.drop_last();
        let b = lemma_end(rest);
        assert(rest.take(b) =~= s.take(b));
        assert forall|i: int| b <= i < s.len() implies is_space(#[trigger] s[i]) by {
            if i < s.len() - 1 {
                assert(s[i] == rest[i]);
            }
        }
        b
    } else {
        assert(s.take(s.len() as int) =~= s);
        s.len() as int
    }
}

/// Whether `r` is the part of `s` from `a` to `b`, with nothing but white space
/// around it and none at its ends.
pub open spec fn is_core(s: Seq<char>, a: int, b: int, r: Seq<char>) -> bool {
    &&& 0 <= a <= b <= s.len()
    &&& r == s.subrange(a, b)
    &&& forall|i: int| 0 <= i < s.len() && !(a <= i < b) ==> is_space(#[trigger] s[i])
    &&& a < b ==> !is_space(s[a]) && !is_space(s[b - 1])
}

/// Trimming takes away white space at both ends, all of it, and nothing else.
pub proof fn law_trimming_takes_white_space_alone(s: Seq<char>)
    ensures
        exists|a: int, b: int| is_core(s, a, b, trimmed(s)),
{
    let a = lemma_start(s);
    let rest = s.skip(a);
    let b = lemma_end(rest);
    if b == 0 {
        assert forall|i: int| 0 <= i < s.len() implies is_space(#[trigger] s[i]) by {
            if i >= a {
                assert(s[i] == rest[i - a]);
            }
        }
        assert(rest.take(0) =~= s.subrange(a, a));
        assert(is_core(s, a, a, trimmed(s)));
    } else {
        assert(rest.take(b) =~= s.subrange(a, a + b));
        assert forall|i: int| 0 <= i < s.len() && !(a <= i < a + b) implies is_space(
            #[trigger] s[i],
        ) by {
            if i >= a {
                assert(s[i] == rest[i - a]);
            }
        }
        assert(rest[b - 1] == s[a + b - 1]);
        assert(rest[0] == s[a]);
        assert(is_core(s, a, a + b, trimmed(s)));
    }
}

/// Trimming the end takes away white space at the end, all of it, and nothing else.
pub proof fn law_trimming_the_end_takes_white_space_alone(s: Seq<char>)
    ensures
        trimmed_end(s).len() <= s.len(),
        trimmed_end(s) == s.take(trimmed_end(s).len() as int),
        forall|i: int| trimmed_end(s).len() <= i < s.len() ==> is_space(#[trigger] s[i]),
        trimmed_end(s).len() > 0 ==> !is_space(trimmed_end(s).last()),
{
    let b = lemma_end(s);
}

/// A text between stretches of white space is trimmed to itself.
pub proof fn law_what_stands_between_spaces(a: Seq<char>, s: Seq<char>, b: Seq<char>)
    requires
        forall|i: int| 0 <= i < a.len() ==> is_space(#[trigger] a[i]),
        forall|i: int| 0 <= i < b.len() ==> is_space(#[trigger] b[i]),
        s.len() > 0 ==> !is_space(s[0]) && !is_space(s.last()),
    ensures
        trimmed(a + s + b) == s,
{
    let whole = a + s + b;
    law_trimming_takes_white_space_alone(whole);
    let (x, y) = choose|x: int, y: int| is_core(whole, x, y, trimmed(whole));
    if s.len() == 0 {
        assert forall|i: int| 0 <= i < whole.len() implies is_space(#[trigger] whole[i]) by {
            if i < a.len() {
                assert(whole[i] == a[i]);
            } else {
                assert(whole[i] == b[i - a.len()]);
            }
        }
        assert(trimmed(whole) =~= s);
    } else {
        assert(whole[a.len() as int] == s[0]);
        assert(whole[a.len() + s.len() - 1] == s[s.len() - 1]);
        if x < a.len() {
            assert(whole[x] == a[x]);
        }
        if y > a.len() + s.len() {
            assert(whole[y - 1] == b[y - 1 - a.len() - s.len()]);
        }
        assert(x == a.len());
        assert(y == a.len() + s.len());
        assert(whole.subrange(x, y) =~= s);
    }
}

// --- Cutting and joining -----------------------------------------------------

/// Joining adds one text behind the mark at a time.
pub proof fn law_joining_adds_one_at_a_time(
    list: Seq<Seq<char>>,
    more: Seq<char>,
    mark: Seq<char>,
)
    ensures
        joined(Seq::<Seq<char>>::empty(), mark) == Seq::<char>::empty(),
        joined(seq![more], mark) == more,
        list.len() > 0 ==> joined(list.push(more), mark) == joined(list, mark) + mark + more,
{
    if list.len() > 0 {
        assert(list.push(more).drop_last() =~= list);
    }
}

/// Joining two lists joins each, with the mark between.
pub proof fn law_joining_two_lists(a: Seq<Seq<char>>, b: Seq<Seq<char>>, mark: Seq<char>)
    requires
        a.len() > 0,
        b.len() > 0,
    ensures
        joined(a + b, mark) == joined(a, mark) + mark + joined(b, mark),
    decreases b.len(),
{
    if b.len() == 1 {
        assert((a + b).drop_last() =~= a);
        assert(joined(a + b, mark) =~= joined(a, mark) + mark + joined(b, mark));
    } else {
        law_joining_two_lists(a, b.drop_last(), mark);
        assert((a + b).drop_last() =~= a + b.drop_last());
        assert(joined(a + b, mark) =~= joined(a, mark) + mark + joined(b, mark));
    }
}

/// Cutting a text at a mark and joining the pieces with it gives the text back, and
/// no piece holds the mark.
pub proof fn law_cutting_is_undone_by_joining(s: Seq<char>, mark: char)
    ensures
        split_at_each(s, mark).len() > 0,
        joined(split_at_each(s, mark), seq![mark]) == s,
        forall|i: int|
            0 <= i < split_at_each(s, mark).len() ==> !(#[trigger] split_at_each(
                s,
                mark,
            )[i]).contains(mark),
    decreases s.len(),
{
    let all = split_at_each(s, mark);
    lemma_pieces_some(s, is_mark(mark));
    if s.len() == 0 {
        assert(all =~= seq![Seq::<char>::empty()]);
        assert(joined(all, seq![mark]) =~= s);
    } else {
        let rest = s.drop_last();
        let before = split_at_each(rest, mark);
        law_cutting_is_undone_by_joining(rest, mark);
        assert(rest.push(s.last()) =~= s);
        if s.last() == mark {
            assert(all == before.push(Seq::empty()));
            assert(all.drop_last() =~= before);
            assert(joined(all, seq![mark]) =~= s);
        } else {
            let last = before.last().push(s.last());
            assert(all == before.update(before.len() - 1, last));
            if before.len() == 1 {
                assert(joined(all, seq![mark]) =~= s);
            } else {
                assert(all.drop_last() =~= before.drop_last());
                assert(joined(before, seq![mark]) == joined(before.drop_last(), seq![mark]) + seq![
                    mark,
                ] + before.last());
                assert(joined(all, seq![mark]) =~= s);
            }
        }
        assert forall|i: int| 0 <= i < all.len() implies !(#[trigger] all[i]).contains(mark) by {
            if i < before.len() {
                assert(!before[i].contains(mark));
                assert forall|j: int| 0 <= j < all[i].len() implies all[i][j] != mark by {
                    if j < before[i].len() {
                        assert(all[i][j] == before[i][j]);
                    }
                }
            }
        }
    }
}

/// A text without the mark is one piece.
pub proof fn law_a_text_without_the_mark_is_whole(s: Seq<char>, mark: char)
    requires
        !s.contains(mark),
    ensures
        split_at_each(s, mark) == seq![s],
    decreases s.len(),
{
    if s.len() > 0 {
        assert(s.contains(s[s.len() - 1]));
        assert forall|i: int| 0 <= i < s.drop_last().len() implies s.drop_last()[i] != mark by {
            assert(s.contains(s[i]));
        }
        law_a_text_without_the_mark_is_whole(s.drop_last(), mark);
        assert(s.drop_last().push(s.last()) =~= s);
        assert(split_at_each(s, mark) =~= seq![s]);
    } else {
        assert(s =~= Seq::<char>::empty());
    }
}

proof fn lemma_pieces_of_both(a: Seq<char>, c: char, b: Seq<char>, cut: spec_fn(char) -> bool)
    requires
        cut(c),
    ensures
        pieces(a.push(c) + b, cut) == pieces(a, cut) + pieces(b, cut),
    decreases b.len(),
{
    let whole = a.push(c) + b;
    lemma_pieces_some(b, cut);
    if b.len() == 0 {
        assert(whole.drop_last() =~= a);
        assert(pieces(whole, cut) =~= pieces(a, cut) + pieces(b, cut));
    } else {
        lemma_pieces_of_both(a, c, b.drop_last(), cut);
        lemma_pieces_some(b.drop_last(), cut);
        assert(whole.drop_last() =~= a.push(c) + b.drop_last());
        assert(whole.last() == b.last());
        assert(pieces(whole, cut) =~= pieces(a, cut) + pieces(b, cut));
    }
}

/// Cutting two texts with the mark between cuts each.
pub proof fn law_cutting_at_a_mark(a: Seq<char>, b: Seq<char>, mark: char)
    ensures
        split_at_each(a.push(mark) + b, mark) == split_at_each(a, mark) + split_at_each(b, mark),
{
    lemma_pieces_of_both(a, mark, b, is_mark(mark));
}

/// Texts without the mark that are joined with it are what cutting gives back.
pub proof fn law_joining_is_undone_by_cutting(list: Seq<Seq<char>>, mark: char)
    requires
        list.len() > 0,
        forall|i: int| 0 <= i < list.len() ==> !(#[trigger] list[i]).contains(mark),
    ensures
        split_at_each(joined(list, seq![mark]), mark) == list,
    decreases list.len(),
{
    assert(!list[list.len() - 1].contains(mark));
    law_a_text_without_the_mark_is_whole(list.last(), mark);
    if list.len() == 1 {
        assert(list =~= seq![list[0]]);
    } else {
        assert forall|i: int| 0 <= i < list.drop_last().len() implies !(
        #[trigger] list.drop_last()[i]).contains(mark) by {
            assert(!list[i].contains(mark));
        }
        law_joining_is_undone_by_cutting(list.drop_last(), mark);
        let before = joined(list.drop_last(), seq![mark]);
        assert(before + seq![mark] + list.last() =~= before.push(mark) + list.last());
        law_cutting_at_a_mark(before, list.last(), mark);
        assert(list.drop_last() + seq![list.last()] =~= list);
    }
}

/// The words of two texts with white space between are the words of each.
pub proof fn law_words_of_both(a: Seq<char>, c: char, b: Seq<char>)
    requires
        is_space(c),
    ensures
        words(a.push(c) + b) == words(a) + words(b),
{
    let cut = |c: char| is_space(c);
    let filled = |w: Seq<char>| w.len() > 0;
    lemma_pieces_of_both(a, c, b, cut);
    lemma_filter_of_both(pieces(a, cut), pieces(b, cut), filled);
}

pub(crate) proof fn lemma_filter_of_both<A>(a: Seq<A>, b: Seq<A>, pick: spec_fn(A) -> bool)
    ensures
        (a + b).filter(pick) == a.filter(pick) + b.filter(pick),
    decreases b.len(),
{
    reveal(Seq::filter);
    if b.len() == 0 {
        assert(a + b =~= a);
        assert(a.filter(pick) + b.filter(pick) =~= a.filter(pick));
    } else {
        lemma_filter_of_both(a, b.drop_last(), pick);
        assert((a + b).drop_last() =~= a + b.drop_last());
        assert((a + b).filter(pick) =~= a.filter(pick) + b.filter(pick));
    }
}

proof fn lemma_one_piece(s: Seq<char>, cut: spec_fn(char) -> bool)
    requires
        forall|i: int| 0 <= i < s.len() ==> !cut(#[trigger] s[i]),
    ensures
        pieces(s, cut) == seq![s],
    decreases s.len(),
{
    if s.len() > 0 {
        assert forall|i: int| 0 <= i < s.drop_last().len() implies !cut(
            #[trigger] s.drop_last()[i],
        ) by {
            assert(!cut(s[i]));
        }
        lemma_one_piece(s.drop_last(), cut);
        assert(!cut(s[s.len() - 1]));
        assert(s.drop_last().push(s.last()) =~= s);
        assert(pieces(s, cut) =~= seq![s]);
    } else {
        assert(s =~= Seq::<char>::empty());
    }
}

/// A text without white space is one word, and an empty one has none.
pub proof fn law_a_word_is_one_word(s: Seq<char>)
    requires
        forall|i: int| 0 <= i < s.len() ==> !is_space(#[trigger] s[i]),
    ensures
        s.len() > 0 ==> words(s) == seq![s],
        s.len() == 0 ==> words(s) == Seq::<Seq<char>>::empty(),
{
    let cut = |c: char| is_space(c);
    let filled = |w: Seq<char>| w.len() > 0;
    lemma_one_piece(s, cut);
    reveal_with_fuel(Seq::filter, 2);
    assert(seq![s].drop_last() =~= Seq::<Seq<char>>::empty());
    assert(words(s) == seq![s].filter(filled));
    if s.len() > 0 {
        assert(words(s) =~= seq![s]);
    } else {
        assert(words(s) =~= Seq::<Seq<char>>::empty());
    }
}

/// What starts with a prefix is the prefix and something behind it, and nothing else
/// does.
pub proof fn law_a_text_starts_with_its_prefix(prefix: Seq<char>, rest: Seq<char>, s: Seq<char>)
    ensures
        starts(prefix + rest, prefix),
        starts(s, prefix) ==> s == prefix + s.skip(prefix.len() as int),
{
    assert((prefix + rest).take(prefix.len() as int) =~= prefix);
    if starts(s, prefix) {
        assert(s =~= s.take(prefix.len() as int) + s.skip(prefix.len() as int));
    }
}

// --- Numbers -----------------------------------------------------------------

/// A run of digits is read place by place: one more digit is ten times what stands
/// before it and the digit.
pub proof fn law_digits_count_by_place(s: Seq<char>, c: char)
    requires
        '0' <= c <= '9',
    ensures
        value(s.push(c)) == 10 * value(s) + (c as u32 - '0' as u32),
        value(Seq::<char>::empty()) == 0,
{
    assert(s.push(c).drop_last() =~= s);
}

/// A number that is written is read back, where it is not larger than what may be
/// read, with a plus sign or without.
pub proof fn law_a_written_number_is_read(n: nat, max: nat)
    ensures
        all_digits(decimal(n)),
        decimal(n).len() > 0,
        decimal(n).len() > 1 ==> decimal(n)[0] != '0',
        n <= max ==> parsed(decimal(n), max) == Some(n),
        n > max ==> parsed(decimal(n), max) is None,
        parsed(seq!['+'] + decimal(n), max) == parsed(decimal(n), max),
{
    lemma_decimal_value(n);
    lemma_decimal_start(n);
    assert('0' <= decimal(n)[0] <= '9');
    assert((seq!['+'] + decimal(n)).skip(1) =~= decimal(n));
}

proof fn lemma_decimal_start(n: nat)
    ensures
        decimal(n).len() > 0,
        n > 0 ==> decimal(n)[0] != '0',
        n < 10 ==> decimal(n).len() == 1,
    decreases n,
{
    if n >= 10 {
        lemma_decimal_start(n / 10);
    }
}

/// Text that holds anything but digits behind an optional plus sign is no number.
pub proof fn law_other_text_is_no_number(s: Seq<char>, max: nat, i: int)
    requires
        0 <= i < s.len(),
        !('0' <= s[i] <= '9'),
        i > 0 || s[0] != '+',
    ensures
        parsed(s, max) is None,
        parsed(Seq::<char>::empty(), max) is None,
        parsed(seq!['+'], max) is None,
{
    let digits = unsigned_digits(s);
    if s[0] == '+' {
        assert(digits[i - 1] == s[i]);
    } else {
        assert(digits[i] == s[i]);
    }
    assert(unsigned_digits(seq!['+']) =~= Seq::<char>::empty());
}

/// A negative number is written as its amount behind a minus sign.
pub proof fn law_a_minus_sign_tells_negative_numbers(n: nat)
    requires
        n > 0,
    ensures
        signed_decimal(n as int) == decimal(n),
        signed_decimal(-(n as int)) == seq!['-'] + decimal(n),
{
}

/// A padded number has at least its width, keeps its value, and has no zeros in
/// front where it is wide enough.
pub proof fn law_padding_keeps_the_number(n: nat, width: nat)
    ensures
        padded(n, width).len() >= width,
        padded(n, width).len() == width || padded(n, width) == decimal(n),
        value(padded(n, width)) == n,
        all_digits(padded(n, width)),
{
    crate::text::lemma_padded_value(n, width);
    lemma_decimal_value(n);
}

// --- Order -------------------------------------------------------------------

/// In dictionary order the first difference decides, and a beginning comes before
/// what goes on.
pub proof fn law_the_first_difference_decides(
    p: Seq<char>,
    a: char,
    x: Seq<char>,
    b: char,
    y: Seq<char>,
)
    requires
        a < b,
    ensures
        text_le(p + seq![a] + x, p + seq![b] + y),
        !text_le(p + seq![b] + y, p + seq![a] + x),
        text_le(p, p + x),
        x.len() > 0 ==> !text_le(p + x, p),
    decreases p.len(),
{
    let l = p + seq![a] + x;
    let r = p + seq![b] + y;
    if p.len() > 0 {
        let q = p.skip(1);
        assert(l.skip(1) =~= q + seq![a] + x);
        assert(r.skip(1) =~= q + seq![b] + y);
        assert((p + x).skip(1) =~= q + x);
        assert(l[0] == p[0] && r[0] == p[0] && (p + x)[0] == p[0]);
        law_the_first_difference_decides(q, a, x, b, y);
    } else {
        assert(l[0] == a && r[0] == b);
        assert(p + x =~= x);
    }
}

} // verus!
