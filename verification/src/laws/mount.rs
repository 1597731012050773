//! What a typed mount asks for, and what a sandbox shows of the host.

use vstd::prelude::*;

use crate::laws::text::{
    is_core, law_a_text_without_the_mark_is_whole, law_cutting_at_a_mark,
    law_cutting_is_undone_by_joining, law_joining_is_undone_by_cutting,
    law_trimming_takes_white_space_alone, law_what_stands_between_spaces,
};
use crate::mount::{home_expanded, mount_asked, mount_fields, path_fields};
use crate::path::{
    below, lemma_behind, lemma_ended, lemma_names_of_both, lemma_no_names, lemma_split_at_a_mark,
    names_in, rooted, under,
};
use crate::protocol::LaunchMountView;
use crate::text::{
    is_mark, is_space, joined, lemma_pieces_some, split_at_each, trimmed, trimmed_end,
    trimmed_start,
};

verus! {

// --- Fields ------------------------------------------------------------------

proof fn lemma_space_around(s: Seq<char>, c: char)
    requires
        is_space(c),
    ensures
        trimmed(s.push(c)) == trimmed(s),
        trimmed(seq![c] + s) == trimmed(s),
{
    law_trimming_takes_white_space_alone(s);
    let (a, b) = choose|a: int, b: int| is_core(s, a, b, trimmed(s));
    let core = trimmed(s);
    let head = s.take(a);
    let tail = s.skip(b);
    assert(s =~= head + core + tail);
    assert forall|i: int| 0 <= i < head.len() implies is_space(#[trigger] head[i]) by {
        assert(is_space(s[i]));
    }
    assert forall|i: int| 0 <= i < tail.len() implies is_space(#[trigger] tail[i]) by {
        assert(is_space(s[b + i]));
    }
    assert(s.push(c) =~= head + core + tail.push(c));
    assert(seq![c] + s =~= (seq![c] + head) + core + tail);
    if core.len() > 0 {
        assert(core[0] == s[a] && core.last() == s[b - 1]);
    }
    law_what_stands_between_spaces(head, core, tail.push(c));
    law_what_stands_between_spaces(seq![c] + head, core, tail);
}

proof fn lemma_pieces_behind(c: char, s: Seq<char>, mark: char)
    requires
        c != mark,
    ensures
        split_at_each(s, mark).len() > 0,
        split_at_each(seq![c] + s, mark) == split_at_each(s, mark).update(
            0,
            seq![c] + split_at_each(s, mark)[0],
        ),
    decreases s.len(),
{
    let whole = seq![c] + s;
    let all = split_at_each(s, mark);
    lemma_pieces_some(s, is_mark(mark));
    if s.len() == 0 {
        assert(whole.drop_last() =~= s);
        assert(whole.last() == c);
        assert(split_at_each(whole, mark) =~= all.update(0, seq![c] + all[0]));
    } else {
        let rest = s.drop_last();
        let before = split_at_each(rest, mark);
        lemma_pieces_behind(c, rest, mark);
        assert(whole.drop_last() =~= seq![c] + rest);
        assert(whole.last() == s.last());
        assert(split_at_each(whole, mark) =~= all.update(0, seq![c] + all[0]));
    }
}

/// The fields of a list, each trimmed.
pub open spec fn each_trimmed(fields: Seq<Seq<char>>) -> Seq<Seq<char>> {
    Seq::new(fields.len(), |i: int| trimmed(fields[i]))
}

proof fn lemma_outer_spaces(s: Seq<char>)
    ensures
        each_trimmed(split_at_each(trimmed_end(s), ':')) == each_trimmed(split_at_each(s, ':')),
        each_trimmed(split_at_each(trimmed_start(s), ':')) == each_trimmed(split_at_each(s, ':')),
    decreases s.len(),
{
    let all = split_at_each(s, ':');
    if s.len() > 0 && is_space(s.last()) {
        let rest = s.drop_last();
        let before = split_at_each(rest, ':');
        lemma_outer_spaces(rest);
        lemma_pieces_some(rest, is_mark(':'));
        lemma_space_around(before.last(), s.last());
        assert(each_trimmed(all) =~= each_trimmed(before));
    }
    if s.len() > 0 && is_space(s[0]) {
        let rest = s.skip(1);
        let before = split_at_each(rest, ':');
        lemma_outer_spaces(rest);
        lemma_pieces_behind(s[0], rest, ':');
        assert(seq![s[0]] + rest =~= s);
        lemma_space_around(before[0], s[0]);
        assert(each_trimmed(all) =~= each_trimmed(before));
    }
}

proof fn lemma_fields(fields: Seq<Seq<char>>, text: Seq<char>)
    requires
        fields.len() > 0,
        forall|i: int| 0 <= i < fields.len() ==> !(#[trigger] fields[i]).contains(':'),
        text == joined(fields, seq![':']),
    ensures
        mount_fields(text) == each_trimmed(fields),
{
    law_joining_is_undone_by_cutting(fields, ':');
    lemma_outer_spaces(trimmed_start(text));
    lemma_outer_spaces(text);
    assert(mount_fields(text) =~= each_trimmed(split_at_each(trimmed(text), ':')));
}

/// A text that holds something but white space is not trimmed away.
proof fn lemma_something_left(s: Seq<char>, i: int)
    requires
        0 <= i < s.len(),
        !is_space(s[i]),
    ensures
        trimmed(s).len() > 0,
{
    law_trimming_takes_white_space_alone(s);
    let (a, b) = choose|a: int, b: int| is_core(s, a, b, trimmed(s));
}

proof fn lemma_rooted_is_something(fields: Seq<Seq<char>>)
    requires
        fields.len() > 0,
        rooted(trimmed(fields[0])),
    ensures
        trimmed(joined(fields, seq![':'])).len() > 0,
    decreases fields.len(),
{
    let text = joined(fields, seq![':']);
    let first = fields[0];
    law_trimming_takes_white_space_alone(first);
    let (a, b) = choose|a: int, b: int| is_core(first, a, b, trimmed(first));
    assert(trimmed(first)[0] == first[a]);
    lemma_begins(fields, seq![':']);
    assert(text[a] == first[a]);
    lemma_something_left(text, a);
}

proof fn lemma_begins(fields: Seq<Seq<char>>, mark: Seq<char>)
    requires
        fields.len() > 0,
    ensures
        fields[0].len() <= joined(fields, mark).len(),
        forall|i: int| 0 <= i < fields[0].len() ==> joined(fields, mark)[i] == fields[0][i],
    decreases fields.len(),
{
    if fields.len() > 1 {
        lemma_begins(fields.drop_last(), mark);
    }
}

proof fn lemma_absolute_is_kept(path: Seq<char>, home: Option<Seq<char>>)
    requires
        rooted(path),
    ensures
        home_expanded(path, home) == path,
{
    reveal_strlit("~");
    assert(!rooted("~"@));
    assert(!"~"@.contains('/'));
    law_a_text_without_the_mark_is_whole("~"@, '/');
    reveal_with_fuel(crate::path::kept_names, 2);
    assert(seq!["~"@].drop_last() =~= Seq::<Seq<char>>::empty());
    reveal_strlit(".");
    assert("~"@[0] != "."@[0]);
    assert(names_in("~"@).len() == 1);
}

// --- Reading -----------------------------------------------------------------

/// A typed source and destination are read as they are, without white space around
/// them. The mount is writable where a last field says `rw`, and not where it says
/// `ro` or there is none, whether or not a destination is named.
pub proof fn law_a_typed_mount_is_read(
    source: Seq<char>,
    destination: Seq<char>,
    access: Seq<char>,
    home: Option<Seq<char>>,
)
    requires
        !source.contains(':'),
        !destination.contains(':'),
        !access.contains(':'),
        rooted(trimmed(source)),
        rooted(trimmed(destination)),
        trimmed(access) == "ro"@ || trimmed(access) == "rw"@,
    ensures
        ({
            let writable = trimmed(access) == "rw"@;
            let at = trimmed(source);
            let to = trimmed(destination);
            &&& mount_asked(source + seq![':'] + destination + seq![':'] + access, home) == Ok::<
                LaunchMountView,
                Seq<char>,
            >(LaunchMountView { source: at, destination: Some(to), writable })
            &&& mount_asked(source + seq![':'] + access, home) == Ok::<LaunchMountView, Seq<char>>(
                LaunchMountView { source: at, destination: None, writable },
            )
            &&& mount_asked(source + seq![':'] + destination, home) == Ok::<
                LaunchMountView,
                Seq<char>,
            >(LaunchMountView { source: at, destination: Some(to), writable: false })
            &&& mount_asked(source, home) == Ok::<LaunchMountView, Seq<char>>(
                LaunchMountView { source: at, destination: None, writable: false },
            )
        }),
{
    let mark = seq![':'];
    let at = trimmed(source);
    let to = trimmed(destination);
    let word = trimmed(access);
    reveal_strlit("ro");
    reveal_strlit("rw");
    assert("ro"@[1] != "rw"@[1]);
    assert(at[0] == '/' && to[0] == '/');
    assert("ro"@[0] == 'r' && "rw"@[0] == 'r');
    lemma_absolute_is_kept(at, home);
    lemma_absolute_is_kept(to, home);
    let three = seq![source, destination, access];
    let named = seq![source, access];
    let both = seq![source, destination];
    let one = seq![source];
    assert(three.drop_last() =~= both);
    assert(both.drop_last() =~= one);
    assert(named.drop_last() =~= one);
    assert(joined(one, mark) == source);
    assert(joined(both, mark) == source + mark + destination);
    assert(joined(named, mark) == source + mark + access);
    assert(joined(three, mark) == source + mark + destination + mark + access);
    lemma_fields(three, joined(three, mark));
    lemma_fields(named, joined(named, mark));
    lemma_fields(both, joined(both, mark));
    lemma_fields(one, joined(one, mark));
    lemma_rooted_is_something(three);
    lemma_rooted_is_something(named);
    lemma_rooted_is_something(both);
    lemma_rooted_is_something(one);
    assert(path_fields(joined(three, mark)) =~= seq![at, to]);
    assert(path_fields(joined(named, mark)) =~= seq![at]);
    assert(path_fields(joined(both, mark)) =~= seq![at, to]);
    assert(path_fields(joined(one, mark)) =~= seq![at]);
}

/// Whether the last field of a text is `word`.
pub open spec fn ends_in_field(text: Seq<char>, word: Seq<char>) -> bool {
    exists|head: Seq<char>, tail: Seq<char>|
        text == #[trigger] (head + seq![':'] + tail) && !tail.contains(':') && trimmed(tail) == word
}

/// A mount that is read is writable exactly where the text, trimmed, has a last
/// field behind a colon that is `rw`.
pub proof fn law_only_rw_grants_writing(text: Seq<char>, home: Option<Seq<char>>)
    ensures
        mount_asked(text, home) matches Ok(mount) ==> mount.writable == ends_in_field(
            trimmed(text),
            "rw"@,
        ),
{
    if let Ok(mount) = mount_asked(text, home) {
        let whole = trimmed(text);
        let parts = split_at_each(whole, ':');
        law_cutting_is_undone_by_joining(whole, ':');
        assert(mount_fields(text).len() == parts.len());
        assert(mount_fields(text).last() == trimmed(parts.last()));
        if mount.writable {
            assert(path_fields(text).len() == parts.len() - 1);
            let head = joined(parts.drop_last(), seq![':']);
            let tail = parts.last();
            assert(!parts[parts.len() - 1].contains(':'));
            assert(whole == head + seq![':'] + tail);
        }
        if ends_in_field(whole, "rw"@) {
            let (head, tail) = choose|head: Seq<char>, tail: Seq<char>|
                whole == #[trigger] (head + seq![':'] + tail) && !tail.contains(':') && trimmed(
                    tail,
                ) == "rw"@;
            assert(head + seq![':'] + tail =~= head.push(':') + tail);
            law_cutting_at_a_mark(head, tail, ':');
            law_a_text_without_the_mark_is_whole(tail, ':');
            assert(parts.last() == tail);
        }
    }
}

/// What is mounted is named by an absolute path on both sides, however it was typed.
pub proof fn law_mounted_paths_are_absolute(text: Seq<char>, home: Option<Seq<char>>)
    ensures
        mount_asked(text, home) matches Ok(mount) ==> rooted(mount.source) && (
        mount.destination matches Some(to) ==> rooted(to)),
{
}

/// A text of more fields than a source, a destination and an access is refused, and
/// so is one whose source is no absolute path with no home to take it against.
pub proof fn law_other_texts_are_no_mounts(fields: Seq<Seq<char>>, home: Option<Seq<char>>)
    requires
        fields.len() > 0,
        forall|i: int| 0 <= i < fields.len() ==> !(#[trigger] fields[i]).contains(':'),
    ensures
        ({
            let asked = mount_asked(joined(fields, seq![':']), home);
            let access = trimmed(fields.last());
            &&& fields.len() > 3 ==> asked is Err
            &&& fields.len() == 3 && access != "ro"@ && access != "rw"@ ==> asked is Err
            &&& home is None && !rooted(trimmed(fields[0])) ==> asked is Err
            &&& home is None && fields.len() == 2 && access != "ro"@ && access != "rw"@ && !rooted(
                access,
            ) ==> asked is Err
            &&& home is None && fields.len() == 3 && !rooted(trimmed(fields[1])) ==> asked is Err
        }),
{
    lemma_fields(fields, joined(fields, seq![':']));
}

/// White space around a typed mount makes no difference.
pub proof fn law_outer_spaces_make_no_difference(
    before: Seq<char>,
    text: Seq<char>,
    behind: Seq<char>,
    home: Option<Seq<char>>,
)
    requires
        forall|i: int| 0 <= i < before.len() ==> is_space(#[trigger] before[i]),
        forall|i: int| 0 <= i < behind.len() ==> is_space(#[trigger] behind[i]),
    ensures
        mount_asked(before + text + behind, home) == mount_asked(text, home),
{
    law_trimming_takes_white_space_alone(text);
    let (a, b) = choose|a: int, b: int| is_core(text, a, b, trimmed(text));
    let core = trimmed(text);
    let head = before + text.take(a);
    let tail = text.skip(b) + behind;
    assert(before + text + behind =~= head + core + tail);
    assert forall|i: int| 0 <= i < head.len() implies is_space(#[trigger] head[i]) by {
        if i >= before.len() {
            assert(is_space(text[i - before.len()]));
        }
    }
    assert forall|i: int| 0 <= i < tail.len() implies is_space(#[trigger] tail[i]) by {
        if i < text.len() - b {
            assert(is_space(text[b + i]));
        } else {
            assert(tail[i] == behind[i - (text.len() - b)]);
        }
    }
    if core.len() > 0 {
        assert(core[0] == text[a] && core.last() == text[b - 1]);
    }
    law_what_stands_between_spaces(head, core, tail);
}

/// A path that begins at `~` is taken against the home directory, name by name. Any
/// other path, and every path where no home is known, stays as it is.
pub proof fn law_home_stands_for_a_tilde(text: Seq<char>, home: Option<Seq<char>>)
    ensures
        ({
            let told = home_expanded(text, home);
            let tilde = !rooted(text) && names_in(text).len() > 0 && names_in(text)[0] == "~"@;
            &&& home is None || !tilde ==> told == text
            &&& home matches Some(place) ==> (tilde ==> {
                &&& rooted(told) == rooted(place)
                &&& names_in(told) == names_in(place) + names_in(text).skip(1)
            })
        }),
{
    reveal_strlit("~");
    assert(!rooted("~"@));
    assert(!"~"@.contains('/'));
    law_a_text_without_the_mark_is_whole("~"@, '/');
    reveal_with_fuel(crate::path::kept_names, 2);
    assert(seq!["~"@].drop_last() =~= Seq::<Seq<char>>::empty());
    assert(names_in("~"@) =~= seq!["~"@]);
    let names = names_in(text);
    if let Some(place) = home {
        if !rooted(text) && names.len() > 0 && names[0] == "~"@ {
            assert(names.take(1) =~= seq!["~"@]);
            assert(below(text, "~"@) is Some);
            let rest = below(text, "~"@)->Some_0;
            lemma_no_names(Seq::<char>::empty());
            if names.len() > 1 {
                lemma_behind(text, 1);
                lemma_under(place, rest);
            } else {
                assert(rest =~= Seq::<char>::empty());
                lemma_ended(place);
                assert(place + rest =~= place);
                assert(place.push('/') + rest =~= place.push('/'));
                assert(names.skip(1) =~= Seq::<Seq<char>>::empty());
                assert(names_in(place) + names.skip(1) =~= names_in(place));
            }
        } else if names.len() > 0 {
            if names.take(1) == seq!["~"@] {
                assert(names.take(1)[0] == "~"@);
            }
        }
    }
}

proof fn lemma_under(base: Seq<char>, rest: Seq<char>)
    requires
        !rooted(rest),
        split_at_each(rest, '/').len() > 0,
        split_at_each(rest, '/')[0] != "."@,
        names_in(rest).len() > 0,
    ensures
        rooted(under(base, rest)) == rooted(base),
        names_in(under(base, rest)) == names_in(base) + names_in(rest),
{
    lemma_no_names(Seq::<char>::empty());
    if base.len() == 0 {
        assert(base =~= Seq::<char>::empty());
        assert(base + rest =~= rest);
        assert(names_in(base) + names_in(rest) =~= names_in(rest));
    } else if base.last() == '/' {
        let start = base.drop_last();
        assert(start.push('/') =~= base);
        lemma_ended(start);
        lemma_split_at_a_mark(start, rest, '/');
        lemma_names_of_both(split_at_each(start, '/'), split_at_each(rest, '/'));
    } else {
        lemma_split_at_a_mark(base, rest, '/');
        lemma_names_of_both(split_at_each(base, '/'), split_at_each(rest, '/'));
    }
}

} // verus!
