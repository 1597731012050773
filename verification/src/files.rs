//! The files an agent touched or named, and the operator's place among them.

use vstd::prelude::*;

use crate::agent::{sandbox_workspace, SandboxLayout};
use crate::event::{BlockView, DetailBlock};
use crate::order::{
    dedup, reorders, sort_texts, stable_sort, stably_sorted, strictly_ordered, values,
    without_ranks,
};
use crate::path::{
    below, holder, is_absolute, join, key, law_what_is_left_leads_back, lemma_no_names,
    lemma_no_names_is_empty, lemma_upto, names_in, parent, path_key, rooted, same_place,
    strip_prefix, under, upto, FileKey,
};
use crate::text::{
    chars_of, contains_text, has_char, holds, is_space, lemma_holds_push, pieces, space,
    split_words, text_range, view_of, views, words,
};

verus! {

/// Which row the Files view has selected, and whether it lists the whole
/// session.
#[derive(Clone, Copy, Debug, PartialEq, Eq, Structural)]
pub struct FilesView {
    pub selected: usize,
    pub show_all: bool,
}

impl Default for FilesView {
    fn default() -> (r: FilesView)
        ensures
            r == (FilesView { selected: 0, show_all: false }),
    {
        FilesView { selected: 0, show_all: false }
    }
}

impl FilesView {
    /// On the next row, no further than `last`.
    pub open spec fn next(self, last: usize) -> FilesView {
        FilesView {
            selected: if self.selected < last {
                (self.selected + 1) as usize
            } else {
                last
            },
            ..self
        }
    }

    /// On the row before.
    pub open spec fn prev(self) -> FilesView {
        FilesView {
            selected: if self.selected > 0 {
                (self.selected - 1) as usize
            } else {
                0
            },
            ..self
        }
    }

    pub fn selected_index(&self) -> (r: usize)
        ensures
            r == self.selected,
    {
        self.selected
    }

    pub fn shows_all(&self) -> (r: bool)
        ensures
            r == self.show_all,
    {
        self.show_all
    }

    /// Move to the next row, where `last` is the final one.
    pub fn select_next(&mut self, last: usize)
        ensures
            *final(self) == old(self).next(last),
    {
        self.selected = if self.selected < last {
            self.selected + 1
        } else {
            last
        };
    }

    pub fn select_prev(&mut self)
        ensures
            *final(self) == old(self).prev(),
    {
        self.selected = self.selected.saturating_sub(1);
    }

    pub fn select_first(&mut self)
        ensures
            *final(self) == (FilesView { selected: 0, ..*old(self) }),
    {
        self.selected = 0;
    }

    pub fn select_last(&mut self, last: usize)
        ensures
            *final(self) == (FilesView { selected: last, ..*old(self) }),
    {
        self.selected = last;
    }

    /// List the whole session or the focused entry alone, from the first row.
    pub fn set_scope(&mut self, show_all: bool)
        ensures
            *final(self) == (FilesView { selected: 0, show_all }),
    {
        self.show_all = show_all;
        self.selected = 0;
    }

    pub fn toggle_scope(&mut self)
        ensures
            *final(self) == (FilesView { selected: 0, show_all: !old(self).show_all }),
    {
        self.show_all = !self.show_all;
        self.selected = 0;
    }
}

// --- Resolving ---------------------------------------------------------------

/// Where on the host a path is that an agent reported: a path inside its
/// sandbox is below `root`, another absolute path is a host path already, and
/// a relative one is relative to `root`.
pub open spec fn resolved(root: Seq<char>, reported: Seq<char>) -> Seq<char> {
    if rooted(reported) {
        match below(reported, sandbox_workspace()) {
            Some(rest) => under(root, rest),
            None => reported,
        }
    } else {
        under(root, reported)
    }
}

/// Where on the host a path is that an agent reported.
pub fn resolve(root: &str, reported: &str) -> (r: String)
    ensures
        r@ == resolved(root@, reported@),
{
    if is_absolute(reported) {
        let layout = SandboxLayout::default();
        match strip_prefix(reported, layout.workspace.as_str()) {
            Some(rest) => join(root, rest.as_str()),
            None => reported.to_owned(),
        }
    } else {
        join(root, reported)
    }
}

/// Where on the host a named path is to be looked for. Without a root, only an
/// absolute path can be.
pub open spec fn looked_for(root: Option<Seq<char>>, path: Seq<char>) -> Option<Seq<char>> {
    match root {
        Some(root) => Some(
            if rooted(path) {
                resolved(root, path)
            } else {
                under(root, path)
            },
        ),
        None => if rooted(path) {
            Some(path)
        } else {
            None
        },
    }
}

/// Where on the host a named path is to be looked for.
pub fn place_of(root: &Option<String>, path: &str) -> (r: Option<String>)
    ensures
        view_of(r) == looked_for(view_of(*root), path@),
{
    match root {
        Some(root) => if is_absolute(path) {
            Some(resolve(root.as_str(), path))
        } else {
            Some(join(root.as_str(), path))
        },
        None => if is_absolute(path) {
            Some(path.to_owned())
        } else {
            None
        },
    }
}

/// One file as the list shows it.
#[derive(Debug, PartialEq, Eq)]
pub struct FileItem {
    /// The path as the agent wrote it.
    pub reported: String,
    /// The path on this host.
    pub resolved: String,
    /// The directory it is listed under.
    pub root: String,
    /// What is left of the path below that.
    pub relative: String,
}

/// What a row shows for a reported path: a file under `root` is listed under
/// it, and another under the directory that holds it.
pub open spec fn listed_as(root: Seq<char>, reported: Seq<char>, item: FileItem) -> bool {
    let place = resolved(root, reported);
    &&& item.reported@ == reported
    &&& item.resolved@ == place
    &&& match below(place, root) {
        Some(rest) => item.root@ == root && item.relative@ == rest,
        None => {
            let outside = match holder(place) {
                Some(directory) => directory,
                None => "/"@,
            };
            item.root@ == outside && item.relative@ == match below(place, outside) {
                Some(rest) => rest,
                None => place,
            }
        },
    }
}

/// What a row lists leads to the file: the directory it is listed under, with
/// the path below it, is the path on this host.
pub proof fn law_a_row_leads_to_its_file(root: Seq<char>, reported: Seq<char>, item: FileItem)
    requires
        listed_as(root, reported, item),
    ensures
        same_place(under(item.root@, item.relative@), item.resolved@),
{
    let place = resolved(root, reported);
    if below(place, root) is Some {
        law_what_is_left_leads_back(place, root);
    } else {
        let outside = item.root@;
        let names = names_in(place);
        if names.len() > 0 {
            lemma_upto(place, (names.len() - 1) as nat);
            assert(names.take(names.len() - 1).len() == names.len() - 1);
            assert(below(place, outside) is Some);
            law_what_is_left_leads_back(place, outside);
        } else if rooted(place) {
            lemma_upto(place, 0);
            assert(upto(place, 0) == "/"@);
            assert(names.take(0) =~= Seq::<Seq<char>>::empty());
            assert(below(place, outside) is Some);
            law_what_is_left_leads_back(place, outside);
        } else {
            // A path with neither a name nor the root is empty, and then so is
            // the root that it was taken against.
            lemma_no_names_is_empty(place);
            assert(resolved(root, reported).len() == 0);
            assert(root.len() == 0);
            lemma_no_names(root);
        }
    }
}

fn item_of(root: &str, reported: String) -> (r: FileItem)
    ensures
        listed_as(root@, reported@, r),
        r.reported == reported,
{
    let place = resolve(root, reported.as_str());
    match strip_prefix(place.as_str(), root) {
        Some(rest) => FileItem {
            reported,
            resolved: place,
            root: root.to_owned(),
            relative: rest,
        },
        None => {
            let outside = match parent(place.as_str()) {
                Some(directory) => directory,
                None => "/".to_owned(),
            };
            let relative = match strip_prefix(place.as_str(), outside.as_str()) {
                Some(rest) => rest,
                None => place.clone(),
            };
            FileItem { reported, resolved: place, root: outside, relative }
        },
    }
}

/// Whether `key` is the place of `item` in the list.
pub open spec fn keyed(key: FileKey, item: FileItem) -> bool {
    views(key.root@) == path_key(item.root@) && views(key.relative@) == path_key(item.relative@)
}

/// Whether `items` are the rows for the reported paths, ordered by directory
/// and then by the path below it.
pub open spec fn ordered_items(root: Seq<char>, reported: Seq<String>, items: Seq<FileItem>) -> bool {
    exists|before: Seq<(FileKey, FileItem)>, after: Seq<(FileKey, FileItem)>|
        {
            &&& before.len() == reported.len()
            &&& forall|i: int|
                0 <= i < before.len() ==> listed_as(
                    root,
                    reported[i]@,
                    (#[trigger] before[i]).1,
                ) && keyed(before[i].0, before[i].1)
            &&& #[trigger] stably_sorted(before, after)
            &&& items == values(after)
        }
}

/// The rows for the reported paths, in the order the list shows them.
pub fn items(root: &str, reported: Vec<String>) -> (r: Vec<FileItem>)
    ensures
        ordered_items(root@, reported@, r@),
        forall|i: int|
            0 <= i < r@.len() ==> same_place(
                under((#[trigger] r@[i]).root@, r@[i].relative@),
                r@[i].resolved@,
            ),
{
    let ghost given = reported@;
    let mut rest = reported;
    let mut pairs: Vec<(FileKey, FileItem)> = Vec::new();
    while rest.len() > 0
        invariant
            given.len() == pairs@.len() + rest@.len(),
            rest@ == given.skip(pairs@.len() as int),
            forall|i: int|
                0 <= i < pairs@.len() ==> listed_as(
                    root@,
                    given[i]@,
                    (#[trigger] pairs@[i]).1,
                ) && keyed(pairs@[i].0, pairs@[i].1),
        decreases rest@.len(),
    {
        let path = rest.remove(0);
        let ghost n = pairs@.len() as int;
        assert(path == given[n]);
        assert(given.skip(n).remove(0) =~= given.skip(n + 1));
        let item = item_of(root, path);
        let place = FileKey { root: key(item.root.as_str()), relative: key(item.relative.as_str()) };
        pairs.push((place, item));
    }
    let ghost before = pairs@;
    let held = stable_sort(pairs);
    assert(stably_sorted(before, held@));
    let ghost sorted = held@;
    let r = without_ranks(held);
    proof {
        let order = choose|order: Seq<int>| reorders(order, before, sorted);
        assert forall|i: int| 0 <= i < r@.len() implies same_place(
            under((#[trigger] r@[i]).root@, r@[i].relative@),
            r@[i].resolved@,
        ) by {
            assert(r@[i] == sorted[i].1);
            assert(sorted[i] == before[order[i]]);
            law_a_row_leads_to_its_file(root@, given[order[i]]@, r@[i]);
        }
    }
    r
}

// --- Mentions ----------------------------------------------------------------

/// The characters that prose wraps paths in.
pub open spec fn is_wrapping(c: char) -> bool {
    c == '`' || c == '\'' || c == '"' || c == '(' || c == ')' || c == '[' || c == ']' || c == '{'
        || c == '}' || c == ',' || c == ':' || c == ';'
}

fn wrapping(c: char) -> (r: bool)
    ensures
        r == is_wrapping(c),
{
    c == '`' || c == '\'' || c == '"' || c == '(' || c == ')' || c == '[' || c == ']' || c == '{'
        || c == '}' || c == ',' || c == ':' || c == ';'
}

/// `s` without what prose wraps it in.
pub open spec fn unwrapped(s: Seq<char>) -> Seq<char>
    decreases s.len(),
{
    if s.len() == 0 {
        s
    } else if is_wrapping(s[0]) {
        unwrapped(s.skip(1))
    } else if is_wrapping(s.last()) {
        unwrapped(s.drop_last())
    } else {
        s
    }
}

/// The path that a token may be: what is left of it without its wrapping, where
/// that holds a slash or a dot.
pub open spec fn path_in(token: Seq<char>) -> Option<Seq<char>> {
    let bare = unwrapped(token);
    if bare.contains('/') || bare.contains('.') {
        Some(bare)
    } else {
        None
    }
}

fn unwrap_token(token: &str) -> (r: String)
    ensures
        r@ == unwrapped(token@),
{
    let v = chars_of(token);
    let mut from: usize = 0;
    let mut to: usize = v.len();
    assert(v@.subrange(0, v@.len() as int) =~= v@);
    while from < to && wrapping(v[from])
        invariant
            from <= to == v@.len(),
            unwrapped(v@.subrange(from as int, to as int)) == unwrapped(v@),
        decreases to - from,
    {
        assert(v@.subrange(from as int, to as int).skip(1) =~= v@.subrange(from + 1, to as int));
        from = from + 1;
    }
    while from < to && wrapping(v[to - 1])
        invariant
            from <= to <= v@.len(),
            from < to ==> !is_wrapping(v@[from as int]),
            unwrapped(v@.subrange(from as int, to as int)) == unwrapped(v@),
        decreases to - from,
    {
        let ghost here = v@.subrange(from as int, to as int);
        assert(here.drop_last() =~= v@.subrange(from as int, to - 1));
        assert(here[0] == v@[from as int]);
        assert(here.last() == v@[to - 1]);
        to = to - 1;
    }
    proof {
        let here = v@.subrange(from as int, to as int);
        if from < to {
            assert(here[0] == v@[from as int]);
            assert(here.last() == v@[to - 1]);
        }
    }
    text_range(&v, from, to)
}

/// The path that a token may be.
pub fn path_like(token: &str) -> (r: Option<String>)
    ensures
        view_of(r) == path_in(token@),
{
    let bare = unwrap_token(token);
    if has_char(bare.as_str(), '/') || has_char(bare.as_str(), '.') {
        Some(bare)
    } else {
        None
    }
}

/// What an entry says of files: the paths it changed, and its text.
#[derive(Debug, PartialEq, Eq)]
pub struct EntryText {
    pub changed: Vec<String>,
    pub text: String,
}

impl EntryText {
    pub fn copied(&self) -> (r: EntryText)
        ensures
            r.changed@ == self.changed@,
            r.text == self.text,
    {
        EntryText { changed: self.changed.clone(), text: self.text.clone() }
    }
}

/// The text of one block.
pub open spec fn block_text(block: BlockView) -> Seq<char> {
    match block {
        BlockView::Text(text) => text,
        BlockView::Code { text, .. } => text,
    }
}

/// A summary and the blocks behind it as one text, each on a line of its own.
pub open spec fn whole_text(summary: Seq<char>, blocks: Seq<BlockView>) -> Seq<char>
    decreases blocks.len(),
{
    if blocks.len() == 0 {
        summary
    } else {
        whole_text(summary, blocks.drop_last()).push('\n') + block_text(blocks.last())
    }
}

/// A summary and the blocks behind it as one text.
pub fn entry_text(summary: &str, blocks: &Vec<DetailBlock>) -> (r: String)
    ensures
        r@ == whole_text(summary@, crate::event::block_views(blocks@)),
{
    let ghost all = crate::event::block_views(blocks@);
    let mut r = summary.to_owned();
    let mut i: usize = 0;
    assert(all.take(0) =~= Seq::<BlockView>::empty());
    while i < blocks.len()
        invariant
            i <= blocks@.len(),
            all == crate::event::block_views(blocks@),
            r@ == whole_text(summary@, all.take(i as int)),
        decreases blocks.len() - i,
    {
        proof {
            assert(all.take(i + 1).drop_last() =~= all.take(i as int));
            assert(all.take(i + 1).last() == blocks@[i as int]@);
        }
        r.push('\n');
        match &blocks[i] {
            DetailBlock::Text(text) => {
                r.append(text.as_str());
            },
            DetailBlock::Code { text, .. } => {
                r.append(text.as_str());
            },
        }
        i = i + 1;
    }
    assert(all.take(all.len() as int) =~= all);
    r
}

/// Whether a token is `path` and the file it means is there.
pub open spec fn token_names(
    token: Seq<char>,
    root: Option<Seq<char>>,
    present: Seq<String>,
    path: Seq<char>,
) -> bool {
    &&& path_in(token) == Some(path)
    &&& looked_for(root, path) matches Some(place) && holds(present, place)
}

/// Whether one of the first `n` tokens is `path` and the file it means is
/// there.
pub open spec fn tokens_name(
    tokens: Seq<Seq<char>>,
    n: int,
    root: Option<Seq<char>>,
    present: Seq<String>,
    path: Seq<char>,
) -> bool {
    exists|k: int| 0 <= k < n && token_names(#[trigger] tokens[k], root, present, path)
}

/// Whether an entry's text names `path` and the file it means is there.
pub open spec fn names_file(
    text: Seq<char>,
    root: Option<Seq<char>>,
    present: Seq<String>,
    path: Seq<char>,
) -> bool {
    tokens_name(words(text), words(text).len() as int, root, present, path)
}

proof fn lemma_tokens_name_step(
    tokens: Seq<Seq<char>>,
    n: int,
    root: Option<Seq<char>>,
    present: Seq<String>,
    path: Seq<char>,
)
    requires
        0 <= n < tokens.len(),
    ensures
        tokens_name(tokens, n + 1, root, present, path) == (tokens_name(
            tokens,
            n,
            root,
            present,
            path,
        ) || token_names(tokens[n], root, present, path)),
{
    if token_names(tokens[n], root, present, path) {
        assert(tokens_name(tokens, n + 1, root, present, path));
    }
    if tokens_name(tokens, n + 1, root, present, path) {
        let k = choose|k: int|
            0 <= k < n + 1 && token_names(#[trigger] tokens[k], root, present, path);
        assert(k < n || k == n);
    }
}

/// Whether an entry changed `path`, or names it and the file it means is there.
pub open spec fn mentions(
    entry: EntryText,
    root: Option<Seq<char>>,
    present: Seq<String>,
    path: Seq<char>,
) -> bool {
    holds(entry.changed@, path) || names_file(entry.text@, root, present, path)
}

/// The host paths to look for: where each path that a text may name would be.
pub fn places_named(text: &str, root: &Option<String>) -> (r: Vec<String>)
    ensures
        forall|place: Seq<char>|
            holds(r@, place) == exists|k: int|
                0 <= k < words(text@).len() && path_in(#[trigger] words(text@)[k]) is Some
                    && looked_for(view_of(*root), path_in(words(text@)[k])->Some_0) == Some(place),
{
    let tokens = split_words(text);
    let ghost all = words(text@);
    let mut r: Vec<String> = Vec::new();
    let mut i: usize = 0;
    while i < tokens.len()
        invariant
            i <= tokens@.len(),
            views(tokens@) == all,
            all == words(text@),
            forall|place: Seq<char>|
                holds(r@, place) == exists|k: int|
                    0 <= k < i && path_in(#[trigger] all[k]) is Some && looked_for(
                        view_of(*root),
                        path_in(all[k])->Some_0,
                    ) == Some(place),
        decreases tokens.len() - i,
    {
        let ghost had = r@;
        assert(all[i as int] == tokens@[i as int]@);
        let mut added: Option<String> = None;
        if let Some(path) = path_like(tokens[i].as_str()) {
            added = place_of(root, path.as_str());
        }
        match added {
            Some(place) => {
                r.push(place);
                proof {
                    assert(r@ =~= had.push(place));
                    assert forall|p: Seq<char>|
                        holds(r@, p) == exists|k: int|
                            0 <= k < i + 1 && path_in(#[trigger] all[k]) is Some && looked_for(
                                view_of(*root),
                                path_in(all[k])->Some_0,
                            ) == Some(p) by {
                        lemma_holds_push(had, place, p);
                        if p == place@ {
                            assert(path_in(all[i as int]) is Some);
                        }
                    }
                }
            },
            None => {},
        }
        i = i + 1;
    }
    assert(all.len() == tokens@.len());
    r
}

fn add_named(paths: &mut Vec<String>, text: &str, root: &Option<String>, present: &Vec<String>)
    ensures
        forall|path: Seq<char>|
            #[trigger] holds(final(paths)@, path) == (holds(old(paths)@, path) || names_file(
                text@,
                view_of(*root),
                present@,
                path,
            )),
{
    let tokens = split_words(text);
    let ghost all = words(text@);
    let ghost before = paths@;
    let ghost at = view_of(*root);
    let mut i: usize = 0;
    while i < tokens.len()
        invariant
            i <= tokens@.len(),
            views(tokens@) == all,
            all == words(text@),
            at == view_of(*root),
            before == old(paths)@,
            forall|path: Seq<char>|
                #[trigger] holds(paths@, path) == (holds(before, path) || tokens_name(
                    all,
                    i as int,
                    at,
                    present@,
                    path,
                )),
        decreases tokens.len() - i,
    {
        let ghost had = paths@;
        let ghost n: int = i + 1;
        assert(all[i as int] == tokens@[i as int]@);
        let mut named: Option<String> = None;
        if let Some(path) = path_like(tokens[i].as_str()) {
            let there = match place_of(root, path.as_str()) {
                Some(place) => contains_text(present, place.as_str()),
                None => false,
            };
            if there {
                named = Some(path);
            }
        }
        proof {
            assert forall|p: Seq<char>|
                token_names(all[i as int], at, present@, p) == (view_of(named) == Some(p)) by {}
        }
        if let Some(path) = named {
            paths.push(path);
            proof {
                assert(paths@ =~= had.push(path));
                assert forall|p: Seq<char>|
                    #[trigger] holds(paths@, p) == (holds(before, p) || tokens_name(
                        all,
                        n,
                        at,
                        present@,
                        p,
                    )) by {
                    lemma_holds_push(had, path, p);
                    lemma_tokens_name_step(all, i as int, at, present@, p);
                    assert(holds(had, p) == (holds(before, p) || tokens_name(
                        all,
                        i as int,
                        at,
                        present@,
                        p,
                    )));
                    assert(token_names(all[i as int], at, present@, p) == (path@ == p));
                }
            }
        } else {
            proof {
                assert forall|p: Seq<char>|
                    #[trigger] holds(paths@, p) == (holds(before, p) || tokens_name(
                        all,
                        n,
                        at,
                        present@,
                        p,
                    )) by {
                    lemma_tokens_name_step(all, i as int, at, present@, p);
                    assert(holds(had, p) == (holds(before, p) || tokens_name(
                        all,
                        i as int,
                        at,
                        present@,
                        p,
                    )));
                    assert(!token_names(all[i as int], at, present@, p));
                }
            }
        }
        i = i + 1;
        assert(n == i);
    }
    assert(all.len() == tokens@.len());
}

/// The files that the entries changed or name, in dictionary order and each
/// once. `present` are the host paths that are files.
pub fn mentioned(entries: &Vec<EntryText>, root: &Option<String>, present: &Vec<String>) -> (r: Vec<
    String,
>)
    ensures
        strictly_ordered(r@),
        forall|path: Seq<char>|
            holds(r@, path) == exists|e: int|
                0 <= e < entries@.len() && mentions(
                    #[trigger] entries@[e],
                    view_of(*root),
                    present@,
                    path,
                ),
{
    let mut paths: Vec<String> = Vec::new();
    let mut e: usize = 0;
    while e < entries.len()
        invariant
            e <= entries@.len(),
            forall|path: Seq<char>|
                holds(paths@, path) == exists|k: int|
                    0 <= k < e && mentions(
                        #[trigger] entries@[k],
                        view_of(*root),
                        present@,
                        path,
                    ),
        decreases entries.len() - e,
    {
        let ghost had = paths@;
        let entry = &entries[e];
        let mut changed = entry.changed.clone();
        paths.append(&mut changed);
        let ghost middle = paths@;
        proof {
            assert(middle =~= had + entry.changed@);
        }
        add_named(&mut paths, entry.text.as_str(), root, present);
        proof {
            assert forall|path: Seq<char>|
                holds(paths@, path) == exists|k: int|
                    0 <= k < e + 1 && mentions(
                        #[trigger] entries@[k],
                        view_of(*root),
                        present@,
                        path,
                    ) by {
                lemma_holds_both(had, entry.changed@, path);
                if mentions(entries@[e as int], view_of(*root), present@, path) {
                    assert(holds(paths@, path));
                }
                if holds(paths@, path) && !mentions(
                    entries@[e as int],
                    view_of(*root),
                    present@,
                    path,
                ) {
                    assert(holds(had, path));
                }
            }
        }
        e = e + 1;
    }
    let ghost gathered = paths@;
    let sorted = sort_texts(paths);
    proof {
        crate::tag_picker::lemma_same_texts(gathered, sorted@);
    }
    dedup(sorted)
}

proof fn lemma_holds_both(a: Seq<String>, b: Seq<String>, t: Seq<char>)
    ensures
        holds(a + b, t) == (holds(a, t) || holds(b, t)),
{
    let both = a + b;
    if holds(both, t) {
        let i = choose|i: int| 0 <= i < both.len() && (#[trigger] both[i])@ == t;
        if i < a.len() {
            assert(a[i]@ == t);
        } else {
            assert(b[i - a.len()]@ == t);
        }
    }
    if holds(a, t) {
        let i = choose|i: int| 0 <= i < a.len() && (#[trigger] a[i])@ == t;
        assert(both[i]@ == t);
    }
    if holds(b, t) {
        let i = choose|i: int| 0 <= i < b.len() && (#[trigger] b[i])@ == t;
        assert(both[a.len() + i]@ == t);
    }
}

/// The characters between which a reply's citations stand: white space and
/// brackets.
pub open spec fn is_divider(c: char) -> bool {
    is_space(c) || c == '(' || c == ')' || c == '[' || c == ']' || c == '{' || c == '}'
}

/// The pieces of a text that may cite a file: between white space and brackets,
/// without what prose wraps them in.
pub open spec fn citations(text: Seq<char>) -> Seq<Seq<char>> {
    pieces(text, |c: char| is_divider(c)).map_values(|p: Seq<char>| unwrapped(p)).filter(
        |p: Seq<char>| p.len() > 0,
    )
}

/// The pieces of a text between white space and brackets.
fn divided(text: &str) -> (r: Vec<String>)
    ensures
        views(r@) == pieces(text@, |c: char| is_divider(c)),
{
    let v = chars_of(text);
    let ghost cut = |c: char| is_divider(c);
    let mut done: Vec<String> = Vec::new();
    let mut current = String::new();
    let mut i: usize = 0;
    assert(v@.take(0) =~= Seq::<char>::empty());
    assert(views(done@).push(current@) =~= pieces(v@.take(0), cut));
    while i < v.len()
        invariant
            i <= v@.len(),
            cut == (|c: char| is_divider(c)),
            views(done@).push(current@) == pieces(v@.take(i as int), cut),
        decreases v.len() - i,
    {
        let c = v[i];
        proof {
            assert(v@.take(i + 1).drop_last() =~= v@.take(i as int));
            assert(v@.take(i + 1).last() == c);
        }
        let ghost before = views(done@).push(current@);
        if space(c) || c == '(' || c == ')' || c == '[' || c == ']' || c == '{' || c == '}' {
            done.push(current);
            current = String::new();
            assert(views(done@) =~= before);
            assert(views(done@).push(current@) =~= pieces(v@.take(i + 1), cut));
        } else {
            current.push(c);
            assert(views(done@).push(current@) =~= before.update(
                before.len() - 1,
                before.last().push(c),
            ));
        }
        i = i + 1;
    }
    assert(v@.take(v@.len() as int) =~= v@);
    let ghost before = views(done@).push(current@);
    done.push(current);
    assert(views(done@) =~= before);
    done
}

/// The pieces of a text that may cite a file.
pub fn candidates(text: &str) -> (r: Vec<String>)
    ensures
        views(r@) == citations(text@),
{
    let parts = divided(text);
    let ghost bare = views(parts@).map_values(|p: Seq<char>| unwrapped(p));
    let ghost kept = |p: Seq<char>| p.len() > 0;
    let mut r: Vec<String> = Vec::new();
    let mut i: usize = 0;
    proof {
        reveal_with_fuel(Seq::filter, 1);
        assert(bare.take(0) =~= Seq::<Seq<char>>::empty());
        assert(views(r@) =~= Seq::<Seq<char>>::empty());
    }
    while i < parts.len()
        invariant
            i <= parts@.len(),
            bare == views(parts@).map_values(|p: Seq<char>| unwrapped(p)),
            kept == (|p: Seq<char>| p.len() > 0),
            views(r@) == bare.take(i as int).filter(kept),
        decreases parts.len() - i,
    {
        let piece = unwrap_token(parts[i].as_str());
        let ghost had = views(r@);
        proof {
            assert(views(parts@)[i as int] == parts@[i as int]@);
            assert(bare.take(i + 1).drop_last() =~= bare.take(i as int));
            assert(bare.take(i + 1).last() == piece@);
            reveal_with_fuel(Seq::filter, 1);
        }
        if !piece.as_str().is_empty() {
            r.push(piece);
            assert(views(r@) =~= had.push(piece@));
        }
        i = i + 1;
    }
    assert(bare.take(bare.len() as int) =~= bare);
    r
}

} // verus!
