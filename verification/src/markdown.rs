//! What holds of every Markdown text that was split into prose and code.

use vstd::prelude::*;

use crate::event::{
    cleaned, fence_closed, fence_opened, law_cleaning_settles, markdown, read_line,
    read_lines, with_prose, BlockView, FenceView, Reading,
};
use crate::text::{
    is_mark, is_space, joined, lemma_pieces_some, split_at_each, trimmed_end,
};

verus! {

/// Whether no two blocks of prose stand side by side, and no prose ends in white
/// space.
pub open spec fn well_split(blocks: Seq<BlockView>) -> bool {
    &&& forall|i: int|
        0 <= i < blocks.len() - 1 ==> !((#[trigger] blocks[i]) is Text && blocks[i + 1] is Text)
    &&& forall|i: int|
        0 <= i < blocks.len() ==> ((#[trigger] blocks[i]) matches BlockView::Text(text)
            ==> trimmed_end(text) == text)
}

proof fn lemma_trimmed_once(s: Seq<char>)
    ensures
        trimmed_end(trimmed_end(s)) == trimmed_end(s),
    decreases s.len(),
{
    if s.len() > 0 && is_space(s.last()) {
        lemma_trimmed_once(s.drop_last());
    }
}

/// Whether something of the text has been read.
pub(crate) open spec fn begun(reading: Reading) -> bool {
    reading.blocks.len() > 0 || reading.prose.len() > 0 || reading.fence is Some
}

/// Whether what has been read is in order: no prose waits while a fence is open,
/// no code while none is, and what waits follows no prose.
pub(crate) open spec fn in_order(reading: Reading) -> bool {
    &&& well_split(reading.blocks)
    &&& reading.fence is Some ==> reading.prose.len() == 0
    &&& reading.fence is None ==> reading.code.len() == 0
    &&& reading.fence is None && reading.blocks.len() > 0 ==> reading.blocks.last() is Code
}

proof fn lemma_push_prose(blocks: Seq<BlockView>, prose: Seq<char>)
    requires
        well_split(blocks),
        blocks.len() > 0 ==> blocks.last() is Code,
    ensures
        well_split(with_prose(blocks, prose)),
{
    lemma_trimmed_once(prose);
    let more = with_prose(blocks, prose);
    assert forall|i: int| 0 <= i < more.len() - 1 implies !((#[trigger] more[i]) is Text && more[i
        + 1] is Text) by {
        assert(more[i] == blocks[i]);
        if i + 1 < blocks.len() {
            assert(more[i + 1] == blocks[i + 1]);
        }
    }
    assert forall|i: int| 0 <= i < more.len() implies ((#[trigger] more[i]) matches BlockView::Text(
        text,
    ) ==> trimmed_end(text) == text) by {
        if i < blocks.len() {
            assert(more[i] == blocks[i]);
        }
    }
}

proof fn lemma_push_code(blocks: Seq<BlockView>, language: Option<Seq<char>>, code: Seq<char>)
    requires
        well_split(blocks),
    ensures
        well_split(blocks.push(BlockView::Code { language, text: code })),
{
    let more = blocks.push(BlockView::Code { language, text: code });
    assert forall|i: int| 0 <= i < more.len() - 1 implies !((#[trigger] more[i]) is Text && more[i
        + 1] is Text) by {
        assert(more[i] == blocks[i]);
        if i + 1 < blocks.len() {
            assert(more[i + 1] == blocks[i + 1]);
        }
    }
    assert forall|i: int| 0 <= i < more.len() implies ((#[trigger] more[i]) matches BlockView::Text(
        text,
    ) ==> trimmed_end(text) == text) by {
        if i < blocks.len() {
            assert(more[i] == blocks[i]);
        }
    }
}

proof fn lemma_line_in_order(reading: Reading, line: Seq<char>, ended: bool)
    requires
        in_order(reading),
    ensures
        in_order(read_line(reading, line, ended)),
        begun(reading) || ended || line.len() > 0 ==> begun(read_line(reading, line, ended)),
{
    match reading.fence {
        Some(fence) => lemma_push_code(reading.blocks, fence.language, reading.code),
        None => lemma_push_prose(reading.blocks, reading.prose),
    }
}

pub(crate) proof fn lemma_in_order(lines: Seq<Seq<char>>, n: nat)
    requires
        n <= lines.len(),
    ensures
        in_order(read_lines(lines, n)),
        n > 0 && (lines.len() > 1 || lines[0].len() > 0) ==> begun(read_lines(lines, n)),
    decreases n,
{
    if n > 0 {
        lemma_in_order(lines, (n - 1) as nat);
        lemma_line_in_order(
            read_lines(lines, (n - 1) as nat),
            lines[n - 1],
            n < lines.len(),
        );
    }
}

pub(crate) proof fn lemma_some_line(text: Seq<char>)
    requires
        text.len() > 0,
    ensures
        split_at_each(text, '\n').len() > 1 || split_at_each(text, '\n')[0].len() > 0,
{
    lemma_pieces_some(text.drop_last(), is_mark('\n'));
}

/// Splitting a Markdown text gives no two blocks of prose side by side, and no
/// prose that ends in white space. It gives no block exactly where nothing is left
/// of the text once it is cleaned, and cleaning the text first makes no difference.
pub proof fn law_markdown_is_well_split(text: Seq<char>)
    ensures
        well_split(markdown(text)),
        (markdown(text).len() == 0) == (cleaned(text).len() == 0),
        markdown(cleaned(text)) == markdown(text),
{
    let clean = cleaned(text);
    let lines = split_at_each(clean, '\n');
    let reading = read_lines(lines, lines.len());
    law_cleaning_settles(text);
    lemma_pieces_some(clean, is_mark('\n'));
    lemma_in_order(lines, lines.len());
    if let Some(fence) = reading.fence {
        lemma_push_code(reading.blocks, fence.language, reading.code);
    } else {
        lemma_push_prose(reading.blocks, reading.prose);
    }
    if clean.len() > 0 {
        lemma_some_line(clean);
    } else {
        assert(lines =~= seq![Seq::<char>::empty()]);
        reveal_with_fuel(read_lines, 2);
    }
}

/// Where the line at `k` opens a fence that no later line closes, the last block
/// is the code behind it: every later line, with the language that the fence
/// names.
pub proof fn law_an_open_fence_runs_to_the_end(text: Seq<char>, k: int, fence: FenceView)
    requires
        ({
            let lines = split_at_each(cleaned(text), '\n');
            &&& 0 <= k < lines.len()
            &&& read_lines(lines, k as nat).fence is None
            &&& fence_opened(lines[k]) == Some(fence)
            &&& forall|j: int|
                k < j < lines.len() ==> !fence_closed(
                    #[trigger] lines[j],
                    fence.marker,
                    fence.width,
                )
        }),
    ensures
        ({
            let lines = split_at_each(cleaned(text), '\n');
            &&& markdown(text).len() > 0
            &&& markdown(text).last() == (BlockView::Code {
                language: fence.language,
                text: joined(lines.skip(k + 1), "\n"@),
            })
        }),
{
    let lines = split_at_each(cleaned(text), '\n');
    lemma_in_order(lines, k as nat);
    lemma_opened(lines, k, fence, lines.len());
    assert(lines.subrange(k + 1, lines.len() as int) =~= lines.skip(k + 1));
    let reading = read_lines(lines, lines.len());
    lemma_in_order(lines, lines.len());
}

/// The text of lines of which every one but the last of all is followed by a
/// newline.
pub(crate) open spec fn text_of(lines: Seq<Seq<char>>, more: bool) -> Seq<char> {
    if more && lines.len() > 0 {
        joined(lines, "\n"@).push('\n')
    } else {
        joined(lines, "\n"@)
    }
}

pub(crate) proof fn lemma_opened(lines: Seq<Seq<char>>, k: int, fence: FenceView, n: nat)
    requires
        0 <= k < n <= lines.len(),
        in_order(read_lines(lines, k as nat)),
        read_lines(lines, k as nat).fence is None,
        fence_opened(lines[k]) == Some(fence),
        forall|j: int|
            k < j < lines.len() ==> !fence_closed(#[trigger] lines[j], fence.marker, fence.width),
    ensures
        read_lines(lines, n).fence == Some(fence),
        read_lines(lines, n).code == text_of(lines.subrange(k + 1, n as int), n < lines.len()),
    decreases n,
{
    reveal_strlit("\n");
    let part = lines.subrange(k + 1, n as int);
    if n == k + 1 {
        assert(lines[n - 1] == lines[k]);
        assert(lines[k].len() > 0) by {
            lemma_fence_is_a_line(lines[k]);
        }
        assert(part =~= Seq::<Seq<char>>::empty());
        assert(read_lines(lines, k as nat).code =~= Seq::<char>::empty());
    } else {
        lemma_opened(lines, k, fence, (n - 1) as nat);
        let before = lines.subrange(k + 1, n - 1);
        let line = lines[n - 1];
        assert(part.drop_last() =~= before);
        assert(part.last() == line);
        let had = read_lines(lines, (n - 1) as nat).code;
        let now = read_lines(lines, n).code;
        assert(!fence_closed(line, fence.marker, fence.width));
        assert(joined(part, "\n"@) =~= had + line);
        if n < lines.len() {
            assert(now =~= had + line.push('\n'));
            assert(now =~= joined(part, "\n"@).push('\n'));
        } else if line.len() == 0 {
            assert(now == had);
            assert(had + line =~= had);
        } else {
            assert(now =~= had + line);
        }
    }
}

proof fn lemma_fence_is_a_line(line: Seq<char>)
    requires
        fence_opened(line) is Some,
    ensures
        line.len() > 0,
{
    reveal_with_fuel(crate::event::after_spaces, 2);
}

} // verus!
