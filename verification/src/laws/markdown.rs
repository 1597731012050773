//! How a Markdown text is split into prose and code.

use vstd::prelude::*;

use crate::event::{
    after_spaces, cleaned, fence_closed, fence_opened, finished, markdown, read_line, read_lines,
    run_of, with_prose, BlockView, FenceView, Reading,
};
use crate::laws::text::{
    law_a_text_without_the_mark_is_whole, law_a_word_is_one_word, law_cutting_at_a_mark,
    law_cutting_is_undone_by_joining, law_what_stands_between_spaces, law_words_of_both,
};
use crate::markdown::{begun, in_order, lemma_in_order, lemma_opened, lemma_some_line, text_of};
use crate::text::{
    is_mark, is_space, joined, lemma_pieces_some, split_at_each, trimmed, trimmed_end, words,
};

verus! {

/// Lines, each with the newline that ends it.
pub open spec fn ended_lines(lines: Seq<Seq<char>>) -> Seq<char>
    decreases lines.len(),
{
    if lines.len() == 0 {
        Seq::empty()
    } else {
        ended_lines(lines.drop_last()) + lines.last().push('\n')
    }
}

/// Whether these are lines: no newline stands in one.
pub open spec fn are_lines(lines: Seq<Seq<char>>) -> bool {
    forall|i: int| 0 <= i < lines.len() ==> !(#[trigger] lines[i]).contains('\n')
}

/// Whether none of the lines opens a fence.
pub open spec fn are_prose(lines: Seq<Seq<char>>) -> bool {
    forall|i: int| 0 <= i < lines.len() ==> fence_opened(#[trigger] lines[i]) is None
}

/// Whether none of the lines closes a fence.
pub open spec fn are_code(lines: Seq<Seq<char>>, fence: FenceView) -> bool {
    forall|i: int|
        0 <= i < lines.len() ==> !fence_closed(#[trigger] lines[i], fence.marker, fence.width)
}

/// Prose as blocks: one, without white space at its end, or none where there is no
/// line.
pub open spec fn prose_block(lines: Seq<Seq<char>>) -> Seq<BlockView> {
    if lines.len() == 0 {
        Seq::empty()
    } else {
        seq![BlockView::Text(trimmed_end(ended_lines(lines)))]
    }
}

proof fn lemma_split_lines(lines: Seq<Seq<char>>, rest: Seq<char>)
    requires
        are_lines(lines),
    ensures
        split_at_each(ended_lines(lines) + rest, '\n') == lines + split_at_each(rest, '\n'),
    decreases lines.len(),
{
    if lines.len() == 0 {
        assert(ended_lines(lines) + rest =~= rest);
        assert(lines + split_at_each(rest, '\n') =~= split_at_each(rest, '\n'));
    } else {
        let before = lines.drop_last();
        let line = lines.last();
        assert(!lines[lines.len() - 1].contains('\n'));
        assert forall|i: int| 0 <= i < before.len() implies !(#[trigger] before[i]).contains(
            '\n',
        ) by {
            assert(!lines[i].contains('\n'));
        }
        let behind = line.push('\n') + rest;
        lemma_split_lines(before, behind);
        law_cutting_at_a_mark(line, rest, '\n');
        law_a_text_without_the_mark_is_whole(line, '\n');
        assert(ended_lines(lines) + rest =~= ended_lines(before) + behind);
        assert(before + (seq![line] + split_at_each(rest, '\n')) =~= lines + split_at_each(
            rest,
            '\n',
        ));
    }
}

proof fn lemma_grown(lines: Seq<Seq<char>>, n: int)
    requires
        0 <= n < lines.len(),
    ensures
        ended_lines(lines.take(n + 1)) == ended_lines(lines.take(n)) + lines[n].push('\n'),
        ended_lines(lines.take(0)) == Seq::<char>::empty(),
{
    assert(lines.take(n + 1).drop_last() =~= lines.take(n));
    assert(lines.take(n + 1).last() == lines[n]);
    assert(lines.take(0).len() == 0);
}

/// Reading the prose at the head of a text that goes on behind it.
proof fn lemma_prose_read(all: Seq<Seq<char>>, prose: Seq<Seq<char>>, n: int)
    requires
        0 <= n <= prose.len() < all.len(),
        all.take(prose.len() as int) == prose,
        are_prose(prose),
    ensures
        read_lines(all, n as nat) == (Reading {
            blocks: Seq::empty(),
            prose: ended_lines(prose.take(n)),
            code: Seq::empty(),
            fence: None,
        }),
    decreases n,
{
    if n > 0 {
        lemma_prose_read(all, prose, n - 1);
        lemma_grown(prose, n - 1);
        assert(all[n - 1] == prose[n - 1]);
        assert(fence_opened(prose[n - 1]) is None);
    } else {
        assert(prose.take(0).len() == 0);
    }
}

proof fn lemma_ended_is_something(lines: Seq<Seq<char>>)
    ensures
        lines.len() > 0 ==> ended_lines(lines).len() > 0,
{
}

proof fn lemma_opening(
    all: Seq<Seq<char>>,
    prose: Seq<Seq<char>>,
    open: Seq<char>,
    fence: FenceView,
)
    requires
        prose.len() < all.len(),
        all.take(prose.len() as int) == prose,
        all[prose.len() as int] == open,
        are_prose(prose),
        fence_opened(open) == Some(fence),
    ensures
        read_lines(all, prose.len() + 1) == (Reading {
            blocks: prose_block(prose),
            prose: Seq::empty(),
            code: Seq::empty(),
            fence: Some(fence),
        }),
{
    lemma_prose_read(all, prose, prose.len() as int);
    assert(prose.take(prose.len() as int) =~= prose);
    lemma_ended_is_something(prose);
    reveal_with_fuel(after_spaces, 2);
    assert(open.len() > 0);
    let blocks = with_prose(Seq::empty(), ended_lines(prose));
    assert(blocks =~= prose_block(prose));
}

proof fn lemma_code_read(
    all: Seq<Seq<char>>,
    prose: Seq<Seq<char>>,
    open: Seq<char>,
    fence: FenceView,
    code: Seq<Seq<char>>,
    n: int,
)
    requires
        0 <= n <= code.len(),
        prose.len() + 1 + code.len() < all.len(),
        all.take(prose.len() as int) == prose,
        all[prose.len() as int] == open,
        forall|i: int| 0 <= i < code.len() ==> #[trigger] code[i] == all[prose.len() + 1 + i],
        are_prose(prose),
        fence_opened(open) == Some(fence),
        are_code(code, fence),
    ensures
        read_lines(all, (prose.len() + 1 + n) as nat) == (Reading {
            blocks: prose_block(prose),
            prose: Seq::empty(),
            code: ended_lines(code.take(n)),
            fence: Some(fence),
        }),
    decreases n,
{
    if n == 0 {
        lemma_opening(all, prose, open, fence);
        assert(code.take(0).len() == 0);
    } else {
        lemma_code_read(all, prose, open, fence, code, n - 1);
        lemma_grown(code, n - 1);
        assert(code[n - 1] == all[prose.len() + n]);
        assert(!fence_closed(code[n - 1], fence.marker, fence.width));
        let whole = code[n - 1].push('\n');
        assert(ended_lines(code.take(n - 1)) + whole =~= ended_lines(code.take(n)));
    }
}

/// Reading on with blocks in front.
proof fn lemma_blocks_in_front(front: Seq<BlockView>, reading: Reading, line: Seq<char>, ended: bool)
    ensures
        read_line(Reading { blocks: front + reading.blocks, ..reading }, line, ended) == (Reading {
            blocks: front + read_line(reading, line, ended).blocks,
            ..read_line(reading, line, ended)
        }),
{
    let led = Reading { blocks: front + reading.blocks, ..reading };
    let plain = read_line(reading, line, ended);
    assert(read_line(led, line, ended).blocks =~= front + plain.blocks);
}

proof fn lemma_rest_read(
    all: Seq<Seq<char>>,
    at: int,
    rest: Seq<Seq<char>>,
    front: Seq<BlockView>,
    n: int,
)
    requires
        0 <= at,
        all.len() == at + rest.len(),
        rest.len() > 0,
        0 <= n <= rest.len(),
        forall|i: int| 0 <= i < rest.len() ==> #[trigger] rest[i] == all[at + i],
        read_lines(all, at as nat) == (Reading {
            blocks: front,
            prose: Seq::empty(),
            code: Seq::empty(),
            fence: None,
        }),
    ensures
        read_lines(all, (at + n) as nat) == (Reading {
            blocks: front + read_lines(rest, n as nat).blocks,
            ..read_lines(rest, n as nat)
        }),
    decreases n,
{
    if n == 0 {
        assert(front + Seq::<BlockView>::empty() =~= front);
    } else {
        lemma_rest_read(all, at, rest, front, n - 1);
        assert(rest[n - 1] == all[at + n - 1]);
        lemma_blocks_in_front(
            front,
            read_lines(rest, (n - 1) as nat),
            rest[n - 1],
            n < rest.len(),
        );
    }
}

proof fn lemma_finished_in_front(front: Seq<BlockView>, reading: Reading, text: Seq<char>, rest: Seq<char>)
    requires
        front.len() > 0,
        rest.len() > 0 ==> begun(reading),
        in_order(reading),
    ensures
        finished(Reading { blocks: front + reading.blocks, ..reading }, text) == front + finished(
            reading,
            rest,
        ),
{
    let led = Reading { blocks: front + reading.blocks, ..reading };
    assert(finished(led, text) =~= front + finished(reading, rest));
}

/// A text that opens no fence is one block of prose: the whole of it, line by line,
/// without white space at its end.
pub proof fn law_prose_is_kept_whole(text: Seq<char>)
    requires
        cleaned(text) == text,
        text.len() > 0,
        are_prose(split_at_each(text, '\n')),
    ensures
        markdown(text) == seq![BlockView::Text(trimmed_end(text))],
{
    let lines = split_at_each(text, '\n');
    law_cutting_is_undone_by_joining(text, '\n');
    reveal_strlit("\n");
    assert("\n"@ =~= seq!['\n']);
    lemma_all_prose(lines, lines.len());
    assert(lines.take(lines.len() as int) =~= lines);
    assert(markdown(text) =~= seq![BlockView::Text(trimmed_end(text))]);
}

proof fn lemma_all_prose(lines: Seq<Seq<char>>, n: nat)
    requires
        n <= lines.len(),
        are_prose(lines),
    ensures
        read_lines(lines, n) == (Reading {
            blocks: Seq::empty(),
            prose: text_of(lines.take(n as int), n < lines.len()),
            code: Seq::empty(),
            fence: None,
        }),
    decreases n,
{
    reveal_strlit("\n");
    let part = lines.take(n as int);
    if n == 0 {
        assert(part =~= Seq::<Seq<char>>::empty());
    } else {
        lemma_all_prose(lines, (n - 1) as nat);
        let before = lines.take(n - 1);
        let line = lines[n - 1];
        assert(fence_opened(line) is None);
        assert(part.drop_last() =~= before);
        assert(part.last() == line);
        let had = text_of(before, true);
        let now = read_lines(lines, n).prose;
        assert(joined(part, "\n"@) =~= had + line);
        if n < lines.len() {
            assert(now =~= had + line.push('\n'));
            assert(now =~= joined(part, "\n"@).push('\n'));
        } else if line.len() == 0 {
            assert(now == had);
            assert(had + line =~= had);
        } else {
            assert(now =~= had + line);
        }
    }
}

/// Prose, a fenced block of code, and what follows: the blocks are the prose, all of
/// its lines; the code, all of its lines, with the language that the fence names; and
/// then the blocks of what follows.
pub proof fn law_a_fence_parts_prose_from_code(
    prose: Seq<Seq<char>>,
    open: Seq<char>,
    fence: FenceView,
    code: Seq<Seq<char>>,
    close: Seq<char>,
    rest: Seq<char>,
)
    requires
        are_lines(prose),
        are_lines(code),
        !open.contains('\n'),
        !close.contains('\n'),
        are_prose(prose),
        fence_opened(open) == Some(fence),
        are_code(code, fence),
        fence_closed(close, fence.marker, fence.width),
        cleaned(
            ended_lines(prose) + open.push('\n') + ended_lines(code) + close.push('\n') + rest,
        ) == ended_lines(prose) + open.push('\n') + ended_lines(code) + close.push('\n') + rest,
        cleaned(rest) == rest,
    ensures
        markdown(
            ended_lines(prose) + open.push('\n') + ended_lines(code) + close.push('\n') + rest,
        ) == prose_block(prose) + seq![
            BlockView::Code { language: fence.language, text: ended_lines(code) },
        ] + markdown(rest),
{
    let text = ended_lines(prose) + open.push('\n') + ended_lines(code) + close.push('\n') + rest;
    let behind = split_at_each(rest, '\n');
    let all = split_at_each(text, '\n');
    lemma_fenced_lines(prose, open, code, close, rest);
    lemma_pieces_some(rest, is_mark('\n'));
    let at = (prose.len() + 1 + code.len()) as int;
    assert(all.take(prose.len() as int) =~= prose);
    assert forall|i: int| 0 <= i < code.len() implies #[trigger] code[i] == all[prose.len() + 1
        + i] by {}
    lemma_code_read(all, prose, open, fence, code, code.len() as int);
    assert(code.take(code.len() as int) =~= code);
    assert(all[at] == close);
    let front = prose_block(prose) + seq![
        BlockView::Code { language: fence.language, text: ended_lines(code) },
    ];
    assert(read_lines(all, (at + 1) as nat).blocks =~= front);
    lemma_rest_read(all, at + 1, behind, front, behind.len() as int);
    lemma_in_order(behind, behind.len());
    if rest.len() > 0 {
        lemma_some_line(rest);
    }
    lemma_finished_in_front(front, read_lines(behind, behind.len()), text, rest);
}

proof fn lemma_fenced_lines(
    prose: Seq<Seq<char>>,
    open: Seq<char>,
    code: Seq<Seq<char>>,
    close: Seq<char>,
    rest: Seq<char>,
)
    requires
        are_lines(prose),
        are_lines(code),
        !open.contains('\n'),
        !close.contains('\n'),
    ensures
        split_at_each(
            ended_lines(prose) + open.push('\n') + ended_lines(code) + close.push('\n') + rest,
            '\n',
        ) == prose + seq![open] + code + seq![close] + split_at_each(rest, '\n'),
{
    let last = close.push('\n') + rest;
    let coded = ended_lines(code) + last;
    let opened = open.push('\n') + coded;
    assert(ended_lines(prose) + open.push('\n') + ended_lines(code) + close.push('\n') + rest
        =~= ended_lines(prose) + opened);
    lemma_split_lines(prose, opened);
    law_cutting_at_a_mark(open, coded, '\n');
    law_a_text_without_the_mark_is_whole(open, '\n');
    lemma_split_lines(code, last);
    law_cutting_at_a_mark(close, rest, '\n');
    law_a_text_without_the_mark_is_whole(close, '\n');
    assert(prose + (seq![open] + (code + (seq![close] + split_at_each(rest, '\n')))) =~= prose
        + seq![open] + code + seq![close] + split_at_each(rest, '\n'));
}

/// A fence that is never closed holds everything behind it.
pub proof fn law_an_open_fence_holds_the_rest(
    prose: Seq<Seq<char>>,
    open: Seq<char>,
    fence: FenceView,
    rest: Seq<char>,
)
    requires
        are_lines(prose),
        !open.contains('\n'),
        are_prose(prose),
        fence_opened(open) == Some(fence),
        are_code(split_at_each(rest, '\n'), fence),
        cleaned(ended_lines(prose) + open.push('\n') + rest) == ended_lines(prose) + open.push('\n')
            + rest,
    ensures
        markdown(ended_lines(prose) + open.push('\n') + rest) == prose_block(prose) + seq![
            BlockView::Code { language: fence.language, text: rest },
        ],
{
    let text = ended_lines(prose) + open.push('\n') + rest;
    let behind = split_at_each(rest, '\n');
    let all = split_at_each(text, '\n');
    assert(text =~= ended_lines(prose) + (open.push('\n') + rest));
    lemma_split_lines(prose, open.push('\n') + rest);
    law_cutting_at_a_mark(open, rest, '\n');
    law_a_text_without_the_mark_is_whole(open, '\n');
    lemma_pieces_some(rest, is_mark('\n'));
    law_cutting_is_undone_by_joining(rest, '\n');
    let k = prose.len() as int;
    assert(all =~= prose + seq![open] + behind);
    assert(all.take(k) =~= prose);
    assert(all[k] == open);
    lemma_opening(all, prose, open, fence);
    lemma_prose_read(all, prose, k);
    lemma_in_order(all, k as nat);
    assert forall|j: int| k < j < all.len() implies !fence_closed(
        #[trigger] all[j],
        fence.marker,
        fence.width,
    ) by {
        assert(all[j] == behind[j - k - 1]);
    }
    lemma_opened(all, k, fence, all.len());
    assert(all.subrange(k + 1, all.len() as int) =~= behind);
    reveal_strlit("\n");
    assert("\n"@ =~= seq!['\n']);
    lemma_blocks_stay(all, k + 1, fence, all.len() as int);
    let reading = read_lines(all, all.len());
    lemma_in_order(all, all.len());
    assert(markdown(text) =~= prose_block(prose) + seq![
        BlockView::Code { language: fence.language, text: rest },
    ]);
}

proof fn lemma_blocks_stay(all: Seq<Seq<char>>, from: int, fence: FenceView, n: int)
    requires
        0 <= from <= n <= all.len(),
        read_lines(all, from as nat).fence == Some(fence),
        forall|j: int|
            from <= j < all.len() ==> !fence_closed(#[trigger] all[j], fence.marker, fence.width),
    ensures
        read_lines(all, n as nat).fence == Some(fence),
        read_lines(all, n as nat).blocks == read_lines(all, from as nat).blocks,
        read_lines(all, n as nat).prose == read_lines(all, from as nat).prose,
    decreases n - from,
{
    if from < n {
        lemma_blocks_stay(all, from, fence, n - 1);
        assert(!fence_closed(all[n - 1], fence.marker, fence.width));
    }
}

// --- Fences ------------------------------------------------------------------

/// `n` times the same character.
pub open spec fn repeated(c: char, n: nat) -> Seq<char> {
    Seq::new(n, |i: int| c)
}

proof fn lemma_after_spaces(n: nat, body: Seq<char>)
    requires
        body.len() > 0 ==> body[0] != ' ',
    ensures
        after_spaces(repeated(' ', n) + body) == body,
    decreases n,
{
    let line = repeated(' ', n) + body;
    if n == 0 {
        assert(line =~= body);
    } else {
        assert(line.skip(1) =~= repeated(' ', (n - 1) as nat) + body);
        lemma_after_spaces((n - 1) as nat, body);
    }
}

proof fn lemma_run(mark: char, n: nat, rest: Seq<char>)
    requires
        rest.len() > 0 ==> rest[0] != mark,
    ensures
        run_of(repeated(mark, n) + rest, mark) == n,
    decreases n,
{
    let line = repeated(mark, n) + rest;
    if n == 0 {
        assert(line =~= rest);
    } else {
        assert(line.skip(1) =~= repeated(mark, (n - 1) as nat) + rest);
        lemma_run(mark, (n - 1) as nat, rest);
    }
}

/// Three or more backticks or tildes open a fence, behind any number of spaces. It is
/// as wide as there are marks, and its language is the first word behind them. Fewer
/// open none, and neither do backticks with another behind them on the line.
pub proof fn law_marks_open_a_fence(indent: nat, mark: char, width: nat, info: Seq<char>)
    requires
        mark == '`' || mark == '~',
        width > 0,
        info.len() > 0 ==> info[0] != mark,
    ensures
        ({
            let opened = fence_opened(repeated(' ', indent) + repeated(mark, width) + info);
            &&& width < 3 ==> opened is None
            &&& mark == '`' && trimmed(info).contains('`') ==> opened is None
            &&& width >= 3 && !(mark == '`' && trimmed(info).contains('`')) ==> (
            opened matches Some(fence) && fence.marker == mark && fence.width == width
                && fence.language == if words(trimmed(info)).len() > 0 {
                Some(words(trimmed(info))[0])
            } else {
                None
            })
        }),
{
    let body = repeated(mark, width) + info;
    assert(body[0] == mark);
    lemma_after_spaces(indent, body);
    assert(repeated(' ', indent) + repeated(mark, width) + info =~= repeated(' ', indent) + body);
    lemma_run(mark, width, info);
    assert(body.skip(width as int) =~= info);
}

/// The language of a fence is the word behind its marks, whatever follows it, and
/// there is none where nothing does.
pub proof fn law_a_fence_names_its_language(
    indent: nat,
    mark: char,
    width: nat,
    language: Seq<char>,
    more: Seq<char>,
)
    requires
        mark == '~',
        width >= 3,
        language.len() > 0,
        language[0] != mark,
        forall|i: int| 0 <= i < language.len() ==> !is_space(#[trigger] language[i]),
        more.len() > 0 ==> !is_space(more.last()),
    ensures
        ({
            let marks = repeated(' ', indent) + repeated(mark, width);
            &&& fence_opened(marks + language) matches Some(fence) && fence.language == Some(
                language,
            )
            &&& more.len() > 0 ==> (fence_opened(
                marks + (language.push(' ') + more),
            ) matches Some(fence) && fence.language == Some(language))
            &&& fence_opened(marks + Seq::<char>::empty()) matches Some(fence)
                && fence.language is None
        }),
{
    let none = Seq::<char>::empty();
    law_marks_open_a_fence(indent, mark, width, language);
    law_marks_open_a_fence(indent, mark, width, none);
    law_what_stands_between_spaces(none, language, none);
    assert(none + language + none =~= language);
    law_what_stands_between_spaces(none, none, none);
    assert(none + none + none =~= none);
    law_a_word_is_one_word(language);
    law_a_word_is_one_word(none);
    if more.len() > 0 {
        let info = language.push(' ') + more;
        law_marks_open_a_fence(indent, mark, width, info);
        assert(info[0] == language[0]);
        assert(info.last() == more.last());
        law_what_stands_between_spaces(none, info, none);
        assert(none + info + none =~= info);
        law_words_of_both(language, ' ', more);
        assert(words(info)[0] == language);
    }
}

/// A line that starts, behind any spaces, with something else opens no fence and
/// closes none.
pub proof fn law_other_lines_are_no_fences(
    indent: nat,
    body: Seq<char>,
    mark: char,
    width: nat,
)
    requires
        body.len() > 0 ==> body[0] != ' ' && body[0] != '`' && body[0] != '~',
        mark == '`' || mark == '~',
        width > 0,
    ensures
        fence_opened(repeated(' ', indent) + body) is None,
        !fence_closed(repeated(' ', indent) + body, mark, width),
{
    lemma_after_spaces(indent, body);
}

/// A fence is closed by as many marks as opened it, with nothing but white space
/// behind them: not by fewer or more, not by others, and not with a word behind them.
pub proof fn law_marks_close_a_fence(
    indent: nat,
    mark: char,
    count: nat,
    behind: Seq<char>,
    opened: char,
    width: nat,
)
    requires
        mark == '`' || mark == '~',
        opened == '`' || opened == '~',
        count > 0,
        width > 0,
        behind.len() > 0 ==> behind[0] != mark,
    ensures
        fence_closed(repeated(' ', indent) + repeated(mark, count) + behind, opened, width) == (mark
            == opened && count == width && forall|i: int|
            0 <= i < behind.len() ==> is_space(#[trigger] behind[i])),
{
    let body = repeated(mark, count) + behind;
    assert(body[0] == mark);
    lemma_after_spaces(indent, body);
    assert(repeated(' ', indent) + repeated(mark, count) + behind =~= repeated(' ', indent) + body);
    let line = repeated(' ', indent) + body;
    if fence_closed(line, opened, width) {
        assert(body[0] == opened);
        if count < width {
            assert(body[count as int] == opened);
            assert(body[count as int] == behind[0]);
        }
        if count > width {
            assert(is_space(body[width as int]));
            assert(body[width as int] == mark);
        }
        assert forall|i: int| 0 <= i < behind.len() implies is_space(#[trigger] behind[i]) by {
            assert(body[count + i] == behind[i]);
            assert(is_space(body[count + i]));
        }
    }
    if mark == opened && count == width && forall|i: int|
        0 <= i < behind.len() ==> is_space(#[trigger] behind[i]) {
        assert forall|i: int| width <= i < body.len() implies is_space(#[trigger] body[i]) by {
            assert(body[i] == behind[i - count]);
        }
    }
}

} // verus!
