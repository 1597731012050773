//! Why nothing that is shown of an event can steer the terminal: what is read
//! off the wire is clean, and so is every block made of it.

use vstd::prelude::*;

use crate::event::{
    after_spaces, changed_paths, cleaned, cleaned_each, detail_blocks, fence_opened, finished,
    first_word, is_clean, is_clean_block, is_inert, item_event, law_cleaning_settles,
    lemma_clean_is_kept, lemma_cleaned_is_clean, line_event, markdown, read_line, read_lines,
    run_of, text_or, value_event, with_prose, BlockView, EventView, Reading,
};
use crate::json::{field, parsed_json, text_field, JsonView};
use crate::text::{
    decimal, digit, is_control, is_space, joined, lemma_pieces_some, pieces, signed_decimal,
    split_at_each, trimmed, trimmed_end, trimmed_start, words,
};

verus! {

// --- Parts of clean text -----------------------------------------------------

proof fn lemma_both(a: Seq<char>, b: Seq<char>)
    requires
        is_clean(a),
        is_clean(b),
    ensures
        is_clean(a + b),
{
    let r = a + b;
    assert forall|i: int| 0 <= i < r.len() implies !is_control(#[trigger] r[i]) || r[i] == '\n'
        || r[i] == '\t' by {
        if i < a.len() {
            assert(r[i] == a[i]);
        } else {
            assert(r[i] == b[i - a.len()]);
        }
    }
}

proof fn lemma_part(s: Seq<char>, from: int, to: int)
    requires
        is_clean(s),
        0 <= from <= to <= s.len(),
    ensures
        is_clean(s.subrange(from, to)),
{
    let r = s.subrange(from, to);
    assert forall|i: int| 0 <= i < r.len() implies !is_control(#[trigger] r[i]) || r[i] == '\n'
        || r[i] == '\t' by {
        assert(r[i] == s[from + i]);
    }
}

proof fn lemma_skip(s: Seq<char>, n: int)
    requires
        is_clean(s),
        0 <= n <= s.len(),
    ensures
        is_clean(s.skip(n)),
{
    lemma_part(s, n, s.len() as int);
    assert(s.skip(n) =~= s.subrange(n, s.len() as int));
}

proof fn lemma_drop_last(s: Seq<char>)
    requires
        is_clean(s),
        s.len() > 0,
    ensures
        is_clean(s.drop_last()),
{
    lemma_part(s, 0, s.len() - 1);
    assert(s.drop_last() =~= s.subrange(0, s.len() - 1));
}

proof fn lemma_push(s: Seq<char>, c: char)
    requires
        is_clean(s),
        !is_control(c) || c == '\n' || c == '\t',
    ensures
        is_clean(s.push(c)),
{
    let r = s.push(c);
    assert forall|i: int| 0 <= i < r.len() implies !is_control(#[trigger] r[i]) || r[i] == '\n'
        || r[i] == '\t' by {
        if i < s.len() {
            assert(r[i] == s[i]);
        }
    }
}

proof fn lemma_trimmed_start(s: Seq<char>)
    requires
        is_clean(s),
    ensures
        is_clean(trimmed_start(s)),
    decreases s.len(),
{
    if s.len() > 0 && is_space(s[0]) {
        lemma_skip(s, 1);
        lemma_trimmed_start(s.skip(1));
    }
}

proof fn lemma_trimmed_end(s: Seq<char>)
    requires
        is_clean(s),
    ensures
        is_clean(trimmed_end(s)),
    decreases s.len(),
{
    if s.len() > 0 && is_space(s.last()) {
        lemma_drop_last(s);
        lemma_trimmed_end(s.drop_last());
    }
}

proof fn lemma_after_spaces(s: Seq<char>)
    requires
        is_clean(s),
    ensures
        is_clean(after_spaces(s)),
    decreases s.len(),
{
    if s.len() > 0 && s[0] == ' ' {
        lemma_skip(s, 1);
        lemma_after_spaces(s.skip(1));
    }
}

proof fn lemma_run_fits(s: Seq<char>, mark: char)
    ensures
        run_of(s, mark) <= s.len(),
    decreases s.len(),
{
    if s.len() > 0 && s[0] == mark {
        lemma_run_fits(s.skip(1), mark);
    }
}

proof fn lemma_pieces(s: Seq<char>, cut: spec_fn(char) -> bool)
    requires
        is_clean(s),
    ensures
        forall|i: int| 0 <= i < pieces(s, cut).len() ==> is_clean(#[trigger] pieces(s, cut)[i]),
    decreases s.len(),
{
    if s.len() > 0 {
        let before = pieces(s.drop_last(), cut);
        lemma_drop_last(s);
        lemma_pieces(s.drop_last(), cut);
        lemma_pieces_some(s.drop_last(), cut);
        if !cut(s.last()) {
            assert(is_clean(before[before.len() - 1]));
            assert(!is_control(s[s.len() - 1]) || s[s.len() - 1] == '\n' || s[s.len() - 1]
                == '\t');
            lemma_push(before.last(), s.last());
        }
        assert forall|i: int| 0 <= i < pieces(s, cut).len() implies is_clean(
            #[trigger] pieces(s, cut)[i],
        ) by {
            if i < before.len() {
                assert(is_clean(before[i]));
            }
        }
    }
}

proof fn lemma_first_word(s: Seq<char>)
    requires
        is_clean(s),
    ensures
        match first_word(s) {
            Some(w) => is_clean(w),
            None => true,
        },
{
    let cut = |c: char| is_space(c);
    let filled = |w: Seq<char>| w.len() > 0;
    lemma_pieces(s, cut);
    if words(s).len() > 0 {
        assert(words(s) == pieces(s, cut).filter(filled));
        pieces(s, cut).lemma_filter_contains_rev(filled, words(s)[0]);
    }
}

proof fn lemma_joined(list: Seq<Seq<char>>, mark: Seq<char>)
    requires
        is_clean(mark),
        forall|i: int| 0 <= i < list.len() ==> is_clean(#[trigger] list[i]),
    ensures
        is_clean(joined(list, mark)),
    decreases list.len(),
{
    if list.len() > 0 {
        assert(is_clean(list[list.len() - 1]));
        if list.len() > 1 {
            assert forall|i: int| 0 <= i < list.drop_last().len() implies is_clean(
                #[trigger] list.drop_last()[i],
            ) by {
                assert(is_clean(list[i]));
            }
            lemma_joined(list.drop_last(), mark);
            lemma_both(joined(list.drop_last(), mark), mark);
            lemma_both(joined(list.drop_last(), mark) + mark, list.last());
        }
    }
}

proof fn lemma_decimal(n: nat)
    ensures
        is_clean(decimal(n)),
    decreases n,
{
    if n >= 10 {
        lemma_decimal(n / 10);
        lemma_push(decimal(n / 10), digit(n % 10));
    }
}

proof fn lemma_signed_decimal(n: int)
    ensures
        is_clean(signed_decimal(n)),
{
    if n < 0 {
        lemma_decimal((-n) as nat);
        lemma_both(seq!['-'], decimal((-n) as nat));
    } else {
        lemma_decimal(n as nat);
    }
}

// --- Markdown ----------------------------------------------------------------

spec fn all_clean(blocks: Seq<BlockView>) -> bool {
    forall|i: int| 0 <= i < blocks.len() ==> is_clean_block(#[trigger] blocks[i])
}

spec fn clean_reading(reading: Reading) -> bool {
    &&& all_clean(reading.blocks)
    &&& is_clean(reading.prose)
    &&& is_clean(reading.code)
    &&& match reading.fence {
        Some(fence) => match fence.language {
            Some(l) => is_clean(l),
            None => true,
        },
        None => true,
    }
}

proof fn lemma_fence(line: Seq<char>)
    requires
        is_clean(line),
    ensures
        match fence_opened(line) {
            Some(fence) => match fence.language {
                Some(l) => is_clean(l),
                None => true,
            },
            None => true,
        },
{
    let body = after_spaces(line);
    lemma_after_spaces(line);
    if body.len() > 0 {
        let width = run_of(body, body[0]);
        lemma_run_fits(body, body[0]);
        lemma_skip(body, width as int);
        lemma_trimmed_start(body.skip(width as int));
        lemma_trimmed_end(trimmed_start(body.skip(width as int)));
        lemma_first_word(trimmed(body.skip(width as int)));
    }
}

proof fn lemma_with_prose(blocks: Seq<BlockView>, prose: Seq<char>)
    requires
        all_clean(blocks),
        is_clean(prose),
    ensures
        all_clean(with_prose(blocks, prose)),
{
    lemma_trimmed_end(prose);
    lemma_clean_is_kept(trimmed_end(prose));
}

proof fn lemma_with_code(blocks: Seq<BlockView>, language: Option<Seq<char>>, code: Seq<char>)
    requires
        all_clean(blocks),
        is_clean(code),
        match language {
            Some(l) => is_clean(l),
            None => true,
        },
    ensures
        all_clean(blocks.push(BlockView::Code { language, text: code })),
{
    lemma_clean_is_kept(code);
    if let Some(l) = language {
        lemma_clean_is_kept(l);
    }
}

proof fn lemma_read_line(reading: Reading, line: Seq<char>, ended: bool)
    requires
        clean_reading(reading),
        is_clean(line),
    ensures
        clean_reading(read_line(reading, line, ended)),
{
    let whole = if ended {
        line.push('\n')
    } else {
        line
    };
    lemma_push(line, '\n');
    lemma_both(reading.code, whole);
    lemma_both(reading.prose, whole);
    lemma_fence(line);
    lemma_with_prose(reading.blocks, reading.prose);
    if let Some(fence) = reading.fence {
        lemma_with_code(reading.blocks, fence.language, reading.code);
    }
}

proof fn lemma_read_lines(lines: Seq<Seq<char>>, n: nat)
    requires
        n <= lines.len(),
        forall|i: int| 0 <= i < lines.len() ==> is_clean(#[trigger] lines[i]),
    ensures
        clean_reading(read_lines(lines, n)),
    decreases n,
{
    if n > 0 {
        lemma_read_lines(lines, (n - 1) as nat);
        assert(is_clean(lines[n - 1]));
        lemma_read_line(read_lines(lines, (n - 1) as nat), lines[n - 1], n < lines.len());
    }
}

/// Every block of a Markdown text is clean.
pub proof fn lemma_markdown_is_clean(text: Seq<char>)
    ensures
        forall|i: int|
            0 <= i < markdown(text).len() ==> is_clean_block(#[trigger] markdown(text)[i]),
{
    let clean = cleaned(text);
    let lines = split_at_each(clean, '\n');
    lemma_cleaned_is_clean(text);
    law_cleaning_settles(text);
    lemma_pieces(clean, crate::text::is_mark('\n'));
    lemma_read_lines(lines, lines.len());
    let reading = read_lines(lines, lines.len());
    if let Some(fence) = reading.fence {
        lemma_with_code(reading.blocks, fence.language, reading.code);
        lemma_with_prose(
            reading.blocks.push(
                BlockView::Code { language: fence.language, text: reading.code },
            ),
            reading.prose,
        );
    } else {
        lemma_with_prose(reading.blocks, reading.prose);
    }
    assert(all_clean(finished(reading, clean)));
}

// --- Events ------------------------------------------------------------------

proof fn lemma_one_text(text: Seq<char>)
    requires
        is_clean(text),
    ensures
        is_clean_block(BlockView::Text(text)),
{
    lemma_clean_is_kept(text);
}

/// Every block that shows an event is clean, whatever the event holds.
pub proof fn lemma_detail_is_clean(event: EventView)
    ensures
        forall|i: int|
            0 <= i < detail_blocks(event).len() ==> is_clean_block(
                #[trigger] detail_blocks(event)[i],
            ),
{
    match event {
        EventView::UserMessage { text } => lemma_markdown_is_clean(text),
        EventView::PlanUpdated { text } => lemma_markdown_is_clean(text),
        EventView::AgentMessage { text } => lemma_markdown_is_clean(text),
        EventView::ThreadStarted { thread_id } => {
            reveal_strlit("thread id: ");
            lemma_cleaned_is_clean(thread_id);
            lemma_both("thread id: "@, cleaned(thread_id));
            lemma_one_text("thread id: "@ + cleaned(thread_id));
        },
        EventView::TurnStarted => {},
        EventView::TurnCompleted { usage } => lemma_usage_is_clean(
            usage.input_tokens as nat,
            usage.cached_input_tokens as nat,
            usage.output_tokens as nat,
            usage.reasoning_output_tokens as nat,
        ),
        EventView::CommandStarted { command } => law_cleaning_settles(command),
        EventView::CommandCompleted { command, status, exit_code, output } => {
            lemma_outcome_is_clean(command, status, exit_code);
            law_cleaning_settles(output);
        },
        EventView::FileChanged { paths } => {
            reveal_strlit("\n");
            assert forall|i: int| 0 <= i < paths.len() implies is_clean(
                #[trigger] cleaned_each(paths)[i],
            ) by {
                lemma_cleaned_is_clean(paths[i]);
            }
            lemma_joined(cleaned_each(paths), "\n"@);
            lemma_one_text(joined(cleaned_each(paths), "\n"@));
        },
        EventView::ToolStarted { name, detail } => {
            lemma_cleaned_is_clean(name);
            lemma_cleaned_is_clean(detail);
            lemma_push(cleaned(name), '\n');
            lemma_both(cleaned(name).push('\n'), cleaned(detail));
            lemma_one_text(cleaned(name).push('\n') + cleaned(detail));
            lemma_one_text(cleaned(name));
        },
        EventView::ToolCompleted { name, status } => {
            reveal_strlit(": ");
            lemma_cleaned_is_clean(name);
            lemma_cleaned_is_clean(status);
            lemma_both(cleaned(name), ": "@);
            lemma_both(cleaned(name) + ": "@, cleaned(status));
            lemma_one_text(cleaned(name) + ": "@ + cleaned(status));
        },
        EventView::Error { message } => law_cleaning_settles(message),
        EventView::Unknown { wire_type } => {
            reveal_strlit("unrecognised event: ");
            lemma_cleaned_is_clean(wire_type);
            lemma_both("unrecognised event: "@, cleaned(wire_type));
            lemma_one_text("unrecognised event: "@ + cleaned(wire_type));
        },
        EventView::Malformed { error } => law_cleaning_settles(error),
    }
}

proof fn lemma_usage_is_clean(input: nat, cached: nat, output: nat, reasoning: nat)
    ensures
        is_clean_block(
            BlockView::Text(
                "input "@ + decimal(input) + " · cached input "@ + decimal(cached) + " · output "@
                    + decimal(output) + " · reasoning "@ + decimal(reasoning),
            ),
        ),
{
    reveal_strlit("input ");
    reveal_strlit(" · cached input ");
    reveal_strlit(" · output ");
    reveal_strlit(" · reasoning ");
    lemma_decimal(input);
    lemma_decimal(cached);
    lemma_decimal(output);
    lemma_decimal(reasoning);
    let a = "input "@ + decimal(input);
    let b = a + " · cached input "@ + decimal(cached);
    let c = b + " · output "@ + decimal(output);
    lemma_both("input "@, decimal(input));
    lemma_both(a, " · cached input "@);
    lemma_both(a + " · cached input "@, decimal(cached));
    lemma_both(b, " · output "@);
    lemma_both(b + " · output "@, decimal(output));
    lemma_both(c, " · reasoning "@);
    lemma_both(c + " · reasoning "@, decimal(reasoning));
    lemma_one_text(c + " · reasoning "@ + decimal(reasoning));
}

proof fn lemma_outcome_is_clean(command: Seq<char>, status: Seq<char>, exit_code: Option<i64>)
    ensures
        ({
            let head = "$ "@ + cleaned(command) + "\nstatus: "@ + cleaned(status);
            is_clean_block(
                BlockView::Text(
                    match exit_code {
                        Some(code) => head + " (exit "@ + signed_decimal(code as int) + ")"@,
                        None => head,
                    },
                ),
            )
        }),
{
    reveal_strlit("$ ");
    reveal_strlit("\nstatus: ");
    reveal_strlit(" (exit ");
    reveal_strlit(")");
    lemma_cleaned_is_clean(command);
    lemma_cleaned_is_clean(status);
    let told = "$ "@ + cleaned(command);
    let head = told + "\nstatus: "@ + cleaned(status);
    lemma_both("$ "@, cleaned(command));
    lemma_both(told, "\nstatus: "@);
    lemma_both(told + "\nstatus: "@, cleaned(status));
    lemma_one_text(head);
    if let Some(code) = exit_code {
        lemma_signed_decimal(code as int);
        let numbered = head + " (exit "@ + signed_decimal(code as int);
        lemma_both(head, " (exit "@);
        lemma_both(head + " (exit "@, signed_decimal(code as int));
        lemma_both(numbered, ")"@);
        lemma_one_text(numbered + ")"@);
    }
}

/// Whether no text of an event can steer the terminal.
pub open spec fn is_clean_event(event: EventView) -> bool {
    match event {
        EventView::UserMessage { text } => is_inert(text),
        EventView::ThreadStarted { thread_id } => is_inert(thread_id),
        EventView::TurnStarted => true,
        EventView::TurnCompleted { .. } => true,
        EventView::CommandStarted { command } => is_inert(command),
        EventView::CommandCompleted { command, status, output, .. } => {
            &&& is_inert(command)
            &&& is_inert(status)
            &&& is_inert(output)
        },
        EventView::FileChanged { paths } => forall|i: int|
            0 <= i < paths.len() ==> is_inert(#[trigger] paths[i]),
        EventView::ToolStarted { name, detail } => is_inert(name) && is_inert(detail),
        EventView::ToolCompleted { name, status } => is_inert(name) && is_inert(status),
        EventView::PlanUpdated { text } => is_inert(text),
        EventView::AgentMessage { text } => is_inert(text),
        EventView::Error { message } => is_inert(message),
        EventView::Unknown { wire_type } => is_inert(wire_type),
        EventView::Malformed { error } => is_inert(error),
    }
}

proof fn lemma_paths_are_clean(changes: Seq<JsonView>)
    ensures
        forall|i: int|
            0 <= i < changed_paths(changes).len() ==> is_inert(
                #[trigger] changed_paths(changes)[i],
            ),
    decreases changes.len(),
{
    if changes.len() > 0 {
        let before = changed_paths(changes.drop_last());
        let all = changed_paths(changes);
        lemma_paths_are_clean(changes.drop_last());
        if let Some(path) = text_field(changes.last(), "path"@) {
            law_cleaning_settles(path);
            assert(all == before.push(cleaned(path)));
        }
        assert forall|i: int| 0 <= i < all.len() implies is_inert(#[trigger] all[i]) by {
            if i < before.len() {
                assert(all[i] == before[i]);
            }
        }
    }
}

proof fn lemma_item_is_clean(event_type: Seq<char>, item: JsonView)
    ensures
        is_clean_event(item_event(event_type, item)),
{
    assert forall|s: Seq<char>| is_inert(#[trigger] cleaned(s)) by {
        law_cleaning_settles(s);
    }
    if let Some(JsonView::List(changes)) = field(item, "changes"@) {
        lemma_paths_are_clean(changes);
    }
}

/// No text of an event that was read off the wire can steer the terminal,
/// whatever the line was.
pub proof fn law_what_is_read_is_clean(line: Seq<char>)
    ensures
        is_clean_event(line_event(line)),
{
    assert forall|s: Seq<char>| is_inert(#[trigger] cleaned(s)) by {
        law_cleaning_settles(s);
    }
    if let Ok(value) = parsed_json(line) {
        lemma_value_is_clean(value);
    }
}

proof fn lemma_value_is_clean(value: JsonView)
    ensures
        is_clean_event(value_event(value)),
{
    assert forall|s: Seq<char>| is_inert(#[trigger] cleaned(s)) by {
        law_cleaning_settles(s);
    }
    let wire_type = text_or(value, "type"@, "unknown"@);
    lemma_item_is_clean(
        wire_type,
        match field(value, "item"@) {
            Some(item) => item,
            None => JsonView::Null,
        },
    );
}

} // verus!
