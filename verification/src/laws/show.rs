//! What is shown of an event, on its line and in full.

use vstd::prelude::*;

use crate::event::{
    cleaned, cleaned_each, detail_blocks, event_tag, leading_line, markdown,
    model_change_line, shortened, summary_line, trimmed_lines, BlockView, EventView, TokenUsage,
};
use crate::files::{block_text, whole_text};
use crate::text::{decimal, joined, signed_decimal, split_at_each, trimmed};

verus! {

/// Whether a text stands in another.
pub open spec fn stands_in(part: Seq<char>, whole: Seq<char>) -> bool {
    exists|a: Seq<char>, b: Seq<char>| whole == #[trigger] (a + part + b)
}

/// Whether a block shows a text.
pub open spec fn some_block_shows(blocks: Seq<BlockView>, text: Seq<char>) -> bool {
    exists|i: int| 0 <= i < blocks.len() && stands_in(text, block_text(#[trigger] blocks[i]))
}

pub(crate) proof fn lemma_between(a: Seq<char>, part: Seq<char>, b: Seq<char>, whole: Seq<char>)
    requires
        whole =~= a + part + b,
    ensures
        stands_in(part, whole),
{
    assert(whole == a + part + b);
}

/// A completed command is shown in full: the command, its status, its exit code where
/// it has one, and its output in a block of its own where there is any.
pub proof fn law_a_completed_command_is_shown(
    command: Seq<char>,
    status: Seq<char>,
    exit_code: Option<i64>,
    output: Seq<char>,
)
    ensures
        ({
            let event = EventView::CommandCompleted { command, status, exit_code, output };
            let blocks = detail_blocks(event);
            &&& some_block_shows(blocks, cleaned(command))
            &&& some_block_shows(blocks, cleaned(status))
            &&& exit_code matches Some(code) ==> some_block_shows(
                blocks,
                signed_decimal(code as int),
            ) && stands_in(signed_decimal(code as int), summary_line(event))
            &&& output.len() > 0 ==> blocks.len() == 2 && blocks[1] == (BlockView::Code {
                language: None,
                text: cleaned(output),
            })
            &&& output.len() == 0 ==> blocks.len() == 1
            &&& stands_in(status, summary_line(event))
            &&& stands_in(leading_line(command), summary_line(event))
        }),
{
    let event = EventView::CommandCompleted { command, status, exit_code, output };
    let blocks = detail_blocks(event);
    let told = block_text(blocks[0]);
    let none = Seq::<char>::empty();
    let line = summary_line(event);
    if let Some(code) = exit_code {
        let n = signed_decimal(code as int);
        let head = "$ "@ + cleaned(command) + "\nstatus: "@ + cleaned(status) + " (exit "@;
        lemma_between(head, n, ")"@, told);
        lemma_between(
            "$ "@,
            cleaned(command),
            "\nstatus: "@ + cleaned(status) + " (exit "@ + n + ")"@,
            told,
        );
        lemma_between(
            "$ "@ + cleaned(command) + "\nstatus: "@,
            cleaned(status),
            " (exit "@ + n + ")"@,
            told,
        );
        lemma_between(leading_line(command) + " ("@ + status + ", exit "@, n, ")"@, line);
        lemma_between(leading_line(command) + " ("@, status, ", exit "@ + n + ")"@, line);
        lemma_between(none, leading_line(command), " ("@ + status + ", exit "@ + n + ")"@, line);
    } else {
        lemma_between("$ "@, cleaned(command), "\nstatus: "@ + cleaned(status), told);
        lemma_between("$ "@ + cleaned(command) + "\nstatus: "@, cleaned(status), none, told);
        lemma_between(leading_line(command) + " ("@, status, ")"@, line);
        lemma_between(none, leading_line(command), " ("@ + status + ")"@, line);
    }
}

/// A text is shown whole, as Markdown: what the operator said, what the agent said and
/// what it plans. Its line is the first that is not blank.
pub proof fn law_texts_are_shown_as_markdown(text: Seq<char>)
    ensures
        detail_blocks(EventView::UserMessage { text }) == markdown(text),
        detail_blocks(EventView::AgentMessage { text }) == markdown(text),
        detail_blocks(EventView::PlanUpdated { text }) == markdown(text),
        summary_line(EventView::UserMessage { text }) == leading_line(text),
        summary_line(EventView::AgentMessage { text }) == leading_line(text),
        summary_line(EventView::PlanUpdated { text }) == leading_line(text),
        summary_line(EventView::Error { message: text }) == leading_line(text),
        summary_line(EventView::Malformed { error: text }) == leading_line(text),
        summary_line(EventView::CommandStarted { command: text }) == leading_line(text),
{
}

/// What went wrong is shown whole, and so are a running command, an unknown event and
/// the id of a thread.
pub proof fn law_what_is_said_is_shown_whole(text: Seq<char>)
    ensures
        detail_blocks(EventView::Error { message: text }) == seq![BlockView::Text(cleaned(text))],
        detail_blocks(EventView::Malformed { error: text }) == seq![
            BlockView::Text(cleaned(text)),
        ],
        detail_blocks(EventView::CommandStarted { command: text }) == seq![
            BlockView::Code { language: None, text: cleaned(text) },
        ],
        some_block_shows(detail_blocks(EventView::Unknown { wire_type: text }), cleaned(text)),
        some_block_shows(detail_blocks(EventView::ThreadStarted { thread_id: text }), cleaned(text)),
        stands_in(text, summary_line(EventView::Unknown { wire_type: text })),
        stands_in(text, summary_line(EventView::ThreadStarted { thread_id: text })),
        detail_blocks(EventView::TurnStarted).len() == 0,
{
    let none = Seq::<char>::empty();
    let unknown = EventView::Unknown { wire_type: text };
    let thread = EventView::ThreadStarted { thread_id: text };
    lemma_between(
        "unrecognised event: "@,
        cleaned(text),
        none,
        block_text(detail_blocks(unknown)[0]),
    );
    lemma_between("thread id: "@, cleaned(text), none, block_text(detail_blocks(thread)[0]));
    lemma_between(none, text, none, summary_line(unknown));
    lemma_between("session "@, text, none, summary_line(thread));
}

/// Every changed path is shown, in full and on the line.
pub proof fn law_every_changed_path_is_shown(paths: Seq<Seq<char>>, i: int)
    requires
        0 <= i < paths.len(),
    ensures
        some_block_shows(detail_blocks(EventView::FileChanged { paths }), cleaned(paths[i])),
        stands_in(paths[i], summary_line(EventView::FileChanged { paths })),
{
    let event = EventView::FileChanged { paths };
    let clean = cleaned_each(paths);
    lemma_stands_in_joined(paths, i, ", "@);
    lemma_stands_in_joined(clean, i, "\n"@);
    assert(block_text(detail_blocks(event)[0]) == joined(clean, "\n"@));
}

proof fn lemma_stands_in_joined(list: Seq<Seq<char>>, i: int, mark: Seq<char>)
    requires
        0 <= i < list.len(),
    ensures
        stands_in(list[i], joined(list, mark)),
    decreases list.len(),
{
    let none = Seq::<char>::empty();
    if list.len() == 1 {
        lemma_between(none, list[0], none, joined(list, mark));
    } else if i == list.len() - 1 {
        lemma_between(
            joined(list.drop_last(), mark) + mark,
            list.last(),
            none,
            joined(list, mark),
        );
    } else {
        let before = list.drop_last();
        lemma_stands_in_joined(before, i, mark);
        let (a, b) = choose|a: Seq<char>, b: Seq<char>|
            joined(before, mark) == #[trigger] (a + before[i] + b);
        lemma_between(a, list[i], b + mark + list.last(), joined(list, mark));
    }
}

/// A tool call shows its name, and what it was called with or how it went.
pub proof fn law_tool_calls_are_shown(name: Seq<char>, detail: Seq<char>, status: Seq<char>)
    ensures
        some_block_shows(detail_blocks(EventView::ToolStarted { name, detail }), cleaned(name)),
        detail.len() > 0 ==> some_block_shows(
            detail_blocks(EventView::ToolStarted { name, detail }),
            cleaned(detail),
        ) && stands_in(
            leading_line(detail),
            summary_line(EventView::ToolStarted { name, detail }),
        ),
        stands_in(name, summary_line(EventView::ToolStarted { name, detail })),
        some_block_shows(detail_blocks(EventView::ToolCompleted { name, status }), cleaned(name)),
        some_block_shows(detail_blocks(EventView::ToolCompleted { name, status }), cleaned(status)),
        stands_in(name, summary_line(EventView::ToolCompleted { name, status })),
        stands_in(status, summary_line(EventView::ToolCompleted { name, status })),
{
    let none = Seq::<char>::empty();
    let started = EventView::ToolStarted { name, detail };
    let done = EventView::ToolCompleted { name, status };
    let shown = block_text(detail_blocks(started)[0]);
    let told = block_text(detail_blocks(done)[0]);
    if detail.len() > 0 {
        lemma_between(none, cleaned(name), seq!['\n'] + cleaned(detail), shown);
        lemma_between(cleaned(name).push('\n'), cleaned(detail), none, shown);
        lemma_between(none, name, ": "@ + leading_line(detail), summary_line(started));
        lemma_between(name + ": "@, leading_line(detail), none, summary_line(started));
    } else {
        lemma_between(none, cleaned(name), none, shown);
        lemma_between(none, name, none, summary_line(started));
    }
    lemma_between(none, cleaned(name), ": "@ + cleaned(status), told);
    lemma_between(cleaned(name) + ": "@, cleaned(status), none, told);
    lemma_between(none, name, " ("@ + status + ")"@, summary_line(done));
    lemma_between(name + " ("@, status, ")"@, summary_line(done));
}

/// Usage is shown figure by figure, each behind its name.
pub proof fn law_usage_is_shown(usage: TokenUsage)
    ensures
        ({
            let event = EventView::TurnCompleted { usage };
            let blocks = detail_blocks(event);
            let line = summary_line(event);
            &&& blocks.len() == 1
            &&& stands_in("input "@ + decimal(usage.input_tokens as nat), block_text(blocks[0]))
            &&& stands_in(
                "cached input "@ + decimal(usage.cached_input_tokens as nat),
                block_text(blocks[0]),
            )
            &&& stands_in("output "@ + decimal(usage.output_tokens as nat), block_text(blocks[0]))
            &&& stands_in(
                "reasoning "@ + decimal(usage.reasoning_output_tokens as nat),
                block_text(blocks[0]),
            )
            &&& stands_in("in "@ + decimal(usage.input_tokens as nat), line)
            &&& stands_in("out "@ + decimal(usage.output_tokens as nat), line)
            &&& stands_in("cached "@ + decimal(usage.cached_input_tokens as nat), line)
        }),
{
    let event = EventView::TurnCompleted { usage };
    let told = block_text(detail_blocks(event)[0]);
    let line = summary_line(event);
    let none = Seq::<char>::empty();
    let a = decimal(usage.input_tokens as nat);
    let b = decimal(usage.cached_input_tokens as nat);
    let c = decimal(usage.output_tokens as nat);
    let d = decimal(usage.reasoning_output_tokens as nat);
    reveal_strlit(" · cached input ");
    reveal_strlit("cached input ");
    reveal_strlit(" · output ");
    reveal_strlit("output ");
    reveal_strlit(" · reasoning ");
    reveal_strlit("reasoning ");
    reveal_strlit(" · out ");
    reveal_strlit("out ");
    reveal_strlit(" · cached ");
    reveal_strlit("cached ");
    let dot = seq![' ', '·', ' '];
    assert(" · cached input "@ =~= dot + "cached input "@);
    assert(" · output "@ =~= dot + "output "@);
    assert(" · reasoning "@ =~= dot + "reasoning "@);
    assert(" · out "@ =~= dot + "out "@);
    assert(" · cached "@ =~= dot + "cached "@);
    let x = "input "@ + a;
    let y = x + " · cached input "@ + b;
    let z = y + " · output "@ + c;
    lemma_between(none, x, " · cached input "@ + b + " · output "@ + c + " · reasoning "@ + d, told);
    lemma_between(x + dot, "cached input "@ + b, " · output "@ + c + " · reasoning "@ + d, told);
    lemma_between(y + dot, "output "@ + c, " · reasoning "@ + d, told);
    lemma_between(z + dot, "reasoning "@ + d, none, told);
    let p = "in "@ + a;
    let q = p + " · out "@ + c;
    lemma_between(none, p, " · out "@ + c + " · cached "@ + b, line);
    lemma_between(p + dot, "out "@ + c, " · cached "@ + b, line);
    lemma_between(q + dot, "cached "@ + b, none, line);
}

// --- Lines -------------------------------------------------------------------

/// The line that stands for a text is its first that is not blank, without white space
/// around it; a text of blank lines has none.
pub proof fn law_the_first_line_that_says_something(text: Seq<char>, k: int)
    requires
        0 <= k < split_at_each(text, '\n').len(),
        forall|j: int| 0 <= j < k ==> trimmed(#[trigger] split_at_each(text, '\n')[j]).len() == 0,
    ensures
        trimmed(split_at_each(text, '\n')[k]).len() > 0 ==> leading_line(text) == trimmed(
            split_at_each(text, '\n')[k],
        ),
        k == split_at_each(text, '\n').len() - 1 && trimmed(split_at_each(text, '\n')[k]).len() == 0
            ==> leading_line(text).len() == 0,
{
    let lines = trimmed_lines(text);
    let all = split_at_each(text, '\n');
    assert forall|j: int| 0 <= j < k implies (#[trigger] lines[j]).len() == 0 by {
        assert(trimmed(all[j]).len() == 0);
    }
    lemma_first_filled(lines, k);
}

proof fn lemma_first_filled(list: Seq<Seq<char>>, k: int)
    requires
        0 <= k < list.len(),
        forall|j: int| 0 <= j < k ==> (#[trigger] list[j]).len() == 0,
    ensures
        list[k].len() > 0 ==> crate::event::first_filled(list) == list[k],
        k == list.len() - 1 && list[k].len() == 0 ==> crate::event::first_filled(list).len() == 0,
    decreases list.len(),
{
    if list[0].len() == 0 {
        let rest = list.skip(1);
        if k > 0 {
            assert forall|j: int| 0 <= j < k - 1 implies (#[trigger] rest[j]).len() == 0 by {
                assert(list[j + 1].len() == 0);
            }
            lemma_first_filled(rest, k - 1);
        } else if list.len() == 1 {
            reveal_with_fuel(crate::event::first_filled, 2);
            assert(rest.len() == 0);
        }
    } else {
        assert(k == 0);
    }
}

/// A line that fits is kept, with its newlines turned into spaces. A longer one is cut
/// to as many characters as fit, the last of them an ellipsis.
pub proof fn law_a_line_is_cut_to_fit(s: Seq<char>, max: nat, i: int)
    requires
        max > 0,
    ensures
        s.len() <= max && !s.contains('\n') ==> shortened(s, max) == s,
        s.len() <= max ==> shortened(s, max).len() == s.len(),
        s.len() > max ==> shortened(s, max).len() == max && shortened(s, max).last() == '…',
        0 <= i < s.len() && (s.len() <= max || i < max - 1) ==> shortened(s, max)[i] == if s[i]
            == '\n' {
            ' '
        } else {
            s[i]
        },
{
    if s.len() <= max && !s.contains('\n') {
        assert forall|j: int| 0 <= j < s.len() implies s[j] != '\n' by {
            assert(s.contains(s[j]));
        }
        assert(shortened(s, max) =~= s);
    }
}

/// A change of model names the model and the effort, and says of what is not named
/// that it stays.
pub proof fn law_a_change_of_model_is_named(model: Seq<char>, effort: Seq<char>)
    ensures
        model_change_line(Some(model), Some(effort)) == "model → "@ + model + " ("@ + effort + ")"@,
        stands_in("same effort"@, model_change_line(Some(model), None)),
        stands_in(model, model_change_line(Some(model), None)),
        stands_in("same model"@, model_change_line(None, Some(effort))),
        stands_in(effort, model_change_line(None, Some(effort))),
{
    let a = model_change_line(Some(model), None);
    let b = model_change_line(None, Some(effort));
    lemma_between("model → "@ + model + " ("@, "same effort"@, ")"@, a);
    lemma_between("model → "@, model, " ("@ + "same effort"@ + ")"@, a);
    lemma_between("model → "@, "same model"@, " ("@ + effort + ")"@, b);
    lemma_between("model → "@ + "same model"@ + " ("@, effort, ")"@, b);
}

/// An entry's whole text holds its summary and then every block, each from a new line.
pub proof fn law_an_entry_is_told_whole(
    summary: Seq<char>,
    blocks: Seq<BlockView>,
    more: BlockView,
)
    ensures
        whole_text(summary, Seq::empty()) == summary,
        whole_text(summary, blocks.push(more)) == whole_text(summary, blocks).push('\n')
            + block_text(more),
        forall|text: Seq<char>| #[trigger] block_text(BlockView::Text(text)) == text,
        more matches BlockView::Code { text, .. } ==> block_text(more) == text,
{
    assert(blocks.push(more).drop_last() =~= blocks);
}

/// The tags tell apart what the operator and the agent say, what runs, what is changed
/// and what goes wrong.
pub proof fn law_tags(event: EventView)
    ensures
        event is UserMessage ==> event_tag(event) == "user"@,
        event is AgentMessage ==> event_tag(event) == "agent"@,
        event is CommandStarted || event is CommandCompleted ==> event_tag(event) == "command"@,
        event is FileChanged ==> event_tag(event) == "files"@,
        event is ToolStarted || event is ToolCompleted ==> event_tag(event) == "tool"@,
        event is PlanUpdated ==> event_tag(event) == "plan"@,
        event is Error ==> event_tag(event) == "error"@,
        event is Unknown ==> event_tag(event) == "unknown"@,
        event is Malformed ==> event_tag(event) == "malformed"@,
        event is ThreadStarted ==> event_tag(event) == "thread"@,
        event is TurnStarted ==> event_tag(event) == "turn"@,
        event is TurnCompleted ==> event_tag(event) == "usage"@,
{
}

} // verus!
