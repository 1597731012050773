//! What a wire line of the agent decodes to.

use vstd::prelude::*;

use crate::event::{
    changed_paths, cleaned, is_clean, lemma_clean_is_kept, line_event, value_event, EventView,
    TokenUsage,
};
use crate::json::{entry_at, field, parsed_json, JsonView};
use crate::text::is_control;

verus! {

// --- Values ------------------------------------------------------------------

/// A table holds under a key what its first entry of that key holds, and nothing
/// where it has none. Nothing else holds anything under a key.
pub proof fn law_a_table_holds_its_entries(
    entries: Seq<(Seq<char>, JsonView)>,
    key: Seq<char>,
    i: int,
)
    ensures
        0 <= i < entries.len() && entries[i].0 == key && (forall|j: int|
            0 <= j < i ==> (#[trigger] entries[j]).0 != key) ==> field(
            JsonView::Table(entries),
            key,
        ) == Some(entries[i].1),
        (forall|j: int| 0 <= j < entries.len() ==> (#[trigger] entries[j]).0 != key) ==> field(
            JsonView::Table(entries),
            key,
        ) is None,
        field(JsonView::Null, key) is None,
        field(JsonView::List(seq![JsonView::Table(entries)]), key) is None,
        field(JsonView::Text(key), key) is None,
{
    if 0 <= i < entries.len() && entries[i].0 == key && (forall|j: int|
        0 <= j < i ==> (#[trigger] entries[j]).0 != key) {
        lemma_entry(entries, key, i);
    }
    if forall|j: int| 0 <= j < entries.len() ==> (#[trigger] entries[j]).0 != key {
        lemma_no_entry(entries, key);
    }
}

proof fn lemma_entry(entries: Seq<(Seq<char>, JsonView)>, key: Seq<char>, i: int)
    requires
        0 <= i < entries.len(),
        entries[i].0 == key,
        forall|j: int| 0 <= j < i ==> (#[trigger] entries[j]).0 != key,
    ensures
        entry_at(entries, key) == i,
    decreases entries.len(),
{
    if i > 0 {
        let rest = entries.skip(1);
        assert(entries[0].0 != key);
        assert forall|j: int| 0 <= j < i - 1 implies (#[trigger] rest[j]).0 != key by {
            assert(entries[j + 1].0 != key);
        }
        lemma_entry(rest, key, i - 1);
    }
}

proof fn lemma_no_entry(entries: Seq<(Seq<char>, JsonView)>, key: Seq<char>)
    requires
        forall|j: int| 0 <= j < entries.len() ==> (#[trigger] entries[j]).0 != key,
    ensures
        entry_at(entries, key) == entries.len(),
    decreases entries.len(),
{
    if entries.len() > 0 {
        let rest = entries.skip(1);
        assert forall|j: int| 0 <= j < rest.len() implies (#[trigger] rest[j]).0 != key by {
            assert(entries[j + 1].0 != key);
        }
        lemma_no_entry(rest, key);
    }
}

/// Whether a value holds this text under a key.
pub open spec fn says(value: JsonView, key: Seq<char>, text: Seq<char>) -> bool {
    field(value, key) == Some(JsonView::Text(text))
}

/// Whether a value holds no text under a key.
pub open spec fn silent(value: JsonView, key: Seq<char>) -> bool {
    !(field(value, key) matches Some(JsonView::Text(_)))
}

/// Whether a value reports that an item reached a stage.
pub open spec fn reports(value: JsonView, stage: Seq<char>, item: JsonView, kind: Seq<char>) -> bool {
    &&& says(value, "type"@, stage)
    &&& field(value, "item"@) == Some(item)
    &&& says(item, "type"@, kind)
}

/// Whether this is a stage before the last.
pub open spec fn is_early(stage: Seq<char>) -> bool {
    stage == "item.started"@ || stage == "item.updated"@
}

/// The literals that tell one kind of line and item from another.
proof fn lemma_words()
    ensures
        "item.started"@ != "item.completed"@,
        "item.updated"@ != "item.completed"@,
        "thread.started"@.len() == 14,
        "turn.started"@ != "item.started"@,
        "turn.completed"@.len() == 14,
        "turn.completed"@ != "thread.started"@,
        "turn.completed"@ != "item.completed"@,
        "turn.failed"@.len() == 11,
        "error"@.len() == 5,
        "turn.started"@.len() == 12,
        "item.started"@.len() == 12,
        "item.updated"@.len() == 12,
        "item.completed"@.len() == 14,
        "item.updated"@ != "turn.started"@,
        "item.completed"@ != "thread.started"@,
        "command_execution"@.len() == 17,
        "file_change"@.len() == 11,
        "agent_message"@.len() == 13,
        "plan"@.len() == 4,
        "plan_update"@.len() == 11,
        "plan_update"@ != "file_change"@,
        "mcp_tool_call"@.len() == 13,
        "mcp_tool_call"@ != "agent_message"@,
        "web_search"@.len() == 10,
{
    reveal_strlit("item.started");
    reveal_strlit("item.updated");
    reveal_strlit("item.completed");
    reveal_strlit("thread.started");
    reveal_strlit("turn.started");
    reveal_strlit("turn.completed");
    reveal_strlit("turn.failed");
    reveal_strlit("error");
    reveal_strlit("command_execution");
    reveal_strlit("file_change");
    reveal_strlit("agent_message");
    reveal_strlit("plan");
    reveal_strlit("plan_update");
    reveal_strlit("mcp_tool_call");
    reveal_strlit("web_search");
    assert("item.started"@.len() == 12 && "item.updated"@.len() == 12 && "item.completed"@.len()
        == 14);
    assert("item.started"@[0] == 'i' && "turn.started"@[0] == 't' && "item.updated"@[0] == 'i');
    assert("item.completed"@[0] == 'i' && "thread.started"@[0] == 't');
    assert("turn.completed"@[1] == 'u' && "thread.started"@[1] == 'h');
    assert("turn.completed"@[0] == 't');
    assert("plan_update"@[0] == 'p' && "file_change"@[0] == 'f');
    assert("mcp_tool_call"@[0] == 'm' && "agent_message"@[0] == 'a');
}

// --- Items -------------------------------------------------------------------

/// A command that started, and has not completed, is the command as it was given.
pub proof fn law_a_started_command_is_decoded(
    value: JsonView,
    stage: Seq<char>,
    item: JsonView,
    command: Seq<char>,
)
    requires
        is_early(stage),
        reports(value, stage, item, "command_execution"@),
        says(item, "command"@, command),
    ensures
        value_event(value) == (EventView::CommandStarted { command: cleaned(command) }),
{
    lemma_words();
}

/// A command that completed carries its exit code, whatever number that is, its
/// status and its output. What the agent leaves out is empty, and a status that it
/// leaves out is `completed`.
pub proof fn law_a_completed_command_is_decoded(value: JsonView, item: JsonView, command: Seq<char>)
    requires
        reports(value, "item.completed"@, item, "command_execution"@),
        says(item, "command"@, command),
    ensures
        value_event(value) is CommandCompleted,
        value_event(value)->CommandCompleted_command == cleaned(command),
        field(item, "exit_code"@) matches Some(JsonView::Unsigned(n)) ==> (n <= i64::MAX
            ==> value_event(value)->CommandCompleted_exit_code == Some(n as i64)),
        field(item, "exit_code"@) matches Some(JsonView::Negative(n)) ==> value_event(
            value,
        )->CommandCompleted_exit_code == Some(n),
        !(field(item, "exit_code"@) matches Some(JsonView::Unsigned(_))) && !(field(
            item,
            "exit_code"@,
        ) matches Some(JsonView::Negative(_))) ==> value_event(
            value,
        )->CommandCompleted_exit_code is None,
        forall|s: Seq<char>|
            #[trigger] says(item, "status"@, s) ==> value_event(value)->CommandCompleted_status
                == cleaned(s),
        silent(item, "status"@) ==> value_event(value)->CommandCompleted_status == "completed"@,
        forall|s: Seq<char>| #[trigger]
            says(item, "aggregated_output"@, s) ==> value_event(value)->CommandCompleted_output
                == cleaned(s),
        forall|s: Seq<char>|
            silent(item, "aggregated_output"@) && #[trigger] says(item, "output"@, s)
                ==> value_event(value)->CommandCompleted_output == cleaned(s),
        silent(item, "aggregated_output"@) && silent(item, "output"@) ==> value_event(
            value,
        )->CommandCompleted_output == Seq::<char>::empty(),
{
    lemma_words();
    reveal_strlit("completed");
    lemma_clean_is_kept("completed"@);
    lemma_clean_is_kept(Seq::empty());
}

/// Two lines that differ only in the exit code that they give decode to events that
/// differ in it.
pub proof fn law_exit_codes_are_told_apart(
    value: JsonView,
    item: JsonView,
    other: JsonView,
    other_item: JsonView,
    command: Seq<char>,
    a: u64,
    b: u64,
)
    requires
        reports(value, "item.completed"@, item, "command_execution"@),
        reports(other, "item.completed"@, other_item, "command_execution"@),
        says(item, "command"@, command),
        says(other_item, "command"@, command),
        field(item, "exit_code"@) == Some(JsonView::Unsigned(a)),
        field(other_item, "exit_code"@) == Some(JsonView::Unsigned(b)),
        a <= i64::MAX,
        b <= i64::MAX,
        a != b,
    ensures
        value_event(value) != value_event(other),
        value_event(value)->CommandCompleted_exit_code != value_event(
            other,
        )->CommandCompleted_exit_code,
{
    law_a_completed_command_is_decoded(value, item, command);
    law_a_completed_command_is_decoded(other, other_item, command);
}

/// A file change lists the path of every change that names one, in their order.
pub proof fn law_a_file_change_is_decoded(value: JsonView, item: JsonView, changes: Seq<JsonView>)
    requires
        reports(value, "item.completed"@, item, "file_change"@),
    ensures
        value_event(value) is FileChanged,
        field(item, "changes"@) == Some(JsonView::List(changes)) ==> value_event(
            value,
        )->FileChanged_paths == changed_paths(changes),
        field(item, "changes"@) is None ==> value_event(value)->FileChanged_paths.len() == 0,
{
    lemma_words();
}

/// The paths of two lists of changes are those of each, and a change gives the path
/// that it names, where it names one.
pub proof fn law_every_changed_path_is_listed(
    a: Seq<JsonView>,
    b: Seq<JsonView>,
    change: JsonView,
)
    ensures
        changed_paths(a + b) == changed_paths(a) + changed_paths(b),
        changed_paths(Seq::empty()) == Seq::<Seq<char>>::empty(),
        forall|path: Seq<char>| #[trigger]
            says(change, "path"@, path) ==> changed_paths(seq![change]) == seq![cleaned(path)],
        silent(change, "path"@) ==> changed_paths(seq![change]) == Seq::<Seq<char>>::empty(),
{
    lemma_paths_of_both(a, b);
    reveal_with_fuel(changed_paths, 2);
    let one = seq![change];
    assert(one.drop_last() =~= Seq::<JsonView>::empty());
    assert forall|path: Seq<char>| #[trigger] says(change, "path"@, path) implies changed_paths(one)
        == seq![cleaned(path)] by {
        assert(changed_paths(one) =~= seq![cleaned(path)]);
    }
}

proof fn lemma_paths_of_both(a: Seq<JsonView>, b: Seq<JsonView>)
    ensures
        changed_paths(a + b) == changed_paths(a) + changed_paths(b),
    decreases b.len(),
{
    if b.len() == 0 {
        assert(a + b =~= a);
        assert(changed_paths(a) + changed_paths(b) =~= changed_paths(a));
    } else {
        lemma_paths_of_both(a, b.drop_last());
        assert((a + b).drop_last() =~= a + b.drop_last());
        assert(changed_paths(a + b) =~= changed_paths(a) + changed_paths(b));
    }
}

/// A message of the agent is its text, and a plan is its text or what stands in its
/// place.
pub proof fn law_messages_and_plans_are_decoded(
    value: JsonView,
    item: JsonView,
    kind: Seq<char>,
    text: Seq<char>,
)
    requires
        reports(value, "item.completed"@, item, kind),
    ensures
        kind == "agent_message"@ && says(item, "text"@, text) ==> value_event(value) == (
        EventView::AgentMessage { text: cleaned(text) }),
        (kind == "plan"@ || kind == "plan_update"@) && says(item, "text"@, text) ==> value_event(
            value,
        ) == (EventView::PlanUpdated { text: cleaned(text) }),
        (kind == "plan"@ || kind == "plan_update"@) && silent(item, "text"@) && says(
            item,
            "plan"@,
            text,
        ) ==> value_event(value) == (EventView::PlanUpdated { text: cleaned(text) }),
{
    lemma_words();
}

/// Whether an item names its tool: under `tool`, else under `name`, else under
/// `server`, and else by its own kind.
pub open spec fn tool_is(item: JsonView, kind: Seq<char>, name: Seq<char>) -> bool {
    ||| says(item, "tool"@, name)
    ||| silent(item, "tool"@) && says(item, "name"@, name)
    ||| silent(item, "tool"@) && silent(item, "name"@) && says(item, "server"@, name)
    ||| silent(item, "tool"@) && silent(item, "name"@) && silent(item, "server"@) && name == kind
}

/// Whether an item says what its tool was called with: a query, else arguments,
/// else a detail, and else nothing.
pub open spec fn called_with(item: JsonView, detail: Seq<char>) -> bool {
    ||| says(item, "query"@, detail)
    ||| silent(item, "query"@) && says(item, "arguments"@, detail)
    ||| silent(item, "query"@) && silent(item, "arguments"@) && says(item, "detail"@, detail)
    ||| silent(item, "query"@) && silent(item, "arguments"@) && silent(item, "detail"@) && detail
        == Seq::<char>::empty()
}

/// A tool call carries the tool's name, and what it was called with when it starts
/// or how it went when it completes.
pub proof fn law_tool_calls_are_decoded(
    value: JsonView,
    stage: Seq<char>,
    item: JsonView,
    kind: Seq<char>,
    name: Seq<char>,
    detail: Seq<char>,
    status: Seq<char>,
)
    requires
        kind == "mcp_tool_call"@ || kind == "web_search"@,
        reports(value, stage, item, kind),
        tool_is(item, kind, name),
    ensures
        is_early(stage) && called_with(item, detail) ==> value_event(value) == (
        EventView::ToolStarted { name: cleaned(name), detail: cleaned(detail) }),
        stage == "item.completed"@ && says(item, "status"@, status) ==> value_event(value) == (
        EventView::ToolCompleted { name: cleaned(name), status: cleaned(status) }),
        stage == "item.completed"@ && silent(item, "status"@) ==> value_event(value) == (
        EventView::ToolCompleted { name: cleaned(name), status: "completed"@ }),
{
    lemma_words();
    reveal_strlit("completed");
    lemma_clean_is_kept("completed"@);
}

/// An item of a kind with no view of its own is kept under its stage and its kind.
/// So is one of a kind that has a view only once it completes.
pub proof fn law_other_items_are_kept(
    value: JsonView,
    stage: Seq<char>,
    item: JsonView,
    kind: Seq<char>,
)
    requires
        is_early(stage) || stage == "item.completed"@,
        reports(value, stage, item, kind),
        kind != "command_execution"@,
        kind != "mcp_tool_call"@,
        kind != "web_search"@,
        is_early(stage) || (kind != "file_change"@ && kind != "agent_message"@ && kind != "plan"@
            && kind != "plan_update"@),
    ensures
        value_event(value) == (EventView::Unknown { wire_type: cleaned(stage + ":"@ + kind) }),
{
    lemma_words();
}

// --- Lines -------------------------------------------------------------------

/// A thread that started carries its id, and a turn that started nothing.
pub proof fn law_starts_are_decoded(value: JsonView, id: Seq<char>)
    ensures
        says(value, "type"@, "thread.started"@) && says(value, "thread_id"@, id) ==> value_event(
            value,
        ) == (EventView::ThreadStarted { thread_id: cleaned(id) }),
        says(value, "type"@, "turn.started"@) ==> value_event(value) == EventView::TurnStarted,
{
    lemma_words();
}

/// Whether a value holds this figure under a key, or none where the figure is zero.
pub open spec fn counts(value: JsonView, key: Seq<char>, n: u64) -> bool {
    field(value, key) == Some(JsonView::Unsigned(n)) || (n == 0 && field(value, key) is None)
}

/// A turn that completed carries the four figures of its usage, each under its own
/// name, and zeros where none are given.
pub proof fn law_usage_is_decoded(
    value: JsonView,
    usage: JsonView,
    input: u64,
    cached: u64,
    output: u64,
    reasoning: u64,
)
    requires
        says(value, "type"@, "turn.completed"@),
    ensures
        field(value, "usage"@) == Some(usage) && usage is Table && counts(
            usage,
            "input_tokens"@,
            input,
        ) && counts(usage, "cached_input_tokens"@, cached) && counts(
            usage,
            "output_tokens"@,
            output,
        ) && counts(usage, "reasoning_output_tokens"@, reasoning) ==> value_event(value) == (
        EventView::TurnCompleted {
            usage: TokenUsage {
                input_tokens: input,
                cached_input_tokens: cached,
                output_tokens: output,
                reasoning_output_tokens: reasoning,
            },
        }),
        field(value, "usage"@) is None ==> value_event(value) == (EventView::TurnCompleted {
            usage: TokenUsage {
                input_tokens: 0,
                cached_input_tokens: 0,
                output_tokens: 0,
                reasoning_output_tokens: 0,
            },
        }),
{
    lemma_words();
}

/// Usage may also come as a list of figures in their order. What is no list of figures
/// and no table of them is no usage.
pub proof fn law_usage_may_be_a_list(value: JsonView, figures: Seq<u64>, usage: JsonView, key: Seq<char>)
    requires
        says(value, "type"@, "turn.completed"@),
        field(value, "usage"@) == Some(usage),
    ensures
        figures.len() == 4 && usage == JsonView::List(
            figures.map_values(|n: u64| JsonView::Unsigned(n)),
        ) ==> value_event(value) == (EventView::TurnCompleted {
            usage: TokenUsage {
                input_tokens: figures[0],
                cached_input_tokens: figures[1],
                output_tokens: figures[2],
                reasoning_output_tokens: figures[3],
            },
        }),
        usage is Table && (key == "input_tokens"@ || key == "cached_input_tokens"@ || key
            == "output_tokens"@ || key == "reasoning_output_tokens"@) && (
        field(usage, key) matches Some(other) && other !is Unsigned) ==> value_event(value) == (
        EventView::TurnCompleted {
            usage: TokenUsage {
                input_tokens: 0,
                cached_input_tokens: 0,
                output_tokens: 0,
                reasoning_output_tokens: 0,
            },
        }),
        usage !is Table && usage !is List ==> value_event(value) == (EventView::TurnCompleted {
            usage: TokenUsage {
                input_tokens: 0,
                cached_input_tokens: 0,
                output_tokens: 0,
                reasoning_output_tokens: 0,
            },
        }),
{
    lemma_words();
}

/// A failure carries what the agent says of it: the error's own text, else its
/// message, else the line's message, and else that there was one.
pub proof fn law_errors_are_decoded(
    value: JsonView,
    kind: Seq<char>,
    error: JsonView,
    message: Seq<char>,
)
    requires
        kind == "turn.failed"@ || kind == "error"@,
        says(value, "type"@, kind),
    ensures
        says(value, "error"@, message) ==> value_event(value) == (EventView::Error {
            message: cleaned(message),
        }),
        field(value, "error"@) == Some(error) && says(error, "message"@, message) ==> value_event(
            value,
        ) == (EventView::Error { message: cleaned(message) }),
        field(value, "error"@) is None && says(value, "message"@, message) ==> value_event(value)
            == (EventView::Error { message: cleaned(message) }),
        field(value, "error"@) is None && silent(value, "message"@) ==> value_event(value) == (
        EventView::Error { message: "agent reported an error"@ }),
{
    lemma_words();
    reveal_strlit("agent reported an error");
    lemma_clean_is_kept("agent reported an error"@);
}

/// A line of any other kind is kept under its kind, and a line that is no JSON value
/// as the reason why.
pub proof fn law_other_lines_are_kept(line: Seq<char>, value: JsonView, kind: Seq<char>, why: Seq<char>)
    ensures
        parsed_json(line) == Ok::<JsonView, Seq<char>>(value) ==> line_event(line) == value_event(
            value,
        ),
        parsed_json(line) == Err::<JsonView, Seq<char>>(why) ==> line_event(line) == (
        EventView::Malformed { error: cleaned(why) }),
        says(value, "type"@, kind) && kind != "thread.started"@ && kind != "turn.started"@ && kind
            != "turn.completed"@ && kind != "turn.failed"@ && kind != "error"@ && kind
            != "item.started"@ && kind != "item.updated"@ && kind != "item.completed"@
            ==> value_event(value) == (EventView::Unknown { wire_type: cleaned(kind) }),
{
}

// --- Cleaning ----------------------------------------------------------------

/// Clean text in front stays as it is, and what follows is cleaned on its own.
pub proof fn law_clean_text_stays_in_front(a: Seq<char>, s: Seq<char>)
    requires
        is_clean(a),
    ensures
        cleaned(a + s) == a + cleaned(s),
        cleaned(a) == a,
    decreases a.len(),
{
    lemma_clean_is_kept(a);
    if a.len() == 0 {
        assert(a + s =~= s);
        assert(a + cleaned(s) =~= cleaned(s));
    } else {
        let rest = a.skip(1);
        assert forall|i: int| 0 <= i < rest.len() implies !is_control(#[trigger] rest[i]) || rest[i]
            == '\n' || rest[i] == '\t' by {
            assert(!is_control(a[i + 1]) || a[i + 1] == '\n' || a[i + 1] == '\t');
        }
        assert(!is_control(a[0]) || a[0] == '\n' || a[0] == '\t');
        law_clean_text_stays_in_front(rest, s);
        assert((a + s).skip(1) =~= rest + s);
        assert((a + s)[0] == a[0]);
        assert(cleaned(a + s) =~= a + cleaned(s));
    }
}

/// A control character other than the newline and the tab goes, and so does an
/// escape with the one character behind it.
pub proof fn law_stray_characters_go(c: char, s: Seq<char>)
    ensures
        is_control(c) && c != '\n' && c != '\t' && c != '\u{1b}' ==> cleaned(seq![c] + s)
            == cleaned(s),
        c != '[' && c != ']' ==> cleaned(seq!['\u{1b}', c] + s) == cleaned(s),
        cleaned(seq!['\u{1b}']) == Seq::<char>::empty(),
{
    assert((seq![c] + s).skip(1) =~= s);
    assert((seq!['\u{1b}', c] + s).skip(2) =~= s);
}

/// A control sequence goes whole: the introducer, its parameters and its final
/// character.
pub proof fn law_control_sequences_go(parameters: Seq<char>, last: char, s: Seq<char>)
    requires
        forall|i: int| 0 <= i < parameters.len() ==> !('@' <= #[trigger] parameters[i] <= '~'),
        '@' <= last <= '~',
    ensures
        cleaned(seq!['\u{1b}', '['] + parameters + seq![last] + s) == cleaned(s),
{
    let whole = seq!['\u{1b}', '['] + parameters + seq![last] + s;
    assert(whole[0] == '\u{1b}' && whole[1] == '[');
    assert(whole.skip(2) =~= parameters + seq![last] + s);
    lemma_sequence(parameters, last, s);
}

proof fn lemma_sequence(parameters: Seq<char>, last: char, s: Seq<char>)
    requires
        forall|i: int| 0 <= i < parameters.len() ==> !('@' <= #[trigger] parameters[i] <= '~'),
        '@' <= last <= '~',
    ensures
        crate::event::after_control_sequence(parameters + seq![last] + s) == s,
    decreases parameters.len(),
{
    let whole = parameters + seq![last] + s;
    if parameters.len() == 0 {
        assert(whole.skip(1) =~= s);
    } else {
        let rest = parameters.skip(1);
        assert forall|i: int| 0 <= i < rest.len() implies !('@' <= #[trigger] rest[i] <= '~') by {
            assert(!('@' <= parameters[i + 1] <= '~'));
        }
        assert(!('@' <= parameters[0] <= '~'));
        lemma_sequence(rest, last, s);
        assert(whole.skip(1) =~= rest + seq![last] + s);
    }
}

/// A system command goes whole: the introducer, what it says, and the bell or the
/// string terminator that ends it.
pub proof fn law_system_commands_go(said: Seq<char>, s: Seq<char>)
    requires
        forall|i: int|
            0 <= i < said.len() ==> #[trigger] said[i] != '\u{07}' && said[i] != '\u{1b}',
    ensures
        cleaned(seq!['\u{1b}', ']'] + said + seq!['\u{07}'] + s) == cleaned(s),
        cleaned(seq!['\u{1b}', ']'] + said + seq!['\u{1b}', '\\'] + s) == cleaned(s),
{
    let belled = seq!['\u{1b}', ']'] + said + seq!['\u{07}'] + s;
    let ended = seq!['\u{1b}', ']'] + said + seq!['\u{1b}', '\\'] + s;
    assert(belled[0] == '\u{1b}' && belled[1] == ']');
    assert(ended[0] == '\u{1b}' && ended[1] == ']');
    assert(belled.skip(2) =~= said + seq!['\u{07}'] + s);
    assert(ended.skip(2) =~= said + seq!['\u{1b}', '\\'] + s);
    lemma_command(said, s);
}

proof fn lemma_command(said: Seq<char>, s: Seq<char>)
    requires
        forall|i: int|
            0 <= i < said.len() ==> #[trigger] said[i] != '\u{07}' && said[i] != '\u{1b}',
    ensures
        crate::event::after_system_command(said + seq!['\u{07}'] + s) == s,
        crate::event::after_system_command(said + seq!['\u{1b}', '\\'] + s) == s,
    decreases said.len(),
{
    let belled = said + seq!['\u{07}'] + s;
    let ended = said + seq!['\u{1b}', '\\'] + s;
    if said.len() == 0 {
        assert(belled.skip(1) =~= s);
        assert(ended.skip(2) =~= s);
        assert(ended[0] == '\u{1b}' && ended[1] == '\\');
    } else {
        let rest = said.skip(1);
        assert forall|i: int| 0 <= i < rest.len() implies #[trigger] rest[i] != '\u{07}' && rest[i]
            != '\u{1b}' by {
            assert(said[i + 1] != '\u{07}' && said[i + 1] != '\u{1b}');
        }
        assert(said[0] != '\u{07}' && said[0] != '\u{1b}');
        lemma_command(rest, s);
        assert(belled.skip(1) =~= rest + seq!['\u{07}'] + s);
        assert(ended.skip(1) =~= rest + seq!['\u{1b}', '\\'] + s);
        assert(belled[0] == said[0] && ended[0] == said[0]);
    }
}

} // verus!
