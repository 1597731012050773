//! What an agent said, how its wire lines are read, and how each is shown.

use vstd::prelude::*;

use crate::clean::{is_clean_event, law_what_is_read_is_clean, lemma_detail_is_clean};
use crate::json::{field, parse_json, parsed_json, text_field, text_in, Json, JsonView};
use crate::text::{
    chars_of, control, decimal, end_without_space, is_control, is_space, join, joined,
    number, same, signed_decimal, signed_number, space, split_at_each, split_on,
    split_words, text_range, trim, trimmed, trimmed_end, view_of, views, words,
};

verus! {

/// The wire protocol an agent speaks.
#[derive(Clone, Copy, Debug, PartialEq, Eq, Structural)]
pub enum Protocol {
    /// Codex's item, thread and turn events, one JSON object per line.
    CodexJsonl,
}

impl Default for Protocol {
    fn default() -> (r: Protocol)
        ensures
            r == Protocol::CodexJsonl,
    {
        Protocol::CodexJsonl
    }
}

/// Token usage figures. All zero where nothing was reported.
#[derive(Clone, Copy, Debug, PartialEq, Eq, Structural)]
pub struct TokenUsage {
    pub input_tokens: u64,
    pub cached_input_tokens: u64,
    pub output_tokens: u64,
    pub reasoning_output_tokens: u64,
}

/// The usage figures of a report that carries none.
pub open spec fn no_usage() -> TokenUsage {
    TokenUsage {
        input_tokens: 0,
        cached_input_tokens: 0,
        output_tokens: 0,
        reasoning_output_tokens: 0,
    }
}

impl Default for TokenUsage {
    fn default() -> (r: TokenUsage)
        ensures
            r == no_usage(),
    {
        TokenUsage {
            input_tokens: 0,
            cached_input_tokens: 0,
            output_tokens: 0,
            reasoning_output_tokens: 0,
        }
    }
}

/// One thing that happened in a session, whichever agent runs it.
#[derive(Debug, PartialEq, Eq)]
pub enum StyraEvent {
    /// A message the operator sent.
    UserMessage { text: String },
    ThreadStarted { thread_id: String },
    TurnStarted,
    TurnCompleted { usage: TokenUsage },
    CommandStarted { command: String },
    CommandCompleted { command: String, status: String, exit_code: Option<i64>, output: String },
    FileChanged { paths: Vec<String> },
    ToolStarted { name: String, detail: String },
    ToolCompleted { name: String, status: String },
    PlanUpdated { text: String },
    AgentMessage { text: String },
    Error { message: String },
    /// An event of a kind with no view of its own.
    Unknown { wire_type: String },
    /// A line that could not be read, kept visible.
    Malformed { error: String },
}

/// What an event holds.
#[verifier::ext_equal]
pub ghost enum EventView {
    UserMessage { text: Seq<char> },
    ThreadStarted { thread_id: Seq<char> },
    TurnStarted,
    TurnCompleted { usage: TokenUsage },
    CommandStarted { command: Seq<char> },
    CommandCompleted {
        command: Seq<char>,
        status: Seq<char>,
        exit_code: Option<i64>,
        output: Seq<char>,
    },
    FileChanged { paths: Seq<Seq<char>> },
    ToolStarted { name: Seq<char>, detail: Seq<char> },
    ToolCompleted { name: Seq<char>, status: Seq<char> },
    PlanUpdated { text: Seq<char> },
    AgentMessage { text: Seq<char> },
    Error { message: Seq<char> },
    Unknown { wire_type: Seq<char> },
    Malformed { error: Seq<char> },
}

impl View for StyraEvent {
    type V = EventView;

    open spec fn view(&self) -> EventView {
        match self {
            StyraEvent::UserMessage { text } => EventView::UserMessage { text: text@ },
            StyraEvent::ThreadStarted { thread_id } => EventView::ThreadStarted {
                thread_id: thread_id@,
            },
            StyraEvent::TurnStarted => EventView::TurnStarted,
            StyraEvent::TurnCompleted { usage } => EventView::TurnCompleted { usage: *usage },
            StyraEvent::CommandStarted { command } => EventView::CommandStarted {
                command: command@,
            },
            StyraEvent::CommandCompleted { command, status, exit_code, output } => {
                EventView::CommandCompleted {
                    command: command@,
                    status: status@,
                    exit_code: *exit_code,
                    output: output@,
                }
            },
            StyraEvent::FileChanged { paths } => EventView::FileChanged { paths: views(paths@) },
            StyraEvent::ToolStarted { name, detail } => EventView::ToolStarted {
                name: name@,
                detail: detail@,
            },
            StyraEvent::ToolCompleted { name, status } => EventView::ToolCompleted {
                name: name@,
                status: status@,
            },
            StyraEvent::PlanUpdated { text } => EventView::PlanUpdated { text: text@ },
            StyraEvent::AgentMessage { text } => EventView::AgentMessage { text: text@ },
            StyraEvent::Error { message } => EventView::Error { message: message@ },
            StyraEvent::Unknown { wire_type } => EventView::Unknown { wire_type: wire_type@ },
            StyraEvent::Malformed { error } => EventView::Malformed { error: error@ },
        }
    }
}

/// A piece of an event's full text. It holds no terminal control sequence.
#[derive(Debug, PartialEq, Eq)]
pub enum DetailBlock {
    Text(String),
    Code { language: Option<String>, text: String },
}

/// What a block holds.
#[verifier::ext_equal]
pub ghost enum BlockView {
    Text(Seq<char>),
    Code { language: Option<Seq<char>>, text: Seq<char> },
}

impl View for DetailBlock {
    type V = BlockView;

    open spec fn view(&self) -> BlockView {
        match self {
            DetailBlock::Text(text) => BlockView::Text(text@),
            DetailBlock::Code { language, text } => BlockView::Code {
                language: view_of(*language),
                text: text@,
            },
        }
    }
}

/// The views of a list of blocks.
pub open spec fn block_views(blocks: Seq<DetailBlock>) -> Seq<BlockView> {
    blocks.map_values(|b: DetailBlock| b@)
}

// --- Cleaning ----------------------------------------------------------------

/// What follows a control sequence introducer: everything after its final
/// character, which is the first from `@` to `~`.
pub open spec fn after_control_sequence(s: Seq<char>) -> Seq<char>
    decreases s.len(),
{
    if s.len() == 0 {
        s
    } else if '@' <= s[0] <= '~' {
        s.skip(1)
    } else {
        after_control_sequence(s.skip(1))
    }
}

/// What follows an operating system command: everything after the bell or the
/// string terminator that ends it.
pub open spec fn after_system_command(s: Seq<char>) -> Seq<char>
    decreases s.len(),
{
    if s.len() == 0 {
        s
    } else if s[0] == '\u{07}' {
        s.skip(1)
    } else if s[0] == '\u{1b}' && s.len() > 1 && s[1] == '\\' {
        s.skip(2)
    } else {
        after_system_command(s.skip(1))
    }
}

proof fn lemma_after_shorter(s: Seq<char>)
    ensures
        after_control_sequence(s).len() <= s.len(),
        after_system_command(s).len() <= s.len(),
    decreases s.len(),
{
    if s.len() > 0 {
        lemma_after_shorter(s.skip(1));
    }
}

/// `s` without escape sequences and without control characters other than the
/// newline and the tab.
pub open spec fn cleaned(s: Seq<char>) -> Seq<char>
    decreases s.len(),
    via cleaned_shrinks
{
    if s.len() == 0 {
        s
    } else if s[0] == '\u{1b}' {
        if s.len() == 1 {
            Seq::empty()
        } else if s[1] == '[' {
            cleaned(after_control_sequence(s.skip(2)))
        } else if s[1] == ']' {
            cleaned(after_system_command(s.skip(2)))
        } else {
            cleaned(s.skip(2))
        }
    } else if is_control(s[0]) && s[0] != '\n' && s[0] != '\t' {
        cleaned(s.skip(1))
    } else {
        seq![s[0]] + cleaned(s.skip(1))
    }
}

#[via_fn]
proof fn cleaned_shrinks(s: Seq<char>) {
    if s.len() > 1 {
        lemma_after_shorter(s.skip(2));
    }
}

/// Whether `s` holds no control character other than the newline and the tab.
pub open spec fn is_clean(s: Seq<char>) -> bool {
    forall|i: int|
        0 <= i < s.len() ==> !is_control(#[trigger] s[i]) || s[i] == '\n' || s[i] == '\t'
}

/// Whether a text cannot steer the terminal: it holds no control character other
/// than the newline and the tab, and cleaning would leave it as it is.
pub open spec fn is_inert(s: Seq<char>) -> bool {
    is_clean(s) && cleaned(s) == s
}

/// Cleaning leaves no control character, an escape included, but newlines and
/// tabs.
pub proof fn lemma_cleaned_is_clean(s: Seq<char>)
    ensures
        is_clean(cleaned(s)),
    decreases s.len(),
{
    if s.len() == 0 {
    } else if s[0] == '\u{1b}' {
        if s.len() > 1 {
            lemma_after_shorter(s.skip(2));
            lemma_cleaned_is_clean(after_control_sequence(s.skip(2)));
            lemma_cleaned_is_clean(after_system_command(s.skip(2)));
            lemma_cleaned_is_clean(s.skip(2));
        }
    } else {
        lemma_cleaned_is_clean(s.skip(1));
    }
}

/// Cleaning leaves clean text as it is.
pub proof fn lemma_clean_is_kept(s: Seq<char>)
    requires
        is_clean(s),
    ensures
        cleaned(s) == s,
    decreases s.len(),
{
    if s.len() > 0 {
        assert(!is_control(s[0]) || s[0] == '\n' || s[0] == '\t');
        assert forall|i: int| 0 <= i < s.skip(1).len() implies !is_control(
            #[trigger] s.skip(1)[i],
        ) || s.skip(1)[i] == '\n' || s.skip(1)[i] == '\t' by {
            assert(!is_control(s[i + 1]) || s[i + 1] == '\n' || s[i + 1] == '\t');
        }
        lemma_clean_is_kept(s.skip(1));
        assert(seq![s[0]] + s.skip(1) =~= s);
    }
}

/// Cleaning text twice is cleaning it once, and what was cleaned cannot steer the
/// terminal.
pub proof fn law_cleaning_settles(s: Seq<char>)
    ensures
        cleaned(cleaned(s)) == cleaned(s),
        is_inert(cleaned(s)),
{
    lemma_cleaned_is_clean(s);
    lemma_clean_is_kept(cleaned(s));
}

/// Strip escape sequences and stray control characters, keeping newlines and
/// tabs.
pub fn clean_terminal_text(text: &str) -> (r: String)
    ensures
        r@ == cleaned(text@),
        is_clean(r@),
{
    let v = chars_of(text);
    let mut out = String::new();
    let mut i: usize = 0;
    proof {
        assert(v@.skip(0) =~= v@);
        assert(out@ + cleaned(v@) =~= cleaned(v@));
    }
    while i < v.len()
        invariant
            i <= v@.len(),
            v@ == text@,
            out@ + cleaned(v@.skip(i as int)) == cleaned(text@),
        decreases v.len() - i,
    {
        let c = v[i];
        let ghost here = v@.skip(i as int);
        assert(here[0] == c);
        if c == '\u{1b}' {
            i = i + 1;
            if i == v.len() {
                assert(v@.skip(i as int) =~= Seq::<char>::empty());
            } else {
                let next = v[i];
                assert(here[1] == next);
                i = i + 1;
                assert(here.skip(2) =~= v@.skip(i as int));
                if next == '[' {
                    i = skip_control_sequence(&v, i);
                } else if next == ']' {
                    i = skip_system_command(&v, i);
                }
            }
        } else {
            assert(here.skip(1) =~= v@.skip(i + 1));
            if control(c) && c != '\n' && c != '\t' {
            } else {
                let ghost had = out@;
                out.push(c);
                assert(out@ + cleaned(v@.skip(i + 1)) =~= had + (seq![c] + cleaned(
                    v@.skip(i + 1),
                )));
            }
            i = i + 1;
        }
    }
    proof {
        assert(v@.skip(v@.len() as int) =~= Seq::<char>::empty());
        assert(out@ + Seq::<char>::empty() =~= out@);
        lemma_cleaned_is_clean(text@);
    }
    out
}

fn skip_control_sequence(v: &Vec<char>, from: usize) -> (to: usize)
    requires
        from <= v@.len(),
    ensures
        from <= to <= v@.len(),
        v@.skip(to as int) == after_control_sequence(v@.skip(from as int)),
{
    let mut i: usize = from;
    while i < v.len()
        invariant
            from <= i <= v@.len(),
            after_control_sequence(v@.skip(i as int)) == after_control_sequence(
                v@.skip(from as int),
            ),
        decreases v.len() - i,
    {
        let c = v[i];
        assert(v@.skip(i as int)[0] == c);
        assert(v@.skip(i as int).skip(1) =~= v@.skip(i + 1));
        i = i + 1;
        if '@' <= c && c <= '~' {
            return i;
        }
    }
    i
}

fn skip_system_command(v: &Vec<char>, from: usize) -> (to: usize)
    requires
        from <= v@.len(),
    ensures
        from <= to <= v@.len(),
        v@.skip(to as int) == after_system_command(v@.skip(from as int)),
{
    let mut i: usize = from;
    while i < v.len()
        invariant
            from <= i <= v@.len(),
            after_system_command(v@.skip(i as int)) == after_system_command(v@.skip(from as int)),
        decreases v.len() - i,
    {
        let c = v[i];
        assert(v@.skip(i as int)[0] == c);
        assert(v@.skip(i as int).skip(1) =~= v@.skip(i + 1));
        if c == '\u{07}' {
            return i + 1;
        }
        if c == '\u{1b}' && i + 1 < v.len() && v[i + 1] == '\\' {
            assert(v@.skip(i as int)[1] == '\\');
            assert(v@.skip(i as int).skip(2) =~= v@.skip(i + 2));
            return i + 2;
        }
        i = i + 1;
    }
    i
}

// --- One-line summaries ------------------------------------------------------

/// The first of the texts that is not empty.
pub open spec fn first_filled(list: Seq<Seq<char>>) -> Seq<char>
    decreases list.len(),
{
    if list.len() == 0 {
        Seq::empty()
    } else if list[0].len() > 0 {
        list[0]
    } else {
        first_filled(list.skip(1))
    }
}

/// The lines of `s`, each without white space at its ends.
pub open spec fn trimmed_lines(s: Seq<char>) -> Seq<Seq<char>> {
    split_at_each(s, '\n').map_values(|l: Seq<char>| trimmed(l))
}

/// The first line of `s` that is not blank, without white space at its ends.
pub open spec fn leading_line(s: Seq<char>) -> Seq<char> {
    first_filled(trimmed_lines(s))
}

/// The first line of `text` that is not blank, trimmed.
pub fn first_line(text: &str) -> (r: String)
    ensures
        r@ == leading_line(text@),
{
    let lines = split_on(text, '\n');
    let mut i: usize = 0;
    let ghost all = trimmed_lines(text@);
    assert(all.skip(0) =~= all);
    while i < lines.len()
        invariant
            i <= lines@.len(),
            views(lines@) == split_at_each(text@, '\n'),
            all == trimmed_lines(text@),
            first_filled(all.skip(i as int)) == leading_line(text@),
        decreases lines.len() - i,
    {
        let line = trim(lines[i].as_str());
        proof {
            assert(views(lines@)[i as int] == lines@[i as int]@);
            assert(all.skip(i as int)[0] == line@);
            assert(all.skip(i as int).skip(1) =~= all.skip(i + 1));
        }
        if !line.as_str().is_empty() {
            return line;
        }
        i = i + 1;
    }
    String::new()
}

/// `s` with its newlines turned into spaces.
pub open spec fn flattened(s: Seq<char>) -> Seq<char> {
    s.map_values(|c: char| if c == '\n' { ' ' } else { c })
}

/// `s` on one line, cut to `max` characters with an ellipsis where it is
/// longer.
pub open spec fn shortened(s: Seq<char>, max: nat) -> Seq<char> {
    if s.len() <= max {
        flattened(s)
    } else if max == 0 {
        seq!['…']
    } else {
        flattened(s).take(max - 1).push('…')
    }
}

/// `line` on one line of at most `max` characters.
pub fn truncate_line(line: &str, max: usize) -> (r: String)
    ensures
        r@ == shortened(line@, max as nat),
{
    let v = chars_of(line);
    let keep: usize = if v.len() <= max {
        v.len()
    } else if max == 0 {
        0
    } else {
        max - 1
    };
    let mut r = String::new();
    let mut i: usize = 0;
    while i < keep
        invariant
            i <= keep <= v@.len(),
            r@ == flattened(v@).take(i as int),
        decreases keep - i,
    {
        if v[i] == '\n' {
            r.push(' ');
        } else {
            r.push(v[i]);
        }
        assert(flattened(v@).take(i + 1) =~= flattened(v@).take(i as int).push(
            flattened(v@)[i as int],
        ));
        i = i + 1;
    }
    if v.len() > max {
        r.push('…');
        assert(max == 0 ==> r@ =~= seq!['…']);
    } else {
        assert(flattened(v@).take(v@.len() as int) =~= flattened(v@));
    }
    r
}

/// A line cut to at least one character holds no newline and no more than that
/// many characters.
pub proof fn lemma_shortened(s: Seq<char>, max: nat)
    requires
        max > 0,
    ensures
        shortened(s, max).len() <= max,
        !shortened(s, max).contains('\n'),
{
    let r = shortened(s, max);
    assert forall|i: int| 0 <= i < r.len() implies r[i] != '\n' by {
        if s.len() > max && i == max - 1 {
        } else {
            assert(r[i] == flattened(s)[i]);
        }
    }
}

/// The line that stands for an event before it is cut to length.
pub open spec fn summary_line(event: EventView) -> Seq<char> {
    match event {
        EventView::UserMessage { text } => leading_line(text),
        EventView::ThreadStarted { thread_id } => "session "@ + thread_id,
        EventView::TurnStarted => "turn started"@,
        EventView::TurnCompleted { usage } => "in "@ + decimal(usage.input_tokens as nat)
            + " · out "@ + decimal(usage.output_tokens as nat) + " · cached "@ + decimal(
            usage.cached_input_tokens as nat,
        ),
        EventView::CommandStarted { command } => leading_line(command),
        EventView::CommandCompleted { command, status, exit_code, .. } => match exit_code {
            Some(code) => leading_line(command) + " ("@ + status + ", exit "@ + signed_decimal(
                code as int,
            ) + ")"@,
            None => leading_line(command) + " ("@ + status + ")"@,
        },
        EventView::FileChanged { paths } => joined(paths, ", "@),
        EventView::ToolStarted { name, detail } => if detail.len() > 0 {
            name + ": "@ + leading_line(detail)
        } else {
            name
        },
        EventView::ToolCompleted { name, status } => name + " ("@ + status + ")"@,
        EventView::PlanUpdated { text } => leading_line(text),
        EventView::AgentMessage { text } => leading_line(text),
        EventView::Error { message } => leading_line(message),
        EventView::Unknown { wire_type } => wire_type,
        EventView::Malformed { error } => leading_line(error),
    }
}

/// The line that stands for a change of model: what is not named stays as it is.
pub open spec fn model_change_line(model: Option<Seq<char>>, effort: Option<Seq<char>>) -> Seq<
    char,
> {
    "model → "@ + match model {
        Some(model) => model,
        None => "same model"@,
    } + " ("@ + match effort {
        Some(effort) => effort,
        None => "same effort"@,
    } + ")"@
}

/// The line that stands for a change of model.
pub fn model_change(model: &Option<String>, effort: &Option<String>) -> (r: String)
    ensures
        r@ == model_change_line(view_of(*model), view_of(*effort)),
{
    let model = match model {
        Some(model) => model.as_str(),
        None => "same model",
    };
    let effort = match effort {
        Some(effort) => effort.as_str(),
        None => "same effort",
    };
    "model → ".to_owned().concat(model).concat(" (").concat(effort).concat(")")
}

/// The short tag of an event.
pub open spec fn event_tag(event: EventView) -> Seq<char> {
    match event {
        EventView::UserMessage { .. } => "user"@,
        EventView::ThreadStarted { .. } => "thread"@,
        EventView::TurnStarted => "turn"@,
        EventView::TurnCompleted { .. } => "usage"@,
        EventView::CommandStarted { .. } => "command"@,
        EventView::CommandCompleted { .. } => "command"@,
        EventView::FileChanged { .. } => "files"@,
        EventView::ToolStarted { .. } => "tool"@,
        EventView::ToolCompleted { .. } => "tool"@,
        EventView::PlanUpdated { .. } => "plan"@,
        EventView::AgentMessage { .. } => "agent"@,
        EventView::Error { .. } => "error"@,
        EventView::Unknown { .. } => "unknown"@,
        EventView::Malformed { .. } => "malformed"@,
    }
}

/// Each text of a list, cleaned.
pub open spec fn cleaned_each(list: Seq<Seq<char>>) -> Seq<Seq<char>> {
    list.map_values(|t: Seq<char>| cleaned(t))
}

/// Whether the text of a block, and the language it names, cannot steer the
/// terminal.
pub open spec fn is_clean_block(block: BlockView) -> bool {
    match block {
        BlockView::Text(text) => is_inert(text),
        BlockView::Code { language, text } => {
            &&& is_inert(text)
            &&& match language {
                Some(l) => is_inert(l),
                None => true,
            }
        },
    }
}

/// The blocks that show an event in full. Every text of the event is cleaned on
/// its own before it stands beside others.
pub open spec fn detail_blocks(event: EventView) -> Seq<BlockView> {
    match event {
        EventView::UserMessage { text } => markdown(text),
        EventView::ThreadStarted { thread_id } => seq![
            BlockView::Text("thread id: "@ + cleaned(thread_id)),
        ],
        EventView::TurnStarted => seq![],
        EventView::TurnCompleted { usage } => seq![
            BlockView::Text(
                "input "@ + decimal(usage.input_tokens as nat) + " · cached input "@ + decimal(
                    usage.cached_input_tokens as nat,
                ) + " · output "@ + decimal(usage.output_tokens as nat) + " · reasoning "@
                    + decimal(usage.reasoning_output_tokens as nat),
            ),
        ],
        EventView::CommandStarted { command } => seq![
            BlockView::Code { language: None, text: cleaned(command) },
        ],
        EventView::CommandCompleted { command, status, exit_code, output } => {
            let head = "$ "@ + cleaned(command) + "\nstatus: "@ + cleaned(status);
            let outcome = match exit_code {
                Some(code) => head + " (exit "@ + signed_decimal(code as int) + ")"@,
                None => head,
            };
            if output.len() > 0 {
                seq![
                    BlockView::Text(outcome),
                    BlockView::Code { language: None, text: cleaned(output) },
                ]
            } else {
                seq![BlockView::Text(outcome)]
            }
        },
        EventView::FileChanged { paths } => seq![
            BlockView::Text(joined(cleaned_each(paths), "\n"@)),
        ],
        EventView::ToolStarted { name, detail } => seq![
            BlockView::Text(
                if detail.len() > 0 {
                    cleaned(name).push('\n') + cleaned(detail)
                } else {
                    cleaned(name)
                },
            ),
        ],
        EventView::ToolCompleted { name, status } => seq![
            BlockView::Text(cleaned(name) + ": "@ + cleaned(status)),
        ],
        EventView::PlanUpdated { text } => markdown(text),
        EventView::AgentMessage { text } => markdown(text),
        EventView::Error { message } => seq![BlockView::Text(cleaned(message))],
        EventView::Unknown { wire_type } => seq![
            BlockView::Text("unrecognised event: "@ + cleaned(wire_type)),
        ],
        EventView::Malformed { error } => seq![BlockView::Text(cleaned(error))],
    }
}

fn one_text(text: String) -> (r: Vec<DetailBlock>)
    ensures
        block_views(r@) == seq![BlockView::Text(text@)],
{
    let mut r: Vec<DetailBlock> = Vec::new();
    r.push(DetailBlock::Text(text));
    assert(block_views(r@) =~= seq![BlockView::Text(text@)]);
    r
}

impl StyraEvent {
    /// The short tag at the head of the event's line.
    pub fn tag(&self) -> (r: &'static str)
        ensures
            r@ == event_tag(self@),
    {
        match self {
            StyraEvent::UserMessage { .. } => "user",
            StyraEvent::ThreadStarted { .. } => "thread",
            StyraEvent::TurnStarted => "turn",
            StyraEvent::TurnCompleted { .. } => "usage",
            StyraEvent::CommandStarted { .. } => "command",
            StyraEvent::CommandCompleted { .. } => "command",
            StyraEvent::FileChanged { .. } => "files",
            StyraEvent::ToolStarted { .. } => "tool",
            StyraEvent::ToolCompleted { .. } => "tool",
            StyraEvent::PlanUpdated { .. } => "plan",
            StyraEvent::AgentMessage { .. } => "agent",
            StyraEvent::Error { .. } => "error",
            StyraEvent::Unknown { .. } => "unknown",
            StyraEvent::Malformed { .. } => "malformed",
        }
    }

    /// One line that stands for the event: no newline in it, and at most 200
    /// characters.
    pub fn summary(&self) -> (r: String)
        ensures
            r@ == shortened(summary_line(self@), 200),
            !r@.contains('\n'),
            r@.len() <= 200,
    {
        let line = match self {
            StyraEvent::UserMessage { text } => first_line(text.as_str()),
            StyraEvent::ThreadStarted { thread_id } => "session ".to_owned().concat(
                thread_id.as_str(),
            ),
            StyraEvent::TurnStarted => "turn started".to_owned(),
            StyraEvent::TurnCompleted { usage } => {
                let mut r = "in ".to_owned();
                r.append(number(usage.input_tokens).as_str());
                r.append(" · out ");
                r.append(number(usage.output_tokens).as_str());
                r.append(" · cached ");
                r.append(number(usage.cached_input_tokens).as_str());
                r
            },
            StyraEvent::CommandStarted { command } => first_line(command.as_str()),
            StyraEvent::CommandCompleted { command, status, exit_code, .. } => {
                let mut r = first_line(command.as_str());
                r.append(" (");
                r.append(status.as_str());
                if let Some(code) = exit_code {
                    r.append(", exit ");
                    r.append(signed_number(*code).as_str());
                }
                r.append(")");
                r
            },
            StyraEvent::FileChanged { paths } => join(paths, ", "),
            StyraEvent::ToolStarted { name, detail } => {
                let mut r = name.clone();
                if !detail.as_str().is_empty() {
                    r.append(": ");
                    r.append(first_line(detail.as_str()).as_str());
                }
                r
            },
            StyraEvent::ToolCompleted { name, status } => {
                let mut r = name.clone();
                r.append(" (");
                r.append(status.as_str());
                r.append(")");
                r
            },
            StyraEvent::PlanUpdated { text } => first_line(text.as_str()),
            StyraEvent::AgentMessage { text } => first_line(text.as_str()),
            StyraEvent::Error { message } => first_line(message.as_str()),
            StyraEvent::Unknown { wire_type } => wire_type.clone(),
            StyraEvent::Malformed { error } => first_line(error.as_str()),
        };
        proof {
            lemma_shortened(line@, 200);
        }
        truncate_line(line.as_str(), 200)
    }

    /// The event in full, as blocks that hold no terminal control sequence.
    pub fn detail(&self) -> (r: Vec<DetailBlock>)
        ensures
            block_views(r@) == detail_blocks(self@),
            forall|i: int| 0 <= i < r@.len() ==> is_clean_block(#[trigger] r@[i]@),
    {
        let r = self.blocks();
        proof {
            lemma_detail_is_clean(self@);
            assert forall|i: int| 0 <= i < r@.len() implies is_clean_block(#[trigger] r@[i]@) by {
                assert(block_views(r@)[i] == r@[i]@);
            }
        }
        r
    }

    fn blocks(&self) -> (r: Vec<DetailBlock>)
        ensures
            block_views(r@) == detail_blocks(self@),
    {
        match self {
            StyraEvent::UserMessage { text } => markdown_blocks(text.as_str()),
            StyraEvent::ThreadStarted { thread_id } => one_text(
                "thread id: ".to_owned().concat(clean_terminal_text(thread_id.as_str()).as_str()),
            ),
            StyraEvent::TurnStarted => {
                let r: Vec<DetailBlock> = Vec::new();
                assert(block_views(r@) =~= Seq::<BlockView>::empty());
                r
            },
            StyraEvent::TurnCompleted { usage } => {
                let mut t = "input ".to_owned();
                t.append(number(usage.input_tokens).as_str());
                t.append(" · cached input ");
                t.append(number(usage.cached_input_tokens).as_str());
                t.append(" · output ");
                t.append(number(usage.output_tokens).as_str());
                t.append(" · reasoning ");
                t.append(number(usage.reasoning_output_tokens).as_str());
                one_text(t)
            },
            StyraEvent::CommandStarted { command } => {
                let mut r: Vec<DetailBlock> = Vec::new();
                let text = clean_terminal_text(command.as_str());
                r.push(DetailBlock::Code { language: None, text });
                assert(block_views(r@) =~= detail_blocks(self@));
                r
            },
            StyraEvent::CommandCompleted { command, status, exit_code, output } => {
                let mut t = "$ ".to_owned();
                t.append(clean_terminal_text(command.as_str()).as_str());
                t.append("\nstatus: ");
                t.append(clean_terminal_text(status.as_str()).as_str());
                if let Some(code) = exit_code {
                    t.append(" (exit ");
                    t.append(signed_number(*code).as_str());
                    t.append(")");
                }
                let mut r: Vec<DetailBlock> = Vec::new();
                r.push(DetailBlock::Text(t));
                if !output.as_str().is_empty() {
                    let text = clean_terminal_text(output.as_str());
                    r.push(DetailBlock::Code { language: None, text });
                }
                assert(block_views(r@) =~= detail_blocks(self@));
                r
            },
            StyraEvent::FileChanged { paths } => one_text(join(&clean_each(paths), "\n")),
            StyraEvent::ToolStarted { name, detail } => {
                let mut t = clean_terminal_text(name.as_str());
                if !detail.as_str().is_empty() {
                    t.push('\n');
                    t.append(clean_terminal_text(detail.as_str()).as_str());
                }
                one_text(t)
            },
            StyraEvent::ToolCompleted { name, status } => {
                let mut t = clean_terminal_text(name.as_str());
                t.append(": ");
                t.append(clean_terminal_text(status.as_str()).as_str());
                one_text(t)
            },
            StyraEvent::PlanUpdated { text } => markdown_blocks(text.as_str()),
            StyraEvent::AgentMessage { text } => markdown_blocks(text.as_str()),
            StyraEvent::Error { message } => one_text(clean_terminal_text(message.as_str())),
            StyraEvent::Unknown { wire_type } => one_text(
                "unrecognised event: ".to_owned().concat(
                    clean_terminal_text(wire_type.as_str()).as_str(),
                ),
            ),
            StyraEvent::Malformed { error } => one_text(clean_terminal_text(error.as_str())),
        }
    }
}

fn clean_each(list: &Vec<String>) -> (r: Vec<String>)
    ensures
        views(r@) == cleaned_each(views(list@)),
{
    let mut r: Vec<String> = Vec::new();
    let mut i: usize = 0;
    while i < list.len()
        invariant
            i <= list@.len(),
            r@.len() == i,
            forall|k: int| 0 <= k < i ==> (#[trigger] r@[k])@ == cleaned(list@[k]@),
        decreases list.len() - i,
    {
        r.push(clean_terminal_text(list[i].as_str()));
        i = i + 1;
    }
    assert(views(r@) =~= cleaned_each(views(list@)));
    r
}

// --- Markdown ----------------------------------------------------------------

/// `s` without its leading spaces.
pub open spec fn after_spaces(s: Seq<char>) -> Seq<char>
    decreases s.len(),
{
    if s.len() > 0 && s[0] == ' ' {
        after_spaces(s.skip(1))
    } else {
        s
    }
}

/// How many times `mark` is repeated at the start of `s`.
pub open spec fn run_of(s: Seq<char>, mark: char) -> nat
    decreases s.len(),
{
    if s.len() > 0 && s[0] == mark {
        1 + run_of(s.skip(1), mark)
    } else {
        0
    }
}

/// A fence that opens a code block: its character, how often it is repeated,
/// and the language it names.
pub struct Fence {
    pub marker: char,
    pub width: usize,
    pub language: Option<String>,
}

pub ghost struct FenceView {
    pub marker: char,
    pub width: nat,
    pub language: Option<Seq<char>>,
}

impl View for Fence {
    type V = FenceView;

    open spec fn view(&self) -> FenceView {
        FenceView {
            marker: self.marker,
            width: self.width as nat,
            language: view_of(self.language),
        }
    }
}

/// The first word of `s`.
pub open spec fn first_word(s: Seq<char>) -> Option<Seq<char>> {
    if words(s).len() > 0 {
        Some(words(s)[0])
    } else {
        None
    }
}

/// The fence that `line` opens: three or more backticks or tildes behind any
/// spaces, then an info string, which holds no backtick where the fence is
/// made of backticks.
pub open spec fn fence_opened(line: Seq<char>) -> Option<FenceView> {
    let body = after_spaces(line);
    if body.len() == 0 || (body[0] != '`' && body[0] != '~') {
        None
    } else {
        let width = run_of(body, body[0]);
        let info = trimmed(body.skip(width as int));
        if width < 3 || (body[0] == '`' && info.contains('`')) {
            None
        } else {
            Some(FenceView { marker: body[0], width, language: first_word(info) })
        }
    }
}

/// Whether `line` closes a fence of `width` markers: that many behind any spaces,
/// then nothing but white space.
pub open spec fn fence_closed(line: Seq<char>, marker: char, width: nat) -> bool {
    let body = after_spaces(line);
    &&& body.len() >= width
    &&& forall|i: int| 0 <= i < width ==> #[trigger] body[i] == marker
    &&& forall|i: int| width <= i < body.len() ==> is_space(#[trigger] body[i])
}

fn skip_spaces(v: &Vec<char>) -> (b: usize)
    ensures
        b <= v@.len(),
        v@.skip(b as int) == after_spaces(v@),
{
    let mut b: usize = 0;
    assert(v@.skip(0) =~= v@);
    while b < v.len() && v[b] == ' '
        invariant
            b <= v@.len(),
            after_spaces(v@.skip(b as int)) == after_spaces(v@),
        decreases v.len() - b,
    {
        assert(v@.skip(b as int).skip(1) =~= v@.skip(b + 1));
        b = b + 1;
    }
    b
}

fn count_run(v: &Vec<char>, from: usize, mark: char) -> (n: usize)
    requires
        from <= v@.len(),
    ensures
        n == run_of(v@.skip(from as int), mark),
        from + n <= v@.len(),
{
    let mut i: usize = from;
    while i < v.len() && v[i] == mark
        invariant
            from <= i <= v@.len(),
            run_of(v@.skip(from as int), mark) == (i - from) + run_of(v@.skip(i as int), mark),
        decreases v.len() - i,
    {
        assert(v@.skip(i as int).skip(1) =~= v@.skip(i + 1));
        i = i + 1;
    }
    i - from
}

/// The fence that `line` opens, if it opens one.
pub fn opening_fence(line: &str) -> (r: Option<Fence>)
    ensures
        match r {
            Some(fence) => fence_opened(line@) == Some(fence@),
            None => fence_opened(line@) is None,
        },
{
    let v = chars_of(line);
    let b = skip_spaces(&v);
    if b == v.len() {
        return None;
    }
    let marker = v[b];
    assert(v@.skip(b as int)[0] == marker);
    if marker != '`' && marker != '~' {
        return None;
    }
    let width = count_run(&v, b, marker);
    let ghost body = v@.skip(b as int);
    if width < 3 {
        return None;
    }
    let rest = text_range(&v, b + width, v.len());
    assert(rest@ =~= body.skip(width as int));
    let info = trim(rest.as_str());
    if marker == '`' && crate::text::has_char(info.as_str(), '`') {
        return None;
    }
    let mut named = split_words(info.as_str());
    let language = if named.len() > 0 {
        assert(views(named@)[0] == named@[0]@);
        Some(named.remove(0))
    } else {
        None
    };
    Some(Fence { marker, width, language })
}

/// Whether `line` closes a fence of `width` markers.
pub fn closing_fence(line: &str, marker: char, width: usize) -> (r: bool)
    ensures
        r == fence_closed(line@, marker, width as nat),
{
    let v = chars_of(line);
    let b = skip_spaces(&v);
    let ghost body = v@.skip(b as int);
    if v.len() - b < width {
        return false;
    }
    let mut i: usize = 0;
    while i < width
        invariant
            b <= v@.len() <= usize::MAX,
            i <= width <= v@.len() - b,
            body == v@.skip(b as int),
            body == after_spaces(line@),
            forall|j: int| 0 <= j < i ==> #[trigger] body[j] == marker,
        decreases width - i,
    {
        assert(body[i as int] == v@[b + i]);
        if v[b + i] != marker {
            return false;
        }
        i = i + 1;
    }
    let mut k: usize = b + width;
    while k < v.len()
        invariant
            b + width <= k <= v@.len(),
            body == v@.skip(b as int),
            body == after_spaces(line@),
            forall|j: int| width <= j < k - b ==> is_space(#[trigger] body[j]),
        decreases v.len() - k,
    {
        assert(body[k - b] == v@[k as int]);
        if !space(v[k]) {
            return false;
        }
        k = k + 1;
    }
    true
}

/// What has been read of a Markdown text: the blocks that are complete, the
/// prose and the code that are not, and the fence the code stands in.
pub ghost struct Reading {
    pub blocks: Seq<BlockView>,
    pub prose: Seq<char>,
    pub code: Seq<char>,
    pub fence: Option<FenceView>,
}

/// Prose as a block: without white space at its end, and no block where there
/// is none.
pub open spec fn with_prose(blocks: Seq<BlockView>, prose: Seq<char>) -> Seq<BlockView> {
    if prose.len() > 0 {
        blocks.push(BlockView::Text(trimmed_end(prose)))
    } else {
        blocks
    }
}

/// Reading one more line. `ended` says whether a newline follows it.
pub open spec fn read_line(reading: Reading, line: Seq<char>, ended: bool) -> Reading {
    let whole = if ended {
        line.push('\n')
    } else {
        line
    };
    match reading.fence {
        Some(fence) => if fence_closed(line, fence.marker, fence.width) {
            Reading {
                blocks: reading.blocks.push(
                    BlockView::Code { language: fence.language, text: reading.code },
                ),
                code: Seq::empty(),
                fence: None,
                ..reading
            }
        } else {
            Reading { code: reading.code + whole, ..reading }
        },
        None => match fence_opened(line) {
            Some(fence) => Reading {
                blocks: with_prose(reading.blocks, reading.prose),
                prose: Seq::empty(),
                fence: Some(fence),
                ..reading
            },
            None => Reading { prose: reading.prose + whole, ..reading },
        },
    }
}

/// Reading the first `n` lines, every one but the last of which a newline
/// follows. A last line with nothing in it is no line.
pub open spec fn read_lines(lines: Seq<Seq<char>>, n: nat) -> Reading
    decreases n,
{
    if n == 0 {
        Reading { blocks: Seq::empty(), prose: Seq::empty(), code: Seq::empty(), fence: None }
    } else {
        let before = read_lines(lines, (n - 1) as nat);
        let line = lines[n - 1];
        if n == lines.len() && line.len() == 0 {
            before
        } else {
            read_line(before, line, n < lines.len())
        }
    }
}

/// The blocks of a text that has been read to its end: an open fence is closed
/// there, and a text that gave no block is one block itself.
pub open spec fn finished(reading: Reading, text: Seq<char>) -> Seq<BlockView> {
    let coded = match reading.fence {
        Some(fence) => reading.blocks.push(
            BlockView::Code { language: fence.language, text: reading.code },
        ),
        None => reading.blocks,
    };
    let all = with_prose(coded, reading.prose);
    if all.len() == 0 && text.len() > 0 {
        seq![BlockView::Text(text)]
    } else {
        all
    }
}

/// The prose and code blocks of a Markdown text, cleaned.
pub open spec fn markdown(text: Seq<char>) -> Seq<BlockView> {
    let lines = split_at_each(cleaned(text), '\n');
    finished(read_lines(lines, lines.len()), cleaned(text))
}

fn without_trailing_space(text: &str) -> (r: String)
    ensures
        r@ == trimmed_end(text@),
{
    let v = chars_of(text);
    let e = end_without_space(&v, 0, v.len());
    assert(v@.subrange(0, v@.len() as int) =~= v@);
    text_range(&v, 0, e)
}

fn push_block(blocks: &mut Vec<DetailBlock>, block: DetailBlock)
    ensures
        block_views(final(blocks)@) == block_views(old(blocks)@).push(block@),
{
    let ghost before = block_views(blocks@);
    blocks.push(block);
    assert(block_views(blocks@) =~= before.push(block@));
}

/// Split fenced Markdown into prose and code, keeping each fence's language.
pub fn markdown_blocks(markdown: &str) -> (r: Vec<DetailBlock>)
    ensures
        block_views(r@) == self::markdown(markdown@),
{
    let text = clean_terminal_text(markdown);
    let lines = split_on(text.as_str(), '\n');
    let ghost all = views(lines@);
    let mut blocks: Vec<DetailBlock> = Vec::new();
    let mut prose = String::new();
    let mut code = String::new();
    let mut fence: Option<Fence> = None;
    let mut i: usize = 0;
    assert(block_views(blocks@) =~= Seq::<BlockView>::empty());
    while i < lines.len()
        invariant
            i <= lines@.len(),
            all == views(lines@),
            read_lines(all, i as nat) == (Reading {
                blocks: block_views(blocks@),
                prose: prose@,
                code: code@,
                fence: match fence {
                    Some(f) => Some(f@),
                    None => None,
                },
            }),
        decreases lines.len() - i,
    {
        let line = lines[i].as_str();
        let ended = i + 1 < lines.len();
        assert(all[i as int] == line@);
        if !ended && line.is_empty() {
            i = i + 1;
            continue ;
        }
        let ghost whole = if ended {
            line@.push('\n')
        } else {
            line@
        };
        match fence {
            Some(open) => {
                if closing_fence(line, open.marker, open.width) {
                    push_block(
                        &mut blocks,
                        DetailBlock::Code { language: open.language, text: code },
                    );
                    code = String::new();
                    fence = None;
                } else {
                    let ghost had = code@;
                    code.append(line);
                    if ended {
                        code.push('\n');
                    }
                    assert(code@ =~= had + whole);
                    fence = Some(open);
                }
            },
            None => {
                match opening_fence(line) {
                    Some(open) => {
                        if !prose.as_str().is_empty() {
                            push_block(
                                &mut blocks,
                                DetailBlock::Text(without_trailing_space(prose.as_str())),
                            );
                        }
                        prose = String::new();
                        fence = Some(open);
                    },
                    None => {
                        let ghost had = prose@;
                        prose.append(line);
                        if ended {
                            prose.push('\n');
                        }
                        assert(prose@ =~= had + whole);
                        fence = None;
                    },
                }
            },
        }
        i = i + 1;
    }
    if let Some(open) = fence {
        push_block(&mut blocks, DetailBlock::Code { language: open.language, text: code });
    }
    if !prose.as_str().is_empty() {
        push_block(&mut blocks, DetailBlock::Text(without_trailing_space(prose.as_str())));
    }
    if blocks.len() == 0 && !text.as_str().is_empty() {
        return one_text(text);
    }
    blocks
}

// --- Decoding ----------------------------------------------------------------

/// The text under `key`, or `fallback`.
pub open spec fn text_or(value: JsonView, key: Seq<char>, fallback: Seq<char>) -> Seq<char> {
    match text_field(value, key) {
        Some(t) => t,
        None => fallback,
    }
}

/// The text under the first of two keys that holds one, or `fallback`.
pub open spec fn text_of_two(
    value: JsonView,
    first: Seq<char>,
    second: Seq<char>,
    fallback: Seq<char>,
) -> Seq<char> {
    match text_field(value, first) {
        Some(t) => t,
        None => text_or(value, second, fallback),
    }
}

/// The text under the first of three keys that holds one, or `fallback`.
pub open spec fn text_of_three(
    value: JsonView,
    first: Seq<char>,
    second: Seq<char>,
    third: Seq<char>,
    fallback: Seq<char>,
) -> Seq<char> {
    match text_field(value, first) {
        Some(t) => t,
        None => text_of_two(value, second, third, fallback),
    }
}

/// The name of the tool an item calls.
pub open spec fn named_tool(item: JsonView, kind: Seq<char>) -> Seq<char> {
    text_of_three(item, "tool"@, "name"@, "server"@, kind)
}

/// What an item says its tool was called with.
pub open spec fn described_tool(item: JsonView) -> Seq<char> {
    text_of_three(item, "query"@, "arguments"@, "detail"@, Seq::empty())
}

/// What an error event says went wrong.
pub open spec fn reported_error(value: JsonView) -> Seq<char> {
    let nested = match field(value, "error"@) {
        Some(error) => match text_in(error) {
            Some(t) => Some(t),
            None => text_field(error, "message"@),
        },
        None => None,
    };
    match nested {
        Some(t) => t,
        None => text_or(value, "message"@, "agent reported an error"@),
    }
}

/// The figure under `key`: zero where there is none, and no figure where
/// something else than a natural number stands there.
pub open spec fn figure(value: JsonView, key: Seq<char>) -> Option<u64> {
    match field(value, key) {
        None => Some(0),
        Some(JsonView::Unsigned(n)) => Some(n),
        Some(_) => None,
    }
}

/// The figure at `i` of a list.
pub open spec fn figure_at(items: Seq<JsonView>, i: int) -> Option<u64> {
    if i >= items.len() {
        Some(0)
    } else {
        match items[i] {
            JsonView::Unsigned(n) => Some(n),
            _ => None,
        }
    }
}

/// Four figures as usage, or none where one of them is no figure.
pub open spec fn usage_from(
    input: Option<u64>,
    cached: Option<u64>,
    output: Option<u64>,
    reasoning: Option<u64>,
) -> TokenUsage {
    match (input, cached, output, reasoning) {
        (Some(a), Some(b), Some(c), Some(d)) => TokenUsage {
            input_tokens: a,
            cached_input_tokens: b,
            output_tokens: c,
            reasoning_output_tokens: d,
        },
        _ => no_usage(),
    }
}

/// The usage a value describes: a table of figures by name, or a list of at
/// most four in the order of the fields. Anything else describes none.
pub open spec fn usage_in(value: JsonView) -> TokenUsage {
    match value {
        JsonView::Table(_) => usage_from(
            figure(value, "input_tokens"@),
            figure(value, "cached_input_tokens"@),
            figure(value, "output_tokens"@),
            figure(value, "reasoning_output_tokens"@),
        ),
        JsonView::List(items) => if items.len() <= 4 {
            usage_from(
                figure_at(items, 0),
                figure_at(items, 1),
                figure_at(items, 2),
                figure_at(items, 3),
            )
        } else {
            no_usage()
        },
        _ => no_usage(),
    }
}

/// The integer a value is, where it fits 64 bits with a sign.
pub open spec fn signed_in(value: JsonView) -> Option<i64> {
    match value {
        JsonView::Unsigned(n) => if n <= i64::MAX {
            Some(n as i64)
        } else {
            None
        },
        JsonView::Negative(n) => Some(n),
        _ => None,
    }
}

/// The cleaned paths of a list of changes; a change that names none is passed
/// over.
pub open spec fn changed_paths(changes: Seq<JsonView>) -> Seq<Seq<char>>
    decreases changes.len(),
{
    if changes.len() == 0 {
        Seq::empty()
    } else {
        let before = changed_paths(changes.drop_last());
        match text_field(changes.last(), "path"@) {
            Some(path) => before.push(cleaned(path)),
            None => before,
        }
    }
}

/// The event that an item and the stage it reached describe.
pub open spec fn item_event(event_type: Seq<char>, item: JsonView) -> EventView {
    let kind = text_or(item, "type"@, "unknown"@);
    let completed = event_type == "item.completed"@;
    if kind == "command_execution"@ && !completed {
        EventView::CommandStarted { command: cleaned(text_or(item, "command"@, Seq::empty())) }
    } else if kind == "command_execution"@ {
        EventView::CommandCompleted {
            command: cleaned(text_or(item, "command"@, Seq::empty())),
            status: cleaned(text_or(item, "status"@, "completed"@)),
            exit_code: match field(item, "exit_code"@) {
                Some(code) => signed_in(code),
                None => None,
            },
            output: cleaned(text_of_two(item, "aggregated_output"@, "output"@, Seq::empty())),
        }
    } else if kind == "file_change"@ && completed {
        EventView::FileChanged {
            paths: match field(item, "changes"@) {
                Some(JsonView::List(changes)) => changed_paths(changes),
                _ => Seq::empty(),
            },
        }
    } else if kind == "agent_message"@ && completed {
        EventView::AgentMessage { text: cleaned(text_or(item, "text"@, Seq::empty())) }
    } else if (kind == "plan"@ || kind == "plan_update"@) && completed {
        EventView::PlanUpdated { text: cleaned(text_of_two(item, "text"@, "plan"@, Seq::empty())) }
    } else if (kind == "mcp_tool_call"@ || kind == "web_search"@) && !completed {
        EventView::ToolStarted {
            name: cleaned(named_tool(item, kind)),
            detail: cleaned(described_tool(item)),
        }
    } else if kind == "mcp_tool_call"@ || kind == "web_search"@ {
        EventView::ToolCompleted {
            name: cleaned(named_tool(item, kind)),
            status: cleaned(text_or(item, "status"@, "completed"@)),
        }
    } else {
        EventView::Unknown { wire_type: cleaned(event_type + ":"@ + kind) }
    }
}

/// The event that one JSON value of the wire describes.
pub open spec fn value_event(value: JsonView) -> EventView {
    let wire_type = text_or(value, "type"@, "unknown"@);
    if wire_type == "thread.started"@ {
        EventView::ThreadStarted { thread_id: cleaned(text_or(value, "thread_id"@, Seq::empty())) }
    } else if wire_type == "turn.started"@ {
        EventView::TurnStarted
    } else if wire_type == "turn.completed"@ {
        EventView::TurnCompleted {
            usage: match field(value, "usage"@) {
                Some(usage) => usage_in(usage),
                None => no_usage(),
            },
        }
    } else if wire_type == "turn.failed"@ || wire_type == "error"@ {
        EventView::Error { message: cleaned(reported_error(value)) }
    } else if wire_type == "item.started"@ || wire_type == "item.updated"@ || wire_type
        == "item.completed"@ {
        item_event(
            wire_type,
            match field(value, "item"@) {
                Some(item) => item,
                None => JsonView::Null,
            },
        )
    } else {
        EventView::Unknown { wire_type: cleaned(wire_type) }
    }
}

/// The event that one line of the wire describes: a line that is no JSON value
/// is kept as the reason why it is none.
pub open spec fn line_event(line: Seq<char>) -> EventView {
    match parsed_json(line) {
        Ok(value) => value_event(value),
        Err(error) => EventView::Malformed { error: cleaned(error) },
    }
}

/// Read one wire line. Nothing is dropped: what cannot be read becomes an
/// event that says so. No text of it holds a terminal control sequence.
pub fn decode_line(protocol: Protocol, line: &str) -> (r: StyraEvent)
    ensures
        r@ == line_event(line@),
        is_clean_event(r@),
{
    proof {
        law_what_is_read_is_clean(line@);
    }
    match protocol {
        Protocol::CodexJsonl => decode_codex_line(line),
    }
}

/// Read one wire line of Codex.
pub fn decode_codex_line(line: &str) -> (r: StyraEvent)
    ensures
        r@ == line_event(line@),
{
    decode_codex_reply(parse_json(line))
}

/// The event that a line describes, from what reading the line as JSON gave.
pub fn decode_codex_reply(read: Result<Json, String>) -> (r: StyraEvent)
    ensures
        match read {
            Ok(value) => r@ == value_event(value@),
            Err(error) => r@ == (EventView::Malformed { error: cleaned(error@) }),
        },
{
    match read {
        Ok(value) => decode_codex_value(&value),
        Err(error) => StyraEvent::Malformed { error: clean_terminal_text(error.as_str()) },
    }
}

fn text_at_or<'a>(value: &'a Json, key: &str, fallback: &'a str) -> (r: &'a str)
    ensures
        r@ == text_or(value@, key@, fallback@),
{
    match value.text_at(key) {
        Some(t) => t,
        None => fallback,
    }
}

fn text_at_two<'a>(value: &'a Json, first: &str, second: &str, fallback: &'a str) -> (r: &'a str)
    ensures
        r@ == text_of_two(value@, first@, second@, fallback@),
{
    match value.text_at(first) {
        Some(t) => t,
        None => text_at_or(value, second, fallback),
    }
}

fn figure_of(value: &Json, key: &str) -> (r: Option<u64>)
    ensures
        r == figure(value@, key@),
{
    match value.get(key) {
        None => Some(0),
        Some(Json::Unsigned(n)) => Some(*n),
        Some(_) => None,
    }
}

fn figure_in(items: &Vec<Json>, i: usize, Ghost(all): Ghost<Seq<JsonView>>) -> (r: Option<u64>)
    requires
        all.len() == items@.len(),
        forall|j: int| 0 <= j < items@.len() ==> #[trigger] all[j] == items@[j]@,
    ensures
        r == figure_at(all, i as int),
{
    if i >= items.len() {
        Some(0)
    } else {
        assert(all[i as int] == items@[i as int]@);
        match items[i] {
            Json::Unsigned(n) => Some(n),
            _ => None,
        }
    }
}

fn usage_of(
    input: Option<u64>,
    cached: Option<u64>,
    output: Option<u64>,
    reasoning: Option<u64>,
) -> (r: TokenUsage)
    ensures
        r == usage_from(input, cached, output, reasoning),
{
    match (input, cached, output, reasoning) {
        (Some(a), Some(b), Some(c), Some(d)) => TokenUsage {
            input_tokens: a,
            cached_input_tokens: b,
            output_tokens: c,
            reasoning_output_tokens: d,
        },
        _ => TokenUsage::default(),
    }
}

/// The usage a value describes.
pub fn decode_usage(value: &Json) -> (r: TokenUsage)
    ensures
        r == usage_in(value@),
{
    match value {
        Json::Table(_) => usage_of(
            figure_of(value, "input_tokens"),
            figure_of(value, "cached_input_tokens"),
            figure_of(value, "output_tokens"),
            figure_of(value, "reasoning_output_tokens"),
        ),
        Json::List(items) => {
            proof {
                crate::json::lemma_list_view(*value);
            }
            let ghost all = value@->List_0;
            if items.len() <= 4 {
                usage_of(
                    figure_in(items, 0, Ghost(all)),
                    figure_in(items, 1, Ghost(all)),
                    figure_in(items, 2, Ghost(all)),
                    figure_in(items, 3, Ghost(all)),
                )
            } else {
                TokenUsage::default()
            }
        },
        _ => TokenUsage::default(),
    }
}

/// The event that one JSON value of Codex's wire describes.
pub fn decode_codex_value(value: &Json) -> (r: StyraEvent)
    ensures
        r@ == value_event(value@),
{
    let wire_type = text_at_or(value, "type", "unknown");
    if same(wire_type, "thread.started") {
        StyraEvent::ThreadStarted {
            thread_id: clean_terminal_text(value_text(value, "thread_id").as_str()),
        }
    } else if same(wire_type, "turn.started") {
        StyraEvent::TurnStarted
    } else if same(wire_type, "turn.completed") {
        StyraEvent::TurnCompleted {
            usage: match value.get("usage") {
                Some(usage) => decode_usage(usage),
                None => TokenUsage::default(),
            },
        }
    } else if same(wire_type, "turn.failed") || same(wire_type, "error") {
        StyraEvent::Error { message: clean_terminal_text(error_message(value)) }
    } else if same(wire_type, "item.started") || same(wire_type, "item.updated") || same(
        wire_type,
        "item.completed",
    ) {
        match value.get("item") {
            Some(item) => decode_codex_item(wire_type, item),
            None => decode_codex_item(wire_type, &Json::Null),
        }
    } else {
        StyraEvent::Unknown { wire_type: clean_terminal_text(wire_type) }
    }
}

/// The text under `key`, or an empty one.
fn value_text(value: &Json, key: &str) -> (r: String)
    ensures
        r@ == text_or(value@, key@, Seq::empty()),
{
    match value.text_at(key) {
        Some(t) => t.to_owned(),
        None => String::new(),
    }
}

/// The text under the first of two keys that holds one, or an empty one.
fn value_text_of_two(value: &Json, first: &str, second: &str) -> (r: String)
    ensures
        r@ == text_of_two(value@, first@, second@, Seq::empty()),
{
    match value.text_at(first) {
        Some(t) => t.to_owned(),
        None => value_text(value, second),
    }
}

/// The event that an item and the stage it reached describe.
pub fn decode_codex_item(event_type: &str, item: &Json) -> (r: StyraEvent)
    ensures
        r@ == item_event(event_type@, item@),
{
    let kind = text_at_or(item, "type", "unknown");
    let completed = same(event_type, "item.completed");
    if same(kind, "command_execution") {
        let command = clean_terminal_text(value_text(item, "command").as_str());
        if !completed {
            return StyraEvent::CommandStarted { command };
        }
        let exit_code = match item.get("exit_code") {
            Some(code) => as_signed(code),
            None => None,
        };
        return StyraEvent::CommandCompleted {
            command,
            status: clean_terminal_text(text_at_or(item, "status", "completed")),
            exit_code,
            output: clean_terminal_text(
                value_text_of_two(item, "aggregated_output", "output").as_str(),
            ),
        };
    }
    if same(kind, "file_change") && completed {
        let paths = match item.get("changes") {
            Some(changes) => paths_of(changes),
            None => Vec::new(),
        };
        assert(field(item@, "changes"@) is None ==> views(paths@) =~= Seq::<Seq<char>>::empty());
        return StyraEvent::FileChanged { paths };
    }
    if same(kind, "agent_message") && completed {
        return StyraEvent::AgentMessage {
            text: clean_terminal_text(value_text(item, "text").as_str()),
        };
    }
    if (same(kind, "plan") || same(kind, "plan_update")) && completed {
        return StyraEvent::PlanUpdated {
            text: clean_terminal_text(value_text_of_two(item, "text", "plan").as_str()),
        };
    }
    if same(kind, "mcp_tool_call") || same(kind, "web_search") {
        let name = clean_terminal_text(tool_name(item, kind));
        if !completed {
            return StyraEvent::ToolStarted {
                name,
                detail: clean_terminal_text(tool_detail(item).as_str()),
            };
        }
        return StyraEvent::ToolCompleted {
            name,
            status: clean_terminal_text(text_at_or(item, "status", "completed")),
        };
    }
    let mut wire_type = event_type.to_owned();
    wire_type.append(":");
    wire_type.append(kind);
    StyraEvent::Unknown { wire_type: clean_terminal_text(wire_type.as_str()) }
}

/// The integer a value is, where it fits 64 bits with a sign.
fn as_signed(value: &Json) -> (r: Option<i64>)
    ensures
        r == signed_in(value@),
{
    match value {
        Json::Unsigned(n) => if *n <= i64::MAX as u64 {
            Some(*n as i64)
        } else {
            None
        },
        Json::Negative(n) => Some(*n),
        _ => None,
    }
}

/// The cleaned paths of a list of changes.
fn paths_of(changes: &Json) -> (r: Vec<String>)
    ensures
        views(r@) == match changes@ {
            JsonView::List(list) => changed_paths(list),
            _ => Seq::empty(),
        },
{
    let mut r: Vec<String> = Vec::new();
    match changes {
        Json::List(list) => {
            proof {
                crate::json::lemma_list_view(*changes);
            }
            let ghost all = changes@->List_0;
            let mut i: usize = 0;
            assert(all.take(0) =~= Seq::<JsonView>::empty());
            assert(views(r@) =~= Seq::<Seq<char>>::empty());
            while i < list.len()
                invariant
                    i <= list@.len(),
                    all.len() == list@.len(),
                    forall|j: int| 0 <= j < list@.len() ==> #[trigger] all[j] == list@[j]@,
                    views(r@) == changed_paths(all.take(i as int)),
                decreases list.len() - i,
            {
                proof {
                    assert(all.take(i + 1).drop_last() =~= all.take(i as int));
                    assert(all.take(i + 1).last() == all[i as int]);
                }
                let ghost had = views(r@);
                if let Some(path) = list[i].text_at("path") {
                    r.push(clean_terminal_text(path));
                    assert(views(r@) =~= had.push(cleaned(path@)));
                }
                i = i + 1;
            }
            assert(all.take(all.len() as int) =~= all);
        },
        _ => {
            assert(views(r@) =~= Seq::<Seq<char>>::empty());
        },
    }
    r
}

/// The name of the tool an item calls.
fn tool_name<'a>(item: &'a Json, kind: &'a str) -> (r: &'a str)
    ensures
        r@ == named_tool(item@, kind@),
{
    match item.text_at("tool") {
        Some(t) => t,
        None => text_at_two(item, "name", "server", kind),
    }
}

/// What an item says its tool was called with.
fn tool_detail(item: &Json) -> (r: String)
    ensures
        r@ == described_tool(item@),
{
    match item.text_at("query") {
        Some(t) => t.to_owned(),
        None => value_text_of_two(item, "arguments", "detail"),
    }
}

/// What an error event says went wrong.
fn error_message(value: &Json) -> (r: &str)
    ensures
        r@ == reported_error(value@),
{
    let nested = match value.get("error") {
        Some(error) => match error.as_text() {
            Some(t) => Some(t),
            None => error.text_at("message"),
        },
        None => None,
    };
    match nested {
        Some(t) => t,
        None => text_at_or(value, "message", "agent reported an error"),
    }
}

} // verus!
