//! What becomes of the list when something arrives from the agent.

use vstd::prelude::*;

use crate::activity::Status;
use crate::app::App;
use crate::event::TokenUsage;
use crate::ingest::{ingests, newest_row, row_before, Arrival, Sought};
use crate::protocol::AgentEvent;
use crate::text::{joined, views};
use crate::timeline::{lemma_stop_from, Entry, Step};

verus! {

/// Whether the row at `i` is the newest that `pick` picks.
pub open spec fn is_newest(rows: Seq<Entry>, i: int, pick: spec_fn(AgentEvent) -> bool) -> bool {
    &&& 0 <= i < rows.len()
    &&& pick(rows[i].event)
    &&& forall|j: int| i < j < rows.len() ==> !pick((#[trigger] rows[j]).event)
}

/// Whether no row is one that `pick` picks.
pub open spec fn is_missing(rows: Seq<Entry>, pick: spec_fn(AgentEvent) -> bool) -> bool {
    forall|j: int| 0 <= j < rows.len() ==> !pick((#[trigger] rows[j]).event)
}

/// Whether only the event of the row at `i` may differ.
pub open spec fn only_row_differs(before: Seq<Entry>, after: Seq<Entry>, i: int) -> bool {
    &&& after.len() == before.len()
    &&& forall|j: int| 0 <= j < before.len() && j != i ==> #[trigger] after[j] == before[j]
    &&& after[i].expanded == before[i].expanded
    &&& after[i].contract == before[i].contract
}

/// Whether the rows are those before, with one more for this event. A row that
/// was open may be closed; nothing else of it changes.
pub open spec fn one_more_row(before: Seq<Entry>, after: Seq<Entry>, event: AgentEvent) -> bool {
    &&& after.len() == before.len() + 1
    &&& after.last().event == event
    &&& forall|j: int|
        0 <= j < before.len() ==> {
            &&& (#[trigger] after[j]).event == before[j].event
            &&& after[j].raw_index == before[j].raw_index
            &&& after[j].contract == before[j].contract
            &&& after[j].expanded ==> before[j].expanded
        }
}

/// Picks where this command started.
pub open spec fn starts_command(wanted: Seq<char>) -> spec_fn(AgentEvent) -> bool {
    |e: AgentEvent| e matches AgentEvent::CommandStarted { command } && command@ == wanted
}

/// Picks where this tool call started.
pub open spec fn starts_tool(wanted: Seq<char>) -> spec_fn(AgentEvent) -> bool {
    |e: AgentEvent| e matches AgentEvent::ToolStarted { id, .. } && id@ == wanted
}

/// Picks where this call changed files.
pub open spec fn changes_files(wanted: Seq<char>) -> spec_fn(AgentEvent) -> bool {
    |e: AgentEvent| e matches AgentEvent::FileChanged { id, .. } && id@ == wanted
}

/// The task that an event reports on.
pub open spec fn task_of(event: AgentEvent) -> Option<Seq<char>> {
    match event {
        AgentEvent::TaskStarted { id, .. } => Some(id@),
        AgentEvent::TaskProgress { id, .. } => Some(id@),
        AgentEvent::TaskCompleted { id, .. } => Some(id@),
        _ => None,
    }
}

/// Picks what reports on the one that is wanted.
pub open spec fn reports_task(wanted: Seq<char>) -> spec_fn(AgentEvent) -> bool {
    |e: AgentEvent| task_of(e) == Some(wanted)
}

proof fn lemma_found(rows: Seq<Entry>, n: int, sought: Sought, i: int)
    requires
        0 <= i < n <= rows.len(),
        sought.fits(rows[i].event),
        forall|j: int| i < j < n ==> !sought.fits((#[trigger] rows[j]).event),
    ensures
        row_before(rows, n, sought) == Some(i),
    decreases n,
{
    if i < n - 1 {
        assert(!sought.fits(rows[n - 1].event));
        lemma_found(rows, n - 1, sought, i);
    }
}

proof fn lemma_not_found(rows: Seq<Entry>, n: int, sought: Sought)
    requires
        0 <= n <= rows.len(),
        forall|j: int| 0 <= j < n ==> !sought.fits((#[trigger] rows[j]).event),
    ensures
        row_before(rows, n, sought) is None,
    decreases n,
{
    if n > 0 {
        assert(!sought.fits(rows[n - 1].event));
        lemma_not_found(rows, n - 1, sought);
    }
}

proof fn lemma_sought(rows: Seq<Entry>, sought: Sought, pick: spec_fn(AgentEvent) -> bool)
    requires
        forall|e: AgentEvent| #[trigger] sought.fits(e) == pick(e),
    ensures
        forall|i: int| is_newest(rows, i, pick) ==> newest_row(rows, sought) == Some(i),
        is_missing(rows, pick) ==> newest_row(rows, sought) is None,
{
    assert forall|i: int| is_newest(rows, i, pick) implies newest_row(rows, sought) == Some(i) by {
        assert(sought.fits(rows[i].event));
        assert forall|j: int| i < j < rows.len() implies !sought.fits(
            (#[trigger] rows[j]).event,
        ) by {
            assert(!pick(rows[j].event));
        }
        lemma_found(rows, rows.len() as int, sought, i);
    }
    if is_missing(rows, pick) {
        assert forall|j: int| 0 <= j < rows.len() implies !sought.fits(
            (#[trigger] rows[j]).event,
        ) by {
            assert(!pick(rows[j].event));
        }
        lemma_not_found(rows, rows.len() as int, sought);
    }
}

/// A command that completes is shown on the row where it last started, as it was
/// reported, and on a row of its own where it never started.
pub proof fn law_a_command_completes_where_it_started(
    before: App,
    command: String,
    status: String,
    exit_code: Option<i64>,
    output: String,
    arrival: Arrival,
    after: App,
)
    requires
        ingests(
            before,
            AgentEvent::CommandCompleted { command, status, exit_code, output },
            arrival,
            after,
        ),
    ensures
        ({
            let event = AgentEvent::CommandCompleted { command, status, exit_code, output };
            let rows = before.timeline.entries@;
            let now = after.timeline.entries@;
            &&& forall|i: int| #[trigger]
                is_newest(rows, i, starts_command(command@)) ==> only_row_differs(rows, now, i)
                    && now[i].event == event && now[i].raw_index == rows[i].raw_index
            &&& is_missing(rows, starts_command(command@)) ==> one_more_row(rows, now, event)
        }),
{
    let rows = before.timeline.entries@;
    let pick = starts_command(command@);
    let sought = Sought::Command(command);
    assert(forall|e: AgentEvent| #[trigger] sought.fits(e) == pick(e));
    lemma_sought(rows, sought, pick);
}

/// A tool call that completes is shown on the row where it last started, under the
/// name and with the arguments it started with.
pub proof fn law_a_tool_completes_where_it_started(
    before: App,
    id: String,
    name: String,
    detail: String,
    status: String,
    output: String,
    arrival: Arrival,
    after: App,
    i: int,
)
    requires
        ingests(
            before,
            AgentEvent::ToolCompleted { id, name, detail, status, output },
            arrival,
            after,
        ),
        is_newest(before.timeline.entries@, i, starts_tool(id@)),
    ensures
        ({
            let rows = before.timeline.entries@;
            let now = after.timeline.entries@;
            &&& only_row_differs(rows, now, i)
            &&& now[i].raw_index == rows[i].raw_index
            &&& now[i].event matches AgentEvent::ToolCompleted {
                id: shown_id,
                name: shown_name,
                detail: shown_detail,
                status: shown_status,
                output: shown_output,
            } && (rows[i].event matches AgentEvent::ToolStarted {
                id: known_id,
                name: known_name,
                detail: known_detail,
            } && shown_id == known_id && shown_name == known_name && shown_detail == known_detail)
                && shown_status == status && shown_output == output
        }),
{
    let rows = before.timeline.entries@;
    let pick = starts_tool(id@);
    let sought = Sought::Tool(id);
    assert(forall|e: AgentEvent| #[trigger] sought.fits(e) == pick(e));
    lemma_sought(rows, sought, pick);
}

/// The completion of a call that changed files only confirms what its row shows:
/// unless it failed, every row stays as it is, its paths and its diff included.
pub proof fn law_a_clean_edit_keeps_its_row(
    before: App,
    id: String,
    name: String,
    detail: String,
    status: String,
    output: String,
    arrival: Arrival,
    after: App,
    i: int,
)
    requires
        ingests(
            before,
            AgentEvent::ToolCompleted { id, name, detail, status, output },
            arrival,
            after,
        ),
        is_missing(before.timeline.entries@, starts_tool(id@)),
        is_newest(before.timeline.entries@, i, changes_files(id@)),
        status@ != "error"@,
    ensures
        after.timeline.entries@ == before.timeline.entries@,
{
    let rows = before.timeline.entries@;
    lemma_file_row(rows, id);
    assert(after.timeline.entries@ =~= rows);
}

/// A call that changed files and failed turns its row into an error that names the
/// paths and says what went wrong.
pub proof fn law_a_failed_edit_is_an_error(
    before: App,
    id: String,
    name: String,
    detail: String,
    status: String,
    output: String,
    arrival: Arrival,
    after: App,
    i: int,
)
    requires
        ingests(
            before,
            AgentEvent::ToolCompleted { id, name, detail, status, output },
            arrival,
            after,
        ),
        is_missing(before.timeline.entries@, starts_tool(id@)),
        is_newest(before.timeline.entries@, i, changes_files(id@)),
        status@ == "error"@,
    ensures
        ({
            let rows = before.timeline.entries@;
            let now = after.timeline.entries@;
            &&& only_row_differs(rows, now, i)
            &&& now[i].event matches AgentEvent::Error { message } && (
            rows[i].event matches AgentEvent::FileChanged { paths, .. } && message@ == joined(
                views(paths@),
                ", "@,
            ) + ": "@ + output@)
        }),
{
    lemma_file_row(before.timeline.entries@, id);
}

/// A tool call that completes and was never heard of has a row of its own.
pub proof fn law_an_unknown_tool_has_its_own_row(
    before: App,
    id: String,
    name: String,
    detail: String,
    status: String,
    output: String,
    arrival: Arrival,
    after: App,
)
    requires
        ingests(
            before,
            AgentEvent::ToolCompleted { id, name, detail, status, output },
            arrival,
            after,
        ),
        is_missing(before.timeline.entries@, starts_tool(id@)),
        is_missing(before.timeline.entries@, changes_files(id@)),
    ensures
        one_more_row(
            before.timeline.entries@,
            after.timeline.entries@,
            AgentEvent::ToolCompleted { id, name, detail, status, output },
        ),
{
    lemma_file_row(before.timeline.entries@, id);
}

proof fn lemma_file_row(rows: Seq<Entry>, id: String)
    ensures
        is_missing(rows, starts_tool(id@)) ==> newest_row(rows, Sought::Tool(id)) is None,
        forall|i: int|
            is_newest(rows, i, changes_files(id@)) ==> newest_row(rows, Sought::File(id)) == Some(
                i,
            ),
        is_missing(rows, changes_files(id@)) ==> newest_row(rows, Sought::File(id)) is None,
{
    let tool = starts_tool(id@);
    let file = changes_files(id@);
    assert(forall|e: AgentEvent| #[trigger] Sought::Tool(id).fits(e) == tool(e));
    assert(forall|e: AgentEvent| #[trigger] Sought::File(id).fits(e) == file(e));
    lemma_sought(rows, Sought::Tool(id), tool);
    lemma_sought(rows, Sought::File(id), file);
}

/// A report on a task refreshes the task's row. It takes the report over as it is,
/// unless the task has ended: then only another ending changes the row, and what
/// that one leaves out is kept from the first.
pub proof fn law_a_task_has_one_row(before: App, event: AgentEvent, arrival: Arrival, after: App)
    requires
        ingests(before, event, arrival, after),
        task_of(event) is Some,
    ensures
        ({
            let rows = before.timeline.entries@;
            let now = after.timeline.entries@;
            let pick = reports_task(task_of(event)->Some_0);
            &&& is_missing(rows, pick) ==> one_more_row(rows, now, event)
            &&& forall|i: int| #[trigger]
                is_newest(rows, i, pick) ==> {
                    &&& only_row_differs(rows, now, i)
                    &&& now[i].raw_index == rows[i].raw_index
                    &&& rows[i].event !is TaskCompleted ==> now[i].event == event
                    &&& rows[i].event is TaskCompleted && event !is TaskCompleted
                        ==> now[i].event == rows[i].event
                    &&& rows[i].event matches AgentEvent::TaskCompleted {
                        summary: known,
                        error: reason,
                        ..
                    } ==> (event matches AgentEvent::TaskCompleted { id, status, summary, error }
                        ==> {
                        &&& now[i].event is TaskCompleted
                        &&& now[i].event->TaskCompleted_id == id
                        &&& now[i].event->TaskCompleted_status == status
                        &&& summary@.len() > 0 ==> now[i].event->TaskCompleted_summary == summary
                        &&& summary@.len() == 0 ==> now[i].event->TaskCompleted_summary == known
                        &&& error is Some ==> now[i].event->TaskCompleted_error == error
                        &&& error is None ==> now[i].event->TaskCompleted_error == reason
                    })
                }
        }),
{
    let rows = before.timeline.entries@;
    let id = match event {
        AgentEvent::TaskStarted { id, .. } => id,
        AgentEvent::TaskProgress { id, .. } => id,
        AgentEvent::TaskCompleted { id, .. } => id,
        _ => arbitrary(),
    };
    let pick = reports_task(id@);
    assert(forall|e: AgentEvent| #[trigger] Sought::Task(id).fits(e) == pick(e));
    lemma_sought(rows, Sought::Task(id), pick);
}

/// Thinking that goes on refreshes the last row: it keeps the last prose that was
/// given, adds up what was spent, and stands for the newest wire line.
pub proof fn law_thinking_goes_on_in_one_row(
    before: App,
    text: String,
    tokens: Option<u64>,
    arrival: Arrival,
    after: App,
)
    requires
        ingests(before, AgentEvent::Thinking { text, tokens }, arrival, after),
    ensures
        ({
            let rows = before.timeline.entries@;
            let now = after.timeline.entries@;
            if rows.len() > 0 && rows.last().event is Thinking {
                let known = rows.last().event->Thinking_text;
                let counted = rows.last().event->Thinking_tokens;
                &&& only_row_differs(rows, now, rows.len() - 1)
                &&& now.last().event is Thinking
                &&& text@.len() > 0 ==> now.last().event->Thinking_text == text
                &&& text@.len() == 0 ==> now.last().event->Thinking_text == known
                &&& counted is None ==> now.last().event->Thinking_tokens == tokens
                &&& tokens is None ==> now.last().event->Thinking_tokens == counted
                &&& counted matches Some(a) ==> (tokens matches Some(b) ==> {
                    &&& now.last().event->Thinking_tokens matches Some(sum) && (a + b
                        <= u64::MAX ==> sum == a + b) && (a + b > u64::MAX ==> sum == u64::MAX)
                })
                &&& before.raw.lines@.len() > 0 ==> now.last().raw_index == Some(
                    (before.raw.lines@.len() - 1) as usize,
                )
            } else {
                one_more_row(rows, now, AgentEvent::Thinking { text, tokens })
            }
        }),
{
}

/// Whether an event may be the next state of a row.
pub open spec fn may_refresh(event: AgentEvent) -> bool {
    event is CommandCompleted || event is ToolCompleted || event is TaskStarted || event
        is TaskProgress || event is TaskCompleted || event is Thinking
}

/// Every other event has a row of its own, which shows it as it came, and a message
/// of the operator as they wrote it. The row knows the newest wire line and the
/// shape that the message asked for.
pub proof fn law_an_event_has_its_own_row(
    before: App,
    event: AgentEvent,
    arrival: Arrival,
    after: App,
)
    requires
        ingests(before, event, arrival, after),
        !may_refresh(event),
    ensures
        ({
            let rows = before.timeline.entries@;
            let now = after.timeline.entries@;
            &&& event !is UserMessage || arrival.unframed is None ==> one_more_row(
                rows,
                now,
                event,
            ) && now.last().contract is None
            &&& event is UserMessage ==> (arrival.unframed matches Some((written, contract)) ==> {
                &&& one_more_row(rows, now, AgentEvent::UserMessage { text: written })
                &&& now.last().contract == Some(contract)
            })
            &&& now.last().raw_index == if before.raw.lines@.len() > 0 {
                Some((before.raw.lines@.len() - 1) as usize)
            } else {
                None
            }
        }),
{
}

/// Whatever arrives, no row is lost, and what a row shows of changed files is kept
/// whole: its paths and its diff stay, or the row is an error.
pub proof fn law_no_edit_is_lost(
    before: App,
    event: AgentEvent,
    arrival: Arrival,
    after: App,
    i: int,
)
    requires
        ingests(before, event, arrival, after),
        0 <= i < before.timeline.entries@.len(),
    ensures
        before.timeline.entries@.len() <= after.timeline.entries@.len()
            <= before.timeline.entries@.len() + 1,
        before.timeline.entries@[i].event is FileChanged ==> after.timeline.entries@[i].event
            == before.timeline.entries@[i].event || after.timeline.entries@[i].event is Error,
        after.timeline.entries@[i].contract == before.timeline.entries@[i].contract,
{
    let rows = before.timeline.entries@;
    match event {
        AgentEvent::CommandCompleted { command, .. } => {
            let n = rows.len() as int;
            lemma_fits(rows, n, Sought::Command(command));
        },
        AgentEvent::ToolCompleted { id, .. } => {
            lemma_fits(rows, rows.len() as int, Sought::Tool(id));
            lemma_fits(rows, rows.len() as int, Sought::File(id));
        },
        AgentEvent::TaskStarted { id, .. } => lemma_fits(rows, rows.len() as int, Sought::Task(id)),
        AgentEvent::TaskProgress { id, .. } => lemma_fits(
            rows,
            rows.len() as int,
            Sought::Task(id),
        ),
        AgentEvent::TaskCompleted { id, .. } => lemma_fits(
            rows,
            rows.len() as int,
            Sought::Task(id),
        ),
        _ => {},
    }
}

proof fn lemma_fits(rows: Seq<Entry>, n: int, sought: Sought)
    requires
        n <= rows.len(),
    ensures
        row_before(rows, n, sought) matches Some(i) ==> 0 <= i < n && sought.fits(rows[i].event),
    decreases n,
{
    if n > 0 {
        lemma_fits(rows, n - 1, sought);
    }
}

// --- How the session is going ------------------------------------------------

/// Every event is counted, and the time of the last one is known.
pub proof fn law_events_are_counted(
    before: App,
    event: AgentEvent,
    arrival: Arrival,
    after: App,
)
    requires
        ingests(before, event, arrival, after),
        before.activity.events < u64::MAX,
    ensures
        after.activity.events == before.activity.events + 1,
        after.activity.last_event_at == Some(arrival.now),
{
}

/// Whether an event shows that the agent is at work.
pub open spec fn shows_work(event: AgentEvent) -> bool {
    match event {
        AgentEvent::UserMessage { .. } => true,
        AgentEvent::TurnStarted => true,
        AgentEvent::CommandStarted { .. } => true,
        AgentEvent::ToolStarted { .. } => true,
        AgentEvent::AgentMessage { .. } => true,
        AgentEvent::Thinking { .. } => true,
        AgentEvent::PlanUpdated { .. } => true,
        _ => false,
    }
}

/// What the agent does decides the status of a session that has not ended: at work
/// it is running, after a turn it rests, and nothing else but news of background
/// work changes it.
pub proof fn law_events_decide_the_status(
    before: App,
    event: AgentEvent,
    arrival: Arrival,
    after: App,
)
    requires
        ingests(before, event, arrival, after),
    ensures
        before.activity.status is Ended ==> after.activity.status == before.activity.status,
        before.activity.status !is Ended && shows_work(event) ==> after.activity.status
            == Status::Running,
        before.activity.status !is Ended && event is TurnCompleted
            && !before.activity.background_work ==> after.activity.status == Status::Idle,
        before.activity.status !is Ended && event is TurnCompleted
            && before.activity.background_work ==> after.activity.status == Status::Background,
        !shows_work(event) && event !is TurnCompleted && event !is BackgroundTasks
            && !arrival.finishes_background ==> after.activity.status == before.activity.status,
        event matches AgentEvent::BackgroundTasks { running } ==> {
            &&& after.activity.background_work == (running > 0)
            &&& after.activity.background_count_known
            &&& running > 0 || before.activity.status !is Background ==> after.activity.status
                == before.activity.status
            &&& running == 0 && before.activity.status is Background ==> after.activity.status
                == Status::Idle
        },
        event !is BackgroundTasks ==> after.activity.background_count_known
            == before.activity.background_count_known,
        !may_refresh(event) && event !is BackgroundTasks && arrival.starts_background
            ==> after.activity.background_work,
        event !is BackgroundTasks && !arrival.starts_background && !arrival.finishes_background
            ==> after.activity.background_work == before.activity.background_work,
{
}

/// A call that asks after background work and hears that it has ended leaves the
/// session idle, unless the agent counts its own tasks.
pub proof fn law_a_poll_ends_background_work(
    before: App,
    id: String,
    name: String,
    detail: String,
    status: String,
    output: String,
    arrival: Arrival,
    after: App,
    i: int,
)
    requires
        ingests(
            before,
            AgentEvent::ToolCompleted { id, name, detail, status, output },
            arrival,
            after,
        ),
        is_newest(before.timeline.entries@, i, starts_tool(id@)),
        arrival.finishes_background,
    ensures
        ({
            let asked = before.timeline.entries@[i].event->ToolStarted_name@;
            let polls = asked == "TaskOutput"@ || asked == "TaskGet"@ || asked == "task_output"@
                || asked == "task_get"@;
            &&& polls && !before.activity.background_count_known
                ==> !after.activity.background_work && (before.activity.status !is Ended
                ==> after.activity.status == Status::Idle)
            &&& !polls || before.activity.background_count_known ==> after.activity.background_work
                == before.activity.background_work && after.activity.status
                == before.activity.status
        }),
{
    let rows = before.timeline.entries@;
    let pick = starts_tool(id@);
    let sought = Sought::Tool(id);
    assert(forall|e: AgentEvent| #[trigger] sought.fits(e) == pick(e));
    lemma_sought(rows, sought, pick);
}

/// The latest usage is the last that was reported. The empty figures that may come
/// with the end of a turn report none.
pub proof fn law_usage_is_the_last_reported(
    before: App,
    event: AgentEvent,
    arrival: Arrival,
    after: App,
)
    requires
        ingests(before, event, arrival, after),
    ensures
        event matches AgentEvent::UsageUpdated { usage } ==> after.activity.latest_usage == Some(
            usage,
        ),
        event matches AgentEvent::TurnCompleted { usage } ==> after.activity.latest_usage == if usage
            == (TokenUsage {
            input_tokens: 0,
            cached_input_tokens: 0,
            output_tokens: 0,
            reasoning_output_tokens: 0,
        }) {
            before.activity.latest_usage
        } else {
            Some(usage)
        },
        event !is UsageUpdated && event !is TurnCompleted ==> after.activity.latest_usage
            == before.activity.latest_usage,
{
}

/// The model that the agent names is the one known from then on, with the effort it
/// names, or else the one known before. Nothing else changes either.
pub proof fn law_the_agent_names_its_model(
    before: App,
    event: AgentEvent,
    arrival: Arrival,
    after: App,
)
    requires
        ingests(before, event, arrival, after),
    ensures
        event matches AgentEvent::ThreadStarted { model: Some(model), effort, .. } ==> {
            &&& after.reported_model matches Some((named, known)) && named == model && (effort
                is Some ==> known == effort) && (effort is None ==> known == (
            match before.reported_model {
                Some((_, before)) => before,
                None => None,
            }))
        },
        !(event matches AgentEvent::ThreadStarted { model: Some(_), .. }) ==> after.reported_model
            == before.reported_model,
{
}

/// What arrives changes the list, the place in it, what is known of the agent, and
/// nothing else of the screen.
pub proof fn law_events_change_nothing_else(
    before: App,
    event: AgentEvent,
    arrival: Arrival,
    after: App,
)
    requires
        ingests(before, event, arrival, after),
    ensures
        after == (App {
            timeline: after.timeline,
            activity: after.activity,
            reported_model: after.reported_model,
            preview: after.preview,
            ..before
        }),
        after.timeline.follow == before.timeline.follow,
        after.timeline.show_minor == before.timeline.show_minor,
        after.timeline.conversation_only == before.timeline.conversation_only,
        after.timeline.selected == before.timeline.selected || after.timeline.selected
            == after.timeline.entries@.len() - 1,
        after.timeline.selected != before.timeline.selected ==> before.timeline.follow,
{
    assert(after.timeline.entries.len() == after.timeline.entries@.len());
}

/// A list that follows goes along to a new row that is shown, and one that does not
/// stays where it is.
pub proof fn law_a_following_list_goes_along(
    before: App,
    event: AgentEvent,
    arrival: Arrival,
    after: App,
)
    requires
        ingests(before, event, arrival, after),
        !may_refresh(event),
        event !is UserMessage,
    ensures
        before.timeline.follow && before.timeline.shows(event) ==> after.timeline.selected
            == before.timeline.entries@.len(),
        !before.timeline.follow || !before.timeline.shows(event) ==> after.timeline.selected
            == before.timeline.selected && after.preview == before.preview,
{
    assert(after.timeline.entries.len() == after.timeline.entries@.len());
    let last = after.timeline.entries@.len() - 1;
    assert(after.timeline.entries@[last].event == event);
    assert(after.timeline.visible(last) == before.timeline.shows(event));
}

/// Where a list follows with its last shown row open, the new row is open in its place.
/// Otherwise it is closed and the open rows stay open.
pub proof fn law_the_open_row_is_passed_on(
    before: App,
    event: AgentEvent,
    arrival: Arrival,
    after: App,
    j: int,
)
    requires
        before.timeline.wf(),
        ingests(before, event, arrival, after),
        !may_refresh(event),
        event !is UserMessage,
        0 <= j < before.timeline.entries@.len(),
    ensures
        ({
            let at = before.timeline.selected as int;
            let rows = before.timeline.entries@;
            let now = after.timeline.entries@;
            let passes = before.timeline.follow && before.timeline.shows(event) && rows[at].expanded
                && (forall|k: int|
                at < k < rows.len() ==> !before.timeline.shows((#[trigger] rows[k]).event));
            &&& now.last().expanded == passes
            &&& passes ==> !now[at].expanded
            &&& j != at || !passes ==> now[j] == rows[j]
        }),
{
    let t = before.timeline;
    lemma_stop_from(t, Step::Line, t.selected + 1);
    assert forall|k: int| t.selected < k < t.entries@.len() implies t.stops(Step::Line, k)
        == t.shows((#[trigger] t.entries@[k]).event) by {
        assert(t.visible(k) == t.shows(t.entries@[k].event));
    }
    if t.stop_from(Step::Line, t.selected + 1) is None {
        assert forall|k: int| t.selected < k < t.entries@.len() implies !t.shows(
            (#[trigger] t.entries@[k]).event,
        ) by {
            assert(!t.stops(Step::Line, k));
        }
    } else {
        let k = t.stop_from(Step::Line, t.selected + 1)->Some_0 as int;
        assert(t.stops(Step::Line, k));
        assert(t.shows(t.entries@[k].event));
    }
}

} // verus!
