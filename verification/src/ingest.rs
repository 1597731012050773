//! How what arrives from the agent changes what the list shows.

use vstd::prelude::*;

use crate::activity::{Activity, Status};
use crate::app::App;
use crate::event::{no_usage, TokenUsage};
use crate::protocol::{AgentEvent, Contract, InteractionEnd};
use crate::text::{join, joined, same, views};
use crate::timeline::{Entry, Step, Timeline};

verus! {

/// What is known of an event besides what it says.
#[derive(Debug, PartialEq, Eq)]
pub struct Arrival {
    /// When it arrived.
    pub now: u64,
    /// What the operator wrote and the shape they asked for, of a message that
    /// was framed before it was sent.
    pub unframed: Option<(String, Contract)>,
    /// Whether the event starts work that outlives its turn.
    pub starts_background: bool,
    /// Whether the event reports that such work has ended.
    pub finishes_background: bool,
}

impl Arrival {
    /// An event at a time, of which nothing more is known.
    pub fn at(now: u64) -> (r: Arrival)
        ensures
            r == (Arrival {
                now,
                unframed: None,
                starts_background: false,
                finishes_background: false,
            }),
    {
        Arrival { now, unframed: None, starts_background: false, finishes_background: false }
    }
}

/// The event as it is shown: an operator's message as they wrote it.
pub open spec fn as_written(event: AgentEvent, arrival: Arrival) -> AgentEvent {
    match (event, arrival.unframed) {
        (AgentEvent::UserMessage { .. }, Some((written, _))) => AgentEvent::UserMessage {
            text: written,
        },
        _ => event,
    }
}

/// The shape an operator's message asked for.
pub open spec fn asked_for(event: AgentEvent, arrival: Arrival) -> Option<Contract> {
    match (event, arrival.unframed) {
        (AgentEvent::UserMessage { .. }, Some((_, contract))) => Some(contract),
        _ => None,
    }
}

/// The row that a report belongs to.
#[derive(Debug, PartialEq, Eq)]
pub enum Sought {
    /// Where this command started.
    Command(String),
    /// Where this tool call started.
    Tool(String),
    /// Where this call changed files.
    File(String),
    /// Where a task was last heard of.
    Task(String),
}

impl Sought {
    pub open spec fn fits(self, event: AgentEvent) -> bool {
        match (self, event) {
            (Sought::Command(wanted), AgentEvent::CommandStarted { command }) => command@
                == wanted@,
            (Sought::Tool(wanted), AgentEvent::ToolStarted { id, .. }) => id@ == wanted@,
            (Sought::File(wanted), AgentEvent::FileChanged { id, .. }) => id@ == wanted@,
            (Sought::Task(wanted), AgentEvent::TaskStarted { id, .. }) => id@ == wanted@,
            (Sought::Task(wanted), AgentEvent::TaskProgress { id, .. }) => id@ == wanted@,
            (Sought::Task(wanted), AgentEvent::TaskCompleted { id, .. }) => id@ == wanted@,
            _ => false,
        }
    }

    fn is_in(&self, event: &AgentEvent) -> (r: bool)
        ensures
            r == self.fits(*event),
    {
        match (self, event) {
            (Sought::Command(wanted), AgentEvent::CommandStarted { command }) => same(
                command.as_str(),
                wanted.as_str(),
            ),
            (Sought::Tool(wanted), AgentEvent::ToolStarted { id, .. }) => same(
                id.as_str(),
                wanted.as_str(),
            ),
            (Sought::File(wanted), AgentEvent::FileChanged { id, .. }) => same(
                id.as_str(),
                wanted.as_str(),
            ),
            (Sought::Task(wanted), AgentEvent::TaskStarted { id, .. }) => same(
                id.as_str(),
                wanted.as_str(),
            ),
            (Sought::Task(wanted), AgentEvent::TaskProgress { id, .. }) => same(
                id.as_str(),
                wanted.as_str(),
            ),
            (Sought::Task(wanted), AgentEvent::TaskCompleted { id, .. }) => same(
                id.as_str(),
                wanted.as_str(),
            ),
            _ => false,
        }
    }
}

/// The last of the first `n` rows that fits.
pub open spec fn row_before(entries: Seq<Entry>, n: int, sought: Sought) -> Option<int>
    decreases n,
{
    if n <= 0 {
        None
    } else if sought.fits(entries[n - 1].event) {
        Some(n - 1)
    } else {
        row_before(entries, n - 1, sought)
    }
}

/// The newest row that fits.
pub open spec fn newest_row(entries: Seq<Entry>, sought: Sought) -> Option<int> {
    row_before(entries, entries.len() as int, sought)
}

fn find_row(entries: &Vec<Entry>, sought: &Sought) -> (r: Option<usize>)
    ensures
        match newest_row(entries@, *sought) {
            Some(i) => r matches Some(k) && k == i && 0 <= i < entries@.len() && sought.fits(
                entries@[i].event,
            ),
            None => r is None,
        },
{
    let mut i: usize = entries.len();
    while i > 0
        invariant
            i <= entries@.len(),
            newest_row(entries@, *sought) == row_before(entries@, i as int, *sought),
        decreases i,
    {
        if sought.is_in(&entries[i - 1].event) {
            return Some(i - 1);
        }
        i = i - 1;
    }
    None
}

/// The row that an event is the next state of, where it is one: a command's
/// completion of the row where it started, a tool's of the row where it
/// started or changed files, a task's report of the row of that task, and
/// thinking of a last row that is thinking.
pub open spec fn row_of(entries: Seq<Entry>, event: AgentEvent) -> Option<int> {
    match event {
        AgentEvent::CommandCompleted { command, .. } => newest_row(
            entries,
            Sought::Command(command),
        ),
        AgentEvent::ToolCompleted { id, .. } => match newest_row(entries, Sought::Tool(id)) {
            Some(i) => Some(i),
            None => newest_row(entries, Sought::File(id)),
        },
        AgentEvent::TaskStarted { id, .. } => newest_row(entries, Sought::Task(id)),
        AgentEvent::TaskProgress { id, .. } => newest_row(entries, Sought::Task(id)),
        AgentEvent::TaskCompleted { id, .. } => newest_row(entries, Sought::Task(id)),
        AgentEvent::Thinking { .. } => if entries.len() > 0 && entries.last().event is Thinking {
            Some(entries.len() - 1)
        } else {
            None
        },
        _ => None,
    }
}

fn find_row_of(entries: &Vec<Entry>, event: &AgentEvent) -> (r: Option<usize>)
    ensures
        match row_of(entries@, *event) {
            Some(i) => r matches Some(k) && k == i && 0 <= i < entries@.len() && matched(
                entries@[i].event,
                *event,
            ),
            None => r is None,
        },
{
    match event {
        AgentEvent::CommandCompleted { command, .. } => find_row(
            entries,
            &Sought::Command(command.clone()),
        ),
        AgentEvent::ToolCompleted { id, .. } => match find_row(
            entries,
            &Sought::Tool(id.clone()),
        ) {
            Some(i) => Some(i),
            None => find_row(entries, &Sought::File(id.clone())),
        },
        AgentEvent::TaskStarted { id, .. } => find_row(entries, &Sought::Task(id.clone())),
        AgentEvent::TaskProgress { id, .. } => find_row(entries, &Sought::Task(id.clone())),
        AgentEvent::TaskCompleted { id, .. } => find_row(entries, &Sought::Task(id.clone())),
        AgentEvent::Thinking { .. } => {
            if entries.len() == 0 {
                return None;
            }
            match &entries[entries.len() - 1].event {
                AgentEvent::Thinking { .. } => Some(entries.len() - 1),
                _ => None,
            }
        },
        _ => None,
    }
}

/// Whether a row is of the kind that an event is the next state of.
pub open spec fn matched(row: AgentEvent, event: AgentEvent) -> bool {
    match event {
        AgentEvent::CommandCompleted { .. } => row is CommandStarted,
        AgentEvent::ToolCompleted { .. } => row is ToolStarted || row is FileChanged,
        AgentEvent::TaskStarted { .. } => row is TaskStarted || row is TaskProgress || row
            is TaskCompleted,
        AgentEvent::TaskProgress { .. } => row is TaskStarted || row is TaskProgress || row
            is TaskCompleted,
        AgentEvent::TaskCompleted { .. } => row is TaskStarted || row is TaskProgress || row
            is TaskCompleted,
        AgentEvent::Thinking { .. } => row is Thinking,
        _ => false,
    }
}

/// Two token counts together.
pub open spec fn spent(counted: Option<u64>, more: Option<u64>) -> Option<u64> {
    match (counted, more) {
        (Some(a), Some(b)) => Some(
            if a + b <= u64::MAX {
                (a + b) as u64
            } else {
                u64::MAX
            },
        ),
        (None, Some(b)) => Some(b),
        (counted, None) => counted,
    }
}

/// Whether a row's event becomes `next` when `event` is its next state.
///
/// A tool's completion keeps the name and the arguments it started with. One of
/// a call that changed files is an error where it failed, and otherwise adds
/// nothing. A task that has ended stays ended, and what two endings say is kept
/// from both. Thinking keeps the last prose and adds up what it spent.
pub open spec fn becomes(row: AgentEvent, event: AgentEvent, next: AgentEvent) -> bool {
    match (row, event) {
        (
            AgentEvent::ToolStarted { id, name, detail },
            AgentEvent::ToolCompleted { status, output, .. },
        ) => next == (AgentEvent::ToolCompleted { id, name, detail, status, output }),
        (
            AgentEvent::FileChanged { paths, .. },
            AgentEvent::ToolCompleted { status, output, .. },
        ) => if status@ == "error"@ {
            next matches AgentEvent::Error { message } && message@ == joined(
                views(paths@),
                ", "@,
            ) + ": "@ + output@
        } else {
            next == row
        },
        (
            AgentEvent::TaskCompleted { summary: known, error: reason, .. },
            AgentEvent::TaskCompleted { id, status, summary, error },
        ) => next == (AgentEvent::TaskCompleted {
            id,
            status,
            summary: if summary@.len() > 0 {
                summary
            } else {
                known
            },
            error: if error is Some {
                error
            } else {
                reason
            },
        }),
        (AgentEvent::TaskCompleted { .. }, _) => next == row,
        (
            AgentEvent::Thinking { text: known, tokens: counted },
            AgentEvent::Thinking { text, tokens },
        ) => next == (AgentEvent::Thinking {
            text: if text@.len() > 0 {
                text
            } else {
                known
            },
            tokens: spent(counted, tokens),
        }),
        _ => next == event,
    }
}

fn next_state(row: AgentEvent, event: AgentEvent) -> (r: AgentEvent)
    requires
        matched(row, event),
    ensures
        becomes(row, event, r),
{
    match (row, event) {
        (
            AgentEvent::ToolStarted { id, name, detail },
            AgentEvent::ToolCompleted { status, output, .. },
        ) => AgentEvent::ToolCompleted { id, name, detail, status, output },
        (
            AgentEvent::FileChanged { id, paths, diff, checkpoint, checkpoint_error },
            AgentEvent::ToolCompleted { status, output, .. },
        ) => if same(status.as_str(), "error") {
            let mut message = join(&paths, ", ");
            message.append(": ");
            message.append(output.as_str());
            AgentEvent::Error { message }
        } else {
            AgentEvent::FileChanged { id, paths, diff, checkpoint, checkpoint_error }
        },
        (
            AgentEvent::TaskCompleted { summary: known, error: reason, .. },
            AgentEvent::TaskCompleted { id, status, summary, error },
        ) => AgentEvent::TaskCompleted {
            id,
            status,
            summary: if summary.as_str().is_empty() {
                known
            } else {
                summary
            },
            error: if error.is_some() {
                error
            } else {
                reason
            },
        },
        (AgentEvent::TaskCompleted { id, status, summary, error }, _) => AgentEvent::TaskCompleted {
            id,
            status,
            summary,
            error,
        },
        (
            AgentEvent::Thinking { text: known, tokens: counted },
            AgentEvent::Thinking { text, tokens },
        ) => AgentEvent::Thinking {
            text: if text.as_str().is_empty() {
                known
            } else {
                text
            },
            tokens: match (counted, tokens) {
                (Some(a), Some(b)) => Some(a.saturating_add(b)),
                (None, Some(b)) => Some(b),
                (counted, None) => counted,
            },
        },
        (_, event) => event,
    }
}

/// Whether a row is a call that asks how background work is going.
pub open spec fn polls_background(row: AgentEvent) -> bool {
    row matches AgentEvent::ToolStarted { name, .. } && (name@ == "TaskOutput"@ || name@
        == "TaskGet"@ || name@ == "task_output"@ || name@ == "task_get"@)
}

fn is_poll(row: &AgentEvent) -> (r: bool)
    ensures
        r == polls_background(*row),
{
    match row {
        AgentEvent::ToolStarted { name, .. } => same(name.as_str(), "TaskOutput") || same(
            name.as_str(),
            "TaskGet",
        ) || same(name.as_str(), "task_output") || same(name.as_str(), "task_get"),
        _ => false,
    }
}

/// At work, unless the session has ended.
pub open spec fn at_work(activity: Activity) -> Activity {
    Activity {
        status: if activity.status is Ended {
            activity.status
        } else {
            Status::Running
        },
        ..activity
    }
}

/// How the session is going once a row has its next state.
pub open spec fn after_row(
    activity: Activity,
    row: AgentEvent,
    event: AgentEvent,
    arrival: Arrival,
) -> Activity {
    let heard = activity.heard(arrival.now);
    if event is Thinking {
        at_work(heard)
    } else if event is ToolCompleted && polls_background(row) && arrival.finishes_background {
        polled_finished(heard)
    } else {
        heard
    }
}

/// After a poll's report that background work is done. A session that has ended
/// stays ended.
pub open spec fn polled_finished(activity: Activity) -> Activity {
    if activity.status is Ended {
        Activity { status: activity.status, ..activity.guessed_finished() }
    } else {
        activity.guessed_finished()
    }
}

/// Whether an event says that the agent is at work.
pub open spec fn is_work(event: AgentEvent) -> bool {
    event is UserMessage || event is TurnStarted || event is CommandStarted || event is ToolStarted
        || event is AgentMessage || event is Thinking || event is PlanUpdated
}

/// How the session is going once an event has a row of its own.
pub open spec fn after_new_row(activity: Activity, event: AgentEvent, arrival: Arrival) -> Activity {
    let heard = activity.heard(arrival.now);
    let known = match event {
        AgentEvent::TurnCompleted { usage } => Activity {
            latest_usage: if usage != no_usage() {
                Some(usage)
            } else {
                heard.latest_usage
            },
            status: if heard.status is Ended {
                heard.status
            } else {
                heard.resting()
            },
            ..heard
        },
        AgentEvent::UsageUpdated { usage } => Activity { latest_usage: Some(usage), ..heard },
        _ => if is_work(event) {
            at_work(heard)
        } else {
            heard
        },
    };
    match event {
        AgentEvent::BackgroundTasks { running } => known.counted(running),
        _ => if arrival.starts_background {
            Activity { background_work: true, ..known }
        } else {
            known
        },
    }
}

/// The model and effort known once the agent has spoken. An effort that it does
/// not name stays as it was.
pub open spec fn reported_after(
    reported: Option<(String, Option<String>)>,
    event: AgentEvent,
) -> Option<(String, Option<String>)> {
    match event {
        AgentEvent::ThreadStarted { model: Some(model), effort, .. } => Some(
            (
                model,
                match effort {
                    Some(effort) => Some(effort),
                    None => match reported {
                        Some((_, known)) => known,
                        None => None,
                    },
                },
            ),
        ),
        _ => reported,
    }
}

/// On the last row, where the list follows it. A hidden one is not followed to
/// where `only_visible`.
pub open spec fn followed(app: App, only_visible: bool) -> App {
    if app.timeline.follow && app.timeline.entries@.len() > 0 && (only_visible
        ==> app.timeline.visible(app.timeline.entries@.len() - 1)) {
        app.on_tail()
    } else {
        app
    }
}

/// Whether a new row opens in place of the selected one: the list follows, the
/// new row is visible, and the selected one is open and was the last.
pub open spec fn takes_over(timeline: Timeline, event: AgentEvent) -> bool {
    &&& timeline.follow
    &&& timeline.shows(event)
    &&& timeline.selected < timeline.entries@.len()
    &&& timeline.entries@[timeline.selected as int].expanded
    &&& timeline.stop_from(Step::Line, timeline.selected + 1) is None
}

/// The rows once an event has a row of its own.
pub open spec fn rows_after(
    timeline: Timeline,
    event: AgentEvent,
    raw_index: Option<usize>,
    contract: Option<Contract>,
) -> Seq<Entry> {
    let opens = takes_over(timeline, event);
    let at = timeline.selected as int;
    (if opens {
        timeline.entries@.update(at, Entry { expanded: false, ..timeline.entries@[at] })
    } else {
        timeline.entries@
    }).push(Entry { event, expanded: opens, raw_index, contract })
}

/// The newest wire line.
pub open spec fn newest_line(app: App) -> Option<usize> {
    if app.raw.lines@.len() > 0 {
        Some((app.raw.lines@.len() - 1) as usize)
    } else {
        None
    }
}

/// Whether taking an event as the next state of a row leads from one screen to
/// another.
pub open spec fn row_refreshed(
    before: App,
    i: int,
    shown: AgentEvent,
    arrival: Arrival,
    after: App,
) -> bool {
    let rows = before.timeline.entries@;
    let row = rows[i];
    let next = after.timeline.entries@[i];
    &&& becomes(row.event, shown, next.event)
    &&& next == (Entry {
        event: next.event,
        raw_index: if shown is Thinking {
            newest_line(before)
        } else {
            row.raw_index
        },
        ..row
    })
    &&& after.timeline.entries@ == rows.update(i, next)
    &&& after == followed(
        App {
            activity: after_row(before.activity, row.event, shown, arrival),
            timeline: Timeline { entries: after.timeline.entries, ..before.timeline },
            ..before
        },
        shown is Thinking,
    )
}

/// Whether taking an event as a row of its own leads from one screen to another.
pub open spec fn row_added(
    before: App,
    shown: AgentEvent,
    contract: Option<Contract>,
    arrival: Arrival,
    after: App,
) -> bool {
    &&& after.timeline.entries@ == rows_after(
        before.timeline,
        shown,
        newest_line(before),
        contract,
    )
    &&& after == followed(
        App {
            activity: after_new_row(before.activity, shown, arrival),
            reported_model: reported_after(before.reported_model, shown),
            timeline: Timeline { entries: after.timeline.entries, ..before.timeline },
            ..before
        },
        true,
    )
}

/// Whether taking an event leads from one screen to another.
pub open spec fn ingests(before: App, event: AgentEvent, arrival: Arrival, after: App) -> bool {
    let shown = as_written(event, arrival);
    match row_of(before.timeline.entries@, shown) {
        Some(i) => row_refreshed(before, i, shown, arrival, after),
        None => row_added(before, shown, asked_for(event, arrival), arrival, after),
    }
}

/// Take an event from the agent: as the next state of a row, or as a row of its
/// own.
pub fn push_event(app: &mut App, event: AgentEvent, arrival: Arrival)
    requires
        old(app).wf(),
        old(app).activity.events < u64::MAX,
    ensures
        ingests(*old(app), event, arrival, *final(app)),
        final(app).wf(),
{
    let ghost given = arrival;
    let Arrival { now, unframed: written, starts_background, finishes_background } = arrival;
    let (event, contract) = unframed(event, written);
    match find_row_of(&app.timeline.entries, &event) {
        Some(i) => refresh(app, i, event, now, finishes_background, Ghost(given)),
        None => append(app, event, contract, now, starts_background, Ghost(given)),
    }
}

fn refresh(
    app: &mut App,
    i: usize,
    event: AgentEvent,
    now: u64,
    finishes_background: bool,
    arrival: Ghost<Arrival>,
)
    requires
        old(app).wf(),
        old(app).activity.events < u64::MAX,
        i < old(app).timeline.entries@.len(),
        matched(old(app).timeline.entries@[i as int].event, event),
        arrival@.now == now,
        arrival@.finishes_background == finishes_background,
    ensures
        row_refreshed(*old(app), i as int, event, arrival@, *final(app)),
        final(app).wf(),
{
    app.activity.note_event_received(now);
    let raw_index = app.raw.last_index();
    let polled = match &event {
        AgentEvent::ToolCompleted { .. } => is_poll(&app.timeline.entries[i].event),
        _ => false,
    };
    let thinks = match &event {
        AgentEvent::Thinking { .. } => true,
        _ => false,
    };
    refresh_row(&mut app.timeline.entries, i, event, raw_index);
    if thinks {
        if app.activity.status.is_active() {
            app.activity.status = Status::Running;
        }
    } else if polled && finishes_background {
        note_poll_finished(&mut app.activity);
    }
    follow(app, thinks);
}

fn note_poll_finished(activity: &mut Activity)
    ensures
        *final(activity) == polled_finished(*old(activity)),
{
    let ended = match &activity.status {
        Status::Ended { .. } => true,
        _ => false,
    };
    if !ended {
        activity.note_background_finished();
    } else if !activity.background_count_known {
        activity.background_work = false;
    }
}

fn append(
    app: &mut App,
    event: AgentEvent,
    contract: Option<Contract>,
    now: u64,
    starts_background: bool,
    arrival: Ghost<Arrival>,
)
    requires
        old(app).wf(),
        old(app).activity.events < u64::MAX,
        arrival@.now == now,
        arrival@.starts_background == starts_background,
    ensures
        row_added(*old(app), event, contract, arrival@, *final(app)),
        final(app).wf(),
{
    app.activity.note_event_received(now);
    let raw_index = app.raw.last_index();
    note_activity(&mut app.activity, &event, starts_background);
    note_report(&mut app.reported_model, &event);
    add_row(&mut app.timeline, event, raw_index, contract);
    follow(app, true);
}

fn refresh_row(entries: &mut Vec<Entry>, i: usize, event: AgentEvent, raw_index: Option<usize>)
    requires
        i < old(entries)@.len(),
        matched(old(entries)@[i as int].event, event),
    ensures
        becomes(old(entries)@[i as int].event, event, final(entries)@[i as int].event),
        final(entries)@ == old(entries)@.update(
            i as int,
            Entry {
                event: final(entries)@[i as int].event,
                raw_index: if event is Thinking {
                    raw_index
                } else {
                    old(entries)@[i as int].raw_index
                },
                ..old(entries)@[i as int]
            },
        ),
{
    let thinks = match &event {
        AgentEvent::Thinking { .. } => true,
        _ => false,
    };
    let ghost before = entries@;
    let row = entries.remove(i);
    let Entry { event: was, expanded, raw_index: line, contract } = row;
    let next = Entry {
        event: next_state(was, event),
        expanded,
        raw_index: if thinks {
            raw_index
        } else {
            line
        },
        contract,
    };
    entries.insert(i, next);
    assert(entries@ =~= before.update(i as int, entries@[i as int]));
}

fn note_activity(activity: &mut Activity, event: &AgentEvent, starts_background: bool)
    ensures
        forall|before: Activity, arrival: Arrival|
            *old(activity) == #[trigger] before.heard(arrival.now) && arrival.starts_background
                == starts_background ==> *final(activity) == #[trigger] after_new_row(
                before,
                *event,
                arrival,
            ),
{
    match event {
        AgentEvent::TurnCompleted { usage } => {
            if *usage != TokenUsage::default() {
                activity.latest_usage = Some(*usage);
            }
            if activity.status.is_active() {
                activity.status = activity.idle_or_background();
            }
        },
        AgentEvent::UsageUpdated { usage } => {
            activity.latest_usage = Some(*usage);
        },
        AgentEvent::UserMessage { .. }
        | AgentEvent::TurnStarted
        | AgentEvent::CommandStarted { .. }
        | AgentEvent::ToolStarted { .. }
        | AgentEvent::AgentMessage { .. }
        | AgentEvent::Thinking { .. }
        | AgentEvent::PlanUpdated { .. } => {
            if activity.status.is_active() {
                activity.status = Status::Running;
            }
        },
        _ => {},
    }
    match event {
        AgentEvent::BackgroundTasks { running } => activity.note_background_count(*running),
        _ => {
            if starts_background {
                activity.note_background_started();
            }
        },
    }
}

fn note_report(reported: &mut Option<(String, Option<String>)>, event: &AgentEvent)
    ensures
        *final(reported) == reported_after(*old(reported), *event),
{
    if let AgentEvent::ThreadStarted { model: Some(model), effort, .. } = event {
        let known = match effort {
            Some(effort) => Some(effort.clone()),
            None => match &*reported {
                Some((_, known)) => known.clone(),
                None => None,
            },
        };
        *reported = Some((model.clone(), known));
    }
}

fn add_row(
    timeline: &mut Timeline,
    event: AgentEvent,
    raw_index: Option<usize>,
    contract: Option<Contract>,
)
    requires
        old(timeline).wf(),
    ensures
        final(timeline).entries@ == rows_after(*old(timeline), event, raw_index, contract),
        *final(timeline) == (Timeline { entries: final(timeline).entries, ..*old(timeline) }),
        final(timeline).wf(),
{
    let ghost before = timeline.entries@;
    let selected = timeline.selected;
    let opens = timeline.follow && timeline.event_is_visible(&event) && selected
        < timeline.entries.len() && timeline.entries[selected].expanded && timeline.seek_forward(
        selected + 1,
        Step::Line,
    ).is_none();
    if opens {
        let row = timeline.entries.remove(selected);
        timeline.entries.insert(
            selected,
            Entry {
                event: row.event,
                expanded: false,
                raw_index: row.raw_index,
                contract: row.contract,
            },
        );
        assert(timeline.entries@ =~= before.update(
            selected as int,
            Entry { expanded: false, ..before[selected as int] },
        ));
    }
    timeline.entries.push(Entry { event, expanded: opens, raw_index, contract });
}

/// An operator's message as they wrote it, and the shape they asked for.
fn unframed(event: AgentEvent, written: Option<(String, Contract)>) -> (r: (
    AgentEvent,
    Option<Contract>,
))
    ensures
        forall|arrival: Arrival|
            arrival.unframed == written ==> r.0 == #[trigger] as_written(event, arrival) && r.1
                == asked_for(event, arrival),
{
    match (event, written) {
        (AgentEvent::UserMessage { .. }, Some((text, contract))) => (
            AgentEvent::UserMessage { text },
            Some(contract),
        ),
        (event, _) => (event, None),
    }
}

fn follow(app: &mut App, only_visible: bool)
    ensures
        *final(app) == followed(*old(app), only_visible),
        old(app).wf() ==> final(app).wf(),
{
    let count: usize = app.timeline.entries.len();
    if app.timeline.follow && count > 0 && (!only_visible || app.timeline.is_visible(count - 1)) {
        app.select_tail();
    }
}

/// Record that the session ended, whatever it was doing.
pub fn on_ended(app: &mut App, end: InteractionEnd)
    ensures
        *final(app) == old(app).ended(end),
        old(app).wf() ==> final(app).wf(),
{
    app.activity.status = Status::Ended { exit_code: end.exit_code, error: end.error };
}

/// The next state of a row adds none, and any other event adds exactly one; no
/// row but the one that has a next state, or that a new one takes over from,
/// changes.
pub proof fn law_an_event_changes_one_row(
    before: App,
    event: AgentEvent,
    arrival: Arrival,
    after: App,
    other: int,
)
    requires
        ingests(before, event, arrival, after),
        0 <= other < before.timeline.entries@.len(),
        row_of(before.timeline.entries@, as_written(event, arrival)) != Some(other),
    ensures
        after.timeline.entries@.len() == before.timeline.entries@.len() + (if row_of(
            before.timeline.entries@,
            as_written(event, arrival),
        ) is Some {
            0int
        } else {
            1
        }),
        after.timeline.entries@[other].event == before.timeline.entries@[other].event,
        after.timeline.entries@[other].raw_index == before.timeline.entries@[other].raw_index,
{
    lemma_row_of_is_a_row(before.timeline.entries@, as_written(event, arrival));
}

proof fn lemma_row_before(entries: Seq<Entry>, n: int, sought: Sought)
    requires
        n <= entries.len(),
    ensures
        row_before(entries, n, sought) matches Some(i) ==> 0 <= i < n,
    decreases n,
{
    if n > 0 {
        lemma_row_before(entries, n - 1, sought);
    }
}

proof fn lemma_row_of_is_a_row(entries: Seq<Entry>, event: AgentEvent)
    ensures
        row_of(entries, event) matches Some(i) ==> 0 <= i < entries.len(),
{
    match event {
        AgentEvent::CommandCompleted { command, .. } => lemma_row_before(
            entries,
            entries.len() as int,
            Sought::Command(command),
        ),
        AgentEvent::ToolCompleted { id, .. } => {
            lemma_row_before(entries, entries.len() as int, Sought::Tool(id));
            lemma_row_before(entries, entries.len() as int, Sought::File(id));
        },
        AgentEvent::TaskStarted { id, .. } => lemma_row_before(
            entries,
            entries.len() as int,
            Sought::Task(id),
        ),
        AgentEvent::TaskProgress { id, .. } => lemma_row_before(
            entries,
            entries.len() as int,
            Sought::Task(id),
        ),
        AgentEvent::TaskCompleted { id, .. } => lemma_row_before(
            entries,
            entries.len() as int,
            Sought::Task(id),
        ),
        _ => {},
    }
}

/// A late event does not revive a session that has ended.
pub proof fn law_a_late_event_does_not_revive(
    before: App,
    event: AgentEvent,
    arrival: Arrival,
    after: App,
)
    requires
        ingests(before, event, arrival, after),
        before.activity.status is Ended,
    ensures
        after.activity.status == before.activity.status,
{
}

/// While the list is not following, events leave the selection and the preview
/// where they are; while it is, an event that is shown on a row of its own is
/// selected.
pub proof fn law_events_move_the_selection_only_while_following(
    before: App,
    event: AgentEvent,
    arrival: Arrival,
    after: App,
)
    requires
        ingests(before, event, arrival, after),
    ensures
        !before.timeline.follow ==> after.timeline.selected == before.timeline.selected
            && after.preview == before.preview,
        before.timeline.follow && row_of(before.timeline.entries@, as_written(event, arrival))
            is None && before.timeline.shows(as_written(event, arrival)) ==> after.timeline.selected
            == after.timeline.entries@.len() - 1,
        before.timeline.follow && row_of(before.timeline.entries@, as_written(event, arrival))
            is None && !before.timeline.shows(as_written(event, arrival))
            ==> after.timeline.selected == before.timeline.selected && after.preview
            == before.preview,
        after.timeline.follow == before.timeline.follow,
{
    assert(after.timeline.entries.len() == after.timeline.entries@.len());
}

} // verus!
