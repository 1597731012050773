//! Sessions: what a turn asks for, and what the server's answers change.

use vstd::prelude::*;

use crate::activity::{Activity, Status};
use crate::app::{log_views, logged, stays_put, App, Focus, Request};
use crate::ingest::{ingests, Arrival};
use crate::interactions::{find_id, first_with_id, listed};
use crate::journal::Newest;
use crate::launch;
use crate::launch::{can_edit, Launch};
use crate::launcher::Catalog;
use crate::mount::git_root;
use crate::notices::Notices;
use crate::order::{reorders, stable_sort, stably_sorted, values, without_ranks};
use crate::outbox::Outbox;
use crate::path::{ancestry, file_name, last_name, same_path, same_place};
use crate::protocol::{
    AgentEvent, Arrived, Contract, DrivaOptions, InteractionEnd, InteractionSnapshot,
    InteractionSummary, InteractionUpdate, LaunchPolicy, LogEntry, LogLevel, QueuedMessage, RawLine,
    Selection, SessionInfo, StoredSession, WorkspaceSummary,
};
use crate::raw::RawView;
use crate::text::{decimal, holds, number, view_of};
use crate::workspace::Location;

verus! {

/// The shapes a reply can be asked for, in the order they are stepped through.
pub open spec fn next_shape(contract: Option<Contract>) -> Option<Contract> {
    match contract {
        None => Some(Contract::Text),
        Some(Contract::Text) => Some(Contract::Lines),
        Some(Contract::Lines) => Some(Contract::Files),
        Some(Contract::Files) => Some(Contract::Json),
        Some(Contract::Json) => None,
    }
}

/// The shape after this one. After the last comes none.
pub fn next_contract(contract: Option<Contract>) -> (r: Option<Contract>)
    ensures
        r == next_shape(contract),
{
    match contract {
        None => Some(Contract::Text),
        Some(Contract::Text) => Some(Contract::Lines),
        Some(Contract::Lines) => Some(Contract::Files),
        Some(Contract::Files) => Some(Contract::Json),
        Some(Contract::Json) => None,
    }
}

/// Stepping through the shapes passes each once and ends where it began.
pub proof fn law_shapes_come_round(contract: Option<Contract>)
    ensures
        next_shape(next_shape(next_shape(next_shape(next_shape(contract))))) == contract,
        next_shape(contract) != contract,
        next_shape(next_shape(contract)) != contract,
        next_shape(next_shape(next_shape(contract))) != contract,
        next_shape(next_shape(next_shape(next_shape(contract)))) != contract,
{
}

// --- Live sessions -----------------------------------------------------------

/// What stands behind the screen.
#[derive(Debug, PartialEq, Eq)]
pub enum Live {
    /// Nothing was launched. The first message launches.
    Pending,
    /// An agent that the server runs, and how far its updates are read.
    Running { session_id: String, cursor: u64 },
    /// A replayed journal. A message resumes it.
    Viewing,
}

/// What stands behind a screen attached to an interaction.
pub open spec fn attached(session_id: String, cursor: u64, accepting: bool) -> Live {
    if accepting {
        Live::Running { session_id, cursor }
    } else {
        Live::Viewing
    }
}

/// What stands behind a screen attached to an interaction: one that takes no
/// more messages is read like a journal.
pub fn attached_live(session_id: String, cursor: u64, accepting: bool) -> (r: Live)
    ensures
        r == attached(session_id, cursor, accepting),
{
    if accepting {
        Live::Running { session_id, cursor }
    } else {
        Live::Viewing
    }
}

/// This screen once its interaction was stopped.
pub open spec fn stopped(app: App) -> App {
    App { activity: Activity { status: Status::Stopped, ..app.activity }, ..app }
}

/// Mark the interaction stopped. The next message resumes the same session.
pub fn mark_stopped(app: &mut App, live: &mut Live)
    ensures
        *final(app) == stopped(*old(app)),
        *final(live) == Live::Viewing,
        old(app).wf() ==> final(app).wf(),
{
    app.activity.status = Status::Stopped;
    *live = Live::Viewing;
}

// --- Workspaces and lists ----------------------------------------------------

/// The nearest directory at or above `path` that holds a `.git`, told from the
/// directories that do.
pub fn enclosing_git_repository(path: &str, repositories: &Vec<String>) -> (r: Option<String>)
    ensures
        match r {
            Some(root) => exists|i: int|
                0 <= i < ancestry(path@).len() && #[trigger] ancestry(path@)[i] == root@ && holds(
                    repositories@,
                    root@,
                ) && forall|j: int|
                    0 <= j < i ==> !holds(repositories@, #[trigger] ancestry(path@)[j]),
            None => forall|j: int|
                0 <= j < ancestry(path@).len() ==> !holds(
                    repositories@,
                    #[trigger] ancestry(path@)[j],
                ),
        },
{
    git_root(path, repositories)
}

/// The first Workspace of a host directory.
pub open spec fn workspace_at(workspaces: Seq<WorkspaceSummary>, host: Seq<char>, i: int) -> bool {
    &&& 0 <= i < workspaces.len()
    &&& same_place(workspaces[i].host_path@, host)
    &&& forall|j: int|
        0 <= j < i ==> !same_place((#[trigger] workspaces[j]).host_path@, host)
}

/// Find the first Workspace of a host directory.
pub fn find_workspace_for_host(workspaces: &Vec<WorkspaceSummary>, host_path: &str) -> (r: Option<
    usize,
>)
    ensures
        match r {
            Some(i) => workspace_at(workspaces@, host_path@, i as int),
            None => forall|j: int|
                0 <= j < workspaces@.len() ==> !same_place(
                    (#[trigger] workspaces@[j]).host_path@,
                    host_path@,
                ),
        },
{
    let mut i: usize = 0;
    while i < workspaces.len()
        invariant
            i <= workspaces@.len(),
            forall|j: int|
                0 <= j < i ==> !same_place((#[trigger] workspaces@[j]).host_path@, host_path@),
        decreases workspaces.len() - i,
    {
        if same_path(workspaces[i].host_path.as_str(), host_path) {
            return Some(i);
        }
        i = i + 1;
    }
    None
}

/// Each stored session with the time it is ordered by.
pub open spec fn dated(sessions: Seq<StoredSession>) -> Seq<(Newest, StoredSession)> {
    sessions.map_values(|s: StoredSession| (Newest(Some(s.created_at_ms)), s))
}

/// The sessions of several Workspaces as one list, newest first. Sessions of
/// one time keep their order.
pub fn all_sessions(sessions: Vec<StoredSession>) -> (r: Vec<StoredSession>)
    ensures
        stably_sorted(dated(sessions@), dated(r@)),
{
    let ghost before = sessions@;
    let mut rest = sessions;
    let mut pairs: Vec<(Newest, StoredSession)> = Vec::new();
    while rest.len() > 0
        invariant
            before.len() == pairs@.len() + rest@.len(),
            rest@ == before.skip(pairs@.len() as int),
            pairs@ == dated(before).take(pairs@.len() as int),
        decreases rest@.len(),
    {
        let session = rest.remove(0);
        let ghost n = pairs@.len() as int;
        assert(session == before[n]);
        assert(before.skip(n).remove(0) =~= before.skip(n + 1));
        pairs.push((Newest(Some(session.created_at_ms)), session));
        assert(dated(before).take(n + 1) =~= dated(before).take(n).push(dated(before)[n]));
    }
    assert(dated(before).take(before.len() as int) =~= dated(before));
    let held = stable_sort(pairs);
    proof {
        let order = choose|order: Seq<int>| reorders(order, dated(before), held@);
        assert(dated(values(held@)) =~= held@) by {
            assert forall|i: int| 0 <= i < held@.len() implies dated(values(held@))[i]
                == held@[i] by {
                assert(0 <= order[i] < before.len());
            }
        }
    }
    without_ranks(held)
}

/// The session that a target names: its last part.
pub fn session_id_from_target(target: &str) -> (r: Result<String, String>)
    ensures
        match (last_name(target@), r) {
            (Some(name), Ok(id)) => id@ == name,
            (None, Err(problem)) => problem@ == "invalid session target "@ + target@,
            _ => false,
        },
{
    match file_name(target) {
        Some(name) => Ok(name),
        None => Err("invalid session target ".to_owned().concat(target)),
    }
}

// --- Turns -------------------------------------------------------------------

/// One message to an agent: the text, what it runs under, and the shape its
/// reply is asked to take.
#[derive(Debug, PartialEq, Eq)]
pub struct Turn {
    pub message: String,
    pub selection: Selection,
    pub contract: Option<Contract>,
}

/// The turn of a message.
pub fn turn(message: &str, selection: &Selection, contract: Option<Contract>) -> (r: Turn)
    ensures
        r.message@ == message@,
        r.selection == *selection,
        r.contract == contract,
{
    Turn { message: message.to_owned(), selection: selection.copied(), contract }
}

/// What a new session is asked for.
#[derive(Debug, PartialEq, Eq)]
pub struct Creation {
    pub selection: Selection,
    /// This launch's own policy. The server adds the Workspace's.
    pub launch: LaunchPolicy,
    pub message: Option<String>,
    pub contract: Option<Contract>,
}

/// What a session launched from this screen is asked for.
pub open spec fn creates(app: App, message: Seq<char>, contract: Option<Contract>, r: Creation) -> bool {
    &&& r.selection == app.selection
    &&& r.launch@ == app.launch.interaction@
    &&& view_of(r.message) == Some(message)
    &&& r.contract == contract
}

/// What a session launched from this screen is asked for.
pub fn create_session(app: &App, message: &str, contract: Option<Contract>) -> (r: Creation)
    ensures
        creates(*app, message@, contract, r),
{
    Creation {
        selection: app.selection.copied(),
        launch: app.launch.interaction.copied(),
        message: Some(message.to_owned()),
        contract,
    }
}

/// This screen on a session that was launched or resumed. `id` is the id it now
/// shows.
pub open spec fn on_session(app: App, info: SessionInfo) -> App {
    App {
        session_id: info.id,
        session_name: info.name,
        workspace: Location { root: Some(info.workspace), ..app.workspace },
        launch: Launch {
            driva: Some(info.driva),
            planned: false,
            plan_key: None,
            ..app.launch
        },
        activity: Activity { status: Status::Running, ..app.activity },
        ..app
    }
}

/// Hand back what became of a launch. Where it failed, the message returns to
/// its box.
pub fn created(app: &mut App, live: &mut Live, result: Result<SessionInfo, String>, message: String)
    requires
        old(app).wf(),
    ensures
        match result {
            Ok(info) => {
                &&& *final(live) == (Live::Running {
                    session_id: info.id,
                    cursor: info.updates_after,
                })
                &&& stays_put(old(app).log, final(app).log)
                &&& log_views(final(app).log.items@) == log_views(old(app).log.items@).push(
                    (LogLevel::Info, "journal: "@ + info.journal_path@),
                )
                &&& *final(app) == (App {
                    selection: info.selection,
                    workspace: Location {
                        id: Some(info.workspace_id),
                        root: Some(info.workspace),
                        ..old(app).workspace
                    },
                    log: final(app).log,
                    ..on_session(*old(app), info)
                })
            },
            Err(error) => {
                &&& *final(live) == *old(live)
                &&& stays_put(old(app).log, final(app).log)
                &&& log_views(final(app).log.items@) == log_views(old(app).log.items@).push(
                    (LogLevel::Error, "could not launch the agent: "@ + error@),
                )
                &&& final(app).composer@ == old(app).composer@.edited(message@)
                &&& *final(app) == (App {
                    composer: final(app).composer,
                    log: final(app).log,
                    focus: Focus::Input,
                    ..*old(app)
                })
            },
        },
        final(app).wf(),
{
    match result {
        Ok(info) => {
            let id = info.id.clone();
            app.selection = info.selection;
            app.workspace.id = Some(info.workspace_id);
            app.session_id = info.id;
            app.session_name = info.name;
            app.workspace.enter(info.workspace);
            app.launch.record(info.driva);
            log_info(app, "journal: ".to_owned().concat(info.journal_path.as_str()));
            app.activity.status = Status::Running;
            *live = Live::Running { session_id: id, cursor: info.updates_after };
        },
        Err(error) => {
            log_error(app, "could not launch the agent: ".to_owned().concat(error.as_str()));
            app.set_input(message);
            app.enter_input();
        },
    }
}

/// Add a remark to the log.
pub fn log_info(app: &mut App, message: String)
    requires
        old(app).wf(),
    ensures
        stays_put(old(app).log, final(app).log),
        final(app).log.items@.len() == old(app).log.items@.len() + 1,
        log_views(final(app).log.items@) == log_views(old(app).log.items@).push(
            (LogLevel::Info, message@),
        ),
        *final(app) == (App { log: final(app).log, ..*old(app) }),
        final(app).wf(),
{
    app.push_log(LogEntry::info(message));
    assert(app.log.items.len() == app.log.items@.len());
    assert(log_views(app.log.items@) =~= log_views(old(app).log.items@).push(
        (LogLevel::Info, message@),
    ));
}

/// Add a warning to the log.
pub fn log_warn(app: &mut App, message: String)
    requires
        old(app).wf(),
    ensures
        stays_put(old(app).log, final(app).log),
        final(app).log.items@.len() == old(app).log.items@.len() + 1,
        log_views(final(app).log.items@) == log_views(old(app).log.items@).push(
            (LogLevel::Warn, message@),
        ),
        *final(app) == (App { log: final(app).log, ..*old(app) }),
        final(app).wf(),
{
    app.push_log(LogEntry::warn(message));
    assert(app.log.items.len() == app.log.items@.len());
    assert(log_views(app.log.items@) =~= log_views(old(app).log.items@).push(
        (LogLevel::Warn, message@),
    ));
}

/// Add an error to the log.
pub fn log_error(app: &mut App, message: String)
    requires
        old(app).wf(),
    ensures
        stays_put(old(app).log, final(app).log),
        final(app).log.items@.len() == old(app).log.items@.len() + 1,
        log_views(final(app).log.items@) == log_views(old(app).log.items@).push(
            (LogLevel::Error, message@),
        ),
        *final(app) == (App { log: final(app).log, ..*old(app) }),
        final(app).wf(),
{
    app.push_log(LogEntry::error(message));
    assert(app.log.items.len() == app.log.items@.len());
    assert(log_views(app.log.items@) =~= log_views(old(app).log.items@).push(
        (LogLevel::Error, message@),
    ));
}

/// Whether `after` is `before` with one more entry in its log.
pub open spec fn noted(before: App, after: App, level: LogLevel, message: Seq<char>) -> bool {
    &&& stays_put(before.log, after.log)
    &&& log_views(after.log.items@) == log_views(before.log.items@).push((level, message))
    &&& after == (App { log: after.log, ..before })
}

/// What resuming a session asks for.
#[derive(Debug, PartialEq, Eq)]
pub struct Resume {
    pub id: String,
    pub launch: LaunchPolicy,
}

/// What resuming this screen's session asks for, where there is one. Where
/// there is none, that is logged.
pub fn resume(app: &mut App) -> (r: Option<Resume>)
    requires
        old(app).wf(),
    ensures
        match r {
            Some(resume) => old(app).session_id@.len() > 0 && resume.id == old(app).session_id
                && resume.launch@ == old(app).launch.interaction@ && *final(app) == *old(app),
            None => old(app).session_id@.len() == 0 && noted(
                *old(app),
                *final(app),
                LogLevel::Warn,
                "not sent: no Session to resume"@,
            ),
        },
        final(app).wf(),
{
    if app.session_id.as_str().is_empty() {
        log_warn(app, "not sent: no Session to resume".to_owned());
        return None;
    }
    Some(Resume { id: app.session_id.clone(), launch: app.launch.interaction.copied() })
}

/// Hand back what became of resuming a session. The message is then to be sent
/// to it; where it failed, the message returns to its box.
pub fn resumed(
    app: &mut App,
    live: &mut Live,
    result: Result<SessionInfo, String>,
    message: String,
    contract: Option<Contract>,
) -> (r: Option<Turn>)
    requires
        old(app).wf(),
    ensures
        match result {
            Ok(info) => {
                &&& r == Some(Turn { message, selection: old(app).selection, contract })
                &&& *final(live) == (Live::Running {
                    session_id: info.id,
                    cursor: info.updates_after,
                })
                &&& stays_put(old(app).log, final(app).log)
                &&& log_views(final(app).log.items@) == log_views(old(app).log.items@).push(
                    (LogLevel::Info, "resumed with provider-native context"@),
                )
                &&& final(app).outbox.queued@ == old(app).outbox.queued@ + info.queued@
                &&& *final(app) == (App {
                    log: final(app).log,
                    outbox: Outbox { queued: final(app).outbox.queued, ..old(app).outbox },
                    ..on_session(*old(app), info)
                })
            },
            Err(error) => {
                &&& r is None
                &&& *final(live) == *old(live)
                &&& stays_put(old(app).log, final(app).log)
                &&& log_views(final(app).log.items@) == log_views(old(app).log.items@).push(
                    (
                        LogLevel::Error,
                        "could not resume Session "@ + old(app).session_id@ + ": "@ + error@,
                    ),
                )
                &&& final(app).composer@ == old(app).composer@.edited(message@)
                &&& *final(app) == (App {
                    composer: final(app).composer,
                    log: final(app).log,
                    ..*old(app)
                })
            },
        },
        final(app).wf(),
{
    match result {
        Ok(info) => {
            app.session_name = info.name;
            app.workspace.enter(info.workspace);
            app.launch.record(info.driva);
            log_info(app, "resumed with provider-native context".to_owned());
            app.outbox.queue_all(info.queued);
            let id = info.id.clone();
            app.session_id = info.id;
            app.activity.status = Status::Running;
            *live = Live::Running { session_id: id, cursor: info.updates_after };
            Some(Turn { message, selection: app.selection.copied(), contract })
        },
        Err(error) => {
            log_error(
                app,
                "could not resume Session ".to_owned().concat(app.session_id.as_str()).concat(
                    ": ",
                ).concat(error.as_str()),
            );
            app.set_input(message);
            None
        },
    }
}

/// Hand back what became of sending the message that resumed a session.
pub fn sent(app: &mut App, result: Result<(), String>)
    requires
        old(app).wf(),
    ensures
        match result {
            Ok(()) => *final(app) == *old(app),
            Err(error) => noted(
                *old(app),
                *final(app),
                LogLevel::Error,
                "send failed: "@ + error@,
            ),
        },
        final(app).wf(),
{
    if let Err(error) = result {
        log_error(app, "send failed: ".to_owned().concat(error.as_str()));
    }
}

// --- Stopping and branching --------------------------------------------------

/// The interaction to pause, where one is live. Without one the list has the
/// keys.
pub fn pause_interaction(app: &mut App, live: &Live) -> (r: Option<String>)
    ensures
        match *live {
            Live::Running { session_id, .. } => r == Some(session_id) && *final(app) == *old(app),
            _ => r is None && *final(app) == (App { focus: Focus::List, ..*old(app) }),
        },
        old(app).wf() ==> final(app).wf(),
{
    match live {
        Live::Running { session_id, .. } => Some(session_id.clone()),
        _ => {
            app.enter_list();
            None
        },
    }
}

/// What is logged of an interaction that was paused.
pub open spec fn paused_words(cleared: nat) -> Seq<char> {
    if cleared == 0 {
        "interaction paused; send a new message to start again"@
    } else {
        "interaction paused; cleared "@ + decimal(cleared)
            + " queued message(s); send a new message to start again"@
    }
}

/// Hand back what became of pausing an interaction and of clearing its queue.
/// Once paused, its queue is empty and the next message resumes it.
pub fn paused(
    app: &mut App,
    live: &mut Live,
    pause: Result<(), String>,
    clear: Result<(), String>,
)
    requires
        old(app).wf(),
    ensures
        match pause {
            Err(error) => *final(live) == *old(live) && noted(
                *old(app),
                *final(app),
                LogLevel::Error,
                "pause failed: "@ + error@,
            ),
            Ok(()) => {
                let before = log_views(old(app).log.items@);
                &&& *final(live) == Live::Viewing
                &&& final(app).outbox.queued@ == Seq::<QueuedMessage>::empty()
                &&& stays_put(old(app).log, final(app).log)
                &&& log_views(final(app).log.items@) == (match clear {
                    Err(error) => before.push(
                        (
                            LogLevel::Error,
                            "could not clear the durable message queue: "@ + error@,
                        ),
                    ),
                    Ok(()) => before,
                }).push((LogLevel::Info, paused_words(old(app).outbox.queued@.len())))
                &&& *final(app) == stopped(
                    App {
                        log: final(app).log,
                        outbox: Outbox { queued: final(app).outbox.queued, ..old(app).outbox },
                        ..*old(app)
                    },
                )
            },
        },
        final(app).wf(),
{
    match pause {
        Err(error) => log_error(app, "pause failed: ".to_owned().concat(error.as_str())),
        Ok(()) => {
            if let Err(error) = clear {
                log_error(
                    app,
                    "could not clear the durable message queue: ".to_owned().concat(
                        error.as_str(),
                    ),
                );
            }
            let cleared = app.outbox.clear_queued();
            let message = if cleared == 0 {
                "interaction paused; send a new message to start again".to_owned()
            } else {
                "interaction paused; cleared ".to_owned().concat(
                    number(cleared as u64).as_str(),
                ).concat(" queued message(s); send a new message to start again")
            };
            log_info(app, message);
            mark_stopped(app, live);
        },
    }
}

/// The time of the wire line behind the selected entry, up to which a branch
/// takes the history; the whole of it while the list follows, or where no line
/// is known.
pub open spec fn branch_time(app: App) -> Option<u64> {
    match app.selected_line() {
        Some(line) => if line < app.raw.lines@.len() {
            Some(app.raw.lines@[line as int].at_ms)
        } else {
            None
        },
        None => None,
    }
}

/// Up to when a branch of this session takes its history.
pub fn branch_session(app: &App) -> (r: Option<u64>)
    ensures
        r == branch_time(*app),
{
    if app.timeline.follow {
        return None;
    }
    match app.timeline.selected_entry() {
        Some(entry) => match entry.raw_index {
            Some(line) => match app.raw.get(line) {
                Some(line) => Some(line.at_ms),
                None => None,
            },
            None => None,
        },
        None => None,
    }
}

/// Hand back what became of branching: the branch's id, and its name where it
/// has one. The branch is then opened.
pub fn branched(app: &mut App, result: Result<(String, Option<String>), String>)
    requires
        old(app).wf(),
    ensures
        match result {
            Ok((id, name)) => noted(
                App { request: Some(Request::OpenSession(id)), ..*old(app) },
                *final(app),
                LogLevel::Info,
                "branched to session "@ + match name {
                    Some(name) => name@,
                    None => id@,
                },
            ),
            Err(error) => noted(
                *old(app),
                *final(app),
                LogLevel::Error,
                "branch failed: "@ + error@,
            ),
        },
        final(app).wf(),
{
    match result {
        Ok((id, name)) => {
            let message = "branched to session ".to_owned().concat(
                match &name {
                    Some(name) => name.as_str(),
                    None => id.as_str(),
                },
            );
            log_info(app, message);
            app.ask(Request::OpenSession(id));
        },
        Err(error) => log_error(app, "branch failed: ".to_owned().concat(error.as_str())),
    }
}

/// The interaction to interrupt, where one is live. Where none is, that is
/// logged.
pub fn interrupt_interaction(app: &mut App, live: &Live) -> (r: Option<String>)
    requires
        old(app).wf(),
    ensures
        match *live {
            Live::Running { session_id, .. } => r == Some(session_id) && *final(app) == *old(app),
            _ => r is None && noted(
                *old(app),
                *final(app),
                LogLevel::Warn,
                "no live interaction to interrupt"@,
            ),
        },
        final(app).wf(),
{
    match live {
        Live::Running { session_id, .. } => Some(session_id.clone()),
        _ => {
            log_warn(app, "no live interaction to interrupt".to_owned());
            None
        },
    }
}

/// Hand back what became of interrupting an interaction.
pub fn interrupted(app: &mut App, result: Result<(), String>)
    requires
        old(app).wf(),
    ensures
        match result {
            Ok(()) => noted(*old(app), *final(app), LogLevel::Info, "interrupt requested"@),
            Err(error) => noted(
                *old(app),
                *final(app),
                LogLevel::Error,
                "interrupt failed: "@ + error@,
            ),
        },
        final(app).wf(),
{
    match result {
        Ok(()) => log_info(app, "interrupt requested".to_owned()),
        Err(error) => log_error(app, "interrupt failed: ".to_owned().concat(error.as_str())),
    }
}

// --- Plans -------------------------------------------------------------------

/// What a plan of the next launch is asked for.
#[derive(Debug, PartialEq, Eq)]
pub struct PlanAsked {
    pub selection: Selection,
    /// This interaction's own policy. The server adds the Workspace's.
    pub launch: LaunchPolicy,
}

/// What is to be asked about the sandbox of the next launch, where it is to be
/// asked.
pub fn plan_to_ask(app: &App) -> (r: Option<PlanAsked>)
    ensures
        match r {
            Some(plan) => can_edit(app.activity.status) && app.launch.stale(app.selection@)
                && plan.selection == app.selection && plan.launch@ == app.launch.interaction@,
            None => !(can_edit(app.activity.status) && app.launch.stale(app.selection@)),
        },
{
    if !launch::wants_plan(app) {
        return None;
    }
    Some(
        PlanAsked {
            selection: app.selection.copied(),
            launch: app.launch.interaction.copied(),
        },
    )
}

/// Why a plan could not be had: in short for the operator, and in full.
#[derive(Debug, PartialEq, Eq)]
pub struct Refusal {
    pub brief: String,
    pub full: String,
}

/// Hand back the sandbox of the next launch, or why it is not known. Either way
/// it is not asked for again until what it depends on changes.
pub fn ensure_driva_plan(app: &mut App, result: Result<DrivaOptions, Refusal>)
    requires
        old(app).wf(),
    ensures
        final(app).launch.plan_key matches Some(key) && key.0 == old(app).selection && key.1@
            == old(app).launch.in_effect(),
        match result {
            Ok(options) => *final(app) == (App {
                launch: Launch {
                    driva: Some(options),
                    planned: true,
                    plan_key: final(app).launch.plan_key,
                    ..old(app).launch
                },
                ..*old(app)
            }),
            Err(refusal) => {
                &&& final(app).notices.said() == old(app).notices.said().push(
                    "launch policy not applied: "@ + refusal.brief@,
                )
                &&& stays_put(old(app).log, final(app).log)
                &&& log_views(final(app).log.items@) == log_views(old(app).log.items@).push(
                    (
                        LogLevel::Warn,
                        "could not describe the sandbox a new interaction would launch in: "@
                            + refusal.full@,
                    ),
                )
                &&& *final(app) == (App {
                    launch: Launch { plan_key: final(app).launch.plan_key, ..old(app).launch },
                    notices: Notices { messages: final(app).notices.messages, ..old(app).notices },
                    log: final(app).log,
                    ..*old(app)
                })
            },
        },
        final(app).wf(),
{
    let selection = app.selection.copied();
    let effective = app.launch.effective();
    match result {
        Ok(options) => app.launch.plan(selection, effective, Some(options)),
        Err(refusal) => {
            app.launch.plan(selection, effective, None);
            app.show_action_message(
                "launch policy not applied: ".to_owned().concat(refusal.brief.as_str()),
            );
            log_warn(
                app,
                "could not describe the sandbox a new interaction would launch in: ".to_owned().concat(
                    refusal.full.as_str(),
                ),
            );
        },
    }
}

/// A plan that was answered, however it was answered, is not asked for again
/// while nothing it depends on has changed.
pub proof fn law_an_answered_plan_is_not_asked_for_again(app: App)
    requires
        app.launch.plan_key matches Some(key) && key.0@ == app.selection@ && key.1@
            == app.launch.in_effect(),
    ensures
        !app.launch.stale(app.selection@),
{
}

// --- Updates -----------------------------------------------------------------

/// Whether an update leads from one screen to another.
pub open spec fn applies(before: App, arrived: Arrived, after: App) -> bool {
    match arrived.update {
        InteractionUpdate::Event(event) => ingests(before, event, arrived.arrival, after),
        InteractionUpdate::Raw(line) => before.raw.grows(line, after.raw) && after == (App {
            raw: after.raw,
            ..before
        }),
        InteractionUpdate::Log(entry) => logged(before, after, entry),
        InteractionUpdate::Quota(reading) => before.notes_quota(
            reading,
            arrived.description,
            after,
        ),
        InteractionUpdate::WorkingDirectoryChanged(directory) => after == (App {
            workspace: Location { directory: Some(directory), ..before.workspace },
            ..before
        }),
        InteractionUpdate::Ended(end) => after == before.ended(end),
    }
}

/// Apply one update to the screen.
pub fn apply_update(app: &mut App, arrived: Arrived)
    requires
        old(app).wf(),
        old(app).activity.events < u64::MAX,
    ensures
        applies(*old(app), arrived, *final(app)),
        final(app).activity.events <= old(app).activity.events + 1,
        final(app).catalog == old(app).catalog,
        final(app).wf(),
{
    match arrived.update {
        InteractionUpdate::Event(event) => app.push_event(event, arrived.arrival),
        InteractionUpdate::Raw(line) => app.raw.push(line),
        InteractionUpdate::Log(entry) => app.push_log(entry),
        InteractionUpdate::Quota(reading) => app.note_quota(reading, arrived.description),
        InteractionUpdate::WorkingDirectoryChanged(directory) => {
            app.workspace.change_directory(directory);
        },
        InteractionUpdate::Ended(end) => app.on_ended(end),
    }
}

/// Whether these updates, one after another, lead from one screen to another.
pub open spec fn replayed(start: App, updates: Seq<Arrived>, end: App) -> bool
    decreases updates.len(),
{
    if updates.len() == 0 {
        end == start
    } else {
        exists|before: App|
            replayed(start, updates.drop_last(), before) && #[trigger] applies(
                before,
                updates.last(),
                end,
            )
    }
}

proof fn lemma_replayed_step(start: App, updates: Seq<Arrived>, before: App, end: App)
    requires
        updates.len() > 0,
        replayed(start, updates.drop_last(), before),
        applies(before, updates.last(), end),
    ensures
        replayed(start, updates, end),
{
}

/// Apply updates to the screen, one after another.
pub fn apply_updates(app: &mut App, updates: Vec<Arrived>)
    requires
        old(app).wf(),
        old(app).activity.events + updates@.len() <= u64::MAX,
    ensures
        replayed(*old(app), updates@, *final(app)),
        final(app).wf(),
{
    let ghost start = *app;
    let ghost all = updates@;
    let mut rest = updates;
    let ghost mut done: int = 0;
    assert(all.take(0) =~= Seq::<Arrived>::empty());
    while rest.len() > 0
        invariant
            0 <= done <= all.len(),
            rest@ == all.skip(done),
            app.wf(),
            app.activity.events <= start.activity.events + done,
            start.activity.events + all.len() <= u64::MAX,
            replayed(start, all.take(done), *app),
        decreases rest@.len(),
    {
        let arrived = rest.remove(0);
        let ghost before = *app;
        apply_update(app, arrived);
        proof {
            assert(all.skip(done).remove(0) =~= all.skip(done + 1));
            assert(all.take(done + 1).drop_last() =~= all.take(done));
            assert(all.take(done + 1).last() == arrived);
            lemma_replayed_step(start, all.take(done + 1), before, *app);
            done = done + 1;
        }
    }
    assert(all.take(all.len() as int) =~= all);
}

/// Whether this is the screen of an interaction before any of its updates.
pub open spec fn opened_on(catalog: Catalog, interaction: InteractionSummary, start: App) -> bool {
    exists|blank: App| #[trigger]
        blank.is_new(catalog, interaction.selection, interaction.id) && blank.activity
            == Activity::fresh() && start == (App {
            session_name: interaction.name,
            workspace: Location {
                id: Some(interaction.workspace_id),
                root: Some(interaction.workspace),
                ..blank.workspace
            },
            launch: Launch { driva: Some(interaction.driva), planned: false, plan_key: None, ..blank.launch },
            ..blank
        })
}

/// How an attached interaction is going: as its summary says while it takes
/// messages, and otherwise stopped, unless it ended.
pub open spec fn attached_activity(replayed: Activity, snapshot: InteractionSnapshot) -> Activity {
    if snapshot.interaction.accepting {
        Activity {
            background_work: snapshot.background_work,
            status: Status::of_activity(snapshot.interaction.activity),
            ..replayed
        }
    } else if replayed.status is Ended {
        replayed
    } else {
        Activity { status: Status::Stopped, ..replayed }
    }
}

/// Whether a screen is that of an interaction after the updates of a snapshot,
/// on its last entry.
pub open spec fn shows_snapshot(catalog: Catalog, snapshot: InteractionSnapshot, app: App) -> bool {
    exists|start: App, end: App| #[trigger]
        opened_on(catalog, snapshot.interaction, start) && #[trigger] replayed(
            start,
            snapshot.updates@,
            end,
        ) && {
            let settled = end.at(end.timeline.last());
            &&& app.outbox.queued@ == settled.outbox.queued@ + snapshot.queued@
            &&& app == (App {
                outbox: Outbox { queued: app.outbox.queued, ..settled.outbox },
                activity: attached_activity(settled.activity, snapshot),
                ..settled
            })
        }
}

/// The screen of an interaction, from a snapshot of it, and what stands behind
/// it.
pub fn app_from_interaction_snapshot(catalog: Catalog, snapshot: InteractionSnapshot) -> (r: (
    App,
    Live,
))
    requires
        catalog.wf(),
    ensures
        shows_snapshot(catalog, snapshot, r.0),
        r.1 == attached(
            snapshot.interaction.id,
            snapshot.next,
            snapshot.interaction.accepting,
        ),
        r.0.wf(),
{
    let ghost given = snapshot;
    let InteractionSnapshot {
        request_id: _,
        interaction,
        background_work,
        updates,
        next,
        queued,
        scope: _,
    } = snapshot;
    let id = interaction.id.clone();
    let accepting = interaction.accepting;
    let activity = interaction.activity;
    let mut app = App::new(catalog, interaction.selection, interaction.id);
    let ghost blank = app;
    app.session_name = interaction.name;
    app.workspace.id = Some(interaction.workspace_id);
    app.workspace.enter(interaction.workspace);
    app.launch.record(interaction.driva);
    let ghost start = app;
    assert(blank.is_new(catalog, given.interaction.selection, given.interaction.id));
    assert(opened_on(catalog, given.interaction, start));
    let count: usize = updates.len();
    apply_updates(&mut app, updates);
    let ghost end = app;
    app.select_last();
    app.outbox.queue_all(queued);
    if accepting {
        app.activity.sync_to_interaction(activity, background_work);
    } else if app.activity.status.is_active() {
        app.activity.status = Status::Stopped;
    }
    assert(opened_on(catalog, given.interaction, start) && replayed(
        start,
        given.updates@,
        end,
    ));
    (app, attached_live(id, next, accepting))
}

/// Whether a record of a journal leads from one screen to another: its wire
/// line, and its event unless nothing is known of it.
pub open spec fn replays_record(
    before: App,
    event: AgentEvent,
    arrival: Arrival,
    line: RawLine,
    after: App,
) -> bool {
    if event is Unknown {
        before.raw.grows(line, after.raw) && after == (App { raw: after.raw, ..before })
    } else {
        exists|raw: RawView| #[trigger]
            before.raw.grows(line, raw) && ingests(App { raw, ..before }, event, arrival, after)
    }
}

/// Whether the first `n` records of a journal lead from one screen to another.
pub open spec fn replays_journal(
    start: App,
    events: Seq<(AgentEvent, Arrival)>,
    lines: Seq<RawLine>,
    n: nat,
    end: App,
) -> bool
    decreases n,
{
    if n == 0 {
        end == start
    } else {
        exists|before: App|
            replays_journal(start, events, lines, (n - 1) as nat, before) && #[trigger] replays_record(
                before,
                events[n - 1].0,
                events[n - 1].1,
                lines[n - 1],
                end,
            )
    }
}

/// How many records there are of which both the event and the line are known.
pub open spec fn paired(events: Seq<(AgentEvent, Arrival)>, lines: Seq<RawLine>) -> nat {
    if events.len() < lines.len() {
        events.len()
    } else {
        lines.len()
    }
}

proof fn lemma_journal_step(
    start: App,
    events: Seq<(AgentEvent, Arrival)>,
    lines: Seq<RawLine>,
    n: nat,
    before: App,
    end: App,
)
    requires
        n < events.len(),
        n < lines.len(),
        replays_journal(start, events, lines, n, before),
        replays_record(before, events[n as int].0, events[n as int].1, lines[n as int], end),
    ensures
        replays_journal(start, events, lines, n + 1, end),
{
    assert((n + 1 - 1) as nat == n);
}

/// Whether this is the screen of a stored session before any of its records.
pub open spec fn opened_stored(catalog: Catalog, summary: StoredSession, start: App) -> bool {
    exists|blank: App| #[trigger]
        blank.is_new(catalog, summary.selection, summary.id) && blank.activity == Activity::fresh()
            && start == (App {
            session_name: summary.name,
            workspace: Location { id: Some(summary.workspace_id), ..blank.workspace },
            ..blank
        })
}

/// Whether a screen is that of a stored session, replayed from its journal and
/// ended.
pub open spec fn shows_stored(
    catalog: Catalog,
    summary: StoredSession,
    events: Seq<(AgentEvent, Arrival)>,
    lines: Seq<RawLine>,
    app: App,
) -> bool {
    exists|start: App, end: App| #[trigger]
        opened_stored(catalog, summary, start) && #[trigger] replays_journal(
            start,
            events,
            lines,
            paired(events, lines),
            end,
        ) && app == end.ended(InteractionEnd { exit_code: None, error: None })
}

fn replay_one(app: &mut App, event: AgentEvent, arrival: Arrival, line: RawLine)
    requires
        old(app).wf(),
        old(app).activity.events < u64::MAX,
    ensures
        replays_record(*old(app), event, arrival, line, *final(app)),
        final(app).activity.events <= old(app).activity.events + 1,
        final(app).wf(),
{
    app.raw.push(line);
    let ghost raw = app.raw;
    let known = match &event {
        AgentEvent::Unknown { .. } => false,
        _ => true,
    };
    if known {
        assert(old(app).raw.grows(line, raw));
        app.push_event(event, arrival);
    }
}

/// The screen of a stored session, replayed from its journal.
pub fn open_stored(
    catalog: Catalog,
    summary: StoredSession,
    events: Vec<(AgentEvent, Arrival)>,
    raw: Vec<RawLine>,
) -> (r: (App, Live))
    requires
        catalog.wf(),
    ensures
        shows_stored(catalog, summary, events@, raw@, r.0),
        r.1 == Live::Viewing,
        r.0.wf(),
{
    let ghost given = summary;
    let ghost all_events = events@;
    let ghost all_lines = raw@;
    let mut app = App::new(catalog, summary.selection, summary.id);
    let ghost blank = app;
    app.session_name = summary.name;
    app.workspace.id = Some(summary.workspace_id);
    let ghost start = app;
    let mut events = events;
    let mut lines = raw;
    let ghost mut done: int = 0;
    assert(all_events.len() == events.len());
    while events.len() > 0 && lines.len() > 0
        invariant
            0 <= done <= all_events.len(),
            done <= all_lines.len(),
            all_events.len() <= usize::MAX,
            events@ == all_events.skip(done),
            lines@ == all_lines.skip(done),
            app.wf(),
            app.activity.events <= done,
            replays_journal(start, all_events, all_lines, done as nat, app),
        decreases events@.len(),
    {
        let (event, arrival) = events.remove(0);
        let line = lines.remove(0);
        let ghost before = app;
        replay_one(&mut app, event, arrival, line);
        proof {
            assert(all_events.skip(done).remove(0) =~= all_events.skip(done + 1));
            assert(all_lines.skip(done).remove(0) =~= all_lines.skip(done + 1));
            lemma_journal_step(start, all_events, all_lines, done as nat, before, app);
            done = done + 1;
        }
    }
    let ghost end = app;
    app.on_ended(InteractionEnd { exit_code: None, error: None });
    proof {
        assert(done == paired(all_events, all_lines));
        assert(blank.is_new(catalog, given.selection, given.id));
        assert(opened_stored(catalog, given, start) && replays_journal(
            start,
            all_events,
            all_lines,
            paired(all_events, all_lines),
            end,
        ));
    }
    (app, Live::Viewing)
}

/// The screen of a session that was launched before there was a screen.
pub fn launch_live_session(catalog: Catalog, launch: &LaunchPolicy, info: SessionInfo) -> (r: (
    App,
    Live,
))
    requires
        catalog.wf(),
    ensures
        r.0.launch.interaction@ == launch@,
        log_views(r.0.log.items@) == seq![(LogLevel::Info, "journal: "@ + info.journal_path@)],
        r.0.log.back == 0,
        r.0.outbox.queued@ == info.queued@,
        r.0.activity == Activity::fresh(),
        exists|blank: App| #[trigger]
            blank.is_new(catalog, info.selection, info.id) && r.0 == (App {
                session_name: info.name,
                workspace: Location {
                    id: Some(info.workspace_id),
                    root: Some(info.workspace),
                    ..Location::nowhere()
                },
                launch: Launch {
                    interaction: r.0.launch.interaction,
                    driva: Some(info.driva),
                    ..blank.launch
                },
                log: r.0.log,
                outbox: Outbox { queued: r.0.outbox.queued, ..blank.outbox },
                activity: r.0.activity,
                ..blank
            }),
        r.1 == (Live::Running { session_id: info.id, cursor: info.updates_after }),
        r.0.wf(),
{
    let id = info.id.clone();
    let mut app = App::new(catalog, info.selection, info.id);
    assert(app.is_new(catalog, info.selection, info.id));
    app.launch.interaction = launch.copied();
    app.session_name = info.name;
    app.workspace.id = Some(info.workspace_id);
    app.workspace.enter(info.workspace);
    app.launch.record(info.driva);
    let ghost before = app.log.items@;
    log_info(&mut app, "journal: ".to_owned().concat(info.journal_path.as_str()));
    assert(log_views(before) =~= Seq::empty());
    assert(log_views(app.log.items@) =~= seq![
        (LogLevel::Info, "journal: "@ + info.journal_path@),
    ]);
    let ghost empty = app.outbox.queued@;
    app.outbox.queue_all(info.queued);
    assert(empty + info.queued@ =~= info.queued@);
    (app, Live::Running { session_id: id, cursor: info.updates_after })
}

/// What a listed interaction with this id means for opening the session: one is
/// attached to where it is live, and otherwise the journal is read.
pub fn open_session(interactions: &Vec<InteractionSummary>, session_id: &str) -> (r: Option<usize>)
    ensures
        match r {
            Some(i) => i == first_with_id(interactions@, session_id@) && i < interactions@.len()
                && interactions@[i as int].id@ == session_id@,
            None => !listed(interactions@, session_id@),
        },
{
    find_id(interactions, session_id)
}

} // verus!
