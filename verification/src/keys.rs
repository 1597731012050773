//! What keys mean: in the event list and the other views, in the message box,
//! and in the prompts over them.

use vstd::prelude::*;
use vstd::view::View as _;

use crate::activity::{Activity, Status};
use crate::answer::AnswerView;
use crate::app::{log_views, stays_put, told, App, Focus, Request, Surroundings, View};
use crate::composer::drop_last_char;
use crate::composer::without_last_word;
use crate::files::FilesView;
use crate::insert;
use crate::insert::{Listed, Outcome, Prompt};
use crate::key::{Key, KeyCode};
use crate::launch;
use crate::launch::{
    can_edit, edit_refused, mount_removed, network_cycled, prompt_confirmed, promoted,
    standalone_toggled, Launch, LaunchScope,
};
use crate::launcher::Launcher;
use crate::mount::{label, mount_label};
use crate::notes;
use crate::notes::{Editor, Notes, Scope};
use crate::notices::Notices;
use crate::outbox::Outbox;
use crate::preview::Preview;
use crate::protocol::{Contract, LaunchPolicy, LogLevel, QueuedMessage};
use crate::raw::RawView;
use crate::references::References;
use crate::scroll::{Scroll, SCROLL_PAGE};
use crate::session;
use crate::session::{
    branch_time, creates, log_error, log_warn, next_shape, noted, Creation, Live, Resume, Turn,
};
use crate::tail::Tail;
use crate::text::{
    control, decimal, is_control, number, starts, strip_start, trim, trimmed, view_of,
};
use crate::timeline::{Step, Timeline};

verus! {

// --- The views ---------------------------------------------------------------

/// What a key asks for while the list has the keys.
#[derive(Clone, Copy, Debug, PartialEq, Eq, Structural)]
pub enum Command {
    Ignored,
    // Everywhere.
    Quit,
    Interrupt,
    Pause,
    Branch,
    Shell,
    Write,
    Raw,
    Show(View),
    Quota,
    Files,
    Answer,
    Launcher,
    Interactions,
    Workspaces,
    Worktrees,
    Sessions,
    Reset,
    NewSession,
    Notes,
    Copy,
    // Events.
    ConversationOnly,
    PreviewMode,
    PreviewTarget,
    PreviewPageDown,
    PreviewPageUp,
    PreviewLineDown,
    PreviewLineUp,
    PreviewPanel,
    NextDetail,
    PrevDetail,
    NextLine,
    PrevLine,
    First,
    Last,
    Expand,
    ExpandOnly,
    BeginFold,
    ExpandAll,
    CollapseAll,
    Minor,
    // Wire lines.
    RawPageDown,
    RawPageUp,
    RawNext,
    RawPrev,
    RawFirst,
    RawLast,
    // The log, the quota log and the transcript.
    LogDown,
    LogUp,
    LogTop,
    LogBottom,
    QuotaDown,
    QuotaUp,
    TranscriptDown,
    TranscriptUp,
    TranscriptTop,
    TranscriptEnd,
    // The launch policy.
    OtherLayer,
    Network,
    Standalone,
    Templates,
    AddMount,
    GitHistory,
    RemoveMount,
    SavePolicy,
    Promote,
    NextMount,
    PrevMount,
    // The answer.
    Reread(Option<Contract>),
    EditAnswer,
    AnswerNext,
    AnswerPrev,
    AnswerFirst,
    AnswerLast,
    // Files.
    EditFile,
    FileNext,
    FilePrev,
    FileNextEntry,
    FilePrevEntry,
    FileFirst,
    FileLast,
    FileScope,
}

/// What a key means in every view, where it means the same in all of them. Two
/// keep their letters for something else: the preview `i`, the files `a`.
pub open spec fn anywhere(view: View, code: KeyCode) -> Option<Command> {
    match code {
        KeyCode::Char('q') => Some(Command::Quit),
        KeyCode::Char('s') => Some(Command::Interrupt),
        KeyCode::Char('S') => Some(Command::Pause),
        KeyCode::Char('b') => Some(Command::Branch),
        KeyCode::Char('!') => Some(Command::Shell),
        KeyCode::Char('i') => if view != View::Preview {
            Some(Command::Write)
        } else {
            None
        },
        KeyCode::Char('r') => Some(Command::Raw),
        KeyCode::Char('l') => Some(Command::Show(View::Log)),
        KeyCode::Char('Q') => Some(Command::Quota),
        KeyCode::Char('t') => Some(Command::Show(View::Transcript)),
        KeyCode::Char('d') => Some(Command::Show(View::Driva)),
        KeyCode::Char('f') => Some(Command::Files),
        KeyCode::Char('X') => Some(Command::Answer),
        KeyCode::Char('P') => Some(Command::Show(View::Preview)),
        KeyCode::Char('L') => Some(Command::Launcher),
        KeyCode::Char('a') => if view != View::Files {
            Some(Command::Interactions)
        } else {
            None
        },
        KeyCode::Char('V') => Some(Command::Workspaces),
        KeyCode::Char('W') => Some(Command::Worktrees),
        KeyCode::Char('A') => Some(Command::Sessions),
        KeyCode::Char('N') => Some(Command::Reset),
        KeyCode::Char('n') => Some(Command::NewSession),
        KeyCode::Char('E') => Some(Command::Notes),
        _ => None,
    }
}

/// What a key means in the event list.
pub open spec fn in_events(preview_open: bool, code: KeyCode) -> Command {
    match code {
        KeyCode::Char('c') => Command::ConversationOnly,
        KeyCode::Char('v') => if preview_open {
            Command::PreviewMode
        } else {
            Command::Ignored
        },
        KeyCode::Char('C') => if preview_open {
            Command::PreviewTarget
        } else {
            Command::Ignored
        },
        KeyCode::PageDown => if preview_open {
            Command::PreviewPageDown
        } else {
            Command::Ignored
        },
        KeyCode::PageUp => if preview_open {
            Command::PreviewPageUp
        } else {
            Command::Ignored
        },
        KeyCode::Char('J') | KeyCode::Down => Command::NextDetail,
        KeyCode::Char('K') | KeyCode::Up => Command::PrevDetail,
        KeyCode::Char('j') => Command::NextLine,
        KeyCode::Char('k') => Command::PrevLine,
        KeyCode::Char(' ') | KeyCode::Enter | KeyCode::Char('o') => Command::Expand,
        KeyCode::Char('O') => Command::ExpandOnly,
        KeyCode::Char('g') => Command::First,
        KeyCode::Char('G') => Command::Last,
        KeyCode::Char('z') => Command::BeginFold,
        KeyCode::Char('m') => Command::Minor,
        KeyCode::Char('p') => Command::PreviewPanel,
        KeyCode::Char('y') => Command::Copy,
        _ => Command::Ignored,
    }
}

/// What a key means among the wire lines.
pub open spec fn in_raw(code: KeyCode) -> Command {
    match code {
        KeyCode::PageDown => Command::RawPageDown,
        KeyCode::PageUp => Command::RawPageUp,
        KeyCode::Char('j') | KeyCode::Down => Command::RawNext,
        KeyCode::Char('k') | KeyCode::Up => Command::RawPrev,
        KeyCode::Char('g') => Command::RawFirst,
        KeyCode::Char('G') => Command::RawLast,
        KeyCode::Char('y') => Command::Copy,
        _ => Command::Ignored,
    }
}

/// What a key means over the launch policy.
pub open spec fn in_driva(code: KeyCode) -> Command {
    match code {
        KeyCode::Tab | KeyCode::BackTab => Command::OtherLayer,
        KeyCode::Char('w') => Command::Network,
        KeyCode::Char('I') => Command::Standalone,
        KeyCode::Char('T') => Command::Templates,
        KeyCode::Char('m') => Command::AddMount,
        KeyCode::Char('g') => Command::GitHistory,
        KeyCode::Char('x') => Command::RemoveMount,
        KeyCode::Char('D') => Command::SavePolicy,
        KeyCode::Char('U') => Command::Promote,
        KeyCode::Char('j') | KeyCode::Down => Command::NextMount,
        KeyCode::Char('k') | KeyCode::Up => Command::PrevMount,
        _ => Command::Ignored,
    }
}

/// What a key means over the answer.
pub open spec fn in_answer(code: KeyCode) -> Command {
    match code {
        KeyCode::Char('T') => Command::Reread(Some(Contract::Text)),
        KeyCode::Char('L') => Command::Reread(Some(Contract::Lines)),
        KeyCode::Char('F') => Command::Reread(Some(Contract::Files)),
        KeyCode::Char('J') => Command::Reread(Some(Contract::Json)),
        KeyCode::Char('R') => Command::Reread(None),
        KeyCode::Char('e') => Command::EditAnswer,
        KeyCode::Char('j') | KeyCode::Down => Command::AnswerNext,
        KeyCode::Char('k') | KeyCode::Up => Command::AnswerPrev,
        KeyCode::Char('g') => Command::AnswerFirst,
        KeyCode::Char('G') => Command::AnswerLast,
        KeyCode::Char('y') => Command::Copy,
        _ => Command::Ignored,
    }
}

/// What a key means over the files.
pub open spec fn in_files(code: KeyCode) -> Command {
    match code {
        KeyCode::Char('e') => Command::EditFile,
        KeyCode::Char('j') | KeyCode::Down => Command::FileNext,
        KeyCode::Char('k') | KeyCode::Up => Command::FilePrev,
        KeyCode::Char('J') => Command::FileNextEntry,
        KeyCode::Char('K') => Command::FilePrevEntry,
        KeyCode::Char('g') => Command::FileFirst,
        KeyCode::Char('G') => Command::FileLast,
        KeyCode::Char('a') => Command::FileScope,
        KeyCode::Char('p') => Command::PreviewPanel,
        KeyCode::Char('y') => Command::Copy,
        _ => Command::Ignored,
    }
}

/// What a key means in the full-screen preview, where the text is moved through
/// and the shifted letters change the entry.
pub open spec fn in_preview(code: KeyCode) -> Command {
    match code {
        KeyCode::Char('v') => Command::PreviewMode,
        KeyCode::Char('C') => Command::PreviewTarget,
        KeyCode::PageDown => Command::PreviewPageDown,
        KeyCode::PageUp => Command::PreviewPageUp,
        KeyCode::Char('j') => Command::PreviewLineDown,
        KeyCode::Char('k') => Command::PreviewLineUp,
        KeyCode::Char('J') | KeyCode::Down => Command::NextLine,
        KeyCode::Char('K') | KeyCode::Up => Command::PrevLine,
        KeyCode::Char('g') => Command::First,
        KeyCode::Char('G') => Command::Last,
        KeyCode::Char('y') => Command::Copy,
        _ => Command::Ignored,
    }
}

/// What a key means in the log, the quota log and the transcript.
pub open spec fn in_text(view: View, code: KeyCode) -> Command {
    match (view, code) {
        (View::Log, KeyCode::Char('j') | KeyCode::Down) => Command::LogDown,
        (View::Log, KeyCode::Char('k') | KeyCode::Up) => Command::LogUp,
        (View::Log, KeyCode::Char('g')) => Command::LogTop,
        (View::Log, KeyCode::Char('G')) => Command::LogBottom,
        (View::Quota, KeyCode::Char('j') | KeyCode::Down) => Command::QuotaDown,
        (View::Quota, KeyCode::Char('k') | KeyCode::Up) => Command::QuotaUp,
        (View::Transcript, KeyCode::Char('c')) => Command::ConversationOnly,
        (View::Transcript, KeyCode::Char('j') | KeyCode::Down) => Command::TranscriptDown,
        (View::Transcript, KeyCode::Char('k') | KeyCode::Up) => Command::TranscriptUp,
        (View::Transcript, KeyCode::Char('g')) => Command::TranscriptTop,
        (View::Transcript, KeyCode::Char('G')) => Command::TranscriptEnd,
        _ => Command::Ignored,
    }
}

/// What a key means in a view. After a fold was begun it is the second half of
/// that, and nothing else.
pub open spec fn meaning(
    view: View,
    preview_open: bool,
    pending_fold: bool,
    code: KeyCode,
) -> Command {
    if pending_fold {
        match code {
            KeyCode::Char('R') => Command::ExpandAll,
            KeyCode::Char('M') => Command::CollapseAll,
            _ => Command::Ignored,
        }
    } else {
        match anywhere(view, code) {
            Some(command) => command,
            None => match view {
                View::Events => in_events(preview_open, code),
                View::Raw => in_raw(code),
                View::Driva => in_driva(code),
                View::Answer => in_answer(code),
                View::Files => in_files(code),
                View::Preview => in_preview(code),
                _ => in_text(view, code),
            },
        }
    }
}

fn common_command(view: View, code: KeyCode) -> (r: Option<Command>)
    ensures
        r == anywhere(view, code),
{
    match code {
        KeyCode::Char('q') => Some(Command::Quit),
        KeyCode::Char('s') => Some(Command::Interrupt),
        KeyCode::Char('S') => Some(Command::Pause),
        KeyCode::Char('b') => Some(Command::Branch),
        KeyCode::Char('!') => Some(Command::Shell),
        KeyCode::Char('i') => if view != View::Preview {
            Some(Command::Write)
        } else {
            None
        },
        KeyCode::Char('r') => Some(Command::Raw),
        KeyCode::Char('l') => Some(Command::Show(View::Log)),
        KeyCode::Char('Q') => Some(Command::Quota),
        KeyCode::Char('t') => Some(Command::Show(View::Transcript)),
        KeyCode::Char('d') => Some(Command::Show(View::Driva)),
        KeyCode::Char('f') => Some(Command::Files),
        KeyCode::Char('X') => Some(Command::Answer),
        KeyCode::Char('P') => Some(Command::Show(View::Preview)),
        KeyCode::Char('L') => Some(Command::Launcher),
        KeyCode::Char('a') => if view != View::Files {
            Some(Command::Interactions)
        } else {
            None
        },
        KeyCode::Char('V') => Some(Command::Workspaces),
        KeyCode::Char('W') => Some(Command::Worktrees),
        KeyCode::Char('A') => Some(Command::Sessions),
        KeyCode::Char('N') => Some(Command::Reset),
        KeyCode::Char('n') => Some(Command::NewSession),
        KeyCode::Char('E') => Some(Command::Notes),
        _ => None,
    }
}

fn events_command(preview_open: bool, code: KeyCode) -> (r: Command)
    ensures
        r == in_events(preview_open, code),
{
    match code {
        KeyCode::Char('c') => Command::ConversationOnly,
        KeyCode::Char('v') if preview_open => Command::PreviewMode,
        KeyCode::Char('C') if preview_open => Command::PreviewTarget,
        KeyCode::PageDown if preview_open => Command::PreviewPageDown,
        KeyCode::PageUp if preview_open => Command::PreviewPageUp,
        KeyCode::Char('J') | KeyCode::Down => Command::NextDetail,
        KeyCode::Char('K') | KeyCode::Up => Command::PrevDetail,
        KeyCode::Char('j') => Command::NextLine,
        KeyCode::Char('k') => Command::PrevLine,
        KeyCode::Char(' ') | KeyCode::Enter | KeyCode::Char('o') => Command::Expand,
        KeyCode::Char('O') => Command::ExpandOnly,
        KeyCode::Char('g') => Command::First,
        KeyCode::Char('G') => Command::Last,
        KeyCode::Char('z') => Command::BeginFold,
        KeyCode::Char('m') => Command::Minor,
        KeyCode::Char('p') => Command::PreviewPanel,
        KeyCode::Char('y') => Command::Copy,
        _ => Command::Ignored,
    }
}

fn raw_command(code: KeyCode) -> (r: Command)
    ensures
        r == in_raw(code),
{
    match code {
        KeyCode::PageDown => Command::RawPageDown,
        KeyCode::PageUp => Command::RawPageUp,
        KeyCode::Char('j') | KeyCode::Down => Command::RawNext,
        KeyCode::Char('k') | KeyCode::Up => Command::RawPrev,
        KeyCode::Char('g') => Command::RawFirst,
        KeyCode::Char('G') => Command::RawLast,
        KeyCode::Char('y') => Command::Copy,
        _ => Command::Ignored,
    }
}

fn driva_command(code: KeyCode) -> (r: Command)
    ensures
        r == in_driva(code),
{
    match code {
        KeyCode::Tab | KeyCode::BackTab => Command::OtherLayer,
        KeyCode::Char('w') => Command::Network,
        KeyCode::Char('I') => Command::Standalone,
        KeyCode::Char('T') => Command::Templates,
        KeyCode::Char('m') => Command::AddMount,
        KeyCode::Char('g') => Command::GitHistory,
        KeyCode::Char('x') => Command::RemoveMount,
        KeyCode::Char('D') => Command::SavePolicy,
        KeyCode::Char('U') => Command::Promote,
        KeyCode::Char('j') | KeyCode::Down => Command::NextMount,
        KeyCode::Char('k') | KeyCode::Up => Command::PrevMount,
        _ => Command::Ignored,
    }
}

fn answer_command(code: KeyCode) -> (r: Command)
    ensures
        r == in_answer(code),
{
    match code {
        KeyCode::Char('T') => Command::Reread(Some(Contract::Text)),
        KeyCode::Char('L') => Command::Reread(Some(Contract::Lines)),
        KeyCode::Char('F') => Command::Reread(Some(Contract::Files)),
        KeyCode::Char('J') => Command::Reread(Some(Contract::Json)),
        KeyCode::Char('R') => Command::Reread(None),
        KeyCode::Char('e') => Command::EditAnswer,
        KeyCode::Char('j') | KeyCode::Down => Command::AnswerNext,
        KeyCode::Char('k') | KeyCode::Up => Command::AnswerPrev,
        KeyCode::Char('g') => Command::AnswerFirst,
        KeyCode::Char('G') => Command::AnswerLast,
        KeyCode::Char('y') => Command::Copy,
        _ => Command::Ignored,
    }
}

fn files_command(code: KeyCode) -> (r: Command)
    ensures
        r == in_files(code),
{
    match code {
        KeyCode::Char('e') => Command::EditFile,
        KeyCode::Char('j') | KeyCode::Down => Command::FileNext,
        KeyCode::Char('k') | KeyCode::Up => Command::FilePrev,
        KeyCode::Char('J') => Command::FileNextEntry,
        KeyCode::Char('K') => Command::FilePrevEntry,
        KeyCode::Char('g') => Command::FileFirst,
        KeyCode::Char('G') => Command::FileLast,
        KeyCode::Char('a') => Command::FileScope,
        KeyCode::Char('p') => Command::PreviewPanel,
        KeyCode::Char('y') => Command::Copy,
        _ => Command::Ignored,
    }
}

fn preview_command(code: KeyCode) -> (r: Command)
    ensures
        r == in_preview(code),
{
    match code {
        KeyCode::Char('v') => Command::PreviewMode,
        KeyCode::Char('C') => Command::PreviewTarget,
        KeyCode::PageDown => Command::PreviewPageDown,
        KeyCode::PageUp => Command::PreviewPageUp,
        KeyCode::Char('j') => Command::PreviewLineDown,
        KeyCode::Char('k') => Command::PreviewLineUp,
        KeyCode::Char('J') | KeyCode::Down => Command::NextLine,
        KeyCode::Char('K') | KeyCode::Up => Command::PrevLine,
        KeyCode::Char('g') => Command::First,
        KeyCode::Char('G') => Command::Last,
        KeyCode::Char('y') => Command::Copy,
        _ => Command::Ignored,
    }
}

fn text_command(view: View, code: KeyCode) -> (r: Command)
    ensures
        r == in_text(view, code),
{
    match (view, code) {
        (View::Log, KeyCode::Char('j') | KeyCode::Down) => Command::LogDown,
        (View::Log, KeyCode::Char('k') | KeyCode::Up) => Command::LogUp,
        (View::Log, KeyCode::Char('g')) => Command::LogTop,
        (View::Log, KeyCode::Char('G')) => Command::LogBottom,
        (View::Quota, KeyCode::Char('j') | KeyCode::Down) => Command::QuotaDown,
        (View::Quota, KeyCode::Char('k') | KeyCode::Up) => Command::QuotaUp,
        (View::Transcript, KeyCode::Char('c')) => Command::ConversationOnly,
        (View::Transcript, KeyCode::Char('j') | KeyCode::Down) => Command::TranscriptDown,
        (View::Transcript, KeyCode::Char('k') | KeyCode::Up) => Command::TranscriptUp,
        (View::Transcript, KeyCode::Char('g')) => Command::TranscriptTop,
        (View::Transcript, KeyCode::Char('G')) => Command::TranscriptEnd,
        _ => Command::Ignored,
    }
}

/// What a key means in a view.
pub fn command(view: View, preview_open: bool, pending_fold: bool, code: KeyCode) -> (r: Command)
    ensures
        r == meaning(view, preview_open, pending_fold, code),
{
    if pending_fold {
        return match code {
            KeyCode::Char('R') => Command::ExpandAll,
            KeyCode::Char('M') => Command::CollapseAll,
            _ => Command::Ignored,
        };
    }
    match common_command(view, code) {
        Some(command) => command,
        None => match view {
            View::Events => events_command(preview_open, code),
            View::Raw => raw_command(code),
            View::Driva => driva_command(code),
            View::Answer => answer_command(code),
            View::Files => files_command(code),
            View::Preview => preview_command(code),
            _ => text_command(view, code),
        },
    }
}

/// Whether a key over the files that a reply cites leads from one screen to
/// another. Choosing one closes the list and asks for that file. No key reaches
/// what is under it.
pub open spec fn references_keyed(before: App, code: KeyCode, after: App) -> bool {
    match before.references {
        None => after == before,
        Some(list) => match code {
            KeyCode::Char('j') | KeyCode::Down => after == (App {
                references: Some(list.down()),
                ..before
            }),
            KeyCode::Char('k') | KeyCode::Up => after == (App {
                references: Some(list.up()),
                ..before
            }),
            KeyCode::Char('g') => after == (App {
                references: Some(References { selected: 0, ..list }),
                ..before
            }),
            KeyCode::Char('G') => after == (App { references: Some(list.bottom()), ..before }),
            KeyCode::Enter => after == asks(
                App { references: None, ..before },
                Request::OpenPath(list.references@[list.selected as int].resolved),
            ),
            KeyCode::Esc | KeyCode::Char('q') => after == (App { references: None, ..before }),
            _ => after == before,
        },
    }
}

/// Take a key over the files that a reply cites.
pub fn handle_references_key(app: &mut App, code: KeyCode)
    requires
        old(app).wf(),
    ensures
        references_keyed(*old(app), code, *final(app)),
        final(app).wf(),
{
    let mut list = match app.references.take() {
        Some(list) => list,
        None => {
            return ;
        },
    };
    match code {
        KeyCode::Char('j') | KeyCode::Down => list.select_next(),
        KeyCode::Char('k') | KeyCode::Up => list.select_prev(),
        KeyCode::Char('g') => list.select_first(),
        KeyCode::Char('G') => list.select_last(),
        KeyCode::Enter => {
            app.ask(Request::OpenPath(list.selected().resolved.clone()));
            return ;
        },
        KeyCode::Esc | KeyCode::Char('q') => {
            return ;
        },
        _ => {},
    }
    app.references = Some(list);
}

/// What a key in the list leaves for others to do.
#[derive(Debug, PartialEq, Eq)]
pub enum Action {
    Nothing,
    /// Interrupt this session, and answer with [`session::interrupted`].
    Interrupt(String),
    /// Stop this session and clear its queue, and answer with
    /// [`session::paused`].
    Stop(String),
    /// Branch this session up to a time, and answer with
    /// [`session::branched`].
    Branch { session_id: String, at_ms: Option<u64> },
    /// Open a shell in this session, and answer with [`shell_opened`].
    Shell(String),
    /// Put this on the clipboard, and answer with [`copied`].
    Copy(String),
    /// Keep this policy as the default, and answer with [`policy_saved`].
    SavePolicy(LaunchPolicy),
    /// Find the checkout that this directory is in, or the one the client runs
    /// in, and where its history is, and answer with
    /// [`launch::history_found`].
    FindHistory(Option<String>),
}

/// What is left for others to do of a command.
pub open spec fn leaves(before: App, live: Live, command: Command, action: Action) -> bool {
    match command {
        Command::Interrupt => action == match live {
            Live::Running { session_id, .. } => Action::Interrupt(session_id),
            _ => Action::Nothing,
        },
        Command::Pause => action == match live {
            Live::Running { session_id, .. } => Action::Stop(session_id),
            _ => Action::Nothing,
        },
        Command::Branch => action == (Action::Branch {
            session_id: before.session_id,
            at_ms: branch_time(before),
        }),
        Command::Shell => action == match live {
            Live::Running { .. } => Action::Shell(before.session_id),
            _ => Action::Nothing,
        },
        Command::Copy => action is Copy || action is Nothing,
        Command::SavePolicy => if can_edit(before.activity.status) {
            action matches Action::SavePolicy(policy) && policy@ == before.launch.interaction@
        } else {
            action == Action::Nothing
        },
        Command::GitHistory => action == if can_edit(before.activity.status) {
            Action::FindHistory(before.workspace.root)
        } else {
            Action::Nothing
        },
        _ => action == Action::Nothing,
    }
}

/// With another preview panel.
pub open spec fn previewing(app: App, preview: Preview) -> App {
    App { preview, ..app }
}

/// With another scroll of the preview panel.
pub open spec fn scrolling(app: App, scroll: Scroll) -> App {
    App { preview: Preview { scroll, ..app.preview }, ..app }
}

/// With something asked of the event loop.
pub open spec fn asks(app: App, request: Request) -> App {
    App { request: Some(request), ..app }
}

/// With the timeline folded in some way.
pub open spec fn folds(before: App, after: App, open: spec_fn(int) -> bool) -> bool {
    after.timeline.folded_as(before.timeline, open) && after == (App {
        timeline: after.timeline,
        ..before
    })
}

/// Whether a command over the launch policy leads from one screen to another.
pub open spec fn edits(before: App, command: Command, after: App) -> bool {
    match command {
        Command::OtherLayer => told(
            App {
                launch: Launch { scope: before.launch.scope.opposite(), ..before.launch },
                ..before
            },
            after,
            match before.launch.scope.opposite() {
                LaunchScope::Workspace => "editing the Workspace policy — every launch here starts from it"@,
                LaunchScope::Interaction => "editing this interaction's own settings"@,
            },
        ),
        Command::Network => network_cycled(before, after),
        Command::Standalone => standalone_toggled(before, after),
        Command::Templates => if can_edit(before.activity.status) {
            after == asks(before, Request::Templates)
        } else {
            edit_refused(before, after)
        },
        Command::AddMount => if can_edit(before.activity.status) {
            &&& after.launch.prompt matches Some(text) && text@ == Seq::<char>::empty()
            &&& after == (App {
                launch: Launch { prompt: after.launch.prompt, ..before.launch },
                ..before
            })
        } else {
            edit_refused(before, after)
        },
        Command::RemoveMount => mount_removed(before, after),
        Command::SavePolicy | Command::GitHistory => if can_edit(before.activity.status) {
            after == before
        } else {
            edit_refused(before, after)
        },
        Command::Promote => promoted(before, after),
        Command::NextMount => after == (App { launch: before.launch.mount_after(), ..before }),
        Command::PrevMount => after == (App { launch: before.launch.mount_before(), ..before }),
        _ => after == before,
    }
}

/// Whether a command over files leads from one screen to another.
pub open spec fn walks_files(
    before: App,
    command: Command,
    around: Surroundings,
    after: App,
) -> bool {
    match command {
        Command::EditFile => exists|path: Option<Seq<char>>| #[trigger]
            before.selects_file(around, path) && after == if path is Some {
                asks(before, Request::EditFile)
            } else {
                before
            },
        Command::FileNext => exists|paths: Seq<String>| #[trigger]
            before.lists_files(around, paths) && after == (App {
                files: before.files.next(last_of(paths)),
                ..before
            }),
        Command::FilePrev => after == (App { files: before.files.prev(), ..before }),
        Command::FileNextEntry => after == (App {
            files: FilesView { selected: 0, ..before.files },
            ..before.at(before.timeline.forward(Step::Line))
        }),
        Command::FilePrevEntry => after == (App {
            files: FilesView { selected: 0, ..before.files },
            ..before.at(before.timeline.backward(Step::Line))
        }),
        Command::FileFirst => after == (App {
            files: FilesView { selected: 0, ..before.files },
            ..before
        }),
        Command::FileLast => exists|paths: Seq<String>| #[trigger]
            before.lists_files(around, paths) && after == (App {
                files: FilesView { selected: last_of(paths), ..before.files },
                ..before
            }),
        Command::FileScope => after == (App {
            files: FilesView { selected: 0, show_all: !before.files.show_all },
            ..before
        }),
        _ => after == before,
    }
}

/// The last row of a list, or zero where it is empty.
pub open spec fn last_of(paths: Seq<String>) -> usize {
    if paths.len() == 0 {
        0
    } else {
        (paths.len() - 1) as usize
    }
}

/// Whether a command in the wire lines, the logs, the transcript or the answer
/// leads from one screen to another.
pub open spec fn scrolls(before: App, command: Command, after: App) -> bool {
    match command {
        Command::RawPageDown => after == (App {
            raw: RawView { preview: before.raw.preview.down(SCROLL_PAGE), ..before.raw },
            ..before
        }),
        Command::RawPageUp => after == (App {
            raw: RawView { preview: before.raw.preview.up(SCROLL_PAGE), ..before.raw },
            ..before
        }),
        Command::RawNext => after == (App { raw: before.raw.next(), ..before }),
        Command::RawPrev => after == (App { raw: before.raw.prev(), ..before }),
        Command::RawFirst => after == (App { raw: before.raw.first(), ..before }),
        Command::RawLast => after == (App { raw: before.raw.last(), ..before }),
        Command::LogDown => after == (App { log: before.log.down(), ..before }),
        Command::LogUp => after == (App { log: before.log.up(), ..before }),
        Command::LogTop => after == (App {
            log: Tail { back: before.log.furthest(), ..before.log },
            ..before
        }),
        Command::LogBottom => after == (App { log: Tail { back: 0, ..before.log }, ..before }),
        Command::QuotaDown => after == (App { quota: before.quota.down(), ..before }),
        Command::QuotaUp => after == (App { quota: before.quota.up(), ..before }),
        Command::TranscriptDown => after == (App {
            transcript: before.transcript.down(1),
            ..before
        }),
        Command::TranscriptUp => after == (App { transcript: before.transcript.up(1), ..before }),
        Command::TranscriptTop => after == (App { transcript: before.transcript.top(), ..before }),
        Command::TranscriptEnd => after == (App {
            transcript: Scroll { offset: u16::MAX, ..before.transcript },
            ..before
        }),
        Command::Reread(contract) => after == asks(before, Request::Answer { contract }),
        Command::EditAnswer => after == if before.answer.file() is Some {
            asks(before, Request::EditFile)
        } else {
            before
        },
        Command::AnswerNext => after == (App { answer: before.answer.next(), ..before }),
        Command::AnswerPrev => after == (App { answer: before.answer.prev(), ..before }),
        Command::AnswerFirst => after == (App {
            answer: AnswerView { selected: 0, ..before.answer },
            ..before
        }),
        Command::AnswerLast => after == (App {
            answer: AnswerView { selected: before.answer.last_row(), ..before.answer },
            ..before
        }),
        _ => after == before,
    }
}

/// Whether a command among the events leads from one screen to another.
pub open spec fn walks(before: App, command: Command, after: App) -> bool {
    match command {
        Command::ConversationOnly => after == before.at(
            (Timeline {
                conversation_only: !before.timeline.conversation_only,
                ..before.timeline
            }).settled(),
        ),
        Command::Minor => after == before.at(
            (Timeline { show_minor: !before.timeline.show_minor, ..before.timeline }).settled(),
        ),
        Command::PreviewMode => after == previewing(
            before,
            Preview { mode: before.preview.mode.swapped(), ..before.preview.top() },
        ),
        Command::PreviewTarget => after == previewing(
            before,
            Preview { target: before.preview.target.swapped(), ..before.preview.top() },
        ),
        Command::PreviewPageDown => after == scrolling(
            before,
            before.preview.scroll.down(SCROLL_PAGE),
        ),
        Command::PreviewPageUp => after == scrolling(before, before.preview.scroll.up(SCROLL_PAGE)),
        Command::PreviewLineDown => after == scrolling(before, before.preview.scroll.down(1)),
        Command::PreviewLineUp => after == scrolling(before, before.preview.scroll.up(1)),
        Command::PreviewPanel => after == previewing(
            before,
            Preview { open: !before.preview.open, ..before.preview },
        ),
        Command::NextDetail => after == before.at(before.timeline.forward(Step::WithDetail)),
        Command::PrevDetail => after == before.at(before.timeline.backward(Step::WithDetail)),
        Command::NextLine => after == before.at(before.timeline.forward(Step::Line)),
        Command::PrevLine => after == before.at(before.timeline.backward(Step::Line)),
        Command::First => after == before.at(before.timeline.first()),
        Command::Last => after == before.at(before.timeline.last()),
        Command::Expand => folds(
            before,
            after,
            |i: int|
                before.timeline.entries@[i].expanded != (i == before.timeline.selected),
        ),
        Command::ExpandOnly => folds(before, after, |i: int| i == before.timeline.selected),
        Command::ExpandAll => folds(before, after, |i: int| true),
        Command::CollapseAll => folds(before, after, |i: int| false),
        _ => after == before,
    }
}

/// Whether a command leads from one screen to another, and leaves this to do.
pub open spec fn performs(
    before: App,
    live: Live,
    command: Command,
    around: Surroundings,
    after: App,
    action: Action,
) -> bool {
    match command {
        Command::Quit => after == asks(before, Request::Quit),
        Command::Interrupt => if live is Running {
            after == before
        } else {
            noted(before, after, LogLevel::Warn, "no live interaction to interrupt"@)
        },
        Command::Pause => after == if live is Running {
            before
        } else {
            App { focus: Focus::List, ..before }
        },
        Command::Shell => if live is Running {
            after == before
        } else {
            told(before, after, "no live interaction to open a shell for"@)
        },
        Command::Write => after == (App { focus: Focus::Input, ..before }),
        Command::Raw => after == if before.view == View::Raw {
            App { view: View::Events, ..before }
        } else {
            App { view: View::Raw, raw: before.raw.entered(before.selected_line()), ..before }
        },
        Command::Show(view) => after == (App { view: before.toggled(view), ..before }),
        Command::Quota => after == asks(
            App { view: before.toggled(View::Quota), ..before },
            Request::Quota,
        ),
        Command::Files => after == if before.view == View::Files {
            App { view: View::Events, ..before }
        } else {
            App { view: View::Files, preview: Preview { open: true, ..before.preview }, ..before }
        },
        Command::Answer => after == if before.view == View::Answer {
            App { view: View::Events, ..before }
        } else {
            asks(App { view: View::Answer, ..before }, Request::Answer { contract: None })
        },
        Command::Launcher => if before.configurable() {
            &&& after.launcher matches Some(launcher) && launcher.recent_models@
                == before.recent_models@ && launcher == Launcher::opened(
                before.catalog,
                before.selection,
                launcher.recent_models,
            )
            &&& after == (App { launcher: after.launcher, ..before })
        } else {
            after == before
        },
        Command::Interactions => after == asks(before, Request::Interactions),
        Command::Workspaces => after == asks(before, Request::Workspace),
        Command::Worktrees => after == asks(
            before,
            Request::SetWorktreesEnabled(!before.workspace.worktrees_enabled),
        ),
        Command::Sessions => after == asks(before, Request::Sessions),
        Command::Reset => after == asks(before, Request::Reset),
        Command::NewSession => after == asks(before, Request::NewSession),
        Command::Notes => after == (App {
            notes: Notes {
                editor: Some(
                    Editor {
                        scope: if before.session_id@.len() > 0 {
                            Scope::Session
                        } else {
                            Scope::Workspace
                        },
                        session: before.notes.session,
                        workspace: before.notes.workspace,
                        session_available: before.session_id@.len() > 0,
                    },
                ),
                ..before.notes
            },
            ..before
        }),
        Command::Copy => match action {
            Action::Copy(text) => before.copies(around, Some(text@)) && after == before,
            _ => before.copies(around, None) && told(before, after, "nothing selected to copy"@),
        },
        Command::RawPageDown
        | Command::RawPageUp
        | Command::RawNext
        | Command::RawPrev
        | Command::RawFirst
        | Command::RawLast
        | Command::LogDown
        | Command::LogUp
        | Command::LogTop
        | Command::LogBottom
        | Command::QuotaDown
        | Command::QuotaUp
        | Command::TranscriptDown
        | Command::TranscriptUp
        | Command::TranscriptTop
        | Command::TranscriptEnd
        | Command::Reread(_)
        | Command::EditAnswer
        | Command::AnswerNext
        | Command::AnswerPrev
        | Command::AnswerFirst
        | Command::AnswerLast => scrolls(before, command, after),
        Command::OtherLayer
        | Command::Network
        | Command::Standalone
        | Command::Templates
        | Command::AddMount
        | Command::GitHistory
        | Command::RemoveMount
        | Command::SavePolicy
        | Command::Promote
        | Command::NextMount
        | Command::PrevMount => edits(before, command, after),
        Command::EditFile
        | Command::FileNext
        | Command::FilePrev
        | Command::FileNextEntry
        | Command::FilePrevEntry
        | Command::FileFirst
        | Command::FileLast
        | Command::FileScope => walks_files(before, command, around, after),
        Command::Ignored | Command::Branch | Command::BeginFold => after == before,
        _ => walks(before, command, after),
    }
}

fn perform_edit(app: &mut App, command: Command) -> (r: Action)
    ensures
        edits(*old(app), command, *final(app)),
        command == Command::SavePolicy && can_edit(old(app).activity.status) ==> (
        r matches Action::SavePolicy(policy) && policy@ == old(app).launch.interaction@),
        command == Command::GitHistory && can_edit(old(app).activity.status) ==> r
            == Action::FindHistory(old(app).workspace.root),
        !can_edit(old(app).activity.status) || !(command == Command::SavePolicy || command
            == Command::GitHistory) ==> r == Action::Nothing,
        old(app).wf() ==> final(app).wf(),
{
    match command {
        Command::OtherLayer => launch::toggle_scope(app),
        Command::Network => launch::cycle_network(app),
        Command::Standalone => launch::toggle_standalone(app),
        Command::Templates => {
            if app.allow_launch_edit() {
                app.ask(Request::Templates);
            }
        },
        Command::AddMount => launch::open_prompt(app),
        Command::RemoveMount => launch::remove_selected_mount(app),
        Command::SavePolicy => {
            if app.allow_launch_edit() {
                return Action::SavePolicy(app.launch.interaction.copied());
            }
        },
        Command::GitHistory => {
            if app.allow_launch_edit() {
                return Action::FindHistory(app.workspace.root.clone());
            }
        },
        Command::Promote => launch::promote_to_workspace(app),
        Command::NextMount => launch::select_next_mount(app),
        Command::PrevMount => launch::select_prev_mount(app),
        _ => {},
    }
    Action::Nothing
}

fn perform_on_files(app: &mut App, command: Command, around: &Surroundings)
    requires
        old(app).wf(),
        old(app).described_by(*around),
    ensures
        walks_files(*old(app), command, *around, *final(app)),
        final(app).wf(),
{
    match command {
        Command::EditFile => {
            let path = app.selected_file_path(around);
            assert(app.selects_file(*around, view_of(path)));
            if path.is_some() {
                app.ask(Request::EditFile);
            }
        },
        Command::FileNext => app.file_select_next(around),
        Command::FilePrev => app.file_select_prev(),
        Command::FileNextEntry => {
            app.select_next_line();
            app.files.select_first();
        },
        Command::FilePrevEntry => {
            app.select_prev_line();
            app.files.select_first();
        },
        Command::FileFirst => app.files.select_first(),
        Command::FileLast => {
            let paths = app.file_paths(around);
            assert(app.lists_files(*around, paths@));
            let last: usize = paths.len().saturating_sub(1);
            app.files.select_last(last);
        },
        Command::FileScope => app.toggle_file_scope(),
        _ => {},
    }
}

fn perform_in_views(app: &mut App, command: Command)
    requires
        old(app).wf(),
    ensures
        scrolls(*old(app), command, *final(app)),
        final(app).wf(),
{
    match command {
        Command::RawPageDown => app.raw.preview.page_down(),
        Command::RawPageUp => app.raw.preview.page_up(),
        Command::RawNext => app.raw.select_next(),
        Command::RawPrev => app.raw.select_prev(),
        Command::RawFirst => app.raw.select_first(),
        Command::RawLast => app.raw.select_last(),
        Command::LogDown => app.log.scroll_down(),
        Command::LogUp => app.log.scroll_up(),
        Command::LogTop => app.log.scroll_to_top(),
        Command::LogBottom => app.log.scroll_to_bottom(),
        Command::QuotaDown => app.quota.scroll_down(),
        Command::QuotaUp => app.quota.scroll_up(),
        Command::TranscriptDown => app.transcript.line_down(),
        Command::TranscriptUp => app.transcript.line_up(),
        Command::TranscriptTop => app.transcript.reset(),
        Command::TranscriptEnd => app.transcript.scroll_to_end(),
        Command::Reread(contract) => app.ask(Request::Answer { contract }),
        Command::EditAnswer => {
            if app.answer.selected_file().is_some() {
                app.ask(Request::EditFile);
            }
        },
        Command::AnswerNext => app.answer.select_next(),
        Command::AnswerPrev => app.answer.select_prev(),
        Command::AnswerFirst => app.answer.select_first(),
        Command::AnswerLast => app.answer.select_last(),
        _ => {},
    }
}

fn perform_on_events(app: &mut App, command: Command)
    requires
        old(app).wf(),
    ensures
        walks(*old(app), command, *final(app)),
        final(app).wf(),
{
    match command {
        Command::ConversationOnly => app.toggle_conversation_only(),
        Command::Minor => app.toggle_minor(),
        Command::PreviewMode => app.preview.toggle_mode(),
        Command::PreviewTarget => app.preview.toggle_target(),
        Command::PreviewPageDown => app.preview.scroll.page_down(),
        Command::PreviewPageUp => app.preview.scroll.page_up(),
        Command::PreviewLineDown => app.preview.scroll.line_down(),
        Command::PreviewLineUp => app.preview.scroll.line_up(),
        Command::PreviewPanel => app.preview.toggle(),
        Command::NextDetail => app.select_next(),
        Command::PrevDetail => app.select_prev(),
        Command::NextLine => app.select_next_line(),
        Command::PrevLine => app.select_prev_line(),
        Command::First => app.select_first(),
        Command::Last => app.select_last(),
        Command::Expand => app.timeline.toggle_expand(),
        Command::ExpandOnly => app.timeline.expand_only_selected(),
        Command::ExpandAll => app.timeline.expand_all(),
        Command::CollapseAll => app.timeline.collapse_all(),
        _ => {},
    }
}

fn perform(app: &mut App, live: &Live, command: Command, around: &Surroundings) -> (r: Action)
    requires
        old(app).wf(),
        old(app).described_by(*around),
    ensures
        performs(*old(app), *live, command, *around, *final(app), r),
        leaves(*old(app), *live, command, r),
        final(app).wf(),
{
    match command {
        Command::Quit => app.ask(Request::Quit),
        Command::Interrupt => {
            return match session::interrupt_interaction(app, live) {
                Some(session_id) => Action::Interrupt(session_id),
                None => Action::Nothing,
            };
        },
        Command::Pause => {
            return match session::pause_interaction(app, live) {
                Some(session_id) => Action::Stop(session_id),
                None => Action::Nothing,
            };
        },
        Command::Branch => {
            return Action::Branch {
                session_id: app.session_id.clone(),
                at_ms: session::branch_session(app),
            };
        },
        Command::Shell => {
            match live {
                Live::Running { .. } => {
                    return Action::Shell(app.session_id.clone());
                },
                _ => app.show_action_message(
                    "no live interaction to open a shell for".to_owned(),
                ),
            }
        },
        Command::Write => app.enter_input(),
        Command::Raw => app.toggle_raw(),
        Command::Show(view) => app.toggle_view(view),
        Command::Quota => {
            app.toggle_view(View::Quota);
            app.ask(Request::Quota);
        },
        Command::Files => app.toggle_files(),
        Command::Answer => app.toggle_answer(),
        Command::Launcher => app.open_launcher(),
        Command::Interactions => app.ask(Request::Interactions),
        Command::Workspaces => app.ask(Request::Workspace),
        Command::Worktrees => {
            let enabled = !app.workspace.worktrees_enabled;
            app.ask(Request::SetWorktreesEnabled(enabled));
        },
        Command::Sessions => app.ask(Request::Sessions),
        Command::Reset => app.ask(Request::Reset),
        Command::NewSession => app.ask(Request::NewSession),
        Command::Notes => notes::open(app),
        Command::Copy => {
            return copy_selection(app, around);
        },
        Command::OtherLayer
        | Command::Network
        | Command::Standalone
        | Command::Templates
        | Command::AddMount
        | Command::GitHistory
        | Command::RemoveMount
        | Command::SavePolicy
        | Command::Promote
        | Command::NextMount
        | Command::PrevMount => {
            return perform_edit(app, command);
        },
        Command::EditFile
        | Command::FileNext
        | Command::FilePrev
        | Command::FileNextEntry
        | Command::FilePrevEntry
        | Command::FileFirst
        | Command::FileLast
        | Command::FileScope => perform_on_files(app, command, around),
        Command::RawPageDown
        | Command::RawPageUp
        | Command::RawNext
        | Command::RawPrev
        | Command::RawFirst
        | Command::RawLast
        | Command::LogDown
        | Command::LogUp
        | Command::LogTop
        | Command::LogBottom
        | Command::QuotaDown
        | Command::QuotaUp
        | Command::TranscriptDown
        | Command::TranscriptUp
        | Command::TranscriptTop
        | Command::TranscriptEnd
        | Command::Reread(_)
        | Command::EditAnswer
        | Command::AnswerNext
        | Command::AnswerPrev
        | Command::AnswerFirst
        | Command::AnswerLast => perform_in_views(app, command),
        Command::Ignored | Command::BeginFold => {},
        _ => perform_on_events(app, command),
    }
    Action::Nothing
}

/// What is to be put on the clipboard, where there is anything. Where there is
/// not, the operator is told.
fn copy_selection(app: &mut App, around: &Surroundings) -> (r: Action)
    requires
        old(app).wf(),
        old(app).described_by(*around),
    ensures
        match r {
            Action::Copy(text) => old(app).copies(*around, Some(text@)) && *final(app)
                == *old(app),
            Action::Nothing => old(app).copies(*around, None) && told(
                *old(app),
                *final(app),
                "nothing selected to copy"@,
            ),
            _ => false,
        },
        final(app).wf(),
{
    match app.copy_text(around) {
        Some(text) => Action::Copy(text),
        None => {
            app.show_action_message("nothing selected to copy".to_owned());
            Action::Nothing
        },
    }
}

/// Hand back what became of putting text on the clipboard.
pub fn copied(app: &mut App, result: Result<(), String>)
    requires
        old(app).wf(),
    ensures
        match result {
            Ok(()) => told(*old(app), *final(app), "copied to clipboard"@),
            Err(error) => noted(
                *old(app),
                *final(app),
                LogLevel::Error,
                "could not copy to clipboard: "@ + error@,
            ),
        },
        final(app).wf(),
{
    match result {
        Ok(()) => app.show_action_message("copied to clipboard".to_owned()),
        Err(error) => log_error(
            app,
            "could not copy to clipboard: ".to_owned().concat(error.as_str()),
        ),
    }
}

/// Hand back what became of opening a shell: the terminal it is in.
pub fn shell_opened(app: &mut App, result: Result<String, String>)
    requires
        old(app).wf(),
    ensures
        match result {
            Ok(program) => told(*old(app), *final(app), "opened shell in "@ + program@),
            Err(error) => noted(
                *old(app),
                *final(app),
                LogLevel::Error,
                "could not open session shell: "@ + error@,
            ),
        },
        final(app).wf(),
{
    match result {
        Ok(program) => app.show_action_message(
            "opened shell in ".to_owned().concat(program.as_str()),
        ),
        Err(error) => log_error(
            app,
            "could not open session shell: ".to_owned().concat(error.as_str()),
        ),
    }
}

/// Hand back what became of keeping a policy as the default.
pub fn policy_saved(app: &mut App, result: Result<(), String>)
    requires
        old(app).wf(),
    ensures
        match result {
            Ok(()) => told(
                *old(app),
                *final(app),
                "saved this interaction's settings as the default for new clients"@,
            ),
            Err(error) => noted(
                *old(app),
                *final(app),
                LogLevel::Error,
                "could not save the default launch policy: "@ + error@,
            ),
        },
        final(app).wf(),
{
    match result {
        Ok(()) => app.show_action_message(
            "saved this interaction's settings as the default for new clients".to_owned(),
        ),
        Err(error) => log_error(
            app,
            "could not save the default launch policy: ".to_owned().concat(error.as_str()),
        ),
    }
}

/// Take a key while the list has the keys. `pending_fold` is whether the key
/// before began a fold.
pub fn handle_list_key(
    app: &mut App,
    live: &Live,
    key: Key,
    pending_fold: &mut bool,
    around: &Surroundings,
) -> (r: Action)
    requires
        old(app).wf(),
        old(app).described_by(*around),
    ensures
        performs(
            *old(app),
            *live,
            meaning(old(app).view, old(app).preview.open, *old(pending_fold), key.code),
            *around,
            *final(app),
            r,
        ),
        leaves(
            *old(app),
            *live,
            meaning(old(app).view, old(app).preview.open, *old(pending_fold), key.code),
            r,
        ),
        *final(pending_fold) == (meaning(
            old(app).view,
            old(app).preview.open,
            *old(pending_fold),
            key.code,
        ) == Command::BeginFold),
        final(app).wf(),
{
    let command = command(app.view, app.preview.open, *pending_fold, key.code);
    *pending_fold = command == Command::BeginFold;
    perform(app, live, command, around)
}

// --- The launch picker -------------------------------------------------------

/// What the launch picker leaves for others to do.
#[derive(Clone, Copy, Debug, PartialEq, Eq, Structural)]
pub enum Kept {
    Nothing,
    /// Keep the models chosen before, and answer with [`models_saved`].
    Models,
    /// Keep them, and the selection as the default; answer with
    /// [`models_saved`] and [`selection_saved`].
    ModelsAndSelection,
}

/// What a key means in the launch picker.
#[derive(Clone, Copy, Debug, PartialEq, Eq, Structural)]
pub enum PickerKey {
    Down,
    Up,
    Right,
    Left,
    Confirm,
    ConfirmAndKeep,
    Cancel,
    Ignored,
}

pub open spec fn picker_key(code: KeyCode) -> PickerKey {
    match code {
        KeyCode::Char('j') | KeyCode::Char('J') | KeyCode::Down => PickerKey::Down,
        KeyCode::Char('k') | KeyCode::Char('K') | KeyCode::Up => PickerKey::Up,
        KeyCode::Char('l') | KeyCode::Right | KeyCode::Tab => PickerKey::Right,
        KeyCode::Char('h') | KeyCode::Left | KeyCode::BackTab => PickerKey::Left,
        KeyCode::Enter => PickerKey::Confirm,
        KeyCode::Char('D') => PickerKey::ConfirmAndKeep,
        KeyCode::Esc | KeyCode::Char('q') => PickerKey::Cancel,
        _ => PickerKey::Ignored,
    }
}

fn read_picker_key(code: KeyCode) -> (r: PickerKey)
    ensures
        r == picker_key(code),
{
    match code {
        KeyCode::Char('j') | KeyCode::Char('J') | KeyCode::Down => PickerKey::Down,
        KeyCode::Char('k') | KeyCode::Char('K') | KeyCode::Up => PickerKey::Up,
        KeyCode::Char('l') | KeyCode::Right | KeyCode::Tab => PickerKey::Right,
        KeyCode::Char('h') | KeyCode::Left | KeyCode::BackTab => PickerKey::Left,
        KeyCode::Enter => PickerKey::Confirm,
        KeyCode::Char('D') => PickerKey::ConfirmAndKeep,
        KeyCode::Esc | KeyCode::Char('q') => PickerKey::Cancel,
        _ => PickerKey::Ignored,
    }
}

/// Whether a key in the launch picker leads from one screen to another, and
/// asks for this to be kept.
pub open spec fn launcher_keyed(before: App, code: KeyCode, after: App, kept: Kept) -> bool {
    match before.launcher {
        None => kept == Kept::Nothing && after == before,
        Some(launcher) => match picker_key(code) {
            PickerKey::Down => kept == Kept::Nothing && after == (App {
                launcher: Some(launcher.lower(before.catalog)),
                ..before
            }),
            PickerKey::Up => kept == Kept::Nothing && after == (App {
                launcher: Some(launcher.upper(before.catalog)),
                ..before
            }),
            PickerKey::Right => kept == Kept::Nothing && after == (App {
                launcher: Some(Launcher { column: launcher.column.after(), ..launcher }),
                ..before
            }),
            PickerKey::Left => kept == Kept::Nothing && after == (App {
                launcher: Some(Launcher { column: launcher.column.before(), ..launcher }),
                ..before
            }),
            PickerKey::Confirm => kept == Kept::Models && before.confirms(
                launcher.described(before.catalog),
                after,
            ),
            PickerKey::ConfirmAndKeep => kept == Kept::ModelsAndSelection && before.confirms(
                launcher.described(before.catalog),
                after,
            ),
            PickerKey::Cancel => kept == Kept::Nothing && after == (App {
                launcher: None,
                ..before
            }),
            PickerKey::Ignored => kept == Kept::Nothing && after == before,
        },
    }
}

/// Take a key while the launch picker is open.
pub fn handle_launcher_key(app: &mut App, key: Key) -> (r: Kept)
    requires
        old(app).wf(),
    ensures
        launcher_keyed(*old(app), key.code, *final(app), r),
        final(app).wf(),
{
    if app.launcher.is_none() {
        return Kept::Nothing;
    }
    match read_picker_key(key.code) {
        PickerKey::Confirm => {
            app.confirm_launcher();
            return Kept::Models;
        },
        PickerKey::ConfirmAndKeep => {
            app.confirm_launcher();
            return Kept::ModelsAndSelection;
        },
        PickerKey::Cancel => app.cancel_launcher(),
        PickerKey::Ignored => {},
        moving => {
            if let Some(mut launcher) = app.launcher.take() {
                match moving {
                    PickerKey::Down => launcher.next(&app.catalog),
                    PickerKey::Up => launcher.prev(&app.catalog),
                    PickerKey::Right => launcher.next_column(),
                    _ => launcher.prev_column(),
                }
                app.launcher = Some(launcher);
            }
        },
    }
    Kept::Nothing
}

/// Hand back what became of keeping the models chosen before.
pub fn models_saved(app: &mut App, result: Result<(), String>)
    requires
        old(app).wf(),
    ensures
        match result {
            Ok(()) => *final(app) == *old(app),
            Err(error) => noted(
                *old(app),
                *final(app),
                LogLevel::Error,
                "could not save the model ordering: "@ + error@,
            ),
        },
        final(app).wf(),
{
    if let Err(error) = result {
        log_error(app, "could not save the model ordering: ".to_owned().concat(error.as_str()));
    }
}

/// Hand back what became of keeping the selection as the default.
pub fn selection_saved(app: &mut App, result: Result<(), String>)
    requires
        old(app).wf(),
    ensures
        match result {
            Ok(()) => *final(app) == *old(app),
            Err(error) => noted(
                *old(app),
                *final(app),
                LogLevel::Error,
                "could not save launch defaults: "@ + error@,
            ),
        },
        final(app).wf(),
{
    if let Err(error) = result {
        log_error(app, "could not save launch defaults: ".to_owned().concat(error.as_str()));
    }
}

// --- The mount prompt --------------------------------------------------------

/// Whether a key in the prompt that adds a mount leads from one screen to
/// another.
pub open spec fn mount_keyed(
    before: App,
    code: KeyCode,
    home: Option<Seq<char>>,
    after: App,
) -> bool {
    match code {
        KeyCode::Esc => after == (App { launch: Launch { prompt: None, ..before.launch }, ..before }),
        KeyCode::Enter => match before.launch.prompt {
            None => after == before,
            Some(text) => prompt_confirmed(before, text@, home, after),
        },
        _ => match before.launch.prompt {
            None => after == before,
            Some(text) => {
                &&& view_of(after.launch.prompt) == Some(prompt_after(text@, code))
                &&& after == (App {
                    launch: Launch { prompt: after.launch.prompt, ..before.launch },
                    ..before
                })
            },
        },
    }
}

/// Take a key while the prompt that adds a mount is open.
pub fn handle_mount_prompt_key(app: &mut App, key: Key, home: &Option<String>)
    ensures
        mount_keyed(*old(app), key.code, view_of(*home), *final(app)),
        old(app).wf() ==> final(app).wf(),
{
    match key.code {
        KeyCode::Esc => launch::cancel_prompt(app),
        KeyCode::Enter => launch::confirm_prompt(app, home),
        code => {
            if let Some(mut text) = app.launch.prompt.take() {
                match code {
                    KeyCode::Backspace => drop_last_char(&mut text),
                    KeyCode::Char(ch) => {
                        if !control(ch) {
                            text.push(ch);
                        }
                    },
                    _ => {},
                }
                app.launch.prompt = Some(text);
            }
        },
    }
}

/// The text of a one-line prompt after a key.
pub open spec fn prompt_after(text: Seq<char>, code: KeyCode) -> Seq<char> {
    match code {
        KeyCode::Backspace => if text.len() > 0 {
            text.drop_last()
        } else {
            text
        },
        KeyCode::Char(ch) => if is_control(ch) {
            text
        } else {
            text.push(ch)
        },
        _ => text,
    }
}

// --- The path prompt ---------------------------------------------------------

/// What the path prompt wants to know of the disk.
#[derive(Debug, PartialEq, Eq)]
pub enum Wanted {
    Nothing,
    /// What this path really is; answer with [`insert_resolved`].
    Resolve(String),
    /// What this directory holds; answer with [`insert_listed`].
    List(String),
}

/// Open the path prompt over the message box.
pub fn open_insert(app: &mut App)
    ensures
        final(app).insert matches Some(prompt) && (prompt.state matches insert::Insert::Typing(text)
            && text@.len() == 0) && prompt.base == old(app).workspace.root && prompt.can_grant
            == can_edit(old(app).activity.status) && match (old(app).launch.driva, prompt.mounts) {
            (Some(driva), Some(mounts)) => mounts@ == driva.mount_list(),
            (None, None) => true,
            _ => false,
        },
        *final(app) == (App { insert: final(app).insert, ..*old(app) }),
        old(app).wf() ==> final(app).wf(),
{
    let mounts = match &app.launch.driva {
        Some(driva) => Some(driva.plain_mounts()),
        None => None,
    };
    app.insert = Some(Prompt::new(app.workspace.root.clone(), mounts, app.can_edit_launch()));
}

/// Whether what the path prompt decided leads from one screen to another: the
/// path goes into the message, and a mount that is asked for into this
/// interaction's settings.
pub open spec fn settles(before: App, outcome: Outcome, after: App) -> bool {
    match outcome {
        Outcome::Open | Outcome::Resolve(_) | Outcome::List(_) => after == before,
        Outcome::Closed => after == (App { insert: None, ..before }),
        Outcome::Notice(notice) => told(before, after, notice@),
        Outcome::Insert { path, notice } => {
            &&& after.composer@ == before.composer@.edited(before.composer.text@ + path@)
            &&& after.notices.said() == match notice {
                Some(notice) => before.notices.said().push(notice@),
                None => before.notices.said(),
            }
            &&& after == (App {
                insert: None,
                composer: after.composer,
                notices: Notices { messages: after.notices.messages, ..before.notices },
                ..before
            })
        },
        Outcome::Grant { mount, path } => {
            let refused = before.launch.refusal(LaunchScope::Interaction, mount@);
            &&& after.composer@ == before.composer@.edited(before.composer.text@ + path@)
            &&& before.launch.adds(LaunchScope::Interaction, mount, after.launch, refused)
            &&& after.notices.said() == before.notices.said().push(
                match refused {
                    Some(reason) => reason,
                    None => "added "@ + mount_label(mount@)
                        + " — applies when this Session next launches"@,
                },
            )
            &&& after == (App {
                insert: None,
                composer: after.composer,
                notices: Notices { messages: after.notices.messages, ..before.notices },
                launch: after.launch,
                ..before
            })
        },
    }
}

/// The same, with the path prompt in its next state first.
pub open spec fn settles_with(before: App, next: Prompt, outcome: Outcome, after: App) -> bool {
    settles(App { insert: Some(next), ..before }, outcome, after)
}

fn settle_insert(app: &mut App, outcome: Outcome) -> (r: Wanted)
    requires
        old(app).wf(),
    ensures
        settles(*old(app), outcome, *final(app)),
        r == match outcome {
            Outcome::Resolve(path) => Wanted::Resolve(path),
            Outcome::List(directory) => Wanted::List(directory),
            _ => Wanted::Nothing,
        },
        final(app).wf(),
{
    match outcome {
        Outcome::Open => Wanted::Nothing,
        Outcome::Resolve(path) => Wanted::Resolve(path),
        Outcome::List(directory) => Wanted::List(directory),
        Outcome::Closed => {
            app.insert = None;
            Wanted::Nothing
        },
        Outcome::Notice(notice) => {
            app.show_action_message(notice);
            Wanted::Nothing
        },
        Outcome::Insert { path, notice } => {
            app.insert = None;
            app.composer.insert(path.as_str());
            if let Some(notice) = notice {
                app.show_action_message(notice);
            }
            Wanted::Nothing
        },
        Outcome::Grant { mount, path } => {
            app.insert = None;
            let name = label(&mount);
            let message = match app.launch.add_interaction_mount(mount) {
                Ok(()) => "added ".to_owned().concat(name.as_str()).concat(
                    " — applies when this Session next launches",
                ),
                Err(reason) => reason.to_owned(),
            };
            app.composer.insert(path.as_str());
            app.show_action_message(message);
            Wanted::Nothing
        },
    }
}

/// Whether a key in the path prompt leads from one screen to another, and asks
/// this of the disk.
pub open spec fn insert_keyed(
    before: App,
    key: Key,
    home: Option<String>,
    after: App,
    wanted: Wanted,
) -> bool {
    match before.insert {
        None => wanted == Wanted::Nothing && after == before,
        Some(prompt) => exists|next: Prompt, outcome: Outcome| #[trigger]
            answers_key(prompt, key, home, next, outcome) && #[trigger] settles_with(
                before,
                next,
                outcome,
                after,
            ) && wants(outcome, wanted),
    }
}

/// Take a key while the path prompt is open.
pub fn handle_insert_key(app: &mut App, key: Key, home: &Option<String>) -> (r: Wanted)
    requires
        old(app).wf(),
    ensures
        insert_keyed(*old(app), key, *home, *final(app), r),
        final(app).wf(),
{
    match app.insert.take() {
        Some(mut prompt) => {
            let ghost before = prompt;
            let outcome = prompt.key(key, home);
            let ghost next = prompt;
            let ghost decided = outcome;
            app.insert = Some(prompt);
            assert(answers_key(before, key, *home, next, decided));
            let r = settle_insert(app, outcome);
            assert(settles_with(*old(app), next, decided, *app));
            r
        },
        None => Wanted::Nothing,
    }
}

/// Whether a key leads the path prompt to its next state and this decision.
pub open spec fn answers_key(
    prompt: Prompt,
    key: Key,
    home: Option<String>,
    next: Prompt,
    outcome: Outcome,
) -> bool {
    &&& next == (Prompt { state: next.state, ..prompt })
    &&& match prompt.state {
        insert::Insert::Typing(text) => next.state matches insert::Insert::Typing(left)
            && insert::typing_key(prompt, text@, key, view_of(home), outcome, left@),
        insert::Insert::Grant(host) => next == prompt && insert::grant_key(host@, key, outcome),
    }
}

/// Whether this is what a decision wants to know.
pub open spec fn wants(outcome: Outcome, wanted: Wanted) -> bool {
    wanted == match outcome {
        Outcome::Resolve(path) => Wanted::Resolve(path),
        Outcome::List(directory) => Wanted::List(directory),
        _ => Wanted::Nothing,
    }
}

/// Hand the path prompt what a directory holds.
pub fn insert_listed(app: &mut App, entries: &Vec<Listed>)
    ensures
        match old(app).insert {
            None => *final(app) == *old(app),
            Some(prompt) => {
                &&& *final(app) == (App { insert: final(app).insert, ..*old(app) })
                &&& final(app).insert matches Some(next) && next == (Prompt {
                    state: next.state,
                    ..prompt
                }) && match prompt.state {
                    insert::Insert::Typing(text) => next.state matches insert::Insert::Typing(left)
                        && left@ == match insert::completion(text@, entries@) {
                        Some(completed) => completed,
                        None => text@,
                    },
                    insert::Insert::Grant(_) => next == prompt,
                }
            },
        },
        old(app).wf() ==> final(app).wf(),
{
    if let Some(mut prompt) = app.insert.take() {
        prompt.listed(entries);
        app.insert = Some(prompt);
    }
}

/// Hand the path prompt what the path really is, or why it is nothing.
pub fn insert_resolved(app: &mut App, found: Result<String, String>)
    requires
        old(app).wf(),
    ensures
        match old(app).insert {
            None => *final(app) == *old(app),
            Some(prompt) => exists|next: Prompt, outcome: Outcome| #[trigger]
                insert::finds(prompt, found, next, outcome) && #[trigger] settles_with(
                    *old(app),
                    next,
                    outcome,
                    *final(app),
                ),
        },
        final(app).wf(),
{
    if let Some(mut prompt) = app.insert.take() {
        let ghost before = prompt;
        let outcome = prompt.resolved(found);
        let ghost next = prompt;
        let ghost decided = outcome;
        app.insert = Some(prompt);
        assert(insert::finds(before, found, next, decided));
        settle_insert(app, outcome);
        assert(settles_with(*old(app), next, decided, *app));
    }
}

// --- The message box ---------------------------------------------------------

/// What a key means in the message box.
#[derive(Clone, Copy, Debug, PartialEq, Eq, Structural)]
pub enum Writing {
    Leave,
    Shape,
    Newline,
    Send,
    Erase,
    Older,
    Newer,
    EraseWord,
    Launcher,
    Path,
    Type(char),
    Ignored,
}

pub open spec fn writing(key: Key) -> Writing {
    match key.code {
        KeyCode::Esc => Writing::Leave,
        KeyCode::Enter => if key.alt {
            Writing::Newline
        } else {
            Writing::Send
        },
        KeyCode::Backspace => Writing::Erase,
        KeyCode::Up => Writing::Older,
        KeyCode::Down => Writing::Newer,
        KeyCode::Char(ch) => if key.control && ch == 't' {
            Writing::Shape
        } else if key.control && ch == 'w' {
            Writing::EraseWord
        } else if key.control && ch == 'l' {
            Writing::Launcher
        } else if key.control && ch == 'f' {
            Writing::Path
        } else {
            Writing::Type(ch)
        },
        _ => Writing::Ignored,
    }
}

fn read_writing(key: Key) -> (r: Writing)
    ensures
        r == writing(key),
{
    match key.code {
        KeyCode::Esc => Writing::Leave,
        KeyCode::Enter => if key.alt {
            Writing::Newline
        } else {
            Writing::Send
        },
        KeyCode::Backspace => Writing::Erase,
        KeyCode::Up => Writing::Older,
        KeyCode::Down => Writing::Newer,
        KeyCode::Char(ch) => if key.control && ch == 't' {
            Writing::Shape
        } else if key.control && ch == 'w' {
            Writing::EraseWord
        } else if key.control && ch == 'l' {
            Writing::Launcher
        } else if key.control && ch == 'f' {
            Writing::Path
        } else {
            Writing::Type(ch)
        },
        _ => Writing::Ignored,
    }
}

/// What sending a message leaves for others to do.
#[derive(Debug, PartialEq, Eq)]
pub enum Dispatch {
    Nothing,
    /// Change the live interaction's directory, and answer with
    /// [`directory_changed`].
    Directory { session_id: String, directory: String },
    /// Put this turn into the session's queue, and answer with
    /// [`queue_answered`].
    Queue { session_id: String, turn: Turn },
    /// Send this turn, and answer with [`send_answered`].
    Send { session_id: String, turn: Turn },
    /// Resume the session, and answer with [`session::resumed`].
    Resume { resume: Resume, message: String, contract: Option<Contract> },
    /// Launch a session, and answer with [`session::created`].
    Create { creation: Creation, message: String },
}

/// The directory that a message asks to change to.
pub open spec fn directory_asked(message: Seq<char>) -> Option<Seq<char>> {
    if starts(message, "/cd "@) {
        Some(trimmed(message.skip("/cd "@.len() as int)))
    } else {
        None
    }
}

/// Whether sending a message leads from one screen to another and leaves this
/// to do. `before` is the screen once the message was taken from its box.
pub open spec fn dispatches(
    before: App,
    live: Live,
    message: Seq<char>,
    after: App,
    dispatch: Dispatch,
) -> bool {
    let contract = before.outbox.contract;
    let shaped = App { outbox: Outbox { contract: None, ..before.outbox }, ..before };
    match directory_asked(message) {
        Some(directory) => if live !is Running {
            dispatch is Nothing && noted(
                before,
                after,
                LogLevel::Warn,
                "/cd requires a live Codex interaction"@,
            )
        } else if directory.len() == 0 {
            dispatch is Nothing && noted(before, after, LogLevel::Warn, "usage: /cd <directory>"@)
        } else {
            after == before && (dispatch matches Dispatch::Directory {
                session_id,
                directory: asked,
            } && session_id == before.session_id && asked@ == directory)
        },
        None => match live {
            Live::Pending => after == shaped && (dispatch matches Dispatch::Create {
                creation,
                message: text,
            } && text@ == message && creates(before, message, contract, creation)),
            Live::Running { .. } if before.activity.status is Running => after == shaped && (
            dispatch matches Dispatch::Queue { session_id, turn } && session_id
                == before.session_id && asks_turn(before, message, contract, turn)),
            Live::Running { .. } if before.activity.status is Idle || before.activity.status
                is Background => after == shaped && (dispatch matches Dispatch::Send {
                session_id,
                turn,
            } && session_id == before.session_id && asks_turn(before, message, contract, turn)),
            _ => if before.session_id@.len() == 0 {
                dispatch is Nothing && noted(
                    shaped,
                    after,
                    LogLevel::Warn,
                    "not sent: no Session to resume"@,
                )
            } else {
                after == shaped && (dispatch matches Dispatch::Resume {
                    resume,
                    message: text,
                    contract: asked,
                } && text@ == message && asked == contract && resume.id == before.session_id
                    && resume.launch@ == before.launch.interaction@)
            },
        },
    }
}

/// Whether a turn is a message sent under the current selection.
pub open spec fn asks_turn(app: App, message: Seq<char>, contract: Option<Contract>, turn: Turn) -> bool {
    turn.message@ == message && turn.selection == app.selection && turn.contract == contract
}

fn dispatch(app: &mut App, live: &Live, message: String) -> (r: Dispatch)
    requires
        old(app).wf(),
    ensures
        dispatches(*old(app), *live, message@, *final(app), r),
        final(app).wf(),
{
    if let Some(rest) = strip_start(message.as_str(), "/cd ") {
        let directory = trim(rest.as_str());
        match live {
            Live::Running { .. } => {},
            _ => {
                log_warn(app, "/cd requires a live Codex interaction".to_owned());
                return Dispatch::Nothing;
            },
        }
        if directory.as_str().is_empty() {
            log_warn(app, "usage: /cd <directory>".to_owned());
            return Dispatch::Nothing;
        }
        return Dispatch::Directory { session_id: app.session_id.clone(), directory };
    }
    let contract = app.outbox.take_contract();
    let running = match app.activity.status {
        Status::Running => true,
        _ => false,
    };
    let waiting = match app.activity.status {
        Status::Idle => true,
        Status::Background => true,
        _ => false,
    };
    match live {
        Live::Pending => {
            let creation = session::create_session(app, message.as_str(), contract);
            return Dispatch::Create { creation, message };
        },
        Live::Running { .. } => {
            if running {
                let turn = session::turn(message.as_str(), &app.selection, contract);
                return Dispatch::Queue { session_id: app.session_id.clone(), turn };
            }
            if waiting {
                let turn = session::turn(message.as_str(), &app.selection, contract);
                return Dispatch::Send { session_id: app.session_id.clone(), turn };
            }
        },
        Live::Viewing => {},
    }
    match session::resume(app) {
        Some(resume) => Dispatch::Resume { resume, message, contract },
        None => Dispatch::Nothing,
    }
}

/// Whether sending what is in the message box leads from one screen to another
/// and leaves this to do. `composer` is the box once the message was taken.
pub open spec fn sends(
    before: App,
    composer: crate::composer::Composer,
    live: Live,
    after: App,
    left: Dispatch,
) -> bool {
    &&& composer@ == before.composer@.taken()
    &&& dispatches(
        App { composer, focus: Focus::List, ..before },
        live,
        trimmed(before.composer.text@),
        after,
        left,
    )
}

/// Whether a key in the message box leads from one screen to another and leaves
/// this to do.
pub open spec fn writes_key(
    before: App,
    live: Live,
    writing: Writing,
    after: App,
    left: Dispatch,
) -> bool {
    let written = |text: Seq<char>| after.composer@ == before.composer@.edited(text);
    let same = after == (App { composer: after.composer, ..before });
    match writing {
        Writing::Send => if trimmed(before.composer.text@).len() == 0 {
            left is Nothing && after.composer@ == before.composer@.taken() && same
        } else {
            exists|composer: crate::composer::Composer| #[trigger]
                sends(before, composer, live, after, left)
        },
        _ => left is Nothing && match writing {
            Writing::Leave => after == (App { focus: Focus::List, ..before }),
            Writing::Shape => after == (App {
                outbox: Outbox { contract: next_shape(before.outbox.contract), ..before.outbox },
                ..before
            }),
            Writing::Newline => written(before.composer.text@.push('\n')) && same,
            Writing::Erase => written(
                if before.composer.text@.len() > 0 {
                    before.composer.text@.drop_last()
                } else {
                    before.composer.text@
                },
            ) && same,
            Writing::Older => after.composer@ == before.composer@.previous() && same,
            Writing::Newer => after.composer@ == before.composer@.next() && same,
            Writing::EraseWord => written(without_last_word(before.composer.text@)) && same,
            Writing::Type(ch) => written(before.composer.text@.push(ch)) && same,
            Writing::Launcher => if before.configurable() {
                &&& after.launcher matches Some(launcher) && launcher.recent_models@
                    == before.recent_models@ && launcher == Launcher::opened(
                    before.catalog,
                    before.selection,
                    launcher.recent_models,
                )
                &&& after == (App { launcher: after.launcher, ..before })
            } else {
                after == before
            },
            Writing::Path => {
                &&& after.insert matches Some(prompt) && (
                prompt.state matches insert::Insert::Typing(text) && text@.len() == 0)
                    && prompt.base == before.workspace.root && prompt.can_grant == can_edit(
                    before.activity.status,
                ) && match (before.launch.driva, prompt.mounts) {
                    (Some(driva), Some(mounts)) => mounts@ == driva.mount_list(),
                    (None, None) => true,
                    _ => false,
                }
                &&& after == (App { insert: after.insert, ..before })
            },
            _ => after == before,
        },
    }
}

/// Take a key while the message box has the keys.
pub fn handle_input_key(app: &mut App, live: &Live, key: Key) -> (r: Dispatch)
    requires
        old(app).wf(),
    ensures
        writes_key(*old(app), *live, writing(key), *final(app), r),
        final(app).wf(),
{
    match read_writing(key) {
        Writing::Leave => app.enter_list(),
        Writing::Shape => app.outbox.cycle_contract(),
        Writing::Newline => app.composer.newline(),
        Writing::Send => {
            let message = match app.take_message() {
                Some(message) => message,
                None => {
                    return Dispatch::Nothing;
                },
            };
            let ghost composer = app.composer;
            app.enter_list();
            let left = dispatch(app, live, message);
            assert(sends(*old(app), composer, *live, *app, left));
            return left;
        },
        Writing::Erase => app.composer.backspace(),
        Writing::Older => app.composer.history_previous(),
        Writing::Newer => app.composer.history_next(),
        Writing::EraseWord => app.composer.delete_word(),
        Writing::Launcher => app.open_launcher(),
        Writing::Path => open_insert(app),
        Writing::Type(ch) => app.composer.char(ch),
        Writing::Ignored => {},
    }
    Dispatch::Nothing
}

/// Hand back what became of changing the interaction's directory.
pub fn directory_changed(app: &mut App, directory: &str, result: Result<(), String>)
    requires
        old(app).wf(),
    ensures
        match result {
            Ok(()) => told(*old(app), *final(app), "working directory: "@ + directory@),
            Err(error) => noted(
                *old(app),
                *final(app),
                LogLevel::Error,
                "could not change working directory: "@ + error@,
            ),
        },
        final(app).wf(),
{
    match result {
        Ok(()) => app.show_action_message("working directory: ".to_owned().concat(directory)),
        Err(error) => log_error(
            app,
            "could not change working directory: ".to_owned().concat(error.as_str()),
        ),
    }
}

/// Hand back what became of queueing a turn. It waits here in any case.
pub fn queue_answered(app: &mut App, turn: Turn, result: Result<(), String>)
    requires
        old(app).wf(),
    ensures
        final(app).outbox.queued@.len() == old(app).outbox.queued@.len() + 1,
        final(app).outbox.queued@.drop_last() == old(app).outbox.queued@,
        final(app).outbox.queued@.last() == (QueuedMessage {
            text: turn.message,
            contract: turn.contract,
        }),
        stays_put(old(app).log, final(app).log),
        log_views(final(app).log.items@) == (match result {
            Err(error) => log_views(old(app).log.items@).push(
                (LogLevel::Error, "could not persist queued message: "@ + error@),
            ),
            Ok(()) => log_views(old(app).log.items@),
        }).push(
            (
                LogLevel::Info,
                "message queued ("@ + decimal(final(app).outbox.queued@.len()) + " waiting)"@,
            ),
        ),
        *final(app) == (App {
            outbox: Outbox { queued: final(app).outbox.queued, ..old(app).outbox },
            log: final(app).log,
            ..*old(app)
        }),
        final(app).wf(),
{
    if let Err(error) = result {
        log_error(app, "could not persist queued message: ".to_owned().concat(error.as_str()));
    }
    app.outbox.queue(QueuedMessage::new(turn.message).asking_for(turn.contract));
    assert(app.outbox.queued@.drop_last() =~= old(app).outbox.queued@);
    let waiting = number(app.outbox.queued_count() as u64);
    session::log_info(
        app,
        "message queued (".to_owned().concat(waiting.as_str()).concat(" waiting)"),
    );
}

/// Hand back what became of sending a turn to an idle agent, which is at work
/// once it has it.
pub fn send_answered(app: &mut App, result: Result<(), String>)
    requires
        old(app).wf(),
    ensures
        match result {
            Ok(()) => *final(app) == (App {
                activity: Activity { status: Status::Running, ..old(app).activity },
                ..*old(app)
            }),
            Err(error) => noted(
                *old(app),
                *final(app),
                LogLevel::Error,
                "send failed: "@ + error@,
            ),
        },
        final(app).wf(),
{
    match result {
        Ok(()) => {
            app.activity.status = Status::Running;
        },
        Err(error) => log_error(app, "send failed: ".to_owned().concat(error.as_str())),
    }
}

// --- Laws --------------------------------------------------------------------

/// A message is sent in exactly one way: it launches where nothing was
/// launched, waits while the agent is at work, is sent while it is idle, and
/// resumes a session that has stopped or ended.
pub proof fn law_a_message_goes_one_way(
    before: App,
    live: Live,
    message: Seq<char>,
    after: App,
    dispatch: Dispatch,
)
    requires
        dispatches(before, live, message, after, dispatch),
        directory_asked(message) is None,
        live is Pending || before.session_id@.len() > 0,
    ensures
        live is Pending <==> dispatch is Create,
        (live is Running && before.activity.status is Running) <==> dispatch is Queue,
        (live is Running && (before.activity.status is Idle || before.activity.status
            is Background)) <==> dispatch is Send,
        (live is Viewing || (live is Running && (before.activity.status is Pending
            || before.activity.status is Stopped || before.activity.status is Ended))) <==> dispatch
            is Resume,
        after.outbox.contract is None,
{
}

/// A message to a session that was stopped goes to that session: it is resumed
/// under its own id, with the policy as it now is.
pub proof fn law_a_stopped_session_is_resumed(
    app: App,
    message: Seq<char>,
    after: App,
    dispatch: Dispatch,
)
    requires
        dispatches(session::stopped(app), Live::Viewing, message, after, dispatch),
        directory_asked(message) is None,
        app.session_id@.len() > 0,
    ensures
        can_edit(session::stopped(app).activity.status),
        dispatch matches Dispatch::Resume { resume, message: text, .. } && resume.id
            == app.session_id && resume.launch@ == app.launch.interaction@ && text@ == message,
        after.timeline == app.timeline,
        after.session_id == app.session_id,
{
}

/// The same key that opens a view closes it again.
pub proof fn law_a_view_key_toggles(before: App, view: View)
    requires
        view != View::Events,
    ensures
        (App { view: before.toggled(view), ..before }).toggled(view) == (if before.view == view {
            view
        } else {
            View::Events
        }),
{
}

/// The global keys mean the same in every view but for the two letters that the
/// preview and the files keep.
pub proof fn law_global_keys_are_global(a: View, b: View, code: KeyCode)
    requires
        anywhere(a, code) is Some,
        anywhere(b, code) is Some,
    ensures
        anywhere(a, code) == anywhere(b, code),
{
}

/// A key after one that began a fold only folds: it asks for nothing and leaves
/// nothing to do.
pub proof fn law_a_fold_takes_one_key(view: View, preview_open: bool, code: KeyCode)
    ensures
        meaning(view, preview_open, true, code) == Command::ExpandAll || meaning(
            view,
            preview_open,
            true,
            code,
        ) == Command::CollapseAll || meaning(view, preview_open, true, code) == Command::Ignored,
{
}

} // verus!
