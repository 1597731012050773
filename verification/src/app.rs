//! The client's screen: which view is up, what the operator has typed and
//! chosen, and what is asked of the event loop.

use vstd::prelude::*;
use vstd::view::View as _;

use crate::activity::{Activity, Status};
use crate::answer::AnswerView;
use crate::composer::{Composer, ComposerView};
use crate::event::{block_views, BlockView, DetailBlock};
use crate::files;
use crate::files::{block_text, mentions, ordered_items, EntryText, FilesView};
use crate::help::Help;
use crate::ingest;
use crate::ingest::Arrival;
use crate::insert::Prompt;
use crate::references;
use crate::references::{reference_views, references_from, References};
use crate::interactions::LiveInteractions;
use crate::launch;
use crate::launch::{can_edit, Launch};
use crate::launcher::{Catalog, Launcher};
use crate::notes::Notes;
use crate::notices::Notices;
use crate::order::strictly_ordered;
use crate::outbox::Outbox;
use crate::path::{is_absolute, join, rooted, under};
use crate::picker::TemplatePicker;
use crate::preview::{Choices, Preview, PreviewTarget};
use crate::protocol::{
    AgentEvent, Contract, InteractionEnd, LogEntry, LogLevel, Provider, QuotaEvent,
    QuotaStatus, QueuedMessage, Selection, WorkspaceLaunchChange, WorkspaceSummary,
};
pub use crate::protocol::LaunchPolicy;
use crate::raw::RawView;
pub use crate::scroll::Scroll;
use crate::tail::Tail;
use crate::text::{holds, same, view_of};
use crate::timeline::{Entry, Step, Timeline};
use crate::workspace::Location;

verus! {

/// Where keys go.
#[derive(Clone, Copy, Debug, PartialEq, Eq, Structural)]
pub enum Focus {
    /// The event list.
    List,
    /// The message box.
    Input,
}

/// What the main region shows.
#[derive(Clone, Copy, Debug, PartialEq, Eq, Structural)]
pub enum View {
    Events,
    Raw,
    Log,
    Quota,
    Transcript,
    Driva,
    Files,
    Answer,
    Preview,
}

/// How many models chosen before are remembered.
pub const RECENT_MODELS: usize = 16;

/// The agent, model and effort that the status line names.
#[derive(Debug, PartialEq, Eq)]
pub struct LaunchLabel {
    pub agent: String,
    pub model: Option<String>,
    pub effort: Option<String>,
    /// Whether the agent itself named the model.
    pub model_reported: bool,
    /// Whether the agent itself named the effort.
    pub effort_reported: bool,
}

/// Something that the screen cannot carry out itself.
#[derive(Debug, PartialEq, Eq)]
pub enum Request {
    Quit,
    /// Choose a Workspace, then one of its sessions.
    Workspace,
    /// Choose another session of this Workspace.
    Sessions,
    /// Show the session with this id.
    OpenSession(String),
    /// Show the server's live interactions.
    Interactions,
    /// Go to the next interaction that waits unseen.
    NextIdleInteraction,
    /// Fetch the wire history, then show it.
    Raw,
    /// Stop this interaction and return to the start screen.
    Reset,
    /// Return to the start screen, and leave this interaction running.
    NewSession,
    /// Open the selected file in the editor.
    EditFile,
    /// Choose the templates of the next launch.
    Templates,
    /// Change the Workspace's standing policy, and drop this interaction's own
    /// settings where they are part of the change.
    ChangeWorkspaceLaunch { change: WorkspaceLaunchChange, clear_interaction: bool },
    /// Turn this Workspace's worktrees on or off.
    SetWorktreesEnabled(bool),
    /// Switch the live interaction to the current selection.
    ApplySelection,
    /// Fetch the plan-quota log.
    Quota,
    /// Fetch the last turn's answer, read under `contract` where one is named.
    Answer { contract: Option<Contract> },
    /// Open this file.
    OpenPath(String),
    /// Carry the session on with another agent.
    ConvertProvider(Provider),
    /// Have the session asked again, or not, once a limit it ran into resets.
    SetAutoRetry(bool),
}

/// The whole screen.
pub struct App {
    pub timeline: Timeline,
    pub focus: Focus,
    pub view: View,
    pub help: Help,
    pub composer: Composer,
    pub interactions: LiveInteractions,
    pub outbox: Outbox,
    pub activity: Activity,
    pub notices: Notices,
    pub preview: Preview,
    /// What the next session launches with.
    pub selection: Selection,
    /// What there is to launch.
    pub catalog: Catalog,
    pub launcher: Option<Launcher>,
    /// Models chosen before, the last one first.
    pub recent_models: Vec<String>,
    /// The model and effort that the agent said it runs.
    pub reported_model: Option<(String, Option<String>)>,
    pub workspace: Location,
    pub session_id: String,
    pub session_name: Option<String>,
    pub launch: Launch,
    pub raw: RawView,
    pub log: Tail<LogEntry>,
    pub quota: Tail<QuotaEvent>,
    pub transcript: Scroll,
    pub files: FilesView,
    pub answer: AnswerView,
    pub insert: Option<Prompt>,
    /// The files that a reply cites, while one of them is chosen.
    pub references: Option<References>,
    pub request: Option<Request>,
    pub notes: Notes,
    pub template_picker: Option<TemplatePicker>,
    /// How many changes to the Workspace's policy the server has not answered.
    pub workspace_launch_pending: u64,
    /// Whether the session is asked again once a limit it ran into resets.
    pub auto_retry: bool,
}

/// What of a screen is the operator's, and outlives it.
pub struct OperatorState {
    pub interactions: LiveInteractions,
    pub conversation_only: bool,
    pub preview: Choices,
    pub recent_models: Vec<String>,
    pub composer: Composer,
    pub contract: Option<Contract>,
    pub file_show_all: bool,
}

/// What the screen is told of the world outside it.
pub struct Surroundings {
    /// Where the client runs.
    pub current_directory: Option<String>,
    /// What each entry of the timeline says in full.
    pub texts: Vec<EntryText>,
    /// Which of the places that entries name are files.
    pub present: Vec<String>,
    /// What the agent's protocol presents of the previewed entry.
    pub detail: Vec<DetailBlock>,
    /// The line it presents of the previewed entry.
    pub summary: String,
}

/// Whether `after` is `before` with one more message to the operator.
pub open spec fn told(before: App, after: App, message: Seq<char>) -> bool {
    &&& after == (App {
        notices: Notices { messages: after.notices.messages, ..before.notices },
        ..before
    })
    &&& after.notices.said() == before.notices.said().push(message)
}

/// Whether one log is another with one more entry.
pub open spec fn log_grown(before: Tail<LogEntry>, after: Tail<LogEntry>, entry: LogEntry) -> bool {
    &&& after.items@ == before.items@.push(entry)
    &&& after.back == if before.back > 0 {
        (before.back + 1) as usize
    } else {
        0
    }
}

/// Whether `after` is `before` with one more log entry.
pub open spec fn logged(before: App, after: App, entry: LogEntry) -> bool {
    &&& after == (App { log: after.log, ..before })
    &&& log_grown(before.log, after.log, entry)
}

/// Whether a log that grew still shows the entries it showed: one that is
/// scrolled back stays on them, and another stays at its newest.
pub open spec fn stays_put(before: Tail<LogEntry>, after: Tail<LogEntry>) -> bool {
    after.back == if before.back > 0 {
        before.back + after.items@.len() - before.items@.len()
    } else {
        0
    }
}

/// What log entries say, each at its level.
pub open spec fn log_views(entries: Seq<LogEntry>) -> Seq<(LogLevel, Seq<char>)> {
    entries.map_values(|entry: LogEntry| (entry.level, entry.message@))
}

/// The models chosen before, once `model` is chosen.
pub open spec fn recent_after(recent: Seq<String>, model: String) -> Seq<String> {
    let all = seq![model] + recent.filter(|m: String| m@ != model@);
    if all.len() <= RECENT_MODELS {
        all
    } else {
        all.take(RECENT_MODELS as int)
    }
}

/// The text of a list of blocks, a line break before each that follows text.
pub open spec fn joined_blocks(blocks: Seq<BlockView>) -> Seq<char>
    decreases blocks.len(),
{
    if blocks.len() == 0 {
        Seq::empty()
    } else {
        let before = joined_blocks(blocks.drop_last());
        (if before.len() > 0 {
            before.push('\n')
        } else {
            before
        }) + block_text(blocks.last())
    }
}

fn join_blocks(blocks: &Vec<DetailBlock>) -> (r: String)
    ensures
        r@ == joined_blocks(block_views(blocks@)),
{
    let mut r = String::new();
    let mut i: usize = 0;
    assert(block_views(blocks@).take(0) =~= Seq::<BlockView>::empty());
    while i < blocks.len()
        invariant
            i <= blocks@.len(),
            r@ == joined_blocks(block_views(blocks@).take(i as int)),
        decreases blocks.len() - i,
    {
        proof {
            let views = block_views(blocks@);
            assert(views.take(i + 1).drop_last() =~= views.take(i as int));
            assert(views.take(i + 1).last() == views[i as int]);
        }
        if !r.as_str().is_empty() {
            r.push('\n');
        }
        match &blocks[i] {
            DetailBlock::Text(text) => r.append(text.as_str()),
            DetailBlock::Code { text, .. } => r.append(text.as_str()),
        }
        i = i + 1;
    }
    assert(block_views(blocks@).take(blocks@.len() as int) =~= block_views(blocks@));
    r
}

impl App {
    /// What every screen keeps true of its parts.
    pub open spec fn wf(self) -> bool {
        &&& self.timeline.wf()
        &&& self.raw.wf()
        &&& self.composer@.wf()
        &&& self.log.wf()
        &&& self.quota.wf()
        &&& self.answer.wf()
        &&& self.catalog.wf()
        &&& self.references matches Some(list) ==> list.wf()
    }

    /// Whether this is the screen a session starts with.
    pub open spec fn is_new(self, catalog: Catalog, selection: Selection, session_id: String) -> bool {
        &&& self.timeline.entries@.len() == 0
        &&& self.timeline == (Timeline {
            entries: self.timeline.entries,
            selected: 0,
            follow: true,
            show_minor: false,
            conversation_only: false,
        })
        &&& self.focus == Focus::List
        &&& self.view == View::Events
        &&& self.help == (Help { open: false, scroll: Scroll::at_top() })
        &&& self.composer@ == ComposerView::empty()
        &&& self.interactions.is_new()
        &&& self.outbox.contract is None
        &&& self.outbox.queued@ == Seq::<QueuedMessage>::empty()
        &&& self.notices.said() == Seq::<Seq<char>>::empty()
        &&& self.notices.since@ == Seq::<u64>::empty()
        &&& self.preview == Preview::closed()
        &&& self.selection == selection
        &&& self.catalog == catalog
        &&& self.launcher is None
        &&& self.recent_models@ == Seq::<String>::empty()
        &&& self.reported_model is None
        &&& self.workspace == Location::nowhere()
        &&& self.session_id == session_id
        &&& self.session_name is None
        &&& self.launch.workspace@ == crate::protocol::no_policy()
        &&& self.launch.interaction@ == crate::protocol::no_policy()
        &&& self.launch == (Launch {
            workspace: self.launch.workspace,
            interaction: self.launch.interaction,
            scope: crate::launch::LaunchScope::Interaction,
            selected: (0, 0),
            prompt: None,
            driva: None,
            planned: false,
            plan_key: None,
        })
        &&& self.raw.lines@.len() == 0
        &&& self.raw == (RawView {
            lines: self.raw.lines,
            selected: 0,
            follow: true,
            preview: Scroll::at_top(),
        })
        &&& self.log.items@.len() == 0
        &&& self.log.back == 0
        &&& self.quota.items@.len() == 0
        &&& self.quota.back == 0
        &&& self.transcript == Scroll::at_top()
        &&& self.files == (FilesView { selected: 0, show_all: false })
        &&& self.answer == (AnswerView { answer: None, error: None, selected: 0 })
        &&& self.insert is None
        &&& self.references is None
        &&& self.request is None
        &&& self.notes.editor is None
        &&& self.notes.session@ == Seq::<char>::empty()
        &&& self.notes.workspace@ == Seq::<char>::empty()
        &&& !self.notes.loaded
        &&& self.template_picker is None
        &&& self.workspace_launch_pending == 0
        &&& !self.auto_retry
    }

    /// The screen of a session.
    pub fn new(catalog: Catalog, selection: Selection, session_id: String) -> (r: App)
        requires
            catalog.wf(),
        ensures
            r.is_new(catalog, selection, session_id),
            r.activity == Activity::fresh(),
            r.wf(),
    {
        let r = App {
            timeline: Timeline::default(),
            focus: Focus::List,
            view: View::Events,
            help: Help::default(),
            composer: Composer::default(),
            interactions: LiveInteractions::default(),
            outbox: Outbox::default(),
            activity: Activity::default(),
            notices: Notices::default(),
            preview: Preview::default(),
            selection,
            catalog,
            launcher: None,
            recent_models: Vec::new(),
            reported_model: None,
            workspace: Location::default(),
            session_id,
            session_name: None,
            launch: Launch::default(),
            raw: RawView::default(),
            log: Tail::new(),
            quota: Tail::new(),
            transcript: Scroll::default(),
            files: FilesView::default(),
            answer: AnswerView::default(),
            insert: None,
            references: None,
            request: None,
            notes: Notes::default(),
            template_picker: None,
            workspace_launch_pending: 0,
            auto_retry: false,
        };
        assert(r.notices.said() =~= Seq::<Seq<char>>::empty());
        assert(r.notices.since@ =~= Seq::<u64>::empty());
        r
    }

    /// The start screen: nothing is launched, and the first message launches.
    pub fn pending(catalog: Catalog, selection: Selection) -> (r: App)
        requires
            catalog.wf(),
        ensures
            r.session_id@ == Seq::<char>::empty(),
            r.is_new(catalog, selection, r.session_id),
            r.activity == (Activity { status: Status::Pending, ..Activity::fresh() }),
            r.wf(),
    {
        let mut app = App::new(catalog, selection, String::new());
        app.activity.status = Status::Pending;
        app
    }

    /// What of this screen is the operator's.
    pub open spec fn operator_state(self) -> OperatorState {
        OperatorState {
            interactions: self.interactions,
            conversation_only: self.timeline.conversation_only,
            preview: self.preview.chosen(),
            recent_models: self.recent_models,
            composer: self.composer,
            contract: self.outbox.contract,
            file_show_all: self.files.show_all,
        }
    }

    /// This screen with the operator's things on it.
    pub open spec fn adopting(self, state: OperatorState) -> App {
        App {
            interactions: state.interactions,
            timeline: Timeline { conversation_only: state.conversation_only, ..self.timeline },
            preview: self.preview.adopting(state.preview),
            recent_models: state.recent_models,
            composer: state.composer,
            outbox: Outbox { contract: state.contract, ..self.outbox },
            files: FilesView { selected: 0, show_all: state.file_show_all },
            ..self
        }
    }

    /// Take the operator's things off this screen.
    pub fn take_operator_state(&mut self) -> (r: OperatorState)
        ensures
            r == old(self).operator_state(),
            final(self).interactions.is_new(),
            final(self).recent_models@ == Seq::<String>::empty(),
            final(self).composer@ == ComposerView::empty(),
            *final(self) == (App {
                interactions: final(self).interactions,
                recent_models: final(self).recent_models,
                composer: final(self).composer,
                outbox: Outbox { contract: None, ..old(self).outbox },
                ..*old(self)
            }),
            old(self).wf() ==> final(self).wf(),
    {
        let mut interactions = LiveInteractions::default();
        core::mem::swap(&mut interactions, &mut self.interactions);
        let mut recent_models: Vec<String> = Vec::new();
        core::mem::swap(&mut recent_models, &mut self.recent_models);
        let mut composer = Composer::default();
        core::mem::swap(&mut composer, &mut self.composer);
        let contract = self.outbox.take_contract();
        OperatorState {
            interactions,
            conversation_only: self.timeline.conversation_only,
            preview: self.preview.choices(),
            recent_models,
            composer,
            contract,
            file_show_all: self.files.shows_all(),
        }
    }

    /// Put the operator's things on this screen.
    pub fn adopt(&mut self, state: OperatorState)
        ensures
            *final(self) == old(self).adopting(state),
            old(self).wf() && state.composer@.wf() ==> final(self).wf(),
    {
        self.interactions = state.interactions;
        self.timeline.conversation_only = state.conversation_only;
        self.preview.adopt(state.preview);
        self.recent_models = state.recent_models;
        self.composer = state.composer;
        self.outbox.set_contract(state.contract);
        self.files.set_scope(state.file_show_all);
    }

    /// Show a Workspace: which one it is, and the standing policy of launches
    /// in it.
    pub fn show_workspace(&mut self, workspace: &WorkspaceSummary)
        ensures
            final(self).launch.workspace@ == workspace.launch@,
            *final(self) == (App {
                workspace: old(self).workspace.showing(*workspace),
                launch: Launch {
                    workspace: final(self).launch.workspace,
                    selected: (0, 0),
                    ..old(self).launch
                },
                ..*old(self)
            }),
            old(self).wf() ==> final(self).wf(),
    {
        self.workspace.show(workspace);
        self.launch.set_workspace(workspace.launch.copied());
    }

    /// Whether the model can still be chosen.
    pub open spec fn configurable(self) -> bool {
        self.activity.status is Pending || (self.activity.status is Idle && (
        self.selection.provider == Provider::Codex || self.selection.provider == Provider::Claude))
    }

    /// Whether the model can still be chosen: before a launch, and between the
    /// turns of an agent that lets it change.
    pub fn can_configure_launch(&self) -> (r: bool)
        ensures
            r == self.configurable(),
    {
        match self.activity.status {
            Status::Pending => true,
            Status::Idle => self.selection.provider == Provider::Codex || self.selection.provider
                == Provider::Claude,
            _ => false,
        }
    }

    /// Open the launch picker on the current selection, where there is anything
    /// to choose.
    pub fn open_launcher(&mut self)
        requires
            old(self).wf(),
        ensures
            if old(self).configurable() {
                &&& final(self).launcher matches Some(launcher) && launcher.recent_models@
                    == old(self).recent_models@ && launcher == Launcher::opened(
                    old(self).catalog,
                    old(self).selection,
                    launcher.recent_models,
                )
                &&& *final(self) == (App { launcher: final(self).launcher, ..*old(self) })
            } else {
                *final(self) == *old(self)
            },
            final(self).wf(),
    {
        if self.can_configure_launch() {
            self.launcher = Some(
                Launcher::from_selection(&self.catalog, &self.selection, &self.recent_models),
            );
        }
    }

    /// The selection that a choice leads to. An agent that cannot change its effort
    /// keeps it.
    pub open spec fn settled_choice(self, chosen: Selection) -> Selection {
        if self.activity.status !is Pending && chosen.provider == Provider::Claude && chosen.effort
            != self.selection.effort {
            Selection { effort: self.selection.effort, ..chosen }
        } else {
            chosen
        }
    }

    /// What an agent is called where a message names it.
    pub open spec fn agent_name(self, provider: Provider) -> Seq<char> {
        if self.catalog.has(provider) {
            self.catalog.providers@[self.catalog.row(provider)].name@
        } else {
            "this agent"@
        }
    }

    /// Whether a choice leads from this screen to another.
    pub open spec fn confirms(self, chosen: Selection, after: App) -> bool {
        let live = self.activity.status !is Pending;
        let settled = self.settled_choice(chosen);
        if live && chosen.provider != self.selection.provider {
            told(App { launcher: None, ..self }, after, "changing agent requires a new session"@)
        } else {
            &&& after.recent_models@ == recent_after(self.recent_models@, settled.model)
            &&& after.notices.said() == if settled.effort != chosen.effort {
                self.notices.said().push(
                    self.agent_name(chosen.provider)
                        + " can change model between turns; effort remains session-wide"@,
                )
            } else {
                self.notices.said()
            }
            &&& after == (App {
                launcher: None,
                selection: settled,
                reported_model: None,
                recent_models: after.recent_models,
                notices: Notices { messages: after.notices.messages, ..self.notices },
                request: if live && settled@ != self.selection@ {
                    Some(Request::ApplySelection)
                } else {
                    self.request
                },
                ..self
            })
        }
    }

    /// Take over what the picker describes, and close it. A live session is
    /// switched right away.
    pub fn confirm_launcher(&mut self)
        requires
            old(self).wf(),
        ensures
            match old(self).launcher {
                Some(launcher) => old(self).confirms(
                    launcher.described(old(self).catalog),
                    *final(self),
                ),
                None => *final(self) == *old(self),
            },
            final(self).wf(),
    {
        let chosen = match &self.launcher {
            Some(launcher) => launcher.selection(&self.catalog),
            None => {
                return ;
            },
        };
        self.launcher = None;
        let live = match self.activity.status {
            Status::Pending => false,
            _ => true,
        };
        if live && chosen.provider != self.selection.provider {
            self.show_action_message("changing agent requires a new session".to_owned());
            return ;
        }
        let mut selection = chosen;
        if live && selection.provider == Provider::Claude && selection.effort
            != self.selection.effort {
            selection.effort = self.selection.effort;
            let name = match self.catalog.name_of(selection.provider) {
                Some(name) => name.to_owned(),
                None => "this agent".to_owned(),
            };
            self.show_action_message(
                name.concat(" can change model between turns; effort remains session-wide"),
            );
        }
        let switched = live && !selection.is(&self.selection);
        self.note_recent_model(&selection.model);
        self.set_selection(selection);
        self.reported_model = None;
        if switched {
            self.ask(Request::ApplySelection);
        }
    }

    fn note_recent_model(&mut self, model: &String)
        ensures
            final(self).recent_models@ == recent_after(old(self).recent_models@, *model),
            *final(self) == (App { recent_models: final(self).recent_models, ..*old(self) }),
    {
        let ghost others = |m: String| m@ != model@;
        let ghost before = self.recent_models@;
        let mut list: Vec<String> = vec![model.clone()];
        let mut i: usize = 0;
        proof {
            assert(before.take(0) =~= Seq::<String>::empty());
            reveal_with_fuel(Seq::filter, 1);
            assert(list@ =~= seq![*model] + before.take(0).filter(others));
        }
        while i < self.recent_models.len()
            invariant
                i <= before.len(),
                before == self.recent_models@,
                others == (|m: String| m@ != model@),
                list@ == seq![*model] + before.take(i as int).filter(others),
                *self == *old(self),
            decreases self.recent_models.len() - i,
        {
            proof {
                assert(before.take(i + 1).drop_last() =~= before.take(i as int));
                assert(before.take(i + 1).last() == before[i as int]);
                reveal_with_fuel(Seq::filter, 1);
            }
            if !same(self.recent_models[i].as_str(), model.as_str()) {
                list.push(self.recent_models[i].clone());
                assert(list@ =~= seq![*model] + before.take(i + 1).filter(others));
            }
            i = i + 1;
        }
        assert(before.take(before.len() as int) =~= before);
        if list.len() > RECENT_MODELS {
            list.truncate(RECENT_MODELS);
        }
        self.recent_models = list;
    }

    /// Close the picker, and leave the selection as it was.
    pub fn cancel_launcher(&mut self)
        ensures
            *final(self) == (App { launcher: None, ..*old(self) }),
    {
        self.launcher = None;
    }

    /// What the status line names: what the agent reported, and otherwise what
    /// was asked for. An agent that is not listed has no name.
    pub fn launch_label(&self) -> (r: LaunchLabel)
        ensures
            r.agent@ == if self.catalog.has(self.selection.provider) {
                self.catalog.providers@[self.catalog.row(self.selection.provider)].name@
            } else {
                "unknown agent"@
            },
            match self.reported_model {
                Some((model, effort)) => {
                    &&& r.model_reported && r.model == Some(model)
                    &&& r.effort_reported == (effort is Some)
                    &&& view_of(r.effort) == match effort {
                        Some(effort) => Some(effort@),
                        None => Some(self.selection.effort.word()),
                    }
                },
                None => {
                    &&& !r.model_reported && r.model == Some(self.selection.model)
                    &&& !r.effort_reported && view_of(r.effort) == Some(
                        self.selection.effort.word(),
                    )
                },
            },
    {
        let agent = match self.catalog.name_of(self.selection.provider) {
            Some(name) => name.to_owned(),
            None => "unknown agent".to_owned(),
        };
        let requested = self.selection.effort.as_str().to_owned();
        match &self.reported_model {
            Some((model, effort)) => LaunchLabel {
                agent,
                model: Some(model.clone()),
                effort_reported: effort.is_some(),
                effort: Some(
                    match effort {
                        Some(effort) => effort.clone(),
                        None => requested,
                    },
                ),
                model_reported: true,
            },
            None => LaunchLabel {
                agent,
                model: Some(self.selection.model.clone()),
                effort: Some(requested),
                model_reported: false,
                effort_reported: false,
            },
        }
    }

    /// List the files that a reply cites and that are there, for one of them to
    /// be chosen. Where it cites none, nothing opens.
    pub fn open_references(&mut self, reply: &str, present: &Vec<String>)
        ensures
            ({
                let cited = references_from(
                    files::citations(reply@),
                    view_of(old(self).workspace.root),
                    present@,
                );
                &&& match final(self).references {
                    Some(list) => cited.len() > 0 && reference_views(list.references@) == cited
                        && list.selected == 0,
                    None => cited.len() == 0,
                }
                &&& *final(self) == (App { references: final(self).references, ..*old(self) })
            }),
            old(self).wf() ==> final(self).wf(),
    {
        let cited = references::in_reply(reply, &self.workspace.root, present);
        assert(reference_views(cited@).len() == cited@.len());
        self.references = References::new(cited);
    }

    /// Record what the next session launches with.
    pub fn set_selection(&mut self, selection: Selection)
        ensures
            *final(self) == (App { selection, ..*old(self) }),
    {
        self.selection = selection;
    }

    /// Tell the operator something.
    pub fn show_action_message(&mut self, message: String)
        ensures
            told(*old(self), *final(self), message@),
            old(self).wf() ==> final(self).wf(),
    {
        self.notices.show(message);
    }

    /// Replace what is in the message box.
    pub fn set_input(&mut self, text: String)
        ensures
            final(self).composer@ == old(self).composer@.edited(text@),
            *final(self) == (App { composer: final(self).composer, ..*old(self) }),
            old(self).wf() ==> final(self).wf(),
    {
        self.composer.set(text);
    }

    /// Add an entry to the diagnostic log.
    pub fn push_log(&mut self, entry: LogEntry)
        requires
            old(self).wf(),
        ensures
            logged(*old(self), *final(self), entry),
            final(self).wf(),
    {
        self.log.push(entry);
    }

    /// Whether a quota reading leads from this screen to another.
    pub open spec fn notes_quota(self, reading: QuotaEvent, description: String, after: App) -> bool {
        &&& log_grown(
            self.log,
            after.log,
            LogEntry {
                level: if reading.status == QuotaStatus::Exhausted {
                    LogLevel::Error
                } else {
                    LogLevel::Warn
                },
                message: description,
            },
        )
        &&& after.notices.said() == self.notices.said().push(description@)
        &&& after.quota.items@ == self.quota.items@.push(reading)
        &&& after.quota.back == if self.quota.back > 0 {
            (self.quota.back + 1) as usize
        } else {
            0
        }
        &&& after == (App {
            log: after.log,
            notices: Notices { messages: after.notices.messages, ..self.notices },
            quota: after.quota,
            ..self
        })
    }

    /// Take a quota reading, with the words for it: it is listed, logged and
    /// told.
    pub fn note_quota(&mut self, reading: QuotaEvent, description: String)
        requires
            old(self).wf(),
        ensures
            old(self).notes_quota(reading, description, *final(self)),
            final(self).wf(),
    {
        let exhausted = match reading.status {
            QuotaStatus::Exhausted => true,
            _ => false,
        };
        let entry = if exhausted {
            LogEntry::error(description.clone())
        } else {
            LogEntry::warn(description.clone())
        };
        self.push_log(entry);
        self.show_action_message(description);
        self.quota.push(reading);
    }

    /// The wire line behind the selected entry, while the list is not following.
    pub open spec fn selected_line(self) -> Option<usize> {
        if !self.timeline.follow && self.timeline.selected < self.timeline.entries@.len() {
            self.timeline.entries@[self.timeline.selected as int].raw_index
        } else {
            None
        }
    }

    /// Show the wire lines, from the one behind the selected entry; or return
    /// to the event list.
    pub fn toggle_raw(&mut self)
        ensures
            *final(self) == if old(self).view == View::Raw {
                App { view: View::Events, ..*old(self) }
            } else {
                App {
                    view: View::Raw,
                    raw: old(self).raw.entered(old(self).selected_line()),
                    ..*old(self)
                }
            },
            old(self).wf() ==> final(self).wf(),
    {
        if self.view == View::Raw {
            self.view = View::Events;
            return ;
        }
        self.view = View::Raw;
        let line = if self.timeline.follow {
            None
        } else {
            match self.timeline.selected_entry() {
                Some(entry) => entry.raw_index,
                None => None,
            }
        };
        self.raw.enter(line);
    }

    /// The view after `view` was asked for.
    pub open spec fn toggled(self, view: View) -> View {
        if self.view == view {
            View::Events
        } else {
            view
        }
    }

    /// Show `view`, or return to the event list where it is already up.
    pub fn toggle_view(&mut self, view: View)
        ensures
            *final(self) == (App { view: old(self).toggled(view), ..*old(self) }),
            old(self).wf() ==> final(self).wf(),
    {
        self.view = if self.view == view {
            View::Events
        } else {
            view
        };
    }

    /// Whether a message can still be sent.
    pub fn can_send(&self) -> (r: bool)
        ensures
            r == (self.activity.status !is Ended),
    {
        self.activity.status.is_active()
    }

    /// Take an event from the agent.
    pub fn push_event(&mut self, event: AgentEvent, arrival: Arrival)
        requires
            old(self).wf(),
            old(self).activity.events < u64::MAX,
        ensures
            ingest::ingests(*old(self), event, arrival, *final(self)),
            final(self).wf(),
    {
        ingest::push_event(self, event, arrival);
    }

    /// Record that the session ended.
    pub fn on_ended(&mut self, end: InteractionEnd)
        ensures
            *final(self) == old(self).ended(end),
            old(self).wf() ==> final(self).wf(),
    {
        ingest::on_ended(self, end);
    }

    /// This screen once its session has ended.
    pub open spec fn ended(self, end: InteractionEnd) -> App {
        App {
            activity: Activity {
                status: Status::Ended { exit_code: end.exit_code, error: end.error },
                ..self.activity
            },
            ..self
        }
    }

    /// On the last entry, from the top of its preview.
    pub open spec fn on_tail(self) -> App {
        App {
            timeline: Timeline {
                selected: (self.timeline.entries@.len() - 1) as usize,
                ..self.timeline
            },
            preview: self.preview.top(),
            ..self
        }
    }

    /// Select the last entry, from the top of its preview.
    pub fn select_tail(&mut self)
        requires
            old(self).timeline.entries@.len() > 0,
        ensures
            *final(self) == old(self).on_tail(),
            final(self).timeline.wf(),
    {
        self.timeline.select_tail();
        self.preview.scroll.reset();
    }

    /// This screen with another place in the timeline. The preview of another
    /// entry starts from its top.
    pub open spec fn at(self, timeline: Timeline) -> App {
        App {
            preview: if timeline.selected != self.timeline.selected {
                self.preview.top()
            } else {
                self.preview
            },
            timeline,
            ..self
        }
    }

    fn moved(&mut self, moved: bool)
        ensures
            *final(self) == if moved {
                App { preview: old(self).preview.top(), ..*old(self) }
            } else {
                *old(self)
            },
    {
        if moved {
            self.preview.scroll.reset();
        }
    }

    /// Select the next entry that has more to show than its line.
    pub fn select_next(&mut self)
        requires
            old(self).wf(),
        ensures
            *final(self) == old(self).at(old(self).timeline.forward(Step::WithDetail)),
            final(self).wf(),
    {
        let moved = self.timeline.select_forward(Step::WithDetail);
        self.moved(moved);
    }

    /// Select the entry before that has more to show than its line.
    pub fn select_prev(&mut self)
        requires
            old(self).wf(),
        ensures
            *final(self) == old(self).at(old(self).timeline.backward(Step::WithDetail)),
            final(self).wf(),
    {
        let moved = self.timeline.select_backward(Step::WithDetail);
        self.moved(moved);
    }

    /// Select the next visible entry.
    pub fn select_next_line(&mut self)
        requires
            old(self).wf(),
        ensures
            *final(self) == old(self).at(old(self).timeline.forward(Step::Line)),
            final(self).wf(),
    {
        let moved = self.timeline.select_forward(Step::Line);
        self.moved(moved);
    }

    /// Select the visible entry before.
    pub fn select_prev_line(&mut self)
        requires
            old(self).wf(),
        ensures
            *final(self) == old(self).at(old(self).timeline.backward(Step::Line)),
            final(self).wf(),
    {
        let moved = self.timeline.select_backward(Step::Line);
        self.moved(moved);
    }

    /// Select the first visible entry.
    pub fn select_first(&mut self)
        requires
            old(self).wf(),
        ensures
            *final(self) == old(self).at(old(self).timeline.first()),
            final(self).wf(),
    {
        let moved = self.timeline.select_first();
        self.moved(moved);
    }

    /// Select the last visible entry.
    pub fn select_last(&mut self)
        requires
            old(self).wf(),
        ensures
            *final(self) == old(self).at(old(self).timeline.last()),
            final(self).wf(),
    {
        let moved = self.timeline.select_last();
        self.moved(moved);
    }

    /// Show or hide minor events.
    pub fn toggle_minor(&mut self)
        requires
            old(self).wf(),
        ensures
            *final(self) == old(self).at(
                (Timeline {
                    show_minor: !old(self).timeline.show_minor,
                    ..old(self).timeline
                }).settled(),
            ),
            final(self).wf(),
    {
        let moved = self.timeline.toggle_minor();
        self.moved(moved);
    }

    /// Show the conversation alone, or everything.
    pub fn toggle_conversation_only(&mut self)
        requires
            old(self).wf(),
        ensures
            *final(self) == old(self).at(
                (Timeline {
                    conversation_only: !old(self).timeline.conversation_only,
                    ..old(self).timeline
                }).settled(),
            ),
            final(self).wf(),
    {
        let moved = self.timeline.toggle_conversation_only();
        self.moved(moved);
    }

    /// Show the files with the preview open, or return to the event list.
    pub fn toggle_files(&mut self)
        ensures
            *final(self) == if old(self).view == View::Files {
                App { view: View::Events, ..*old(self) }
            } else {
                App {
                    view: View::Files,
                    preview: Preview { open: true, ..old(self).preview },
                    ..*old(self)
                }
            },
            old(self).wf() ==> final(self).wf(),
    {
        if self.view == View::Files {
            self.view = View::Events;
        } else {
            self.view = View::Files;
            self.preview.show();
        }
    }

    /// Show the last answer, and ask for it; or return to the event list.
    pub fn toggle_answer(&mut self)
        ensures
            *final(self) == if old(self).view == View::Answer {
                App { view: View::Events, ..*old(self) }
            } else {
                App {
                    view: View::Answer,
                    request: Some(Request::Answer { contract: None }),
                    ..*old(self)
                }
            },
            old(self).wf() ==> final(self).wf(),
    {
        if self.view == View::Answer {
            self.view = View::Events;
        } else {
            self.view = View::Answer;
            self.ask(Request::Answer { contract: None });
        }
    }

    /// Ask for the last answer read under another shape.
    pub fn reread_answer(&mut self, contract: Contract)
        ensures
            *final(self) == (App {
                request: Some(Request::Answer { contract: Some(contract) }),
                ..*old(self)
            }),
            old(self).wf() ==> final(self).wf(),
    {
        self.ask(Request::Answer { contract: Some(contract) });
    }

    /// Whether entry `e` is among those whose files are listed.
    pub open spec fn listed(self, e: int) -> bool {
        0 <= e < self.timeline.entries@.len() && (self.files.show_all || e
            == self.timeline.selected)
    }

    /// Whether these are the paths that the files view lists: in order, each
    /// once, what the listed entries changed and the files they name.
    pub open spec fn lists_files(self, around: Surroundings, paths: Seq<String>) -> bool {
        &&& strictly_ordered(paths)
        &&& forall|path: Seq<char>| #[trigger]
            holds(paths, path) == exists|e: int|
                self.listed(e) && mentions(
                    #[trigger] around.texts@[e],
                    view_of(self.workspace.root),
                    around.present@,
                    path,
                )
    }

    /// Whether something is said of each entry.
    pub open spec fn described_by(self, around: Surroundings) -> bool {
        around.texts@.len() == self.timeline.entries@.len()
    }

    /// The paths that the files view lists.
    pub fn file_paths(&self, around: &Surroundings) -> (r: Vec<String>)
        requires
            self.described_by(*around),
        ensures
            self.lists_files(*around, r@),
    {
        if self.files.shows_all() {
            let r = files::mentioned(&around.texts, &self.workspace.root, &around.present);
            assert forall|path: Seq<char>| #[trigger] holds(r@, path) == exists|e: int|
                self.listed(e) && mentions(
                    #[trigger] around.texts@[e],
                    view_of(self.workspace.root),
                    around.present@,
                    path,
                ) by {
                if holds(r@, path) {
                    let e = choose|e: int|
                        0 <= e < around.texts@.len() && mentions(
                            #[trigger] around.texts@[e],
                            view_of(self.workspace.root),
                            around.present@,
                            path,
                        );
                    assert(self.listed(e));
                }
            }
            return r;
        }
        let mut texts: Vec<EntryText> = Vec::new();
        if self.timeline.selected < around.texts.len() {
            texts.push(around.texts[self.timeline.selected].copied());
        }
        let r = files::mentioned(&texts, &self.workspace.root, &around.present);
        let ghost at = self.timeline.selected as int;
        assert forall|path: Seq<char>| #[trigger] holds(r@, path) == exists|e: int|
            self.listed(e) && mentions(
                #[trigger] around.texts@[e],
                view_of(self.workspace.root),
                around.present@,
                path,
            ) by {
            if texts@.len() > 0 {
                assert(mentions(
                    texts@[0],
                    view_of(self.workspace.root),
                    around.present@,
                    path,
                ) == mentions(
                    around.texts@[at],
                    view_of(self.workspace.root),
                    around.present@,
                    path,
                ));
                assert(self.listed(at));
                if holds(r@, path) {
                    assert(mentions(
                        around.texts@[at],
                        view_of(self.workspace.root),
                        around.present@,
                        path,
                    ));
                }
                if mentions(
                    around.texts@[at],
                    view_of(self.workspace.root),
                    around.present@,
                    path,
                ) {
                    assert(mentions(
                        texts@[0],
                        view_of(self.workspace.root),
                        around.present@,
                        path,
                    ));
                }
            }
        }
        r
    }

    /// Select the next listed file.
    pub fn file_select_next(&mut self, around: &Surroundings)
        requires
            old(self).described_by(*around),
        ensures
            exists|paths: Seq<String>| #[trigger]
                old(self).lists_files(*around, paths) && *final(self) == (App {
                    files: old(self).files.next(
                        if paths.len() == 0 {
                            0
                        } else {
                            (paths.len() - 1) as usize
                        },
                    ),
                    ..*old(self)
                }),
            old(self).wf() ==> final(self).wf(),
    {
        let paths = self.file_paths(around);
        let last: usize = paths.len().saturating_sub(1);
        let ghost before = *self;
        self.files.select_next(last);
        assert(before.lists_files(*around, paths@));
    }

    /// Select the listed file before.
    pub fn file_select_prev(&mut self)
        ensures
            *final(self) == (App { files: old(self).files.prev(), ..*old(self) }),
            old(self).wf() ==> final(self).wf(),
    {
        self.files.select_prev();
    }

    /// List the files of the selected entry, or of the whole session.
    pub fn toggle_file_scope(&mut self)
        ensures
            *final(self) == (App {
                files: FilesView { selected: 0, show_all: !old(self).files.show_all },
                ..*old(self)
            }),
            old(self).wf() ==> final(self).wf(),
    {
        self.files.toggle_scope();
    }

    /// Where paths are taken from: the Workspace's root, and otherwise where
    /// the client runs.
    pub open spec fn root_in(self, around: Surroundings) -> Option<Seq<char>> {
        match self.workspace.root {
            Some(root) => Some(root@),
            None => view_of(around.current_directory),
        }
    }

    /// Whether the selected row of these files, listed from these paths, is at
    /// this place.
    pub open spec fn picks(
        self,
        around: Surroundings,
        root: Seq<char>,
        paths: Seq<String>,
        items: Seq<files::FileItem>,
        path: Option<Seq<char>>,
    ) -> bool {
        &&& self.lists_files(around, paths)
        &&& ordered_items(root, paths, items)
        &&& path == if self.files.selected < items.len() {
            Some(items[self.files.selected as int].resolved@)
        } else {
            None
        }
    }

    /// Whether the selected row of the listed files is at this place.
    pub open spec fn lists_at(
        self,
        around: Surroundings,
        root: Seq<char>,
        path: Option<Seq<char>>,
    ) -> bool {
        exists|paths: Seq<String>, items: Seq<files::FileItem>| #[trigger]
            self.picks(around, root, paths, items, path)
    }

    /// Whether this is the host path of the selected file: of the selected
    /// location in the answer view, and of the selected row of the listed files
    /// elsewhere.
    pub open spec fn selects_file(self, around: Surroundings, path: Option<Seq<char>>) -> bool {
        match self.root_in(around) {
            None => path is None,
            Some(root) => if self.view == View::Answer {
                path == match self.answer.file() {
                    Some(file) => Some(
                        if rooted(file.path@) {
                            file.path@
                        } else {
                            under(root, file.path@)
                        },
                    ),
                    None => None,
                }
            } else {
                self.lists_at(around, root, path)
            },
        }
    }

    /// The host path of the selected file.
    pub fn selected_file_path(&self, around: &Surroundings) -> (r: Option<String>)
        requires
            self.described_by(*around),
        ensures
            self.selects_file(*around, view_of(r)),
    {
        let root = match &self.workspace.root {
            Some(root) => root.clone(),
            None => match &around.current_directory {
                Some(directory) => directory.clone(),
                None => {
                    return None;
                },
            },
        };
        if self.view == View::Answer {
            return match self.answer.selected_file() {
                Some(file) => Some(
                    if is_absolute(file.path.as_str()) {
                        file.path.clone()
                    } else {
                        join(root.as_str(), file.path.as_str())
                    },
                ),
                None => None,
            };
        }
        self.listed_file(around, root.as_str())
    }

    fn listed_file(&self, around: &Surroundings, root: &str) -> (r: Option<String>)
        requires
            self.described_by(*around),
        ensures
            self.lists_at(*around, root@, view_of(r)),
    {
        let paths = self.file_paths(around);
        let ghost listed = paths@;
        let items = files::items(root, paths);
        let r = if self.files.selected_index() < items.len() {
            Some(items[self.files.selected_index()].resolved.clone())
        } else {
            None
        };
        assert(self.picks(*around, root@, listed, items@, view_of(r)));
        r
    }

    /// The entry that the preview shows.
    pub open spec fn previewed(self) -> Option<int> {
        let command = self.timeline.command_before(self.timeline.entries@.len() as int);
        if self.preview.target == PreviewTarget::Command && command is Some {
            command
        } else if self.timeline.selected < self.timeline.entries@.len() {
            Some(self.timeline.selected as int)
        } else {
            None
        }
    }

    /// The entry that the preview shows: the newest command where it follows
    /// commands and there is one, and otherwise the selected entry.
    pub fn preview_entry(&self) -> (r: Option<&Entry>)
        ensures
            match self.previewed() {
                Some(i) => 0 <= i < self.timeline.entries@.len() && r == Some(
                    &self.timeline.entries@[i],
                ),
                None => r is None,
            },
    {
        if self.preview.follows_command() {
            if let Some(entry) = self.timeline.newest_command() {
                return Some(entry);
            }
        }
        self.timeline.selected_entry()
    }

    /// Whether the launch policy can still be edited.
    pub fn can_edit_launch(&self) -> (r: bool)
        ensures
            r == can_edit(self.activity.status),
    {
        launch::editable(&self.activity.status)
    }

    /// Whether the launch policy can still be edited. Where it cannot, the
    /// operator is told why.
    pub fn allow_launch_edit(&mut self) -> (r: bool)
        ensures
            r == can_edit(old(self).activity.status),
            if r {
                *final(self) == *old(self)
            } else {
                told(
                    *old(self),
                    *final(self),
                    "the launch policy is fixed while an interaction is running"@,
                )
            },
            old(self).wf() ==> final(self).wf(),
    {
        if self.can_edit_launch() {
            return true;
        }
        self.show_action_message(
            "the launch policy is fixed while an interaction is running".to_owned(),
        );
        false
    }

    /// Whether this is the text that copying takes: the previewed entry's
    /// detail, or its summary where it has none; the selected wire line; the
    /// selected file; the answer.
    pub open spec fn copies(self, around: Surroundings, copied: Option<Seq<char>>) -> bool {
        let detail = joined_blocks(block_views(around.detail@));
        match self.view {
            View::Events | View::Preview => copied == if self.previewed() is Some {
                Some(
                    if detail.len() > 0 {
                        detail
                    } else {
                        around.summary@
                    },
                )
            } else {
                None
            },
            View::Raw => copied == if self.raw.selected < self.raw.lines@.len() {
                Some(self.raw.lines@[self.raw.selected as int].text@)
            } else {
                None
            },
            View::Files => self.selects_file(around, copied),
            View::Answer => copied == self.answer.copied(),
            _ => copied is None,
        }
    }

    /// The text that copying takes.
    pub fn copy_text(&self, around: &Surroundings) -> (r: Option<String>)
        requires
            self.described_by(*around),
        ensures
            self.copies(*around, view_of(r)),
    {
        match self.view {
            View::Events | View::Preview => {
                if self.preview_entry().is_none() {
                    return None;
                }
                let text = join_blocks(&around.detail);
                if text.as_str().is_empty() {
                    Some(around.summary.clone())
                } else {
                    Some(text)
                }
            },
            View::Raw => match self.raw.selected() {
                Some(line) => Some(line.text.clone()),
                None => None,
            },
            View::Files => self.selected_file_path(around),
            View::Answer => self.answer.copy_text(),
            _ => None,
        }
    }

    pub fn enter_input(&mut self)
        ensures
            *final(self) == (App { focus: Focus::Input, ..*old(self) }),
            old(self).wf() ==> final(self).wf(),
    {
        self.focus = Focus::Input;
    }

    pub fn enter_list(&mut self)
        ensures
            *final(self) == (App { focus: Focus::List, ..*old(self) }),
            old(self).wf() ==> final(self).wf(),
    {
        self.focus = Focus::List;
    }

    /// Take the message for sending, where it is more than blanks.
    pub fn take_message(&mut self) -> (r: Option<String>)
        ensures
            final(self).composer@ == old(self).composer@.taken(),
            *final(self) == (App { composer: final(self).composer, ..*old(self) }),
            match r {
                Some(message) => message@ == crate::text::trimmed(old(self).composer.text@)
                    && message@.len() > 0,
                None => crate::text::trimmed(old(self).composer.text@).len() == 0,
            },
            old(self).wf() ==> final(self).wf(),
    {
        self.composer.take()
    }

    /// Ask for something that this screen cannot do.
    pub fn ask(&mut self, request: Request)
        ensures
            *final(self) == (App { request: Some(request), ..*old(self) }),
            old(self).wf() ==> final(self).wf(),
    {
        self.request = Some(request);
    }

    /// Take what was asked for, once.
    pub fn take_request(&mut self) -> (r: Option<Request>)
        ensures
            r == old(self).request,
            *final(self) == (App { request: None, ..*old(self) }),
            old(self).wf() ==> final(self).wf(),
    {
        self.request.take()
    }
}

/// A screen that takes over the operator's things has them all: the draft and
/// its history, the shape the reply was to take, the navigator, the display
/// choices and the models chosen before.
pub proof fn law_the_operators_work_survives_the_screen(before: App, next: App)
    ensures
        next.adopting(before.operator_state()).operator_state() == before.operator_state(),
        next.adopting(before.operator_state()).composer == before.composer,
        next.adopting(before.operator_state()).timeline.entries == next.timeline.entries,
        next.adopting(before.operator_state()).raw == next.raw,
        next.adopting(before.operator_state()).log == next.log,
        next.adopting(before.operator_state()).activity == next.activity,
{
}

/// Whether no text stands in a list twice.
pub open spec fn all_differ(list: Seq<String>) -> bool {
    forall|i: int, j: int|
        0 <= i < j < list.len() ==> (#[trigger] list[i])@ != (#[trigger] list[j])@
}

proof fn lemma_filter_differs(list: Seq<String>, kept: spec_fn(String) -> bool)
    requires
        all_differ(list),
    ensures
        all_differ(list.filter(kept)),
    decreases list.len(),
{
    reveal(Seq::filter);
    if list.len() > 0 {
        let rest = list.drop_last();
        let before = rest.filter(kept);
        assert forall|i: int, j: int| 0 <= i < j < rest.len() implies (#[trigger] rest[i])@ != (
        #[trigger] rest[j])@ by {
            assert(list[i]@ != list[j]@);
        }
        lemma_filter_differs(rest, kept);
        if kept(list.last()) {
            assert forall|i: int| 0 <= i < before.len() implies (#[trigger] before[i])@
                != list.last()@ by {
                rest.lemma_filter_contains_rev(kept, before[i]);
                let k = choose|k: int| 0 <= k < rest.len() && rest[k] == before[i];
                assert(list[k]@ != list[list.len() - 1]@);
            }
            assert(list.filter(kept) =~= before.push(list.last()));
        } else {
            assert(list.filter(kept) =~= before);
        }
    }
}

/// The last choice stands first among the models chosen before, and nowhere
/// else. Where none stood there twice, none does after it.
pub proof fn law_a_chosen_model_is_listed_once(recent: Seq<String>, model: String)
    ensures
        all_differ(recent) ==> all_differ(recent_after(recent, model)),
        recent_after(recent, model).len() > 0,
        recent_after(recent, model)[0] == model,
        recent_after(recent, model).len() <= RECENT_MODELS,
        forall|i: int|
            0 < i < recent_after(recent, model).len() ==> (#[trigger] recent_after(
                recent,
                model,
            )[i])@ != model@,
{
    let others = |m: String| m@ != model@;
    let kept = recent.filter(others);
    assert forall|i: int| 0 < i < recent_after(recent, model).len() implies (
    #[trigger] recent_after(recent, model)[i])@ != model@ by {
        assert(recent_after(recent, model)[i] == kept[i - 1]);
        recent.lemma_filter_pred(others, i - 1);
    }
    if all_differ(recent) {
        lemma_filter_differs(recent, others);
        let all = recent_after(recent, model);
        assert forall|i: int, j: int| 0 <= i < j < all.len() implies (#[trigger] all[i])@ != (
        #[trigger] all[j])@ by {
            assert(all[j] == kept[j - 1]);
            if i > 0 {
                assert(all[i] == kept[i - 1]);
            }
        }
    }
}

} // verus!
