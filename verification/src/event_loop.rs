//! The event loop's decisions: what each tick and each key asks for, and what
//! the answers change.

use vstd::prelude::*;
use vstd::view::View as _;

use crate::activity::{elapsed, Activity, Status};
use crate::app::{log_views, stays_put, told, App, Focus, Request, Surroundings, View};
use crate::help::Help;
use crate::interactions::{
    best_in, candidate, first_live_in_workspace, first_with_id, listed, ranked, str_view,
    LiveInteractions,
};
use crate::key::{Key, KeyCode};
use crate::keys;
use crate::keys::{
    insert_keyed, launcher_keyed, leaves, meaning, mount_keyed, performs, references_keyed,
    writes_key, writing, Action, Command, Dispatch, Kept, Wanted,
};
use crate::launch;
use crate::launch::{templates_set_for, Launch, LaunchScope};
use crate::notes;
use crate::notes::Save;
use crate::notices::Notices;
use crate::order::stably_sorted;
use crate::outbox::Outbox;
use crate::picker::{known_names, TemplatePicker, TemplatePickerAction};
use crate::protocol::{
    Arrived, Contract, InteractionEnd, InteractionSummary, LaunchPolicy, LogLevel, Provider,
    QueuedMessage, QuotaEvent, Selection, WorkspaceLaunchChange, WorkspaceSummary,
};
use crate::scroll::SCROLL_PAGE;
use crate::session;
use crate::session::{log_error, log_info, log_warn, noted, replayed, Live};
use crate::startup::{find_workspace, workspace_with};
use crate::tail::Tail;
use crate::text::{decimal, number, same, view_of};

verus! {

/// How often the list of live interactions is asked for.
pub const INTERACTIONS_REFRESH_MS: u64 = 250;

/// Why a screen was left.
#[derive(Debug, PartialEq, Eq)]
pub enum RunOutcome {
    Quit,
    OpenWorkspace {
        workspace: WorkspaceSummary,
        session_id: Option<String>,
        /// Whether the navigator opens over it.
        open_interactions: bool,
    },
    OpenSession(String),
    Reset,
    NewSession,
}

/// What a run of the loop is given.
#[derive(Debug, PartialEq, Eq)]
pub struct RunContext {
    pub standing_launch: LaunchPolicy,
    pub preferences_path: String,
}

/// The interaction that leaving a screen stops: the live one, where the screen
/// is reset. Quitting and switching leave it running.
pub fn interaction_stopped_by<'a>(outcome: &RunOutcome, live: &'a Live) -> (r: Option<&'a str>)
    ensures
        match (*outcome, *live) {
            (RunOutcome::Reset, Live::Running { session_id, .. }) => r matches Some(id) && id@
                == session_id@,
            _ => r is None,
        },
{
    match (outcome, live) {
        (RunOutcome::Reset, Live::Running { session_id, .. }) => Some(session_id.as_str()),
        _ => None,
    }
}

/// Whether leaving a screen stops its interaction.
pub fn stops_current_interaction(outcome: &RunOutcome, live: &Live) -> (r: bool)
    ensures
        r == (*outcome is Reset && *live is Running),
{
    match (outcome, live) {
        (RunOutcome::Reset, Live::Running { .. }) => true,
        _ => false,
    }
}

// --- The launch policy -------------------------------------------------------

/// Work on the launch policy that the server does.
#[derive(Debug, PartialEq, Eq)]
pub enum LaunchEffect {
    ListTemplates { request_id: u64, workspace_id: String },
    ChangeWorkspace {
        workspace_id: String,
        change: WorkspaceLaunchChange,
        clear_interaction: bool,
    },
}

/// What became of it.
#[derive(Debug, PartialEq, Eq)]
pub enum LaunchEffectResult {
    Templates { request_id: u64, workspace_id: String, result: Result<Vec<String>, String> },
    WorkspaceChanged {
        workspace_id: String,
        clear_interaction: bool,
        result: Result<LaunchPolicy, String>,
    },
}

/// Whether the template picker waits for this answer.
pub open spec fn awaits_templates(
    app: App,
    workspace: Seq<char>,
    request_id: u64,
    answered_for: Seq<char>,
) -> bool {
    app.template_picker matches Some(picker) && picker.request_id == request_id
        && picker.workspace_id@ == answered_for && workspace == answered_for
}

/// Whether an answer about templates leads from one screen to another.
pub open spec fn templates_answered(
    before: App,
    result: Result<Vec<String>, String>,
    after: App,
) -> bool {
    let closed = App { template_picker: None, ..before };
    match result {
        Ok(templates) => if templates@.len() == 0 {
            noted(closed, after, LogLevel::Warn, "no Driva templates are available"@)
        } else {
            match (before.template_picker, after.template_picker) {
                (Some(picker), Some(next)) => {
                    &&& next.chosen@ == known_names(picker.initial@, templates@)
                    &&& next == (TemplatePicker {
                        templates: Some(templates),
                        chosen: next.chosen,
                        ..picker
                    })
                    &&& after == (App { template_picker: Some(next), ..before })
                },
                _ => false,
            }
        },
        Err(error) => noted(
            closed,
            after,
            LogLevel::Error,
            "could not list Driva templates: "@ + error@,
        ),
    }
}

/// Whether an answer about the Workspace's policy leads from one screen to
/// another.
pub open spec fn policy_answered(
    before: App,
    clear_interaction: bool,
    result: Result<LaunchPolicy, String>,
    after: App,
) -> bool {
    let less = App {
        workspace_launch_pending: if before.workspace_launch_pending > 0 {
            (before.workspace_launch_pending - 1) as u64
        } else {
            0
        },
        ..before
    };
    match result {
        Ok(policy) => if clear_interaction {
            &&& after.launch.interaction@ == crate::protocol::no_policy()
            &&& told(
                App {
                    launch: Launch {
                        workspace: policy,
                        interaction: after.launch.interaction,
                        selected: (0, 0),
                        ..before.launch
                    },
                    ..less
                },
                after,
                "moved into this Workspace's policy — every launch here starts from it"@,
            )
        } else {
            told(
                App {
                    launch: Launch {
                        workspace: policy,
                        selected: (
                            crate::launch::within(
                                before.launch.selected.0,
                                policy.mounts@.len(),
                            ),
                            before.launch.selected.1,
                        ),
                        ..before.launch
                    },
                    ..less
                },
                after,
                "Workspace launch policy saved"@,
            )
        },
        Err(error) => {
            let message = "could not change the Workspace launch policy: "@ + error@;
            &&& after.notices.said() == before.notices.said().push(message)
            &&& stays_put(before.log, after.log)
            &&& log_views(after.log.items@) == log_views(before.log.items@).push(
                (LogLevel::Error, message),
            )
            &&& after == (App {
                notices: Notices { messages: after.notices.messages, ..before.notices },
                log: after.log,
                ..less
            })
        },
    }
}

/// Whether an answer leads from one screen to another. One that is about
/// another Workspace, or that nobody waits for, changes nothing.
pub open spec fn effect_applied(
    before: App,
    workspace: Seq<char>,
    answer: LaunchEffectResult,
    after: App,
) -> bool {
    match answer {
        LaunchEffectResult::Templates { request_id, workspace_id, result } => if awaits_templates(
            before,
            workspace,
            request_id,
            workspace_id@,
        ) {
            templates_answered(before, result, after)
        } else {
            after == before
        },
        LaunchEffectResult::WorkspaceChanged { workspace_id, clear_interaction, result } => if workspace
            == workspace_id@ {
            policy_answered(before, clear_interaction, result, after)
        } else {
            after == before
        },
    }
}

fn apply_effect(app: &mut App, workspace_id: &str, answer: LaunchEffectResult)
    requires
        old(app).wf(),
    ensures
        effect_applied(*old(app), workspace_id@, answer, *final(app)),
        final(app).wf(),
{
    match answer {
        LaunchEffectResult::Templates { request_id, workspace_id: answered_for, result } => {
            let awaited = match &app.template_picker {
                Some(picker) => picker.request_id == request_id && same(
                    picker.workspace_id.as_str(),
                    answered_for.as_str(),
                ) && same(workspace_id, answered_for.as_str()),
                None => false,
            };
            if !awaited {
                return ;
            }
            match result {
                Ok(templates) => {
                    if templates.len() == 0 {
                        app.template_picker = None;
                        log_warn(app, "no Driva templates are available".to_owned());
                        return ;
                    }
                    if let Some(mut picker) = app.template_picker.take() {
                        picker.loaded(templates);
                        app.template_picker = Some(picker);
                    }
                },
                Err(error) => {
                    app.template_picker = None;
                    log_error(
                        app,
                        "could not list Driva templates: ".to_owned().concat(error.as_str()),
                    );
                },
            }
        },
        LaunchEffectResult::WorkspaceChanged {
            workspace_id: answered_for,
            clear_interaction,
            result,
        } => {
            if !same(workspace_id, answered_for.as_str()) {
                return ;
            }
            app.workspace_launch_pending = app.workspace_launch_pending.saturating_sub(1);
            match result {
                Ok(policy) => {
                    if clear_interaction {
                        app.launch.adopt_workspace(policy);
                        app.show_action_message(
                            "moved into this Workspace's policy — every launch here starts from it".to_owned(),
                        );
                    } else {
                        app.launch.sync_workspace(policy);
                        app.show_action_message("Workspace launch policy saved".to_owned());
                    }
                },
                Err(error) => {
                    let message = "could not change the Workspace launch policy: ".to_owned().concat(
                        error.as_str(),
                    );
                    app.show_action_message(message.clone());
                    log_error(app, message);
                },
            }
        },
    }
}

/// Whether these answers, one after another, lead from one screen to another.
pub open spec fn effects_applied(
    start: App,
    workspace: Seq<char>,
    answers: Seq<LaunchEffectResult>,
    end: App,
) -> bool
    decreases answers.len(),
{
    if answers.len() == 0 {
        end == start
    } else {
        exists|before: App|
            effects_applied(start, workspace, answers.drop_last(), before)
                && #[trigger] effect_applied(before, workspace, answers.last(), end)
    }
}

proof fn lemma_effects_step(
    start: App,
    workspace: Seq<char>,
    answers: Seq<LaunchEffectResult>,
    before: App,
    end: App,
)
    requires
        answers.len() > 0,
        effects_applied(start, workspace, answers.drop_last(), before),
        effect_applied(before, workspace, answers.last(), end),
    ensures
        effects_applied(start, workspace, answers, end),
{
}

/// Work on the launch policy that is handed out, and the numbers of its
/// requests.
#[derive(Debug, PartialEq, Eq)]
pub struct LaunchEffects {
    pub next_template_request: u64,
}

impl LaunchEffects {
    pub fn new() -> (r: LaunchEffects)
        ensures
            r.next_template_request == 1,
    {
        LaunchEffects { next_template_request: 1 }
    }

    /// Once a request was numbered.
    pub open spec fn after_a_request(self) -> LaunchEffects {
        LaunchEffects {
            next_template_request: if self.next_template_request < u64::MAX {
                (self.next_template_request + 1) as u64
            } else {
                0
            },
        }
    }

    /// The request for a Workspace's templates. Each has a number of its own.
    pub fn submit_templates(&mut self, workspace_id: String) -> (r: (LaunchEffect, u64))
        ensures
            r.1 == old(self).next_template_request,
            r.0 == (LaunchEffect::ListTemplates { request_id: r.1, workspace_id }),
            *final(self) == old(self).after_a_request(),
    {
        let request_id = self.next_template_request;
        self.next_template_request = if request_id < u64::MAX {
            request_id + 1
        } else {
            0
        };
        (LaunchEffect::ListTemplates { request_id, workspace_id }, request_id)
    }

    /// Apply the answers that have come in, in their order.
    pub fn apply_ready(&self, app: &mut App, workspace_id: &str, answers: Vec<LaunchEffectResult>)
        requires
            old(app).wf(),
        ensures
            effects_applied(*old(app), workspace_id@, answers@, *final(app)),
            final(app).wf(),
    {
        let ghost start = *app;
        let ghost all = answers@;
        let mut rest = answers;
        let ghost mut done: int = 0;
        assert(all.take(0) =~= Seq::<LaunchEffectResult>::empty());
        while rest.len() > 0
            invariant
                0 <= done <= all.len(),
                rest@ == all.skip(done),
                app.wf(),
                effects_applied(start, workspace_id@, all.take(done), *app),
            decreases rest@.len(),
        {
            let answer = rest.remove(0);
            let ghost before = *app;
            apply_effect(app, workspace_id, answer);
            proof {
                assert(all.skip(done).remove(0) =~= all.skip(done + 1));
                assert(all.take(done + 1).drop_last() =~= all.take(done));
                assert(all.take(done + 1).last() == answer);
                lemma_effects_step(start, workspace_id@, all.take(done + 1), before, *app);
                done = done + 1;
            }
        }
        assert(all.take(all.len() as int) =~= all);
    }
}

/// Hand out a change to the Workspace's policy. It is waited for.
pub fn submit_workspace_launch(
    app: &mut App,
    workspace_id: String,
    change: WorkspaceLaunchChange,
    clear_interaction: bool,
) -> (r: LaunchEffect)
    requires
        old(app).workspace_launch_pending < u64::MAX,
    ensures
        r == (LaunchEffect::ChangeWorkspace { workspace_id, change, clear_interaction }),
        *final(app) == (App {
            workspace_launch_pending: (old(app).workspace_launch_pending + 1) as u64,
            ..*old(app)
        }),
        old(app).wf() ==> final(app).wf(),
{
    app.workspace_launch_pending = app.workspace_launch_pending + 1;
    LaunchEffect::ChangeWorkspace { workspace_id, change, clear_interaction }
}

// --- Ticks -------------------------------------------------------------------

/// Take over the Workspace's policy as the server holds it, where it changed.
pub fn policy_refreshed(app: &mut App, policy: LaunchPolicy)
    ensures
        *final(app) == if policy@.same_as(old(app).launch.workspace@) {
            *old(app)
        } else {
            App {
                launch: Launch {
                    workspace: policy,
                    selected: (
                        crate::launch::within(old(app).launch.selected.0, policy.mounts@.len()),
                        old(app).launch.selected.1,
                    ),
                    ..old(app).launch
                },
                ..*old(app)
            }
        },
        old(app).wf() ==> final(app).wf(),
{
    if !policy.is(&app.launch.workspace) {
        app.launch.sync_workspace(policy);
    }
}

/// Take the next updates of the live interaction and where those after them
/// start. Where they could not be read, the session is over for this screen.
pub fn updates_read(
    app: &mut App,
    live: &mut Live,
    result: Result<(Vec<Arrived>, u64), session::Refusal>,
)
    requires
        old(app).wf(),
        result matches Ok((updates, _)) ==> old(app).activity.events + updates@.len() <= u64::MAX,
    ensures
        match (*old(live), result) {
            (Live::Running { session_id, .. }, Ok((updates, next))) => {
                &&& *final(live) == (Live::Running { session_id, cursor: next })
                &&& replayed(*old(app), updates@, *final(app))
            },
            (Live::Running { .. }, Err(refusal)) => {
                &&& *final(live) == Live::Viewing
                &&& final(app).activity.status matches Status::Ended { exit_code, error }
                    && exit_code is None && error == Some(refusal.brief)
                &&& stays_put(old(app).log, final(app).log)
                &&& log_views(final(app).log.items@) == log_views(old(app).log.items@).push(
                    (LogLevel::Error, "update poll failed: "@ + refusal.full@),
                )
                &&& *final(app) == (App {
                    log: final(app).log,
                    activity: Activity {
                        status: final(app).activity.status,
                        ..old(app).activity
                    },
                    ..*old(app)
                })
            },
            _ => *final(live) == *old(live) && *final(app) == *old(app),
        },
        final(app).wf(),
{
    let session_id = match &*live {
        Live::Running { session_id, .. } => session_id.clone(),
        _ => {
            return ;
        },
    };
    match result {
        Ok((updates, next)) => {
            *live = Live::Running { session_id, cursor: next };
            session::apply_updates(app, updates);
        },
        Err(refusal) => {
            log_error(app, "update poll failed: ".to_owned().concat(refusal.full.as_str()));
            app.on_ended(InteractionEnd { exit_code: None, error: Some(refusal.brief) });
            *live = Live::Viewing;
        },
    }
}

/// Whether the live interactions are to be listed again.
pub fn refresh_due(refreshed: u64, now: u64) -> (r: bool)
    ensures
        r == (elapsed(refreshed, now) >= INTERACTIONS_REFRESH_MS),
{
    now.saturating_sub(refreshed) >= INTERACTIONS_REFRESH_MS
}

/// The interaction that a cursor at rest asks to be loaded.
pub fn interaction_due(app: &App, now: u64) -> (r: Option<String>)
    ensures
        match r {
            Some(id) => app.interactions.settled(now) && (app.interactions.awaited(
                app.session_id@,
            ) matches Some(found) && found.id == id),
            None => !app.interactions.settled(now) || app.interactions.awaited(app.session_id@)
                is None,
        },
{
    match app.interactions.due(app.session_id.as_str(), now) {
        Some(found) => Some(found.id.clone()),
        None => None,
    }
}

/// Whether a waiting message is to be sent: the agent is live and idle.
pub fn queue_due(app: &App, live: &Live) -> (r: bool)
    ensures
        r == (*live is Running && app.activity.status is Idle && app.outbox.queued@.len() > 0),
{
    let running = match live {
        Live::Running { .. } => true,
        _ => false,
    };
    let idle = match app.activity.status {
        Status::Idle => true,
        _ => false,
    };
    running && idle && app.outbox.queued_count() > 0
}

/// What the operator is told of a waiting message that was sent.
pub open spec fn sent_words(waiting: nat) -> Seq<char> {
    if waiting == 0 {
        "sent queued message automatically"@
    } else {
        "sent queued message automatically ("@ + decimal(waiting) + " still waiting)"@
    }
}

/// Hand back what became of sending a waiting message: whether one was sent, and
/// what still waits.
pub fn queue_sent(app: &mut App, result: Result<(bool, Vec<QueuedMessage>), String>)
    requires
        old(app).wf(),
    ensures
        match result {
            Ok((sent, queued)) => {
                &&& final(app).outbox.queued@ == queued@
                &&& final(app).notices.said() == if sent {
                    old(app).notices.said().push(sent_words(queued@.len()))
                } else {
                    old(app).notices.said()
                }
                &&& *final(app) == (App {
                    outbox: Outbox { queued: final(app).outbox.queued, ..old(app).outbox },
                    notices: Notices { messages: final(app).notices.messages, ..old(app).notices },
                    activity: if sent {
                        Activity { status: Status::Running, ..old(app).activity }
                    } else {
                        old(app).activity
                    },
                    ..*old(app)
                })
            },
            Err(error) => noted(
                *old(app),
                *final(app),
                LogLevel::Error,
                "queued send failed: "@ + error@,
            ),
        },
        final(app).wf(),
{
    match result {
        Ok((sent, queued)) => {
            app.outbox.replace_queued(queued);
            if sent {
                app.activity.status = Status::Running;
                let waiting: usize = app.outbox.queued_count();
                let message = if waiting == 0 {
                    "sent queued message automatically".to_owned()
                } else {
                    "sent queued message automatically (".to_owned().concat(
                        number(waiting as u64).as_str(),
                    ).concat(" still waiting)")
                };
                app.show_action_message(message);
            }
        },
        Err(error) => log_error(app, "queued send failed: ".to_owned().concat(error.as_str())),
    }
}

/// What a tick of the loop has others do.
#[derive(Debug, PartialEq, Eq)]
pub enum Work {
    /// Read this Workspace's policy, and answer with [`policy_refreshed`].
    ReadPolicy(String),
    /// Ask for the sandbox of the next launch, and answer with
    /// [`session::ensure_driva_plan`].
    AskPlan(session::PlanAsked),
    /// Read this interaction's updates from here on, and answer with
    /// [`updates_read`].
    ReadUpdates { session_id: String, after: u64 },
    /// List the live interactions, and refresh the navigator with them.
    ListInteractions,
    /// Load this interaction, and answer with [`make_interaction_current`].
    Load(String),
    /// Send the first message that waits for this session, and answer with
    /// [`queue_sent`].
    SendQueued(String),
    /// Show the screen, and take a key where one comes.
    Show,
}

/// The steps of a tick, in their order.
#[derive(Clone, Copy, Debug, PartialEq, Eq, Structural)]
pub enum Stage {
    Policy,
    Plan,
    Updates,
    Interactions,
    Load,
    Queue,
    Show,
}

impl Stage {
    pub open spec fn rank(self) -> nat {
        match self {
            Stage::Policy => 0,
            Stage::Plan => 1,
            Stage::Updates => 2,
            Stage::Interactions => 3,
            Stage::Load => 4,
            Stage::Queue => 5,
            Stage::Show => 6,
        }
    }

    /// The step after this one. After the last the next tick begins.
    pub open spec fn following(self) -> Stage {
        match self {
            Stage::Policy => Stage::Plan,
            Stage::Plan => Stage::Updates,
            Stage::Updates => Stage::Interactions,
            Stage::Interactions => Stage::Load,
            Stage::Load => Stage::Queue,
            Stage::Queue => Stage::Show,
            Stage::Show => Stage::Policy,
        }
    }

    fn advanced(self) -> (r: Stage)
        ensures
            r == self.following(),
    {
        match self {
            Stage::Policy => Stage::Plan,
            Stage::Plan => Stage::Updates,
            Stage::Updates => Stage::Interactions,
            Stage::Interactions => Stage::Load,
            Stage::Load => Stage::Queue,
            Stage::Queue => Stage::Show,
            Stage::Show => Stage::Policy,
        }
    }
}

/// Where a loop is in its tick, and when it last listed the interactions.
#[derive(Clone, Copy, Debug, PartialEq, Eq, Structural)]
pub struct Tick {
    pub stage: Stage,
    pub refreshed: u64,
}

impl Tick {
    /// Whether a step has anything to do.
    pub open spec fn has_work(self, stage: Stage, app: App, live: Live, now: u64) -> bool {
        match stage {
            Stage::Policy => true,
            Stage::Plan => launch::can_edit(app.activity.status) && app.launch.stale(app.selection@),
            Stage::Updates => live is Running,
            Stage::Interactions => elapsed(self.refreshed, now) >= INTERACTIONS_REFRESH_MS,
            Stage::Load => app.interactions.settled(now) && app.interactions.awaited(
                app.session_id@,
            ) is Some,
            Stage::Queue => live is Running && app.activity.status is Idle
                && app.outbox.queued@.len() > 0,
            Stage::Show => true,
        }
    }

    /// The first step from this one on that has anything to do.
    pub open spec fn first_with_work(self, stage: Stage, app: App, live: Live, now: u64) -> Stage
        decreases 6 - stage.rank(),
    {
        if stage == Stage::Show || self.has_work(stage, app, live, now) {
            stage
        } else {
            self.first_with_work(stage.following(), app, live, now)
        }
    }

    /// Whether this is the work of a step.
    pub open spec fn is_work(
        stage: Stage,
        app: App,
        live: Live,
        workspace: Seq<char>,
        work: Work,
    ) -> bool {
        match (stage, work) {
            (Stage::Policy, Work::ReadPolicy(id)) => id@ == workspace,
            (Stage::Plan, Work::AskPlan(plan)) => plan.selection == app.selection
                && plan.launch@ == app.launch.interaction@,
            (Stage::Updates, Work::ReadUpdates { session_id, after }) => live == (Live::Running {
                session_id,
                cursor: after,
            }),
            (Stage::Interactions, Work::ListInteractions) => true,
            (Stage::Load, Work::Load(id)) => app.interactions.awaited(
                app.session_id@,
            ) matches Some(found) && found.id == id,
            (Stage::Queue, Work::SendQueued(id)) => id == app.session_id,
            (Stage::Show, Work::Show) => true,
            _ => false,
        }
    }

    pub fn start(now: u64) -> (r: Tick)
        ensures
            r == (Tick { stage: Stage::Policy, refreshed: now }),
    {
        Tick { stage: Stage::Policy, refreshed: now }
    }

    /// Have the interactions listed only after a while: they just were.
    pub fn listed(&mut self, now: u64)
        ensures
            *final(self) == (Tick { refreshed: now, ..*old(self) }),
    {
        self.refreshed = now;
    }

    fn work_of(&self, app: &App, live: &Live, workspace_id: &str, now: u64) -> (r: Option<Work>)
        ensures
            match r {
                Some(work) => self.has_work(self.stage, *app, *live, now) && Self::is_work(
                    self.stage,
                    *app,
                    *live,
                    workspace_id@,
                    work,
                ),
                None => !self.has_work(self.stage, *app, *live, now),
            },
    {
        match self.stage {
            Stage::Policy => Some(Work::ReadPolicy(workspace_id.to_owned())),
            Stage::Plan => match session::plan_to_ask(app) {
                Some(plan) => Some(Work::AskPlan(plan)),
                None => None,
            },
            Stage::Updates => match live {
                Live::Running { session_id, cursor } => Some(
                    Work::ReadUpdates { session_id: session_id.clone(), after: *cursor },
                ),
                _ => None,
            },
            Stage::Interactions => if refresh_due(self.refreshed, now) {
                Some(Work::ListInteractions)
            } else {
                None
            },
            Stage::Load => match interaction_due(app, now) {
                Some(id) => Some(Work::Load(id)),
                None => None,
            },
            Stage::Queue => if queue_due(app, live) {
                Some(Work::SendQueued(app.session_id.clone()))
            } else {
                None
            },
            Stage::Show => Some(Work::Show),
        }
    }

    /// What to do next: the work of the first step that has any. Before the
    /// screen is shown, a change of the agent's status is noticed.
    pub fn next(&mut self, app: &mut App, live: &Live, workspace_id: &str, now: u64) -> (r: Work)
        ensures
            ({
                let stage = old(self).first_with_work(old(self).stage, *old(app), *live, now);
                &&& Self::is_work(stage, *old(app), *live, workspace_id@, r)
                &&& *final(self) == (Tick {
                    stage: stage.following(),
                    refreshed: if stage == Stage::Interactions {
                        now
                    } else {
                        old(self).refreshed
                    },
                })
                &&& *final(app) == if stage == Stage::Show {
                    App { activity: old(app).activity.noticing(now), ..*old(app) }
                } else {
                    *old(app)
                }
            }),
            old(app).wf() ==> final(app).wf(),
    {
        loop
            invariant
                *app == *old(app),
                self.refreshed == old(self).refreshed,
                old(self).first_with_work(self.stage, *app, *live, now) == old(
                    self,
                ).first_with_work(old(self).stage, *app, *live, now),
            decreases 6 - self.stage.rank(),
        {
            let stage = self.stage;
            if let Some(work) = self.work_of(app, live, workspace_id, now) {
                if stage == Stage::Interactions {
                    self.refreshed = now;
                }
                if stage == Stage::Show {
                    app.activity.note_progress(now);
                }
                self.stage = stage.advanced();
                return work;
            }
            self.stage = stage.advanced();
        }
    }
}

// --- Switching interactions --------------------------------------------------

/// Whether making another interaction current leads from one screen to another:
/// the operator's things come along, the rest is the interaction's own, and the
/// policy is the standing one over its Workspace's.
pub open spec fn switched(before: App, standing: LaunchPolicy, loaded: App, after: App) -> bool {
    let adopted = loaded.adopting(before.operator_state());
    let known = match adopted.workspace.id {
        Some(id) => workspace_with(adopted.interactions.workspaces@, id@),
        None => None,
    };
    &&& after.launch.interaction@ == standing@
    &&& match known {
        Some(i) => {
            let workspace = adopted.interactions.workspaces@[i];
            &&& after.workspace == adopted.workspace.showing(workspace)
            &&& after.launch.workspace@ == workspace.launch@
            &&& after.launch == (Launch {
                workspace: after.launch.workspace,
                interaction: after.launch.interaction,
                selected: (0, 0),
                ..adopted.launch
            })
        },
        None => {
            &&& after.workspace == adopted.workspace
            &&& after.launch == (Launch {
                interaction: after.launch.interaction,
                ..adopted.launch
            })
        },
    }
    &&& after == (App {
        view: View::Events,
        focus: Focus::List,
        interactions: adopted.interactions.rested(),
        workspace: after.workspace,
        launch: after.launch,
        ..adopted
    })
}

/// Make another interaction current, from the screen that was loaded for it, or
/// say why there is none. Either way the cursor is at rest. One that is current
/// already stays as it is.
pub fn make_interaction_current(
    app: &mut App,
    live: &mut Live,
    standing_launch: &LaunchPolicy,
    id: &str,
    loaded: Result<(App, Live), String>,
)
    requires
        old(app).wf(),
        loaded matches Ok((next, _)) ==> next.wf(),
    ensures
        if id@ == old(app).session_id@ {
            *final(live) == *old(live) && *final(app) == *old(app)
        } else {
            match loaded {
                Ok((next, next_live)) => *final(live) == next_live && switched(
                    *old(app),
                    *standing_launch,
                    next,
                    *final(app),
                ),
                Err(error) => *final(live) == *old(live) && noted(
                    App { interactions: old(app).interactions.rested(), ..*old(app) },
                    *final(app),
                    LogLevel::Error,
                    "could not make interaction "@ + id@ + " current: "@ + error@,
                ),
            }
        },
        final(app).wf(),
{
    if same(id, app.session_id.as_str()) {
        return ;
    }
    match loaded {
        Ok((mut next, next_live)) => {
            next.adopt(app.take_operator_state());
            next.launch.interaction = standing_launch.copied();
            let place = match &next.workspace.id {
                Some(id) => find_workspace(&next.interactions.workspaces, id.as_str()),
                None => None,
            };
            if let Some(i) = place {
                next.workspace.show(&next.interactions.workspaces[i]);
                next.launch.set_workspace(next.interactions.workspaces[i].launch.copied());
            }
            next.view = View::Events;
            next.focus = Focus::List;
            next.interactions.rest();
            *app = next;
            *live = next_live;
        },
        Err(error) => {
            app.interactions.rest();
            log_error(
                app,
                "could not make interaction ".to_owned().concat(id).concat(" current: ").concat(
                    error.as_str(),
                ),
            );
        },
    }
}

/// Whether the navigator is open on these interactions.
pub open spec fn navigating(
    before: App,
    interactions: Seq<InteractionSummary>,
    workspaces: Vec<WorkspaceSummary>,
    after: App,
) -> bool {
    &&& stably_sorted(ranked(interactions), ranked(after.interactions.items@))
    &&& after == (App {
        view: View::Events,
        focus: Focus::List,
        interactions: LiveInteractions {
            items: after.interactions.items,
            workspaces,
            open: true,
            ..before.interactions
        },
        ..before
    })
}

/// Open the navigator where there is anything to navigate. A list that could
/// not be had leaves it closed.
pub fn open_interaction_navigator(
    app: &mut App,
    interactions: Option<Vec<InteractionSummary>>,
    workspaces: Vec<WorkspaceSummary>,
)
    ensures
        match interactions {
            Some(items) => if items@.len() == 0 {
                *final(app) == *old(app)
            } else {
                navigating(*old(app), items@, workspaces, *final(app))
            },
            None => *final(app) == *old(app),
        },
        old(app).wf() ==> final(app).wf(),
{
    if let Some(items) = interactions {
        if items.len() == 0 {
            return ;
        }
        app.view = View::Events;
        app.focus = Focus::List;
        app.interactions.open(items, workspaces);
    }
}

/// Take over the quota log, or say why it is not known.
pub fn refresh_quota(app: &mut App, result: Result<Vec<QuotaEvent>, String>)
    requires
        old(app).wf(),
    ensures
        match result {
            Ok(readings) => *final(app) == (App {
                quota: Tail { items: readings, back: 0 },
                ..*old(app)
            }),
            Err(error) => noted(
                *old(app),
                *final(app),
                LogLevel::Error,
                "could not read the quota log: "@ + error@,
            ),
        },
        final(app).wf(),
{
    match result {
        Ok(readings) => app.quota.set(readings),
        Err(error) => log_error(
            app,
            "could not read the quota log: ".to_owned().concat(error.as_str()),
        ),
    }
}

// --- Keys --------------------------------------------------------------------

/// Who takes a key.
#[derive(Clone, Copy, Debug, PartialEq, Eq, Structural)]
pub enum Route {
    Templates,
    Notes,
    References,
    Help,
    Insert,
    Mount,
    OpenHelp,
    Navigator,
    Launcher,
    List,
    Input,
}

/// Who takes a key: what is open over the screen first, then the reference that
/// `?` opens, then the navigator, then what has the keys.
pub open spec fn routed(app: App, code: KeyCode) -> Route {
    if app.template_picker is Some {
        Route::Templates
    } else if app.notes.editor is Some {
        Route::Notes
    } else if app.references is Some {
        Route::References
    } else if app.help.open {
        Route::Help
    } else if app.insert is Some {
        Route::Insert
    } else if app.launch.prompt is Some {
        Route::Mount
    } else if app.focus == Focus::List && code == KeyCode::Char('?') {
        Route::OpenHelp
    } else if app.interactions.open && app.focus == Focus::List {
        Route::Navigator
    } else {
        held_by(app)
    }
}

/// Who has the keys.
pub open spec fn held_by(app: App) -> Route {
    if app.launcher is Some {
        Route::Launcher
    } else if app.focus == Focus::List {
        Route::List
    } else {
        Route::Input
    }
}

fn route(app: &App, code: KeyCode) -> (r: Route)
    ensures
        r == routed(*app, code),
{
    if app.template_picker.is_some() {
        Route::Templates
    } else if app.notes.is_open() {
        Route::Notes
    } else if app.references.is_some() {
        Route::References
    } else if app.help.is_open() {
        Route::Help
    } else if app.insert.is_some() {
        Route::Insert
    } else if app.launch.prompt.is_some() {
        Route::Mount
    } else if app.focus == Focus::List && code == KeyCode::Char('?') {
        Route::OpenHelp
    } else if app.interactions.open && app.focus == Focus::List {
        Route::Navigator
    } else if app.launcher.is_some() {
        Route::Launcher
    } else if app.focus == Focus::List {
        Route::List
    } else {
        Route::Input
    }
}

/// Whether a key over the reference leads from one screen to another. None of
/// them reaches what is under it.
pub open spec fn helped(before: App, code: KeyCode, after: App) -> bool {
    let scroll = before.help.scroll;
    after == (App {
        help: match code {
            KeyCode::Char('?') | KeyCode::Esc | KeyCode::Char('q') => Help {
                open: false,
                scroll: scroll.top(),
            },
            KeyCode::Char('j') | KeyCode::Down => Help { scroll: scroll.down(1), ..before.help },
            KeyCode::Char('k') | KeyCode::Up => Help { scroll: scroll.up(1), ..before.help },
            KeyCode::PageDown => Help { scroll: scroll.down(SCROLL_PAGE), ..before.help },
            KeyCode::PageUp => Help { scroll: scroll.up(SCROLL_PAGE), ..before.help },
            KeyCode::Char('g') => Help { scroll: scroll.top(), ..before.help },
            _ => before.help,
        },
        ..before
    })
}

fn handle_help_key(app: &mut App, code: KeyCode)
    ensures
        helped(*old(app), code, *final(app)),
        old(app).wf() ==> final(app).wf(),
{
    match code {
        KeyCode::Char('?') | KeyCode::Esc | KeyCode::Char('q') => app.help.close(),
        KeyCode::Char('j') | KeyCode::Down => app.help.line_down(),
        KeyCode::Char('k') | KeyCode::Up => app.help.line_up(),
        KeyCode::PageDown => app.help.page_down(),
        KeyCode::PageUp => app.help.page_up(),
        KeyCode::Char('g') => app.help.scroll_to_top(),
        _ => {},
    }
}

/// Whether a key in the template picker leads from one screen to another, by
/// way of this next state and this decision.
pub open spec fn template_decided(
    before: App,
    picker: TemplatePicker,
    code: KeyCode,
    next: TemplatePicker,
    action: TemplatePickerAction,
    after: App,
) -> bool {
    let closed = App { template_picker: None, ..before };
    &&& picker.keyed(code, next, action)
    &&& match action {
        TemplatePickerAction::Nothing => after == (App { template_picker: Some(next), ..before }),
        TemplatePickerAction::Cancel => after == closed,
        TemplatePickerAction::Unchanged => told(
            closed,
            after,
            "templates unchanged — Space toggles the highlighted template"@,
        ),
        TemplatePickerAction::Apply { scope, chosen } => templates_set_for(
            closed,
            scope,
            chosen,
            after,
        ),
    }
}

/// Whether a key in the template picker leads from one screen to another.
pub open spec fn template_keyed(before: App, code: KeyCode, after: App) -> bool {
    match before.template_picker {
        None => after == before,
        Some(picker) => exists|next: TemplatePicker, action: TemplatePickerAction| #[trigger]
            template_decided(before, picker, code, next, action, after),
    }
}

fn handle_template_key(app: &mut App, code: KeyCode)
    ensures
        template_keyed(*old(app), code, *final(app)),
        old(app).wf() ==> final(app).wf(),
{
    if let Some(mut picker) = app.template_picker.take() {
        let ghost before = picker;
        let action = picker.handle_key(code);
        let ghost next = picker;
        let ghost decided = action;
        match action {
            TemplatePickerAction::Nothing => {
                app.template_picker = Some(picker);
            },
            TemplatePickerAction::Cancel => {},
            TemplatePickerAction::Unchanged => app.show_action_message(
                "templates unchanged — Space toggles the highlighted template".to_owned(),
            ),
            TemplatePickerAction::Apply { scope, chosen } => launch::set_templates_for(
                app,
                scope,
                chosen,
            ),
        }
        assert(template_decided(*old(app), before, code, next, decided, *app));
    }
}

/// Whether a key acts on the current interaction without closing the navigator.
pub fn interaction_navigator_passthrough(code: &KeyCode) -> (r: bool)
    ensures
        r == passes_through(*code),
{
    match code {
        KeyCode::Char('i') => true,
        KeyCode::Char('S') => true,
        _ => false,
    }
}

/// Whether a key acts on the current interaction without closing the navigator.
pub open spec fn passes_through(code: KeyCode) -> bool {
    code == KeyCode::Char('i') || code == KeyCode::Char('S')
}

/// Where a key moves the navigator's cursor, where it moves it: by entries, and
/// by Workspaces with Control.
pub open spec fn cursor_moved(app: App, key: Key, now: u64) -> Option<LiveInteractions> {
    let list = app.interactions;
    let current = app.session_id@;
    let workspace = view_of(app.workspace.id);
    let at = list.cursor_id(current);
    match key.code {
        KeyCode::Char('j') => Some(
            list.moved_to(
                if key.control {
                    list.after_group(at, workspace)
                } else {
                    list.after(at, workspace)
                },
                current,
                now,
            ),
        ),
        KeyCode::Down => Some(list.moved_to(list.after(at, workspace), current, now)),
        KeyCode::Char('k') => Some(
            list.moved_to(
                if key.control {
                    list.before_group(at, workspace)
                } else {
                    list.before(at, workspace)
                },
                current,
                now,
            ),
        ),
        KeyCode::Up => Some(list.moved_to(list.before(at, workspace), current, now)),
        _ => None,
    }
}

/// Whether a key over the navigator jumps to the next interaction that waits
/// unseen.
pub open spec fn jumps(key: Key) -> bool {
    key.control && key.code == KeyCode::Char('a')
}

/// Whether jumping to the next interaction that waits unseen leads from one
/// screen to another: the cursor is on it, and the navigator stays open.
pub open spec fn jumped(before: App, now: u64, after: App) -> bool {
    let list = before.interactions;
    let current = before.session_id@;
    match list.beckoning_after(list.cursor_id(current), current, view_of(before.workspace.id)) {
        Some(i) => after == (App {
            interactions: list.moved_to(Some(i), current, now),
            ..before
        }),
        None => told(before, after, "no interaction has gone idle unseen"@),
    }
}

fn jump_to_next_idle(app: &mut App, now: u64)
    requires
        old(app).wf(),
    ensures
        jumped(*old(app), now, *final(app)),
        final(app).wf(),
{
    let workspace = match &app.workspace.id {
        Some(id) => Some(id.as_str()),
        None => None,
    };
    assert(str_view(workspace) == view_of(app.workspace.id));
    let current = app.session_id.as_str();
    if app.interactions.cursor_to_next_idle(current, workspace, now).is_none() {
        app.show_action_message("no interaction has gone idle unseen".to_owned());
    }
}

fn move_cursor(app: &mut App, key: Key, now: u64) -> (moved: bool)
    ensures
        match cursor_moved(*old(app), key, now) {
            Some(list) => moved && *final(app) == (App { interactions: list, ..*old(app) }),
            None => !moved && *final(app) == *old(app),
        },
{
    let workspace = match &app.workspace.id {
        Some(id) => Some(id.as_str()),
        None => None,
    };
    assert(str_view(workspace) == view_of(app.workspace.id));
    let current = app.session_id.as_str();
    match key.code {
        KeyCode::Char('j') => {
            if key.control {
                app.interactions.cursor_next_workspace(current, workspace, now);
            } else {
                app.interactions.cursor_next(current, workspace, now);
            }
            true
        },
        KeyCode::Down => {
            app.interactions.cursor_next(current, workspace, now);
            true
        },
        KeyCode::Char('k') => {
            if key.control {
                app.interactions.cursor_previous_workspace(current, workspace, now);
            } else {
                app.interactions.cursor_previous(current, workspace, now);
            }
            true
        },
        KeyCode::Up => {
            app.interactions.cursor_previous(current, workspace, now);
            true
        },
        _ => false,
    }
}

/// What a key leaves for others to do.
#[derive(Debug, PartialEq, Eq)]
pub enum Step {
    Done,
    /// Load this interaction, answer with [`make_interaction_current`], and hand
    /// the key to [`settled_key`].
    Settle(String),
    /// Have the server forget this interaction, and answer with
    /// [`interaction_deleted`].
    Delete(String),
    Notes(Save),
    Insert(Wanted),
    Launcher(Kept),
    List(Action),
    Input(Dispatch),
}

/// Whether a key for who has the keys leads from one screen to another and
/// leaves this to do.
pub open spec fn held_keyed(
    before: App,
    live: Live,
    key: Key,
    fold: bool,
    around: Surroundings,
    after: App,
    folding: bool,
    step: Step,
) -> bool {
    match held_by(before) {
        Route::Launcher => folding == fold && (step matches Step::Launcher(kept) && launcher_keyed(
            before,
            key.code,
            after,
            kept,
        )),
        Route::List => {
            let command = meaning(before.view, before.preview.open, fold, key.code);
            &&& step matches Step::List(action) && performs(
                before,
                live,
                command,
                around,
                after,
                action,
            ) && leaves(before, live, command, action)
            &&& folding == (command == Command::BeginFold)
        },
        _ => folding == fold && (step matches Step::Input(dispatch) && writes_key(
            before,
            live,
            writing(key),
            after,
            dispatch,
        )),
    }
}

fn handle_held_key(
    app: &mut App,
    live: &Live,
    key: Key,
    pending_fold: &mut bool,
    around: &Surroundings,
) -> (r: Step)
    requires
        old(app).wf(),
        old(app).described_by(*around),
    ensures
        held_keyed(
            *old(app),
            *live,
            key,
            *old(pending_fold),
            *around,
            *final(app),
            *final(pending_fold),
            r,
        ),
        final(app).wf(),
{
    if app.launcher.is_some() {
        return Step::Launcher(keys::handle_launcher_key(app, key));
    }
    if app.focus == Focus::List {
        return Step::List(keys::handle_list_key(app, live, key, pending_fold, around));
    }
    Step::Input(keys::handle_input_key(app, live, key))
}

/// The interaction on screen, as the navigator lists it.
pub open spec fn on_screen(app: App) -> Option<InteractionSummary> {
    if listed(app.interactions.items@, app.session_id@) {
        Some(app.interactions.items@[first_with_id(app.interactions.items@, app.session_id@)])
    } else {
        None
    }
}

/// Whether a key over the navigator, with its cursor at rest, leads from one
/// screen to another and leaves this to do. A key that is not the navigator's
/// closes it and goes on to who has the keys.
pub open spec fn navigator_keyed(
    before: App,
    live: Live,
    key: Key,
    fold: bool,
    around: Surroundings,
    after: App,
    folding: bool,
    step: Step,
) -> bool {
    let closed = App {
        interactions: LiveInteractions { open: false, ..before.interactions },
        ..before
    };
    match key.code {
        KeyCode::Char('a') | KeyCode::Esc | KeyCode::Enter => step is Done && folding == fold
            && after == closed,
        KeyCode::Char('w') => step is Done && folding == fold && after == (App {
            interactions: LiveInteractions {
                only_current_workspace: !before.interactions.only_current_workspace,
                ..before.interactions
            },
            ..before
        }),
        KeyCode::Char('D') => folding == fold && match on_screen(before) {
            None => step is Done && after == before,
            Some(interaction) => if interaction.accepting {
                step is Done && told(before, after, "only stopped interactions can be deleted"@)
            } else {
                step == Step::Delete(interaction.id) && after == before
            },
        },
        _ => held_keyed(
            if passes_through(key.code) {
                before
            } else {
                closed
            },
            live,
            key,
            fold,
            around,
            after,
            folding,
            step,
        ),
    }
}

/// Take a key over the navigator once the row under its cursor is current.
pub fn settled_key(
    app: &mut App,
    live: &Live,
    key: Key,
    pending_fold: &mut bool,
    around: &Surroundings,
) -> (r: Step)
    requires
        old(app).wf(),
        old(app).described_by(*around),
    ensures
        navigator_keyed(
            *old(app),
            *live,
            key,
            *old(pending_fold),
            *around,
            *final(app),
            *final(pending_fold),
            r,
        ),
        final(app).wf(),
{
    match key.code {
        KeyCode::Char('a') | KeyCode::Esc | KeyCode::Enter => {
            app.interactions.close();
            Step::Done
        },
        KeyCode::Char('w') => {
            app.interactions.toggle_workspace_scope();
            Step::Done
        },
        KeyCode::Char('D') => {
            let (id, accepting) = match app.interactions.current(app.session_id.as_str()) {
                Some(interaction) => (interaction.id.clone(), interaction.accepting),
                None => {
                    return Step::Done;
                },
            };
            if accepting {
                app.show_action_message("only stopped interactions can be deleted".to_owned());
                return Step::Done;
            }
            Step::Delete(id)
        },
        code => {
            if !interaction_navigator_passthrough(&code) {
                app.interactions.close();
            }
            handle_held_key(app, live, key, pending_fold, around)
        },
    }
}

/// What is told besides the key.
pub struct Moment {
    pub home: Option<String>,
    /// The time.
    pub now: u64,
    pub around: Surroundings,
}

/// Whether a key leads from one screen to another and leaves this to do.
pub open spec fn keyed(
    before: App,
    live: Live,
    key: Key,
    fold: bool,
    moment: Moment,
    after: App,
    folding: bool,
    step: Step,
) -> bool {
    match routed(before, key.code) {
        Route::Templates => step is Done && folding == fold && template_keyed(
            before,
            key.code,
            after,
        ),
        Route::Notes => folding == fold && match step {
            Step::Done => notes::keyed(before, key, after, None),
            Step::Notes(save) => notes::keyed(before, key, after, Some(save)),
            _ => false,
        },
        Route::References => step is Done && folding == fold && references_keyed(
            before,
            key.code,
            after,
        ),
        Route::Help => step is Done && folding == fold && helped(before, key.code, after),
        Route::Insert => folding == fold && (step matches Step::Insert(wanted) && insert_keyed(
            before,
            key,
            moment.home,
            after,
            wanted,
        )),
        Route::Mount => step is Done && folding == fold && mount_keyed(
            before,
            key.code,
            view_of(moment.home),
            after,
        ),
        Route::OpenHelp => step is Done && folding == fold && after == (App {
            help: Help { open: true, ..before.help },
            ..before
        }),
        Route::Navigator => if jumps(key) {
            step is Done && folding == fold && jumped(before, moment.now, after)
        } else {
            match cursor_moved(before, key, moment.now) {
                Some(list) => step is Done && folding == fold && after == (App {
                    interactions: list,
                    ..before
                }),
                None => match before.interactions.awaited(before.session_id@) {
                    Some(interaction) => step == Step::Settle(interaction.id) && folding == fold
                        && after == before,
                    None => navigator_keyed(
                        before,
                        live,
                        key,
                        fold,
                        moment.around,
                        after,
                        folding,
                        step,
                    ),
                },
            }
        },
        _ => held_keyed(before, live, key, fold, moment.around, after, folding, step),
    }
}

/// Take a key.
pub fn handle_key(
    app: &mut App,
    live: &Live,
    key: Key,
    pending_fold: &mut bool,
    moment: &Moment,
) -> (r: Step)
    requires
        old(app).wf(),
        old(app).described_by(moment.around),
    ensures
        keyed(
            *old(app),
            *live,
            key,
            *old(pending_fold),
            *moment,
            *final(app),
            *final(pending_fold),
            r,
        ),
        final(app).wf(),
{
    match route(app, key.code) {
        Route::Templates => {
            handle_template_key(app, key.code);
            Step::Done
        },
        Route::Notes => match notes::handle_key(app, key) {
            Some(save) => Step::Notes(save),
            None => Step::Done,
        },
        Route::References => {
            keys::handle_references_key(app, key.code);
            Step::Done
        },
        Route::Help => {
            handle_help_key(app, key.code);
            Step::Done
        },
        Route::Insert => Step::Insert(keys::handle_insert_key(app, key, &moment.home)),
        Route::Mount => {
            keys::handle_mount_prompt_key(app, key, &moment.home);
            Step::Done
        },
        Route::OpenHelp => {
            app.help.open();
            Step::Done
        },
        Route::Navigator => {
            if key.control && key.code == KeyCode::Char('a') {
                jump_to_next_idle(app, moment.now);
                return Step::Done;
            }
            if move_cursor(app, key, moment.now) {
                return Step::Done;
            }
            let awaited = match app.interactions.pending(app.session_id.as_str()) {
                Some(interaction) => Some(interaction.id.clone()),
                None => None,
            };
            match awaited {
                Some(id) => Step::Settle(id),
                None => settled_key(app, live, key, pending_fold, &moment.around),
            }
        },
        _ => handle_held_key(app, live, key, pending_fold, &moment.around),
    }
}

/// While the files that a reply cites are listed, no key reaches what is under
/// the list: nothing changes but the list itself and what is asked for.
pub proof fn law_the_list_of_files_is_modal(
    before: App,
    live: Live,
    key: Key,
    fold: bool,
    moment: Moment,
    after: App,
    folding: bool,
    step: Step,
)
    requires
        before.references is Some,
        before.template_picker is None,
        before.notes.editor is None,
        keyed(before, live, key, fold, moment, after, folding, step),
    ensures
        after == (App { references: after.references, request: after.request, ..before }),
        after.request != before.request ==> after.references is None,
        folding == fold,
        step is Done,
{
}

/// Where the client goes once an interaction was deleted.
#[derive(Debug, PartialEq, Eq)]
pub enum Deleted {
    Nothing,
    /// The last one is gone: leave the screen.
    Leave,
    /// Load this one, and answer with [`make_interaction_current`].
    Load(String),
}

/// Whether taking an interaction off the list leads from one list to another and
/// to this next step: the entry that takes its place is loaded, and all are
/// listed where its Workspace has none left. With no entry left, or none with
/// this id, the navigator closes.
pub open spec fn deleted_from(
    before: LiveInteractions,
    id: Seq<char>,
    workspace: Option<Seq<char>>,
    after: LiveInteractions,
    next: Deleted,
) -> bool {
    if !listed(before.items@, id) {
        next is Leave && after == (LiveInteractions { open: false, ..before })
    } else {
        let removed = first_with_id(before.items@, id);
        let less = (LiveInteractions { items: after.items, ..before }).rested();
        &&& after.items@ == before.items@.remove(removed)
        &&& after == (LiveInteractions {
            only_current_workspace: before.only_current_workspace && (less.items@.len() == 0
                || less.visible(workspace).len() > 0),
            open: before.open && less.items@.len() > 0,
            ..less
        })
        &&& if less.items@.len() == 0 {
            next is Leave
        } else {
            next == Deleted::Load(
                after.items@[LiveInteractions::from_or_last(after.visible(workspace), removed)].id,
            )
        }
    }
}

/// Hand back what became of deleting an interaction. The next one is made
/// current; with none left the screen is reset.
pub fn interaction_deleted(app: &mut App, id: &str, result: Result<(), String>) -> (r: Deleted)
    requires
        old(app).wf(),
    ensures
        match result {
            Err(error) => r is Nothing && noted(
                *old(app),
                *final(app),
                LogLevel::Error,
                "could not delete interaction "@ + id@ + ": "@ + error@,
            ),
            Ok(()) => *final(app) == (App { interactions: final(app).interactions, ..*old(app) })
                && deleted_from(
                old(app).interactions,
                id@,
                view_of(old(app).workspace.id),
                final(app).interactions,
                r,
            ),
        },
        final(app).wf(),
{
    if let Err(error) = result {
        log_error(
            app,
            "could not delete interaction ".to_owned().concat(id).concat(": ").concat(
                error.as_str(),
            ),
        );
        return Deleted::Nothing;
    }
    let workspace = match &app.workspace.id {
        Some(id) => Some(id.as_str()),
        None => None,
    };
    assert(str_view(workspace) == view_of(app.workspace.id));
    match app.interactions.remove_and_select_next(id, workspace) {
        Some(i) => Deleted::Load(app.interactions.items[i].id.clone()),
        None => {
            app.interactions.close();
            Deleted::Leave
        },
    }
}

// --- Requests ----------------------------------------------------------------

/// What a request leaves for others to do.
#[derive(Debug, PartialEq, Eq)]
pub enum Served {
    Nothing,
    Leave(RunOutcome),
    /// Let the operator choose a Workspace, and answer with
    /// [`enter_workspace`].
    PickWorkspace,
    /// List the sessions of the Workspace, and answer with
    /// [`sessions_listed`].
    ListSessions,
    /// List the live interactions and the Workspaces, and answer with
    /// [`interactions_listed`].
    ListInteractions,
    /// List the live interactions, and answer with [`idle_sought`].
    NextIdle,
    /// Turn worktrees on or off, and answer with [`worktrees_set`].
    SetWorktrees(bool),
    /// Switch this session, and answer with [`selection_applied`].
    SetSelection { session_id: String, selection: Selection },
    /// Hand this to the server, and answer with [`LaunchEffects::apply_ready`].
    Launch(LaunchEffect),
    /// Fetch the answer, and record it.
    FetchAnswer { session_id: String, contract: Option<Contract> },
    /// Fetch the quota log, and answer with [`refresh_quota`].
    FetchQuota,
    /// Fetch the wire lines, then show them.
    FetchRaw(String),
    /// Open this file, and answer with [`path_opened`].
    OpenPath(String),
    /// Copy this session's history over to another agent, and answer with
    /// [`provider_converted`].
    Convert { session_id: String, provider: Provider },
    /// Have the server keep this setting of the session, and answer with
    /// [`auto_retry_set`].
    SetAutoRetry { session_id: String, enabled: bool },
}

/// The templates that the picker starts from: those of the edited layer, and
/// for this interaction's the whole list that a launch would apply.
pub open spec fn templates_offered(launch: Launch) -> Seq<Seq<char>> {
    match launch.scope {
        LaunchScope::Workspace => crate::text::views(launch.workspace.templates@),
        LaunchScope::Interaction => launch.in_effect().templates,
    }
}

/// Whether serving a request leads from one screen to another and leaves this
/// to do. `before` is the screen once the request was taken.
pub open spec fn serves(
    before: App,
    live: Live,
    request: Request,
    workspace: String,
    request_id: u64,
    around: Surroundings,
    after: App,
    served: Served,
) -> bool {
    match request {
        Request::Quit => after == before && served == Served::Leave(RunOutcome::Quit),
        Request::Reset => after == before && served == Served::Leave(RunOutcome::Reset),
        Request::NewSession => after == before && served == Served::Leave(RunOutcome::NewSession),
        Request::OpenSession(id) => after == before && served == Served::Leave(
            RunOutcome::OpenSession(id),
        ),
        Request::Workspace => after == before && served is PickWorkspace,
        Request::Sessions => after == before && served is ListSessions,
        Request::Interactions => after == before && served is ListInteractions,
        Request::NextIdleInteraction => after == before && served is NextIdle,
        Request::Raw => after == before && served == Served::FetchRaw(before.session_id),
        Request::SetWorktreesEnabled(enabled) => after == before && served == Served::SetWorktrees(
            enabled,
        ),
        Request::ApplySelection => after == before && if live is Running {
            served == (Served::SetSelection {
                session_id: before.session_id,
                selection: before.selection,
            })
        } else {
            served is Nothing
        },
        Request::Templates => {
            &&& served == Served::Launch(
                LaunchEffect::ListTemplates { request_id, workspace_id: workspace },
            )
            &&& after.template_picker matches Some(picker) && picker.request_id == request_id
                && picker.workspace_id == workspace && picker.scope == before.launch.scope
                && picker.templates is None && picker.cursor == 0 && crate::text::views(
                picker.initial@,
            ) == templates_offered(before.launch) && picker.chosen@ == picker.initial@
            &&& after == (App { template_picker: after.template_picker, ..before })
        },
        Request::ChangeWorkspaceLaunch { change, clear_interaction } => {
            &&& served == Served::Launch(
                LaunchEffect::ChangeWorkspace { workspace_id: workspace, change, clear_interaction },
            )
            &&& after == (App {
                workspace_launch_pending: (before.workspace_launch_pending + 1) as u64,
                ..before
            })
        },
        Request::Answer { contract } => if before.session_id@.len() == 0 {
            &&& served is Nothing
            &&& after.answer.answer is None && after.answer.selected == 0 && view_of(
                after.answer.error,
            ) == Some("no session to answer from yet"@)
            &&& after == (App { answer: after.answer, ..before })
        } else {
            after == before && served == (Served::FetchAnswer {
                session_id: before.session_id,
                contract,
            })
        },
        Request::Quota => after == before && served is FetchQuota,
        Request::EditFile => after == before && match served {
            Served::OpenPath(path) => before.selects_file(around, Some(path@)),
            Served::Nothing => before.selects_file(around, None),
            _ => false,
        },
        Request::OpenPath(path) => after == before && served == Served::OpenPath(path),
        Request::ConvertProvider(provider) => after == before && served == (Served::Convert {
            session_id: before.session_id,
            provider,
        }),
        Request::SetAutoRetry(enabled) => after == before && served == (Served::SetAutoRetry {
            session_id: before.session_id,
            enabled,
        }),
    }
}

/// Serve what the screen asks for.
pub fn serve(
    app: &mut App,
    live: &Live,
    effects: &mut LaunchEffects,
    workspace_id: &String,
    around: &Surroundings,
) -> (r: Served)
    requires
        old(app).wf(),
        old(app).described_by(*around),
        old(app).workspace_launch_pending < u64::MAX,
    ensures
        match old(app).request {
            None => r is Nothing && *final(app) == *old(app),
            Some(request) => serves(
                App { request: None, ..*old(app) },
                *live,
                request,
                *workspace_id,
                old(effects).next_template_request,
                *around,
                *final(app),
                r,
            ),
        },
        *final(effects) == if old(app).request matches Some(Request::Templates) {
            old(effects).after_a_request()
        } else {
            *old(effects)
        },
        final(app).wf(),
{
    let request = match app.take_request() {
        Some(request) => request,
        None => {
            return Served::Nothing;
        },
    };
    match request {
        Request::Quit => Served::Leave(RunOutcome::Quit),
        Request::Reset => Served::Leave(RunOutcome::Reset),
        Request::NewSession => Served::Leave(RunOutcome::NewSession),
        Request::OpenSession(id) => Served::Leave(RunOutcome::OpenSession(id)),
        Request::Workspace => Served::PickWorkspace,
        Request::Sessions => Served::ListSessions,
        Request::Interactions => Served::ListInteractions,
        Request::NextIdleInteraction => Served::NextIdle,
        Request::Raw => Served::FetchRaw(app.session_id.clone()),
        Request::SetWorktreesEnabled(enabled) => Served::SetWorktrees(enabled),
        Request::ApplySelection => match live {
            Live::Running { .. } => Served::SetSelection {
                session_id: app.session_id.clone(),
                selection: app.selection.copied(),
            },
            _ => Served::Nothing,
        },
        Request::Templates => {
            let current = match app.launch.scope {
                LaunchScope::Workspace => app.launch.workspace.templates.clone(),
                LaunchScope::Interaction => app.launch.effective().templates,
            };
            let (effect, request_id) = effects.submit_templates(workspace_id.clone());
            app.template_picker = Some(
                TemplatePicker::loading(
                    request_id,
                    workspace_id.clone(),
                    app.launch.scope,
                    current,
                ),
            );
            Served::Launch(effect)
        },
        Request::ChangeWorkspaceLaunch { change, clear_interaction } => {
            Served::Launch(
                submit_workspace_launch(app, workspace_id.clone(), change, clear_interaction),
            )
        },
        Request::Answer { contract } => {
            if app.session_id.as_str().is_empty() {
                app.answer.set(Err("no session to answer from yet".to_owned()));
                return Served::Nothing;
            }
            Served::FetchAnswer { session_id: app.session_id.clone(), contract }
        },
        Request::Quota => Served::FetchQuota,
        Request::EditFile => match app.selected_file_path(around) {
            Some(path) => Served::OpenPath(path),
            None => Served::Nothing,
        },
        Request::OpenPath(path) => Served::OpenPath(path),
        Request::ConvertProvider(provider) => Served::Convert {
            session_id: app.session_id.clone(),
            provider,
        },
        Request::SetAutoRetry(enabled) => Served::SetAutoRetry {
            session_id: app.session_id.clone(),
            enabled,
        },
    }
}

/// Whether going to the next interaction that waits unseen leads from one screen
/// to another, and to this one being loaded.
pub open spec fn seeks_idle(
    before: App,
    interactions: Option<Vec<InteractionSummary>>,
    after: App,
    next: Option<String>,
) -> bool {
    let list = after.interactions;
    let known = App { interactions: list, ..before };
    &&& match interactions {
        Some(items) => before.interactions.refreshed(items@, list),
        None => list == before.interactions,
    }
    &&& match list.next_beckoning(before.session_id@) {
        Some(i) => next == Some(list.items@[i].id) && after == known,
        None => next is None && told(known, after, "no interaction has gone idle unseen"@),
    }
}

/// Hand back which interactions there are, or nothing where they cannot be
/// listed. The one that is returned is to be loaded, with
/// [`make_interaction_current`], and the navigator opened over it, with
/// [`open_interaction_navigator`].
pub fn idle_sought(app: &mut App, interactions: Option<Vec<InteractionSummary>>) -> (r: Option<
    String,
>)
    requires
        old(app).wf(),
    ensures
        seeks_idle(*old(app), interactions, *final(app), r),
        final(app).wf(),
{
    if let Some(items) = interactions {
        app.interactions.refresh(items);
    }
    let next = match app.interactions.next_idle_unseen(app.session_id.as_str()) {
        Some(found) => Some(found.id.clone()),
        None => None,
    };
    if next.is_none() {
        app.show_action_message("no interaction has gone idle unseen".to_owned());
    }
    next
}

/// Hand back what became of turning worktrees on or off.
pub fn worktrees_set(app: &mut App, enabled: bool, result: Result<&WorkspaceSummary, String>)
    requires
        old(app).wf(),
    ensures
        match result {
            Ok(workspace) => {
                &&& final(app).launch.workspace@ == workspace.launch@
                &&& told(
                    App {
                        workspace: old(app).workspace.showing(*workspace),
                        launch: Launch {
                            workspace: final(app).launch.workspace,
                            selected: (0, 0),
                            ..old(app).launch
                        },
                        ..*old(app)
                    },
                    *final(app),
                    if enabled {
                        "worktree creation enabled for future launches"@
                    } else {
                        "worktree creation disabled for future launches"@
                    },
                )
            },
            Err(error) => noted(
                *old(app),
                *final(app),
                LogLevel::Error,
                "could not change worktree creation: "@ + error@,
            ),
        },
        final(app).wf(),
{
    match result {
        Ok(workspace) => {
            app.show_workspace(workspace);
            let message = if enabled {
                "worktree creation enabled for future launches"
            } else {
                "worktree creation disabled for future launches"
            };
            app.show_action_message(message.to_owned());
        },
        Err(error) => log_error(
            app,
            "could not change worktree creation: ".to_owned().concat(error.as_str()),
        ),
    }
}

/// Hand back what became of switching a live session to another selection.
pub fn selection_applied(app: &mut App, selection: &Selection, result: Result<(), String>)
    requires
        old(app).wf(),
    ensures
        match result {
            Ok(()) => told(*old(app), *final(app), "model set to "@ + selection.model@),
            Err(error) => noted(
                *old(app),
                *final(app),
                LogLevel::Error,
                "could not switch to "@ + selection.model@ + ": "@ + error@,
            ),
        },
        final(app).wf(),
{
    match result {
        Ok(()) => app.show_action_message(
            "model set to ".to_owned().concat(selection.model.as_str()),
        ),
        Err(error) => log_error(
            app,
            "could not switch to ".to_owned().concat(selection.model.as_str()).concat(
                ": ",
            ).concat(error.as_str()),
        ),
    }
}

/// Hand back what became of copying a session's history over to another agent,
/// known by `name`: the id and the name of the session that carries it on. It is
/// left for that one.
pub fn provider_converted(
    app: &mut App,
    name: &str,
    result: Result<(String, Option<String>), String>,
) -> (r: Option<RunOutcome>)
    requires
        old(app).wf(),
    ensures
        match result {
            Ok((id, given)) => r == Some(RunOutcome::OpenSession(id)) && noted(
                *old(app),
                *final(app),
                LogLevel::Info,
                "converted this Session's history to "@ + name@ + "; continuing in Session "@
                    + match given {
                    Some(given) => given@,
                    None => id@,
                },
            ),
            Err(error) => r is None && noted(
                *old(app),
                *final(app),
                LogLevel::Error,
                "could not convert this Session to "@ + name@ + ": "@ + error@,
            ),
        },
        final(app).wf(),
{
    match result {
        Ok((id, given)) => {
            let message = "converted this Session's history to ".to_owned().concat(name).concat(
                "; continuing in Session ",
            );
            let message = match given {
                Some(given) => message.concat(given.as_str()),
                None => message.concat(id.as_str()),
            };
            log_info(app, message);
            Some(RunOutcome::OpenSession(id))
        },
        Err(error) => {
            log_error(
                app,
                "could not convert this Session to ".to_owned().concat(name).concat(": ").concat(
                    error.as_str(),
                ),
            );
            None
        },
    }
}

/// Hand back whether the server keeps the setting. What is shown is what it
/// keeps.
pub fn auto_retry_set(app: &mut App, enabled: bool, result: Result<(), String>)
    requires
        old(app).wf(),
    ensures
        match result {
            Ok(()) => told(
                App { auto_retry: enabled, ..*old(app) },
                *final(app),
                if enabled {
                    "rate-limit retry on — this session will be asked again after a reset"@
                } else {
                    "rate-limit retry off"@
                },
            ),
            Err(error) => {
                let message = "could not change the rate-limit retry: "@ + error@;
                &&& final(app).notices.said() == old(app).notices.said().push(message)
                &&& stays_put(old(app).log, final(app).log)
                &&& log_views(final(app).log.items@) == log_views(old(app).log.items@).push(
                    (LogLevel::Error, message),
                )
                &&& *final(app) == (App {
                    notices: Notices { messages: final(app).notices.messages, ..old(app).notices },
                    log: final(app).log,
                    ..*old(app)
                })
            },
        },
        final(app).wf(),
{
    match result {
        Ok(()) => {
            app.auto_retry = enabled;
            let message = if enabled {
                "rate-limit retry on — this session will be asked again after a reset"
            } else {
                "rate-limit retry off"
            };
            app.show_action_message(message.to_owned());
        },
        Err(error) => {
            let message = "could not change the rate-limit retry: ".to_owned().concat(
                error.as_str(),
            );
            app.show_action_message(message.clone());
            log_error(app, message);
        },
    }
}

/// Take how many sessions the Workspace has. Whether there are any to choose
/// from is returned.
pub fn sessions_listed(app: &mut App, count: usize) -> (r: bool)
    requires
        old(app).wf(),
    ensures
        r == (count > 0),
        if r {
            *final(app) == *old(app)
        } else {
            noted(
                *old(app),
                *final(app),
                LogLevel::Warn,
                "no sessions found in the current Workspace"@,
            )
        },
        final(app).wf(),
{
    if count == 0 {
        log_warn(app, "no sessions found in the current Workspace".to_owned());
        return false;
    }
    true
}

/// Take the live interactions, and open the navigator on them where there are
/// any.
pub fn interactions_listed(
    app: &mut App,
    interactions: Vec<InteractionSummary>,
    workspaces: Vec<WorkspaceSummary>,
)
    requires
        old(app).wf(),
    ensures
        if interactions@.len() == 0 {
            noted(
                *old(app),
                *final(app),
                LogLevel::Warn,
                "no live interactions on the server"@,
            )
        } else {
            navigating(*old(app), interactions@, workspaces, *final(app))
        },
        final(app).wf(),
{
    if interactions.len() == 0 {
        log_warn(app, "no live interactions on the server".to_owned());
        return ;
    }
    open_interaction_navigator(app, Some(interactions), workspaces);
}

/// How a chosen Workspace is entered.
#[derive(Debug, PartialEq, Eq)]
pub enum Entered {
    Leave(RunOutcome),
    /// List its sessions, and ask again.
    ListSessions(WorkspaceSummary),
    /// Let the operator choose one of its sessions.
    PickSession(WorkspaceSummary),
}

/// How a chosen Workspace is entered: at its live work, where there is any; at
/// the start screen, where it has no sessions; and otherwise at a session that
/// the operator chooses. Its sessions are counted only where there is no live work.
pub fn enter_workspace(
    workspace: WorkspaceSummary,
    interactions: &Vec<InteractionSummary>,
    sessions: Option<usize>,
) -> (r: Entered)
    ensures
        match r {
            Entered::Leave(
                RunOutcome::OpenWorkspace { workspace: entered, session_id, open_interactions },
            ) => entered == workspace && match session_id {
                Some(id) => open_interactions && exists|i: int| #[trigger]
                    best_in(interactions@, workspace.id@, i) && interactions@[i].id == id,
                None => !open_interactions && sessions == Some(0usize) && forall|j: int|
                    0 <= j < interactions@.len() ==> !candidate(
                        #[trigger] interactions@[j],
                        workspace.id@,
                    ),
            },
            Entered::PickSession(entered) => entered == workspace && (sessions matches Some(count)
                && count > 0) && forall|j: int|
                0 <= j < interactions@.len() ==> !candidate(
                    #[trigger] interactions@[j],
                    workspace.id@,
                ),
            Entered::ListSessions(entered) => entered == workspace && sessions is None && forall|
                j: int,
            |
                0 <= j < interactions@.len() ==> !candidate(
                    #[trigger] interactions@[j],
                    workspace.id@,
                ),
            _ => false,
        },
{
    match first_live_in_workspace(interactions, workspace.id.as_str()) {
        Some(i) => {
            let id = interactions[i].id.clone();
            assert(best_in(interactions@, workspace.id@, i as int));
            Entered::Leave(
                RunOutcome::OpenWorkspace {
                    workspace,
                    session_id: Some(id),
                    open_interactions: true,
                },
            )
        },
        None => match sessions {
            None => Entered::ListSessions(workspace),
            Some(0) => Entered::Leave(
                RunOutcome::OpenWorkspace {
                    workspace,
                    session_id: None,
                    open_interactions: false,
                },
            ),
            Some(_) => Entered::PickSession(workspace),
        },
    }
}

/// Hand back what became of opening a file with `command`.
pub fn path_opened(app: &mut App, path: &str, command: &str, result: Result<(), String>)
    requires
        old(app).wf(),
    ensures
        match result {
            Ok(()) => told(*old(app), *final(app), "opened "@ + command@),
            Err(error) => noted(
                *old(app),
                *final(app),
                LogLevel::Error,
                "could not open "@ + path@ + ": "@ + error@,
            ),
        },
        final(app).wf(),
{
    match result {
        Ok(()) => app.show_action_message("opened ".to_owned().concat(command)),
        Err(error) => log_error(
            app,
            "could not open ".to_owned().concat(path).concat(": ").concat(error.as_str()),
        ),
    }
}

// --- Laws --------------------------------------------------------------------

/// What is open over the screen keeps its keys: none of them reaches the list,
/// the message box or the launch picker.
pub proof fn law_what_is_open_keeps_its_keys(app: App, code: KeyCode)
    requires
        app.template_picker is Some || app.notes.editor is Some || app.help.open || app.insert
            is Some || app.launch.prompt is Some,
    ensures
        routed(app, code) != Route::List,
        routed(app, code) != Route::Input,
        routed(app, code) != Route::Launcher,
        routed(app, code) != Route::Navigator,
        routed(app, code) != Route::OpenHelp,
{
}

/// Switching to another interaction keeps what the operator wrote and chose, and
/// shows the other interaction's own history.
pub proof fn law_switching_keeps_the_draft(
    before: App,
    standing: LaunchPolicy,
    loaded: App,
    after: App,
)
    requires
        switched(before, standing, loaded, after),
    ensures
        after.composer == before.composer,
        after.outbox.contract == before.outbox.contract,
        after.recent_models == before.recent_models,
        after.preview.chosen() == before.preview.chosen(),
        after.session_id == loaded.session_id,
        after.timeline.entries == loaded.timeline.entries,
        after.raw == loaded.raw,
        after.log == loaded.log,
        after.activity == loaded.activity,
{
}

/// A tick goes on to its end: whatever there is to do, each step of it is done
/// after those before it, and the screen is shown after the last.
pub proof fn law_a_tick_ends_with_the_screen(tick: Tick, app: App, live: Live, now: u64)
    ensures
        ({
            let stage = tick.first_with_work(tick.stage, app, live, now);
            &&& stage.rank() >= tick.stage.rank()
            &&& tick.has_work(stage, app, live, now)
            &&& stage == Stage::Show || stage.following().rank() > tick.stage.rank()
            &&& forall|s: Stage|
                tick.stage.rank() <= #[trigger] s.rank() < stage.rank() ==> !tick.has_work(
                    s,
                    app,
                    live,
                    now,
                )
        }),
    decreases 6 - tick.stage.rank(),
{
    if tick.stage != Stage::Show && !tick.has_work(tick.stage, app, live, now) {
        let rest = Tick { stage: tick.stage.following(), ..tick };
        law_a_tick_ends_with_the_screen(rest, app, live, now);
        lemma_work_ignores_the_stage(rest, tick, tick.stage.following(), app, live, now);
        let stage = tick.first_with_work(tick.stage, app, live, now);
        assert forall|s: Stage|
            tick.stage.rank() <= #[trigger] s.rank() < stage.rank() implies !tick.has_work(
            s,
            app,
            live,
            now,
        ) by {
            assert(s == tick.stage || s.rank() >= rest.stage.rank());
            if s != tick.stage {
                assert(!rest.has_work(s, app, live, now));
            }
        }
    }
}

proof fn lemma_work_ignores_the_stage(
    a: Tick,
    b: Tick,
    stage: Stage,
    app: App,
    live: Live,
    now: u64,
)
    requires
        a.refreshed == b.refreshed,
    ensures
        a.first_with_work(stage, app, live, now) == b.first_with_work(stage, app, live, now),
    decreases 6 - stage.rank(),
{
    if stage != Stage::Show && !a.has_work(stage, app, live, now) {
        lemma_work_ignores_the_stage(a, b, stage.following(), app, live, now);
    }
}

/// An answer about another Workspace than the one on screen changes nothing.
pub proof fn law_late_answers_for_another_workspace_are_dropped(
    before: App,
    workspace: Seq<char>,
    answer: LaunchEffectResult,
    after: App,
)
    requires
        effect_applied(before, workspace, answer, after),
        match answer {
            LaunchEffectResult::Templates { workspace_id, .. } => workspace_id@ != workspace,
            LaunchEffectResult::WorkspaceChanged { workspace_id, .. } => workspace_id@ != workspace,
        },
    ensures
        after == before,
{
}

} // verus!
