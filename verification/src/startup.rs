//! Where the client starts, and the screen it goes to next.

use vstd::prelude::*;
use vstd::view::View as _;

use crate::activity::{Activity, Status};
use crate::app::App;
use crate::event_loop::RunOutcome;
use crate::interactions::{find_id, listed};
use crate::launch::Launch;
use crate::launcher::Catalog;
use crate::picker::{display_name, workspace_display_name};
use crate::preferences::Defaults;
use crate::protocol::{
    InteractionSummary, LaunchPolicy, Selection, StoredSession, WorkspaceSummary,
};
use crate::text::{join, joined, same, trim, trimmed, view_of, views};
use crate::workspace::Location;

verus! {

/// What was asked for on the command line.
#[derive(Debug, PartialEq, Eq)]
pub struct Invocation {
    pub daemon: bool,
    pub stop: bool,
    pub workspace: Option<String>,
    pub network: bool,
    pub template: Vec<String>,
    /// A session to read, or the list of them.
    pub view: Option<Option<String>>,
    /// A shell in a session, or the list of them.
    pub shell: Option<Option<String>>,
    pub prompt: Vec<String>,
}

/// What the client does first.
#[derive(Debug, PartialEq, Eq)]
pub enum Start {
    StopDaemon,
    StartDaemon,
    /// Attach to the shell of this session.
    AttachShell(String),
    /// Choose among the live sessions, and attach to its shell.
    BrowseShells,
    /// Read this session's journal.
    View(String),
    /// Choose a session, and read its journal.
    BrowseSessions,
    /// Work in this directory, or where the client runs.
    Work,
}

/// What an invocation asks for first. Managing the daemon comes before
/// everything, then shells, then reading.
pub open spec fn first_of(invocation: Invocation) -> Start {
    if invocation.stop {
        Start::StopDaemon
    } else if invocation.daemon {
        Start::StartDaemon
    } else {
        match invocation.shell {
            Some(Some(session)) => Start::AttachShell(session),
            Some(None) => Start::BrowseShells,
            None => match invocation.view {
                Some(Some(target)) => Start::View(target),
                Some(None) => Start::BrowseSessions,
                None => Start::Work,
            },
        }
    }
}

impl Invocation {
    /// What the client does first.
    pub fn first(&self) -> (r: Start)
        ensures
            r == first_of(*self),
    {
        if self.stop {
            return Start::StopDaemon;
        }
        if self.daemon {
            return Start::StartDaemon;
        }
        match &self.shell {
            Some(Some(session)) => Start::AttachShell(session.clone()),
            Some(None) => Start::BrowseShells,
            None => match &self.view {
                Some(Some(target)) => Start::View(target.clone()),
                Some(None) => Start::BrowseSessions,
                None => Start::Work,
            },
        }
    }

    /// Whether the Workspace is chosen by the operator where the current
    /// directory has none: nothing else was named.
    pub fn chooses_workspace(&self) -> (r: bool)
        ensures
            r == (self.workspace is None && self.view is None && self.shell is None),
    {
        self.workspace.is_none() && self.view.is_none() && self.shell.is_none()
    }

    /// The first message, where one was given.
    pub fn seed(&self) -> (r: Option<String>)
        ensures
            view_of(r) == if trimmed(joined(views(self.prompt@), " "@)).len() > 0 {
                Some(joined(views(self.prompt@), " "@))
            } else {
                None
            },
    {
        let prompt = join(&self.prompt, " ");
        if trim(prompt.as_str()).as_str().is_empty() {
            None
        } else {
            Some(prompt)
        }
    }

    /// What a new interaction starts from: the defaults, with what the
    /// invocation says over them. The network is only ever granted, and named
    /// templates replace those of the defaults.
    pub fn standing_launch(&self, defaults: Defaults) -> (r: (Selection, LaunchPolicy))
        ensures
            r.0 == defaults.selection,
            r.1.network == if self.network {
                Some(true)
            } else {
                defaults.launch.network
            },
            r.1.templates@ == if self.template@.len() > 0 {
                self.template@
            } else {
                defaults.launch.templates@
            },
            r.1.mounts == defaults.launch.mounts,
            r.1.standalone == defaults.launch.standalone,
    {
        let mut launch = defaults.launch;
        if self.network {
            launch.network = Some(true);
        }
        if self.template.len() > 0 {
            launch.templates = self.template.clone();
        }
        (defaults.selection, launch)
    }
}

/// The Workspace with this id.
pub open spec fn workspace_with(workspaces: Seq<WorkspaceSummary>, id: Seq<char>) -> Option<int>
    decreases workspaces.len(),
{
    if workspaces.len() == 0 {
        None
    } else {
        match workspace_with(workspaces.drop_last(), id) {
            Some(i) => Some(i),
            None => if workspaces.last().id@ == id {
                Some(workspaces.len() - 1)
            } else {
                None
            },
        }
    }
}

proof fn lemma_workspace_stays(workspaces: Seq<WorkspaceSummary>, id: Seq<char>, n: int)
    requires
        0 <= n <= workspaces.len(),
        workspace_with(workspaces.take(n), id) is Some,
    ensures
        workspace_with(workspaces, id) == workspace_with(workspaces.take(n), id),
    decreases workspaces.len() - n,
{
    if n == workspaces.len() {
        assert(workspaces.take(n) =~= workspaces);
    } else {
        assert(workspaces.take(n + 1).drop_last() =~= workspaces.take(n));
        lemma_workspace_stays(workspaces, id, n + 1);
    }
}

/// The place of the first Workspace with this id.
pub fn find_workspace(workspaces: &Vec<WorkspaceSummary>, id: &str) -> (r: Option<usize>)
    ensures
        match workspace_with(workspaces@, id@) {
            Some(i) => r matches Some(k) && k == i && 0 <= i < workspaces@.len()
                && workspaces@[i].id@ == id@,
            None => r is None,
        },
{
    let mut k: usize = 0;
    assert(workspaces@.take(0) =~= Seq::<WorkspaceSummary>::empty());
    while k < workspaces.len()
        invariant
            k <= workspaces@.len(),
            workspace_with(workspaces@.take(k as int), id@) is None,
        decreases workspaces.len() - k,
    {
        proof {
            assert(workspaces@.take(k + 1).drop_last() =~= workspaces@.take(k as int));
            assert(workspaces@.take(k + 1).last() == workspaces@[k as int]);
        }
        if same(workspaces[k].id.as_str(), id) {
            proof {
                lemma_workspace_stays(workspaces@, id@, k + 1);
            }
            return Some(k);
        }
        k = k + 1;
    }
    assert(workspaces@.take(workspaces@.len() as int) =~= workspaces@);
    None
}

/// The Workspace of what is shown, where it is one of these; `None` stands for
/// the active one.
pub open spec fn shown_workspace(
    app: App,
    active: WorkspaceSummary,
    workspaces: Seq<WorkspaceSummary>,
) -> Option<int> {
    match app.workspace.id {
        Some(id) => if id@ == active.id@ {
            None
        } else {
            workspace_with(workspaces, id@)
        },
        None => None,
    }
}

/// Which Workspace a new session belongs to: that of what is shown, where it is
/// known, and otherwise the active one.
pub fn workspace_for_new_session(
    app: &App,
    active: &WorkspaceSummary,
    workspaces: &Vec<WorkspaceSummary>,
) -> (r: Option<usize>)
    ensures
        match shown_workspace(*app, *active, workspaces@) {
            Some(i) => r matches Some(k) && k == i && k < workspaces@.len(),
            None => r is None,
        },
{
    match &app.workspace.id {
        Some(id) => if same(id.as_str(), active.id.as_str()) {
            None
        } else {
            find_workspace(workspaces, id.as_str())
        },
        None => None,
    }
}

/// The start screen in a Workspace.
pub fn pending_app(
    catalog: Catalog,
    selection: Selection,
    launch: LaunchPolicy,
    workspace: &WorkspaceSummary,
) -> (r: App)
    requires
        catalog.wf(),
    ensures
        r.session_id@.len() == 0,
        r.launch.workspace@ == workspace.launch@,
        r.activity == (Activity { status: Status::Pending, ..Activity::fresh() }),
        exists|blank: App| #[trigger]
            blank.is_new(catalog, selection, r.session_id) && r == (App {
                launch: Launch {
                    interaction: launch,
                    workspace: r.launch.workspace,
                    ..blank.launch
                },
                workspace: Location {
                    id: Some(workspace.id),
                    root: Some(workspace.host_path),
                    ..Location::nowhere()
                },
                activity: r.activity,
                ..blank
            }),
        r.wf(),
{
    let mut app = App::pending(catalog, selection);
    assert(app.is_new(catalog, selection, app.session_id));
    app.launch.interaction = launch;
    app.launch.set_workspace(workspace.launch.copied());
    app.workspace.id = Some(workspace.id.clone());
    app.workspace.enter(workspace.host_path.clone());
    app
}

/// Whether a screen shows what it knows of its Workspace: what it is called,
/// and its standing policy.
pub open spec fn in_context(before: App, workspace: Option<WorkspaceSummary>, after: App) -> bool {
    match workspace {
        Some(workspace) => {
            &&& view_of(after.workspace.name) == Some(display_name(workspace))
            &&& after.launch.workspace@ == workspace.launch@
            &&& after == (App {
                workspace: Location { name: after.workspace.name, ..before.workspace },
                launch: Launch {
                    workspace: after.launch.workspace,
                    selected: (0, 0),
                    ..before.launch
                },
                ..before
            })
        },
        None => after == (App {
            workspace: Location { name: None, ..before.workspace },
            ..before
        }),
    }
}

/// The Workspace that a screen is in.
pub open spec fn context_of(
    app: App,
    active: WorkspaceSummary,
    workspaces: Seq<WorkspaceSummary>,
) -> Option<WorkspaceSummary> {
    match app.workspace.id {
        Some(id) => if id@ == active.id@ {
            Some(active)
        } else {
            match workspace_with(workspaces, id@) {
                Some(i) => Some(workspaces[i]),
                None => None,
            }
        },
        None => None,
    }
}

/// Show what is known of the Workspace that the screen is in. `workspaces` are
/// those the server lists; none where it could not be asked.
pub fn refresh_workspace_context(
    app: &mut App,
    active: &WorkspaceSummary,
    workspaces: &Vec<WorkspaceSummary>,
)
    ensures
        in_context(*old(app), context_of(*old(app), *active, workspaces@), *final(app)),
        old(app).wf() ==> final(app).wf(),
{
    let place = workspace_for_new_session(app, active, workspaces);
    let is_active = match &app.workspace.id {
        Some(id) => same(id.as_str(), active.id.as_str()),
        None => false,
    };
    if is_active {
        app.workspace.name = Some(workspace_display_name(active));
        app.launch.set_workspace(active.launch.copied());
        return ;
    }
    match place {
        Some(i) => {
            app.workspace.name = Some(workspace_display_name(&workspaces[i]));
            app.launch.set_workspace(workspaces[i].launch.copied());
        },
        None => {
            app.workspace.name = None;
        },
    }
}

/// Those sessions that are live.
pub open spec fn live_among(
    sessions: Seq<StoredSession>,
    interactions: Seq<InteractionSummary>,
) -> Seq<StoredSession> {
    sessions.filter(|s: StoredSession| listed(interactions, s.id@))
}

/// Keep the sessions that have a live interaction.
pub fn live_sessions(sessions: Vec<StoredSession>, interactions: &Vec<InteractionSummary>) -> (r: Vec<
    StoredSession,
>)
    ensures
        r@ == live_among(sessions@, interactions@),
{
    let ghost all = sessions@;
    let ghost live = |s: StoredSession| listed(interactions@, s.id@);
    let mut rest = sessions;
    let mut r: Vec<StoredSession> = Vec::new();
    let ghost mut done: int = 0;
    proof {
        reveal_with_fuel(Seq::filter, 1);
        assert(all.take(0) =~= Seq::<StoredSession>::empty());
    }
    while rest.len() > 0
        invariant
            0 <= done <= all.len(),
            rest@ == all.skip(done),
            live == (|s: StoredSession| listed(interactions@, s.id@)),
            r@ == all.take(done).filter(live),
        decreases rest@.len(),
    {
        let session = rest.remove(0);
        proof {
            assert(all.skip(done).remove(0) =~= all.skip(done + 1));
            assert(all.take(done + 1).drop_last() =~= all.take(done));
            assert(all.take(done + 1).last() == session);
            reveal_with_fuel(Seq::filter, 1);
        }
        let found = find_id(interactions, session.id.as_str());
        if found.is_some() {
            assert(listed(interactions@, session.id@));
            r.push(session);
        }
        proof {
            done = done + 1;
        }
    }
    assert(all.take(all.len() as int) =~= all);
    r
}

/// What the client goes to next.
#[derive(Debug, PartialEq, Eq)]
pub enum Next {
    Quit,
    /// Open this session; where that fails, stay and say so.
    Session { id: String, open_interactions: bool },
    /// The start screen, from the standing defaults.
    Blank,
    /// The start screen, from what this screen was launched or would launch
    /// with.
    Inherited,
}

/// What the client goes to after a screen was left. Only a new session inherits
/// the selection and the policy of the screen before it.
pub fn next(outcome: &RunOutcome) -> (r: Next)
    ensures
        r == match *outcome {
            RunOutcome::Quit => Next::Quit,
            RunOutcome::OpenWorkspace { session_id, open_interactions, .. } => match session_id {
                Some(id) => Next::Session { id, open_interactions },
                None => Next::Blank,
            },
            RunOutcome::OpenSession(id) => Next::Session { id, open_interactions: false },
            RunOutcome::Reset => Next::Blank,
            RunOutcome::NewSession => Next::Inherited,
        },
{
    match outcome {
        RunOutcome::Quit => Next::Quit,
        RunOutcome::OpenWorkspace { session_id, open_interactions, .. } => match session_id {
            Some(id) => Next::Session { id: id.clone(), open_interactions: *open_interactions },
            None => Next::Blank,
        },
        RunOutcome::OpenSession(id) => Next::Session { id: id.clone(), open_interactions: false },
        RunOutcome::Reset => Next::Blank,
        RunOutcome::NewSession => Next::Inherited,
    }
}

} // verus!
