//! The loop: who takes a key, what a tick does, and how requests and answers are met.

use vstd::prelude::*;
use vstd::view::View as _;

use crate::app::{App, Focus, Request, Surroundings, View};
use crate::event_loop::{
    cursor_moved, deleted_from, effect_applied, effects_applied, helped, jumped, keyed, navigating,
    navigator_keyed, routed, seeks_idle, sent_words, serves, switched, template_keyed, templates_offered, Deleted,
    LaunchEffect, LaunchEffectResult, LaunchEffects, Moment, Route, RunOutcome, Served, Stage,
    Step, Tick, Work, INTERACTIONS_REFRESH_MS,
};
use crate::interactions::{listed, LiveInteractions};
use crate::key::{Key, KeyCode};
use crate::launch::{Launch, LaunchScope};
use crate::laws::interactions::{
    law_an_entry_is_found_by_its_id, law_the_list_is_drawn_in_order,
    law_the_next_entry_takes_the_place, lemma_visible_rises,
};
use crate::laws::show::stands_in;
use crate::protocol::{InteractionSummary, LaunchPolicy, WorkspaceSummary};
use crate::scroll::SCROLL_PAGE;
use crate::session::Live;
use crate::text::{decimal, holds, view_of, views};

verus! {

// --- Answers about the launch policy -----------------------------------------

/// The templates that the picker waits for become its list, with those still chosen
/// that it holds. Without any, or where they cannot be had, it closes.
pub proof fn law_awaited_templates_are_listed(
    before: App,
    workspace: String,
    templates: Result<Vec<String>, String>,
    request_id: u64,
    after: App,
    i: int,
)
    requires
        before.template_picker matches Some(picker) && picker.request_id == request_id
            && picker.workspace_id@ == workspace@,
        effect_applied(
            before,
            workspace@,
            LaunchEffectResult::Templates { request_id, workspace_id: workspace, result: templates },
            after,
        ),
    ensures
        templates matches Ok(list) ==> (list@.len() > 0 ==> (
        after.template_picker matches Some(next) && next.templates == Some(list))),
        templates matches Ok(list) ==> (list@.len() > 0 ==> (
        before.template_picker matches Some(picker) && (after.template_picker matches Some(next)
            && next.cursor == picker.cursor && next.initial == picker.initial && (0 <= i
            < picker.initial@.len() && holds(list@, picker.initial@[i]@) ==> next.chosen@.contains(
            picker.initial@[i],
        ))))),
        templates matches Ok(list) ==> (list@.len() == 0 ==> after.template_picker is None),
        templates is Err ==> after.template_picker is None,
        after.launch == before.launch,
{
    if let Ok(list) = templates {
        if let Some(picker) = before.template_picker {
            if list@.len() > 0 && 0 <= i < picker.initial@.len() && holds(
                list@,
                picker.initial@[i]@,
            ) {
                picker.initial@.lemma_filter_contains(|n: String| holds(list@, n@), i);
            }
        }
    }
}

/// An answer that nobody waits for any more changes nothing.
pub proof fn law_old_templates_are_dropped(
    before: App,
    workspace: String,
    templates: Result<Vec<String>, String>,
    request_id: u64,
    after: App,
)
    requires
        before.template_picker matches Some(picker) ==> picker.request_id != request_id,
        effect_applied(
            before,
            workspace@,
            LaunchEffectResult::Templates { request_id, workspace_id: workspace, result: templates },
            after,
        ),
    ensures
        after == before,
{
}

/// The policy that the server answers with is the Workspace's from then on. Settings
/// that were moved into it are dropped here, and any others kept; a refusal keeps both.
/// Either way one change less is waited for.
pub proof fn law_the_answered_policy_is_taken_over(
    before: App,
    workspace: String,
    clear: bool,
    result: Result<LaunchPolicy, String>,
    after: App,
)
    requires
        effect_applied(
            before,
            workspace@,
            LaunchEffectResult::WorkspaceChanged {
                workspace_id: workspace,
                clear_interaction: clear,
                result,
            },
            after,
        ),
    ensures
        result matches Ok(policy) ==> after.launch.workspace == policy,
        result is Ok && clear ==> after.launch.interaction@ == crate::protocol::no_policy(),
        result is Ok && !clear ==> after.launch.interaction == before.launch.interaction,
        result is Err ==> after.launch == before.launch && after.log.items@.len()
            == before.log.items@.len() + 1,
        before.workspace_launch_pending > 0 ==> after.workspace_launch_pending + 1
            == before.workspace_launch_pending,
        after.notices.messages@.len() == before.notices.messages@.len() + 1,
        after.launch.scope == before.launch.scope,
{
    assert(before.notices.said().len() == before.notices.messages@.len());
    assert(after.notices.said().len() == after.notices.messages@.len());
    assert(crate::app::log_views(after.log.items@).len() == after.log.items@.len());
    assert(crate::app::log_views(before.log.items@).len() == before.log.items@.len());
}

/// Answers are applied one after another, all of them.
pub proof fn law_answers_are_applied_in_order(
    start: App,
    workspace: Seq<char>,
    a: Seq<LaunchEffectResult>,
    middle: App,
    answer: LaunchEffectResult,
    end: App,
)
    requires
        effects_applied(start, workspace, a, middle),
        effect_applied(middle, workspace, answer, end),
    ensures
        effects_applied(start, workspace, a.push(answer), end),
        effects_applied(start, workspace, Seq::empty(), start),
{
    assert(a.push(answer).drop_last() =~= a);
    assert(effects_applied(start, workspace, a.push(answer).drop_last(), middle) && effect_applied(
        middle,
        workspace,
        a.push(answer).last(),
        end,
    ));
}

/// Two requests in a row have different numbers.
pub proof fn law_requests_are_told_apart(effects: LaunchEffects)
    ensures
        effects.after_a_request().next_template_request != effects.next_template_request,
        effects.next_template_request < u64::MAX ==> effects.after_a_request().next_template_request
            == effects.next_template_request + 1,
{
}

/// What was sent on its own is told, with how many messages still wait.
pub proof fn law_waiting_messages_are_counted(n: nat)
    ensures
        n > 0 ==> stands_in(decimal(n), sent_words(n)),
        sent_words(0) == "sent queued message automatically"@,
{
}

// --- Ticks -------------------------------------------------------------------

/// A tick reads the policy, asks for the plan, reads updates, lists the interactions,
/// loads one, sends what waits, and shows the screen, in this order.
pub proof fn law_the_order_of_a_tick()
    ensures
        Stage::Policy.following() == Stage::Plan,
        Stage::Plan.following() == Stage::Updates,
        Stage::Updates.following() == Stage::Interactions,
        Stage::Interactions.following() == Stage::Load,
        Stage::Load.following() == Stage::Queue,
        Stage::Queue.following() == Stage::Show,
        Stage::Show.following() == Stage::Policy,
        forall|s: Stage| s != Stage::Show ==> #[trigger] s.following().rank() == s.rank() + 1,
        forall|s: Stage| #[trigger] s.rank() <= 6,
{
}

/// Updates are read and waiting messages sent only of a live interaction, and a message
/// only while its agent is idle. Interactions are listed again after a while.
pub proof fn law_what_a_step_waits_for(tick: Tick, app: App, live: Live, now: u64)
    ensures
        tick.has_work(Stage::Policy, app, live, now),
        tick.has_work(Stage::Show, app, live, now),
        tick.has_work(Stage::Updates, app, live, now) == (live is Running),
        tick.has_work(Stage::Queue, app, live, now) == (live is Running && app.activity.status
            == crate::activity::Status::Idle && app.outbox.queued@.len() > 0),
        tick.has_work(Stage::Interactions, app, live, now) == (tick.refreshed
            + INTERACTIONS_REFRESH_MS <= now),
        INTERACTIONS_REFRESH_MS > 0,
{
}

/// A step works on what is on screen: the policy of its Workspace, the updates behind
/// those that were read, the messages of its session.
pub proof fn law_what_a_step_works_on(
    stage: Stage,
    app: App,
    live: Live,
    workspace: Seq<char>,
    work: Work,
)
    requires
        Tick::is_work(stage, app, live, workspace, work),
    ensures
        work matches Work::ReadPolicy(id) ==> id@ == workspace,
        work matches Work::AskPlan(plan) ==> plan.selection == app.selection && plan.launch@
            == app.launch.interaction@,
        work matches Work::ReadUpdates { session_id, after } ==> live == (Live::Running {
            session_id,
            cursor: after,
        }),
        work matches Work::SendQueued(id) ==> id == app.session_id,
        stage == Stage::Policy <==> work is ReadPolicy,
        stage == Stage::Plan <==> work is AskPlan,
        stage == Stage::Updates <==> work is ReadUpdates,
        stage == Stage::Interactions <==> work is ListInteractions,
        stage == Stage::Load <==> work is Load,
        stage == Stage::Queue <==> work is SendQueued,
        stage == Stage::Show <==> work is Show,
{
}

// --- Switching ---------------------------------------------------------------

/// Switching shows the other interaction's own session from its events, under the
/// standing policy, with the navigator as it was and its cursor at rest.
pub proof fn law_what_a_switch_shows(before: App, standing: LaunchPolicy, loaded: App, after: App)
    requires
        switched(before, standing, loaded, after),
    ensures
        after.view == View::Events,
        after.focus == Focus::List,
        after.launch.interaction@ == standing@,
        after.interactions.items == before.interactions.items,
        after.interactions.open == before.interactions.open,
        after.interactions.cursor is None,
        after.session_id == loaded.session_id,
        after.session_name == loaded.session_name,
        after.selection == loaded.selection,
        after.outbox.queued == loaded.outbox.queued,
        after.notes == loaded.notes,
        after.quota == loaded.quota,
        loaded.workspace.id is None ==> after.workspace == loaded.workspace
            && after.launch.workspace == loaded.launch.workspace,
        after.launch.scope == loaded.launch.scope && after.launch.driva == loaded.launch.driva,
{
}

/// The policy of the Workspace that is switched to comes from what is known of it.
pub proof fn law_a_switch_takes_the_workspaces_policy(
    before: App,
    standing: LaunchPolicy,
    loaded: App,
    after: App,
    i: int,
)
    requires
        switched(before, standing, loaded, after),
        0 <= i < before.interactions.workspaces@.len(),
        loaded.workspace.id matches Some(id) && before.interactions.workspaces@[i].id@ == id@ && (
        forall|j: int|
            0 <= j < i ==> (#[trigger] before.interactions.workspaces@[j]).id@ != id@),
    ensures
        after.launch.workspace@ == before.interactions.workspaces@[i].launch@,
        after.workspace == loaded.workspace.showing(before.interactions.workspaces@[i]),
{
    if let Some(id) = loaded.workspace.id {
        crate::laws::session::law_a_workspace_is_found_by_its_id(
            before.interactions.workspaces@,
            id@,
            i,
        );
    }
}

/// A screen that shows a Workspace shows its name and its setting. Where the agent works
/// is left as it is.
pub proof fn law_a_workspace_is_shown_as_it_is(
    location: crate::workspace::Location,
    workspace: WorkspaceSummary,
)
    ensures
        location.showing(workspace).id == Some(workspace.id),
        location.showing(workspace).name == workspace.name,
        location.showing(workspace).root == location.root,
        location.showing(workspace).directory == location.directory,
        location.showing(workspace).worktrees_enabled == workspace.worktrees_enabled,
{
}

/// The navigator opens over the events, on every interaction that is listed.
pub proof fn law_the_navigator_opens(
    before: App,
    interactions: Seq<InteractionSummary>,
    workspaces: Vec<WorkspaceSummary>,
    after: App,
)
    requires
        navigating(before, interactions, workspaces, after),
    ensures
        after.interactions.open,
        after.interactions.workspaces == workspaces,
        after.interactions.items@.len() == interactions.len(),
        after.view == View::Events,
        after.focus == Focus::List,
        after.session_id == before.session_id && after.composer == before.composer && after.timeline
            == before.timeline,
{
    crate::laws::order::law_sorting_keeps_and_orders(
        crate::interactions::ranked(interactions),
        crate::interactions::ranked(after.interactions.items@),
    );
}

// --- Keys --------------------------------------------------------------------

/// What lies on top takes the key: the template picker, the notes, the cited files, the
/// reference, the path prompt, the mount prompt. Only then do the navigator and what has
/// the keys get it.
pub proof fn law_what_lies_on_top_takes_the_key(app: App, code: KeyCode)
    ensures
        app.template_picker is Some ==> routed(app, code) == Route::Templates,
        app.template_picker is None && app.notes.editor is Some ==> routed(app, code)
            == Route::Notes,
        app.template_picker is None && app.notes.editor is None ==> {
            &&& app.references is Some ==> routed(app, code) == Route::References
            &&& app.references is None && app.help.open ==> routed(app, code) == Route::Help
            &&& app.references is None && !app.help.open && app.insert is Some ==> routed(app, code)
                == Route::Insert
            &&& app.references is None && !app.help.open && app.insert is None
                && app.launch.prompt is Some ==> routed(app, code) == Route::Mount
            &&& app.references is None && !app.help.open && app.insert is None
                && app.launch.prompt is None ==> {
                &&& app.focus == Focus::List && code == KeyCode::Char('?') ==> routed(app, code)
                    == Route::OpenHelp
                &&& app.focus == Focus::List && code != KeyCode::Char('?') && app.interactions.open
                    ==> routed(app, code) == Route::Navigator
                &&& app.focus == Focus::List && code != KeyCode::Char('?') && !app.interactions.open
                    && app.launcher is None ==> routed(app, code) == Route::List
                &&& app.focus == Focus::Input && app.launcher is None ==> routed(app, code)
                    == Route::Input
                &&& app.launcher is Some && (app.focus == Focus::Input || (code != KeyCode::Char('?')
                    && !app.interactions.open)) ==> routed(app, code) == Route::Launcher
            }
        },
{
}

/// Over the reference keys scroll it or close it, and change nothing under it.
pub proof fn law_keys_over_the_reference(before: App, code: KeyCode, after: App)
    requires
        helped(before, code, after),
    ensures
        after == (App { help: after.help, ..before }),
        code == KeyCode::Char('?') || code == KeyCode::Esc || code == KeyCode::Char('q')
            ==> !after.help.open && after.help.scroll.shown() == 0,
        code != KeyCode::Char('?') && code != KeyCode::Esc && code != KeyCode::Char('q')
            ==> after.help.open == before.help.open,
        code == KeyCode::Char('j') || code == KeyCode::Down ==> after.help.scroll
            == before.help.scroll.down(1),
        code == KeyCode::Char('k') || code == KeyCode::Up ==> after.help.scroll
            == before.help.scroll.up(1),
        code == KeyCode::PageDown ==> after.help.scroll == before.help.scroll.down(SCROLL_PAGE),
        code == KeyCode::PageUp ==> after.help.scroll == before.help.scroll.up(SCROLL_PAGE),
        code == KeyCode::Char('g') ==> after.help.scroll.shown() == 0,
{
}

/// In the navigator letters and arrows move its cursor, by a Workspace with Control.
pub proof fn law_keys_that_move_the_cursor(app: App, key: Key, now: u64)
    ensures
        ({
            let list = app.interactions;
            let current = app.session_id@;
            let workspace = view_of(app.workspace.id);
            let at = list.cursor_id(current);
            &&& key.code == KeyCode::Down || key.code == KeyCode::Char('j') && !key.control
                ==> cursor_moved(app, key, now) == Some(
                list.moved_to(list.after(at, workspace), current, now),
            )
            &&& key.code == KeyCode::Up || key.code == KeyCode::Char('k') && !key.control
                ==> cursor_moved(app, key, now) == Some(
                list.moved_to(list.before(at, workspace), current, now),
            )
            &&& key.code == KeyCode::Char('j') && key.control ==> cursor_moved(app, key, now) == Some(
                list.moved_to(list.after_group(at, workspace), current, now),
            )
            &&& key.code == KeyCode::Char('k') && key.control ==> cursor_moved(app, key, now) == Some(
                list.moved_to(list.before_group(at, workspace), current, now),
            )
            &&& key.code != KeyCode::Down && key.code != KeyCode::Up && key.code != KeyCode::Char(
                'j',
            ) && key.code != KeyCode::Char('k') ==> cursor_moved(app, key, now) is None
        }),
{
}

/// The row that another key is pressed on is made current first, and the key waits for
/// that.
pub proof fn law_a_row_is_current_before_a_key_acts(
    before: App,
    live: Live,
    key: Key,
    fold: bool,
    moment: Moment,
    after: App,
    folding: bool,
    step: Step,
    awaited: InteractionSummary,
)
    requires
        keyed(before, live, key, fold, moment, after, folding, step),
        routed(before, key.code) == Route::Navigator,
        before.interactions.awaited(before.session_id@) == Some(awaited),
        key.code != KeyCode::Down && key.code != KeyCode::Up && key.code != KeyCode::Char('j')
            && key.code != KeyCode::Char('k'),
        !(key.control && key.code == KeyCode::Char('a')),
    ensures
        step == Step::Settle(awaited.id),
        after == before,
        folding == fold,
{
}

/// Over the navigator, with its cursor at rest, three keys close it and one changes
/// what it lists. Only a stopped interaction is deleted.
pub proof fn law_keys_over_the_navigator(
    before: App,
    live: Live,
    key: Key,
    fold: bool,
    around: Surroundings,
    after: App,
    folding: bool,
    step: Step,
    i: int,
)
    requires
        navigator_keyed(before, live, key, fold, around, after, folding, step),
    ensures
        key.code == KeyCode::Esc || key.code == KeyCode::Enter || key.code == KeyCode::Char('a')
            ==> !after.interactions.open && step is Done && after == (App {
            interactions: after.interactions,
            ..before
        }) && after.interactions.items == before.interactions.items,
        key.code == KeyCode::Char('w') ==> after.interactions.only_current_workspace
            != before.interactions.only_current_workspace && after.interactions.open
            == before.interactions.open && step is Done,
        key.code == KeyCode::Char('D') && 0 <= i < before.interactions.items@.len()
            && before.interactions.items@[i].id@ == before.session_id@ && (forall|j: int|
            0 <= j < i ==> (#[trigger] before.interactions.items@[j]).id@ != before.session_id@)
            ==> (if before.interactions.items@[i].accepting {
            step is Done && after.interactions == before.interactions
        } else {
            step == Step::Delete(before.interactions.items@[i].id) && after == before
        }),
{
    law_an_entry_is_found_by_its_id(before.interactions.items@, before.session_id@, i);
}

/// A jump goes to an interaction that waits unseen, and says so where there is none.
pub proof fn law_a_jump_moves_the_cursor_or_says_why(before: App, now: u64, after: App)
    requires
        jumped(before, now, after),
    ensures
        ({
            let list = before.interactions;
            let current = before.session_id@;
            let found = list.beckoning_after(
                list.cursor_id(current),
                current,
                view_of(before.workspace.id),
            );
            &&& found matches Some(i) ==> after.interactions == list.moved_to(Some(i), current, now)
                && after.notices == before.notices
            &&& found is None ==> after.interactions == list && after.notices.said().len()
                == before.notices.said().len() + 1
        }),
{
}

// --- Deleting ----------------------------------------------------------------

/// The interaction that is deleted is off the list, and every other is still on it. The
/// next one is loaded; without one the client leaves.
pub proof fn law_a_deleted_interaction_is_gone(
    before: LiveInteractions,
    removed: int,
    workspace: Option<Seq<char>>,
    after: LiveInteractions,
    next: Deleted,
    i: int,
)
    requires
        0 <= removed < before.items@.len(),
        forall|j: int|
            0 <= j < removed ==> (#[trigger] before.items@[j]).id@ != before.items@[removed].id@,
        deleted_from(before, before.items@[removed].id@, workspace, after, next),
    ensures
        after.items@.len() + 1 == before.items@.len(),
        0 <= i < removed ==> after.items@[i] == before.items@[i],
        removed < i < before.items@.len() ==> after.items@[i - 1] == before.items@[i],
        after.items@.len() == 0 ==> next is Leave && !after.open,
        after.items@.len() > 0 ==> next is Load && after.open == before.open,
        after.cursor is None,
{
    law_an_entry_is_found_by_its_id(before.items@, before.items@[removed].id@, removed);
}

/// Where all Workspaces are listed, the interaction that is loaded next is the one that
/// took the place of the deleted one, or the last. One Workspace alone stays listed only
/// where it has any interaction left.
pub proof fn law_what_takes_the_place_is_loaded(
    before: LiveInteractions,
    removed: int,
    workspace: Option<Seq<char>>,
    after: LiveInteractions,
    next: Deleted,
    i: int,
)
    requires
        0 <= removed < before.items@.len(),
        forall|j: int|
            0 <= j < removed ==> (#[trigger] before.items@[j]).id@ != before.items@[removed].id@,
        deleted_from(before, before.items@[removed].id@, workspace, after, next),
    ensures
        !before.only_current_workspace && removed + 1 < before.items@.len() ==> next
            == Deleted::Load(before.items@[removed + 1].id),
        !before.only_current_workspace && removed + 1 == before.items@.len() && removed > 0 ==> next
            == Deleted::Load(before.items@[removed - 1].id),
        !before.only_current_workspace ==> !after.only_current_workspace,
        before.only_current_workspace && 0 <= i < after.items@.len() && (workspace matches Some(id)
            && after.items@[i].workspace_id@ == id) ==> after.only_current_workspace,
        before.only_current_workspace && after.items@.len() > 0 && (workspace matches Some(id)
            && forall|j: int|
            0 <= j < after.items@.len() ==> (#[trigger] after.items@[j]).workspace_id@ != id)
            ==> !after.only_current_workspace,
{
    law_an_entry_is_found_by_its_id(before.items@, before.items@[removed].id@, removed);
    let less = (LiveInteractions { items: after.items, ..before }).rested();
    let visible = less.visible(workspace);
    law_the_list_is_drawn_in_order(less, workspace);
    if before.only_current_workspace && 0 <= i < after.items@.len() && (workspace matches Some(id)
        && after.items@[i].workspace_id@ == id) {
        assert(less.shows(workspace, i));
        assert(visible.contains(i));
    }
    if visible.len() > 0 {
        lemma_visible_rises(less, workspace, less.items@.len());
        assert(less.shows(workspace, visible[0]));
    }
    if !before.only_current_workspace {
        let n = after.items@.len();
        lemma_all_listed(after, workspace, n);
        let all = after.visible(workspace);
        if removed < n {
            law_the_next_entry_takes_the_place(all, removed, removed);
        } else if n > 0 {
            law_the_next_entry_takes_the_place(all, removed, n - 1);
        }
    }
}

proof fn lemma_all_listed(list: LiveInteractions, workspace: Option<Seq<char>>, n: nat)
    requires
        !list.only_current_workspace,
    ensures
        list.visible_among(workspace, n).len() == n,
        forall|k: int| 0 <= k < n ==> #[trigger] list.visible_among(workspace, n)[k] == k,
    decreases n,
{
    if n > 0 {
        lemma_all_listed(list, workspace, (n - 1) as nat);
    }
}

// --- Requests ----------------------------------------------------------------

/// Each request is served as what it is, for the session on screen. Those that leave
/// the screen leave it as they say.
pub proof fn law_requests_are_served(
    before: App,
    live: Live,
    request: Request,
    workspace: String,
    request_id: u64,
    around: Surroundings,
    after: App,
    served: Served,
)
    requires
        serves(before, live, request, workspace, request_id, around, after, served),
    ensures
        request is Quit ==> served == Served::Leave(RunOutcome::Quit),
        request is Reset ==> served == Served::Leave(RunOutcome::Reset),
        request is NewSession ==> served == Served::Leave(RunOutcome::NewSession),
        request matches Request::OpenSession(id) ==> served == Served::Leave(
            RunOutcome::OpenSession(id),
        ),
        request is Workspace ==> served is PickWorkspace,
        request is Sessions ==> served is ListSessions,
        request is Interactions ==> served is ListInteractions,
        request is NextIdleInteraction ==> served is NextIdle,
        request is Raw ==> served == Served::FetchRaw(before.session_id),
        request matches Request::SetWorktreesEnabled(on) ==> served == Served::SetWorktrees(on),
        request is ApplySelection && live is Running ==> served == (Served::SetSelection {
            session_id: before.session_id,
            selection: before.selection,
        }),
        request is Quota ==> served is FetchQuota,
        request matches Request::OpenPath(path) ==> served == Served::OpenPath(path),
        request matches Request::ConvertProvider(provider) ==> served == (Served::Convert {
            session_id: before.session_id,
            provider,
        }),
        request matches Request::SetAutoRetry(enabled) ==> served == (Served::SetAutoRetry {
            session_id: before.session_id,
            enabled,
        }),
        request matches Request::Answer { contract } ==> (before.session_id@.len() > 0 ==> served
            == (Served::FetchAnswer { session_id: before.session_id, contract })),
        request matches Request::ChangeWorkspaceLaunch { change, clear_interaction } ==> served
            == Served::Launch(
            LaunchEffect::ChangeWorkspace { workspace_id: workspace, change, clear_interaction },
        ) && (before.workspace_launch_pending < u64::MAX ==> after.workspace_launch_pending
            == before.workspace_launch_pending + 1),
        request is Templates ==> served == Served::Launch(
            LaunchEffect::ListTemplates { request_id, workspace_id: workspace },
        ) && (after.template_picker matches Some(picker) && picker.request_id == request_id
            && picker.workspace_id == workspace && picker.scope == before.launch.scope),
        request is EditFile ==> (served matches Served::OpenPath(path) ==> before.selects_file(
            around,
            Some(path@),
        )),
        after == (App {
            template_picker: after.template_picker,
            answer: after.answer,
            workspace_launch_pending: after.workspace_launch_pending,
            ..before
        }),
        request !is Templates ==> after.template_picker == before.template_picker,
        request !is ChangeWorkspaceLaunch ==> after.workspace_launch_pending
            == before.workspace_launch_pending,
        before.session_id@.len() > 0 ==> after.answer == before.answer,
{
}

/// The template picker starts from the templates of the edited layer.
pub proof fn law_templates_are_offered_of_the_edited_layer(launch: Launch)
    ensures
        launch.scope == LaunchScope::Workspace ==> templates_offered(launch) == views(
            launch.workspace.templates@,
        ),
        launch.scope == LaunchScope::Interaction && launch.interaction.standalone
            ==> templates_offered(launch) == views(launch.interaction.templates@),
        launch.scope == LaunchScope::Interaction ==> templates_offered(launch)
            == launch.in_effect().templates,
{
}

/// What is sought is an interaction that waits unseen; where there is none, the
/// operator is told. The list is the newest that could be had.
pub proof fn law_seeking_finds_what_waits(
    before: App,
    interactions: Option<Vec<InteractionSummary>>,
    after: App,
    next: Option<String>,
)
    requires
        seeks_idle(before, interactions, after, next),
    ensures
        interactions is None ==> after.interactions == before.interactions,
        interactions matches Some(items) ==> before.interactions.refreshed(
            items@,
            after.interactions,
        ),
        after.interactions.next_beckoning(before.session_id@) matches Some(i) ==> next == Some(
            after.interactions.items@[i].id,
        ),
        after.interactions.next_beckoning(before.session_id@) is None ==> next is None
            && after.notices.said().len() == before.notices.said().len() + 1,
        after.session_id == before.session_id && after.timeline == before.timeline,
{
}

/// A key in the template picker that cancels changes no policy, one that applies a
/// choice closes it, and any other leaves it open.
pub proof fn law_keys_over_the_template_picker(before: App, code: KeyCode, after: App)
    requires
        before.template_picker is Some,
        template_keyed(before, code, after),
    ensures
        code == KeyCode::Esc || code == KeyCode::Char('q') ==> after == (App {
            template_picker: None,
            ..before
        }),
        before.template_picker matches Some(picker) ==> (picker.templates is Some && code
            == KeyCode::Enter ==> after.template_picker is None),
        before.template_picker matches Some(picker) ==> (picker.templates is Some && code
            == KeyCode::Enter && views(picker.chosen@) == views(picker.initial@) ==> after.launch
            == before.launch && after.request == before.request),
        code != KeyCode::Esc && code != KeyCode::Char('q') && code != KeyCode::Enter
            ==> after.template_picker is Some && after == (App {
            template_picker: after.template_picker,
            ..before
        }),
{
}

} // verus!
