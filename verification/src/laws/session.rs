//! How the client starts, what it launches, and what a session's updates change.

use vstd::prelude::*;

use crate::activity::{Activity, Status};
use crate::app::App;
use crate::ingest::ingests;
use crate::interactions::listed;
use crate::launcher::{
    by_recency, effort_row, lemma_first_effort, lemma_first_text_found, lemma_recency,
    lemma_sortable, ordered_models, recency, text_row, Catalog, LaunchColumn, Launcher,
};
use crate::laws::order::law_sorting_keeps_and_orders;
use crate::order::{stably_sorted, values};
use crate::protocol::{
    Arrived, Contract, Effort, InteractionSnapshot, InteractionSummary, InteractionUpdate,
    LogLevel, Provider, SessionInfo, StoredSession, WorkspaceSummary,
};
use crate::session::{
    applies, attached, attached_activity, branch_time, next_shape, noted, on_session, replayed,
    stopped, Live,
};
use crate::startup::{
    context_of, first_of, live_among, shown_workspace, workspace_with, Invocation, Start,
};
use crate::text::holds;

verus! {

// --- Starting ----------------------------------------------------------------

/// Managing the daemon comes first, then a shell, then reading, and else work. What is
/// named is what is opened.
pub proof fn law_what_comes_first(invocation: Invocation)
    ensures
        invocation.stop ==> first_of(invocation) is StopDaemon,
        !invocation.stop && invocation.daemon ==> first_of(invocation) is StartDaemon,
        !invocation.stop && !invocation.daemon ==> {
            &&& invocation.shell matches Some(Some(id)) ==> first_of(invocation)
                == Start::AttachShell(id)
            &&& invocation.shell matches Some(None) ==> first_of(invocation) is BrowseShells
            &&& invocation.shell is None ==> (invocation.view matches Some(Some(id)) ==> first_of(
                invocation,
            ) == Start::View(id))
            &&& invocation.shell is None ==> (invocation.view matches Some(None) ==> first_of(
                invocation,
            ) is BrowseSessions)
            &&& invocation.shell is None && invocation.view is None ==> first_of(
                invocation,
            ) is Work
        },
{
}

/// A Workspace is found by its id, the first that has it, and no other.
pub proof fn law_a_workspace_is_found_by_its_id(
    workspaces: Seq<WorkspaceSummary>,
    id: Seq<char>,
    i: int,
)
    ensures
        0 <= i < workspaces.len() && workspaces[i].id@ == id && (forall|j: int|
            0 <= j < i ==> (#[trigger] workspaces[j]).id@ != id) ==> workspace_with(workspaces, id)
            == Some(i),
        (forall|j: int| 0 <= j < workspaces.len() ==> (#[trigger] workspaces[j]).id@ != id)
            ==> workspace_with(workspaces, id) is None,
    decreases workspaces.len(),
{
    if workspaces.len() > 0 {
        let rest = workspaces.drop_last();
        law_a_workspace_is_found_by_its_id(rest, id, i);
        if 0 <= i < workspaces.len() && workspaces[i].id@ == id && (forall|j: int|
            0 <= j < i ==> (#[trigger] workspaces[j]).id@ != id) {
            assert forall|j: int| 0 <= j < i && j < rest.len() implies (#[trigger] rest[j]).id@
                != id by {
                assert(workspaces[j].id@ != id);
            }
        }
        if forall|j: int| 0 <= j < workspaces.len() ==> (#[trigger] workspaces[j]).id@ != id {
            assert forall|j: int| 0 <= j < rest.len() implies (#[trigger] rest[j]).id@ != id by {
                assert(workspaces[j].id@ != id);
            }
            assert(workspaces[workspaces.len() - 1].id@ != id);
        }
    }
}

/// A new session belongs to the Workspace that is shown where that is another than the
/// active one and known, and what is shown of a Workspace is what is known of it.
pub proof fn law_which_workspace_is_shown(
    app: App,
    active: WorkspaceSummary,
    workspaces: Seq<WorkspaceSummary>,
)
    ensures
        app.workspace.id is None ==> shown_workspace(app, active, workspaces) is None
            && context_of(app, active, workspaces) is None,
        app.workspace.id matches Some(id) ==> (id@ == active.id@ ==> shown_workspace(
            app,
            active,
            workspaces,
        ) is None && context_of(app, active, workspaces) == Some(active)),
        app.workspace.id matches Some(id) ==> (id@ != active.id@ ==> shown_workspace(
            app,
            active,
            workspaces,
        ) == workspace_with(workspaces, id@) && (context_of(app, active, workspaces) is Some) == (
        workspace_with(workspaces, id@) is Some)),
{
}

/// The sessions to choose a shell from are those with a live interaction, all of them
/// and no others.
pub proof fn law_live_sessions_are_kept(
    sessions: Seq<StoredSession>,
    interactions: Seq<InteractionSummary>,
    i: int,
)
    ensures
        0 <= i < sessions.len() && listed(interactions, sessions[i].id@) ==> live_among(
            sessions,
            interactions,
        ).contains(sessions[i]),
        0 <= i < live_among(sessions, interactions).len() ==> listed(
            interactions,
            live_among(sessions, interactions)[i].id@,
        ) && sessions.contains(live_among(sessions, interactions)[i]),
{
    let pick = |s: StoredSession| listed(interactions, s.id@);
    if 0 <= i < sessions.len() && listed(interactions, sessions[i].id@) {
        sessions.lemma_filter_contains(pick, i);
    }
    if 0 <= i < live_among(sessions, interactions).len() {
        sessions.lemma_filter_pred(pick, i);
        sessions.lemma_filter_contains_rev(pick, live_among(sessions, interactions)[i]);
    }
}

// --- The launch picker -------------------------------------------------------

/// An agent is found at its first row, where it is listed.
pub proof fn law_an_agent_is_found_at_its_row(catalog: Catalog, i: int)
    requires
        0 <= i < catalog.providers@.len(),
        forall|j: int|
            0 <= j < i ==> (#[trigger] catalog.providers@[j]).provider
                != catalog.providers@[i].provider,
    ensures
        catalog.has(catalog.providers@[i].provider),
        catalog.row(catalog.providers@[i].provider) == i,
{
    lemma_row(catalog, catalog.providers@[i].provider, 0, i);
}

proof fn lemma_row(catalog: Catalog, provider: Provider, from: int, i: int)
    requires
        0 <= from <= i < catalog.providers@.len(),
        catalog.providers@[i].provider == provider,
        forall|j: int| from <= j < i ==> (#[trigger] catalog.providers@[j]).provider != provider,
    ensures
        catalog.first_row(provider, from) == i,
    decreases i - from,
{
    if from < i {
        assert(catalog.providers@[from].provider != provider);
        lemma_row(catalog, provider, from + 1, i);
    }
}

/// A model that was chosen before ranks by how lately: the one chosen last first. One
/// that never was ranks behind all that were.
pub proof fn law_models_rank_by_when_they_were_chosen(recent: Seq<String>, i: int, other: Seq<char>)
    requires
        recent.len() < u64::MAX,
        0 <= i < recent.len(),
        forall|j: int| 0 <= j < i ==> (#[trigger] recent[j])@ != recent[i]@,
    ensures
        recency(recent, recent[i]@) == i,
        (forall|j: int| 0 <= j < recent.len() ==> (#[trigger] recent[j])@ != other) ==> recency(
            recent,
            other,
        ) == u64::MAX,
{
    lemma_recency(recent, recent[i]@, i);
    if forall|j: int| 0 <= j < recent.len() ==> (#[trigger] recent[j])@ != other {
        lemma_recency(recent, other, recent.len() as int);
    }
}

/// Models are listed by when they were last chosen, and otherwise as the agent lists
/// them: every model once for each time it is offered.
pub proof fn law_models_are_listed_by_when_they_were_chosen(
    rows: Seq<String>,
    recent: Seq<String>,
    i: int,
    j: int,
)
    ensures
        ordered_models(rows, recent).len() == rows.len(),
        0 <= i < j < rows.len() ==> recency(recent, ordered_models(rows, recent)[i]@) <= recency(
            recent,
            ordered_models(rows, recent)[j]@,
        ),
        0 <= i < rows.len() ==> ordered_models(rows, recent).contains(rows[i]),
        0 <= i < rows.len() ==> rows.contains(ordered_models(rows, recent)[i]),
{
    let wanted = by_recency(rows, recent);
    lemma_sortable(wanted);
    let after = choose|after: Seq<(u64, String)>| stably_sorted(wanted, after);
    law_sorting_keeps_and_orders(wanted, after);
    let order = choose|order: Seq<int>| #[trigger]
        crate::laws::order::is_rearrangement(order, wanted.len()) && (forall|i: int|
            0 <= i < after.len() ==> #[trigger] after[i] == wanted[order[i]]) && (forall|
            i: int,
            j: int,
        |
            0 <= i < j < after.len() && crate::order::Ranked::ranks(&after[j].0, &after[i].0)
                ==> #[trigger] order[i] < #[trigger] order[j]);
    let list = ordered_models(rows, recent);
    assert(list == values(after));
    if 0 <= i < j < rows.len() {
        assert(after[i] == wanted[order[i]]);
        assert(after[j] == wanted[order[j]]);
        assert(0 <= order[i] < rows.len() && 0 <= order[j] < rows.len());
        assert(crate::order::Ranked::ranks(&after[i].0, &after[j].0));
    }
    if 0 <= i < rows.len() {
        assert(after.contains(wanted[i]));
        let k = choose|k: int| 0 <= k < after.len() && after[k] == wanted[i];
        assert(list[k] == rows[i]);
        assert(0 <= order[i] < rows.len());
        assert(after[i] == wanted[order[i]]);
        assert(list[i] == rows[order[i]]);
    }
}

/// A text and an effort are found at their first row, and the first row stands for what
/// is not there.
pub proof fn law_rows_are_found(list: Seq<String>, text: Seq<char>, efforts: Seq<Effort>, effort: Effort)
    ensures
        holds(list, text) ==> 0 <= text_row(list, text) < list.len() && list[text_row(
            list,
            text,
        )]@ == text,
        !holds(list, text) ==> text_row(list, text) == 0,
        efforts.contains(effort) ==> 0 <= effort_row(efforts, effort) < efforts.len()
            && efforts[effort_row(efforts, effort)] == effort,
        !efforts.contains(effort) ==> effort_row(efforts, effort) == 0,
{
    if holds(list, text) {
        lemma_first_text_found(list, text);
    }
    if efforts.contains(effort) {
        lemma_first_effort(efforts, effort);
    }
}

/// What the picker describes is what its rows say.
pub proof fn law_the_picker_describes_its_rows(launcher: Launcher, catalog: Catalog)
    requires
        launcher.provider < catalog.providers@.len(),
    ensures
        launcher.described(catalog).provider
            == catalog.providers@[launcher.provider as int].provider,
        launcher.effort < catalog.providers@[launcher.provider as int].efforts@.len()
            ==> launcher.described(catalog).effort
            == catalog.providers@[launcher.provider as int].efforts@[launcher.effort as int],
        launcher.model < launcher.model_list(catalog).len() ==> launcher.described(catalog).model
            == launcher.model_list(catalog)[launcher.model as int],
        launcher.carried_model is None ==> launcher.unordered(catalog)
            == catalog.providers@[launcher.provider as int].models@,
        launcher.carried_model matches Some(model) ==> launcher.unordered(catalog)
            == catalog.providers@[launcher.provider as int].models@.push(model),
{
}

/// A move changes the row of the focused column by one, within its rows. Only another
/// agent changes more: it starts from its own default effort, and no model is taken
/// along.
pub proof fn law_a_move_changes_one_row(launcher: Launcher, catalog: Catalog)
    requires
        catalog.wf(),
        launcher.provider < catalog.providers@.len(),
    ensures
        launcher.column == LaunchColumn::Effort ==> {
            let efforts = catalog.providers@[launcher.provider as int].efforts@;
            &&& launcher.effort + 1 < efforts.len() ==> launcher.lower(catalog) == (Launcher {
                effort: (launcher.effort + 1) as usize,
                ..launcher
            })
            &&& launcher.effort > 0 ==> launcher.upper(catalog) == (Launcher {
                effort: (launcher.effort - 1) as usize,
                ..launcher
            })
            &&& launcher.effort == 0 ==> launcher.upper(catalog) == launcher
        },
        launcher.column == LaunchColumn::Model ==> {
            &&& launcher.model + 1 < launcher.unordered(catalog).len() ==> launcher.lower(catalog)
                == (Launcher { model: (launcher.model + 1) as usize, ..launcher })
            &&& launcher.model > 0 ==> launcher.upper(catalog) == (Launcher {
                model: (launcher.model - 1) as usize,
                ..launcher
            })
            &&& launcher.model == 0 ==> launcher.upper(catalog) == launcher
        },
        launcher.column == LaunchColumn::Provider && launcher.provider + 1
            < catalog.providers@.len() ==> {
            let there = launcher.lower(catalog);
            let entry = catalog.providers@[launcher.provider + 1];
            &&& there.provider == launcher.provider + 1
            &&& there.carried_model is None
            &&& entry.efforts@.contains(entry.default_effort) ==> there.described(catalog).effort
                == entry.default_effort
            &&& holds(entry.models@, entry.default_model@) ==> there.described(catalog).model@
                == entry.default_model@
            &&& there.column == launcher.column && there.recent_models == launcher.recent_models
        },
{
    if launcher.column == LaunchColumn::Provider && launcher.provider + 1
        < catalog.providers@.len() {
        let entry = catalog.providers@[launcher.provider + 1];
        let there = launcher.lower(catalog);
        assert(catalog.providers.len() <= usize::MAX);
        assert(there.provider == launcher.provider + 1);
        assert(entry.efforts.len() <= usize::MAX);
        if entry.efforts@.contains(entry.default_effort) {
            lemma_first_effort(entry.efforts@, entry.default_effort);
        }
        if holds(entry.models@, entry.default_model@) {
            assert(entry.models.len() <= usize::MAX);
            let list = there.model_list(catalog);
            assert(list == ordered_models(entry.models@, launcher.recent_models@));
            let k = choose|k: int|
                0 <= k < entry.models@.len() && (#[trigger] entry.models@[k])@
                    == entry.default_model@;
            law_models_are_listed_by_when_they_were_chosen(
                entry.models@,
                launcher.recent_models@,
                k,
                k,
            );
            let m = choose|m: int| 0 <= m < list.len() && list[m] == entry.models@[k];
            assert(list[m]@ == entry.default_model@);
            assert(holds(list, entry.default_model@));
            lemma_first_text_found(list, entry.default_model@);
        }
    }
}

/// The shapes that a reply can be asked for come in their order: prose, lines, files,
/// JSON, and then none again.
pub proof fn law_the_order_of_shapes()
    ensures
        next_shape(None) == Some(Contract::Text),
        next_shape(Some(Contract::Text)) == Some(Contract::Lines),
        next_shape(Some(Contract::Lines)) == Some(Contract::Files),
        next_shape(Some(Contract::Files)) == Some(Contract::Json),
        next_shape(Some(Contract::Json)) is None,
{
}

// --- Sessions ----------------------------------------------------------------

/// What takes messages is attached to, from where its updates were read, and what does
/// not is only viewed.
pub proof fn law_what_takes_messages_is_attached_to(id: String, cursor: u64)
    ensures
        attached(id, cursor, true) == (Live::Running { session_id: id, cursor }),
        attached(id, cursor, false) == Live::Viewing,
{
}

/// A screen that goes on a session shows that session and its sandbox, and is running.
pub proof fn law_a_screen_goes_on_a_session(app: App, info: SessionInfo)
    ensures
        ({
            let on = on_session(app, info);
            &&& on.session_id == info.id
            &&& on.session_name == info.name
            &&& on.workspace.root == Some(info.workspace)
            &&& on.workspace.id == app.workspace.id
            &&& on.launch.driva == Some(info.driva)
            &&& !on.launch.planned
            &&& on.activity.status == Status::Running
            &&& on.timeline == app.timeline && on.composer == app.composer && on.outbox == app.outbox
                && on.selection == app.selection
            &&& on.launch.workspace == app.launch.workspace && on.launch.interaction
                == app.launch.interaction
        }),
        stopped(app).activity.status == Status::Stopped,
        stopped(app) == (App { activity: stopped(app).activity, ..app }),
{
}

/// A branch takes the history up to the wire line behind the selected entry, and the
/// whole of it while the list follows.
pub proof fn law_up_to_where_a_branch_goes(app: App, line: usize)
    ensures
        app.timeline.follow ==> branch_time(app) is None,
        !app.timeline.follow && app.timeline.selected < app.timeline.entries@.len()
            && app.timeline.entries@[app.timeline.selected as int].raw_index == Some(line) && line
            < app.raw.lines@.len() ==> branch_time(app) == Some(app.raw.lines@[line as int].at_ms),
        !app.timeline.follow && app.timeline.selected < app.timeline.entries@.len()
            && app.timeline.entries@[app.timeline.selected as int].raw_index is None
            ==> branch_time(app) is None,
{
}

/// Each update changes what it is about: an event the list, a wire line the wire, a log
/// entry the log, a directory where the agent works, and an end the status.
pub proof fn law_what_an_update_changes(before: App, arrived: Arrived, after: App)
    requires
        applies(before, arrived, after),
    ensures
        arrived.update matches InteractionUpdate::Event(event) ==> ingests(
            before,
            event,
            arrived.arrival,
            after,
        ),
        arrived.update matches InteractionUpdate::Raw(line) ==> after.raw.lines@
            == before.raw.lines@.push(line) && after == (App { raw: after.raw, ..before }),
        arrived.update matches InteractionUpdate::Log(entry) ==> after.log.items@
            == before.log.items@.push(entry) && after == (App { log: after.log, ..before }),
        arrived.update matches InteractionUpdate::Quota(reading) ==> after.quota.items@
            == before.quota.items@.push(reading) && after.log.items@.len()
            == before.log.items@.len() + 1 && after.timeline == before.timeline,
        arrived.update matches InteractionUpdate::WorkingDirectoryChanged(directory)
            ==> after.workspace.directory == Some(directory) && after.timeline == before.timeline,
        arrived.update matches InteractionUpdate::Ended(end) ==> after.activity.status
            == (Status::Ended { exit_code: end.exit_code, error: end.error }) && after.timeline
            == before.timeline,
{
}

/// Updates are applied one after another, all of them: those of two batches in the
/// order of the batches.
pub proof fn law_updates_are_applied_in_order(
    start: App,
    a: Seq<Arrived>,
    middle: App,
    b: Seq<Arrived>,
    end: App,
)
    requires
        replayed(start, a, middle),
        replayed(middle, b, end),
    ensures
        replayed(start, a + b, end),
        replayed(start, Seq::empty(), start),
    decreases b.len(),
{
    if b.len() == 0 {
        assert(a + b =~= a);
    } else {
        let before = choose|before: App|
            replayed(middle, b.drop_last(), before) && #[trigger] applies(before, b.last(), end);
        law_updates_are_applied_in_order(start, a, middle, b.drop_last(), before);
        assert((a + b).drop_last() =~= a + b.drop_last());
        assert((a + b).last() == b.last());
        assert(replayed(start, (a + b).drop_last(), before) && applies(before, (a + b).last(), end));
    }
}

/// One update after others is applied to where they lead.
pub proof fn law_one_update_is_applied(start: App, update: Arrived, end: App)
    ensures
        replayed(start, seq![update], end) == applies(start, update, end),
{
    let one = seq![update];
    assert(one.drop_last() =~= Seq::<Arrived>::empty());
    reveal_with_fuel(replayed, 2);
    if applies(start, update, end) {
        assert(replayed(start, one.drop_last(), start) && applies(start, one.last(), end));
    }
    if replayed(start, one, end) {
        let before = choose|before: App|
            replayed(start, one.drop_last(), before) && #[trigger] applies(before, one.last(), end);
        assert(before == start);
    }
}

/// An attached interaction goes as the server says while it takes messages. One that
/// does not is stopped, unless its own updates say that it ended.
pub proof fn law_how_an_attached_interaction_goes(replayed: Activity, snapshot: InteractionSnapshot)
    ensures
        ({
            let now = attached_activity(replayed, snapshot);
            &&& snapshot.interaction.accepting ==> now.status == Status::of_activity(
                snapshot.interaction.activity,
            ) && now.background_work == snapshot.background_work
            &&& !snapshot.interaction.accepting && replayed.status is Ended ==> now.status
                == replayed.status
            &&& !snapshot.interaction.accepting && replayed.status !is Ended ==> now.status
                == Status::Stopped
            &&& now.events == replayed.events && now.latest_usage == replayed.latest_usage
        }),
{
}

/// What the server says of an interaction is its status: one that waits is idle.
pub proof fn law_what_the_server_says_of_an_interaction()
    ensures
        Status::of_activity(crate::protocol::InteractionActivity::Pending) == Status::Idle,
        Status::of_activity(crate::protocol::InteractionActivity::Running) == Status::Running,
        Status::of_activity(crate::protocol::InteractionActivity::Background) == Status::Background,
{
}

/// Something that is noted is the last in the log, and changes nothing else.
pub proof fn law_what_is_noted_is_logged_last(
    before: App,
    after: App,
    level: LogLevel,
    message: Seq<char>,
)
    requires
        noted(before, after, level, message),
    ensures
        after.log.items@.len() == before.log.items@.len() + 1,
        after.log.items@.last().level == level,
        after.log.items@.last().message@ == message,
        after == (App { log: after.log, ..before }),
        before.log.back == 0 ==> after.log.back == 0,
        before.log.back > 0 ==> after.log.back == before.log.back + 1,
{
    let views = crate::app::log_views(after.log.items@);
    assert(views.len() == after.log.items@.len());
    assert(crate::app::log_views(before.log.items@).len() == before.log.items@.len());
    assert(views.last() == (level, message));
    assert(views[after.log.items@.len() - 1].0 == after.log.items@.last().level);
}

} // verus!
