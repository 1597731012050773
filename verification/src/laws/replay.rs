//! Screens that are opened on an interaction or a stored session.

use vstd::prelude::*;
use vstd::view::View as _;

use crate::activity::Status;
use crate::app::{App, View};
use crate::laws::ingest::{law_events_are_counted, law_events_change_nothing_else};
use crate::ingest::{ingests, Arrival};
use crate::launcher::Catalog;
use crate::picker::display_name;
use crate::protocol::{
    AgentEvent, Arrived, InteractionSnapshot, InteractionUpdate, RawLine, StoredSession,
    WorkspaceSummary,
};
use crate::session::{
    applies, dated, opened_on, opened_stored, paired, replayed, replays_journal, replays_record,
    shows_snapshot, shows_stored,
};
use crate::startup::in_context;
use crate::text::view_of;

verus! {

/// What no update of an interaction changes: which session it is of, what the operator
/// wrote and chose, and what waits to be sent.
pub open spec fn same_session(before: App, after: App) -> bool {
    &&& after.session_id == before.session_id
    &&& after.session_name == before.session_name
    &&& after.selection == before.selection
    &&& after.catalog == before.catalog
    &&& after.composer == before.composer
    &&& after.outbox == before.outbox
    &&& after.launch == before.launch
    &&& after.workspace.id == before.workspace.id
    &&& after.workspace.root == before.workspace.root
    &&& after.view == before.view
    &&& after.focus == before.focus
}

/// The wire lines among updates, in their order.
pub open spec fn wire_lines(updates: Seq<Arrived>) -> Seq<RawLine>
    decreases updates.len(),
{
    if updates.len() == 0 {
        Seq::empty()
    } else {
        let before = wire_lines(updates.drop_last());
        match updates.last().update {
            InteractionUpdate::Raw(line) => before.push(line),
            _ => before,
        }
    }
}

/// How many events there are among updates.
pub open spec fn count_events(updates: Seq<Arrived>) -> nat
    decreases updates.len(),
{
    if updates.len() == 0 {
        0
    } else {
        count_events(updates.drop_last()) + if updates.last().update is Event {
            1nat
        } else {
            0
        }
    }
}

/// Updates stay with their session. Every wire line among them is kept in order, and
/// every event is counted.
pub proof fn law_updates_stay_with_their_session(start: App, updates: Seq<Arrived>, end: App)
    requires
        replayed(start, updates, end),
        start.activity.events + updates.len() <= u64::MAX,
    ensures
        same_session(start, end),
        end.raw.lines@ == start.raw.lines@ + wire_lines(updates),
        end.activity.events == start.activity.events + count_events(updates),
        count_events(updates) <= updates.len(),
    decreases updates.len(),
{
    if updates.len() == 0 {
        assert(start.raw.lines@ + wire_lines(updates) =~= start.raw.lines@);
    } else {
        let before = choose|before: App|
            replayed(start, updates.drop_last(), before) && #[trigger] applies(
                before,
                updates.last(),
                end,
            );
        law_updates_stay_with_their_session(start, updates.drop_last(), before);
        match updates.last().update {
            InteractionUpdate::Event(event) => {
                law_events_change_nothing_else(before, event, updates.last().arrival, end);
                law_events_are_counted(before, event, updates.last().arrival, end);
            },
            InteractionUpdate::Raw(line) => {
                assert(start.raw.lines@ + wire_lines(updates) =~= (start.raw.lines@ + wire_lines(
                    updates.drop_last(),
                )).push(line));
            },
            _ => {},
        }
    }
}

/// An interaction is shown from its snapshot with its own session, every wire line, and
/// the messages that wait for it; it is going as the server says while it takes
/// messages.
pub proof fn law_a_snapshot_is_shown(catalog: Catalog, snapshot: InteractionSnapshot, app: App)
    requires
        shows_snapshot(catalog, snapshot, app),
    ensures
        app.session_id == snapshot.interaction.id,
        app.session_name == snapshot.interaction.name,
        app.selection == snapshot.interaction.selection,
        app.workspace.id == Some(snapshot.interaction.workspace_id),
        app.workspace.root == Some(snapshot.interaction.workspace),
        app.launch.driva == Some(snapshot.interaction.driva),
        app.raw.lines@ == wire_lines(snapshot.updates@),
        app.outbox.queued@ == snapshot.queued@,
        app.activity.events == count_events(snapshot.updates@),
        snapshot.interaction.accepting ==> app.activity.status == Status::of_activity(
            snapshot.interaction.activity,
        ),
        !snapshot.interaction.accepting ==> app.activity.status == Status::Stopped
            || app.activity.status is Ended,
        app.view == View::Events,
        app.catalog == catalog,
{
    let (start, end) = choose|start: App, end: App| #[trigger]
        opened_on(catalog, snapshot.interaction, start) && #[trigger] replayed(
            start,
            snapshot.updates@,
            end,
        ) && {
            let settled = end.at(end.timeline.last());
            &&& app.outbox.queued@ == settled.outbox.queued@ + snapshot.queued@
            &&& app == (App {
                outbox: crate::outbox::Outbox { queued: app.outbox.queued, ..settled.outbox },
                activity: crate::session::attached_activity(settled.activity, snapshot),
                ..settled
            })
        };
    assert(snapshot.updates.len() <= usize::MAX);
    law_updates_stay_with_their_session(start, snapshot.updates@, end);
    assert(app.raw.lines@ =~= wire_lines(snapshot.updates@));
    assert(app.outbox.queued@ =~= snapshot.queued@);
}

proof fn lemma_journal(
    start: App,
    events: Seq<(AgentEvent, Arrival)>,
    lines: Seq<RawLine>,
    n: nat,
    end: App,
)
    requires
        replays_journal(start, events, lines, n, end),
        n <= lines.len(),
    ensures
        same_session(start, end),
        end.raw.lines@ == start.raw.lines@ + lines.take(n as int),
    decreases n,
{
    if n == 0 {
        assert(start.raw.lines@ + lines.take(0) =~= start.raw.lines@);
    } else {
        let last = n - 1;
        let before = choose|before: App|
            replays_journal(start, events, lines, (n - 1) as nat, before)
                && #[trigger] replays_record(
                before,
                events[last].0,
                events[last].1,
                lines[last],
                end,
            );
        lemma_journal(start, events, lines, (n - 1) as nat, before);
        assert(start.raw.lines@ + lines.take(n as int) =~= (start.raw.lines@ + lines.take(
            last,
        )).push(lines[last]));
        if events[last].0 !is Unknown {
            let raw = choose|raw: crate::raw::RawView| #[trigger]
                before.raw.grows(lines[last], raw) && ingests(
                    App { raw, ..before },
                    events[last].0,
                    events[last].1,
                    end,
                );
            law_events_change_nothing_else(
                App { raw, ..before },
                events[last].0,
                events[last].1,
                end,
            );
        }
    }
}

/// A stored session is shown under its own id with every wire line of its journal, and
/// as ended.
pub proof fn law_a_stored_session_is_shown(
    catalog: Catalog,
    summary: StoredSession,
    events: Seq<(AgentEvent, Arrival)>,
    lines: Seq<RawLine>,
    app: App,
)
    requires
        shows_stored(catalog, summary, events, lines, app),
        events.len() == lines.len(),
    ensures
        app.session_id == summary.id,
        app.session_name == summary.name,
        app.selection == summary.selection,
        app.workspace.id == Some(summary.workspace_id),
        app.raw.lines@ == lines,
        app.activity.status == (Status::Ended { exit_code: None, error: None }),
        app.catalog == catalog,
{
    let (start, end) = choose|start: App, end: App| #[trigger]
        opened_stored(catalog, summary, start) && #[trigger] replays_journal(
            start,
            events,
            lines,
            paired(events, lines),
            end,
        ) && app == end.ended(
            crate::protocol::InteractionEnd { exit_code: None, error: None },
        );
    lemma_journal(start, events, lines, paired(events, lines), end);
    assert(lines.take(lines.len() as int) =~= lines);
    assert(app.raw.lines@ =~= lines);
}

/// A record adds its wire line, and its event where anything is known of it.
pub proof fn law_a_record_is_replayed(
    before: App,
    event: AgentEvent,
    arrival: Arrival,
    line: RawLine,
    after: App,
)
    requires
        replays_record(before, event, arrival, line, after),
        before.activity.events < u64::MAX,
    ensures
        after.raw.lines@ == before.raw.lines@.push(line),
        event is Unknown ==> after.timeline == before.timeline && after.activity == before.activity,
        event !is Unknown ==> after.activity.events == before.activity.events + 1,
{
    if event !is Unknown {
        let raw = choose|raw: crate::raw::RawView| #[trigger]
            before.raw.grows(line, raw) && ingests(
                App { raw, ..before },
                event,
                arrival,
                after,
            );
        law_events_change_nothing_else(App { raw, ..before }, event, arrival, after);
        law_events_are_counted(App { raw, ..before }, event, arrival, after);
    }
}

/// Sessions are listed newest first, every one of them.
pub proof fn law_sessions_are_listed_newest_first(
    before: Seq<StoredSession>,
    after: Seq<StoredSession>,
    i: int,
    j: int,
)
    requires
        crate::order::stably_sorted(dated(before), dated(after)),
        0 <= i < j < after.len(),
    ensures
        after[i].created_at_ms >= after[j].created_at_ms,
        after.len() == before.len(),
        after.contains(before[i]),
        before.contains(after[i]),
{
    let from = dated(before);
    let to = dated(after);
    crate::laws::order::law_sorting_keeps_and_orders(from, to);
    assert(crate::order::Ranked::ranks(&to[i].0, &to[j].0));
    assert(to.contains(to[i]));
    assert(from.contains(to[i]));
    let k = choose|k: int| 0 <= k < from.len() && from[k] == to[i];
    assert(before[k] == after[i]);
    assert(from.contains(from[i]));
    assert(to.contains(from[i]));
    let m = choose|m: int| 0 <= m < to.len() && to[m] == from[i];
    assert(after[m] == before[i]);
}

/// A screen in a Workspace that is known shows its name and its policy; in any other it
/// shows no name.
pub proof fn law_a_known_workspace_is_named(
    before: App,
    workspace: Option<WorkspaceSummary>,
    after: App,
)
    requires
        in_context(before, workspace, after),
    ensures
        workspace matches Some(known) ==> view_of(after.workspace.name) == Some(display_name(known))
            && after.launch.workspace@ == known.launch@,
        workspace is None ==> after.workspace.name is None && after.launch == before.launch,
        after.workspace.id == before.workspace.id && after.workspace.root == before.workspace.root,
        after.launch.interaction == before.launch.interaction,
        after.timeline == before.timeline && after.session_id == before.session_id,
{
}

} // verus!
