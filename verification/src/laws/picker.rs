//! The pickers: what their keys decide, and what they list.

use vstd::prelude::*;

use crate::key::KeyCode;
use crate::laws::interactions::rising;
use crate::laws::path::law_a_path_is_its_directory_and_its_name;
use crate::laws::text::lemma_filter_of_both;
use crate::path::names_in;
use crate::picker::{
    above, backs_out, below, by_recency, complained, display_name, goes_down, goes_up,
    grouped_rows, has_live, included, included_among, is_live_in, known_names,
    lemma_others_are_fewer, name_of, of_others, of_workspace, place_of, plain_rows, rested,
    rows_shown, shown_events, toggled, without_raw, Handoff, InteractionPick, InteractionsPicker,
    InteractionsView, Reading, RowView, SessionPick, SessionPicker, TemplatePicker,
    TemplatePickerAction, WorkspaceChoice, WorkspacePick, WorkspacePicker,
};
use crate::order::stably_sorted;
use crate::protocol::{
    AgentEvent, InteractionSummary, InteractionUpdate, LogLevel, StoredSession, WorkspaceSummary,
};
use crate::text::{holds, views};

verus! {

// --- Rows and keys -----------------------------------------------------------

/// A row further down is one further, up to the last. Going up undoes it, and stops at
/// the first.
pub proof fn law_rows_are_walked_one_by_one(at: usize, count: nat)
    requires
        count <= usize::MAX,
    ensures
        at + 1 < count ==> below(at, count) == at + 1 && above(below(at, count)) == at,
        at + 1 == count ==> below(at, count) == at,
        at >= count && count > 0 ==> below(at, count) == count - 1,
        count == 0 ==> below(at, count) == 0,
        at > 0 ==> above(at) + 1 == at,
        above(0) == 0,
{
}

/// The letter and the arrow move alike, and a picker is left by two keys.
pub proof fn law_which_keys_walk_a_picker(code: KeyCode)
    ensures
        goes_down(code) == (code == KeyCode::Down || code == KeyCode::Char('j')),
        goes_up(code) == (code == KeyCode::Up || code == KeyCode::Char('k')),
        backs_out(code) == (code == KeyCode::Esc || code == KeyCode::Char('q')),
{
}

/// In the session picker a key is about the selected session, and about no other.
pub proof fn law_keys_in_the_session_picker(
    before: SessionPicker,
    sessions: Seq<StoredSession>,
    code: KeyCode,
    after: SessionPicker,
    pick: SessionPick,
)
    requires
        before.keyed(sessions, code, after, pick),
        before.selected < sessions.len(),
        sessions.len() <= usize::MAX,
    ensures
        after.reading == before.reading,
        code == KeyCode::Enter ==> pick == SessionPick::Choose(
            sessions[before.selected as int].id,
        ),
        code == KeyCode::Char('r') ==> pick == SessionPick::Rename(before.selected),
        code == KeyCode::Char('e') ==> pick == SessionPick::Notes(before.selected),
        code == KeyCode::Char('x') ==> pick == SessionPick::Convert(
            sessions[before.selected as int].id,
        ),
        pick is Cancel <==> (code == KeyCode::Esc || code == KeyCode::Char('q')),
        code == KeyCode::Down || code == KeyCode::Char('j') ==> pick is Open && (before.selected + 1
            < sessions.len() ==> after.selected == before.selected + 1),
        code == KeyCode::Up || code == KeyCode::Char('k') ==> pick is Open && (before.selected > 0
            ==> after.selected == before.selected - 1),
        after.selected < sessions.len(),
        pick !is Open ==> after == before,
{
}

/// In the Workspace picker a key is about the selected Workspace, but for the one that
/// makes another.
pub proof fn law_keys_in_the_workspace_picker(
    before: WorkspacePicker,
    count: nat,
    code: KeyCode,
    after: WorkspacePicker,
    pick: WorkspacePick,
)
    requires
        before.keyed(count, code, after, pick),
        count <= usize::MAX,
    ensures
        after == (WorkspacePicker { selected: after.selected, ..before }),
        code == KeyCode::Char('c') ==> pick == WorkspacePick::Choose(
            WorkspaceChoice::CreateCurrentDirectory,
        ),
        before.selected < count ==> {
            &&& code == KeyCode::Enter ==> pick == WorkspacePick::Choose(
                WorkspaceChoice::Existing(before.selected),
            )
            &&& code == KeyCode::Char('e') ==> pick == WorkspacePick::Notes(before.selected)
            &&& after.selected < count
        },
        pick is Cancel <==> (code == KeyCode::Esc || code == KeyCode::Char('q')),
        code == KeyCode::Down || code == KeyCode::Char('j') ==> pick is Open && (before.selected + 1
            < count ==> after.selected == before.selected + 1),
        code == KeyCode::Up || code == KeyCode::Char('k') ==> pick is Open && (before.selected > 0
            ==> after.selected == before.selected - 1),
        pick !is Open ==> after == before,
{
}

/// In the interactions picker only what takes messages is stopped or converted, and
/// only what takes none is deleted. A change of view returns to the same interaction.
pub proof fn law_keys_in_the_interactions_picker(
    before: InteractionsPicker,
    items: Seq<InteractionSummary>,
    count: nat,
    at: usize,
    has_workspace: bool,
    code: KeyCode,
    after: InteractionsPicker,
    pick: InteractionPick,
)
    requires
        before.keyed(items, count, Some(at), has_workspace, code, after, pick),
        at < items.len(),
    ensures
        code == KeyCode::Enter ==> pick == InteractionPick::Attach(at),
        code == KeyCode::Char('X') && items[at as int].accepting ==> pick
            == InteractionPick::Convert(at),
        code == KeyCode::Char('S') && items[at as int].accepting ==> pick == InteractionPick::Stop(
            at,
        ),
        code == KeyCode::Char('D') && !items[at as int].accepting ==> pick
            == InteractionPick::Delete(at),
        pick is Convert || pick is Stop ==> items[at as int].accepting,
        pick is Delete ==> !items[at as int].accepting,
        pick is Message <==> (code == KeyCode::Char('X') && !items[at as int].accepting) || (code
            == KeyCode::Char('D') && items[at as int].accepting),
        pick is Cancel <==> (code == KeyCode::Esc || code == KeyCode::Char('q')),
        code == KeyCode::Char('g') ==> after.view.grouped != before.view.grouped
            && after.view.only_current_workspace == before.view.only_current_workspace
            && after.refocus == Some(items[at as int].id) && pick is Open,
        code == KeyCode::Char('w') && has_workspace ==> after.view.grouped == before.view.grouped
            && after.view.only_current_workspace != before.view.only_current_workspace
            && after.refocus == Some(items[at as int].id) && pick is Open,
        code == KeyCode::Char('w') && !has_workspace ==> after == before && pick is Open,
        code != KeyCode::Char('w') && code != KeyCode::Char('g') ==> after.view == before.view,
        after.reading == before.reading,
{
}

// --- Previews ----------------------------------------------------------------

/// A preview is loaded once the cursor has rested, and not before.
pub proof fn law_a_preview_is_loaded_after_a_rest(since: u64, now: u64)
    ensures
        rested(Some(since), now) == (since + 120 <= now),
        !rested(None, now),
{
}

/// Another row starts with nothing read of it; the same row keeps what is read.
pub proof fn law_a_preview_turns_to_another_row(before: Reading, id: String, now: u64, after: Reading)
    requires
        before.turned(id, now, after),
    ensures
        after.id@ == id@,
        before.id@ == id@ ==> after == before,
        before.id@ != id@ ==> after.updates@.len() == 0 && after.cursor == 0 && !after.live
            && after.settle_from == Some(now),
{
}

/// An error is added to what is read, and said once in a row.
pub proof fn law_an_error_is_said_once_in_a_row(
    before: Seq<InteractionUpdate>,
    message: Seq<char>,
    once: Seq<InteractionUpdate>,
    twice: Seq<InteractionUpdate>,
)
    requires
        complained(before, message, once),
        complained(once, message, twice),
    ensures
        twice == once,
        once.len() > 0 && (once.last() matches InteractionUpdate::Log(entry) && entry.message@
            == message),
        forall|i: int| 0 <= i < before.len() ==> #[trigger] once[i] == before[i],
        once.len() <= before.len() + 1,
        (before.len() == 0 || before.last() !is Log) ==> once.len() == before.len() + 1
            && (once.last() matches InteractionUpdate::Log(entry) && entry.level
            == LogLevel::Error),
{
    if once.len() == before.len() + 1 {
        assert forall|i: int| 0 <= i < before.len() implies #[trigger] once[i] == before[i] by {
            assert(once.drop_last()[i] == once[i]);
        }
    }
}

/// Of a journal every event is shown that is known, in order.
pub proof fn law_known_events_are_shown(a: Seq<AgentEvent>, event: AgentEvent)
    ensures
        event !is Unknown ==> shown_events(a.push(event)) == shown_events(a).push(
            InteractionUpdate::Event(event),
        ),
        event is Unknown ==> shown_events(a.push(event)) == shown_events(a),
        shown_events(Seq::empty()) == Seq::<InteractionUpdate>::empty(),
{
    reveal(Seq::filter);
    let pick = |e: AgentEvent| e !is Unknown;
    let none = Seq::<AgentEvent>::empty();
    assert(a.push(event).drop_last() =~= a);
    assert(shown_events(none) =~= Seq::<InteractionUpdate>::empty());
    if event !is Unknown {
        assert(a.push(event).filter(pick) =~= a.filter(pick).push(event));
        assert(shown_events(a.push(event)) =~= shown_events(a).push(
            InteractionUpdate::Event(event),
        ));
    } else {
        assert(a.push(event).filter(pick) =~= a.filter(pick));
    }
}

/// Of a live interaction every update is read but for the wire lines, in order.
pub proof fn law_wire_lines_are_left_out(a: Seq<InteractionUpdate>, update: InteractionUpdate)
    ensures
        update !is Raw ==> without_raw(a.push(update)) == without_raw(a).push(update),
        update is Raw ==> without_raw(a.push(update)) == without_raw(a),
        without_raw(Seq::empty()) == Seq::<InteractionUpdate>::empty(),
{
    reveal(Seq::filter);
    assert(a.push(update).drop_last() =~= a);
}

// --- Workspaces and interactions ---------------------------------------------

/// A Workspace has live work where an interaction of its own takes messages.
pub proof fn law_which_workspaces_have_live_work(
    workspace: WorkspaceSummary,
    interactions: Seq<InteractionSummary>,
    i: int,
)
    ensures
        0 <= i < interactions.len() && interactions[i].accepting && interactions[i].workspace_id@
            == workspace.id@ ==> has_live(workspace, interactions),
        (forall|j: int|
            0 <= j < interactions.len() ==> !((#[trigger] interactions[j]).accepting
                && interactions[j].workspace_id@ == workspace.id@)) ==> !has_live(
            workspace,
            interactions,
        ),
{
    if 0 <= i < interactions.len() {
        assert(is_live_in(interactions[i], workspace.id@) == (interactions[i].accepting
            && interactions[i].workspace_id@ == workspace.id@));
    }
    if has_live(workspace, interactions) {
        let j = choose|j: int|
            0 <= j < interactions.len() && #[trigger] is_live_in(interactions[j], workspace.id@);
        assert(interactions[j].accepting);
    }
}

/// Workspaces are listed with live work first, and then by when they were opened.
pub proof fn law_workspaces_are_listed_by_use(
    before: Seq<WorkspaceSummary>,
    interactions: Seq<InteractionSummary>,
    after: Seq<WorkspaceSummary>,
    i: int,
    j: int,
)
    requires
        stably_sorted(by_recency(before, interactions), by_recency(after, interactions)),
        0 <= i < j < after.len(),
    ensures
        has_live(after[j], interactions) ==> has_live(after[i], interactions),
        has_live(after[i], interactions) == has_live(after[j], interactions)
            ==> after[i].last_accessed_at_ms >= after[j].last_accessed_at_ms,
        has_live(after[i], interactions) == has_live(after[j], interactions)
            && after[i].last_accessed_at_ms == after[j].last_accessed_at_ms
            ==> after[i].created_at_ms >= after[j].created_at_ms,
        before.contains(after[i]),
        after.len() == before.len(),
        before.contains(before[i]) ==> after.contains(before[i]),
{
    let from = by_recency(before, interactions);
    let to = by_recency(after, interactions);
    crate::laws::order::law_sorting_keeps_and_orders(from, to);
    assert(crate::order::Ranked::ranks(&to[i].0, &to[j].0));
    assert(to.contains(to[i]));
    assert(from.contains(to[i]));
    let k = choose|k: int| 0 <= k < from.len() && from[k] == to[i];
    assert(before[k] == after[i]);
    assert(from.contains(from[i]));
    assert(to.contains(from[i]));
    let m = choose|m: int| 0 <= m < to.len() && to[m] == from[i];
    assert(after[m] == before[i]);
}

/// A Workspace without a name is called as its directory is.
pub proof fn law_what_a_workspace_is_called(workspace: WorkspaceSummary)
    ensures
        workspace.name matches Some(name) ==> display_name(workspace) == name@,
        workspace.name is None && names_in(workspace.host_path@).len() > 0 && names_in(
            workspace.host_path@,
        ).last() != ".."@ && names_in(workspace.host_path@).last() != "."@ ==> display_name(
            workspace,
        ) == names_in(workspace.host_path@).last(),
        workspace.name is None && names_in(workspace.host_path@).len() == 0 ==> display_name(
            workspace,
        ) == workspace.host_path@,
{
    law_a_path_is_its_directory_and_its_name(workspace.host_path@);
}

/// The first Workspace with an id gives it its name, and an unknown id stands for
/// itself.
pub proof fn law_which_workspace_names_an_id(workspaces: Seq<WorkspaceSummary>, id: Seq<char>, i: int)
    ensures
        0 <= i < workspaces.len() && workspaces[i].id@ == id && (forall|j: int|
            0 <= j < i ==> (#[trigger] workspaces[j]).id@ != id) ==> name_of(workspaces, id)
            == display_name(workspaces[i]),
        (forall|j: int| 0 <= j < workspaces.len() ==> (#[trigger] workspaces[j]).id@ != id)
            ==> name_of(workspaces, id) == id,
    decreases workspaces.len(),
{
    if workspaces.len() > 0 {
        let rest = workspaces.skip(1);
        assert(forall|j: int| 0 <= j < rest.len() ==> rest[j] == workspaces[j + 1]);
        law_which_workspace_names_an_id(rest, id, i - 1);
    }
}

proof fn lemma_included(
    items: Seq<InteractionSummary>,
    current: Option<Seq<char>>,
    view: InteractionsView,
    n: nat,
)
    ensures
        rising(included_among(items, current, view, n)),
        forall|k: int|
            0 <= k < included_among(items, current, view, n).len() ==> 0
                <= #[trigger] included_among(items, current, view, n)[k] < n && included(
                items,
                current,
                view,
                included_among(items, current, view, n)[k],
            ),
        forall|i: int|
            0 <= i < n && #[trigger] included(items, current, view, i) ==> included_among(
                items,
                current,
                view,
                n,
            ).contains(i),
    decreases n,
{
    if n > 0 {
        let before = included_among(items, current, view, (n - 1) as nat);
        let now = included_among(items, current, view, n);
        lemma_included(items, current, view, (n - 1) as nat);
        assert forall|i: int| 0 <= i < n && #[trigger] included(
            items,
            current,
            view,
            i,
        ) implies now.contains(i) by {
            if i < n - 1 {
                assert(before.contains(i));
                let k = choose|k: int| 0 <= k < before.len() && before[k] == i;
                assert(now[k] == i);
            } else {
                assert(now[before.len() as int] == i);
            }
        }
    }
}

/// Without headings the rows are the listed interactions in their order: all of them,
/// or those of the current Workspace.
pub proof fn law_the_rows_without_headings(
    items: Seq<InteractionSummary>,
    workspaces: Seq<WorkspaceSummary>,
    current: Seq<char>,
    view: InteractionsView,
    i: int,
)
    requires
        !view.grouped,
        0 <= i < items.len(),
    ensures
        ({
            let rows = rows_shown(items, workspaces, Some(current), view);
            &&& view.only_current_workspace && items[i].workspace_id@ != current
                ==> !rows.contains(RowView::Interaction(i))
            &&& !view.only_current_workspace || items[i].workspace_id@ == current
                ==> rows.contains(RowView::Interaction(i))
            &&& rows_shown(items, workspaces, None, view).contains(RowView::Interaction(i))
            &&& forall|a: int, b: int|
                0 <= a < b < rows.len() ==> (#[trigger] rows[a] matches RowView::Interaction(x) && (
                #[trigger] rows[b] matches RowView::Interaction(y) && x < y))
        }),
{
    let among = included_among(items, Some(current), view, items.len());
    let rows = rows_shown(items, workspaces, Some(current), view);
    lemma_included(items, Some(current), view, items.len());
    assert(rows == plain_rows(among));
    assert(included(items, Some(current), view, i) == (!view.only_current_workspace
        || items[i].workspace_id@ == current));
    if included(items, Some(current), view, i) {
        assert(among.contains(i));
        let k = choose|k: int| 0 <= k < among.len() && among[k] == i;
        assert(rows[k] == RowView::Interaction(i));
    } else if rows.contains(RowView::Interaction(i)) {
        let k = choose|k: int| 0 <= k < rows.len() && rows[k] == RowView::Interaction(i);
        assert(among[k] == i);
    }
    let every = included_among(items, None, view, items.len());
    lemma_included(items, None, view, items.len());
    assert(included(items, None, view, i));
    assert(every.contains(i));
    let k = choose|k: int| 0 <= k < every.len() && every[k] == i;
    assert(rows_shown(items, workspaces, None, view)[k] == RowView::Interaction(i));
    assert forall|a: int, b: int| 0 <= a < b < rows.len() implies (
    #[trigger] rows[a] matches RowView::Interaction(x) && (
    #[trigger] rows[b] matches RowView::Interaction(y) && x < y)) by {
        assert(among[a] < among[b]);
        assert(rows[a] == RowView::Interaction(among[a]));
        assert(rows[b] == RowView::Interaction(among[b]));
    }
}

/// Whether the interaction in a row stands under the heading of its Workspace: right
/// behind it, or behind another of the same.
pub open spec fn is_under_its_heading(
    items: Seq<InteractionSummary>,
    workspaces: Seq<WorkspaceSummary>,
    rows: Seq<RowView>,
    k: int,
) -> bool {
    rows[k] matches RowView::Interaction(i) ==> k > 0 && match rows[k - 1] {
        RowView::Workspace(name) => name == name_of(workspaces, items[i].workspace_id@),
        RowView::Interaction(j) => items[j].workspace_id@ == items[i].workspace_id@,
    }
}

/// With headings every interaction stands under that of its own Workspace, and the
/// first that is listed leads.
pub proof fn law_interactions_stand_under_their_headings(
    items: Seq<InteractionSummary>,
    workspaces: Seq<WorkspaceSummary>,
    among: Seq<int>,
    k: int,
)
    ensures
        among.len() > 0 ==> grouped_rows(items, workspaces, among).len() > 1 && grouped_rows(
            items,
            workspaces,
            among,
        )[0] == RowView::Workspace(name_of(workspaces, items[among[0]].workspace_id@))
            && grouped_rows(items, workspaces, among)[1] == RowView::Interaction(among[0]),
        0 <= k < grouped_rows(items, workspaces, among).len() ==> is_under_its_heading(
            items,
            workspaces,
            grouped_rows(items, workspaces, among),
            k,
        ),
    decreases among.len(),
{
    if among.len() > 0 {
        lemma_others_are_fewer(items, among);
        let id = items[among[0]].workspace_id@;
        let own = of_workspace(items, among, id);
        let others = of_others(items, among, id);
        let rest = grouped_rows(items, workspaces, others);
        let rows = grouped_rows(items, workspaces, among);
        let pick = crate::picker::belongs(items, id);
        let head = seq![among[0]];
        assert(among =~= head + among.skip(1));
        lemma_filter_of_both(head, among.skip(1), pick);
        reveal(Seq::filter);
        assert(head.drop_last() =~= Seq::<int>::empty());
        assert(head.drop_last().filter(pick) =~= Seq::<int>::empty());
        assert(pick(among[0]));
        assert(head.filter(pick) =~= head);
        assert(own[0] == among[0]);
        law_interactions_stand_under_their_headings(items, workspaces, others, k - 1 - own.len());
        assert(rows[0] == RowView::Workspace(name_of(workspaces, id)));
        assert(forall|m: int| 0 <= m < own.len() ==> rows[m + 1] == RowView::Interaction(own[m]));
        assert(forall|m: int|
            0 <= m < rest.len() ==> rows[m + 1 + own.len()] == rest[m]);
        if 0 < k <= own.len() {
            among.lemma_filter_pred(pick, k - 1);
            if k > 1 {
                among.lemma_filter_pred(pick, k - 2);
            }
            assert(rows[k] == RowView::Interaction(own[k - 1]));
        } else if own.len() < k < rows.len() {
            let m = k - 1 - own.len();
            assert(rows[k] == rest[m]);
            if m == 0 {
                assert(others.len() > 0);
                assert(rest[0] is Workspace);
            } else {
                assert(rows[k - 1] == rest[m - 1]);
            }
        }
    }
}

/// An interaction is returned to where it is shown, and a selection past the end moves
/// to the last row.
pub proof fn law_the_selection_returns_to_its_interaction(
    picker: InteractionsPicker,
    items: Seq<InteractionSummary>,
    visible: Seq<int>,
    at: int,
)
    requires
        visible.len() <= usize::MAX,
    ensures
        picker.refocus matches Some(id) ==> (0 <= at < visible.len() && items[visible[at]].id@ == id@
            && (forall|j: int| 0 <= j < at ==> items[#[trigger] visible[j]].id@ != id@)
            ==> picker.placed(items, visible) == at),
        picker.refocus is None && picker.selected < visible.len() ==> picker.placed(items, visible)
            == picker.selected,
        picker.refocus is None && 0 < visible.len() <= picker.selected ==> picker.placed(
            items,
            visible,
        ) == visible.len() - 1,
        visible.len() > 0 ==> picker.placed(items, visible) < visible.len(),
{
    if let Some(id) = picker.refocus {
        if 0 <= at < visible.len() && items[visible[at]].id@ == id@ && (forall|j: int|
            0 <= j < at ==> items[#[trigger] visible[j]].id@ != id@) {
            lemma_place_of(items, visible, id@, at);
        }
    }
}

proof fn lemma_place_of(items: Seq<InteractionSummary>, visible: Seq<int>, id: Seq<char>, at: int)
    requires
        at < visible.len() ==> 0 <= at && items[visible[at]].id@ == id,
        forall|j: int| 0 <= j < at && j < visible.len() ==> items[#[trigger] visible[j]].id@ != id,
    ensures
        place_of(items, visible, id) == if at < visible.len() {
            Some(at)
        } else {
            None
        },
    decreases visible.len(),
{
    if visible.len() > 0 {
        let rest = visible.drop_last();
        assert forall|j: int| 0 <= j < at && j < rest.len() implies items[#[trigger] rest[j]].id@
            != id by {
            assert(items[visible[j]].id@ != id);
        }
        lemma_place_of(items, rest, id, at);
        if at >= visible.len() {
            assert(items[visible[visible.len() - 1]].id@ != id);
        }
    }
}

// --- Handing over ------------------------------------------------------------

/// Each step of handing a conversation over goes on with the ids it has: what was
/// converted is resumed, the source is stopped, and what was converted is opened.
pub proof fn law_a_handoff_keeps_its_ids(
    source: String,
    id: String,
    converted: Handoff,
    resumed: Handoff,
    stopped: Handoff,
)
    requires
        (Handoff::Convert { source }).once_converted(Ok(id), converted),
        converted.once_resumed(Ok(()), resumed),
        resumed.once_stopped(Ok(()), stopped),
    ensures
        converted == (Handoff::Resume { source, converted: id }),
        resumed == (Handoff::Stop { source, converted: id }),
        stopped == (Handoff::Find { converted: id }),
{
}

/// A step that fails tells why, in the server's own words.
pub proof fn law_a_failed_handoff_tells_why(
    before: Handoff,
    error: String,
    converted: Handoff,
    resumed: Handoff,
    stopped: Handoff,
)
    requires
        before.once_converted(Err(error), converted),
        before.once_resumed(Err(error), resumed),
        before.once_stopped(Err(error), stopped),
    ensures
        before is Convert ==> (converted matches Handoff::Failed { error: why, .. } && why == error),
        before is Resume ==> (resumed matches Handoff::Failed { error: why, .. } && why == error),
        before matches Handoff::Stop { converted: id, .. } ==> (stopped matches Handoff::Revert {
            converted: undone,
            error: why,
            ..
        } && undone == id && why == error),
{
}

// --- Templates ---------------------------------------------------------------

/// Names that are still templates stay chosen, in order, and no others.
pub proof fn law_known_templates_stay_chosen(
    names: Seq<String>,
    templates: Seq<String>,
    name: String,
)
    ensures
        holds(templates, name@) ==> known_names(names.push(name), templates) == known_names(
            names,
            templates,
        ).push(name),
        !holds(templates, name@) ==> known_names(names.push(name), templates) == known_names(
            names,
            templates,
        ),
        known_names(Seq::empty(), templates) == Seq::<String>::empty(),
{
    reveal(Seq::filter);
    assert(names.push(name).drop_last() =~= names);
}

/// A template that is chosen is dropped and the others keep their order; one that is
/// not is added behind them.
pub proof fn law_a_template_is_chosen_or_dropped(
    a: Seq<String>,
    name: String,
    b: Seq<String>,
    after: Seq<String>,
)
    requires
        forall|j: int| 0 <= j < a.len() ==> (#[trigger] a[j])@ != name@,
        forall|j: int| 0 <= j < b.len() ==> (#[trigger] b[j])@ != name@,
    ensures
        toggled(a + seq![name] + b, name, after) ==> after == a + b,
        toggled(a + b, name, after) ==> after == (a + b).push(name),
{
    let with = a + seq![name] + b;
    if toggled(with, name, after) {
        assert(with[a.len() as int] == name);
        assert(holds(with, name@));
        let i = choose|i: int|
            0 <= i < with.len() && (#[trigger] with[i])@ == name@ && (forall|j: int|
                0 <= j < i ==> (#[trigger] with[j])@ != name@) && after == with.remove(i);
        if i < a.len() {
            assert(with[i] == a[i]);
        } else if i > a.len() {
            assert(with[a.len() as int]@ != name@);
        }
        assert(with.remove(i) =~= a + b);
    }
    if toggled(a + b, name, after) {
        if holds(a + b, name@) {
            let i = choose|i: int| 0 <= i < (a + b).len() && (#[trigger] (a + b)[i])@ == name@;
            if i < a.len() {
                assert((a + b)[i] == a[i]);
            } else {
                assert((a + b)[i] == b[i - a.len()]);
            }
        }
    }
}

/// In the template picker a change is applied as it stands, and one that is none is
/// not. Nothing but leaving it works before the list is known.
pub proof fn law_keys_in_the_template_picker(
    before: TemplatePicker,
    code: KeyCode,
    after: TemplatePicker,
    action: TemplatePickerAction,
)
    requires
        before.keyed(code, after, action),
    ensures
        action is Cancel <==> (code == KeyCode::Esc || code == KeyCode::Char('q')),
        before.templates is None && action !is Cancel ==> action is Nothing && after == before,
        before.templates is Some && code == KeyCode::Enter ==> {
            &&& after == before
            &&& views(before.chosen@) == views(before.initial@) ==> action is Unchanged
            &&& views(before.chosen@) != views(before.initial@) ==> (
            action matches TemplatePickerAction::Apply { scope, chosen } && scope == before.scope
                && chosen@ == before.chosen@)
        },
        before.templates matches Some(templates) ==> (code == KeyCode::Char(' ') && before.cursor
            < templates@.len() ==> toggled(
            before.chosen@,
            templates@[before.cursor as int],
            after.chosen@,
        )),
        before.templates matches Some(templates) ==> ((code == KeyCode::Down || code
            == KeyCode::Char('j')) && before.cursor + 1 < templates@.len() ==> after.cursor
            == before.cursor + 1),
        before.templates is Some && (code == KeyCode::Up || code == KeyCode::Char('k'))
            && before.cursor > 0 ==> after.cursor == before.cursor - 1,
        code != KeyCode::Char(' ') ==> after.chosen == before.chosen,
        after.initial == before.initial && after.templates == before.templates && after.scope
            == before.scope && after.workspace_id == before.workspace_id && after.request_id
            == before.request_id,
{
    assert(before.templates matches Some(templates) ==> templates.len() <= usize::MAX);
}

} // verus!
