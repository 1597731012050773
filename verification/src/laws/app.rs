//! The screen: what it lists, previews and copies, and what a choice changes.

use vstd::prelude::*;
use vstd::view::View as _;

use crate::activity::Status;
use crate::answer::located;
use crate::app::{
    joined_blocks, log_grown, logged, recent_after, stays_put, told, App, Request, Surroundings,
    View, RECENT_MODELS,
};
use crate::event::{block_views, BlockView};
use crate::files::{block_text, mentions};
use crate::laws::text::lemma_filter_of_both;
use crate::path::{rooted, under};
use crate::preview::PreviewTarget;
use crate::protocol::{
    InteractionEnd, LogEntry, LogLevel, Provider, QuotaEvent, QuotaStatus, Selection,
};
use crate::tail::Tail;
use crate::text::{holds, view_of};
use crate::timeline::Timeline;

verus! {

/// What the operator is told comes behind what was said before, and changes nothing
/// else.
pub proof fn law_what_is_told_is_said_last(before: App, after: App, message: Seq<char>)
    requires
        told(before, after, message),
    ensures
        after.notices.messages@.len() == before.notices.messages@.len() + 1,
        after.notices.messages@.last()@ == message,
        after.notices.since == before.notices.since,
        after == (App { notices: after.notices, ..before }),
{
    let said = after.notices.said();
    assert(said.len() == after.notices.messages@.len());
    assert(before.notices.said().len() == before.notices.messages@.len());
    assert(said.last() == message);
    assert(said[said.len() - 1] == after.notices.messages@[said.len() - 1]@);
}

/// A log that is scrolled back shows the same entries when it grows: as many more are
/// behind what it shows as came in.
pub proof fn law_a_growing_log_shows_the_same(
    before: Tail<LogEntry>,
    after: Tail<LogEntry>,
    entry: LogEntry,
)
    requires
        before.back < usize::MAX,
    ensures
        log_grown(before, after, entry) ==> after.items@.last() == entry && after.items@.len()
            == before.items@.len() + 1 && (before.back > 0 ==> after.items@.len() - after.back
            == before.items@.len() - before.back) && (before.back == 0 ==> after.back == 0),
        stays_put(before, after) && before.back > 0 ==> after.items@.len() - after.back
            == before.items@.len() - before.back,
        stays_put(before, after) && before.back == 0 ==> after.back == 0,
{
}

/// The model chosen last leads, and the others keep their order behind it; the oldest
/// goes where there are too many.
pub proof fn law_other_models_keep_their_order(a: Seq<String>, old: String, b: Seq<String>, model: String)
    requires
        forall|i: int| 0 <= i < a.len() ==> (#[trigger] a[i])@ != model@,
        forall|i: int| 0 <= i < b.len() ==> (#[trigger] b[i])@ != model@,
        old@ == model@,
    ensures
        a.len() + b.len() < RECENT_MODELS ==> recent_after(a + seq![old] + b, model) == seq![model]
            + a + b,
        a.len() + b.len() < RECENT_MODELS ==> recent_after(a + b, model) == seq![model] + a + b,
        a.len() == RECENT_MODELS ==> recent_after(a, model) == seq![model] + a.drop_last(),
{
    let pick = |m: String| m@ != model@;
    lemma_all_pass(a, pick);
    lemma_all_pass(b, pick);
    lemma_filter_of_both(a, b, pick);
    lemma_filter_of_both(a + seq![old], b, pick);
    lemma_filter_of_both(a, seq![old], pick);
    reveal(Seq::filter);
    let one = seq![old];
    assert(one.drop_last() =~= Seq::<String>::empty());
    assert(one.drop_last().filter(pick) =~= Seq::<String>::empty());
    assert(one.filter(pick) =~= Seq::<String>::empty());
    assert((a + seq![old] + b).filter(pick) =~= a + b);
    assert(seq![model] + (a + b) =~= seq![model] + a + b);
    if a.len() == RECENT_MODELS {
        assert((seq![model] + a).take(RECENT_MODELS as int) =~= seq![model] + a.drop_last());
    }
}

proof fn lemma_all_pass<A>(s: Seq<A>, pick: spec_fn(A) -> bool)
    requires
        forall|i: int| 0 <= i < s.len() ==> pick(#[trigger] s[i]),
    ensures
        s.filter(pick) == s,
    decreases s.len(),
{
    reveal(Seq::filter);
    if s.len() > 0 {
        assert forall|i: int| 0 <= i < s.drop_last().len() implies pick(
            #[trigger] s.drop_last()[i],
        ) by {
            assert(pick(s[i]));
        }
        lemma_all_pass(s.drop_last(), pick);
        assert(pick(s[s.len() - 1]));
        assert(s.filter(pick) =~= s);
    } else {
        assert(s.filter(pick) =~= s);
    }
}

/// Blocks are copied whole, each on a line of its own.
pub proof fn law_blocks_are_copied_whole(blocks: Seq<BlockView>, block: BlockView)
    ensures
        joined_blocks(seq![block]) == block_text(block),
        joined_blocks(blocks).len() > 0 ==> joined_blocks(blocks.push(block)) == joined_blocks(
            blocks,
        ) + seq!['\n'] + block_text(block),
        joined_blocks(blocks).len() == 0 ==> joined_blocks(blocks.push(block)) == block_text(block),
        block matches BlockView::Text(text) ==> block_text(block) == text,
        block matches BlockView::Code { text, .. } ==> block_text(block) == text,
{
    assert(blocks.push(block).drop_last() =~= blocks);
    let before = joined_blocks(blocks);
    assert(before.push('\n') + block_text(block) =~= before + seq!['\n'] + block_text(block));
    assert(seq![block].drop_last() =~= Seq::<BlockView>::empty());
    assert(before.len() == 0 ==> before + block_text(block) =~= block_text(block));
    assert(joined_blocks(Seq::<BlockView>::empty()) =~= Seq::<char>::empty());
    assert(Seq::<char>::empty() + block_text(block) =~= block_text(block));
}

/// What is the operator's comes along to another screen, and nothing else of the old
/// one does.
pub proof fn law_what_comes_along_to_another_screen(old_screen: App, next: App)
    ensures
        ({
            let now = next.adopting(old_screen.operator_state());
            &&& now.composer == old_screen.composer
            &&& now.interactions == old_screen.interactions
            &&& now.recent_models == old_screen.recent_models
            &&& now.outbox.contract == old_screen.outbox.contract
            &&& now.files.show_all == old_screen.files.show_all
            &&& now.timeline.conversation_only == old_screen.timeline.conversation_only
            &&& now.preview.open == old_screen.preview.open
            &&& now.preview.mode == old_screen.preview.mode
            &&& now.preview.target == old_screen.preview.target
            &&& now.outbox.queued == next.outbox.queued
            &&& now.timeline.entries == next.timeline.entries && now.timeline.selected
                == next.timeline.selected && now.timeline.follow == next.timeline.follow
                && now.timeline.show_minor == next.timeline.show_minor
            &&& now == (App {
                composer: now.composer,
                interactions: now.interactions,
                recent_models: now.recent_models,
                outbox: now.outbox,
                files: now.files,
                timeline: now.timeline,
                preview: now.preview,
                ..next
            })
        }),
{
}

/// The model can be chosen before a launch, and between turns of an agent that can
/// change it; never while a turn runs or after the session.
pub proof fn law_when_the_model_can_be_chosen(app: App)
    ensures
        app.activity.status == Status::Pending ==> app.configurable(),
        app.activity.status == Status::Idle ==> app.configurable() == (app.selection.provider
            == Provider::Codex || app.selection.provider == Provider::Claude),
        app.activity.status != Status::Pending && app.activity.status != Status::Idle
            ==> !app.configurable(),
{
}

/// Before a launch every choice is taken as it is. A live session keeps its agent, and
/// one whose agent cannot change its effort keeps that; what it is to change it is told.
pub proof fn law_what_a_choice_changes(before: App, chosen: Selection, after: App)
    requires
        before.confirms(chosen, after),
    ensures
        after.launcher is None,
        before.activity.status == Status::Pending ==> after.selection == chosen && after.request
            == before.request && after.recent_models@.len() > 0 && after.recent_models@[0]
            == chosen.model,
        before.activity.status != Status::Pending ==> {
            &&& after.selection.provider == before.selection.provider
            &&& chosen.provider != before.selection.provider ==> after.selection == before.selection
                && after.request == before.request && after.notices.messages@.len()
                == before.notices.messages@.len() + 1
            &&& chosen.provider == before.selection.provider ==> after.selection.model
                == chosen.model
            &&& chosen.provider == before.selection.provider && chosen.provider != Provider::Claude
                ==> after.selection == chosen
            &&& chosen.provider == before.selection.provider && chosen.provider == Provider::Claude
                ==> after.selection.effort == before.selection.effort
            &&& chosen.provider == before.selection.provider && chosen.model@
                != before.selection.model@ ==> after.request == Some(Request::ApplySelection)
            &&& chosen.provider == before.selection.provider && chosen.model@
                == before.selection.model@ && chosen.effort == before.selection.effort
                ==> after.request == before.request
        },
        after.timeline == before.timeline && after.session_id == before.session_id && after.launch
            == before.launch && after.composer == before.composer,
{
    assert(before.notices.said().len() == before.notices.messages@.len());
    assert(after.notices.said().len() == after.notices.messages@.len());
}

/// An agent is called by its name where it is listed.
pub proof fn law_what_an_agent_is_called(app: App, i: int)
    requires
        0 <= i < app.catalog.providers@.len(),
        forall|j: int|
            0 <= j < i ==> (#[trigger] app.catalog.providers@[j]).provider
                != app.catalog.providers@[i].provider,
    ensures
        app.agent_name(app.catalog.providers@[i].provider) == app.catalog.providers@[i].name@,
{
    crate::laws::session::law_an_agent_is_found_at_its_row(app.catalog, i);
}

/// A quota reading is listed, logged and told; as an error where nothing is left, and
/// as a warning otherwise.
pub proof fn law_a_quota_reading_is_told(
    before: App,
    reading: QuotaEvent,
    description: String,
    after: App,
)
    requires
        before.notes_quota(reading, description, after),
    ensures
        after.quota.items@.last() == reading,
        after.quota.items@.len() == before.quota.items@.len() + 1,
        after.log.items@.last().message == description,
        after.log.items@.len() == before.log.items@.len() + 1,
        reading.status == QuotaStatus::Exhausted ==> after.log.items@.last().level
            == LogLevel::Error,
        reading.status != QuotaStatus::Exhausted ==> after.log.items@.last().level
            == LogLevel::Warn,
        after.notices.said().last() == description@,
        after.timeline == before.timeline && after.activity == before.activity,
{
}

/// The wire line behind the selected entry is the one it came from. While the list
/// follows there is none.
pub proof fn law_the_wire_line_behind_an_entry(app: App)
    ensures
        app.timeline.follow ==> app.selected_line() is None,
        !app.timeline.follow && app.timeline.selected < app.timeline.entries@.len()
            ==> app.selected_line() == app.timeline.entries@[app.timeline.selected as int].raw_index,
{
}

/// A view that is up is closed by asking for it, and any other is opened.
pub proof fn law_a_view_is_opened_and_closed(app: App, view: View)
    ensures
        app.view != view ==> app.toggled(view) == view,
        app.view == view ==> app.toggled(view) == View::Events,
{
}

/// The end of a session is recorded as it was reported.
pub proof fn law_the_end_is_recorded(app: App, end: InteractionEnd)
    ensures
        app.ended(end).activity.status == (Status::Ended {
            exit_code: end.exit_code,
            error: end.error,
        }),
        app.ended(end).activity.events == app.activity.events,
        app.ended(end) == (App { activity: app.ended(end).activity, ..app }),
{
}

/// Another entry is previewed from its top, and the same one from where it was.
pub proof fn law_another_entry_is_previewed_from_its_top(app: App, timeline: Timeline)
    ensures
        app.at(timeline).timeline == timeline,
        timeline.selected != app.timeline.selected ==> app.at(timeline).preview.scroll.shown() == 0,
        timeline.selected == app.timeline.selected ==> app.at(timeline).preview == app.preview,
        app.at(timeline).preview.open == app.preview.open && app.at(timeline).preview.mode
            == app.preview.mode && app.at(timeline).preview.target == app.preview.target,
        app.at(timeline) == (App { timeline, preview: app.at(timeline).preview, ..app }),
        app.timeline.entries@.len() > 0 && app.timeline.entries@.len() <= usize::MAX
            ==> app.on_tail().timeline.selected == app.timeline.entries@.len() - 1
            && app.on_tail().preview.scroll.shown() == 0,
{
}

/// Files are listed of the selected entry, or of every one: each that it changed, and
/// each that it names and that is there.
pub proof fn law_which_files_are_listed(
    app: App,
    around: Surroundings,
    paths: Seq<String>,
    e: int,
    path: Seq<char>,
)
    requires
        app.lists_files(around, paths),
        app.described_by(around),
        0 <= e < app.timeline.entries@.len(),
    ensures
        (app.files.show_all || e == app.timeline.selected) && holds(around.texts@[e].changed@, path)
            ==> holds(paths, path),
        (app.files.show_all || e == app.timeline.selected) && mentions(
            around.texts@[e],
            view_of(app.workspace.root),
            around.present@,
            path,
        ) ==> holds(paths, path),
        !app.files.show_all && app.timeline.selected == e && holds(paths, path) ==> mentions(
            around.texts@[e],
            view_of(app.workspace.root),
            around.present@,
            path,
        ),
{
    let said = around.texts@[e];
    assert(app.listed(e) == (app.files.show_all || e == app.timeline.selected));
    assert(holds(said.changed@, path) ==> mentions(
        said,
        view_of(app.workspace.root),
        around.present@,
        path,
    ));
}

/// Paths start from the Workspace's root where there is one.
pub proof fn law_where_paths_start(app: App, around: Surroundings)
    ensures
        app.workspace.root matches Some(root) ==> app.root_in(around) == Some(root@),
        app.workspace.root is None ==> (around.current_directory matches Some(directory)
            ==> app.root_in(around) == Some(directory@)),
        app.workspace.root is None && around.current_directory is None ==> app.root_in(around)
            is None,
{
}

/// Over an answer the selected file is the location in the selected row, below the root
/// unless it stands at the root of the disk.
pub proof fn law_which_file_of_an_answer_is_selected(
    app: App,
    around: Surroundings,
    path: Option<Seq<char>>,
    root: Seq<char>,
)
    requires
        app.selects_file(around, path),
        app.view == View::Answer,
        app.root_in(around) == Some(root),
    ensures
        app.answer.file() is None ==> path is None,
        app.answer.file() matches Some(file) ==> path == Some(
            if rooted(file.path@) {
                file.path@
            } else {
                under(root, file.path@)
            },
        ),
{
}

/// The preview follows the newest command where it is to and there is one, and
/// otherwise the selection.
pub proof fn law_what_is_previewed(app: App, i: int)
    requires
        app.timeline.wf(),
        0 <= i < app.timeline.entries@.len(),
    ensures
        app.preview.target == PreviewTarget::Selection && app.timeline.selected == i
            ==> app.previewed() == Some(i),
        app.preview.target == PreviewTarget::Command && app.timeline.is_command(i) && (forall|j: int|
            i < j < app.timeline.entries@.len() ==> !(#[trigger] app.timeline.is_command(j)))
            ==> app.previewed() == Some(i),
        app.preview.target == PreviewTarget::Command && app.timeline.selected == i && (forall|j: int|
            0 <= j < app.timeline.entries@.len() ==> !(#[trigger] app.timeline.is_command(j)))
            ==> app.previewed() == Some(i),
{
    let n = app.timeline.entries@.len() as int;
    if app.timeline.is_command(i) && (forall|j: int|
        i < j < n ==> !(#[trigger] app.timeline.is_command(j))) {
        lemma_command_at(app.timeline, n, i);
    }
    if forall|j: int| 0 <= j < n ==> !(#[trigger] app.timeline.is_command(j)) {
        lemma_no_command(app.timeline, n);
    }
}

proof fn lemma_command_at(t: Timeline, n: int, i: int)
    requires
        0 <= i < n,
        t.is_command(i),
        forall|j: int| i < j < n ==> !(#[trigger] t.is_command(j)),
    ensures
        t.command_before(n) == Some(i),
    decreases n,
{
    if i < n - 1 {
        assert(!t.is_command(n - 1));
        lemma_command_at(t, n - 1, i);
    }
}

proof fn lemma_no_command(t: Timeline, n: int)
    requires
        forall|j: int| 0 <= j < n ==> !(#[trigger] t.is_command(j)),
    ensures
        t.command_before(n) is None,
    decreases n,
{
    if n > 0 {
        assert(!t.is_command(n - 1));
        lemma_no_command(t, n - 1);
    }
}

/// What is copied is what the view shows: of an entry its detail in full, or its line
/// where it has no more; among the wire lines the selected one, whole; of an answer what
/// its selected row says.
pub proof fn law_what_is_copied(app: App, around: Surroundings, copied: Option<Seq<char>>)
    requires
        app.copies(around, copied),
    ensures
        ({
            let detail = joined_blocks(block_views(around.detail@));
            app.view == View::Events || app.view == View::Preview ==> {
                &&& app.previewed() is None ==> copied is None
                &&& app.previewed() is Some && detail.len() > 0 ==> copied == Some(detail)
                &&& app.previewed() is Some && detail.len() == 0 ==> copied == Some(
                    around.summary@,
                )
            }
        }),
        app.view == View::Raw && app.raw.selected < app.raw.lines@.len() ==> copied == Some(
            app.raw.lines@[app.raw.selected as int].text@,
        ),
        app.view == View::Raw && app.raw.lines@.len() == 0 ==> copied is None,
        app.view == View::Files ==> app.selects_file(around, copied),
        app.view == View::Answer ==> copied == app.answer.copied(),
        app.view == View::Answer ==> (app.answer.file() matches Some(file) ==> copied == Some(
            located(file),
        )),
        app.view == View::Log || app.view == View::Quota || app.view == View::Transcript || app.view
            == View::Driva ==> copied is None,
{
}

} // verus!
