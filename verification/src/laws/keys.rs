//! What a key does: on the list, in the message box, and in what is open over them.

use vstd::prelude::*;
use vstd::view::View as _;

use crate::activity::Status;
use crate::app::{App, Focus, Request, Surroundings, View};
use crate::files::FilesView;
use crate::insert::{Insert, Outcome};
use crate::key::{Key, KeyCode};
use crate::keys::{
    directory_asked, dispatches, insert_keyed, last_of, launcher_keyed, leaves, meaning, mount_keyed, performs,
    references_keyed, sends, settles, writes_key, writing, Action, Dispatch, Kept, Wanted,
};
use crate::launch::{can_edit, LaunchScope};
use crate::laws::launch::{cursor_of, mounts_of};
use crate::laws::order::law_strict_order_holds_nothing_twice;
use crate::laws::text::law_what_stands_between_spaces;
use crate::notes::Scope;
use crate::protocol::Contract;
use crate::scroll::SCROLL_PAGE;
use crate::session::Live;
use crate::order::strictly_ordered;
use crate::text::{holds, is_control, is_space, starts, trimmed, views};
use crate::timeline::Step;

verus! {

/// Whether a key on the list, with no fold begun, leads from one screen to another and
/// leaves this to do.
pub open spec fn pressed(
    before: App,
    live: Live,
    code: KeyCode,
    around: Surroundings,
    after: App,
    action: Action,
) -> bool {
    let command = meaning(before.view, before.preview.open, false, code);
    performs(before, live, command, around, after, action) && leaves(before, live, command, action)
}

/// Whether a key asks for this of the event loop, and does nothing else.
pub open spec fn only_asks(before: App, after: App, request: Request, action: Action) -> bool {
    after == (App { request: Some(request), ..before }) && action is Nothing
}

// --- In every view -----------------------------------------------------------

/// These letters ask for the same in every view.
pub proof fn law_letters_that_ask(
    before: App,
    live: Live,
    code: KeyCode,
    around: Surroundings,
    after: App,
    action: Action,
)
    requires
        pressed(before, live, code, around, after, action),
    ensures
        code == KeyCode::Char('q') ==> only_asks(before, after, Request::Quit, action),
        code == KeyCode::Char('V') ==> only_asks(before, after, Request::Workspace, action),
        code == KeyCode::Char('A') ==> only_asks(before, after, Request::Sessions, action),
        code == KeyCode::Char('N') ==> only_asks(before, after, Request::Reset, action),
        code == KeyCode::Char('n') ==> only_asks(before, after, Request::NewSession, action),
        code == KeyCode::Char('W') ==> only_asks(
            before,
            after,
            Request::SetWorktreesEnabled(!before.workspace.worktrees_enabled),
            action,
        ),
        code == KeyCode::Char('a') && before.view != View::Files ==> only_asks(
            before,
            after,
            Request::Interactions,
            action,
        ),
{
}

/// A letter that shows a view shows it from every other, and returns to the events from
/// its own.
pub proof fn law_letters_that_show(
    before: App,
    live: Live,
    code: KeyCode,
    around: Surroundings,
    after: App,
    action: Action,
    view: View,
)
    requires
        pressed(before, live, code, around, after, action),
        code == KeyCode::Char('r') && view == View::Raw || code == KeyCode::Char('l') && view
            == View::Log || code == KeyCode::Char('Q') && view == View::Quota || code
            == KeyCode::Char('t') && view == View::Transcript || code == KeyCode::Char('d') && view
            == View::Driva || code == KeyCode::Char('f') && view == View::Files || code
            == KeyCode::Char('X') && view == View::Answer || code == KeyCode::Char('P') && view
            == View::Preview,
    ensures
        before.view != view ==> after.view == view,
        before.view == view ==> after.view == View::Events,
        after == (App {
            view: after.view,
            raw: after.raw,
            preview: after.preview,
            request: after.request,
            ..before
        }),
        view != View::Raw ==> after.raw == before.raw,
        after.raw.lines == before.raw.lines,
        view != View::Files ==> after.preview == before.preview,
        view == View::Files && before.view != View::Files ==> after.preview.open,
        view == View::Quota ==> after.request == Some(Request::Quota),
        view == View::Answer && before.view != View::Answer ==> after.request == Some(
            Request::Answer { contract: None },
        ),
        view != View::Quota && view != View::Answer ==> after.request == before.request,
        action is Nothing,
{
}

/// What acts on a live interaction acts on that one, and without one it says so.
pub proof fn law_letters_that_act(
    before: App,
    live: Live,
    code: KeyCode,
    around: Surroundings,
    after: App,
    action: Action,
)
    requires
        pressed(before, live, code, around, after, action),
    ensures
        live matches Live::Running { session_id, .. } ==> {
            &&& code == KeyCode::Char('s') ==> action == Action::Interrupt(session_id) && after
                == before
            &&& code == KeyCode::Char('S') ==> action == Action::Stop(session_id) && after == before
            &&& code == KeyCode::Char('!') ==> action == Action::Shell(before.session_id) && after
                == before
        },
        live !is Running ==> {
            &&& code == KeyCode::Char('s') ==> action is Nothing && after.log.items@.len()
                == before.log.items@.len() + 1
            &&& code == KeyCode::Char('S') ==> action is Nothing
            &&& code == KeyCode::Char('!') ==> action is Nothing && after.notices.messages@.len()
                == before.notices.messages@.len() + 1
        },
        code == KeyCode::Char('b') ==> after == before && (action matches Action::Branch {
            session_id,
            ..
        } && session_id == before.session_id),
        code == KeyCode::Char('i') && before.view != View::Preview ==> after == (App {
            focus: Focus::Input,
            ..before
        }),
        code == KeyCode::Char('L') && before.configurable() ==> after.launcher is Some && after == (
        App { launcher: after.launcher, ..before }),
        code == KeyCode::Char('L') && !before.configurable() ==> after == before,
        code == KeyCode::Char('E') ==> (after.notes.editor matches Some(editor) && editor.session
            == before.notes.session && editor.workspace == before.notes.workspace && (editor.scope
            == Scope::Session <==> before.session_id@.len() > 0)),
{
    let said = |a: App| a.notices.said();
    assert(said(after).len() == after.notices.messages@.len());
    assert(said(before).len() == before.notices.messages@.len());
    assert(crate::app::log_views(after.log.items@).len() == after.log.items@.len());
    assert(crate::app::log_views(before.log.items@).len() == before.log.items@.len());
}

// --- Among the events --------------------------------------------------------

/// Letters and arrows move through the events: by the line, by what holds detail, and
/// to both ends.
pub proof fn law_keys_that_walk_the_events(
    before: App,
    live: Live,
    code: KeyCode,
    around: Surroundings,
    after: App,
    action: Action,
)
    requires
        before.view == View::Events,
        pressed(before, live, code, around, after, action),
    ensures
        code == KeyCode::Char('j') ==> after.timeline == before.timeline.forward(Step::Line),
        code == KeyCode::Char('k') ==> after.timeline == before.timeline.backward(Step::Line),
        code == KeyCode::Char('J') || code == KeyCode::Down ==> after.timeline
            == before.timeline.forward(Step::WithDetail),
        code == KeyCode::Char('K') || code == KeyCode::Up ==> after.timeline
            == before.timeline.backward(Step::WithDetail),
        code == KeyCode::Char('g') ==> after.timeline == before.timeline.first(),
        code == KeyCode::Char('G') ==> after.timeline == before.timeline.last(),
        code == KeyCode::Char('m') ==> after.timeline.show_minor != before.timeline.show_minor
            && after.timeline.conversation_only == before.timeline.conversation_only
            && after.timeline.entries == before.timeline.entries,
        code == KeyCode::Char('c') ==> after.timeline.conversation_only
            != before.timeline.conversation_only && after.timeline.show_minor
            == before.timeline.show_minor && after.timeline.entries == before.timeline.entries,
        code == KeyCode::Char('z') ==> after == before,
        code == KeyCode::Char('p') ==> after.preview.open != before.preview.open && after.timeline
            == before.timeline,
{
}

/// Opening an entry opens that one alone or closes the rest with it, and all of them
/// are opened or closed by a fold.
pub proof fn law_keys_that_fold(
    before: App,
    live: Live,
    code: KeyCode,
    fold: bool,
    around: Surroundings,
    after: App,
    action: Action,
    i: int,
)
    requires
        before.view == View::Events,
        performs(
            before,
            live,
            meaning(before.view, before.preview.open, fold, code),
            around,
            after,
            action,
        ),
        0 <= i < before.timeline.entries@.len(),
    ensures
        !fold && (code == KeyCode::Char(' ') || code == KeyCode::Enter || code == KeyCode::Char(
            'o',
        )) ==> (i == before.timeline.selected ==> after.timeline.entries@[i].expanded
            != before.timeline.entries@[i].expanded) && (i != before.timeline.selected
            ==> after.timeline.entries@[i].expanded == before.timeline.entries@[i].expanded),
        !fold && code == KeyCode::Char('O') ==> after.timeline.entries@[i].expanded == (i
            == before.timeline.selected),
        fold && code == KeyCode::Char('R') ==> after.timeline.entries@[i].expanded,
        fold && code == KeyCode::Char('M') ==> !after.timeline.entries@[i].expanded,
        fold && code != KeyCode::Char('R') && code != KeyCode::Char('M') ==> after == before,
        fold ==> after.timeline.entries@.len() == before.timeline.entries@.len()
            && after.timeline.entries@[i].event == before.timeline.entries@[i].event
            && after.timeline.selected == before.timeline.selected,
{
}

/// Over the events and in the preview the same keys change what is previewed. In the
/// full preview the small letters move its text, and the large ones the entry.
pub proof fn law_keys_that_change_the_preview(
    before: App,
    live: Live,
    code: KeyCode,
    around: Surroundings,
    after: App,
    action: Action,
)
    requires
        before.view == View::Preview || (before.view == View::Events && before.preview.open),
        pressed(before, live, code, around, after, action),
    ensures
        code == KeyCode::Char('v') ==> after.preview.mode != before.preview.mode
            && after.preview.target == before.preview.target && after.preview.scroll.shown() == 0,
        code == KeyCode::Char('C') ==> after.preview.target != before.preview.target
            && after.preview.mode == before.preview.mode && after.preview.scroll.shown() == 0,
        code == KeyCode::PageDown ==> after.preview.scroll == before.preview.scroll.down(
            SCROLL_PAGE,
        ),
        code == KeyCode::PageUp ==> after.preview.scroll == before.preview.scroll.up(SCROLL_PAGE),
        code == KeyCode::PageDown || code == KeyCode::PageUp || code == KeyCode::Char('v') || code
            == KeyCode::Char('C') ==> after == (App { preview: after.preview, ..before })
            && after.preview.open == before.preview.open,
        before.view == View::Preview ==> {
            &&& code == KeyCode::Char('j') ==> after.preview.scroll == before.preview.scroll.down(1)
                && after.timeline == before.timeline
            &&& code == KeyCode::Char('k') ==> after.preview.scroll == before.preview.scroll.up(1)
                && after.timeline == before.timeline
            &&& code == KeyCode::Char('J') || code == KeyCode::Down ==> after.timeline
                == before.timeline.forward(Step::Line)
            &&& code == KeyCode::Char('K') || code == KeyCode::Up ==> after.timeline
                == before.timeline.backward(Step::Line)
            &&& code == KeyCode::Char('g') ==> after.timeline == before.timeline.first()
            &&& code == KeyCode::Char('G') ==> after.timeline == before.timeline.last()
        },
{
}

/// Without the preview its keys do nothing.
pub proof fn law_a_closed_preview_takes_no_keys(
    before: App,
    live: Live,
    code: KeyCode,
    around: Surroundings,
    after: App,
    action: Action,
)
    requires
        before.view == View::Events,
        !before.preview.open,
        pressed(before, live, code, around, after, action),
        code == KeyCode::Char('v') || code == KeyCode::Char('C') || code == KeyCode::PageDown || code
            == KeyCode::PageUp,
    ensures
        after == before,
        action is Nothing,
{
}

/// The key that copies puts on the clipboard what the view shows, or says that there is
/// nothing.
pub proof fn law_the_key_that_copies(
    before: App,
    live: Live,
    around: Surroundings,
    after: App,
    action: Action,
)
    requires
        before.view == View::Events || before.view == View::Raw || before.view == View::Answer
            || before.view == View::Files || before.view == View::Preview,
        pressed(before, live, KeyCode::Char('y'), around, after, action),
    ensures
        action matches Action::Copy(text) ==> before.copies(around, Some(text@)) && after == before,
        action !is Copy ==> before.copies(around, None) && after.notices.said().len()
            == before.notices.said().len() + 1,
        before.view == View::Raw && before.raw.selected < before.raw.lines@.len() ==> (
        action matches Action::Copy(text) && text@
            == before.raw.lines@[before.raw.selected as int].text@),
{
}

// --- In the other views ------------------------------------------------------

/// Among the wire lines keys move the selection, and pages the panel beside it.
pub proof fn law_keys_among_the_wire_lines(
    before: App,
    live: Live,
    code: KeyCode,
    around: Surroundings,
    after: App,
    action: Action,
)
    requires
        before.view == View::Raw,
        before.wf(),
        before.raw.lines@.len() > 0,
        pressed(before, live, code, around, after, action),
    ensures
        code == KeyCode::Char('j') || code == KeyCode::Down ==> (before.raw.selected + 1
            < before.raw.lines@.len() ==> after.raw.selected == before.raw.selected + 1) && after
            == (App { raw: after.raw, ..before }),
        code == KeyCode::Char('k') || code == KeyCode::Up ==> (before.raw.selected > 0
            ==> after.raw.selected == before.raw.selected - 1) && after == (App {
            raw: after.raw,
            ..before
        }),
        code == KeyCode::Char('g') ==> after.raw.selected == 0,
        code == KeyCode::Char('G') ==> after.raw.selected == before.raw.lines@.len() - 1
            && after.raw.follow,
        code == KeyCode::PageDown ==> after.raw.preview == before.raw.preview.down(SCROLL_PAGE)
            && after.raw.selected == before.raw.selected,
        code == KeyCode::PageUp ==> after.raw.preview == before.raw.preview.up(SCROLL_PAGE)
            && after.raw.selected == before.raw.selected,
        after.raw.lines == before.raw.lines,
{
    crate::laws::views::law_walking_the_wire(before.raw);
    assert(before.raw.lines.len() <= usize::MAX);
}

/// The logs move by one entry toward the newest or away from it, and the transcript by
/// one line.
pub proof fn law_keys_in_the_logs(
    before: App,
    live: Live,
    code: KeyCode,
    around: Surroundings,
    after: App,
    action: Action,
)
    requires
        before.wf(),
        pressed(before, live, code, around, after, action),
    ensures
        before.view == View::Log ==> {
            &&& (code == KeyCode::Char('j') || code == KeyCode::Down) && before.log.back > 0
                ==> after.log.back == before.log.back - 1
            &&& (code == KeyCode::Char('k') || code == KeyCode::Up) && before.log.back + 1
                < before.log.items@.len() ==> after.log.back == before.log.back + 1
            &&& code == KeyCode::Char('g') && before.log.items@.len() > 0 ==> after.log.back
                == before.log.items@.len() - 1
            &&& code == KeyCode::Char('G') ==> after.log.back == 0
        },
        before.view == View::Quota ==> {
            &&& (code == KeyCode::Char('j') || code == KeyCode::Down) && before.quota.back > 0
                ==> after.quota.back == before.quota.back - 1
            &&& (code == KeyCode::Char('k') || code == KeyCode::Up) && before.quota.back + 1
                < before.quota.items@.len() ==> after.quota.back == before.quota.back + 1
        },
        before.view == View::Transcript ==> {
            &&& (code == KeyCode::Char('j') || code == KeyCode::Down)
                && before.transcript.shown() < before.transcript.limit ==> after.transcript.shown()
                == before.transcript.shown() + 1
            &&& (code == KeyCode::Char('k') || code == KeyCode::Up) && before.transcript.shown() > 0
                ==> after.transcript.shown() == before.transcript.shown() - 1
            &&& code == KeyCode::Char('g') ==> after.transcript.shown() == 0
            &&& code == KeyCode::Char('G') ==> after.transcript.shown() == before.transcript.limit
            &&& code == KeyCode::Char('c') ==> after.timeline.conversation_only
                != before.timeline.conversation_only
        },
{
    assert(before.log.items.len() <= usize::MAX);
    assert(before.quota.items.len() <= usize::MAX);
}

/// Over the answer keys walk its rows, and letters have it read anew under the shape
/// they name.
pub proof fn law_keys_over_the_answer(
    before: App,
    live: Live,
    code: KeyCode,
    around: Surroundings,
    after: App,
    action: Action,
)
    requires
        before.view == View::Answer,
        before.wf(),
        before.answer.row_count() <= usize::MAX,
        pressed(before, live, code, around, after, action),
    ensures
        code == KeyCode::Char('T') ==> only_asks(
            before,
            after,
            Request::Answer { contract: Some(Contract::Text) },
            action,
        ),
        code == KeyCode::Char('F') ==> only_asks(
            before,
            after,
            Request::Answer { contract: Some(Contract::Files) },
            action,
        ),
        code == KeyCode::Char('J') ==> only_asks(
            before,
            after,
            Request::Answer { contract: Some(Contract::Json) },
            action,
        ),
        code == KeyCode::Char('R') ==> only_asks(
            before,
            after,
            Request::Answer { contract: None },
            action,
        ),
        code == KeyCode::Char('e') && before.answer.file() is Some ==> only_asks(
            before,
            after,
            Request::EditFile,
            action,
        ),
        code == KeyCode::Char('e') && before.answer.file() is None ==> after == before,
        (code == KeyCode::Char('j') || code == KeyCode::Down) && before.answer.selected + 1
            < before.answer.row_count() ==> after.answer.selected == before.answer.selected + 1,
        (code == KeyCode::Char('k') || code == KeyCode::Up) && before.answer.selected > 0
            ==> after.answer.selected == before.answer.selected - 1,
        code == KeyCode::Char('g') ==> after.answer.selected == 0,
        code == KeyCode::Char('G') && before.answer.row_count() > 0 ==> after.answer.selected
            == before.answer.row_count() - 1,
        after.answer.answer == before.answer.answer,
{
    crate::laws::views::law_the_rows_of_an_answer(before.answer);
}

/// Over the files keys walk the list, and the large letters the entries that it is of.
/// Another entry, and another scope, is listed from its first file.
pub proof fn law_keys_over_the_files(
    before: App,
    live: Live,
    code: KeyCode,
    around: Surroundings,
    after: App,
    action: Action,
    paths: Seq<String>,
)
    requires
        before.view == View::Files,
        before.wf(),
        before.lists_files(around, paths),
        paths.len() <= usize::MAX,
        pressed(before, live, code, around, after, action),
    ensures
        code == KeyCode::Char('g') ==> after.files.selected == 0,
        (code == KeyCode::Char('k') || code == KeyCode::Up) && before.files.selected > 0
            ==> after.files.selected == before.files.selected - 1,
        code == KeyCode::Char('a') ==> after.files.show_all != before.files.show_all
            && after.files.selected == 0,
        code == KeyCode::Char('J') ==> after.timeline == before.timeline.forward(Step::Line)
            && after.files.selected == 0,
        code == KeyCode::Char('K') ==> after.timeline == before.timeline.backward(Step::Line)
            && after.files.selected == 0,
        code != KeyCode::Char('a') ==> after.files.show_all == before.files.show_all,
        code == KeyCode::Char('p') ==> after.preview.open != before.preview.open,
        code == KeyCode::Char('e') ==> after == before || only_asks(
            before,
            after,
            Request::EditFile,
            action,
        ),
        (code == KeyCode::Char('j') || code == KeyCode::Down) && before.files.selected + 1
            < paths.len() ==> after.files.selected == before.files.selected + 1,
        code == KeyCode::Char('G') && paths.len() > 0 ==> after.files.selected == paths.len() - 1,
{
    if code == KeyCode::Char('j') || code == KeyCode::Down {
        let others = choose|others: Seq<String>| #[trigger]
            before.lists_files(around, others) && after == (App {
                files: before.files.next(last_of(others)),
                ..before
            });
        lemma_as_many_files(before, around, paths, others);
    }
    if code == KeyCode::Char('G') {
        let others = choose|others: Seq<String>| #[trigger]
            before.lists_files(around, others) && after == (App {
                files: FilesView { selected: last_of(others), ..before.files },
                ..before
            });
        lemma_as_many_files(before, around, paths, others);
    }
}

proof fn lemma_as_many_files(app: App, around: Surroundings, a: Seq<String>, b: Seq<String>)
    requires
        app.lists_files(around, a),
        app.lists_files(around, b),
    ensures
        a.len() == b.len(),
{
    lemma_no_text_twice(a);
    lemma_no_text_twice(b);
    let x = views(a).to_set();
    let y = views(b).to_set();
    assert forall|path: Seq<char>| #[trigger] x.contains(path) == y.contains(path) by {
        lemma_held(a, path);
        lemma_held(b, path);
        assert(holds(a, path) == holds(b, path));
    }
    assert(x =~= y);
    views(a).unique_seq_to_set();
    views(b).unique_seq_to_set();
}

proof fn lemma_held(list: Seq<String>, path: Seq<char>)
    ensures
        views(list).to_set().contains(path) == holds(list, path),
{
    let all = views(list);
    if holds(list, path) {
        let i = choose|i: int| 0 <= i < list.len() && (#[trigger] list[i])@ == path;
        assert(all[i] == path);
    }
    if all.contains(path) {
        let i = choose|i: int| 0 <= i < all.len() && all[i] == path;
        assert(list[i]@ == path);
    }
}

proof fn lemma_no_text_twice(list: Seq<String>)
    requires
        strictly_ordered(list),
    ensures
        views(list).no_duplicates(),
{
    let all = views(list);
    assert forall|i: int, j: int| 0 <= i < all.len() && 0 <= j < all.len() && i != j implies all[i]
        != all[j] by {
        if i < j {
            law_strict_order_holds_nothing_twice(list, i, j);
        } else {
            law_strict_order_holds_nothing_twice(list, j, i);
        }
    }
}

/// Over the launch policy keys edit what they name, as long as it can be edited.
pub proof fn law_keys_over_the_policy(
    before: App,
    live: Live,
    code: KeyCode,
    around: Surroundings,
    after: App,
    action: Action,
)
    requires
        before.view == View::Driva,
        pressed(before, live, code, around, after, action),
    ensures
        code == KeyCode::Tab || code == KeyCode::BackTab ==> after.launch.scope
            != before.launch.scope && after.launch.workspace == before.launch.workspace
            && after.launch.interaction == before.launch.interaction,
        can_edit(before.activity.status) ==> {
            &&& code == KeyCode::Char('T') ==> only_asks(before, after, Request::Templates, action)
            &&& code == KeyCode::Char('m') ==> (after.launch.prompt matches Some(text) && text@.len()
                == 0)
            &&& code == KeyCode::Char('g') ==> after == before && action == Action::FindHistory(
                before.workspace.root,
            )
            &&& code == KeyCode::Char('D') ==> after == before && (
            action matches Action::SavePolicy(policy) && policy@ == before.launch.interaction@)
            &&& code == KeyCode::Char('I') && before.launch.scope == LaunchScope::Interaction
                ==> after.launch.interaction.standalone != before.launch.interaction.standalone
            &&& code == KeyCode::Char('w') && before.launch.scope == LaunchScope::Interaction
                ==> after.launch.interaction.network != before.launch.interaction.network
            &&& code == KeyCode::Char('x') && before.launch.scope == LaunchScope::Interaction
                && mounts_of(before.launch, before.launch.scope).len() > 0 ==> mounts_of(
                after.launch,
                before.launch.scope,
            ).len() + 1 == mounts_of(before.launch, before.launch.scope).len()
        },
        !can_edit(before.activity.status) && (code == KeyCode::Char('T') || code == KeyCode::Char(
            'm',
        ) || code == KeyCode::Char('g') || code == KeyCode::Char('D') || code == KeyCode::Char('I')
            || code == KeyCode::Char('w') || code == KeyCode::Char('x') || code == KeyCode::Char(
            'U',
        )) ==> after.launch == before.launch && after.request == before.request
            && action is Nothing && after.notices.said().len() == before.notices.said().len() + 1,
        (code == KeyCode::Char('j') || code == KeyCode::Down) && cursor_of(
            before.launch,
            before.launch.scope,
        ) + 1 < mounts_of(before.launch, before.launch.scope).len() ==> cursor_of(
            after.launch,
            before.launch.scope,
        ) == cursor_of(before.launch, before.launch.scope) + 1,
        (code == KeyCode::Char('k') || code == KeyCode::Up) && cursor_of(
            before.launch,
            before.launch.scope,
        ) > 0 && cursor_of(before.launch, before.launch.scope) < mounts_of(
            before.launch,
            before.launch.scope,
        ).len() ==> cursor_of(after.launch, before.launch.scope) == cursor_of(
            before.launch,
            before.launch.scope,
        ) - 1,
{
    assert(before.launch.workspace.mounts.len() <= usize::MAX);
    assert(before.launch.interaction.mounts.len() <= usize::MAX);
}

// --- Over the screen ---------------------------------------------------------

/// Over the files that a reply cites keys walk the list, and choosing one asks for that
/// file and closes it.
pub proof fn law_keys_over_the_cited_files(before: App, code: KeyCode, after: App)
    requires
        before.references matches Some(list) && list.selected < list.references@.len(),
        references_keyed(before, code, after),
    ensures
        before.references matches Some(list) ==> {
            &&& code == KeyCode::Enter ==> after.references is None && after.request == Some(
                Request::OpenPath(list.references@[list.selected as int].resolved),
            )
            &&& code == KeyCode::Esc || code == KeyCode::Char('q') ==> after.references is None
                && after.request == before.request
            &&& code != KeyCode::Enter && code != KeyCode::Esc && code != KeyCode::Char('q') ==> (
            after.references matches Some(now) && now.references == list.references && after.request
                == before.request && {
                &&& (code == KeyCode::Char('j') || code == KeyCode::Down) && list.selected + 1
                    < list.references@.len() ==> now.selected == list.selected + 1
                &&& (code == KeyCode::Char('k') || code == KeyCode::Up) && list.selected > 0
                    ==> now.selected == list.selected - 1
                &&& code == KeyCode::Char('g') ==> now.selected == 0
                &&& code == KeyCode::Char('G') ==> now.selected == list.references@.len() - 1
            })
        },
        after == (App { references: after.references, request: after.request, ..before }),
{
    assert(before.references matches Some(list) ==> list.references.len() <= usize::MAX);
}

/// In the launch picker keys move between rows and columns, round the three columns.
/// Confirming takes over what it describes; only one way of it is kept as the default.
pub proof fn law_keys_in_the_launch_picker(before: App, code: KeyCode, after: App, kept: Kept)
    requires
        before.launcher is Some,
        launcher_keyed(before, code, after, kept),
    ensures
        kept == Kept::ModelsAndSelection <==> code == KeyCode::Char('D'),
        kept == Kept::Models <==> code == KeyCode::Enter,
        code == KeyCode::Esc || code == KeyCode::Char('q') ==> after == (App {
            launcher: None,
            ..before
        }),
        code == KeyCode::Enter || code == KeyCode::Char('D') ==> after.launcher is None,
        before.launcher matches Some(launcher) ==> {
            &&& (code == KeyCode::Enter || code == KeyCode::Char('D')) && before.activity.status
                == Status::Pending ==> after.selection == launcher.described(before.catalog)
            &&& code == KeyCode::Down || code == KeyCode::Char('j') || code == KeyCode::Char('J')
                ==> after.launcher == Some(launcher.lower(before.catalog))
            &&& code == KeyCode::Up || code == KeyCode::Char('k') || code == KeyCode::Char('K')
                ==> after.launcher == Some(launcher.upper(before.catalog))
            &&& code == KeyCode::Right || code == KeyCode::Char('l') || code == KeyCode::Tab ==> (
            after.launcher matches Some(now) && now.column == launcher.column.after()
                && now.provider == launcher.provider && now.model == launcher.model && now.effort
                == launcher.effort)
            &&& code == KeyCode::Left || code == KeyCode::Char('h') || code == KeyCode::BackTab ==> (
            after.launcher matches Some(now) && now.column == launcher.column.before()
                && now.provider == launcher.provider && now.model == launcher.model && now.effort
                == launcher.effort)
            &&& launcher.column.after().before() == launcher.column
            &&& launcher.column.after() != launcher.column && launcher.column.after().after()
                != launcher.column && launcher.column.after().after().after() == launcher.column
        },
        code != KeyCode::Enter && code != KeyCode::Char('D') ==> after == (App {
            launcher: after.launcher,
            ..before
        }),
{
}

/// In the mount prompt a printable character is added to its end, and erasing takes the
/// last one off. Leaving it drops the text and grants nothing.
pub proof fn law_keys_in_the_mount_prompt(
    before: App,
    code: KeyCode,
    home: Option<Seq<char>>,
    after: App,
    c: char,
)
    requires
        before.launch.prompt is Some,
        mount_keyed(before, code, home, after),
    ensures
        before.launch.prompt matches Some(text) ==> {
            &&& code == KeyCode::Char(c) && !is_control(c) ==> (
            after.launch.prompt matches Some(now) && now@ == text@.push(c))
            &&& code == KeyCode::Backspace && text@.len() > 0 ==> (
            after.launch.prompt matches Some(now) && now@ == text@.drop_last())
        },
        code == KeyCode::Esc ==> after.launch.prompt is None && after.launch.interaction
            == before.launch.interaction && after.request == before.request,
        code != KeyCode::Enter ==> after.launch.interaction == before.launch.interaction
            && after.launch.workspace == before.launch.workspace,
{
}

/// A path that is inserted stands behind what was in the message box, and the prompt is
/// closed. What is granted with it is granted to this interaction.
pub proof fn law_an_inserted_path_goes_into_the_message(before: App, outcome: Outcome, after: App)
    requires
        settles(before, outcome, after),
    ensures
        outcome matches Outcome::Insert { path, .. } ==> after.composer.text@
            == before.composer.text@ + path@ && after.insert is None && after.launch
            == before.launch,
        outcome matches Outcome::Grant { mount, path } ==> after.composer.text@
            == before.composer.text@ + path@ && after.insert is None && after.launch.workspace
            == before.launch.workspace && after.notices.said().len() == before.notices.said().len()
            + 1,
        outcome is Closed ==> after.insert is None && after.composer == before.composer,
        outcome is Open || outcome is Resolve || outcome is List ==> after == before,
        outcome matches Outcome::Notice(words) ==> after.notices.said().last() == words@
            && after.insert == before.insert && after.composer == before.composer,
{
    assert(after.composer@.text == after.composer.text@);
}

// --- The message box ---------------------------------------------------------

/// A character goes to the end of the message, a line break too; erasing takes the last
/// one off; leaving keeps what was written.
pub proof fn law_writing_a_message(
    before: App,
    live: Live,
    key: Key,
    after: App,
    left: Dispatch,
    c: char,
)
    requires
        writes_key(before, live, writing(key), after, left),
    ensures
        key.code == KeyCode::Char(c) && !key.control ==> after.composer.text@
            == before.composer.text@.push(c) && left is Nothing,
        key.code == KeyCode::Char(c) && key.control && c != 't' && c != 'w' && c != 'l' && c != 'f'
            ==> after.composer.text@ == before.composer.text@.push(c),
        key.code == KeyCode::Enter && key.alt ==> after.composer.text@
            == before.composer.text@.push('\n') && left is Nothing,
        key.code == KeyCode::Backspace && before.composer.text@.len() > 0 ==> after.composer.text@
            == before.composer.text@.drop_last(),
        key.code == KeyCode::Esc ==> after == (App { focus: Focus::List, ..before }),
        key.code == KeyCode::Up ==> after.composer@ == before.composer@.previous(),
        key.code == KeyCode::Down ==> after.composer@ == before.composer@.next(),
        key.control && key.code == KeyCode::Char('w') ==> after.composer.text@
            == crate::composer::without_last_word(before.composer.text@),
        key.control && key.code == KeyCode::Char('t') ==> after.outbox.contract
            == crate::session::next_shape(before.outbox.contract) && after.composer
            == before.composer && after.outbox.queued == before.outbox.queued,
        key.control && key.code == KeyCode::Char('f') ==> (after.insert matches Some(prompt)
            && prompt.base == before.workspace.root && prompt.can_grant == can_edit(
            before.activity.status,
        ) && (prompt.state matches Insert::Typing(text) && text@.len() == 0)),
        key.control && key.code == KeyCode::Char('l') && before.configurable()
            ==> after.launcher is Some,
        key.code == KeyCode::Tab ==> after == before,
        !(key.code == KeyCode::Enter && !key.alt) ==> left is Nothing && after.timeline
            == before.timeline && after.outbox.queued == before.outbox.queued,
{
    assert(after.composer@.text == after.composer.text@);
    assert(before.composer@.text == before.composer.text@);
}

/// Sending empties the message box, remembers what was sent, and gives the keys back to
/// the list. Blanks alone are not sent.
pub proof fn law_sending_a_message(before: App, live: Live, key: Key, after: App, left: Dispatch)
    requires
        key.code == KeyCode::Enter,
        !key.alt,
        writes_key(before, live, writing(key), after, left),
    ensures
        after.composer.text@.len() == 0,
        trimmed(before.composer.text@).len() == 0 ==> left is Nothing && after.composer@.history
            == before.composer@.history && after.focus == before.focus,
        trimmed(before.composer.text@).len() > 0 ==> after.focus == Focus::List
            && after.composer@.history == before.composer@.history.push(
            trimmed(before.composer.text@),
        ),
{
    assert(after.composer@.text == after.composer.text@);
    if trimmed(before.composer.text@).len() > 0 {
        let composer = choose|composer: crate::composer::Composer| #[trigger]
            sends(before, composer, live, after, left);
        assert(after.composer == composer);
    }
}

/// What is sent is the message itself, whichever way it goes, under the shape that was
/// asked for; and that is asked for once.
pub proof fn law_the_message_is_sent_whole(
    before: App,
    live: Live,
    message: Seq<char>,
    after: App,
    dispatch: Dispatch,
)
    requires
        dispatches(before, live, message, after, dispatch),
        !starts(message, "/cd "@),
    ensures
        dispatch matches Dispatch::Queue { session_id, turn } ==> turn.message@ == message
            && turn.contract == before.outbox.contract && turn.selection == before.selection
            && session_id == before.session_id,
        dispatch matches Dispatch::Send { session_id, turn } ==> turn.message@ == message
            && turn.contract == before.outbox.contract && turn.selection == before.selection
            && session_id == before.session_id,
        dispatch matches Dispatch::Resume { resume, message: text, contract } ==> text@ == message
            && contract == before.outbox.contract && resume.id == before.session_id
            && resume.launch@ == before.launch.interaction@,
        dispatch matches Dispatch::Create { message: text, .. } ==> text@ == message,
        dispatch !is Directory,
        dispatch is Nothing ==> live !is Pending && before.session_id@.len() == 0,
        after.outbox.contract is None,
        after.outbox.queued == before.outbox.queued,
{
    assert(directory_asked(message) is None);
}

/// A message that asks for another directory changes it for a live interaction, and is
/// sent to nobody. Blanks around the directory are no part of it.
pub proof fn law_a_directory_is_changed(
    before: App,
    live: Live,
    a: Seq<char>,
    directory: Seq<char>,
    b: Seq<char>,
    after: App,
    dispatch: Dispatch,
)
    requires
        forall|i: int| 0 <= i < a.len() ==> is_space(#[trigger] a[i]),
        forall|i: int| 0 <= i < b.len() ==> is_space(#[trigger] b[i]),
        directory.len() > 0 ==> !is_space(directory[0]) && !is_space(directory.last()),
        dispatches(before, live, "/cd "@ + (a + directory + b), after, dispatch),
    ensures
        live is Running && directory.len() > 0 ==> after == before && (
        dispatch matches Dispatch::Directory { session_id, directory: asked } && session_id
            == before.session_id && asked@ == directory),
        live !is Running || directory.len() == 0 ==> dispatch is Nothing && after.log.items@.len()
            == before.log.items@.len() + 1 && after == (App { log: after.log, ..before }),
{
    let message = "/cd "@ + (a + directory + b);
    assert(message.skip("/cd "@.len() as int) =~= a + directory + b);
    crate::laws::text::law_a_text_starts_with_its_prefix("/cd "@, a + directory + b, message);
    law_what_stands_between_spaces(a, directory, b);
    assert(directory_asked(message) == Some(directory));
    assert(crate::app::log_views(after.log.items@).len() == after.log.items@.len());
    assert(crate::app::log_views(before.log.items@).len() == before.log.items@.len());
}

/// What the path prompt asks of the disk is what the operator typed: nothing is looked
/// for without it.
pub proof fn law_a_closed_prompt_asks_nothing(
    before: App,
    key: Key,
    home: Option<String>,
    after: App,
    wanted: Wanted,
)
    requires
        before.insert is None,
        insert_keyed(before, key, home, after, wanted),
    ensures
        after == before,
        wanted is Nothing,
{
}

} // verus!
