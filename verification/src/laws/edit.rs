//! What is typed into the prompts, and what becomes of it.

use vstd::prelude::*;

use crate::app::App;
use crate::insert::{
    agree, agreement_from, candidates, completion, finds, grant_key, inserted_through,
    listing_for, mounted_notice, path_asked, shared_start, typed_directory, typed_name, typing_key, Insert, Listed, Outcome,
    Prompt,
};
use crate::key::{Key, KeyCode};
use crate::laws::show::{lemma_between, stands_in};
use crate::mount::{access_of, carried, home_expanded};
use crate::notes::{
    keyed, load_failures, noted_workspace, notes_of, save_failures, save_settled, to_save, Editor,
    Noted, Save, Scope,
};
use crate::path::{rooted, under};
use crate::protocol::Mount;
use crate::text::{is_control, starts, trimmed, view_of};

verus! {

// --- Paths that are typed ----------------------------------------------------

/// A typed path is taken without white space around it: as it is where it is absolute,
/// and otherwise against the base. Nothing is not a path, and a relative path without
/// a base is refused.
pub proof fn law_a_typed_path_is_absolute(base: Seq<char>, text: Seq<char>, home: Option<Seq<char>>)
    ensures
        trimmed(text).len() == 0 ==> path_asked(Some(base), text, home) is Err,
        trimmed(text).len() > 0 && rooted(home_expanded(trimmed(text), home)) ==> path_asked(
            None,
            text,
            home,
        ) == Ok::<Seq<char>, Seq<char>>(home_expanded(trimmed(text), home)) && path_asked(
            Some(base),
            text,
            home,
        ) == path_asked(None, text, home),
        trimmed(text).len() > 0 && !rooted(home_expanded(trimmed(text), home)) ==> path_asked(
            Some(base),
            text,
            home,
        ) == Ok::<Seq<char>, Seq<char>>(under(base, home_expanded(trimmed(text), home)))
            && path_asked(None, text, home) is Err,
{
}

/// A typed path is its directory and its name: the directory is empty or ends in a
/// slash, and no slash stands in the name.
pub proof fn law_a_typed_path_is_parted_at_its_last_slash(text: Seq<char>)
    ensures
        text == typed_directory(text) + typed_name(text),
        typed_directory(text).len() == 0 || typed_directory(text).last() == '/',
        !typed_name(text).contains('/'),
{
    lemma_parted(text);
}

proof fn lemma_parted(text: Seq<char>)
    ensures
        typed_directory(text).len() <= text.len(),
        typed_directory(text) == text.take(typed_directory(text).len() as int),
        text == typed_directory(text) + typed_name(text),
        typed_directory(text).len() == 0 || typed_directory(text).last() == '/',
        !typed_name(text).contains('/'),
    decreases text.len(),
{
    if text.len() == 0 || text.last() == '/' {
        assert(text.take(text.len() as int) =~= text);
        assert(typed_name(text) =~= Seq::<char>::empty());
        assert(text =~= typed_directory(text) + typed_name(text));
    } else {
        let rest = text.drop_last();
        lemma_parted(rest);
        let n = typed_directory(rest).len() as int;
        assert(rest.take(n) =~= text.take(n));
        assert(text =~= typed_directory(text) + typed_name(text));
        assert forall|i: int| 0 <= i < typed_name(text).len() implies typed_name(text)[i] != '/' by {
            if i < typed_name(rest).len() {
                assert(typed_name(text)[i] == typed_name(rest)[i]);
                assert(typed_name(rest).contains(typed_name(rest)[i]));
            } else {
                assert(typed_name(text)[i] == text.last());
            }
        }
    }
}

/// What may complete a name are the entries that start with it, all of them and no
/// others.
pub proof fn law_what_may_complete_a_name(entries: Seq<Listed>, prefix: Seq<char>, i: int)
    ensures
        0 <= i < entries.len() && starts(entries[i].name@, prefix) ==> candidates(
            entries,
            prefix,
        ).contains(entries[i]),
        0 <= i < candidates(entries, prefix).len() ==> starts(
            candidates(entries, prefix)[i].name@,
            prefix,
        ) && entries.contains(candidates(entries, prefix)[i]),
{
    let pick = |e: Listed| starts(e.name@, prefix);
    if 0 <= i < entries.len() && starts(entries[i].name@, prefix) {
        entries.lemma_filter_contains(pick, i);
    }
    if 0 <= i < candidates(entries, prefix).len() {
        entries.lemma_filter_pred(pick, i);
        entries.lemma_filter_contains_rev(pick, candidates(entries, prefix)[i]);
    }
}

proof fn lemma_agreement(entries: Seq<Listed>, n: nat)
    requires
        entries.len() > 0,
        agree(entries, n),
        n <= entries[0].name@.len(),
    ensures
        agree(entries, agreement_from(entries, n)),
        n <= agreement_from(entries, n) <= entries[0].name@.len(),
        agreement_from(entries, n) < entries[0].name@.len() ==> !agree(
            entries,
            agreement_from(entries, n) + 1,
        ),
    decreases entries[0].name@.len() - n,
{
    if n < entries[0].name@.len() && agree(entries, n + 1) {
        lemma_agreement(entries, n + 1);
    }
}

/// What names share is a start of each of them, and the longest there is: any start
/// that all of them have is no longer.
pub proof fn law_names_share_their_longest_start(entries: Seq<Listed>, i: int, other: Seq<char>)
    requires
        0 <= i < entries.len(),
    ensures
        starts(entries[i].name@, shared_start(entries)),
        (forall|j: int| 0 <= j < entries.len() ==> starts((#[trigger] entries[j]).name@, other))
            ==> other.len() <= shared_start(entries).len(),
{
    assert(agree(entries, 0)) by {
        assert forall|j: int| 0 <= j < entries.len() implies 0 <= (#[trigger] entries[j]).name@.len()
            && entries[j].name@.take(0) == entries[0].name@.take(0) by {
            assert(entries[j].name@.take(0) =~= entries[0].name@.take(0));
        }
    }
    lemma_agreement(entries, 0);
    let n = agreement_from(entries, 0);
    assert(entries[i].name@.take(n as int) == entries[0].name@.take(n as int));
    if forall|j: int| 0 <= j < entries.len() ==> starts((#[trigger] entries[j]).name@, other) {
        assert(starts(entries[0].name@, other));
        if other.len() > n {
            assert forall|j: int| 0 <= j < entries.len() implies n + 1 <= (
            #[trigger] entries[j]).name@.len() && entries[j].name@.take(n as int + 1)
                == entries[0].name@.take(n as int + 1) by {
                assert(starts(entries[j].name@, other));
                assert(entries[j].name@.take(n as int + 1) =~= other.take(n as int + 1)) by {
                    assert forall|k: int| 0 <= k < n + 1 implies entries[j].name@[k] == other[k] by {
                        assert(entries[j].name@.take(other.len() as int)[k] == other[k]);
                    }
                }
                assert(entries[0].name@.take(n as int + 1) =~= other.take(n as int + 1)) by {
                    assert forall|k: int| 0 <= k < n + 1 implies entries[0].name@[k] == other[k] by {
                        assert(entries[0].name@.take(other.len() as int)[k] == other[k]);
                    }
                }
            }
            assert(agree(entries, n + 1));
        }
    }
}

/// A typed path is completed by what everything that it can mean shares, with a slash
/// behind it where that is one directory. Where nothing is added, or nothing fits,
/// nothing is completed.
pub proof fn law_a_path_is_completed(text: Seq<char>, entries: Seq<Listed>)
    ensures
        ({
            let found = candidates(entries, typed_name(text));
            let full = typed_directory(text) + shared_start(found);
            &&& found.len() == 0 ==> completion(text, entries) is None
            &&& found.len() > 1 && full != text ==> completion(text, entries) == Some(full)
            &&& found.len() == 1 && !found[0].directory && full != text ==> completion(text, entries)
                == Some(full)
            &&& found.len() == 1 && found[0].directory && full.push('/') != text ==> completion(
                text,
                entries,
            ) == Some(full.push('/'))
            &&& found.len() > 1 && full == text ==> completion(text, entries) is None
        }),
{
}

/// The entries that complete a path are looked for in the directory that was typed:
/// in the base where none was, and against it where a relative one was.
pub proof fn law_where_completions_are_looked_for(
    base: Seq<char>,
    text: Seq<char>,
    home: Option<Seq<char>>,
)
    ensures
        typed_directory(text).len() == 0 ==> listing_for(Some(base), text, home) == Some(base)
            && listing_for(None, text, home) is None,
        typed_directory(text).len() > 0 && rooted(home_expanded(typed_directory(text), home))
            ==> listing_for(Some(base), text, home) == Some(
            home_expanded(typed_directory(text), home),
        ) && listing_for(None, text, home) == Some(home_expanded(typed_directory(text), home)),
        typed_directory(text).len() > 0 && !rooted(home_expanded(typed_directory(text), home))
            ==> listing_for(Some(base), text, home) == Some(
            under(base, home_expanded(typed_directory(text), home)),
        ),
{
}

/// What is typed stands in the prompt, character by character; only the last can be
/// taken back. Escape closes it, and nothing else changes the text.
pub proof fn law_typing_into_the_prompt(
    prompt: Prompt,
    text: Seq<char>,
    key: Key,
    home: Option<Seq<char>>,
    outcome: Outcome,
    left: Seq<char>,
)
    requires
        typing_key(prompt, text, key, home, outcome, left),
    ensures
        key.code matches KeyCode::Char(c) ==> (!is_control(c) ==> left == text.push(c) && outcome
            is Open),
        key.code is Backspace && text.len() > 0 ==> left == text.drop_last(),
        key.code !is Char && key.code !is Backspace ==> left == text,
        (outcome is Closed) == (key.code is Esc),
        key.code is Enter && path_asked(view_of(prompt.base), text, home) is Ok ==> (
        outcome matches Outcome::Resolve(path) && path@ == path_asked(
            view_of(prompt.base),
            text,
            home,
        )->Ok_0),
        outcome !is Insert && outcome !is Grant,
{
}

/// A path is granted only by `r` and `w`: read-only by the one and writable by the
/// other, and always under its own name.
pub proof fn law_granting_a_path(host: Seq<char>, key: Key, outcome: Outcome)
    requires
        grant_key(host, key, outcome),
    ensures
        (outcome is Grant) == (key.code == KeyCode::Char('r') || key.code == KeyCode::Char('w')),
        outcome matches Outcome::Grant { mount, path } ==> path@ == host && mount.source@ == host
            && mount.destination is None && mount.writable == (key.code == KeyCode::Char('w')),
        key.code == KeyCode::Char('n') ==> (outcome matches Outcome::Insert { path, .. } && path@
            == host),
        key.code is Esc ==> outcome is Closed,
{
}

/// A path that the sandbox carries goes in as the agent knows it. One that it does not
/// carry is asked about where it can be granted, and else goes in as it is.
pub proof fn law_a_found_path_goes_in(
    prompt: Prompt,
    host: String,
    next: Prompt,
    outcome: Outcome,
)
    requires
        finds(prompt, Ok(host), next, outcome),
        prompt.state is Typing,
    ensures
        prompt.mounts is None ==> (outcome matches Outcome::Insert { path, .. } && path == host),
        prompt.mounts matches Some(mounts) ==> ((forall|i: int|
            0 <= i < mounts@.len() ==> carried(#[trigger] mounts@[i], host@) is None)
            && prompt.can_grant ==> outcome is Open && next.state == Insert::Grant(host)),
        prompt.mounts matches Some(mounts) ==> ((forall|i: int|
            0 <= i < mounts@.len() ==> carried(#[trigger] mounts@[i], host@) is None)
            && !prompt.can_grant ==> (outcome matches Outcome::Insert { path, .. } && path == host)),
        prompt.mounts matches Some(mounts) ==> ((exists|i: int|
            0 <= i < mounts@.len() && carried(#[trigger] mounts@[i], host@) is Some) ==> (
        outcome matches Outcome::Insert { path, .. } && exists|i: int|
            0 <= i < mounts@.len() && path@ == under(
                crate::mount::destination_of(#[trigger] mounts@[i]),
                carried(mounts@[i], host@)->Some_0,
            ))),
        next.base == prompt.base && next.mounts == prompt.mounts && next.can_grant
            == prompt.can_grant,
{
    if let Some(mounts) = prompt.mounts {
        if exists|i: int| 0 <= i < mounts@.len() && carried(#[trigger] mounts@[i], host@) is Some {
            let i = choose|i: int|
                #[trigger] crate::mount::innermost(mounts@, host@, i)
                    && crate::insert::inserted_through(mounts@[i], host@, outcome);
            assert(outcome->Insert_path@ == under(
                crate::mount::destination_of(mounts@[i]),
                carried(mounts@[i], host@)->Some_0,
            ));
        }
    }
}

// --- Notes -------------------------------------------------------------------

/// The text that an editor edits.
pub open spec fn edited_text(editor: Editor) -> Seq<char> {
    if editor.scope == Scope::Session {
        editor.session@
    } else {
        editor.workspace@
    }
}

/// What is written into the notes goes to the end of those that are edited, and the
/// others stay as they are. No key but a writing one changes either text.
pub proof fn law_writing_notes(before: App, key: Key, after: App, asked: Option<Save>, editor: Editor)
    requires
        keyed(before, key, after, asked),
        before.notes.editor == Some(editor),
    ensures
        key.code matches KeyCode::Char(c) ==> (!key.control ==> (after.notes.editor matches Some(next)
            && edited_text(next) == edited_text(editor).push(c) && next.scope == editor.scope)),
        key.code is Enter ==> (after.notes.editor matches Some(next) && edited_text(next)
            == edited_text(editor).push('\n')),
        key.code is Backspace && edited_text(editor).len() > 0 ==> (
        after.notes.editor matches Some(next) && edited_text(next) == edited_text(
            editor,
        ).drop_last()),
        after.notes.editor matches Some(next) ==> {
            &&& editor.scope == Scope::Session || key.code == KeyCode::Tab ==> next.workspace@
                == editor.workspace@
            &&& editor.scope == Scope::Workspace || key.code == KeyCode::Tab ==> next.session@
                == editor.session@
            &&& key.control && key.code is Char ==> next == editor
        },
        key.code is Esc ==> after.notes.editor is None,
        key.code !is Esc ==> after.notes.editor is Some,
        after.notes.session == before.notes.session,
        after.notes.workspace == before.notes.workspace,
        asked is Some ==> key.control && key.code == KeyCode::Char('s'),
        key.control && key.code == KeyCode::Char('s') ==> asked is Some,
{
}

/// Only notes that changed are written, and all that did: the session's where there is
/// a session, the Workspace's under its id.
pub proof fn law_changed_notes_are_written(app: App, save: Save, editor: Editor)
    requires
        to_save(app, save),
        app.notes.editor == Some(editor),
    ensures
        (save.session is Some) == (editor.session_available && editor.session@
            != app.notes.session@),
        save.session matches Some(text) ==> text == editor.session,
        save.workspace matches Some((id, text)) ==> app.workspace.id == Some(id) && text
            == editor.workspace && text@ != app.notes.workspace@,
        editor.workspace@ != app.notes.workspace@ && app.workspace.id is Some ==> save.workspace
            is Some,
        editor.workspace@ != app.notes.workspace@ && app.workspace.id is None ==> save.unplaced,
        editor.workspace@ == app.notes.workspace@ ==> save.workspace is None && !save.unplaced,
{
}

/// The editor closes exactly where everything was written, and what the server kept is
/// what is known from then on. What was not written is logged, and known as before.
pub proof fn law_notes_close_once_written(
    before: App,
    save: Save,
    session: Result<String, String>,
    workspace: Result<String, String>,
    after: App,
)
    requires
        save_settled(before, save, session, workspace, after),
        before.notes.editor is Some,
    ensures
        (after.notes.editor is None) == !((save.session is Some && session is Err) || (save.workspace
            is Some && workspace is Err) || save.unplaced),
        after.notes.editor is Some ==> after.notes.editor == before.notes.editor,
        save.session is Some && session is Ok ==> after.notes.session == session->Ok_0,
        save.session is None || session is Err ==> after.notes.session == before.notes.session,
        save.workspace is Some && workspace is Ok ==> after.notes.workspace == workspace->Ok_0,
        save.workspace is None || workspace is Err ==> after.notes.workspace
            == before.notes.workspace,
        save.session is Some && session is Err ==> after.log.items@.len() > before.log.items@.len(),
{
    assert(crate::app::log_views(after.log.items@).len() == after.log.items@.len());
    assert(crate::app::log_views(before.log.items@).len() == before.log.items@.len());
}

/// The notes that are taken over are those of the first row with the id, and none where
/// there is no such row.
pub proof fn law_whose_notes_are_taken_over(rows: Seq<Noted>, id: Seq<char>, i: int)
    ensures
        0 <= i < rows.len() && rows[i].id@ == id && (forall|j: int|
            0 <= j < i ==> (#[trigger] rows[j]).id@ != id) ==> notes_of(rows, id) == rows[i].notes@,
        (forall|j: int| 0 <= j < rows.len() ==> (#[trigger] rows[j]).id@ != id) ==> notes_of(
            rows,
            id,
        ).len() == 0,
    decreases rows.len(),
{
    if rows.len() > 0 {
        let rest = rows.skip(1);
        assert(forall|j: int| 0 <= j < rest.len() ==> rest[j] == rows[j + 1]);
        law_whose_notes_are_taken_over(rest, id, i - 1);
    }
}

/// The notes are those of the Workspace on screen where there is one.
pub proof fn law_which_workspaces_notes_are_asked_for(app: App, fallback: Seq<char>)
    ensures
        app.workspace.id matches Some(id) ==> noted_workspace(app, fallback) == id@,
        app.workspace.id is None ==> noted_workspace(app, fallback) == fallback,
{
}

/// Whatever could not be written or read is logged once, with the reason.
pub proof fn law_failures_are_logged_with_their_reasons(
    app: App,
    save: Save,
    why: String,
    kept: String,
    rows: Vec<Noted>,
)
    requires
        save.session is Some,
        save.workspace is Some,
        !save.unplaced,
        app.session_id@.len() > 0,
    ensures
        save_failures(save, Err(why), Ok(kept)).len() == 1,
        save_failures(save, Ok(kept), Err(why)).len() == 1,
        save_failures(save, Err(why), Err(why)).len() == 2,
        save_failures(save, Ok(kept), Ok(kept)).len() == 0,
        stands_in(why@, save_failures(save, Err(why), Ok(kept))[0].1),
        stands_in(why@, save_failures(save, Ok(kept), Err(why))[0].1),
        load_failures(app, Err(why), Ok(rows)).len() == 1,
        load_failures(app, Ok(rows), Err(why)).len() == 1,
        load_failures(app, Err(why), Err(why)).len() == 2,
        load_failures(app, Ok(rows), Ok(rows)).len() == 0,
        stands_in(why@, load_failures(app, Err(why), Ok(rows))[0].1),
        stands_in(why@, load_failures(app, Ok(rows), Err(why))[0].1),
{
    let none = Seq::<char>::empty();
    lemma_between(
        "could not save Session notes: "@,
        why@,
        none,
        "could not save Session notes: "@ + why@,
    );
    lemma_between(
        "could not save Workspace notes: "@,
        why@,
        none,
        "could not save Workspace notes: "@ + why@,
    );
    lemma_between(
        "could not read Session notes: "@,
        why@,
        none,
        "could not read Session notes: "@ + why@,
    );
    lemma_between(
        "could not read Workspace notes: "@,
        why@,
        none,
        "could not read Workspace notes: "@ + why@,
    );
}

/// A path that goes in through a mount is told with how it can be used there.
pub proof fn law_an_inserted_path_is_told_with_its_access(
    mount: Mount,
    host: Seq<char>,
    outcome: Outcome,
)
    requires
        inserted_through(mount, host, outcome),
    ensures
        outcome matches Outcome::Insert { path, notice } && (notice matches Some(words) && stands_in(
            path@,
            words@,
        ) && stands_in(access_of(mount), words@)),
{
    if let Outcome::Insert { path, notice } = outcome {
        let words = mounted_notice(path@, access_of(mount));
        lemma_between(Seq::empty(), path@, " ("@ + access_of(mount) + ")"@, words);
        lemma_between(path@ + " ("@, access_of(mount), ")"@, words);
    }
}

} // verus!
