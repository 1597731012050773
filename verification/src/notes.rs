//! The operator's notes on a session and on its Workspace.

use vstd::prelude::*;

use crate::app::{log_views, stays_put, told, App};
use crate::composer::drop_last_char;
use crate::key::{Key, KeyCode};
use crate::notices::Notices;
use crate::protocol::LogLevel;
use crate::session::{log_error, log_warn};
use crate::text::{is_control, same};

verus! {

/// Which notes the editor writes.
#[derive(Clone, Copy, Debug, PartialEq, Eq, Structural)]
pub enum Scope {
    Session,
    Workspace,
}

impl Scope {
    pub open spec fn opposite(self) -> Scope {
        match self {
            Scope::Session => Scope::Workspace,
            Scope::Workspace => Scope::Session,
        }
    }

    pub fn label(self) -> (r: &'static str)
        ensures
            r@ == match self {
                Scope::Session => "Session notes"@,
                Scope::Workspace => "Workspace notes"@,
            },
    {
        match self {
            Scope::Session => "Session notes",
            Scope::Workspace => "Workspace notes",
        }
    }

    /// What the other notes are called.
    pub fn other_label(self) -> (r: &'static str)
        ensures
            r@ == match self {
                Scope::Session => "Workspace"@,
                Scope::Workspace => "Session"@,
            },
    {
        match self {
            Scope::Session => "Workspace",
            Scope::Workspace => "Session",
        }
    }
}

/// The open editor. It holds both texts, so that moving between them loses
/// neither.
#[derive(Debug, PartialEq, Eq)]
pub struct Editor {
    pub scope: Scope,
    pub session: String,
    pub workspace: String,
    /// Whether there is a session for notes to belong to.
    pub session_available: bool,
}

impl Editor {
    /// The text being edited.
    pub open spec fn text(self) -> Seq<char> {
        match self.scope {
            Scope::Session => self.session@,
            Scope::Workspace => self.workspace@,
        }
    }

    /// Whether `after` is this editor with another text where it is edited.
    pub open spec fn rewritten(self, text: Seq<char>, after: Editor) -> bool {
        &&& after.text() == text
        &&& after == match self.scope {
            Scope::Session => Editor { session: after.session, ..self },
            Scope::Workspace => Editor { workspace: after.workspace, ..self },
        }
    }

    pub fn scope(&self) -> (r: Scope)
        ensures
            r == self.scope,
    {
        self.scope
    }

    pub fn session_available(&self) -> (r: bool)
        ensures
            r == self.session_available,
    {
        self.session_available
    }

    /// The text being edited.
    pub fn buffer(&self) -> (r: &str)
        ensures
            r@ == self.text(),
    {
        match self.scope {
            Scope::Session => self.session.as_str(),
            Scope::Workspace => self.workspace.as_str(),
        }
    }
}

/// The notes as the server last told them, and the editor while it is open.
#[derive(Debug, PartialEq, Eq)]
pub struct Notes {
    pub editor: Option<Editor>,
    pub session: String,
    pub workspace: String,
    /// Whether the two texts have been asked for.
    pub loaded: bool,
}

impl Default for Notes {
    fn default() -> (r: Notes)
        ensures
            r.editor is None,
            r.session@ == Seq::<char>::empty(),
            r.workspace@ == Seq::<char>::empty(),
            !r.loaded,
    {
        Notes { editor: None, session: String::new(), workspace: String::new(), loaded: false }
    }
}

impl Notes {
    pub fn is_open(&self) -> (r: bool)
        ensures
            r == (self.editor is Some),
    {
        self.editor.is_some()
    }

    pub fn editor(&self) -> (r: Option<&Editor>)
        ensures
            match r {
                Some(editor) => self.editor == Some(*editor),
                None => self.editor is None,
            },
    {
        match &self.editor {
            Some(editor) => Some(editor),
            None => None,
        }
    }

    /// Whether there are any notes.
    pub fn any(&self) -> (r: bool)
        ensures
            r == (self.session@.len() > 0 || self.workspace@.len() > 0),
    {
        !self.session.as_str().is_empty() || !self.workspace.as_str().is_empty()
    }

    /// Record both texts as the server told them.
    pub fn set_known(&mut self, session: String, workspace: String)
        ensures
            *final(self) == (Notes { session, workspace, ..*old(self) }),
    {
        self.session = session;
        self.workspace = workspace;
    }
}

/// Open the editor on the notes last told: on the session's where there is a
/// session, and on the Workspace's otherwise.
pub fn open(app: &mut App)
    ensures
        *final(app) == (App {
            notes: Notes {
                editor: Some(
                    Editor {
                        scope: if old(app).session_id@.len() > 0 {
                            Scope::Session
                        } else {
                            Scope::Workspace
                        },
                        session: old(app).notes.session,
                        workspace: old(app).notes.workspace,
                        session_available: old(app).session_id@.len() > 0,
                    },
                ),
                ..old(app).notes
            },
            ..*old(app)
        }),
        old(app).wf() ==> final(app).wf(),
{
    let session_available = !app.session_id.as_str().is_empty();
    app.notes.editor = Some(
        Editor {
            scope: if session_available {
                Scope::Session
            } else {
                Scope::Workspace
            },
            session: app.notes.session.clone(),
            workspace: app.notes.workspace.clone(),
            session_available,
        },
    );
}

/// This text after a key that edits: a character or a line break at its end,
/// or its last character gone.
pub open spec fn text_after(text: Seq<char>, code: KeyCode) -> Seq<char> {
    match code {
        KeyCode::Enter => text.push('\n'),
        KeyCode::Backspace => if text.len() > 0 {
            text.drop_last()
        } else {
            text
        },
        KeyCode::Char(ch) => text.push(ch),
        _ => text,
    }
}

fn edit_text(text: &mut String, code: KeyCode)
    ensures
        final(text)@ == text_after(old(text)@, code),
{
    match code {
        KeyCode::Enter => text.push('\n'),
        KeyCode::Backspace => drop_last_char(text),
        KeyCode::Char(ch) => text.push(ch),
        _ => {},
    }
}

/// Whether the editor takes this key as writing.
pub open spec fn writes(key: Key) -> bool {
    match key.code {
        KeyCode::Enter | KeyCode::Backspace => true,
        KeyCode::Char(_) => !key.control,
        _ => false,
    }
}

/// What the editor asks to be written.
#[derive(Debug, PartialEq, Eq)]
pub struct Save {
    /// The session's notes, where they changed.
    pub session: Option<String>,
    /// The Workspace's notes and its id, where they changed.
    pub workspace: Option<(String, String)>,
    /// Whether the Workspace's notes changed while none is open.
    pub unplaced: bool,
}

/// What a screen asks to be written: only what changed.
pub open spec fn to_save(app: App, save: Save) -> bool {
    match app.notes.editor {
        Some(editor) => {
            let rewritten = editor.workspace@ != app.notes.workspace@;
            &&& save.session == if editor.session_available && editor.session@
                != app.notes.session@ {
                Some(editor.session)
            } else {
                None
            }
            &&& save.workspace == match app.workspace.id {
                Some(id) => if rewritten {
                    Some((id, editor.workspace))
                } else {
                    None
                },
                None => None,
            }
            &&& save.unplaced == (rewritten && app.workspace.id is None)
        },
        None => false,
    }
}

/// Whether an edit leads from one screen to another.
pub open spec fn edited(before: App, code: KeyCode, after: App) -> bool {
    match before.notes.editor {
        Some(editor) => {
            &&& after.notes.editor matches Some(next) && editor.rewritten(
                text_after(editor.text(), code),
                next,
            )
            &&& after == (App {
                notes: Notes { editor: after.notes.editor, ..before.notes },
                ..before
            })
        },
        None => after == before,
    }
}

/// Whether a key in the editor leads from one screen to another, and asks for
/// this to be written.
pub open spec fn keyed(before: App, key: Key, after: App, asked: Option<Save>) -> bool {
    if key.code == KeyCode::Esc {
        asked is None && after == (App {
            notes: Notes { editor: None, ..before.notes },
            ..before
        })
    } else if key.code == KeyCode::Tab || key.code == KeyCode::BackTab {
        asked is None && scope_toggled(before, after)
    } else if key.code == KeyCode::Char('s') && key.control {
        after == before && match asked {
            Some(save) => to_save(before, save),
            None => before.notes.editor is None,
        }
    } else if writes(key) {
        asked is None && edited(before, key.code, after)
    } else {
        asked is None && after == before
    }
}

/// Take a key while the editor is open. What is to be written is returned; the
/// editor stays open until it is known to be.
pub fn handle_key(app: &mut App, key: Key) -> (r: Option<Save>)
    ensures
        keyed(*old(app), key, *final(app), r),
        old(app).wf() ==> final(app).wf(),
{
    match key.code {
        KeyCode::Esc => {
            app.notes.editor = None;
            None
        },
        KeyCode::Tab | KeyCode::BackTab => {
            toggle_scope(app);
            None
        },
        KeyCode::Enter | KeyCode::Backspace => {
            edit(app, key.code);
            None
        },
        KeyCode::Char(ch) => {
            if key.control {
                if ch == 's' {
                    return save(app);
                }
                return None;
            }
            edit(app, key.code);
            None
        },
        _ => None,
    }
}

fn edit(app: &mut App, code: KeyCode)
    ensures
        edited(*old(app), code, *final(app)),
{
    match app.notes.editor.take() {
        Some(mut editor) => {
            match editor.scope {
                Scope::Session => edit_text(&mut editor.session, code),
                Scope::Workspace => edit_text(&mut editor.workspace, code),
            }
            app.notes.editor = Some(editor);
        },
        None => {},
    }
}

/// Whether moving to the other notes leads from one screen to another. There is
/// nowhere to move without a session, and the operator is told so.
pub open spec fn scope_toggled(before: App, after: App) -> bool {
    match before.notes.editor {
        None => after == before,
        Some(editor) => if !editor.session_available {
            told(before, after, "no Session yet — only Workspace notes can be written"@)
        } else {
            after == (App {
                notes: Notes {
                    editor: Some(Editor { scope: editor.scope.opposite(), ..editor }),
                    ..before.notes
                },
                ..before
            })
        },
    }
}

/// Move between the session's notes and the Workspace's.
pub fn toggle_scope(app: &mut App)
    ensures
        scope_toggled(*old(app), *final(app)),
        old(app).wf() ==> final(app).wf(),
{
    match app.notes.editor.take() {
        Some(mut editor) => {
            if !editor.session_available {
                app.notes.editor = Some(editor);
                app.show_action_message(
                    "no Session yet — only Workspace notes can be written".to_owned(),
                );
                return ;
            }
            editor.scope = match editor.scope {
                Scope::Session => Scope::Workspace,
                Scope::Workspace => Scope::Session,
            };
            app.notes.editor = Some(editor);
        },
        None => {},
    }
}

/// What is to be written of what the editor holds: only what changed.
pub fn save(app: &App) -> (r: Option<Save>)
    ensures
        match r {
            Some(save) => to_save(*app, save),
            None => app.notes.editor is None,
        },
{
    match &app.notes.editor {
        Some(editor) => {
            let session = if editor.session_available && !same(
                editor.session.as_str(),
                app.notes.session.as_str(),
            ) {
                Some(editor.session.clone())
            } else {
                None
            };
            let rewritten = !same(editor.workspace.as_str(), app.notes.workspace.as_str());
            let workspace = match &app.workspace.id {
                Some(id) => if rewritten {
                    Some((id.clone(), editor.workspace.clone()))
                } else {
                    None
                },
                None => None,
            };
            Some(Save { session, workspace, unplaced: rewritten && app.workspace.id.is_none() })
        },
        None => None,
    }
}

/// Whether something that was to be written was not.
pub open spec fn save_failed(
    save: Save,
    session: Result<String, String>,
    workspace: Result<String, String>,
) -> bool {
    save.session is Some && session is Err || save.workspace is Some && workspace is Err
        || save.unplaced
}

/// What is logged of what was not written.
pub open spec fn save_failures(
    save: Save,
    session: Result<String, String>,
    workspace: Result<String, String>,
) -> Seq<(LogLevel, Seq<char>)> {
    let first = match session {
        Err(error) => if save.session is Some {
            seq![(LogLevel::Error, "could not save Session notes: "@ + error@)]
        } else {
            Seq::empty()
        },
        Ok(_) => Seq::empty(),
    };
    let second = if save.unplaced {
        seq![(LogLevel::Warn, "Workspace notes not saved: no Workspace is open"@)]
    } else {
        match workspace {
            Err(error) => if save.workspace is Some {
                seq![(LogLevel::Error, "could not save Workspace notes: "@ + error@)]
            } else {
                Seq::empty()
            },
            Ok(_) => Seq::empty(),
        }
    };
    first + second
}

/// Whether handing back what became of a save leads from one screen to another.
pub open spec fn save_settled(
    before: App,
    save: Save,
    session: Result<String, String>,
    workspace: Result<String, String>,
    after: App,
) -> bool {
    let failed = save_failed(save, session, workspace);
    &&& stays_put(before.log, after.log)
    &&& log_views(after.log.items@) == log_views(before.log.items@) + save_failures(
        save,
        session,
        workspace,
    )
    &&& after.notices.said() == if failed {
        before.notices.said()
    } else {
        before.notices.said().push("notes saved"@)
    }
    &&& after == (App {
        notes: Notes {
            session: match session {
                Ok(text) => if save.session is Some {
                    text
                } else {
                    before.notes.session
                },
                Err(_) => before.notes.session,
            },
            workspace: match workspace {
                Ok(text) => if save.workspace is Some {
                    text
                } else {
                    before.notes.workspace
                },
                Err(_) => before.notes.workspace,
            },
            editor: if failed {
                before.notes.editor
            } else {
                None
            },
            ..before.notes
        },
        log: after.log,
        notices: Notices { messages: after.notices.messages, ..before.notices },
        ..before
    })
}

/// Hand back what became of a save. The editor closes where all of it was
/// written, and otherwise stays open with its text.
pub fn saved(
    app: &mut App,
    save: &Save,
    session: Result<String, String>,
    workspace: Result<String, String>,
)
    requires
        old(app).wf(),
        save.unplaced ==> save.workspace is None,
    ensures
        save_settled(*old(app), *save, session, workspace, *final(app)),
        final(app).wf(),
{
    let ghost before = log_views(app.log.items@);
    let mut failed = false;
    if save.session.is_some() {
        match session {
            Ok(text) => {
                app.notes.session = text;
            },
            Err(error) => {
                failed = true;
                log_error(app, "could not save Session notes: ".to_owned().concat(error.as_str()));
            },
        }
    }
    let ghost middle = log_views(app.log.items@);
    assert(middle =~= before + match session {
        Err(error) => if save.session is Some {
            seq![(LogLevel::Error, "could not save Session notes: "@ + error@)]
        } else {
            Seq::empty()
        },
        Ok(_) => Seq::empty(),
    });
    if save.unplaced {
        failed = true;
        log_warn(app, "Workspace notes not saved: no Workspace is open".to_owned());
        assert(log_views(app.log.items@) =~= middle.push(
            (LogLevel::Warn, "Workspace notes not saved: no Workspace is open"@),
        ));
    } else if save.workspace.is_some() {
        match workspace {
            Ok(text) => {
                app.notes.workspace = text;
            },
            Err(error) => {
                failed = true;
                log_error(app, "could not save Workspace notes: ".to_owned().concat(error.as_str()));
                assert(log_views(app.log.items@) =~= middle.push(
                    (LogLevel::Error, "could not save Workspace notes: "@ + error@),
                ));
            },
        }
    }
    assert(log_views(app.log.items@) =~= before + save_failures(*save, session, workspace));
    if !failed {
        app.notes.editor = None;
        app.show_action_message("notes saved".to_owned());
    }
}

/// The notes of one session or Workspace, as a list of them tells.
#[derive(Debug, PartialEq, Eq)]
pub struct Noted {
    pub id: String,
    pub notes: String,
}

/// The notes of the first row with this id, and nothing where there is none.
pub open spec fn notes_of(rows: Seq<Noted>, id: Seq<char>) -> Seq<char>
    decreases rows.len(),
{
    if rows.len() == 0 {
        Seq::empty()
    } else if rows[0].id@ == id {
        rows[0].notes@
    } else {
        notes_of(rows.skip(1), id)
    }
}

fn find_notes(rows: &Vec<Noted>, id: &str) -> (r: String)
    ensures
        r@ == notes_of(rows@, id@),
{
    let mut i: usize = 0;
    assert(rows@.skip(0) =~= rows@);
    while i < rows.len()
        invariant
            i <= rows@.len(),
            notes_of(rows@, id@) == notes_of(rows@.skip(i as int), id@),
        decreases rows.len() - i,
    {
        assert(rows@.skip(i as int).skip(1) =~= rows@.skip(i + 1));
        if same(rows[i].id.as_str(), id) {
            return rows[i].notes.clone();
        }
        i = i + 1;
    }
    String::new()
}

/// Whether the notes are still to be asked for.
pub fn needs_loading(app: &App) -> (r: bool)
    ensures
        r == !app.notes.loaded,
{
    !app.notes.loaded
}

/// The Workspace whose notes are asked for: the one that is shown, and
/// otherwise the one that the client was started in.
pub open spec fn noted_workspace(app: App, fallback: Seq<char>) -> Seq<char> {
    match app.workspace.id {
        Some(id) => id@,
        None => fallback,
    }
}

/// The Workspace whose notes are asked for.
pub fn workspace_to_list(app: &App, fallback: &str) -> (r: String)
    ensures
        r@ == noted_workspace(*app, fallback@),
{
    match &app.workspace.id {
        Some(id) => id.clone(),
        None => fallback.to_owned(),
    }
}

/// What is logged of notes that could not be read.
pub open spec fn load_failures(
    app: App,
    sessions: Result<Vec<Noted>, String>,
    workspaces: Result<Vec<Noted>, String>,
) -> Seq<(LogLevel, Seq<char>)> {
    (match sessions {
        Err(error) => if app.session_id@.len() > 0 {
            seq![(LogLevel::Error, "could not read Session notes: "@ + error@)]
        } else {
            Seq::empty()
        },
        Ok(_) => Seq::empty(),
    }) + (match workspaces {
        Err(error) => seq![(LogLevel::Error, "could not read Workspace notes: "@ + error@)],
        Ok(_) => Seq::empty(),
    })
}

/// Take over the notes from lists of sessions and Workspaces, once. Whatever
/// could not be read is logged and not asked for again.
pub fn ensure_loaded(
    app: &mut App,
    workspace_id: &str,
    sessions: Result<Vec<Noted>, String>,
    workspaces: Result<Vec<Noted>, String>,
)
    requires
        old(app).wf(),
    ensures
        if old(app).notes.loaded {
            *final(app) == *old(app)
        } else {
            &&& final(app).notes.session@ == match sessions {
                Ok(rows) => if old(app).session_id@.len() > 0 {
                    notes_of(rows@, old(app).session_id@)
                } else {
                    Seq::empty()
                },
                Err(_) => Seq::empty(),
            }
            &&& final(app).notes.workspace@ == match workspaces {
                Ok(rows) => notes_of(rows@, noted_workspace(*old(app), workspace_id@)),
                Err(_) => Seq::empty(),
            }
            &&& stays_put(old(app).log, final(app).log)
            &&& log_views(final(app).log.items@) == log_views(old(app).log.items@) + load_failures(
                *old(app),
                sessions,
                workspaces,
            )
            &&& *final(app) == (App {
                notes: Notes {
                    session: final(app).notes.session,
                    workspace: final(app).notes.workspace,
                    loaded: true,
                    ..old(app).notes
                },
                log: final(app).log,
                ..*old(app)
            })
        },
        final(app).wf(),
{
    if app.notes.loaded {
        return ;
    }
    let ghost before = log_views(app.log.items@);
    app.notes.loaded = true;
    let workspace = workspace_to_list(app, workspace_id);
    let mut session_notes = String::new();
    if !app.session_id.as_str().is_empty() {
        match &sessions {
            Ok(rows) => {
                session_notes = find_notes(rows, app.session_id.as_str());
            },
            Err(error) => {
                log_error(app, "could not read Session notes: ".to_owned().concat(error.as_str()));
                assert(log_views(app.log.items@) =~= before.push(
                    (LogLevel::Error, "could not read Session notes: "@ + error@),
                ));
            },
        }
    }
    let ghost middle = log_views(app.log.items@);
    let mut workspace_notes = String::new();
    match &workspaces {
        Ok(rows) => {
            workspace_notes = find_notes(rows, workspace.as_str());
        },
        Err(error) => {
            log_error(app, "could not read Workspace notes: ".to_owned().concat(error.as_str()));
            assert(log_views(app.log.items@) =~= middle.push(
                (LogLevel::Error, "could not read Workspace notes: "@ + error@),
            ));
        },
    }
    assert(log_views(app.log.items@) =~= before + load_failures(*old(app), sessions, workspaces));
    app.notes.set_known(session_notes, workspace_notes);
}

/// How an editor over a picker ended.
#[derive(Clone, Copy, Debug, PartialEq, Eq, Structural)]
pub enum PromptEnd {
    Cancelled,
    Saved,
}

/// Take a key in the editor over a picker.
pub fn prompt(value: &mut String, key: Key) -> (r: Option<PromptEnd>)
    ensures
        r == if key.code == KeyCode::Esc {
            Some(PromptEnd::Cancelled)
        } else if key.code == KeyCode::Char('s') && key.control {
            Some(PromptEnd::Saved)
        } else {
            None
        },
        final(value)@ == if r is Some || (key.code matches KeyCode::Char(ch) && is_control(ch)) {
            old(value)@
        } else {
            text_after(old(value)@, key.code)
        },
{
    match key.code {
        KeyCode::Esc => Some(PromptEnd::Cancelled),
        KeyCode::Char(ch) => {
            if ch == 's' && key.control {
                return Some(PromptEnd::Saved);
            }
            if !crate::text::control(ch) {
                value.push(ch);
            }
            None
        },
        code => {
            edit_text(value, code);
            None
        },
    }
}

/// Moving to the other notes and back leaves both texts as they were.
pub proof fn law_moving_between_notes_loses_nothing(first: App, second: App, third: App)
    requires
        first.notes.editor matches Some(editor) && editor.session_available,
        scope_toggled(first, second),
        scope_toggled(second, third),
    ensures
        third == first,
        second.notes.editor->Some_0.session == first.notes.editor->Some_0.session,
        second.notes.editor->Some_0.workspace == first.notes.editor->Some_0.workspace,
{
}

/// A save that fails keeps the editor and its text.
pub proof fn law_a_failed_save_keeps_the_text(
    before: App,
    save: Save,
    session: Result<String, String>,
    workspace: Result<String, String>,
    after: App,
)
    requires
        save_settled(before, save, session, workspace, after),
        save_failed(save, session, workspace),
    ensures
        after.notes.editor == before.notes.editor,
{
}

} // verus!
