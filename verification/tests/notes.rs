use styra::app::{App, Surroundings};
use styra::key::{Key, KeyCode};
use styra::keys::handle_list_key;
use styra::launcher::{Catalog, ProviderEntry};
use styra::notes::{handle_key, open, saved, Save, Scope};
use styra::protocol::{Effort, Provider, Selection};
use styra::session::Live;

fn words(list: &[&str]) -> Vec<String> {
    list.iter().map(|word| (*word).to_owned()).collect()
}

fn catalog() -> Catalog {
    Catalog {
        providers: vec![
            ProviderEntry {
                provider: Provider::Codex,
                name: "codex".into(),
                models: words(&["gpt-5.6-sol", "gpt-5.6-luna", "gpt-5.6-mini"]),
                efforts: vec![Effort::Low, Effort::Medium, Effort::High, Effort::XHigh],
                default_model: "gpt-5.6-sol".into(),
                default_effort: Effort::Medium,
            },
            ProviderEntry {
                provider: Provider::Other(0),
                name: "pi".into(),
                models: words(&["pi-large", "pi-small"]),
                efforts: vec![Effort::Minimal, Effort::Low],
                default_model: "pi-small".into(),
                default_effort: Effort::Low,
            },
            ProviderEntry {
                provider: Provider::Claude,
                name: "assistant".into(),
                models: words(&["opus-5", "sonnet-5", "haiku-5", "opus"]),
                efforts: vec![
                    Effort::Low,
                    Effort::Medium,
                    Effort::High,
                    Effort::XHigh,
                    Effort::Max,
                ],
                default_model: "sonnet-5".into(),
                default_effort: Effort::High,
            },
        ],
    }
}

fn entry(provider: Provider) -> ProviderEntry {
    catalog()
        .providers
        .into_iter()
        .find(|entry| entry.provider == provider)
        .unwrap()
}

/// `provider`, `provider:model` or `provider:model/effort`.
fn parse(text: &str) -> Selection {
    let (provider, rest) = match text.split_once(':') {
        Some((provider, rest)) => (provider, Some(rest)),
        None => (text, None),
    };
    let entry = entry(match provider {
        "codex" => Provider::Codex,
        "assistant" => Provider::Claude,
        _ => Provider::Other(0),
    });
    let (model, effort) = match rest {
        Some(rest) => match rest.split_once('/') {
            Some((model, effort)) => (model.to_owned(), Some(effort)),
            None => (rest.to_owned(), None),
        },
        None => (entry.default_model, None),
    };
    let effort = match effort {
        Some("low") => Effort::Low,
        Some("medium") => Effort::Medium,
        Some("high") => Effort::High,
        Some("xhigh") => Effort::XHigh,
        Some("max") => Effort::Max,
        Some(_) => Effort::Minimal,
        None => entry.default_effort,
    };
    Selection {
        provider: entry.provider,
        model,
        effort,
    }
}

fn app() -> App {
    App::new(catalog(), parse("codex"), "s1".into())
}

/// With no server listening, every save that is asked for fails.
fn press(app: &mut App, key: Key) {
    if let Some(save) = handle_key(app, key) {
        saved(
            app,
            &save,
            Err("connection refused".into()),
            Err("connection refused".into()),
        );
    }
}

fn plain(app: &mut App, code: KeyCode) {
    press(app, Key::plain(code));
}

#[test]
fn the_notes_editor_edits_one_scope_at_a_time_and_keeps_the_other() {
    let mut app = app();
    app.notes.set_known("session".into(), "workspace".into());

    open(&mut app);
    plain(&mut app, KeyCode::Char('!'));
    plain(&mut app, KeyCode::Tab);
    plain(&mut app, KeyCode::Backspace);
    plain(&mut app, KeyCode::Enter);
    plain(&mut app, KeyCode::Char('x'));

    let editor = app.notes.editor().expect("editor open");
    assert_eq!(editor.scope(), Scope::Workspace);
    assert_eq!(editor.session, "session!");
    assert_eq!(editor.workspace, "workspac\nx");
    assert_eq!(app.notes.session, "session");
    assert_eq!(app.notes.workspace, "workspace");
}

#[test]
fn cancelling_the_notes_editor_discards_what_was_typed() {
    let mut app = app();
    app.notes.set_known("kept".into(), "".into());
    open(&mut app);
    plain(&mut app, KeyCode::Char('z'));
    plain(&mut app, KeyCode::Esc);

    assert!(!app.notes.is_open());
    assert_eq!(app.notes.session, "kept");
}

#[test]
fn e_opens_the_editor_and_printable_keys_become_note_text() {
    let mut app = app();
    let mut pending_fold = false;
    handle_list_key(
        &mut app,
        &Live::Viewing,
        Key::plain(KeyCode::Char('E')),
        &mut pending_fold,
        &Surroundings {
            current_directory: None,
            texts: vec![],
            present: vec![],
            detail: vec![],
            summary: String::new(),
        },
    );
    assert!(app.notes.is_open());

    for ch in ['q', '?'] {
        plain(&mut app, KeyCode::Char(ch));
    }
    assert_eq!(app.notes.editor().unwrap().buffer(), "q?");
}

#[test]
fn a_failed_save_keeps_the_editor_and_its_text() {
    let mut app = app();
    open(&mut app);
    plain(&mut app, KeyCode::Char('x'));
    press(&mut app, Key::control(KeyCode::Char('s')));

    assert_eq!(app.notes.editor().expect("still open").buffer(), "x");
    assert!(app.notes.session.is_empty());
}

#[test]
fn a_pending_session_edits_workspace_notes_only() {
    let mut app = App::pending(catalog(), parse("codex"));
    open(&mut app);
    plain(&mut app, KeyCode::Tab);

    let editor = app.notes.editor().expect("editor open");
    assert_eq!(editor.scope(), Scope::Workspace);
    assert!(!editor.session_available());
}

#[test]
fn a_save_that_lands_closes_the_editor_and_is_known() {
    let mut app = app();
    open(&mut app);
    plain(&mut app, KeyCode::Char('x'));
    let save = handle_key(&mut app, Key::control(KeyCode::Char('s'))).expect("asks to save");
    assert_eq!(
        save,
        Save {
            session: Some("x".into()),
            workspace: None,
            unplaced: false,
        }
    );
    saved(&mut app, &save, Ok("x".into()), Err("not asked for".into()));

    assert!(!app.notes.is_open());
    assert_eq!(app.notes.session, "x");
}
