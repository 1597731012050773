use styra::app::{App, Request, Surroundings};
use styra::key::{Key, KeyCode};
use styra::keys::{
    handle_insert_key, handle_list_key, insert_resolved, open_insert, Action, Wanted,
};
use styra::launcher::{Catalog, ProviderEntry};
use styra::protocol::{
    AttributedMount, DrivaOptions, Effort, LaunchMount, Mount, MountAccess, MountOrigin, Provider,
    Selection,
};
use styra::session::Live;

fn words(list: &[&str]) -> Vec<String> {
    list.iter().map(|word| (*word).to_owned()).collect()
}

fn catalog() -> Catalog {
    Catalog {
        providers: vec![
            ProviderEntry {
                provider: Provider::Codex,
                name: "codex".into(),
                models: words(&["gpt-5.6-sol", "gpt-5.6-luna", "gpt-5.6-mini"]),
                efforts: vec![Effort::Low, Effort::Medium, Effort::High, Effort::XHigh],
                default_model: "gpt-5.6-sol".into(),
                default_effort: Effort::Medium,
            },
            ProviderEntry {
                provider: Provider::Other(0),
                name: "pi".into(),
                models: words(&["pi-large", "pi-small"]),
                efforts: vec![Effort::Minimal, Effort::Low],
                default_model: "pi-small".into(),
                default_effort: Effort::Low,
            },
            ProviderEntry {
                provider: Provider::Claude,
                name: "assistant".into(),
                models: words(&["opus-5", "sonnet-5", "haiku-5", "opus"]),
                efforts: vec![
                    Effort::Low,
                    Effort::Medium,
                    Effort::High,
                    Effort::XHigh,
                    Effort::Max,
                ],
                default_model: "sonnet-5".into(),
                default_effort: Effort::High,
            },
        ],
    }
}

fn entry(provider: Provider) -> ProviderEntry {
    catalog()
        .providers
        .into_iter()
        .find(|entry| entry.provider == provider)
        .unwrap()
}

/// `provider`, `provider:model` or `provider:model/effort`.
fn parse(text: &str) -> Selection {
    let (provider, rest) = match text.split_once(':') {
        Some((provider, rest)) => (provider, Some(rest)),
        None => (text, None),
    };
    let entry = entry(match provider {
        "codex" => Provider::Codex,
        "assistant" => Provider::Claude,
        _ => Provider::Other(0),
    });
    let (model, effort) = match rest {
        Some(rest) => match rest.split_once('/') {
            Some((model, effort)) => (model.to_owned(), Some(effort)),
            None => (rest.to_owned(), None),
        },
        None => (entry.default_model, None),
    };
    let effort = match effort {
        Some("low") => Effort::Low,
        Some("medium") => Effort::Medium,
        Some("high") => Effort::High,
        Some("xhigh") => Effort::XHigh,
        Some("max") => Effort::Max,
        Some(_) => Effort::Minimal,
        None => entry.default_effort,
    };
    Selection {
        provider: entry.provider,
        model,
        effort,
    }
}

const ROOT: &str = "/work/tree";

fn app() -> App {
    let mut app = App::pending(catalog(), parse("codex"));
    app.workspace.enter(ROOT.into());
    app.launch.record(DrivaOptions {
        isolation_backend: "bwrap".into(),
        command: vec!["codex".into()],
        working_directory: "/workspace".into(),
        network: false,
        mounts: vec![AttributedMount {
            origin: MountOrigin::Workspace,
            mount: Mount::Bind {
                source: ROOT.into(),
                destination: "/workspace".into(),
                access: MountAccess::ReadWrite,
            },
        }],
    });
    app.enter_input();
    app
}

fn nowhere() -> Surroundings {
    Surroundings {
        current_directory: None,
        texts: vec![],
        present: vec![],
        detail: vec![],
        summary: String::new(),
    }
}

/// Every path that is typed is there.
fn typed(app: &mut App, text: &str) {
    open_insert(app);
    for ch in text.chars() {
        handle_insert_key(app, Key::plain(KeyCode::Char(ch)), &None);
    }
    match handle_insert_key(app, Key::plain(KeyCode::Enter), &None) {
        Wanted::Resolve(path) => insert_resolved(app, Ok(path)),
        wanted => panic!("unexpected: {wanted:?}"),
    }
}

#[test]
fn uppercase_w_requests_the_opposite_worktree_state() {
    let mut app = app();
    app.enter_list();
    let live = Live::Pending;
    let mut pending_fold = false;

    let action = handle_list_key(
        &mut app,
        &live,
        Key::plain(KeyCode::Char('W')),
        &mut pending_fold,
        &nowhere(),
    );
    assert_eq!(action, Action::Nothing);
    assert_eq!(app.take_request(), Some(Request::SetWorktreesEnabled(true)));

    app.workspace.worktrees_enabled = true;
    handle_list_key(
        &mut app,
        &live,
        Key::plain(KeyCode::Char('W')),
        &mut pending_fold,
        &nowhere(),
    );
    assert_eq!(
        app.take_request(),
        Some(Request::SetWorktreesEnabled(false))
    );
}

#[test]
fn a_decided_path_goes_into_the_message_being_composed() {
    let mut app = app();

    typed(&mut app, "reports/summary.md");

    assert!(app.insert.is_none());
    assert_eq!(app.composer.text, "/workspace/reports/summary.md");
    assert!(app.launch.interaction.mounts.is_empty());
}

#[test]
fn a_granted_path_is_added_to_this_interactions_mounts() {
    let mut app = app();
    let host = "/elsewhere/notes.txt";

    typed(&mut app, host);
    handle_insert_key(&mut app, Key::plain(KeyCode::Char('w')), &None);

    assert!(app.insert.is_none());
    assert_eq!(
        app.launch.interaction.mounts,
        vec![LaunchMount {
            source: host.into(),
            destination: None,
            writable: true,
        }]
    );
    assert_eq!(app.composer.text, host);
    assert!(app
        .notices
        .iter()
        .iter()
        .any(|message| message.contains("applies when this Session next launches")));
}
