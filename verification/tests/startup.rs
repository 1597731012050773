use styra::app::App;
use styra::key::{Key, KeyCode};
use styra::keys::{handle_launcher_key, Kept};
use styra::launcher::{Catalog, ProviderEntry};
use styra::preferences::{load_or_default, save_selection, Defaults, Stored};
use styra::protocol::{Effort, LaunchPolicy, Provider, Selection, WorkspaceSummary};
use styra::startup::{pending_app, workspace_for_new_session, Invocation, Start};

fn words(list: &[&str]) -> Vec<String> {
    list.iter().map(|word| (*word).to_owned()).collect()
}

fn catalog() -> Catalog {
    Catalog {
        providers: vec![
            ProviderEntry {
                provider: Provider::Codex,
                name: "codex".into(),
                models: words(&["gpt-5.6-sol", "gpt-5.6-luna", "gpt-5.6-mini"]),
                efforts: vec![Effort::Low, Effort::Medium, Effort::High, Effort::XHigh],
                default_model: "gpt-5.6-sol".into(),
                default_effort: Effort::Medium,
            },
            ProviderEntry {
                provider: Provider::Other(0),
                name: "pi".into(),
                models: words(&["pi-large", "pi-small"]),
                efforts: vec![Effort::Minimal, Effort::Low],
                default_model: "pi-small".into(),
                default_effort: Effort::Low,
            },
            ProviderEntry {
                provider: Provider::Claude,
                name: "assistant".into(),
                models: words(&["opus-5", "sonnet-5", "haiku-5", "opus"]),
                efforts: vec![
                    Effort::Low,
                    Effort::Medium,
                    Effort::High,
                    Effort::XHigh,
                    Effort::Max,
                ],
                default_model: "sonnet-5".into(),
                default_effort: Effort::High,
            },
        ],
    }
}

fn entry(provider: Provider) -> ProviderEntry {
    catalog()
        .providers
        .into_iter()
        .find(|entry| entry.provider == provider)
        .unwrap()
}

/// `provider`, `provider:model` or `provider:model/effort`.
fn parse(text: &str) -> Selection {
    let (provider, rest) = match text.split_once(':') {
        Some((provider, rest)) => (provider, Some(rest)),
        None => (text, None),
    };
    let entry = entry(match provider {
        "codex" => Provider::Codex,
        "assistant" => Provider::Claude,
        _ => Provider::Other(0),
    });
    let (model, effort) = match rest {
        Some(rest) => match rest.split_once('/') {
            Some((model, effort)) => (model.to_owned(), Some(effort)),
            None => (rest.to_owned(), None),
        },
        None => (entry.default_model, None),
    };
    let effort = match effort {
        Some("low") => Effort::Low,
        Some("medium") => Effort::Medium,
        Some("high") => Effort::High,
        Some("xhigh") => Effort::XHigh,
        Some("max") => Effort::Max,
        Some(_) => Effort::Minimal,
        None => entry.default_effort,
    };
    Selection {
        provider: entry.provider,
        model,
        effort,
    }
}

fn workspace(id: &str, host_path: &str) -> WorkspaceSummary {
    WorkspaceSummary {
        id: id.into(),
        name: None,
        notes: String::new(),
        host_path: host_path.into(),
        git_repository: false,
        worktrees_enabled: false,
        path: format!("/state/workspaces/{id}"),
        session_count: 0,
        created_at_ms: 0,
        last_accessed_at_ms: 0,
        launch: LaunchPolicy::none(),
    }
}

#[test]
fn new_session_uses_the_workspace_of_the_interaction_being_viewed() {
    let active = workspace("first", "/work/first");
    let workspaces = vec![
        workspace("first", "/work/first"),
        workspace("viewed", "/work/viewed"),
    ];
    let selection = parse("codex:gpt-5.6-sol/high");
    let mut app = App::pending(catalog(), selection.copied());
    app.workspace.id = Some("viewed".into());

    let inherited = workspace_for_new_session(&app, &active, &workspaces).unwrap();
    let pending = pending_app(
        catalog(),
        selection.copied(),
        app.launch.interaction.copied(),
        &workspaces[inherited],
    );

    assert_eq!(workspaces[inherited], workspace("viewed", "/work/viewed"));
    assert_eq!(pending.workspace.id.as_deref(), Some("viewed"));
    assert_eq!(
        pending.workspace.root().map(String::as_str),
        Some("/work/viewed")
    );
    assert_eq!(pending.selection, selection);
}

#[test]
fn a_new_session_starts_from_the_policy_of_the_workspace_it_lands_in() {
    let selection = parse("codex:gpt-5.6-sol/high");
    let mut landed_in = workspace("second", "/work/second");
    landed_in.launch = LaunchPolicy {
        templates: vec!["rust".into()],
        ..LaunchPolicy::none()
    };
    let carried = LaunchPolicy {
        templates: vec!["browser".into()],
        ..LaunchPolicy::none()
    };

    let pending = pending_app(catalog(), selection, carried.copied(), &landed_in);

    assert_eq!(pending.launch.workspace, landed_in.launch);
    assert_eq!(pending.launch.interaction, carried);
    assert_eq!(
        pending.launch.effective().templates,
        vec!["rust".to_owned(), "browser".to_owned()]
    );
}

#[test]
fn confirming_the_launcher_selects_for_this_workspace_without_saving_a_default() {
    let selection = parse("assistant:sonnet-5/max");
    let mut app = App::pending(catalog(), selection.copied());
    app.open_launcher();

    let kept = handle_launcher_key(&mut app, Key::plain(KeyCode::Enter));

    assert_eq!(app.selection, selection);
    assert_ne!(kept, Kept::ModelsAndSelection);
}

#[test]
fn j_and_k_move_the_launcher_and_confirming_remembers_the_model() {
    let mut app = App::pending(catalog(), parse("assistant"));
    app.open_launcher();
    let opened_on = app.launcher.as_ref().unwrap().model;

    for code in [
        KeyCode::Char('l'),
        KeyCode::Char('j'),
        KeyCode::Char('j'),
        KeyCode::Char('k'),
    ] {
        assert_eq!(
            handle_launcher_key(&mut app, Key::plain(code)),
            Kept::Nothing
        );
    }
    let moved_to = app.launcher.as_ref().unwrap().selection(&catalog()).model;
    assert_eq!(moved_to, entry(Provider::Claude).models[opened_on + 1]);

    let kept = handle_launcher_key(&mut app, Key::plain(KeyCode::Enter));
    assert_eq!(app.selection.model, moved_to);
    assert_eq!(kept, Kept::Models, "Enter does not save a default selection");
    assert_eq!(app.recent_models, vec![moved_to.clone()]);

    app.open_launcher();
    let launcher = app.launcher.as_ref().unwrap();
    assert_eq!(launcher.models(&catalog()).first(), Some(&moved_to));
    assert_eq!(launcher.model, 0, "and opens on it");
}

#[test]
fn the_launcher_can_explicitly_save_the_selection_as_the_default() {
    let selection = parse("assistant:sonnet-5/max");
    let mut app = App::pending(catalog(), selection.copied());
    app.open_launcher();

    let kept = handle_launcher_key(&mut app, Key::plain(KeyCode::Char('D')));

    assert_eq!(kept, Kept::ModelsAndSelection);
    let before = load_or_default(&catalog(), "/defaults.json", Stored::Absent, Ok(()));
    let written = save_selection(&catalog(), before, &app.selection);
    assert_eq!(
        load_or_default(&catalog(), "/defaults.json", Stored::Current(written), Ok(()))
            .unwrap()
            .selection,
        selection
    );
}

fn invocation() -> Invocation {
    Invocation {
        daemon: false,
        stop: false,
        workspace: None,
        network: false,
        template: vec![],
        view: None,
        shell: None,
        prompt: vec![],
    }
}

#[test]
fn what_was_asked_for_decides_what_happens_first() {
    assert_eq!(invocation().first(), Start::Work);
    let shell = |session: Option<&str>| Invocation {
        shell: Some(session.map(str::to_owned)),
        ..invocation()
    };
    assert_eq!(
        shell(Some("styra-123")).first(),
        Start::AttachShell("styra-123".into())
    );
    assert_eq!(shell(None).first(), Start::BrowseShells);
    let view = |target: Option<&str>| Invocation {
        view: Some(target.map(str::to_owned)),
        ..invocation()
    };
    assert_eq!(view(Some("styra-9")).first(), Start::View("styra-9".into()));
    assert_eq!(view(None).first(), Start::BrowseSessions);
    assert_eq!(
        Invocation {
            stop: true,
            ..invocation()
        }
        .first(),
        Start::StopDaemon
    );
    assert_eq!(
        Invocation {
            daemon: true,
            ..invocation()
        }
        .first(),
        Start::StartDaemon
    );
}

#[test]
fn the_words_of_a_prompt_are_joined() {
    assert_eq!(invocation().seed(), None);
    assert_eq!(
        Invocation {
            prompt: words(&["fix", "the", "login"]),
            ..invocation()
        }
        .seed(),
        Some("fix the login".into())
    );
}

#[test]
fn the_command_line_adds_to_the_standing_policy() {
    let asked = Invocation {
        network: true,
        template: words(&["rust"]),
        ..invocation()
    };
    let (selection, launch) = asked.standing_launch(Defaults::first(&catalog()));
    assert_eq!(selection, parse("codex"));
    assert!(launch.grants_network());
    assert_eq!(launch.templates, vec!["rust".to_owned()]);
}
