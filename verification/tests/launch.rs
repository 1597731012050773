use styra::activity::Status;
use styra::app::{App, Request};
use styra::launch::{
    confirm_prompt, cycle_network, history_found, open_prompt, promote_to_workspace, remove_selected_mount,
    select_next_mount, select_prev_mount, set_templates, toggle_scope, toggle_standalone,
    wants_plan, LaunchScope,
};
use styra::event_loop::policy_refreshed;
use styra::launcher::{Catalog, ProviderEntry};
use styra::protocol::{
    DrivaOptions, Effort, LaunchMount, LaunchPolicy, Provider, Selection, WorkspaceLaunchChange,
};

fn words(list: &[&str]) -> Vec<String> {
    list.iter().map(|word| (*word).to_owned()).collect()
}

fn catalog() -> Catalog {
    Catalog {
        providers: vec![
            ProviderEntry {
                provider: Provider::Codex,
                name: "codex".into(),
                models: words(&["gpt-5.6-sol", "gpt-5.6-luna", "gpt-5.6-mini"]),
                efforts: vec![Effort::Low, Effort::Medium, Effort::High, Effort::XHigh],
                default_model: "gpt-5.6-sol".into(),
                default_effort: Effort::Medium,
            },
            ProviderEntry {
                provider: Provider::Other(0),
                name: "pi".into(),
                models: words(&["pi-large", "pi-small"]),
                efforts: vec![Effort::Minimal, Effort::Low],
                default_model: "pi-small".into(),
                default_effort: Effort::Low,
            },
            ProviderEntry {
                provider: Provider::Claude,
                name: "assistant".into(),
                models: words(&["opus-5", "sonnet-5", "haiku-5", "opus"]),
                efforts: vec![
                    Effort::Low,
                    Effort::Medium,
                    Effort::High,
                    Effort::XHigh,
                    Effort::Max,
                ],
                default_model: "sonnet-5".into(),
                default_effort: Effort::High,
            },
        ],
    }
}

fn entry(provider: Provider) -> ProviderEntry {
    catalog()
        .providers
        .into_iter()
        .find(|entry| entry.provider == provider)
        .unwrap()
}

/// `provider`, `provider:model` or `provider:model/effort`.
fn parse(text: &str) -> Selection {
    let (provider, rest) = match text.split_once(':') {
        Some((provider, rest)) => (provider, Some(rest)),
        None => (text, None),
    };
    let entry = entry(match provider {
        "codex" => Provider::Codex,
        "assistant" => Provider::Claude,
        _ => Provider::Other(0),
    });
    let (model, effort) = match rest {
        Some(rest) => match rest.split_once('/') {
            Some((model, effort)) => (model.to_owned(), Some(effort)),
            None => (rest.to_owned(), None),
        },
        None => (entry.default_model, None),
    };
    let effort = match effort {
        Some("low") => Effort::Low,
        Some("medium") => Effort::Medium,
        Some("high") => Effort::High,
        Some("xhigh") => Effort::XHigh,
        Some("max") => Effort::Max,
        Some(_) => Effort::Minimal,
        None => entry.default_effort,
    };
    Selection {
        provider: entry.provider,
        model,
        effort,
    }
}

fn no_policy() -> LaunchPolicy {
    LaunchPolicy {
        network: None,
        templates: Vec::new(),
        mounts: Vec::new(),
        standalone: false,
    }
}

fn workspace_policy() -> LaunchPolicy {
    LaunchPolicy {
        network: Some(true),
        templates: vec!["rust".into()],
        mounts: vec![LaunchMount {
            source: "/srv/corpus".into(),
            destination: None,
            writable: false,
        }],
        standalone: false,
    }
}

fn pending() -> App {
    App::pending(catalog(), parse("codex"))
}

fn running() -> App {
    App::new(catalog(), parse("codex"), "s1".into())
}

fn options(backend: &str) -> DrivaOptions {
    DrivaOptions {
        isolation_backend: backend.into(),
        command: vec!["codex".into()],
        working_directory: "/tmp/styra/workspace".into(),
        network: false,
        mounts: Vec::new(),
    }
}

fn pending_in_a_workspace_with_a_policy() -> App {
    let mut app = pending();
    app.launch.set_workspace(workspace_policy());
    app
}

fn add_mount(app: &mut App, text: &str) {
    app.launch.prompt = Some(text.into());
    confirm_prompt(app, &None);
}

#[test]
fn an_edit_adds_to_the_workspace_policy_rather_than_replacing_it() {
    let mut app = pending_in_a_workspace_with_a_policy();
    assert_eq!(app.launch.effective(), workspace_policy());

    set_templates(&mut app, vec!["rust".into(), "browser".into()]);
    assert_eq!(app.launch.interaction.templates, vec!["browser"]);
    assert!(!app.launch.interaction.standalone);
    assert_eq!(
        app.launch.effective().templates,
        vec!["rust".to_owned(), "browser".to_owned()]
    );

    add_mount(&mut app, "/srv/scratch:rw");
    assert_eq!(app.launch.interaction.mounts.len(), 1);
    assert_eq!(app.launch.effective().mounts.len(), 2);
}

#[test]
fn deselecting_a_workspace_template_makes_the_launch_standalone() {
    let mut app = pending_in_a_workspace_with_a_policy();
    set_templates(&mut app, vec!["browser".into()]);

    assert!(app.launch.interaction.standalone);
    assert_eq!(app.launch.interaction.templates, vec!["browser"]);
    let effective = app.launch.effective();
    assert_eq!(effective.templates, vec!["browser"]);
    assert!(effective.mounts.is_empty());
    assert!(!effective.grants_network());
}

#[test]
fn network_toggles_against_the_workspace_policy_and_back_to_inheriting() {
    let mut app = pending_in_a_workspace_with_a_policy();
    assert!(app.launch.effective().grants_network());

    cycle_network(&mut app);
    assert_eq!(app.launch.interaction.network, Some(false));
    assert!(!app.launch.effective().grants_network());

    cycle_network(&mut app);
    assert_eq!(app.launch.interaction.network, None);
    assert!(app.launch.effective().grants_network());
    assert_eq!(
        app.notices.iter().last().unwrap(),
        "network follows the Workspace policy again (on)"
    );
}

#[test]
fn the_workspace_policys_mounts_are_not_this_interactions_to_add_or_remove() {
    let mut app = pending_in_a_workspace_with_a_policy();
    add_mount(&mut app, "/srv/corpus:ro");
    assert!(app.launch.interaction.mounts.is_empty());

    remove_selected_mount(&mut app);
    assert_eq!(app.launch.effective().mounts, workspace_policy().mounts);

    toggle_standalone(&mut app);
    assert!(app.launch.effective().mounts.is_empty());
}

#[test]
fn the_workspace_layer_is_edited_by_the_same_keys_and_sent_to_the_server() {
    let mut app = pending_in_a_workspace_with_a_policy();
    let effective = app.launch.effective();
    app.launch.plan(parse("codex"), effective, None);
    assert!(!wants_plan(&app));

    toggle_scope(&mut app);
    assert_eq!(app.launch.scope, LaunchScope::Workspace);

    add_mount(&mut app, "/srv/models:ro");
    assert_eq!(app.launch.workspace.mounts.len(), 1);
    assert!(app.launch.interaction.mounts.is_empty());
    let request = app.take_request().unwrap();
    let Request::ChangeWorkspaceLaunch {
        change: WorkspaceLaunchChange::AddMounts(added),
        clear_interaction: false,
    } = request
    else {
        panic!("unexpected request: {request:?}");
    };
    assert!(!wants_plan(&app));
    let mut stored = app.launch.workspace.copied();
    stored.mounts.extend(added);
    app.launch.sync_workspace(stored);
    assert_eq!(app.launch.workspace.mounts.len(), 2);
    assert!(wants_plan(&app));

    add_mount(&mut app, "/srv/models:ro");
    assert_eq!(app.launch.workspace.mounts.len(), 2);

    remove_selected_mount(&mut app);
    assert_eq!(app.launch.workspace.mounts.len(), 2);
    assert!(matches!(
        app.take_request(),
        Some(Request::ChangeWorkspaceLaunch {
            change: WorkspaceLaunchChange::RemoveMount(_),
            clear_interaction: false,
        })
    ));

    set_templates(&mut app, vec!["browser".into()]);
    assert_eq!(app.launch.workspace.templates, vec!["rust"]);
    assert_eq!(
        app.take_request(),
        Some(Request::ChangeWorkspaceLaunch {
            change: WorkspaceLaunchChange::SetTemplates(vec!["browser".into()]),
            clear_interaction: false,
        })
    );
    assert!(app.launch.interaction.templates.is_empty());

    cycle_network(&mut app);
    assert_eq!(app.launch.workspace.network, Some(true));
    assert_eq!(
        app.take_request(),
        Some(Request::ChangeWorkspaceLaunch {
            change: WorkspaceLaunchChange::SetNetwork(Some(false)),
            clear_interaction: false,
        })
    );
    assert_eq!(app.launch.interaction.network, None);
}

#[test]
fn inheriting_stays_this_interactions_own_answer() {
    let mut app = pending_in_a_workspace_with_a_policy();
    toggle_scope(&mut app);
    toggle_standalone(&mut app);
    assert!(!app.launch.interaction.standalone);
    assert!(!app.launch.workspace.standalone);

    toggle_scope(&mut app);
    toggle_standalone(&mut app);
    assert!(app.launch.interaction.standalone);
}

#[test]
fn each_layer_keeps_its_own_mount_cursor() {
    let mut app = pending_in_a_workspace_with_a_policy();
    add_mount(&mut app, "/srv/one");
    add_mount(&mut app, "/srv/two");
    assert_eq!(app.launch.cursor(LaunchScope::Interaction), 1);
    assert_eq!(app.launch.cursor(LaunchScope::Workspace), 0);

    toggle_scope(&mut app);
    select_next_mount(&mut app);
    assert_eq!(app.launch.cursor(LaunchScope::Workspace), 0);
    assert_eq!(app.launch.cursor(LaunchScope::Interaction), 1);

    remove_selected_mount(&mut app);
    assert_eq!(app.launch.workspace.mounts.len(), 1);
    assert!(matches!(
        app.take_request(),
        Some(Request::ChangeWorkspaceLaunch {
            change: WorkspaceLaunchChange::RemoveMount(_),
            clear_interaction: false,
        })
    ));
    assert_eq!(app.launch.interaction.mounts.len(), 2);
}

#[test]
fn promoting_a_policy_to_the_workspace_leaves_the_effective_one_unchanged() {
    let mut app = pending_in_a_workspace_with_a_policy();
    set_templates(&mut app, vec!["rust".into(), "browser".into()]);
    let before = app.launch.effective();

    app.launch.adopt_workspace(before.copied());
    assert!(app.launch.interaction.is_empty());
    assert_eq!(app.launch.effective(), before);
}

#[test]
fn moving_this_interactions_settings_up_needs_some_to_move() {
    let mut app = pending_in_a_workspace_with_a_policy();
    promote_to_workspace(&mut app);
    assert_eq!(app.take_request(), None);

    add_mount(&mut app, "/srv/scratch:rw");
    promote_to_workspace(&mut app);
    assert_eq!(
        app.take_request(),
        Some(Request::ChangeWorkspaceLaunch {
            change: WorkspaceLaunchChange::Replace(app.launch.effective()),
            clear_interaction: true,
        })
    );
}

#[test]
fn added_mounts_are_selected_and_removed_one_at_a_time() {
    let mut app = pending();
    for text in ["/srv/one", "/srv/two:rw", "/srv/three:/mnt/three:ro"] {
        add_mount(&mut app, text);
    }
    assert_eq!(app.launch.interaction.mounts.len(), 3);
    assert_eq!(app.launch.cursor(LaunchScope::Interaction), 2);

    select_prev_mount(&mut app);
    remove_selected_mount(&mut app);
    assert_eq!(
        app.launch
            .interaction
            .mounts
            .iter()
            .map(|mount| mount.source.as_str())
            .collect::<Vec<_>>(),
        ["/srv/one", "/srv/three"]
    );
    select_next_mount(&mut app);
    select_next_mount(&mut app);
    assert_eq!(app.launch.cursor(LaunchScope::Interaction), 1);
    remove_selected_mount(&mut app);
    remove_selected_mount(&mut app);
    assert!(app.launch.interaction.mounts.is_empty());
    assert_eq!(app.launch.cursor(LaunchScope::Interaction), 0);
    remove_selected_mount(&mut app);
    assert_eq!(
        app.notices.iter().last().unwrap(),
        "no added mount to remove"
    );
}

#[test]
fn the_same_mount_is_not_added_twice() {
    let mut app = pending();
    add_mount(&mut app, "/srv/data");
    add_mount(&mut app, "/srv/data:ro");
    assert_eq!(app.launch.interaction.mounts.len(), 1);
}

#[test]
fn an_unparseable_mount_keeps_the_prompt_open() {
    let mut app = pending();
    add_mount(&mut app, "relative/path");
    assert_eq!(app.launch.prompt.as_deref(), Some("relative/path"));
    assert!(app.launch.interaction.mounts.is_empty());
}

#[test]
fn editing_the_launch_inputs_re_asks_for_the_plan() {
    let mut app = pending();
    let effective = app.launch.effective();
    app.launch
        .plan(parse("codex"), effective, Some(options("bwrap")));
    assert!(!wants_plan(&app));

    cycle_network(&mut app);
    assert_eq!(app.launch.interaction.network, Some(true));
    assert!(wants_plan(&app));

    let effective = app.launch.effective();
    app.launch.plan(parse("codex"), effective, None);
    assert!(!wants_plan(&app));

    set_templates(&mut app, vec!["rust".into()]);
    assert!(wants_plan(&app));
    let effective = app.launch.effective();
    app.launch.plan(parse("codex"), effective, None);

    add_mount(&mut app, "/srv/data:rw");
    assert!(wants_plan(&app));
}

#[test]
fn a_planned_policy_is_asked_for_once_per_selection_and_yields_to_a_live_one() {
    let mut app = pending();
    assert!(wants_plan(&app));
    let effective = app.launch.effective();
    app.launch
        .plan(parse("codex"), effective, Some(options("planned")));
    assert!(app.launch.planned);
    assert!(!wants_plan(&app));

    app.selection = parse("assistant");
    assert!(wants_plan(&app));
    let effective = app.launch.effective();
    app.launch.plan(parse("assistant"), effective, None);
    assert!(!wants_plan(&app));
    assert_eq!(
        app.launch.driva.as_ref().unwrap().isolation_backend,
        "planned"
    );

    app.activity.status = Status::Running;
    app.launch.record(options("live"));
    assert!(!app.launch.planned);
    assert!(!wants_plan(&app));
    app.selection = parse("codex");
    assert!(!wants_plan(&app));
    assert_eq!(app.launch.driva.as_ref().unwrap().isolation_backend, "live");
}

#[test]
fn a_stopped_or_ended_session_re_plans_its_policy_before_the_resume() {
    for status in [
        Status::Stopped,
        Status::Ended {
            exit_code: Some(0),
            error: None,
        },
    ] {
        let mut app = running();
        app.launch.record(options("live"));
        assert!(!app.can_edit_launch());
        assert!(!wants_plan(&app));

        app.activity.status = status;
        assert!(app.can_edit_launch());
        assert!(wants_plan(&app));
        let effective = app.launch.effective();
        app.launch
            .plan(parse("codex"), effective, Some(options("live")));
        assert!(!wants_plan(&app));

        add_mount(&mut app, "/srv/data");
        assert_eq!(app.launch.effective().mounts.len(), 1);
        assert!(wants_plan(&app));
    }
}

#[test]
fn a_workspace_policy_change_re_asks_for_the_plan() {
    let mut app = pending();
    let effective = app.launch.effective();
    app.launch.plan(parse("codex"), effective, None);
    assert!(!wants_plan(&app));

    app.launch.set_workspace(workspace_policy());
    assert!(wants_plan(&app));
}

#[test]
fn the_launch_policy_cannot_be_edited_once_an_interaction_is_running() {
    let mut app = running();
    assert!(!app.can_edit_launch());

    cycle_network(&mut app);
    assert_eq!(app.launch.interaction.network, None);
    set_templates(&mut app, vec!["rust".into()]);
    assert!(app.launch.interaction.templates.is_empty());
    open_prompt(&mut app);
    assert!(app.launch.prompt.is_none());
    toggle_standalone(&mut app);
    assert!(!app.launch.interaction.standalone);
    assert_eq!(app.launch.interaction, no_policy());

    let mut pending = pending();
    assert!(pending.can_edit_launch());
    cycle_network(&mut pending);
    assert_eq!(pending.launch.interaction.network, Some(true));
}

fn writable(source: &str) -> LaunchMount {
    LaunchMount {
        source: source.into(),
        destination: None,
        writable: true,
    }
}

fn worktree() -> Option<(String, Vec<String>)> {
    Some((
        "/src/feature".into(),
        vec!["/src/main/.git/worktrees/feature".into(), "/src/main/.git".into()],
    ))
}

#[test]
fn the_git_history_is_mounted_writable_once() {
    let mut app = App::pending(catalog(), parse("codex"));
    app.launch.workspace.mounts = vec![writable("/src/main/.git")];
    history_found(&mut app, worktree());
    assert_eq!(
        app.launch.interaction.mounts,
        [writable("/src/feature"), writable("/src/main/.git/worktrees/feature")]
    );
    assert_eq!(app.launch.selected, (0, 1));
    assert_eq!(
        app.notices.iter().last().unwrap(),
        "added the git history of /src/feature to this interaction"
    );
    history_found(&mut app, worktree());
    assert_eq!(app.launch.interaction.mounts.len(), 2);
    assert_eq!(
        app.notices.iter().last().unwrap(),
        "the git history here is already mounted"
    );
    history_found(&mut app, None);
    assert_eq!(app.notices.iter().last().unwrap(), "no git history here");
}

#[test]
fn the_git_history_for_a_workspace_is_asked_of_the_server() {
    let mut app = App::pending(catalog(), parse("codex"));
    toggle_scope(&mut app);
    assert_eq!(app.launch.scope, LaunchScope::Workspace);
    history_found(&mut app, worktree());
    assert_eq!(
        app.take_request(),
        Some(Request::ChangeWorkspaceLaunch {
            change: WorkspaceLaunchChange::AddMounts(vec![
                writable("/src/feature"),
                writable("/src/main/.git/worktrees/feature"),
                writable("/src/main/.git"),
            ]),
            clear_interaction: false,
        })
    );
    assert!(app.launch.workspace.mounts.is_empty());
}

#[test]
fn a_running_interaction_gets_no_git_history() {
    let mut app = App::new(catalog(), parse("codex"), "s-1".into());
    app.activity.status = Status::Running;
    history_found(&mut app, worktree());
    assert!(app.launch.interaction.mounts.is_empty());
    assert_eq!(
        app.notices.iter().last().unwrap(),
        "the launch policy is fixed while an interaction is running"
    );
}

#[test]
fn one_path_spelled_twice_is_one_mount() {
    let mut app = App::pending(catalog(), parse("codex"));
    assert_eq!(app.launch.add_mount(writable("/srv/corpus")), Ok(()));
    assert_eq!(
        app.launch.add_mount(writable("/srv//corpus/./")),
        Err("this interaction already asks for that mount")
    );
    let read_only = LaunchMount {
        writable: false,
        ..writable("/srv/corpus")
    };
    assert_eq!(app.launch.add_mount(read_only), Ok(()));
    let elsewhere = |destination: &str| LaunchMount {
        destination: Some(destination.into()),
        ..writable("/srv/corpus/")
    };
    assert_eq!(app.launch.add_mount(elsewhere("/data")), Ok(()));
    assert!(app.launch.add_mount(elsewhere("/data/")).is_err());
    assert_eq!(app.launch.add_mount(elsewhere("/data/x")), Ok(()));
}

#[test]
fn a_policy_that_spells_its_paths_otherwise_is_no_change() {
    let mut app = App::pending(catalog(), parse("codex"));
    let with = |source: &str| LaunchPolicy {
        mounts: vec![writable(source)],
        ..LaunchPolicy::none()
    };
    policy_refreshed(&mut app, with("/srv/corpus"));
    app.launch.selected = (0, 0);
    policy_refreshed(&mut app, with("/srv/corpus/"));
    assert_eq!(app.launch.workspace.mounts[0].source, "/srv/corpus");
    policy_refreshed(&mut app, with("/srv/other"));
    assert_eq!(app.launch.workspace.mounts[0].source, "/srv/other");
}
