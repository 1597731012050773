use styra::activity::Status;
use styra::app::App;
use styra::event::TokenUsage;
use styra::ingest::Arrival;
use styra::launcher::{Catalog, ProviderEntry};
use styra::protocol::{
    AgentEvent, Arrived, Contract, DrivaOptions, Effort, InteractionActivity, InteractionSnapshot,
    InteractionSnapshotScope, InteractionSummary, InteractionUpdate, LaunchPolicy, Provider,
    Selection, WorkspaceSummary,
};
use styra::session::{
    app_from_interaction_snapshot, attached_live, enclosing_git_repository,
    find_workspace_for_host, mark_stopped, next_contract, session_id_from_target, Live,
};

fn words(list: &[&str]) -> Vec<String> {
    list.iter().map(|word| (*word).to_owned()).collect()
}

fn catalog() -> Catalog {
    Catalog {
        providers: vec![
            ProviderEntry {
                provider: Provider::Codex,
                name: "codex".into(),
                models: words(&["gpt-5.6-sol", "gpt-5.6-luna", "gpt-5.6-mini"]),
                efforts: vec![Effort::Low, Effort::Medium, Effort::High, Effort::XHigh],
                default_model: "gpt-5.6-sol".into(),
                default_effort: Effort::Medium,
            },
            ProviderEntry {
                provider: Provider::Other(0),
                name: "pi".into(),
                models: words(&["pi-large", "pi-small"]),
                efforts: vec![Effort::Minimal, Effort::Low],
                default_model: "pi-small".into(),
                default_effort: Effort::Low,
            },
            ProviderEntry {
                provider: Provider::Claude,
                name: "assistant".into(),
                models: words(&["opus-5", "sonnet-5", "haiku-5", "opus"]),
                efforts: vec![
                    Effort::Low,
                    Effort::Medium,
                    Effort::High,
                    Effort::XHigh,
                    Effort::Max,
                ],
                default_model: "sonnet-5".into(),
                default_effort: Effort::High,
            },
        ],
    }
}

fn entry(provider: Provider) -> ProviderEntry {
    catalog()
        .providers
        .into_iter()
        .find(|entry| entry.provider == provider)
        .unwrap()
}

/// `provider`, `provider:model` or `provider:model/effort`.
fn parse(text: &str) -> Selection {
    let (provider, rest) = match text.split_once(':') {
        Some((provider, rest)) => (provider, Some(rest)),
        None => (text, None),
    };
    let entry = entry(match provider {
        "codex" => Provider::Codex,
        "assistant" => Provider::Claude,
        _ => Provider::Other(0),
    });
    let (model, effort) = match rest {
        Some(rest) => match rest.split_once('/') {
            Some((model, effort)) => (model.to_owned(), Some(effort)),
            None => (rest.to_owned(), None),
        },
        None => (entry.default_model, None),
    };
    let effort = match effort {
        Some("low") => Effort::Low,
        Some("medium") => Effort::Medium,
        Some("high") => Effort::High,
        Some("xhigh") => Effort::XHigh,
        Some("max") => Effort::Max,
        Some(_) => Effort::Minimal,
        None => entry.default_effort,
    };
    Selection {
        provider: entry.provider,
        model,
        effort,
    }
}

fn workspace(id: &str, host_path: &str) -> WorkspaceSummary {
    WorkspaceSummary {
        id: id.into(),
        name: None,
        notes: String::new(),
        host_path: host_path.into(),
        git_repository: false,
        worktrees_enabled: false,
        path: format!("/state/workspaces/{id}"),
        session_count: 0,
        created_at_ms: 1,
        last_accessed_at_ms: 1,
        launch: LaunchPolicy::none(),
    }
}

fn app() -> App {
    App::new(catalog(), parse("codex"), "session-1".into())
}

fn interaction_snapshot(
    activity: InteractionActivity,
    accepting: bool,
    updates: Vec<InteractionUpdate>,
) -> InteractionSnapshot {
    InteractionSnapshot {
        request_id: "preview-1".into(),
        interaction: InteractionSummary {
            id: "session-1".into(),
            name: None,
            workspace_id: "workspace-1".into(),
            selection: parse("codex"),
            workspace: "/workspace".into(),
            driva: DrivaOptions {
                isolation_backend: "none".into(),
                command: vec![],
                working_directory: "/workspace".into(),
                network: false,
                mounts: vec![],
            },
            accepting,
            activity,
            idle_unseen: false,
            auto_retry: false,
            last_message: None,
            events: 0,
        },
        background_work: activity == InteractionActivity::Background,
        next: updates.len() as u64,
        updates: updates
            .into_iter()
            .map(|update| Arrived {
                update,
                arrival: Arrival::at(0),
                description: String::new(),
            })
            .collect(),
        queued: vec![],
        scope: InteractionSnapshotScope::Preview { limit: 5 },
    }
}

fn trailing_agent_message() -> Vec<InteractionUpdate> {
    vec![InteractionUpdate::Event(AgentEvent::AgentMessage {
        text: "finished".into(),
    })]
}

fn completed() -> AgentEvent {
    AgentEvent::TurnCompleted {
        usage: TokenUsage::default(),
    }
}

#[test]
fn idle_preview_uses_the_snapshot_activity_after_conversation_replay() {
    let (app, live) = app_from_interaction_snapshot(
        catalog(),
        interaction_snapshot(InteractionActivity::Pending, true, trailing_agent_message()),
    );

    assert_eq!(app.activity.status, Status::Idle);
    assert_eq!(
        live,
        Live::Running {
            session_id: "session-1".into(),
            cursor: 1,
        }
    );
}

#[test]
fn background_preview_keeps_background_state_after_conversation_replay() {
    let (mut app, _) = app_from_interaction_snapshot(
        catalog(),
        interaction_snapshot(
            InteractionActivity::Background,
            true,
            trailing_agent_message(),
        ),
    );

    assert_eq!(app.activity.status, Status::Background);
    app.push_event(completed(), Arrival::at(0));
    assert_eq!(app.activity.status, Status::Background);
}

#[test]
fn running_preview_remembers_coexisting_background_work() {
    let mut snapshot =
        interaction_snapshot(InteractionActivity::Running, true, trailing_agent_message());
    snapshot.background_work = true;
    let (mut app, _) = app_from_interaction_snapshot(catalog(), snapshot);

    assert_eq!(app.activity.status, Status::Running);
    app.push_event(completed(), Arrival::at(0));
    assert_eq!(app.activity.status, Status::Background);
}

#[test]
fn stopped_preview_overrides_every_active_replayed_status() {
    let updates = vec![
        InteractionUpdate::Event(AgentEvent::BackgroundTasks { running: 1 }),
        InteractionUpdate::Event(completed()),
    ];
    let (app, live) = app_from_interaction_snapshot(
        catalog(),
        interaction_snapshot(InteractionActivity::Background, false, updates),
    );

    assert_eq!(app.activity.status, Status::Stopped);
    assert_eq!(live, Live::Viewing);
}

#[test]
fn stopped_session_is_viewed_until_its_next_message_resumes_it() {
    let mut app = app();
    let mut live = Live::Running {
        session_id: "session-1".into(),
        cursor: 7,
    };

    mark_stopped(&mut app, &mut live);

    assert_eq!(app.session_id, "session-1");
    assert_eq!(app.activity.status, Status::Stopped);
    assert_eq!(live, Live::Viewing);
}

#[test]
fn stopped_server_interaction_is_opened_as_resumable_history() {
    assert_eq!(attached_live("session-1".into(), 7, false), Live::Viewing);
    assert_eq!(
        attached_live("session-1".into(), 7, true),
        Live::Running {
            session_id: "session-1".into(),
            cursor: 7,
        }
    );
}

#[test]
fn finds_the_workspace_associated_with_the_host_directory() {
    let workspaces = vec![
        workspace("w-other", "/home/op/other"),
        workspace("w-project", "/home/op/project"),
    ];

    let found = find_workspace_for_host(&workspaces, "/home/op/project").unwrap();

    assert_eq!(workspaces[found].id, "w-project");
}

#[test]
fn does_not_associate_a_different_directory() {
    let workspaces = vec![workspace("w-project", "/home/op/project")];

    assert!(find_workspace_for_host(&workspaces, "/home/op/elsewhere").is_none());
}

#[test]
fn the_nearest_repository_above_a_path_encloses_it() {
    let repositories = vec!["/home/op".to_owned(), "/home/op/project".to_owned()];
    assert_eq!(
        enclosing_git_repository("/home/op/project/src", &repositories),
        Some("/home/op/project".into())
    );
    assert_eq!(enclosing_git_repository("/srv/data", &repositories), None);
}

#[test]
fn a_target_names_its_session() {
    assert_eq!(
        session_id_from_target("/state/sessions/styra-1").unwrap(),
        "styra-1"
    );
    assert_eq!(session_id_from_target("styra-1").unwrap(), "styra-1");
    assert!(session_id_from_target("/").is_err());
}

#[test]
fn shapes_come_round_to_none() {
    let mut contract = None;
    let mut seen: Vec<Option<Contract>> = vec![];
    while !seen.contains(&contract) {
        seen.push(contract);
        contract = next_contract(contract);
    }
    assert_eq!(contract, None);
    assert_eq!(seen.len(), 5);
}
