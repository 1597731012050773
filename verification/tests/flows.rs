use styra::activity::Status;
use styra::app::{App, Focus, Surroundings, View};
use styra::event::{DetailBlock, TokenUsage};
use styra::event_loop::{
    enter_workspace, interactions_listed, path_opened, policy_refreshed, refresh_quota,
    selection_applied, sessions_listed, stops_current_interaction, worktrees_set, Entered,
    RunOutcome,
};
use styra::files::{entry_text, places_named};
use styra::ingest::Arrival;
use styra::insert::{complete, Listed};
use styra::key::{Key, KeyCode};
use styra::keys::{
    copied, directory_changed, handle_input_key, handle_insert_key, handle_list_key, insert_listed,
    models_saved, open_insert, policy_saved, queue_answered, selection_saved, send_answered,
    shell_opened, Action, Dispatch, Wanted,
};
use styra::launch::LaunchScope;
use styra::launcher::{Catalog, ProviderEntry};
use styra::loader::{LoadCommand, LoadEvent, Loads};
use styra::notes::{ensure_loaded, needs_loading, workspace_to_list, Noted, Scope};
use styra::outbox::Outbox;
use styra::picker::{handed_over, SessionPicker, PREVIEW_SETTLE_MS};
use styra::protocol::{
    AgentEvent, Contract, Direction, DrivaOptions, Effort, InteractionActivity,
    InteractionSnapshotScope, InteractionSummary, LaunchPolicy, Provider, QueuedMessage,
    QuotaEvent, QuotaStatus, RawLine, Selection, SessionInfo, StoredSession, WorkspaceSummary,
};
use styra::retry::{Pending, Retry};
use styra::session::{
    all_sessions, branched, created, ensure_driva_plan, interrupted, launch_live_session,
    open_session, open_stored, paused, resumed, sent, Live, Refusal,
};
use styra::startup::{
    find_workspace, live_sessions, next, refresh_workspace_context, Invocation, Next,
};
use styra::tag_picker::TagPicker;

fn words(list: &[&str]) -> Vec<String> {
    list.iter().map(|word| (*word).to_owned()).collect()
}

fn catalog() -> Catalog {
    Catalog {
        providers: vec![
            ProviderEntry {
                provider: Provider::Codex,
                name: "codex".into(),
                models: words(&["gpt-5.6-sol", "gpt-5.6-luna", "gpt-5.6-mini"]),
                efforts: vec![Effort::Low, Effort::Medium, Effort::High, Effort::XHigh],
                default_model: "gpt-5.6-sol".into(),
                default_effort: Effort::Medium,
            },
            ProviderEntry {
                provider: Provider::Other(0),
                name: "pi".into(),
                models: words(&["pi-large", "pi-small"]),
                efforts: vec![Effort::Minimal, Effort::Low],
                default_model: "pi-small".into(),
                default_effort: Effort::Low,
            },
            ProviderEntry {
                provider: Provider::Claude,
                name: "assistant".into(),
                models: words(&["opus-5", "sonnet-5", "haiku-5", "opus"]),
                efforts: vec![
                    Effort::Low,
                    Effort::Medium,
                    Effort::High,
                    Effort::XHigh,
                    Effort::Max,
                ],
                default_model: "sonnet-5".into(),
                default_effort: Effort::High,
            },
        ],
    }
}

fn entry(provider: Provider) -> ProviderEntry {
    catalog()
        .providers
        .into_iter()
        .find(|entry| entry.provider == provider)
        .unwrap()
}

/// `provider`, `provider:model` or `provider:model/effort`.
fn parse(text: &str) -> Selection {
    let (provider, rest) = match text.split_once(':') {
        Some((provider, rest)) => (provider, Some(rest)),
        None => (text, None),
    };
    let entry = entry(match provider {
        "codex" => Provider::Codex,
        "assistant" => Provider::Claude,
        _ => Provider::Other(0),
    });
    let (model, effort) = match rest {
        Some(rest) => match rest.split_once('/') {
            Some((model, effort)) => (model.to_owned(), Some(effort)),
            None => (rest.to_owned(), None),
        },
        None => (entry.default_model, None),
    };
    let effort = match effort {
        Some("low") => Effort::Low,
        Some("medium") => Effort::Medium,
        Some("high") => Effort::High,
        Some("xhigh") => Effort::XHigh,
        Some("max") => Effort::Max,
        Some(_) => Effort::Minimal,
        None => entry.default_effort,
    };
    Selection {
        provider: entry.provider,
        model,
        effort,
    }
}

fn running() -> (App, Live) {
    (
        App::new(catalog(), parse("codex"), "s-1".into()),
        Live::Running {
            session_id: "s-1".into(),
            cursor: 0,
        },
    )
}

fn nowhere(app: &App) -> Surroundings {
    Surroundings {
        current_directory: None,
        texts: app
            .timeline
            .entries
            .iter()
            .map(|_| styra::files::EntryText {
                changed: vec![],
                text: String::new(),
            })
            .collect(),
        present: vec![],
        detail: vec![],
        summary: String::new(),
    }
}

fn options() -> DrivaOptions {
    DrivaOptions {
        isolation_backend: "bwrap".into(),
        command: vec!["codex".into()],
        working_directory: "/workspace".into(),
        network: false,
        mounts: vec![],
    }
}

fn info(id: &str) -> SessionInfo {
    SessionInfo {
        id: id.into(),
        name: Some("login".into()),
        workspace_id: "w-1".into(),
        workspace: "/work".into(),
        selection: parse("codex"),
        driva: options(),
        journal_path: "/state/journal.jsonl".into(),
        queued: vec![QueuedMessage::new("waiting".into())],
        updates_after: 9,
    }
}

fn stored(id: &str, workspace: &str, created_at_ms: u64) -> StoredSession {
    StoredSession {
        id: id.into(),
        name: None,
        workspace_id: workspace.into(),
        selection: parse("codex"),
        notes: String::new(),
        created_at_ms,
    }
}

fn interaction(id: &str, workspace: &str, accepting: bool) -> InteractionSummary {
    InteractionSummary {
        id: id.into(),
        name: None,
        workspace_id: workspace.into(),
        selection: parse("codex"),
        workspace: "/work".into(),
        driva: options(),
        accepting,
        activity: InteractionActivity::Pending,
        idle_unseen: false,
        auto_retry: false,
        last_message: None,
        events: 0,
    }
}

fn workspace(id: &str) -> WorkspaceSummary {
    WorkspaceSummary {
        id: id.into(),
        name: Some(format!("the {id} one")),
        notes: String::new(),
        host_path: format!("/home/op/{id}"),
        path: format!("/state/{id}"),
        session_count: 0,
        created_at_ms: 1,
        last_accessed_at_ms: 1,
        launch: LaunchPolicy {
            templates: vec![id.to_owned()],
            ..LaunchPolicy::none()
        },
        git_repository: false,
        worktrees_enabled: true,
    }
}

fn last_log(app: &App) -> &str {
    &app.log.items.last().expect("something was logged").message
}

fn last_notice(app: &App) -> &str {
    app.notices.iter().last().expect("something was said")
}

fn write(app: &mut App, live: &Live, text: &str) -> Dispatch {
    app.enter_input();
    for ch in text.chars() {
        handle_input_key(app, live, Key::plain(KeyCode::Char(ch)));
    }
    handle_input_key(app, live, Key::plain(KeyCode::Enter))
}

// --- Sending -----------------------------------------------------------------

#[test]
fn a_message_to_an_idle_agent_is_sent() {
    let (mut app, live) = running();
    app.activity.status = Status::Idle;
    app.outbox.set_contract(Some(Contract::Lines));
    let Dispatch::Send { session_id, turn } = write(&mut app, &live, "list them") else {
        panic!("expected it to be sent");
    };
    assert_eq!(session_id, "s-1");
    assert_eq!(turn.message, "list them");
    assert_eq!(turn.contract, Some(Contract::Lines));
    assert_eq!(app.outbox.contract(), None, "the next message asks for none");
    assert_eq!(app.focus, Focus::List);
    send_answered(&mut app, Ok(()));
    assert_eq!(app.activity.status, Status::Running);
    send_answered(&mut app, Err("gone".into()));
    assert_eq!(last_log(&app), "send failed: gone");
}

#[test]
fn a_message_to_a_busy_agent_is_queued() {
    let (mut app, live) = running();
    let Dispatch::Queue { session_id, turn } = write(&mut app, &live, "and then") else {
        panic!("expected it to be queued");
    };
    assert_eq!(session_id, "s-1");
    queue_answered(&mut app, turn, Ok(()));
    assert_eq!(app.outbox.queued_count(), 1);
    assert_eq!(last_log(&app), "message queued (1 waiting)");
}

#[test]
fn a_first_message_launches_and_a_failed_launch_returns_it() {
    let mut app = App::pending(catalog(), parse("codex"));
    let mut live = Live::Pending;
    let Dispatch::Create { creation, message } = write(&mut app, &live, "hello") else {
        panic!("expected a launch");
    };
    assert_eq!(creation.message.as_deref(), Some("hello"));
    assert_eq!(creation.selection, parse("codex"));
    created(&mut app, &mut live, Err("no server".into()), message);
    assert_eq!(app.composer.text, "hello");
    assert_eq!(app.focus, Focus::Input);
    assert_eq!(last_log(&app), "could not launch the agent: no server");
    created(&mut app, &mut live, Ok(info("s-2")), "hello".into());
    assert_eq!(app.session_id, "s-2");
    assert_eq!(
        live,
        Live::Running {
            session_id: "s-2".into(),
            cursor: 9
        }
    );
    assert_eq!(last_log(&app), "journal: /state/journal.jsonl");
}

#[test]
fn a_message_to_a_stopped_session_resumes_it() {
    let (mut app, _) = running();
    app.activity.status = Status::Stopped;
    let mut live = Live::Viewing;
    let Dispatch::Resume {
        resume,
        message,
        contract,
    } = write(&mut app, &live, "go on")
    else {
        panic!("expected a resume");
    };
    assert_eq!(resume.id, "s-1");
    let turn = resumed(&mut app, &mut live, Ok(info("s-1")), message, contract)
        .expect("the message is then sent");
    assert_eq!(turn.message, "go on");
    assert_eq!(app.activity.status, Status::Running);
    assert_eq!(app.outbox.queued_count(), 1);
    sent(&mut app, Err("gone".into()));
    assert_eq!(last_log(&app), "send failed: gone");
    assert!(resumed(
        &mut app,
        &mut live,
        Err("unknown".into()),
        "go on".into(),
        None
    )
    .is_none());
    assert_eq!(app.composer.text, "go on");
}

#[test]
fn a_directory_is_changed_in_a_live_session_only() {
    let (mut app, live) = running();
    assert_eq!(
        write(&mut app, &live, "/cd src/net "),
        Dispatch::Directory {
            session_id: "s-1".into(),
            directory: "src/net".into()
        }
    );
    directory_changed(&mut app, "src/net", Ok(()));
    assert_eq!(last_notice(&app), "working directory: src/net");
    directory_changed(&mut app, "src/net", Err("gone".into()));
    assert_eq!(last_log(&app), "could not change working directory: gone");
    assert_eq!(
        write(&mut app, &Live::Viewing, "/cd src"),
        Dispatch::Nothing
    );
    assert_eq!(last_log(&app), "/cd requires a live Codex interaction");
}

#[test]
fn a_blank_message_goes_nowhere() {
    let (mut app, live) = running();
    assert_eq!(write(&mut app, &live, "   "), Dispatch::Nothing);
}

// --- Acting on the session ---------------------------------------------------

fn press(app: &mut App, live: &Live, code: KeyCode) -> Action {
    let around = nowhere(app);
    let mut fold = false;
    handle_list_key(app, live, Key::plain(code), &mut fold, &around)
}

#[test]
fn stopping_clears_the_queue_and_keeps_the_session() {
    let (mut app, mut live) = running();
    app.outbox.queue(QueuedMessage::new("later".into()));
    assert_eq!(
        press(&mut app, &live, KeyCode::Char('S')),
        Action::Stop("s-1".into())
    );
    paused(&mut app, &mut live, Err("gone".into()), Ok(()));
    assert_eq!(last_log(&app), "pause failed: gone");
    paused(&mut app, &mut live, Ok(()), Ok(()));
    assert_eq!(live, Live::Viewing);
    assert_eq!(app.activity.status, Status::Stopped);
    assert_eq!(app.outbox.queued_count(), 0);
    assert_eq!(
        last_log(&app),
        "interaction paused; cleared 1 queued message(s); send a new message to start again"
    );
}

#[test]
fn interrupting_and_branching_answer_in_the_log() {
    let (mut app, live) = running();
    assert_eq!(
        press(&mut app, &live, KeyCode::Char('s')),
        Action::Interrupt("s-1".into())
    );
    interrupted(&mut app, Ok(()));
    assert_eq!(last_log(&app), "interrupt requested");
    interrupted(&mut app, Err("gone".into()));
    assert_eq!(last_log(&app), "interrupt failed: gone");
    assert_eq!(
        press(&mut app, &live, KeyCode::Char('b')),
        Action::Branch {
            session_id: "s-1".into(),
            at_ms: None
        }
    );
    branched(&mut app, Ok(("s-2".into(), Some("retry".into()))));
    assert_eq!(last_log(&app), "branched to session retry");
    assert_eq!(
        app.take_request(),
        Some(styra::app::Request::OpenSession("s-2".into()))
    );
}

#[test]
fn a_branch_starts_at_the_selected_entry() {
    let (mut app, live) = running();
    for at_ms in [10, 20] {
        app.raw.push(RawLine {
            at_ms,
            direction: Direction::FromAgent,
            text: "{}".into(),
        });
        app.push_event(
            AgentEvent::AgentMessage { text: "x".into() },
            Arrival::at(at_ms),
        );
    }
    app.select_first();
    assert_eq!(
        press(&mut app, &live, KeyCode::Char('b')),
        Action::Branch {
            session_id: "s-1".into(),
            at_ms: Some(10)
        }
    );
}

#[test]
fn what_others_did_is_told() {
    let (mut app, live) = running();
    assert_eq!(
        press(&mut app, &live, KeyCode::Char('!')),
        Action::Shell("s-1".into())
    );
    shell_opened(&mut app, Ok("urxvt".into()));
    assert_eq!(last_notice(&app), "opened shell in urxvt");
    shell_opened(&mut app, Err("gone".into()));
    assert_eq!(last_log(&app), "could not open session shell: gone");
    copied(&mut app, Ok(()));
    assert_eq!(last_notice(&app), "copied to clipboard");
    copied(&mut app, Err("no display".into()));
    assert_eq!(last_log(&app), "could not copy to clipboard: no display");
    models_saved(&mut app, Err("disk full".into()));
    assert_eq!(last_log(&app), "could not save the model ordering: disk full");
    selection_saved(&mut app, Err("disk full".into()));
    assert_eq!(last_log(&app), "could not save launch defaults: disk full");
    path_opened(&mut app, "/work/a.rs", "urxvt -e nvim /work/a.rs", Ok(()));
    assert_eq!(last_notice(&app), "opened urxvt -e nvim /work/a.rs");
    path_opened(&mut app, "/work/a.rs", "", Err("gone".into()));
    assert_eq!(last_log(&app), "could not open /work/a.rs: gone");
}

#[test]
fn a_policy_is_kept_for_new_clients() {
    let mut app = App::pending(catalog(), parse("codex"));
    app.view = View::Driva;
    assert_eq!(
        press(&mut app, &Live::Pending, KeyCode::Char('D')),
        Action::SavePolicy(LaunchPolicy::none())
    );
    policy_saved(&mut app, Ok(()));
    assert_eq!(
        last_notice(&app),
        "saved this interaction's settings as the default for new clients"
    );
    policy_saved(&mut app, Err("disk full".into()));
    assert_eq!(
        last_log(&app),
        "could not save the default launch policy: disk full"
    );
}

#[test]
fn completing_a_path_only_adds_to_it() {
    let entries = vec![
        Listed {
            name: "summary.md".into(),
            directory: false,
        },
        Listed {
            name: "summaries".into(),
            directory: true,
        },
    ];
    assert_eq!(complete("reports/s", &entries).unwrap(), "reports/summar");
    assert_eq!(complete("reports/summar", &entries), None);

    let mut app = App::pending(catalog(), parse("codex"));
    app.workspace.enter("/work".into());
    app.enter_input();
    open_insert(&mut app);
    handle_insert_key(&mut app, Key::plain(KeyCode::Char('s')), &None);
    assert_eq!(
        handle_insert_key(&mut app, Key::plain(KeyCode::Tab), &None),
        Wanted::List("/work".into())
    );
    insert_listed(&mut app, &entries);
    assert_eq!(
        app.insert.as_ref().unwrap().state(),
        &styra::insert::Insert::Typing("summar".into())
    );
}

// --- Opening sessions --------------------------------------------------------

#[test]
fn a_stored_session_is_replayed_and_over() {
    let line = |text: &str| RawLine {
        at_ms: 1,
        direction: Direction::FromAgent,
        text: text.into(),
    };
    let (app, live) = open_stored(
        catalog(),
        stored("s-9", "w-1", 5),
        vec![
            (
                AgentEvent::AgentMessage { text: "hi".into() },
                Arrival::at(1),
            ),
            (
                AgentEvent::Unknown {
                    event_type: "ping".into(),
                    raw: "{}".into(),
                },
                Arrival::at(2),
            ),
            (
                AgentEvent::TurnCompleted {
                    usage: TokenUsage::default(),
                },
                Arrival::at(3),
            ),
        ],
        vec![line("one"), line("two"), line("three")],
    );
    assert_eq!(live, Live::Viewing);
    assert_eq!(app.session_id, "s-9");
    assert_eq!(app.timeline.entries.len(), 2, "what has no view is left out");
    assert_eq!(app.raw.iter().len(), 3);
    assert_eq!(app.timeline.entries[1].raw_index, Some(2));
    assert_eq!(
        app.activity.status,
        Status::Ended {
            exit_code: None,
            error: None
        }
    );
}

#[test]
fn a_seeded_session_shows_what_it_was_launched_with() {
    let launch = LaunchPolicy {
        network: Some(true),
        ..LaunchPolicy::none()
    };
    let (app, live) = launch_live_session(catalog(), &launch, info("s-3"));
    assert_eq!(app.session_name.as_deref(), Some("login"));
    assert_eq!(app.launch.interaction, launch);
    assert_eq!(app.launch.driva, Some(options()));
    assert_eq!(app.outbox.queued_count(), 1);
    assert_eq!(
        live,
        Live::Running {
            session_id: "s-3".into(),
            cursor: 9
        }
    );
}

#[test]
fn a_live_session_is_attached_to() {
    let interactions = vec![
        interaction("s-1", "w-1", true),
        interaction("s-2", "w-1", true),
    ];
    assert_eq!(open_session(&interactions, "s-2"), Some(1));
    assert_eq!(open_session(&interactions, "s-3"), None);
}

#[test]
fn sessions_are_listed_newest_first() {
    let sessions = all_sessions(vec![
        stored("old", "w-1", 1),
        stored("new", "w-2", 9),
        stored("mid", "w-1", 5),
    ]);
    let ids: Vec<&str> = sessions.iter().map(|session| session.id.as_str()).collect();
    assert_eq!(ids, ["new", "mid", "old"]);
    let live = live_sessions(sessions, &vec![interaction("mid", "w-1", true)]);
    assert_eq!(live.len(), 1);
    assert_eq!(live[0].id, "mid");
}

#[test]
fn a_plan_that_cannot_be_had_is_told_and_not_asked_for_again() {
    let mut app = App::pending(catalog(), parse("codex"));
    assert!(styra::launch::wants_plan(&app));
    ensure_driva_plan(
        &mut app,
        Err(Refusal {
            brief: "no such template".into(),
            full: "planning: no such template".into(),
        }),
    );
    assert!(!styra::launch::wants_plan(&app));
    assert_eq!(last_notice(&app), "launch policy not applied: no such template");
    assert_eq!(
        last_log(&app),
        "could not describe the sandbox a new interaction would launch in: planning: no such template"
    );
}

// --- Workspaces --------------------------------------------------------------

#[test]
fn a_workspace_is_entered_at_its_live_work() {
    let interactions = vec![
        interaction("elsewhere", "w-2", true),
        interaction("stopped", "w-1", false),
        interaction("live", "w-1", true),
    ];
    assert_eq!(
        enter_workspace(workspace("w-1"), &interactions, Some(3)),
        Entered::Leave(RunOutcome::OpenWorkspace {
            workspace: workspace("w-1"),
            session_id: Some("live".into()),
            open_interactions: true,
        })
    );
    assert_eq!(
        enter_workspace(workspace("w-1"), &interactions, None),
        enter_workspace(workspace("w-1"), &interactions, Some(3)),
        "live work needs no sessions to be listed"
    );
    assert_eq!(
        enter_workspace(workspace("w-3"), &interactions, None),
        Entered::ListSessions(workspace("w-3"))
    );
    assert_eq!(
        enter_workspace(workspace("w-3"), &interactions, Some(3)),
        Entered::PickSession(workspace("w-3"))
    );
    assert_eq!(
        enter_workspace(workspace("w-3"), &interactions, Some(0)),
        Entered::Leave(RunOutcome::OpenWorkspace {
            workspace: workspace("w-3"),
            session_id: None,
            open_interactions: false,
        })
    );
}

#[test]
fn the_screen_shows_the_workspace_it_is_in() {
    let mut app = App::pending(catalog(), parse("codex"));
    app.workspace.id = Some("w-2".into());
    let workspaces = vec![workspace("w-1"), workspace("w-2")];
    assert_eq!(find_workspace(&workspaces, "w-2"), Some(1));
    refresh_workspace_context(&mut app, &workspace("w-1"), &workspaces);
    assert_eq!(app.workspace.name.as_deref(), Some("the w-2 one"));
    assert_eq!(app.launch.workspace.templates, vec!["w-2".to_owned()]);
    refresh_workspace_context(&mut app, &workspace("w-2"), &vec![]);
    assert_eq!(app.workspace.name.as_deref(), Some("the w-2 one"));
}

#[test]
fn what_the_server_says_of_a_workspace_is_taken_over() {
    let (mut app, _) = running();
    worktrees_set(&mut app, true, Ok(&workspace("w-1")));
    assert!(app.workspace.worktrees_enabled);
    assert_eq!(
        last_notice(&app),
        "worktree creation enabled for future launches"
    );
    worktrees_set(&mut app, false, Err("gone".into()));
    assert_eq!(last_log(&app), "could not change worktree creation: gone");
    let policy = LaunchPolicy {
        network: Some(false),
        ..LaunchPolicy::none()
    };
    policy_refreshed(&mut app, policy.copied());
    assert_eq!(app.launch.workspace, policy);
}

#[test]
fn a_new_session_inherits_and_a_reset_does_not() {
    assert_eq!(next(&RunOutcome::NewSession), Next::Inherited);
    assert_eq!(next(&RunOutcome::Reset), Next::Blank);
    assert_eq!(next(&RunOutcome::Quit), Next::Quit);
    assert_eq!(
        next(&RunOutcome::OpenSession("s-1".into())),
        Next::Session {
            id: "s-1".into(),
            open_interactions: false
        }
    );
    let (_, live) = running();
    assert!(stops_current_interaction(&RunOutcome::Reset, &live));
    assert!(!stops_current_interaction(&RunOutcome::NewSession, &live));
}

#[test]
fn a_client_without_a_target_chooses_its_workspace() {
    let bare = || Invocation {
        daemon: false,
        stop: false,
        workspace: None,
        network: false,
        template: vec![],
        view: None,
        shell: None,
        prompt: vec![],
    };
    assert!(bare().chooses_workspace());
    let named = Invocation {
        workspace: Some("/work".into()),
        ..bare()
    };
    assert!(!named.chooses_workspace());
}

// --- Lists from the server ---------------------------------------------------

#[test]
fn empty_lists_are_logged_rather_than_opened() {
    let (mut app, _) = running();
    assert!(!sessions_listed(&mut app, 0));
    assert_eq!(last_log(&app), "no sessions found in the current Workspace");
    assert!(sessions_listed(&mut app, 2));
    interactions_listed(&mut app, vec![], vec![]);
    assert!(!app.interactions.open);
    assert_eq!(last_log(&app), "no live interactions on the server");
    interactions_listed(&mut app, vec![interaction("s-1", "w-1", true)], vec![]);
    assert!(app.interactions.open);
    assert_eq!(app.view, View::Events);
}

#[test]
fn the_quota_log_and_the_selection_answer_or_say_why() {
    let (mut app, _) = running();
    refresh_quota(&mut app, Err("gone".into()));
    assert_eq!(last_log(&app), "could not read the quota log: gone");
    refresh_quota(
        &mut app,
        Ok(vec![QuotaEvent {
            at_ms: 1,
            session_id: "s-1".into(),
            provider: Provider::Codex,
            window: "weekly".into(),
            status: QuotaStatus::Warning,
            resets_at_ms: None,
            detail: None,
        }]),
    );
    assert_eq!(app.quota.items.len(), 1);
    selection_applied(&mut app, &parse("codex:gpt-5.6-luna"), Ok(()));
    assert_eq!(last_notice(&app), "model set to gpt-5.6-luna");
    selection_applied(&mut app, &parse("codex:gpt-5.6-luna"), Err("busy".into()));
    assert_eq!(last_log(&app), "could not switch to gpt-5.6-luna: busy");
}

#[test]
fn notes_are_read_once() {
    let (mut app, _) = running();
    assert!(needs_loading(&app));
    assert_eq!(workspace_to_list(&app, "w-1"), "w-1");
    let noted = |id: &str, notes: &str| Noted {
        id: id.into(),
        notes: notes.into(),
    };
    ensure_loaded(
        &mut app,
        "w-1",
        Ok(vec![noted("s-0", "other"), noted("s-1", "mine")]),
        Err("gone".into()),
    );
    assert!(!needs_loading(&app));
    assert_eq!(app.notes.session, "mine");
    assert_eq!(app.notes.workspace, "");
    assert_eq!(last_log(&app), "could not read Workspace notes: gone");
    ensure_loaded(&mut app, "w-1", Ok(vec![noted("s-1", "newer")]), Ok(vec![]));
    assert_eq!(app.notes.session, "mine");
    assert_ne!(Scope::Session.label(), Scope::Session.other_label());
}

#[test]
fn an_answer_is_taken_by_who_asked_for_it() {
    let mut loads = Loads::start("s-1".into());
    let (cancelled, load) = loads.request(
        "s-2".into(),
        InteractionSnapshotScope::Full,
        "request-1".into(),
    );
    assert_eq!(cancelled, None);
    let LoadCommand::Load(request) = load else {
        panic!("expected a load");
    };
    assert!(loads.is_waiting());
    assert!(loads.is_on("s-2"));
    let event = LoadEvent {
        request_id: request.request_id,
        generation: request.generation,
        id: request.id,
        result: Err("gone".into()),
    };
    assert_eq!(Loads::request_id_of(&event), "request-1");
    assert!(loads.accepts(&event));
    loads.answered();
    assert!(!loads.is_waiting());
    assert!(!loads.accepts(&event));
}

// --- Small things ------------------------------------------------------------

#[test]
fn messages_leave_in_the_order_they_came() {
    let mut outbox = Outbox::default();
    for text in ["one", "two", "three"] {
        outbox.queue(QueuedMessage::new(text.into()));
    }
    let mut taken = vec![];
    while let Some(message) = outbox.take_queued() {
        taken.push(message.text);
    }
    assert_eq!(taken, ["one", "two", "three"]);
}

#[test]
fn a_waiting_turn_is_taken_once() {
    let mut retry = Retry::default();
    retry.arm(Pending {
        at_ms: 100,
        window: "weekly".into(),
        message: "again".into(),
    });
    assert_eq!(retry.take_due(99), None);
    assert!(retry.take_due(100).is_some());
    assert_eq!(retry.take_due(u64::MAX), None);
}

#[test]
fn toggling_a_tag_twice_leaves_what_was_chosen() {
    let mut picker = TagPicker::new(words(&["b", "a", "c"]), words(&["c"]));
    picker.toggle();
    assert_eq!(picker.selected, words(&["a", "c"]));
    picker.toggle();
    assert_eq!(picker.selected, words(&["c"]));
}

#[test]
fn an_entry_is_searched_whole_for_files() {
    let blocks = vec![
        DetailBlock::Text("see src/lib.rs".into()),
        DetailBlock::Code {
            language: None,
            text: "cat README.md".into(),
        },
    ];
    let text = entry_text("changed", &blocks);
    assert_eq!(text, "changed\nsee src/lib.rs\ncat README.md");
    assert_eq!(
        places_named(&text, &Some("/work".into())),
        words(&["/work/src/lib.rs", "/work/README.md"])
    );
}

#[test]
fn a_preview_loads_once_the_selection_rests() {
    let sessions = vec![stored("s-1", "w-1", 1)];
    let mut picker = SessionPicker::new();
    assert!(!picker.look(&sessions, 0));
    assert!(picker.is_loading());
    assert!(!picker.look(&sessions, PREVIEW_SETTLE_MS - 1));
    assert!(picker.look(&sessions, PREVIEW_SETTLE_MS));
    assert!(!picker.is_loading());
    assert_eq!(
        handed_over("codex", "pi"),
        "converted codex session to pi"
    );
}

#[test]
fn each_layer_has_its_own_words() {
    assert_eq!(LaunchScope::Workspace.phrase(), "the Workspace");
    assert_eq!(LaunchScope::Interaction.phrase(), "this interaction");
    assert_eq!(LaunchScope::Workspace.other(), LaunchScope::Interaction);
}
