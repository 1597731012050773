use styra::activity::Status;
use styra::app::{App, Request, Surroundings, View};
use styra::event_loop::{
    auto_retry_set, handle_key, idle_sought, interaction_deleted, interaction_navigator_passthrough,
    interaction_stopped_by, make_interaction_current, provider_converted, queue_sent, serve,
    updates_read, Deleted, LaunchEffectResult, LaunchEffects, Moment, RunOutcome, Served, Stage,
    Step, Tick, Work, INTERACTIONS_REFRESH_MS,
};
use styra::launcher::{Catalog, ProviderEntry};
use styra::key::{Key, KeyCode};
use styra::keys::Action;
use styra::protocol::{
    DrivaOptions, Effort, InteractionActivity, InteractionSummary, LaunchPolicy, Provider,
    QueuedMessage, Selection,
};
use styra::session::{Live, Refusal};

fn words(list: &[&str]) -> Vec<String> {
    list.iter().map(|word| (*word).to_owned()).collect()
}

fn catalog() -> Catalog {
    Catalog {
        providers: vec![
            ProviderEntry {
                provider: Provider::Codex,
                name: "codex".into(),
                models: words(&["gpt-5.6-sol", "gpt-5.6-luna", "gpt-5.6-mini"]),
                efforts: vec![Effort::Low, Effort::Medium, Effort::High, Effort::XHigh],
                default_model: "gpt-5.6-sol".into(),
                default_effort: Effort::Medium,
            },
            ProviderEntry {
                provider: Provider::Other(0),
                name: "pi".into(),
                models: words(&["pi-large", "pi-small"]),
                efforts: vec![Effort::Minimal, Effort::Low],
                default_model: "pi-small".into(),
                default_effort: Effort::Low,
            },
            ProviderEntry {
                provider: Provider::Claude,
                name: "assistant".into(),
                models: words(&["opus-5", "sonnet-5", "haiku-5", "opus"]),
                efforts: vec![
                    Effort::Low,
                    Effort::Medium,
                    Effort::High,
                    Effort::XHigh,
                    Effort::Max,
                ],
                default_model: "sonnet-5".into(),
                default_effort: Effort::High,
            },
        ],
    }
}

fn entry(provider: Provider) -> ProviderEntry {
    catalog()
        .providers
        .into_iter()
        .find(|entry| entry.provider == provider)
        .unwrap()
}

/// `provider`, `provider:model` or `provider:model/effort`.
fn parse(text: &str) -> Selection {
    let (provider, rest) = match text.split_once(':') {
        Some((provider, rest)) => (provider, Some(rest)),
        None => (text, None),
    };
    let entry = entry(match provider {
        "codex" => Provider::Codex,
        "assistant" => Provider::Claude,
        _ => Provider::Other(0),
    });
    let (model, effort) = match rest {
        Some(rest) => match rest.split_once('/') {
            Some((model, effort)) => (model.to_owned(), Some(effort)),
            None => (rest.to_owned(), None),
        },
        None => (entry.default_model, None),
    };
    let effort = match effort {
        Some("low") => Effort::Low,
        Some("medium") => Effort::Medium,
        Some("high") => Effort::High,
        Some("xhigh") => Effort::XHigh,
        Some("max") => Effort::Max,
        Some(_) => Effort::Minimal,
        None => entry.default_effort,
    };
    Selection {
        provider: entry.provider,
        model,
        effort,
    }
}

#[test]
fn stopping_is_a_navigator_passthrough_action() {
    assert!(interaction_navigator_passthrough(&KeyCode::Char('S')));
    assert!(interaction_navigator_passthrough(&KeyCode::Char('i')));
    assert!(!interaction_navigator_passthrough(&KeyCode::Char('l')));
}

#[test]
fn workspace_acknowledgement_updates_the_snapshot_and_clears_pending() {
    let effects = LaunchEffects::new();
    let mut app = App::pending(catalog(), parse("codex:gpt-5.6-sol/high"));
    app.workspace_launch_pending = 1;
    let policy = LaunchPolicy {
        templates: vec!["rust".into()],
        ..LaunchPolicy::none()
    };

    effects.apply_ready(
        &mut app,
        "workspace",
        vec![LaunchEffectResult::WorkspaceChanged {
            workspace_id: "workspace".into(),
            clear_interaction: false,
            result: Ok(policy.copied()),
        }],
    );

    assert_eq!(app.workspace_launch_pending, 0);
    assert_eq!(app.launch.workspace, policy);
    assert!(app
        .notices
        .iter()
        .iter()
        .any(|notice| notice == "Workspace launch policy saved"));
}

#[test]
fn workspace_edit_failure_is_visible_without_opening_the_log() {
    let effects = LaunchEffects::new();
    let mut app = App::pending(catalog(), parse("codex:gpt-5.6-sol/high"));
    app.workspace_launch_pending = 1;

    effects.apply_ready(
        &mut app,
        "workspace",
        vec![LaunchEffectResult::WorkspaceChanged {
            workspace_id: "workspace".into(),
            clear_interaction: false,
            result: Err("disk full".into()),
        }],
    );

    assert_eq!(app.workspace_launch_pending, 0);
    assert!(app
        .notices
        .iter()
        .iter()
        .any(|notice| notice.contains("disk full")));
}

#[test]
fn quitting_and_switching_detach_but_reset_stops_the_running_interaction() {
    let live = Live::Running {
        session_id: "styra-live".into(),
        cursor: 7,
    };

    assert_eq!(interaction_stopped_by(&RunOutcome::Quit, &live), None);
    assert_eq!(
        interaction_stopped_by(&RunOutcome::OpenSession("styra-other".into()), &live),
        None
    );
    assert_eq!(
        interaction_stopped_by(&RunOutcome::Reset, &live),
        Some("styra-live")
    );
    assert_eq!(interaction_stopped_by(&RunOutcome::NewSession, &live), None);
}

fn nowhere() -> Surroundings {
    Surroundings {
        current_directory: None,
        texts: vec![],
        present: vec![],
        detail: vec![],
        summary: String::new(),
    }
}

fn moment(now: u64) -> Moment {
    Moment {
        home: None,
        now,
        around: nowhere(),
    }
}

fn running(id: &str) -> (App, Live) {
    (
        App::new(catalog(), parse("codex"), id.into()),
        Live::Running {
            session_id: id.into(),
            cursor: 3,
        },
    )
}

fn interaction(id: &str, accepting: bool) -> InteractionSummary {
    InteractionSummary {
        id: id.into(),
        name: None,
        workspace_id: "workspace".into(),
        selection: parse("codex"),
        workspace: "/workspace".into(),
        driva: DrivaOptions {
            isolation_backend: "none".into(),
            command: vec![],
            working_directory: "/workspace".into(),
            network: false,
            mounts: vec![],
        },
        accepting,
        activity: InteractionActivity::Pending,
        idle_unseen: false,
        auto_retry: false,
        last_message: None,
        events: 0,
    }
}

#[test]
fn a_tick_does_its_work_in_order_and_ends_with_the_screen() {
    let (mut app, live) = running("one");
    app.activity.status = Status::Idle;
    app.outbox.queue(QueuedMessage::new("next".into()));
    app.interactions.open(
        vec![interaction("one", true), interaction("two", true)],
        vec![],
    );
    app.interactions.cursor_next("one", None, 0);
    let mut tick = Tick::start(0);
    let now = INTERACTIONS_REFRESH_MS;
    let mut done = vec![];
    loop {
        let work = tick.next(&mut app, &live, "workspace", now);
        let last = work == Work::Show;
        done.push(work);
        if last {
            break;
        }
    }
    assert_eq!(
        done,
        vec![
            Work::ReadPolicy("workspace".into()),
            Work::ReadUpdates {
                session_id: "one".into(),
                after: 3
            },
            Work::ListInteractions,
            Work::Load("two".into()),
            Work::SendQueued("one".into()),
            Work::Show,
        ]
    );
    assert_eq!(
        tick,
        Tick {
            stage: Stage::Policy,
            refreshed: now
        }
    );
    assert_eq!(app.activity.progress(now).in_status, 0);
}

#[test]
fn an_unlaunched_screen_asks_for_its_plan() {
    let mut app = App::pending(catalog(), parse("codex"));
    let mut tick = Tick::start(0);
    assert_eq!(
        tick.next(&mut app, &Live::Pending, "", 10),
        Work::ReadPolicy("".into())
    );
    assert!(matches!(
        tick.next(&mut app, &Live::Pending, "", 10),
        Work::AskPlan(_)
    ));
    assert_eq!(tick.next(&mut app, &Live::Pending, "", 10), Work::Show);
}

#[test]
fn a_failed_poll_ends_the_session_for_this_screen() {
    let (mut app, mut live) = running("one");
    updates_read(
        &mut app,
        &mut live,
        Err(Refusal {
            brief: "refused".into(),
            full: "connecting: refused".into(),
        }),
    );
    assert_eq!(live, Live::Viewing);
    assert_eq!(
        app.activity.status,
        Status::Ended {
            exit_code: None,
            error: Some("refused".into())
        }
    );
}

#[test]
fn a_waiting_message_that_was_sent_is_announced() {
    let (mut app, _) = running("one");
    app.activity.status = Status::Idle;
    queue_sent(
        &mut app,
        Ok((true, vec![QueuedMessage::new("later".into())])),
    );
    assert_eq!(app.activity.status, Status::Running);
    assert_eq!(app.outbox.queued_count(), 1);
    assert_eq!(
        app.notices.iter().last().unwrap(),
        "sent queued message automatically (1 still waiting)"
    );
}

#[test]
fn help_keeps_its_keys_from_the_screen_under_it() {
    let (mut app, live) = running("one");
    let mut fold = false;
    let mut press = |app: &mut App, code| {
        handle_key(app, &live, Key::plain(code), &mut fold, &moment(0))
    };
    assert_eq!(press(&mut app, KeyCode::Char('?')), Step::Done);
    assert!(app.help.is_open());
    press(&mut app, KeyCode::Char('l'));
    assert_eq!(app.view, View::Events);
    press(&mut app, KeyCode::Char('q'));
    assert!(!app.help.is_open());
    assert_eq!(app.take_request(), None);
}

#[test]
fn a_key_settles_the_cursor_before_it_acts() {
    let (mut app, live) = running("one");
    app.interactions.open(
        vec![interaction("one", true), interaction("two", false)],
        vec![],
    );
    let mut fold = false;
    assert_eq!(
        handle_key(&mut app, &live, Key::plain(KeyCode::Char('j')), &mut fold, &moment(0)),
        Step::Done
    );
    assert_eq!(
        handle_key(&mut app, &live, Key::plain(KeyCode::Char('D')), &mut fold, &moment(1)),
        Step::Settle("two".into())
    );
}

#[test]
fn deleting_the_last_interaction_leaves_the_screen() {
    let (mut app, _) = running("one");
    app.interactions.open(
        vec![interaction("one", false), interaction("two", false)],
        vec![],
    );
    assert_eq!(
        interaction_deleted(&mut app, "one", Ok(())),
        Deleted::Load("two".into())
    );
    assert_eq!(
        interaction_deleted(&mut app, "two", Ok(())),
        Deleted::Leave
    );
    assert!(!app.interactions.open);
    assert_eq!(
        interaction_deleted(&mut app, "two", Err("gone".into())),
        Deleted::Nothing
    );
}

#[test]
fn switching_keeps_the_draft_and_takes_the_standing_policy() {
    let (mut app, mut live) = running("one");
    app.set_input("half a thought".into());
    let standing = LaunchPolicy {
        templates: vec!["rust".into()],
        ..LaunchPolicy::none()
    };
    let next = running("two");
    make_interaction_current(&mut app, &mut live, &standing, "two", Ok(next));
    assert_eq!(app.session_id, "two");
    assert_eq!(app.composer.text, "half a thought");
    assert_eq!(app.launch.interaction, standing);
    make_interaction_current(&mut app, &mut live, &standing, "three", Err("gone".into()));
    assert_eq!(app.session_id, "two");
    assert_eq!(
        app.log.items.last().unwrap().message,
        "could not make interaction three current: gone"
    );
}

#[test]
fn requests_are_served_once() {
    let (mut app, live) = running("one");
    let mut effects = LaunchEffects::new();
    let mut serve = |app: &mut App| {
        serve(app, &live, &mut effects, &"workspace".to_owned(), &nowhere())
    };
    app.ask(Request::Quit);
    assert_eq!(serve(&mut app), Served::Leave(RunOutcome::Quit));
    assert_eq!(serve(&mut app), Served::Nothing);
    app.ask(Request::ConvertProvider(Provider::Claude));
    assert_eq!(
        serve(&mut app),
        Served::Convert {
            session_id: "one".into(),
            provider: Provider::Claude
        }
    );
    app.ask(Request::SetAutoRetry(true));
    assert_eq!(
        serve(&mut app),
        Served::SetAutoRetry {
            session_id: "one".into(),
            enabled: true
        }
    );
    app.ask(Request::OpenPath("/work/a.rs".into()));
    assert_eq!(serve(&mut app), Served::OpenPath("/work/a.rs".into()));
}

#[test]
fn what_the_server_keeps_is_what_is_shown() {
    let (mut app, _) = running("one");
    auto_retry_set(&mut app, true, Err("read-only".into()));
    assert!(!app.auto_retry);
    auto_retry_set(&mut app, true, Ok(()));
    assert!(app.auto_retry);
    assert_eq!(
        app.notices.iter().last().unwrap(),
        "rate-limit retry on — this session will be asked again after a reset"
    );
}

#[test]
fn a_converted_session_is_opened() {
    let (mut app, _) = running("one");
    assert_eq!(
        provider_converted(&mut app, "codex", Ok(("two".into(), None))),
        Some(RunOutcome::OpenSession("two".into()))
    );
    assert_eq!(
        app.log.items.last().unwrap().message,
        "converted this Session's history to codex; continuing in Session two"
    );
    assert_eq!(
        provider_converted(&mut app, "codex", Err("no history".into())),
        None
    );
}

#[test]
fn an_interaction_that_is_current_is_not_loaded_again() {
    let (mut app, mut live) = running("one");
    app.set_input("half a thought".into());
    app.interactions.open(
        vec![interaction("one", true), interaction("two", true)],
        vec![],
    );
    app.interactions.cursor_next("one", None, 0);
    let next = running("other");
    make_interaction_current(&mut app, &mut live, &LaunchPolicy::none(), "one", Ok(next));
    assert_eq!(app.session_id, "one");
    assert_eq!(app.composer.text, "half a thought");
    assert_eq!(app.interactions.cursor.as_deref(), Some("two"));
    make_interaction_current(
        &mut app,
        &mut live,
        &LaunchPolicy::none(),
        "one",
        Err("gone".into()),
    );
    assert!(app.log.items.is_empty());
    assert_eq!(live, running("one").1);
}

fn unseen(id: &str) -> InteractionSummary {
    InteractionSummary {
        activity: InteractionActivity::Pending,
        idle_unseen: true,
        ..interaction(id, true)
    }
}

#[test]
fn control_a_jumps_to_what_waits_unseen_and_keeps_the_navigator_open() {
    let (mut app, live) = running("one");
    app.interactions.open(
        vec![
            interaction("one", true),
            unseen("two"),
            interaction("three", false),
            unseen("four"),
        ],
        vec![],
    );
    let mut fold = false;
    let mut jump = |app: &mut App| {
        let key = Key::control(KeyCode::Char('a'));
        assert_eq!(handle_key(app, &live, key, &mut fold, &moment(7)), Step::Done);
        assert!(app.interactions.open);
        app.interactions.cursor("one").to_owned()
    };
    let first = jump(&mut app);
    let second = jump(&mut app);
    assert_ne!(first, second);
    let mut both = vec![first.clone(), second];
    both.sort();
    assert_eq!(both, ["four", "two"]);
    assert_eq!(jump(&mut app), first, "the jump goes round");
    assert_eq!(app.interactions.settle_from, Some(7));

    app.interactions
        .refresh(vec![interaction("one", true), interaction("two", true)]);
    app.interactions.rest();
    assert_eq!(jump(&mut app), "one");
    assert_eq!(
        app.notices.iter().last().unwrap(),
        "no interaction has gone idle unseen"
    );
}

#[test]
fn the_next_waiting_interaction_is_sought_in_a_fresh_list() {
    let (mut app, live) = running("one");
    let mut effects = LaunchEffects::new();
    app.ask(Request::NextIdleInteraction);
    assert_eq!(
        serve(&mut app, &live, &mut effects, &"workspace".to_owned(), &nowhere()),
        Served::NextIdle
    );
    assert_eq!(idle_sought(&mut app, None), None);
    assert_eq!(
        app.notices.iter().last().unwrap(),
        "no interaction has gone idle unseen"
    );
    assert_eq!(
        idle_sought(&mut app, Some(vec![unseen("one"), unseen("two")])),
        Some("two".into()),
        "the one on screen is seen"
    );
    assert_eq!(app.interactions.items.len(), 2);
    assert_eq!(idle_sought(&mut app, None), Some("two".into()));
}

#[test]
fn the_files_a_reply_cites_are_chosen_over_the_screen() {
    let (mut app, live) = running("one");
    app.workspace.enter("/work".into());
    let present = words(&["/work/a.rs", "/work/b.rs"]);
    app.open_references("nothing to see in c.rs", &present);
    assert!(app.references.is_none());
    app.open_references("see a.rs:3 and b.rs:4", &present);
    let mut fold = false;
    let mut press = |app: &mut App, code| {
        handle_key(app, &live, Key::plain(code), &mut fold, &moment(0))
    };
    assert_eq!(press(&mut app, KeyCode::Char('?')), Step::Done);
    assert!(!app.help.is_open());
    press(&mut app, KeyCode::Char('G'));
    press(&mut app, KeyCode::Up);
    press(&mut app, KeyCode::Char('j'));
    press(&mut app, KeyCode::Char('j'));
    assert_eq!(app.references.as_ref().unwrap().selected_index(), 1);
    press(&mut app, KeyCode::Enter);
    assert!(app.references.is_none());
    assert_eq!(app.take_request(), Some(Request::OpenPath("/work/b.rs".into())));

    app.open_references("see a.rs:3", &present);
    press(&mut app, KeyCode::Esc);
    assert!(app.references.is_none());
    assert_eq!(app.take_request(), None);
}

#[test]
fn g_over_the_launch_policy_looks_for_the_git_history() {
    let mut app = App::pending(catalog(), parse("codex"));
    app.workspace.enter("/work".into());
    app.view = View::Driva;
    let mut fold = false;
    let key = Key::plain(KeyCode::Char('g'));
    assert_eq!(
        handle_key(&mut app, &Live::Pending, key, &mut fold, &moment(0)),
        Step::List(Action::FindHistory(Some("/work".into())))
    );
    app.activity.status = Status::Running;
    assert_eq!(
        handle_key(&mut app, &Live::Pending, key, &mut fold, &moment(0)),
        Step::List(Action::Nothing)
    );
}
