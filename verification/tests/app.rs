use styra::activity::Status;
use styra::app::{App, Focus, Request, Surroundings, View};
use styra::event::{model_change, DetailBlock, TokenUsage};
use styra::files::EntryText;
use styra::ingest::Arrival;
use styra::launcher::{Catalog, LaunchColumn, ProviderEntry};
use styra::protocol::{
    AgentEvent, Answer, AnswerValue, Contract, Direction, Effort, FileLocation, InteractionEnd,
    LogEntry, Provider, RawLine, Selection,
};

fn words(list: &[&str]) -> Vec<String> {
    list.iter().map(|word| (*word).to_owned()).collect()
}

fn catalog() -> Catalog {
    Catalog {
        providers: vec![
            ProviderEntry {
                provider: Provider::Codex,
                name: "codex".into(),
                models: words(&["gpt-5.6-sol", "gpt-5.6-luna", "gpt-5.6-mini"]),
                efforts: vec![Effort::Low, Effort::Medium, Effort::High, Effort::XHigh],
                default_model: "gpt-5.6-sol".into(),
                default_effort: Effort::Medium,
            },
            ProviderEntry {
                provider: Provider::Other(0),
                name: "pi".into(),
                models: words(&["pi-large", "pi-small"]),
                efforts: vec![Effort::Minimal, Effort::Low],
                default_model: "pi-small".into(),
                default_effort: Effort::Low,
            },
            ProviderEntry {
                provider: Provider::Claude,
                name: "assistant".into(),
                models: words(&["opus-5", "sonnet-5", "haiku-5", "opus"]),
                efforts: vec![
                    Effort::Low,
                    Effort::Medium,
                    Effort::High,
                    Effort::XHigh,
                    Effort::Max,
                ],
                default_model: "sonnet-5".into(),
                default_effort: Effort::High,
            },
        ],
    }
}

fn entry(provider: Provider) -> ProviderEntry {
    catalog()
        .providers
        .into_iter()
        .find(|entry| entry.provider == provider)
        .unwrap()
}

/// `provider`, `provider:model` or `provider:model/effort`.
fn parse(text: &str) -> Selection {
    let (provider, rest) = match text.split_once(':') {
        Some((provider, rest)) => (provider, Some(rest)),
        None => (text, None),
    };
    let entry = entry(match provider {
        "codex" => Provider::Codex,
        "assistant" => Provider::Claude,
        _ => Provider::Other(0),
    });
    let (model, effort) = match rest {
        Some(rest) => match rest.split_once('/') {
            Some((model, effort)) => (model.to_owned(), Some(effort)),
            None => (rest.to_owned(), None),
        },
        None => (entry.default_model, None),
    };
    let effort = match effort {
        Some("low") => Effort::Low,
        Some("medium") => Effort::Medium,
        Some("high") => Effort::High,
        Some("xhigh") => Effort::XHigh,
        Some("max") => Effort::Max,
        Some(_) => Effort::Minimal,
        None => entry.default_effort,
    };
    Selection {
        provider: entry.provider,
        model,
        effort,
    }
}

fn push(app: &mut App, event: AgentEvent) {
    app.push_event(event, Arrival::at(0));
}

fn starting() -> Arrival {
    Arrival {
        starts_background: true,
        ..Arrival::at(0)
    }
}

fn finishing() -> Arrival {
    Arrival {
        finishes_background: true,
        ..Arrival::at(0)
    }
}

/// No more known of the entries than that they are there.
fn nowhere(app: &App) -> Surroundings {
    Surroundings {
        current_directory: None,
        texts: app
            .timeline
            .entries
            .iter()
            .map(|_| EntryText {
                changed: vec![],
                text: String::new(),
            })
            .collect(),
        present: vec![],
        detail: vec![],
        summary: String::new(),
    }
}

fn app() -> App {
    let mut app = App::new(catalog(), parse("codex:gpt-5.6-sol/high"),
        "session-1".into());
    app.timeline.conversation_only = false;
    app.timeline.show_minor = false;
    app
}

#[test]
fn an_unsent_draft_survives_the_screen_it_was_typed_on() {
    let mut app = app();
    app.set_input("half a thought".into());
    app.outbox.set_contract(Some(Contract::Lines));
    app.preview.show();
    app.files.set_scope(true);
    app.recent_models = vec!["gpt-5.6-sol".into()];

    let mut next = App::new(catalog(), app.selection.copied(), "session-2".into());
    next.adopt(app.take_operator_state());

    assert_eq!(next.composer.text, "half a thought");
    assert_eq!(next.outbox.contract(), Some(Contract::Lines));
    assert!(next.preview.open);
    assert!(next.files.shows_all());
    assert_eq!(next.recent_models, vec!["gpt-5.6-sol".to_owned()]);
}

#[test]
fn the_interactions_own_state_is_left_to_be_rebuilt() {
    let mut app = app();
    app.push_log(LogEntry::info("something happened".into()));
    app.raw.push(RawLine {
        direction: Direction::FromAgent,
        text: "{}".into(),
        at_ms: 0,
    });

    let mut next = App::new(catalog(), app.selection.copied(), "session-2".into());
    next.adopt(app.take_operator_state());

    assert!(next.log.is_empty());
    assert!(next.raw.is_empty());
    assert_eq!(next.timeline.entries.len(), 0);
}

#[test]
fn following_tracks_the_newest_entry() {
    let mut app = app();
    push(&mut app, AgentEvent::TurnStarted);
    push(&mut app, AgentEvent::AgentMessage { text: "hi".into() });
    assert!(app.timeline.follow);
    assert_eq!(app.timeline.selected, 1);
}

#[test]
fn following_ignores_hidden_minor_events() {
    let mut app = app();
    push(&mut app, AgentEvent::AgentMessage { text: "hi".into() });
    app.timeline.entries[0].expanded = true;
    app.preview.scroll.offset = 3;

    push(&mut app, AgentEvent::TurnStarted);

    assert!(app.timeline.follow);
    assert_eq!(app.timeline.selected, 0);
    assert_eq!(app.preview.scroll.offset, 3);
    assert!(app.timeline.is_visible(app.timeline.selected));
    assert!(app.timeline.entries[0].expanded);
    assert!(!app.timeline.entries[1].expanded);
}

#[test]
fn following_transfers_expansion_to_a_new_visible_entry() {
    let mut app = app();
    push(&mut app, AgentEvent::AgentMessage {
        text: "first".into(),
    });
    app.timeline.entries[0].expanded = true;

    push(&mut app, AgentEvent::AgentMessage {
        text: "second".into(),
    });

    assert_eq!(app.timeline.selected, 1);
    assert!(!app.timeline.entries[0].expanded);
    assert!(app.timeline.entries[1].expanded);
}

#[test]
fn moving_up_pins_the_view_and_reaching_the_tail_resumes_follow() {
    let mut app = app();
    for _ in 0..3 {
        push(&mut app, AgentEvent::AgentMessage {
            text: "x\nmore x".into(),
        });
    }
    app.select_prev();
    assert!(!app.timeline.follow);
    assert_eq!(app.timeline.selected, 1);
    push(&mut app, AgentEvent::AgentMessage {
        text: "x\nmore x".into(),
    });
    assert_eq!(app.timeline.selected, 1);
    app.select_next();
    app.select_next();
    app.select_next();
    assert!(app.timeline.follow);
    assert_eq!(app.timeline.selected, app.timeline.entries.len() - 1);
}

#[test]
fn moving_up_by_line_pins_the_view_and_reaching_the_tail_resumes_follow() {
    let mut app = app();
    for _ in 0..3 {
        push(&mut app, AgentEvent::AgentMessage { text: "x".into() });
    }
    app.select_prev_line();
    assert!(!app.timeline.follow);
    assert_eq!(app.timeline.selected, 1);

    push(&mut app, AgentEvent::AgentMessage { text: "x".into() });
    assert_eq!(app.timeline.selected, 1);

    app.select_next_line();
    app.select_next_line();
    app.select_next_line();
    assert!(app.timeline.follow);
    assert_eq!(app.timeline.selected, app.timeline.entries.len() - 1);
}

#[test]
fn thinking_updates_fold_into_one_line_that_adds_up_what_they_spent() {
    let mut app = app();
    push(&mut app, AgentEvent::AgentMessage { text: "a".into() });
    push(&mut app, AgentEvent::Thinking {
        text: "weigh the options".into(),
        tokens: None,
    });
    push(&mut app, AgentEvent::Thinking {
        text: String::new(),
        tokens: Some(64),
    });
    push(&mut app, AgentEvent::Thinking {
        text: String::new(),
        tokens: Some(512),
    });
    assert_eq!(app.timeline.entries.len(), 2);
    assert_eq!(
        app.timeline.entries[1].event,
        AgentEvent::Thinking {
            text: "weigh the options".into(),
            tokens: Some(576),
        }
    );
    push(&mut app, AgentEvent::AgentMessage { text: "b".into() });
    push(&mut app, AgentEvent::Thinking {
        text: String::new(),
        tokens: Some(8),
    });
    assert_eq!(app.timeline.entries.len(), 4);
}

#[test]
fn a_task_keeps_one_row_from_its_start_to_its_end() {
    let mut app = app();
    push(&mut app, AgentEvent::AgentMessage { text: "a".into() });
    push(&mut app, AgentEvent::TaskStarted {
        id: "t-1".into(),
        description: "Rebuild and run tests".into(),
        kind: "local_agent".into(),
        agent: Some("Explore".into()),
    });
    push(&mut app, AgentEvent::TaskStarted {
        id: "t-2".into(),
        description: "Sweep the docs".into(),
        kind: "local_bash".into(),
        agent: None,
    });
    for tool_uses in ["Bash", "Read"] {
        push(&mut app, AgentEvent::TaskProgress {
            id: "t-1".into(),
            description: format!("Running {tool_uses}"),
            agent: Some("Explore".into()),
            tool: Some(tool_uses.into()),
            tokens: Some(10_000),
        });
    }
    assert_eq!(app.timeline.entries.len(), 3);
    assert_eq!(
        app.timeline.entries[1].event,
        AgentEvent::TaskProgress {
            id: "t-1".into(),
            description: "Running Read".into(),
            agent: Some("Explore".into()),
            tool: Some("Read".into()),
            tokens: Some(10_000),
        }
    );
    push(&mut app, AgentEvent::TaskCompleted {
        id: "t-1".into(),
        status: "failed".into(),
        summary: "Rebuild and run tests".into(),
        error: None,
    });
    push(&mut app, AgentEvent::TaskCompleted {
        id: "t-1".into(),
        status: "failed".into(),
        summary: String::new(),
        error: Some("exit code 101".into()),
    });
    assert_eq!(app.timeline.entries.len(), 3);
    assert_eq!(
        app.timeline.entries[1].event,
        AgentEvent::TaskCompleted {
            id: "t-1".into(),
            status: "failed".into(),
            summary: "Rebuild and run tests".into(),
            error: Some("exit code 101".into()),
        }
    );
    push(&mut app, AgentEvent::TaskProgress {
        id: "t-1".into(),
        description: "Running Bash".into(),
        agent: Some("Explore".into()),
        tool: Some("Bash".into()),
        tokens: Some(20_000),
    });
    assert!(matches!(
        app.timeline.entries[1].event,
        AgentEvent::TaskCompleted { .. }
    ));
    assert_eq!(app.timeline.entries.len(), 3);
}

#[test]
fn expansion_is_per_entry_and_bulk_toggles_work() {
    let mut app = app();
    push(&mut app, AgentEvent::AgentMessage { text: "a".into() });
    push(&mut app, AgentEvent::AgentMessage { text: "b".into() });

    app.select_first();
    app.timeline.toggle_expand();
    assert!(app.timeline.entries[0].expanded);
    assert!(!app.timeline.entries[1].expanded);

    app.timeline.expand_all();
    assert!(app.timeline.entries.iter().all(|entry| entry.expanded));
    app.timeline.collapse_all();
    assert!(app.timeline.entries.iter().all(|entry| !entry.expanded));
}

#[test]
fn expanding_only_selected_collapses_every_other_entry() {
    let mut app = app();
    push(&mut app, AgentEvent::AgentMessage { text: "a".into() });
    push(&mut app, AgentEvent::AgentMessage { text: "b".into() });
    push(&mut app, AgentEvent::AgentMessage { text: "c".into() });
    app.timeline.expand_all();

    app.select_first();
    app.select_next_line();
    app.timeline.expand_only_selected();

    assert!(!app.timeline.entries[0].expanded);
    assert!(app.timeline.entries[1].expanded);
    assert!(!app.timeline.entries[2].expanded);
}

#[test]
fn status_follows_turn_lifecycle_and_captures_usage() {
    let mut app = app();
    assert_eq!(app.activity.status, Status::Running);
    push(&mut app, AgentEvent::TurnCompleted {
        usage: TokenUsage {
            input_tokens: 7,
            ..Default::default()
        },
    });
    assert_eq!(app.activity.status, Status::Idle);
    assert_eq!(app.activity.latest_usage.as_ref().unwrap().input_tokens, 7);

    push(&mut app, AgentEvent::UserMessage {
        text: "more".into(),
    });
    assert_eq!(app.activity.status, Status::Running);
}

#[test]
fn a_framed_operator_message_is_shown_as_it_was_written() {
    let mut app = app();
    app.push_event(
        AgentEvent::UserMessage {
            text: "which files handle auth?\n\nAnswer with a list of files.".into(),
        },
        Arrival {
            unframed: Some(("which files handle auth?".into(), Contract::Files)),
            ..Arrival::at(0)
        },
    );
    let entry = app.timeline.entries.last().expect("the message was pushed");
    assert_eq!(
        entry.event,
        AgentEvent::UserMessage {
            text: "which files handle auth?".into()
        }
    );
    assert_eq!(entry.contract, Some(Contract::Files));
}

#[test]
fn an_unframed_operator_message_is_untouched() {
    let mut app = app();
    let text = "explain the <styra:answer> convention";
    push(&mut app, AgentEvent::UserMessage { text: text.into() });
    let entry = app.timeline.entries.last().expect("the message was pushed");
    assert_eq!(entry.event, AgentEvent::UserMessage { text: text.into() });
    assert_eq!(entry.contract, None);
}

#[test]
fn background_task_keeps_idle_status_explicitly_active() {
    let mut app = app();
    app.push_event(AgentEvent::ToolStarted {
        id: "bash-1".into(),
        name: "Bash".into(),
        detail: r#"{"command":"cargo test","run_in_background":true}"#.into(),
    }, starting());
    push(&mut app, AgentEvent::TurnCompleted {
        usage: TokenUsage::default(),
    });
    assert_eq!(app.activity.status, Status::Background);
    assert_eq!(
        app.activity.status.label(),
        "idle · background work running"
    );

    push(&mut app, AgentEvent::ToolStarted {
        id: "poll-1".into(),
        name: "TaskOutput".into(),
        detail: r#"{"task_id":"bash-1"}"#.into(),
    });
    app.push_event(AgentEvent::ToolCompleted {
        id: "poll-1".into(),
        name: "poll-1".into(),
        detail: String::new(),
        status: "completed".into(),
        output: "Task completed successfully".into(),
    }, finishing());
    assert_eq!(app.activity.status, Status::Idle);
}

#[test]
fn reported_empty_background_set_clears_the_status_without_a_poll() {
    let mut app = app();
    app.push_event(AgentEvent::ToolStarted {
        id: "bash-1".into(),
        name: "Bash".into(),
        detail: r#"{"command":"cargo test","run_in_background":true}"#.into(),
    }, starting());
    push(&mut app, AgentEvent::BackgroundTasks { running: 1 });
    push(&mut app, AgentEvent::TurnCompleted {
        usage: TokenUsage::default(),
    });
    assert_eq!(app.activity.status, Status::Background);
    push(&mut app, AgentEvent::BackgroundTasks { running: 0 });
    assert_eq!(app.activity.status, Status::Idle);
    push(&mut app, AgentEvent::TurnCompleted {
        usage: TokenUsage::default(),
    });
    assert_eq!(app.activity.status, Status::Idle);
}

#[test]
fn a_poll_of_one_task_does_not_clear_a_reported_second_one() {
    let mut app = app();
    push(&mut app, AgentEvent::BackgroundTasks { running: 2 });
    push(&mut app, AgentEvent::ToolStarted {
        id: "poll-1".into(),
        name: "TaskOutput".into(),
        detail: r#"{"task_id":"one"}"#.into(),
    });
    app.push_event(AgentEvent::ToolCompleted {
        id: "poll-1".into(),
        name: "poll-1".into(),
        detail: String::new(),
        status: "completed".into(),
        output: "Task completed successfully".into(),
    }, finishing());
    push(&mut app, AgentEvent::TurnCompleted {
        usage: TokenUsage::default(),
    });
    assert_eq!(app.activity.status, Status::Background);
}

#[test]
fn usage_updates_mid_turn_refresh_the_display_without_ending_the_turn() {
    let mut app = app();
    push(&mut app, AgentEvent::CommandStarted {
        command: "cargo test".into(),
    });
    assert_eq!(app.activity.status, Status::Running);

    push(&mut app, AgentEvent::UsageUpdated {
        usage: TokenUsage {
            input_tokens: 10,
            ..Default::default()
        },
    });
    assert_eq!(
        app.activity.status,
        Status::Running,
        "a usage ping mid-turn must not end it"
    );
    assert_eq!(app.activity.latest_usage.as_ref().unwrap().input_tokens, 10);

    push(&mut app, AgentEvent::CommandStarted {
        command: "cargo build".into(),
    });
    push(&mut app, AgentEvent::UsageUpdated {
        usage: TokenUsage {
            input_tokens: 20,
            ..Default::default()
        },
    });
    assert_eq!(app.activity.status, Status::Running);
    assert_eq!(app.activity.latest_usage.as_ref().unwrap().input_tokens, 20);
    push(&mut app, AgentEvent::TurnCompleted {
        usage: TokenUsage::default(),
    });
    assert_eq!(app.activity.status, Status::Idle);
    assert_eq!(app.activity.latest_usage.as_ref().unwrap().input_tokens, 20);
}

#[test]
fn a_tool_completion_replaces_its_started_row_and_recovers_the_tool_name() {
    let mut app = app();
    push(&mut app, AgentEvent::ToolStarted {
        id: "toolu_1".into(),
        name: "Bash".into(),
        detail: "{\"command\":\"cargo test\"}".into(),
    });
    push(&mut app, AgentEvent::ToolCompleted {
        id: "toolu_1".into(),
        name: "toolu_1".into(),
        detail: String::new(),
        status: "completed".into(),
        output: "ok".into(),
    });

    assert_eq!(app.timeline.entries.len(), 1);
    assert_eq!(
        app.timeline.entries[0].event,
        AgentEvent::ToolCompleted {
            id: "toolu_1".into(),
            name: "Bash".into(),
            detail: "{\"command\":\"cargo test\"}".into(),
            status: "completed".into(),
            output: "ok".into(),
        }
    );
}

#[test]
fn a_clean_edit_completion_is_dropped_since_the_file_changed_row_already_shows_it() {
    let mut app = app();
    push(&mut app, AgentEvent::FileChanged {
        id: "toolu_2".into(),
        paths: vec!["src/lib.rs".into()],
        diff: Some("@@ edit @@\n-old\n+new".into()),
        checkpoint: None,
        checkpoint_error: None,
    });
    push(&mut app, AgentEvent::ToolCompleted {
        id: "toolu_2".into(),
        name: "toolu_2".into(),
        detail: String::new(),
        status: "completed".into(),
        output: String::new(),
    });

    assert_eq!(app.timeline.entries.len(), 1);
    assert!(matches!(
        app.timeline.entries[0].event,
        AgentEvent::FileChanged { .. }
    ));
}

#[test]
fn a_failed_edit_completion_replaces_the_file_changed_row_with_a_visible_error() {
    let mut app = app();
    push(&mut app, AgentEvent::FileChanged {
        id: "toolu_3".into(),
        paths: vec!["src/lib.rs".into()],
        diff: Some("@@ edit @@\n-old\n+new".into()),
        checkpoint: None,
        checkpoint_error: None,
    });
    push(&mut app, AgentEvent::ToolCompleted {
        id: "toolu_3".into(),
        name: "toolu_3".into(),
        detail: String::new(),
        status: "error".into(),
        output: "old_string not found".into(),
    });

    assert_eq!(app.timeline.entries.len(), 1);
    assert_eq!(
        app.timeline.entries[0].event,
        AgentEvent::Error {
            message: "src/lib.rs: old_string not found".into(),
        }
    );
}

#[test]
fn ending_is_terminal_for_events_but_not_can_send() {
    let mut app = app();
    app.on_ended(InteractionEnd {
        exit_code: Some(0),
        error: None,
    });
    assert_eq!(
        app.activity.status,
        Status::Ended {
            exit_code: Some(0),
            error: None
        }
    );
    assert!(!app.can_send());
    push(&mut app, AgentEvent::AgentMessage {
        text: "late".into(),
    });
    assert!(matches!(app.activity.status, Status::Ended { .. }));
}

#[test]
fn pending_opens_in_list_focus_with_no_session_yet_and_allows_sending() {
    let app = App::pending(catalog(), parse("codex"));
    assert_eq!(app.activity.status, Status::Pending);
    assert_eq!(app.focus, Focus::List);
    assert!(app.session_id.is_empty());
    assert!(app.composer.text.is_empty());
    assert!(app.can_send());
}

#[test]
fn set_input_prefills_the_message_box_for_the_operator_to_edit_or_send() {
    let mut app = App::pending(catalog(), parse("codex"));
    app.set_input("earlier session's transcript".into());
    assert_eq!(app.composer.text, "earlier session's transcript");
    assert_eq!(
        app.take_message(),
        Some("earlier session's transcript".into())
    );
}

#[test]
fn the_launcher_records_a_provider_model_and_effort_without_launching() {
    let mut app = App::pending(catalog(), parse("codex"));
    assert!(app.can_configure_launch());
    app.open_launcher();
    let launcher = app.launcher.as_mut().expect("the picker is reachable");
    assert_eq!(launcher.column, LaunchColumn::Provider);
    launcher.next(&catalog());
    launcher.next(&catalog());
    assert_eq!(launcher.provider(&catalog()), Provider::Claude);
    launcher.next_column();
    assert_eq!(launcher.selection(&catalog()).model, entry(Provider::Claude).default_model);
    launcher.next(&catalog());
    let models = entry(Provider::Claude).models;
    let default = models
        .iter()
        .position(|model| *model == entry(Provider::Claude).default_model)
        .unwrap_or(0);
    let model = models[default + 1].to_owned();
    assert_eq!(launcher.selection(&catalog()).model, model);
    launcher.next_column();
    assert_eq!(launcher.column, LaunchColumn::Effort);
    let effort = entry(Provider::Claude).efforts[0];
    while launcher.selection(&catalog()).effort != effort {
        launcher.prev(&catalog());
    }
    assert_eq!(launcher.selection(&catalog()).effort, effort);

    app.confirm_launcher();
    assert!(app.launcher.is_none());
    assert_eq!(app.selection.provider, Provider::Claude);
    assert_eq!(app.selection.model, model);
    assert_eq!(app.selection.effort, effort);
    assert_eq!(app.activity.status, Status::Pending);
    assert!(app.session_id.is_empty());
    assert!(app.timeline.entries.is_empty());
}

#[test]
fn the_launcher_opens_on_the_current_selection_and_cancelling_keeps_it() {
    let selection = parse("assistant:sonnet-5/xhigh");
    let mut app = App::pending(catalog(), selection.copied());
    app.open_launcher();
    let launcher = app.launcher.as_ref().unwrap();
    assert_eq!(launcher.selection(&catalog()), selection, "opens on what is chosen");

    app.launcher.as_mut().unwrap().next(&catalog());
    app.cancel_launcher();
    assert!(app.launcher.is_none());
    assert_eq!(app.selection, selection, "cancelling changes nothing");
}

#[test]
fn a_model_outside_the_catalog_is_carried_as_its_own_row() {
    let selection = parse("assistant:opus-4-1-20250805");
    let mut app = App::pending(catalog(), selection.copied());
    app.open_launcher();
    let launcher = app.launcher.as_ref().unwrap();
    assert_eq!(
        launcher.carried_model.as_deref(),
        Some("opus-4-1-20250805")
    );
    assert_eq!(
        launcher.model,
        entry(Provider::Claude).models.len(),
        "carried last, after the catalog"
    );
    assert_eq!(launcher.selection(&catalog()).model, selection.model);
    app.confirm_launcher();
    assert_eq!(app.selection.model, selection.model);
    assert_eq!(app.selection.effort, Effort::High);
    app.open_launcher();
    let launcher = app.launcher.as_mut().unwrap();
    launcher.next_column();
    assert_eq!(launcher.model, 0, "carried first, ahead of the catalog");
    assert_eq!(launcher.selection(&catalog()).model, selection.model);
    launcher.next(&catalog());
    assert_eq!(
        launcher.selection(&catalog()).model,
        *entry(Provider::Claude).models.first().unwrap()
    );
    launcher.prev(&catalog());
    assert_eq!(launcher.selection(&catalog()).model, selection.model);
}

#[test]
fn confirming_records_the_model_as_the_most_recent_one() {
    let mut app = App::pending(catalog(), parse("assistant:sonnet-5"));
    app.recent_models = vec!["opus-5".into(), "sonnet-5".into()];

    app.open_launcher();
    app.confirm_launcher();

    assert_eq!(
        app.recent_models,
        vec!["sonnet-5".to_owned(), "opus-5".to_owned()]
    );
}

#[test]
fn the_launcher_is_unreachable_once_something_has_been_launched() {
    let mut app = app();
    assert_eq!(app.activity.status, Status::Running);
    assert!(!app.can_configure_launch());
    app.open_launcher();
    assert!(app.launcher.is_none());
}

#[test]
fn an_idle_codex_thread_can_change_its_next_turn_model() {
    let mut app = App::new(catalog(), parse("codex"), "session-1".into());
    app.activity.status = Status::Idle;
    assert!(app.can_configure_launch());
    app.open_launcher();
    assert!(app.launcher.is_some());
}

#[test]
fn an_idle_claude_thread_can_change_model_but_not_effort() {
    let original = parse("assistant:sonnet-5/high");
    let mut app = App::new(catalog(), original.copied(), "session-1".into());
    app.activity.status = Status::Idle;
    app.open_launcher();
    let launcher = app.launcher.as_mut().unwrap();
    while launcher.selection(&catalog()).model == original.model {
        launcher.next_column();
        launcher.next(&catalog());
    }
    launcher.next_column();
    launcher.next(&catalog());
    app.confirm_launcher();

    assert_ne!(app.selection.model, original.model);
    assert_eq!(app.selection.effort, original.effort);
    assert_eq!(
        app.notices.iter().last().unwrap(),
        "assistant can change model between turns; effort remains session-wide"
    );
}

#[test]
fn switching_a_live_sessions_model_asks_the_server_to_apply_it_now() {
    let mut app = App::new(catalog(), parse("codex"), "session-1".into());
    app.activity.status = Status::Idle;
    app.open_launcher();
    let launcher = app.launcher.as_mut().unwrap();
    launcher.next_column();
    launcher.next(&catalog());
    app.confirm_launcher();

    assert_eq!(app.take_request(), Some(Request::ApplySelection));
}

#[test]
fn confirming_the_same_selection_asks_the_server_for_nothing() {
    let mut app = App::new(catalog(), parse("codex"), "session-1".into());
    app.activity.status = Status::Idle;
    app.open_launcher();
    app.confirm_launcher();

    assert_eq!(app.take_request(), None);
}

#[test]
fn choosing_a_model_before_launch_asks_the_server_for_nothing() {
    let mut app = App::pending(catalog(), parse("codex"));
    app.open_launcher();
    let launcher = app.launcher.as_mut().unwrap();
    launcher.next_column();
    launcher.next(&catalog());
    app.confirm_launcher();

    assert_eq!(app.take_request(), None);
}

#[test]
fn a_running_turn_cannot_change_model() {
    let mut app = App::new(catalog(), parse("codex"), "session-1".into());
    app.activity.status = Status::Running;
    assert!(!app.can_configure_launch());
    app.open_launcher();
    assert!(app.launcher.is_none());
}

#[test]
fn a_session_keeps_its_recorded_selection() {
    let app = App::new(catalog(), parse("assistant:opus/xhigh"),
        "session-1".into());
    assert_eq!(
        app.selection,
        parse("assistant:opus/xhigh")
    );
}

#[test]
fn the_launch_label_falls_back_to_the_requested_selection() {
    let app = App::new(catalog(), parse("assistant:opus/max"),
        "s-1".into());
    let label = app.launch_label();
    assert_eq!(label.agent, "assistant");
    assert_eq!(label.model.as_deref(), Some("opus"));
    assert_eq!(label.effort.as_deref(), Some("max"));
    assert!(
        !label.model_reported,
        "nothing has been reported by the agent yet"
    );
    assert!(!label.effort_reported);
    let app = App::new(catalog(), parse("codex"),
        "s-2".into());
    let label = app.launch_label();
    assert_eq!(label.agent, "codex");
    assert_eq!(
        label.model.as_deref(),
        Some(entry(Provider::Codex).default_model.as_str())
    );
    assert_eq!(
        label.effort.as_deref(),
        Some(entry(Provider::Codex).default_effort.as_str())
    );
}

#[test]
fn a_reported_model_and_effort_replace_the_requested_ones() {
    let mut app = App::new(catalog(), parse("codex"),
        "s-1".into());
    push(&mut app, AgentEvent::ThreadStarted {
        thread_id: "t-9".into(),
        model: Some("gpt-5.6-sol".into()),
        effort: Some("high".into()),
    });
    let label = app.launch_label();
    assert_eq!(label.model.as_deref(), Some("gpt-5.6-sol"));
    assert_eq!(label.effort.as_deref(), Some("high"));
    assert!(label.model_reported);
    assert!(label.effort_reported);
    let mut app = App::new(catalog(), parse("codex:gpt-5.6-luna/low"),
        "s-2".into());
    push(&mut app, AgentEvent::ThreadStarted {
        thread_id: "t".into(),
        model: Some("gpt-5.6-sol".into()),
        effort: Some("xhigh".into()),
    });
    let label = app.launch_label();
    assert_eq!(label.model.as_deref(), Some("gpt-5.6-sol"));
    assert_eq!(label.effort.as_deref(), Some("xhigh"));
}

#[test]
fn an_unreported_effort_keeps_the_one_the_session_was_launched_with() {
    let mut app = App::new(catalog(), parse("assistant:opus/max"),
        "s-1".into());
    push(&mut app, AgentEvent::ThreadStarted {
        thread_id: "s-1".into(),
        model: Some("opus-4-8".into()),
        effort: None,
    });
    let label = app.launch_label();
    assert_eq!(label.model.as_deref(), Some("opus-4-8"));
    assert!(label.model_reported);
    assert_eq!(label.effort.as_deref(), Some("max"));
    assert!(!label.effort_reported);
    let mut app = App::new(catalog(), parse("codex:gpt-5.6-sol/high"),
        "s-2".into());
    push(&mut app, AgentEvent::ThreadStarted {
        thread_id: "t".into(),
        model: None,
        effort: None,
    });
    let label = app.launch_label();
    assert_eq!(label.model.as_deref(), Some("gpt-5.6-sol"));
    assert!(!label.model_reported);
}

#[test]
fn a_request_is_recorded_for_the_event_loop_and_taken_exactly_once() {
    let requests = || {
        [
            Request::Quit,
            Request::Workspace,
            Request::Sessions,
            Request::OpenSession("s-1".into()),
            Request::Interactions,
            Request::Raw,
            Request::Reset,
            Request::NewSession,
            Request::EditFile,
        ]
    };
    for (request, again) in requests().into_iter().zip(requests()) {
        let mut app = app();
        assert_eq!(app.take_request(), None);
        app.ask(request);
        assert_eq!(app.take_request(), Some(again));
        assert_eq!(app.take_request(), None);
    }
}

#[test]
fn entering_raw_view_focuses_the_selected_entrys_wire_line() {
    let mut app = app();
    for i in 0..3 {
        app.raw.push(RawLine {
            at_ms: 0,
            direction: Direction::FromAgent,
            text: format!("{{\"n\":{i}}}"),
        });
        push(&mut app, AgentEvent::AgentMessage {
            text: format!("message {i}"),
        });
    }
    app.select_prev_line();
    assert_eq!(app.timeline.selected, 1);
    assert!(!app.timeline.follow);

    app.toggle_raw();
    assert_eq!(
        app.raw.selected_index(),
        1,
        "focuses the wire line behind the selected entry"
    );
    assert!(!app.raw.is_following());
}

#[test]
fn log_view_toggles_independently_and_scrolls() {
    let mut app = app();
    app.toggle_raw();
    assert_eq!(app.view, View::Raw);
    app.toggle_view(View::Log);
    assert_eq!(app.view, View::Log);
    app.toggle_view(View::Log);
    assert_eq!(app.view, View::Events);

    for i in 0..4 {
        app.push_log(LogEntry::info(format!("entry {i}")));
    }
    assert_eq!(app.log.scroll_back(), 0);
    app.log.scroll_up();
    assert_eq!(app.log.scroll_back(), 1);
    app.push_log(LogEntry::warn("more".into()));
    assert_eq!(app.log.scroll_back(), 2, "scrolled-up view stays put");
    app.log.scroll_to_bottom();
    assert_eq!(app.log.scroll_back(), 0);
}

#[test]
fn transcript_view_toggles_independently_and_scrolls_from_the_top() {
    let mut app = app();
    app.toggle_raw();
    assert_eq!(app.view, View::Raw);
    app.toggle_view(View::Transcript);
    assert_eq!(app.view, View::Transcript);
    app.toggle_view(View::Transcript);
    assert_eq!(app.view, View::Events);

    app.toggle_view(View::Transcript);
    assert_eq!(
        app.transcript.clamped(),
        0,
        "starts at the beginning, not the tail"
    );
    app.transcript.note_limit(10);
    app.transcript.line_down();
    app.transcript.line_down();
    assert_eq!(app.transcript.clamped(), 2);
    app.transcript.line_up();
    assert_eq!(app.transcript.clamped(), 1);

    app.transcript.scroll_to_end();
    assert_eq!(app.transcript.clamped(), 10, "the last page, not past it");
    app.transcript.reset();
    assert_eq!(app.transcript.clamped(), 0);
}

#[test]
fn conversation_only_filters_the_event_list_without_changing_views() {
    let mut app = app();
    push(&mut app, AgentEvent::AgentMessage {
        text: "hello".into(),
    });
    push(&mut app, AgentEvent::CommandStarted {
        command: "cargo test".into(),
    });
    app.timeline.conversation_only = true;
    assert!(app.timeline.is_visible(0));
    assert!(!app.timeline.is_visible(1), "the command should be hidden");

    app.toggle_conversation_only();
    assert!(!app.timeline.conversation_only);
    assert!(app.timeline.is_visible(1));

    app.toggle_conversation_only();
    assert!(app.timeline.conversation_only);
    assert!(!app.timeline.is_visible(1));
    assert_eq!(app.view, View::Events);
}

#[test]
fn conversation_only_still_shows_errors_and_model_changes() {
    let mut app = app();
    app.timeline.conversation_only = true;
    push(&mut app, AgentEvent::Error {
        message: "workspace is out of credits".into(),
    });
    push(&mut app, AgentEvent::ModelChanged {
        model: Some("opus-5".into()),
        effort: None,
    });

    assert!(app.timeline.is_visible(0));
    assert!(app.timeline.is_visible(1));
    match &app.timeline.entries[1].event {
        AgentEvent::ModelChanged { model, effort } => assert_eq!(
            model_change(model, effort),
            "model → opus-5 (same effort)"
        ),
        event => panic!("unexpected: {event:?}"),
    }
}

#[test]
fn minor_events_are_hidden_and_skipped_by_navigation() {
    let mut app = app();
    push(&mut app, AgentEvent::ThreadStarted {
        thread_id: "t".into(),
        model: None,
        effort: None,
    });
    push(&mut app, AgentEvent::AgentMessage {
        text: "a\nmore a".into(),
    });
    push(&mut app, AgentEvent::TurnStarted);
    push(&mut app, AgentEvent::AgentMessage {
        text: "b\nmore b".into(),
    });
    push(&mut app, AgentEvent::TurnCompleted {
        usage: TokenUsage::default(),
    });
    assert!(!app.timeline.show_minor);

    app.select_first();
    assert_eq!(
        app.timeline.entries[app.timeline.selected].event,
        AgentEvent::AgentMessage {
            text: "a\nmore a".into()
        }
    );

    app.select_next();
    assert_eq!(
        app.timeline.entries[app.timeline.selected].event,
        AgentEvent::AgentMessage {
            text: "b\nmore b".into()
        }
    );
    app.select_next();
    assert_eq!(
        app.timeline.entries[app.timeline.selected].event,
        AgentEvent::AgentMessage {
            text: "b\nmore b".into()
        }
    );

    app.select_prev();
    assert_eq!(
        app.timeline.entries[app.timeline.selected].event,
        AgentEvent::AgentMessage {
            text: "a\nmore a".into()
        }
    );

    app.toggle_minor();
    assert!(app.timeline.show_minor);
}

#[test]
fn select_next_and_prev_skip_entries_with_no_detail_beyond_their_summary() {
    let mut app = app();
    push(&mut app, AgentEvent::AgentMessage {
        text: "no detail here".into(),
    });
    push(&mut app, AgentEvent::AgentMessage {
        text: "has detail\nsecond line".into(),
    });
    push(&mut app, AgentEvent::AgentMessage {
        text: "also no detail".into(),
    });
    assert!(!app.timeline.entries[0].has_detail());
    assert!(app.timeline.entries[1].has_detail());
    assert!(!app.timeline.entries[2].has_detail());
    app.select_first();
    assert_eq!(app.timeline.selected, 0);
    app.select_next();
    assert_eq!(app.timeline.selected, 1);
    app.select_next();
    assert_eq!(app.timeline.selected, 1);
    app.select_prev();
    assert_eq!(app.timeline.selected, 1);
    app.select_next_line();
    assert_eq!(app.timeline.selected, 2);
    app.select_next_line();
    assert_eq!(
        app.timeline.selected, 2,
        "already at the last visible entry"
    );
    app.select_prev_line();
    assert_eq!(app.timeline.selected, 1);
    app.select_prev_line();
    assert_eq!(app.timeline.selected, 0);
}

#[test]
fn file_events_are_navigable_even_without_fold_detail() {
    let mut app = app();
    push(&mut app, AgentEvent::AgentMessage {
        text: "plain summary".into(),
    });
    push(&mut app, AgentEvent::FileChanged {
        id: String::new(),
        paths: vec!["notes.txt".into()],
        diff: None,
        checkpoint: None,
        checkpoint_error: None,
    });
    push(&mut app, AgentEvent::AgentMessage {
        text: "another plain summary".into(),
    });
    assert!(!app.timeline.entries[1].has_detail());

    app.select_first();
    app.select_next();
    assert_eq!(app.timeline.selected, 1);
    app.select_next();
    assert_eq!(app.timeline.selected, 1);
}

#[test]
fn preview_scroll_resets_when_selection_changes() {
    let mut app = app();
    push(&mut app, AgentEvent::AgentMessage {
        text: "first\nbody".into(),
    });
    push(&mut app, AgentEvent::AgentMessage {
        text: "second\nbody".into(),
    });
    app.select_first();
    app.preview.scroll.note_limit(100);
    app.preview.scroll.page_down();
    assert_eq!(app.preview.scroll.offset, 10);

    app.select_next();
    assert_eq!(app.timeline.selected, 1);
    assert_eq!(app.preview.scroll.offset, 0);
}

#[test]
fn preview_page_down_does_not_accumulate_past_the_rendered_end() {
    let mut app = app();
    app.preview.scroll.note_limit(23);

    for _ in 0..100 {
        app.preview.scroll.page_down();
    }
    assert_eq!(app.preview.scroll.offset, 23);

    app.preview.scroll.page_up();
    assert_eq!(app.preview.scroll.offset, 13);
}

#[test]
fn toggling_minor_off_moves_selection_off_a_hidden_entry() {
    let mut app = app();
    app.toggle_minor();
    assert!(app.timeline.show_minor);

    push(&mut app, AgentEvent::AgentMessage { text: "a".into() });
    push(&mut app, AgentEvent::TurnStarted);
    assert_eq!(app.timeline.selected, 1);

    app.toggle_minor();
    assert!(!app.timeline.show_minor);
    assert!(app.timeline.is_visible(app.timeline.selected));
    assert_eq!(
        app.timeline.entries[app.timeline.selected].event,
        AgentEvent::AgentMessage { text: "a".into() }
    );
}

#[test]
fn file_view_collects_focused_and_session_paths() {
    let root = "/work";
    let mut app = app();
    app.workspace.enter(root.into());
    push(&mut app, AgentEvent::AgentMessage {
        text: "see README.md".into(),
    });
    app.timeline.follow = false;
    push(&mut app, AgentEvent::FileChanged {
        id: "1".into(),
        paths: vec!["src/lib.rs".into()],
        diff: None,
        checkpoint: None,
        checkpoint_error: None,
    });
    let around = Surroundings {
        texts: vec![
            EntryText {
                changed: vec![],
                text: "see README.md".into(),
            },
            EntryText {
                changed: vec!["src/lib.rs".into()],
                text: "src/lib.rs".into(),
            },
        ],
        present: vec!["/work/README.md".into(), "/work/src/lib.rs".into()],
        ..nowhere(&app)
    };

    assert_eq!(app.file_paths(&around), vec!["README.md"]);
    app.toggle_file_scope();
    assert_eq!(app.file_paths(&around), vec!["README.md", "src/lib.rs"]);
}

#[test]
fn opening_the_answer_view_requests_the_answer() {
    let mut app = app();
    app.toggle_answer();
    assert_eq!(app.view, View::Answer);
    assert_eq!(app.take_request(), Some(Request::Answer { contract: None }));

    app.toggle_answer();
    assert_eq!(app.view, View::Events);
    assert_eq!(app.take_request(), None);
}

#[test]
fn re_reading_names_the_contract_to_read_under() {
    let mut app = app();
    app.reread_answer(Contract::Lines);
    assert_eq!(
        app.take_request(),
        Some(Request::Answer {
            contract: Some(Contract::Lines)
        })
    );
}

#[test]
fn a_files_answer_resolves_its_selection_against_the_workspace() {
    let mut app = app();
    app.workspace.enter("/work".into());
    app.view = View::Answer;
    app.answer.set(Ok(Answer {
        contract: Contract::Files,
        value: Some(AnswerValue::Files(vec![FileLocation {
            path: "src/auth.rs".into(),
            line: Some(12),
            column: None,
            description: String::new(),
        }])),
        error: None,
        source: "…".into(),
    }));
    assert_eq!(
        app.selected_file_path(&nowhere(&app)),
        Some("/work/src/auth.rs".into())
    );
    assert_eq!(app.copy_text(&nowhere(&app)).as_deref(), Some("src/auth.rs:12"));
}

#[test]
fn the_driva_view_toggles_whether_or_not_a_policy_has_been_recorded() {
    let mut app = app();
    assert_eq!(app.launch.driva, None);

    assert_eq!(app.view, View::Events);
    app.toggle_view(View::Driva);
    assert_eq!(app.view, View::Driva);
    app.toggle_view(View::Driva);
    assert_eq!(app.view, View::Events);
}

#[test]
fn fullscreen_preview_toggles_the_view_and_is_independent_of_the_side_panel() {
    let mut app = app();
    assert_eq!(app.view, View::Events);
    app.toggle_view(View::Preview);
    assert_eq!(app.view, View::Preview);
    assert!(!app.preview.open);
    app.toggle_view(View::Preview);
    assert_eq!(app.view, View::Events);
}

#[test]
fn files_view_opens_with_a_togglable_entry_preview() {
    let mut app = app();
    assert!(!app.preview.open);

    app.toggle_files();
    assert_eq!(app.view, View::Files);
    assert!(app.preview.open);

    app.preview.toggle();
    assert!(!app.preview.open);
    app.toggle_files();
    assert_eq!(app.view, View::Events);
}

#[test]
fn focus_toggles_and_a_typed_message_is_taken_for_sending() {
    let mut app = app();
    assert_eq!(app.focus, Focus::List);
    app.enter_input();
    assert_eq!(app.focus, Focus::Input);

    app.composer.char('h');
    app.composer.char('i');
    assert_eq!(app.composer.text, "hi");
    assert_eq!(app.take_message(), Some("hi".into()));
    assert!(app.composer.text.is_empty());
    assert_eq!(app.take_message(), None);
}

#[test]
fn copy_text_is_the_selected_entrys_full_presented_detail() {
    let mut app = app();
    push(&mut app, AgentEvent::CommandCompleted {
        command: "cargo test".into(),
        status: "completed".into(),
        exit_code: Some(0),
        output: "24 passed".into(),
    });
    let around = Surroundings {
        detail: vec![
            DetailBlock::Code {
                language: Some("sh".into()),
                text: "cargo test".into(),
            },
            DetailBlock::Text("24 passed".into()),
        ],
        ..nowhere(&app)
    };
    let text = app.copy_text(&around).expect("an entry is selected");
    assert!(text.contains("cargo test"));
    assert!(text.contains("24 passed"));
}

#[test]
fn copy_text_falls_back_to_the_summary_when_there_is_no_detail() {
    let mut app = app();
    app.timeline.show_minor = true;
    push(&mut app, AgentEvent::TurnStarted);
    app.select_first();
    let around = Surroundings {
        summary: "turn started".into(),
        ..nowhere(&app)
    };
    let text = app.copy_text(&around).expect("a minor entry is selected");
    assert_eq!(text, "turn started");
}

#[test]
fn copy_text_is_none_for_views_with_no_discrete_entry() {
    let mut app = app();
    push(&mut app, AgentEvent::AgentMessage { text: "hi".into() });
    for view in [View::Log, View::Transcript, View::Driva] {
        app.view = view;
        assert!(app.copy_text(&nowhere(&app)).is_none(), "{view:?}");
    }
}

#[test]
fn copy_text_in_the_raw_view_is_the_selected_wire_line() {
    let mut app = app();
    app.raw.push(RawLine {
        at_ms: 0,
        direction: Direction::FromAgent,
        text: r#"{"type":"turn.started"}"#.into(),
    });
    app.view = View::Raw;
    assert_eq!(
        app.copy_text(&nowhere(&app)).as_deref(),
        Some(r#"{"type":"turn.started"}"#)
    );
}

#[test]
fn an_agent_that_is_not_listed_has_no_name() {
    let mut app = App::new(catalog(), parse("codex"), "s-1".into());
    app.set_selection(Selection {
        provider: Provider::Other(9),
        model: "x".into(),
        effort: Effort::Low,
    });
    let label = app.launch_label();
    assert_eq!(label.agent, "unknown agent");
    assert_eq!(label.model.as_deref(), Some("x"));
    assert_eq!(label.effort.as_deref(), Some("low"));
}

#[test]
fn a_screen_that_gave_up_its_state_knows_of_no_interaction() {
    let mut app = App::new(catalog(), parse("codex"), "s-1".into());
    app.interactions.open = true;
    app.interactions.only_current_workspace = true;
    let state = app.take_operator_state();
    assert!(state.interactions.open);
    assert!(!app.interactions.open);
    assert!(!app.interactions.only_current_workspace);
    assert!(app.interactions.items.is_empty());
}

#[test]
fn a_late_poll_does_not_revive_an_ended_session() {
    let mut app = app();
    push(&mut app, AgentEvent::ToolStarted {
        id: "poll-1".into(),
        name: "TaskOutput".into(),
        detail: String::new(),
    });
    app.activity.background_work = true;
    app.on_ended(InteractionEnd {
        exit_code: Some(0),
        error: None,
    });
    app.push_event(AgentEvent::ToolCompleted {
        id: "poll-1".into(),
        name: "poll-1".into(),
        detail: String::new(),
        status: "completed".into(),
        output: "Task completed successfully".into(),
    }, finishing());
    assert!(matches!(app.activity.status, Status::Ended { .. }));
    assert!(!app.activity.background_work);
}

#[test]
fn a_message_is_dropped_once_it_was_shown_long_enough() {
    let mut app = App::new(catalog(), parse("codex"), "s-1".into());
    app.show_action_message("first".into());
    app.notices.expire(1_000, 500);
    app.show_action_message("second".into());
    app.notices.expire(1_400, 500);
    assert_eq!(app.notices.iter(), ["first", "second"]);
    app.notices.expire(1_499, 500);
    assert_eq!(app.notices.iter(), ["first", "second"]);
    app.notices.expire(1_500, 500);
    assert_eq!(app.notices.iter(), ["second"]);
    app.notices.expire(1_899, 500);
    assert_eq!(app.notices.iter(), ["second"]);
    app.notices.expire(1_900, 500);
    assert!(app.notices.iter().is_empty());
    app.show_action_message("third".into());
    app.notices.expire(5_000, 500);
    assert_eq!(app.notices.iter(), ["third"], "its time starts when it is first looked over");
}

#[test]
fn a_change_of_model_names_what_stays() {
    assert_eq!(model_change(&None, &Some("high".into())), "model → same model (high)");
}
