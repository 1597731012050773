use styra::interactions::{first_live_in_workspace, LiveInteractions, LOAD_SETTLE_MS};
use styra::protocol::{
    DrivaOptions, Effort, InteractionActivity, InteractionSummary, Provider, Selection,
};

fn interaction(id: &str, accepting: bool, activity: InteractionActivity) -> InteractionSummary {
    InteractionSummary {
        auto_retry: false,
        id: id.into(),
        name: None,
        workspace_id: "workspace".into(),
        selection: Selection {
            provider: Provider::Codex,
            model: "gpt-5.6-sol".into(),
            effort: Effort::High,
        },
        workspace: "/workspace".into(),
        driva: DrivaOptions {
            isolation_backend: "none".into(),
            command: vec![],
            working_directory: "/workspace".into(),
            network: false,
            mounts: vec![],
        },
        accepting,
        activity,
        idle_unseen: false,
        last_message: None,
        events: 0,
    }
}

fn elsewhere(id: &str, workspace: &str, activity: InteractionActivity) -> InteractionSummary {
    let mut interaction = interaction(id, true, activity);
    interaction.workspace_id = workspace.into();
    interaction
}

#[test]
fn live_interactions_open_on_the_current_session_in_status_order() {
    let mut live = LiveInteractions::default();
    live.open(
        vec![
            interaction("stopped", false, InteractionActivity::Running),
            interaction("running", true, InteractionActivity::Running),
            interaction("idle", true, InteractionActivity::Pending),
        ],
        vec![],
    );

    assert!(live.open);
    assert_eq!(
        live.items
            .iter()
            .map(|interaction| interaction.id.as_str())
            .collect::<Vec<_>>(),
        ["idle", "running", "stopped"]
    );
    assert_eq!(live.current("running").unwrap().id, "running");
}

#[test]
fn refreshing_live_interactions_keeps_current_lookup_by_identity() {
    let mut live = LiveInteractions::default();
    live.open(
        vec![
            interaction("one", true, InteractionActivity::Pending),
            interaction("two", true, InteractionActivity::Running),
        ],
        vec![],
    );
    let next = live.next("one", Some("workspace")).unwrap();
    assert_eq!(live.items[next].id, "two");
    let mut refreshed_two = interaction("two", true, InteractionActivity::Pending);
    refreshed_two.last_message = Some("new response".into());
    live.refresh(vec![
        refreshed_two,
        interaction("one", true, InteractionActivity::Running),
    ]);

    assert_eq!(live.current("two").unwrap().id, "two");
    assert_eq!(
        live.current("two").unwrap().last_message.as_deref(),
        Some("new response")
    );
}

#[test]
fn refresh_keeps_the_servers_unseen_idle_notification() {
    let mut live = LiveInteractions::default();
    let mut other = interaction("other", true, InteractionActivity::Pending);
    other.idle_unseen = true;
    live.refresh(vec![other]);

    assert_eq!(live.idle_notification_count(), 1);
    live.close();
    assert_eq!(live.idle_notification_count(), 1);
}

#[test]
fn a_moving_cursor_defers_its_load_until_it_comes_to_rest() {
    let mut live = LiveInteractions::default();
    live.open(
        vec![
            interaction("one", true, InteractionActivity::Pending),
            interaction("two", true, InteractionActivity::Pending),
            interaction("three", true, InteractionActivity::Pending),
        ],
        vec![],
    );

    live.cursor_next("one", Some("workspace"), 1_000);
    live.cursor_next("one", Some("workspace"), 1_010);

    assert_eq!(live.cursor("one"), "three");
    assert_eq!(
        live.pending("one")
            .map(|interaction| interaction.id.as_str()),
        Some("three")
    );
    assert!(live.due("one", 1_010).is_none());

    assert_eq!(
        live.due("one", 1_010 + LOAD_SETTLE_MS + 20)
            .map(|interaction| interaction.id.as_str()),
        Some("three")
    );

    live.rest();
    assert_eq!(live.cursor("three"), "three");
    assert!(live.due("three", 1_010 + LOAD_SETTLE_MS + 20).is_none());
}

#[test]
fn a_cursor_walked_back_onto_the_current_interaction_loads_nothing() {
    let mut live = LiveInteractions::default();
    live.open(
        vec![
            interaction("one", true, InteractionActivity::Pending),
            interaction("two", true, InteractionActivity::Pending),
        ],
        vec![],
    );

    live.cursor_next("one", Some("workspace"), 0);
    live.cursor_previous("one", Some("workspace"), 0);

    assert_eq!(live.cursor("one"), "one");
    assert!(live.pending("one").is_none());
    assert!(live.due("one", 10_000).is_none());
}

#[test]
fn a_cursored_interaction_that_leaves_the_list_releases_the_cursor() {
    let mut live = LiveInteractions::default();
    live.open(
        vec![
            interaction("one", true, InteractionActivity::Pending),
            interaction("two", true, InteractionActivity::Pending),
        ],
        vec![],
    );
    live.cursor_next("one", Some("workspace"), 0);

    live.refresh(vec![interaction("one", true, InteractionActivity::Pending)]);

    assert_eq!(live.cursor("one"), "one");
    assert!(live.pending("one").is_none());
}

#[test]
fn workspace_scope_filters_navigation_and_can_return_to_all() {
    let mut live = LiveInteractions::default();
    live.open(
        vec![
            interaction("current", true, InteractionActivity::Pending),
            elsewhere("other", "other-workspace", InteractionActivity::Pending),
            interaction("next", true, InteractionActivity::Running),
        ],
        vec![],
    );

    live.toggle_workspace_scope();
    assert!(live.only_current_workspace);
    assert_eq!(live.visible_indices(Some("workspace")), vec![0, 2]);
    let next = live.next("current", Some("workspace")).unwrap();
    assert_eq!(live.items[next].id, "next");

    live.toggle_workspace_scope();
    assert!(!live.only_current_workspace);
    assert_eq!(live.visible_indices(Some("workspace")), vec![0, 1, 2]);
}

#[test]
fn navigation_follows_the_workspace_grouped_display_order() {
    let mut live = LiveInteractions::default();
    live.open(
        vec![
            interaction("pending", true, InteractionActivity::Pending),
            elsewhere("other-pending", "other-workspace", InteractionActivity::Pending),
            interaction("running", true, InteractionActivity::Running),
            elsewhere("other-running", "other-workspace", InteractionActivity::Running),
        ],
        vec![],
    );

    let ordered = live
        .display_indices(Some("workspace"))
        .into_iter()
        .map(|index| live.items[index].id.as_str())
        .collect::<Vec<_>>();
    assert_eq!(
        ordered,
        ["pending", "running", "other-pending", "other-running"]
    );

    let next = |id: &str| {
        live.next(id, Some("workspace"))
            .map(|index| live.items[index].id.as_str())
    };
    let previous = |id: &str| {
        live.previous(id, Some("workspace"))
            .map(|index| live.items[index].id.as_str())
    };
    assert_eq!(next("pending"), Some("running"));
    assert_eq!(next("running"), Some("other-pending"));
    assert_eq!(previous("other-pending"), Some("running"));
    assert_eq!(previous("other-running"), Some("other-pending"));
}

#[test]
fn workspace_jumps_walk_the_first_entry_of_each_group() {
    let mut live = LiveInteractions::default();
    live.open(
        vec![
            interaction("pending", true, InteractionActivity::Pending),
            elsewhere("other-pending", "other-workspace", InteractionActivity::Pending),
            interaction("running", true, InteractionActivity::Running),
            elsewhere("other-running", "other-workspace", InteractionActivity::Running),
            elsewhere("third", "third-workspace", InteractionActivity::Running),
        ],
        vec![],
    );
    let workspace = Some("workspace");
    let next = |id: &str| {
        live.next_workspace(id, workspace)
            .map(|index| live.items[index].id.as_str())
    };
    let previous = |id: &str| {
        live.previous_workspace(id, workspace)
            .map(|index| live.items[index].id.as_str())
    };

    assert_eq!(next("pending"), Some("other-pending"));
    assert_eq!(next("running"), Some("other-pending"));
    assert_eq!(next("other-running"), Some("third"));
    assert_eq!(next("third"), None);

    assert_eq!(previous("other-running"), Some("other-pending"));
    assert_eq!(previous("other-pending"), Some("pending"));
    assert_eq!(previous("running"), Some("pending"));
    assert_eq!(previous("pending"), None);
}

#[test]
fn workspace_jumps_defer_their_load_like_the_row_moves_do() {
    let mut live = LiveInteractions::default();
    live.open(
        vec![
            interaction("pending", true, InteractionActivity::Pending),
            elsewhere("other-pending", "other-workspace", InteractionActivity::Pending),
            elsewhere("third", "third-workspace", InteractionActivity::Pending),
        ],
        vec![],
    );
    let workspace = Some("workspace");

    live.cursor_next_workspace("pending", workspace, 0);
    live.cursor_next_workspace("pending", workspace, 0);

    assert_eq!(live.cursor("pending"), "third");
    assert!(live.due("pending", 0).is_none());

    live.cursor_previous_workspace("pending", workspace, 0);
    live.cursor_previous_workspace("pending", workspace, 0);
    assert_eq!(live.cursor("pending"), "pending");
    assert!(live.pending("pending").is_none());
}

#[test]
fn workspace_jumps_do_nothing_in_workspace_scope() {
    let mut live = LiveInteractions::default();
    live.open(
        vec![
            interaction("current", true, InteractionActivity::Pending),
            elsewhere("other", "other-workspace", InteractionActivity::Pending),
            interaction("next", true, InteractionActivity::Running),
        ],
        vec![],
    );
    live.toggle_workspace_scope();

    assert!(live.next_workspace("current", Some("workspace")).is_none());
    assert!(live.previous_workspace("next", Some("workspace")).is_none());
}

#[test]
fn first_live_in_workspace_prefers_the_one_waiting_on_the_operator() {
    let interactions = vec![
        elsewhere("other", "other-workspace", InteractionActivity::Pending),
        interaction("stopped", false, InteractionActivity::Pending),
        interaction("running", true, InteractionActivity::Running),
        interaction("idle", true, InteractionActivity::Pending),
    ];

    let first = first_live_in_workspace(&interactions, "workspace").unwrap();
    assert_eq!(interactions[first].id, "idle");
    let first = first_live_in_workspace(&interactions, "other-workspace").unwrap();
    assert_eq!(interactions[first].id, "other");
}

#[test]
fn a_workspace_whose_interactions_all_stopped_has_no_live_entry() {
    let interactions = vec![
        interaction("stopped", false, InteractionActivity::Pending),
        interaction("also-stopped", false, InteractionActivity::Running),
    ];

    assert!(first_live_in_workspace(&interactions, "workspace").is_none());
    assert!(first_live_in_workspace(&interactions, "unknown").is_none());
}

#[test]
fn deleting_an_interaction_selects_the_entry_that_replaces_it() {
    let mut live = LiveInteractions::default();
    live.open(
        vec![
            interaction("one", true, InteractionActivity::Pending),
            interaction("two", true, InteractionActivity::Running),
            interaction("stopped", false, InteractionActivity::Running),
        ],
        vec![],
    );

    let next = live
        .remove_and_select_next("stopped", Some("workspace"))
        .unwrap();

    assert_eq!(live.items[next].id, "two");
    assert!(live.open);
}

#[test]
fn deleting_the_last_scoped_interaction_falls_back_to_all() {
    let mut live = LiveInteractions::default();
    live.open(
        vec![
            interaction("current", false, InteractionActivity::Running),
            elsewhere("other", "other-workspace", InteractionActivity::Pending),
        ],
        vec![],
    );
    live.toggle_workspace_scope();

    let next = live
        .remove_and_select_next("current", Some("workspace"))
        .unwrap();

    assert_eq!(live.items[next].id, "other");
    assert!(!live.only_current_workspace);
    assert!(live.open);
}
