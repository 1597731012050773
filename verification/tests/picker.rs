use styra::interactions::sort_interactions;
use styra::key::KeyCode;
use styra::picker::{
    interaction_rows, name_to_give, read_session_name, selected_row, sort_workspaces,
    workspace_display_name, Handoff, InteractionRow, InteractionsPicker, InteractionsView, NameEnd, TemplatePicker,
    TemplatePickerAction, NAME_LIMIT,
};
use styra::launch::LaunchScope;
use styra::protocol::{
    DrivaOptions, Effort, InteractionActivity, InteractionSummary, LaunchPolicy, Provider,
    Selection, WorkspaceSummary,
};

fn interaction(id: &str, accepting: bool, activity: InteractionActivity) -> InteractionSummary {
    InteractionSummary {
        id: id.into(),
        name: None,
        workspace_id: "workspace".into(),
        selection: Selection {
            provider: Provider::Codex,
            model: "gpt-5.6-sol".into(),
            effort: Effort::Medium,
        },
        workspace: "/workspace".into(),
        driva: DrivaOptions {
            isolation_backend: "none".into(),
            command: vec![],
            working_directory: "/workspace".into(),
            network: false,
            mounts: vec![],
        },
        accepting,
        activity,
        idle_unseen: false,
        auto_retry: false,
        last_message: None,
        events: 0,
    }
}

fn interaction_in(
    id: &str,
    workspace_id: &str,
    accepting: bool,
    activity: InteractionActivity,
) -> InteractionSummary {
    InteractionSummary {
        workspace_id: workspace_id.into(),
        ..interaction(id, accepting, activity)
    }
}

fn workspace(id: &str, last_accessed_at_ms: u64) -> WorkspaceSummary {
    WorkspaceSummary {
        id: id.into(),
        name: None,
        notes: String::new(),
        host_path: format!("/home/op/{id}"),
        path: format!("/state/workspaces/{id}"),
        session_count: 0,
        created_at_ms: 1,
        last_accessed_at_ms,
        launch: LaunchPolicy::none(),
        git_repository: false,
        worktrees_enabled: false,
    }
}

fn ids(workspaces: &[WorkspaceSummary]) -> Vec<&str> {
    workspaces
        .iter()
        .map(|workspace| workspace.id.as_str())
        .collect()
}

#[test]
fn workspaces_sort_by_recent_access() {
    let workspaces = vec![
        workspace("older", 10),
        workspace("newest", 30),
        workspace("newer", 20),
    ];

    let workspaces = sort_workspaces(workspaces, &vec![]);

    assert_eq!(ids(&workspaces), ["newest", "newer", "older"]);
}

#[test]
fn workspaces_with_live_interactions_sort_above_more_recently_accessed_ones() {
    let workspaces = vec![
        workspace("untouched", 40),
        workspace("running", 10),
        workspace("stopped", 30),
        workspace("idle", 20),
    ];
    let interactions = vec![
        interaction_in("a", "running", true, InteractionActivity::Running),
        interaction_in("b", "stopped", false, InteractionActivity::Pending),
        interaction_in("c", "idle", true, InteractionActivity::Pending),
    ];

    let workspaces = sort_workspaces(workspaces, &interactions);

    assert_eq!(
        ids(&workspaces),
        ["idle", "running", "untouched", "stopped"]
    );
}

#[test]
fn interactions_sort_idle_then_running_then_stopped_stably() {
    let interactions = vec![
        interaction("stopped-1", false, InteractionActivity::Running),
        interaction("idle-1", true, InteractionActivity::Pending),
        interaction("pending-1", true, InteractionActivity::Running),
        interaction("stopped-2", false, InteractionActivity::Pending),
        interaction("pending-2", true, InteractionActivity::Running),
        interaction("idle-2", true, InteractionActivity::Pending),
    ];

    let interactions = sort_interactions(interactions);

    assert_eq!(
        interactions
            .iter()
            .map(|interaction| interaction.id.as_str())
            .collect::<Vec<_>>(),
        [
            "idle-1",
            "idle-2",
            "pending-1",
            "pending-2",
            "stopped-1",
            "stopped-2",
        ]
    );
}

#[test]
fn grouping_puts_a_heading_above_each_workspace() {
    let interactions = vec![
        interaction_in("a", "one", true, InteractionActivity::Pending),
        interaction_in("b", "two", true, InteractionActivity::Pending),
        interaction_in("c", "one", true, InteractionActivity::Running),
    ];
    let workspaces = vec![workspace("one", 1), workspace("two", 2)];
    let grouped = InteractionsView {
        only_current_workspace: false,
        grouped: true,
    };
    let rows = interaction_rows(&interactions, &workspaces, None, grouped);
    assert_eq!(
        rows,
        vec![
            InteractionRow::Workspace("one".into()),
            InteractionRow::Interaction(0),
            InteractionRow::Interaction(2),
            InteractionRow::Workspace("two".into()),
            InteractionRow::Interaction(1),
        ]
    );
    assert_eq!(selected_row(&rows, Some(1)), Some(4));
    let only_two = InteractionsView {
        only_current_workspace: true,
        grouped: false,
    };
    assert_eq!(
        interaction_rows(&interactions, &workspaces, Some("two"), only_two),
        vec![InteractionRow::Interaction(1)]
    );
}

#[test]
fn a_workspace_goes_by_its_name_or_its_directory() {
    let mut named = workspace("one", 1);
    assert_eq!(workspace_display_name(&named), "one");
    named.name = Some("Billing".into());
    assert_eq!(workspace_display_name(&named), "Billing");
}

#[test]
fn a_typed_name_is_bounded_and_blank_means_none() {
    let mut value = String::new();
    for _ in 0..NAME_LIMIT + 5 {
        assert_eq!(read_session_name(&mut value, KeyCode::Char('x')), None);
    }
    assert_eq!(value.len(), NAME_LIMIT);
    assert_eq!(read_session_name(&mut value, KeyCode::Backspace), None);
    assert_eq!(value.len(), NAME_LIMIT - 1);
    assert_eq!(
        read_session_name(&mut value, KeyCode::Enter),
        Some(NameEnd::Accepted)
    );
    assert_eq!(
        read_session_name(&mut value, KeyCode::Esc),
        Some(NameEnd::Cancelled)
    );
    assert_eq!(name_to_give("  ".into()), None);
    assert_eq!(
        name_to_give(" fix login ".into()),
        Some(" fix login ".into())
    );
}

#[test]
fn choosing_a_template_twice_leaves_the_choice_as_it_was() {
    let mut picker = TemplatePicker::loading(
        1,
        "workspace".into(),
        LaunchScope::Interaction,
        vec!["rust".into()],
    );
    picker.loaded(vec!["browser".into(), "rust".into()]);
    assert_eq!(
        picker.handle_key(KeyCode::Char(' ')),
        TemplatePickerAction::Nothing
    );
    assert_eq!(
        picker.handle_key(KeyCode::Char(' ')),
        TemplatePickerAction::Nothing
    );
    assert_eq!(
        picker.handle_key(KeyCode::Enter),
        TemplatePickerAction::Unchanged
    );
}

#[test]
fn a_handoff_that_cannot_stop_its_source_is_undone() {
    let source = interaction("styra-1", true, InteractionActivity::Pending);
    let asked = Handoff::new(&source);
    assert_eq!(
        asked,
        Handoff::Convert {
            source: "styra-1".into()
        }
    );
    let resuming = asked.converted(Ok("styra-2".into()));
    assert_eq!(
        resuming,
        Handoff::Resume {
            source: "styra-1".into(),
            converted: "styra-2".into()
        }
    );
    let stopping = resuming.resumed(Ok(()));
    let undone = stopping.stopped(Err("gone".into()));
    assert!(
        matches!(&undone, Handoff::Revert { converted, .. } if converted == "styra-2"),
        "{undone:?}"
    );
}

#[test]
fn a_stopped_interaction_stays_in_its_row() {
    let picker = InteractionsPicker::new(InteractionsView::default(), None);
    let mut interactions = vec![
        interaction("one", true, InteractionActivity::Running),
        interaction("two", true, InteractionActivity::Running),
    ];
    picker.stopped(&mut interactions, 1);
    assert!(interactions[0].accepting);
    assert!(!interactions[1].accepting);
    assert_eq!(interactions[1].id, "two");
}
