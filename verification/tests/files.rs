use styra::agent::SandboxLayout;
use styra::files::{items, path_like, resolve, FilesView};
use styra::path::{join, same_path};

#[test]
fn a_sandbox_path_is_re_rooted_at_the_workspace_on_this_host() {
    let resolved = resolve(
        "/home/me/project",
        &format!("{}/src/main.rs", SandboxLayout::default().workspace),
    );

    assert_eq!(resolved, "/home/me/project/src/main.rs");
}

#[test]
fn a_relative_path_is_taken_against_the_workspace() {
    let resolved = resolve("/home/me/project", "src/main.rs");

    assert_eq!(resolved, "/home/me/project/src/main.rs");
}

#[test]
fn an_absolute_path_outside_the_sandbox_is_left_alone() {
    let resolved = resolve("/home/me/project", "/etc/hosts");

    assert_eq!(resolved, "/etc/hosts");
}

#[test]
fn workspace_files_are_grouped_under_it_and_others_under_their_own_parent() {
    let root = "/home/me/project";
    let items = items(
        root,
        vec![
            "src/main.rs".into(),
            "/etc/hosts".into(),
            "README.md".into(),
        ],
    );

    let grouped: Vec<_> = items
        .iter()
        .map(|item| (item.root.clone(), item.relative.clone()))
        .collect();
    assert_eq!(
        grouped,
        vec![
            ("/etc".to_owned(), "hosts".to_owned()),
            (root.to_owned(), "README.md".to_owned()),
            (root.to_owned(), "src/main.rs".to_owned()),
        ],
        "external roots sort before the Workspace, and each root's files by path"
    );
}

#[test]
fn the_reported_spelling_survives_grouping() {
    let items = items("/work", vec!["src/main.rs".into()]);

    assert_eq!(items[0].reported, "src/main.rs");
    assert_eq!(items[0].resolved, "/work/src/main.rs");
}

#[test]
fn punctuation_around_a_path_in_prose_is_stripped() {
    assert_eq!(path_like("`src/main.rs`").as_deref(), Some("src/main.rs"));
    assert_eq!(path_like("(src/main.rs)").as_deref(), Some("src/main.rs"));
    assert_eq!(path_like("src/main.rs,").as_deref(), Some("src/main.rs"));
}

#[test]
fn a_word_that_could_not_be_a_path_is_not_one() {
    assert_eq!(path_like("running"), None);
    assert_eq!(path_like("``"), None);
    assert_eq!(path_like("word.").as_deref(), Some("word."));
}

#[test]
fn the_selection_holds_at_the_last_row_and_resets_when_the_scope_changes() {
    let mut view = FilesView::default();
    view.select_next(2);
    view.select_next(2);
    view.select_next(2);
    assert_eq!(view.selected_index(), 2);

    view.toggle_scope();

    assert!(view.shows_all());
    assert_eq!(view.selected_index(), 0, "a different list, from its start");
}

#[test]
fn every_row_leads_to_its_file() {
    for root in ["/home/me/project", "/home/me//project/", "project", ""] {
        let rows = items(
            root,
            vec![
                "src//main.rs".into(),
                "/etc/./hosts".into(),
                "/workspace/a.rs".into(),
                "/".into(),
                "..".into(),
                "".into(),
            ],
        );
        assert_eq!(rows.len(), 6);
        for row in rows {
            assert!(same_path(&join(&row.root, &row.relative), &row.resolved), "{row:?}");
        }
    }
}
