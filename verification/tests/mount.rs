use styra::mount::{
    git_pointer, git_root, history_directories, label, parse, resolve_against, visibility,
};
use styra::path::same_path;
use styra::protocol::{LaunchMount, Mount, MountAccess};

fn home() -> Option<String> {
    Some("/home/op".to_owned())
}

fn mount(source: &str, destination: Option<&str>, writable: bool) -> LaunchMount {
    LaunchMount {
        source: source.into(),
        destination: destination.map(str::to_owned),
        writable,
    }
}

#[test]
fn a_typed_mount_parses_its_paths_and_access() {
    let home = home();
    assert_eq!(
        parse("/srv/data", &home).unwrap(),
        mount("/srv/data", None, false)
    );
    assert_eq!(
        parse("  /srv/data:rw  ", &home).unwrap(),
        mount("/srv/data", None, true)
    );
    assert_eq!(
        parse("/srv/data:/mnt/data", &home).unwrap(),
        mount("/srv/data", Some("/mnt/data"), false)
    );
    assert_eq!(
        parse("/srv/data:/mnt/data:rw", &home).unwrap(),
        mount("/srv/data", Some("/mnt/data"), true)
    );

    assert_eq!(
        parse("/srv/rw:/mnt/rw", &home).unwrap(),
        mount("/srv/rw", Some("/mnt/rw"), false)
    );

    assert!(parse("", &home).is_err());
    assert!(parse("data", &home).is_err());
    assert!(parse("/srv/data:relative", &home).is_err());
    assert!(parse("/a:/b:/c:rw", &home).is_err());
    assert!(parse("/srv/data:", &home).is_err());
}

#[test]
fn a_mount_reads_back_as_it_was_written() {
    assert_eq!(
        label(&parse("/srv/data:/mnt/data:rw", &home()).unwrap()),
        "/srv/data → /mnt/data (rw)"
    );
    assert_eq!(label(&parse("/srv/data", &home()).unwrap()), "/srv/data (ro)");
}

#[test]
fn a_path_is_read_through_the_innermost_mount_that_carries_it() {
    let mounts = vec![
        Mount::Bind {
            source: "/srv".into(),
            destination: "/mnt".into(),
            access: MountAccess::ReadOnly,
        },
        Mount::Bind {
            source: "/srv/data".into(),
            destination: "/workspace".into(),
            access: MountAccess::ReadWrite,
        },
        Mount::Temporary {
            destination: "/tmp".into(),
        },
    ];

    let seen = visibility(&mounts, "/srv/data/notes.txt").unwrap();
    assert_eq!(seen.path, "/workspace/notes.txt");
    assert_eq!(seen.access, "rw");
    let seen = visibility(&mounts, "/srv/corpus/a.txt").unwrap();
    assert_eq!(seen.path, "/mnt/corpus/a.txt");
    assert_eq!(seen.access, "ro");
    assert!(same_path(
        &visibility(&mounts, "/srv/data").unwrap().path,
        "/workspace"
    ));
    assert!(visibility(&mounts, "/tmp/scratch").is_none());
    assert!(visibility(&mounts, "/etc/passwd").is_none());
    assert!(visibility(&mounts, "/srv-old/data").is_none());
}

#[test]
fn a_worktree_contributes_the_directories_holding_its_history() {
    let target = git_pointer("gitdir: ../main/.git/worktrees/feature\n").unwrap();
    assert_eq!(target, "../main/.git/worktrees/feature");
    assert_eq!(
        resolve_against("/base/feature", &target),
        "/base/feature/../main/.git/worktrees/feature"
    );
    let directories = history_directories(
        "/base/main/.git/worktrees/feature".into(),
        Some("/base/main/.git".into()),
    );
    assert_eq!(
        directories,
        vec![
            "/base/main/.git/worktrees/feature".to_owned(),
            "/base/main/.git".to_owned(),
        ]
    );
    assert_eq!(
        history_directories("/base/.git".into(), Some("/base/.git/".into())),
        vec!["/base/.git".to_owned()]
    );
    assert_eq!(git_pointer("not a pointer\n"), None);
}

#[test]
fn a_leading_tilde_expands_against_this_operators_home() {
    assert_eq!(parse("~/data", &home()).unwrap().source, "/home/op/data");
    assert!(same_path(&parse("~", &home()).unwrap().source, "/home/op"));
}

#[test]
fn the_nearest_enclosing_repository_is_found() {
    let repositories = vec!["/".to_owned(), "/srv/app".to_owned()];
    assert_eq!(
        git_root("/srv/app/src/deep", &repositories).as_deref(),
        Some("/srv/app")
    );
    assert_eq!(git_root("/srv", &repositories).as_deref(), Some("/"));
    assert_eq!(git_root("/srv", &Vec::new()), None);
}
