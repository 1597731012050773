use styra::insert::{complete, completion_directory, resolve, Insert, Listed, Outcome, Prompt};
use styra::key::{Key, KeyCode};
use styra::path::same_path;
use styra::protocol::{LaunchMount, Mount, MountAccess};

const ROOT: &str = "/work/tree";

fn listed(name: &str, directory: bool) -> Listed {
    Listed {
        name: name.into(),
        directory,
    }
}

/// What a directory of the tree holds.
fn entries(directory: &str) -> Vec<Listed> {
    if same_path(directory, "/work/tree") {
        vec![
            listed("reports", true),
            listed("readme.d", true),
            listed("notes.txt", false),
        ]
    } else if same_path(directory, "/work/tree/reports") {
        vec![listed("quarterly", true), listed("summary.md", false)]
    } else {
        Vec::new()
    }
}

fn completed(base: Option<&str>, text: &str) -> Option<String> {
    let base = base.map(str::to_owned);
    let directory = completion_directory(&base, text, &None)?;
    complete(text, &entries(&directory))
}

#[test]
fn completion_extends_only_as_far_as_the_candidates_agree() {
    let base = Some(ROOT);

    assert_eq!(completed(base, "re"), None);
    assert_eq!(completed(base, "rep").unwrap(), "reports/");
    assert_eq!(completed(base, "reports/"), None);
    assert_eq!(completed(base, "reports/s").unwrap(), "reports/summary.md");
    assert_eq!(completed(base, "zz"), None);
    assert_eq!(
        completed(None, &format!("{ROOT}/rep")).unwrap(),
        format!("{ROOT}/reports/")
    );
}

#[test]
fn a_typed_path_resolves_against_the_workspace_and_must_exist() {
    let base = Some(ROOT.to_owned());

    assert_eq!(
        resolve(&base, "notes.txt", &None).unwrap(),
        format!("{ROOT}/notes.txt")
    );
    assert_eq!(
        resolve(&base, " reports/../notes.txt ", &None).unwrap(),
        format!("{ROOT}/reports/../notes.txt")
    );
    assert!(resolve(&base, "", &None).is_err());
    // What is not there is refused by whoever looks for it.
    let mut prompt = prompt();
    assert!(matches!(
        prompt.resolved(Err("no such file: absent.txt".into())),
        Outcome::Notice(_)
    ));
    assert!(resolve(&None, "notes.txt", &None).is_err());
}

fn mounts() -> Vec<Mount> {
    vec![Mount::Bind {
        source: ROOT.into(),
        destination: "/workspace".into(),
        access: MountAccess::ReadWrite,
    }]
}

fn prompt() -> Prompt {
    Prompt::new(Some(ROOT.into()), Some(mounts()), true)
}

fn press(prompt: &mut Prompt, code: KeyCode) -> Outcome {
    prompt.key(Key::plain(code), &None)
}

/// Type `text` and accept it, with the path being what it is named.
fn typed(prompt: &mut Prompt, text: &str) -> Outcome {
    for ch in text.chars() {
        press(prompt, KeyCode::Char(ch));
    }
    match press(prompt, KeyCode::Enter) {
        Outcome::Resolve(path) => prompt.resolved(Ok(path)),
        outcome => outcome,
    }
}

#[test]
fn a_mounted_path_is_inserted_in_the_agents_terms() {
    let mut prompt = prompt();

    let outcome = typed(&mut prompt, "reports/summary.md");

    let Outcome::Insert { path, .. } = outcome else {
        panic!("expected an insert, got {outcome:?}");
    };
    assert_eq!(path, "/workspace/reports/summary.md");
}

#[test]
fn an_unmounted_path_asks_before_it_is_inserted() {
    let mut prompt = prompt();
    let host = "/elsewhere/notes.txt".to_owned();

    let outcome = typed(&mut prompt, &host);

    assert_eq!(
        (outcome, prompt.state()),
        (Outcome::Open, &Insert::Grant(host.clone())),
        "an unmounted path is not inserted until the question is answered"
    );

    assert_eq!(
        press(&mut prompt, KeyCode::Char('w')),
        Outcome::Grant {
            mount: LaunchMount {
                source: host.clone(),
                destination: None,
                writable: true,
            },
            path: host,
        }
    );
}

#[test]
fn declining_the_grant_still_inserts_the_path() {
    let mut prompt = prompt();
    let host = "/elsewhere/notes.txt";

    typed(&mut prompt, host);
    let outcome = press(&mut prompt, KeyCode::Char('n'));

    let Outcome::Insert { path, notice } = outcome else {
        panic!("expected an insert, got {outcome:?}");
    };
    assert_eq!(path, host);
    assert!(notice.unwrap().contains("cannot reach it"));
}

#[test]
fn a_fixed_sandbox_is_told_rather_than_asked() {
    let mut prompt = Prompt::new(Some(ROOT.into()), Some(mounts()), false);
    let host = "/elsewhere/notes.txt";

    let outcome = typed(&mut prompt, host);

    let Outcome::Insert { path, notice } = outcome else {
        panic!("expected an insert, got {outcome:?}");
    };
    assert_eq!(path, host);
    assert!(notice.unwrap().contains("outside the sandbox"));
}

#[test]
fn without_a_sandbox_the_path_goes_in_unchanged() {
    let mut prompt = Prompt::new(Some(ROOT.into()), None, true);

    let outcome = typed(&mut prompt, "notes.txt");

    let Outcome::Insert { path, notice } = outcome else {
        panic!("expected an insert, got {outcome:?}");
    };
    assert_eq!(path, format!("{ROOT}/notes.txt"));
    assert!(notice.unwrap().contains("no sandbox policy known"));
}

#[test]
fn a_path_that_does_not_exist_leaves_the_prompt_open() {
    let mut prompt = prompt();

    for ch in "reprots/summary.md".chars() {
        press(&mut prompt, KeyCode::Char(ch));
    }
    let asked = press(&mut prompt, KeyCode::Enter);
    assert_eq!(asked, Outcome::Resolve(format!("{ROOT}/reprots/summary.md")));
    let outcome = prompt.resolved(Err("no such file".into()));

    assert!(matches!(outcome, Outcome::Notice(_)), "{outcome:?}");
    assert_eq!(prompt.state(), &Insert::Typing("reprots/summary.md".into()));

    assert_eq!(press(&mut prompt, KeyCode::Esc), Outcome::Closed);
}
