use styra::launcher::{Catalog, ProviderEntry};
use styra::preferences::{
    load_or_default, save, save_launch, save_selection, stored_from, temporary_path, Defaults,
    Stored,
};
use styra::protocol::{Effort, LaunchMount, LaunchPolicy, Provider, Selection};

fn words(list: &[&str]) -> Vec<String> {
    list.iter().map(|word| (*word).to_owned()).collect()
}

fn catalog() -> Catalog {
    Catalog {
        providers: vec![
            ProviderEntry {
                provider: Provider::Codex,
                name: "codex".into(),
                models: words(&["gpt-5.6-sol", "gpt-5.6-luna", "gpt-5.6-mini"]),
                efforts: vec![Effort::Low, Effort::Medium, Effort::High, Effort::XHigh],
                default_model: "gpt-5.6-sol".into(),
                default_effort: Effort::Medium,
            },
            ProviderEntry {
                provider: Provider::Other(0),
                name: "pi".into(),
                models: words(&["pi-large", "pi-small"]),
                efforts: vec![Effort::Minimal, Effort::Low],
                default_model: "pi-small".into(),
                default_effort: Effort::Low,
            },
            ProviderEntry {
                provider: Provider::Claude,
                name: "assistant".into(),
                models: words(&["opus-5", "sonnet-5", "haiku-5", "opus"]),
                efforts: vec![
                    Effort::Low,
                    Effort::Medium,
                    Effort::High,
                    Effort::XHigh,
                    Effort::Max,
                ],
                default_model: "sonnet-5".into(),
                default_effort: Effort::High,
            },
        ],
    }
}

fn entry(provider: Provider) -> ProviderEntry {
    catalog()
        .providers
        .into_iter()
        .find(|entry| entry.provider == provider)
        .unwrap()
}

/// `provider`, `provider:model` or `provider:model/effort`.
fn parse(text: &str) -> Selection {
    let (provider, rest) = match text.split_once(':') {
        Some((provider, rest)) => (provider, Some(rest)),
        None => (text, None),
    };
    let entry = entry(match provider {
        "codex" => Provider::Codex,
        "assistant" => Provider::Claude,
        _ => Provider::Other(0),
    });
    let (model, effort) = match rest {
        Some(rest) => match rest.split_once('/') {
            Some((model, effort)) => (model.to_owned(), Some(effort)),
            None => (rest.to_owned(), None),
        },
        None => (entry.default_model, None),
    };
    let effort = match effort {
        Some("low") => Effort::Low,
        Some("medium") => Effort::Medium,
        Some("high") => Effort::High,
        Some("xhigh") => Effort::XHigh,
        Some("max") => Effort::Max,
        Some(_) => Effort::Minimal,
        None => entry.default_effort,
    };
    Selection {
        provider: entry.provider,
        model,
        effort,
    }
}

const PATH: &str = "/home/op/.config/styra/defaults.json";

fn load(stored: Stored) -> Result<Defaults, String> {
    load_or_default(&catalog(), PATH, stored, Ok(()))
}

fn sonnet() -> Selection {
    Selection {
        provider: Provider::Claude,
        model: "sonnet-5".into(),
        effort: Effort::Max,
    }
}

#[test]
fn a_missing_file_uses_the_declared_codex_defaults() {
    let defaults = load(Stored::Absent).unwrap();
    assert_eq!(defaults.selection, parse("codex"));
    assert_eq!(defaults.launch, LaunchPolicy::none());
}

#[test]
fn a_saved_selection_and_launch_policy_round_trip() {
    let defaults = || Defaults {
        selection: sonnet(),
        launch: LaunchPolicy {
            network: Some(true),
            templates: vec!["rust".into()],
            mounts: vec![LaunchMount {
                source: "/srv/data".into(),
                destination: None,
                writable: false,
            }],
            standalone: false,
        },
    };

    save(Ok(())).unwrap();
    assert_eq!(
        load(stored_from(Ok(defaults()), Err("no bare selection".into()))).unwrap(),
        defaults()
    );
}

#[test]
fn saving_one_half_of_the_defaults_keeps_the_other() {
    let launch = LaunchPolicy {
        network: Some(true),
        templates: vec!["browser".into()],
        mounts: Vec::new(),
        standalone: false,
    };
    let selection = sonnet();

    let written = save_launch(&catalog(), load(Stored::Absent), &launch);
    let written = save_selection(&catalog(), load(Stored::Current(written)), &selection);

    let defaults = load(Stored::Current(written)).unwrap();
    assert_eq!(defaults.launch, launch);
    assert_eq!(defaults.selection, selection);
}

#[test]
fn a_defaults_file_holding_only_a_selection_is_still_read() {
    let defaults = load(Stored::SelectionAlone(sonnet())).unwrap();
    assert_eq!(defaults.selection, sonnet());
    assert_eq!(defaults.launch, LaunchPolicy::none());
}

#[test]
fn malformed_saved_defaults_are_not_silently_ignored() {
    let error = load(Stored::Malformed("key must be a string".into())).unwrap_err();
    assert!(error.contains("parsing Styra defaults"));
}

#[test]
fn defaults_that_cannot_be_read_or_name_nothing_are_errors() {
    let error = load(Stored::Unreadable("permission denied".into())).unwrap_err();
    assert_eq!(
        error,
        format!("reading Styra defaults from {PATH}: permission denied")
    );
    let error = load_or_default(
        &catalog(),
        PATH,
        Stored::SelectionAlone(sonnet()),
        Err("no such model".into()),
    )
    .unwrap_err();
    assert_eq!(
        error,
        format!("invalid Styra defaults in {PATH}: no such model")
    );
}

#[test]
fn the_temporary_file_stands_beside_the_real_one() {
    let path = temporary_path(PATH, 42).unwrap();
    assert!(path.starts_with("/home/op/.config/styra/"));
    assert_ne!(path, PATH);
    assert!(path.contains("42"));
}

#[test]
fn what_was_saved_is_what_the_next_client_starts_from() {
    let kept = Defaults {
        selection: parse("assistant:opus/max"),
        launch: LaunchPolicy::none(),
    };
    let policy = LaunchPolicy {
        network: Some(true),
        ..LaunchPolicy::none()
    };
    let saved = save_launch(&catalog(), Ok(kept), &policy);
    let loaded = load_or_default(&catalog(), "/d.json", Stored::Current(saved), Ok(())).unwrap();
    assert_eq!(loaded.selection, parse("assistant:opus/max"));
    assert_eq!(loaded.launch, policy);
    let saved = save_selection(&catalog(), Ok(loaded), &parse("codex"));
    let loaded = load_or_default(&catalog(), "/d.json", Stored::Current(saved), Ok(())).unwrap();
    assert_eq!(loaded.selection, parse("codex"));
    assert_eq!(loaded.launch, policy);
}

#[test]
fn a_file_is_read_in_its_current_shape_first() {
    let both = Defaults {
        selection: sonnet(),
        launch: LaunchPolicy::none(),
    };
    let again = Defaults {
        selection: sonnet(),
        launch: LaunchPolicy::none(),
    };
    assert_eq!(stored_from(Ok(both), Ok(parse("codex"))), Stored::Current(again));
    assert_eq!(
        stored_from(Err("unknown field".into()), Ok(sonnet())),
        Stored::SelectionAlone(sonnet())
    );
    assert_eq!(
        stored_from(Err("unknown field".into()), Err("missing field".into())),
        Stored::Malformed("unknown field".into())
    );
}
