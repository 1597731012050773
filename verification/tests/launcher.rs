use styra::launcher::{Catalog, LaunchColumn, Launcher, ProviderEntry};
use styra::protocol::{Effort, Provider, Selection};

fn words(list: &[&str]) -> Vec<String> {
    list.iter().map(|word| (*word).to_owned()).collect()
}

fn catalog() -> Catalog {
    Catalog {
        providers: vec![
            ProviderEntry {
                provider: Provider::Codex,
                name: "codex".into(),
                models: words(&["gpt-5.6-sol", "gpt-5.6-luna", "gpt-5.6-mini"]),
                efforts: vec![Effort::Low, Effort::Medium, Effort::High, Effort::XHigh],
                default_model: "gpt-5.6-sol".into(),
                default_effort: Effort::Medium,
            },
            ProviderEntry {
                provider: Provider::Other(0),
                name: "pi".into(),
                models: words(&["pi-large", "pi-small"]),
                efforts: vec![Effort::Minimal, Effort::Low],
                default_model: "pi-small".into(),
                default_effort: Effort::Low,
            },
            ProviderEntry {
                provider: Provider::Claude,
                name: "assistant".into(),
                models: words(&["opus-5", "sonnet-5", "haiku-5", "opus"]),
                efforts: vec![
                    Effort::Low,
                    Effort::Medium,
                    Effort::High,
                    Effort::XHigh,
                    Effort::Max,
                ],
                default_model: "sonnet-5".into(),
                default_effort: Effort::High,
            },
        ],
    }
}

fn entry(provider: Provider) -> ProviderEntry {
    catalog()
        .providers
        .into_iter()
        .find(|entry| entry.provider == provider)
        .unwrap()
}

/// `provider`, `provider:model` or `provider:model/effort`.
fn parse(text: &str) -> Selection {
    let (provider, rest) = match text.split_once(':') {
        Some((provider, rest)) => (provider, Some(rest)),
        None => (text, None),
    };
    let entry = entry(match provider {
        "codex" => Provider::Codex,
        "assistant" => Provider::Claude,
        _ => Provider::Other(0),
    });
    let (model, effort) = match rest {
        Some(rest) => match rest.split_once('/') {
            Some((model, effort)) => (model.to_owned(), Some(effort)),
            None => (rest.to_owned(), None),
        },
        None => (entry.default_model, None),
    };
    let effort = match effort {
        Some("low") => Effort::Low,
        Some("medium") => Effort::Medium,
        Some("high") => Effort::High,
        Some("xhigh") => Effort::XHigh,
        Some("max") => Effort::Max,
        Some(_) => Effort::Minimal,
        None => entry.default_effort,
    };
    Selection {
        provider: entry.provider,
        model,
        effort,
    }
}

#[test]
fn the_picker_always_pins_a_model_and_an_effort() {
    let catalog = catalog();
    for offered in &catalog.providers {
        let selection = Selection {
            provider: offered.provider,
            model: offered.default_model.clone(),
            effort: offered.default_effort,
        };
        let mut launcher = Launcher::from_selection(&catalog, &selection, &Vec::new());
        let opened = launcher.selection(&catalog);
        assert_eq!(opened.model, offered.default_model);
        assert_eq!(opened.effort, offered.default_effort);

        for column in [LaunchColumn::Model, LaunchColumn::Effort] {
            launcher.column = column;
            for _ in 0..offered.models.len() + offered.efforts.len() {
                let selection = launcher.selection(&catalog);
                assert!(
                    offered.models.contains(&selection.model),
                    "{column:?} reached a model outside the catalog"
                );
                assert!(
                    offered.efforts.contains(&selection.effort),
                    "{column:?} reached an effort outside the ladder"
                );
                launcher.next(&catalog);
            }
        }
    }
}

#[test]
fn the_model_column_lists_recently_selected_models_first() {
    let catalog = catalog();
    let models = entry(Provider::Claude).models;
    let recent = vec![
        models[models.len() - 1].clone(),
        "gpt-5.6-sol".to_owned(),
        models[1].clone(),
    ];
    let launcher = Launcher::from_selection(&catalog, &parse("assistant"), &recent);

    let rows = launcher.models(&catalog);
    assert_eq!(rows[0], models[models.len() - 1]);
    assert_eq!(rows[1], models[1]);
    assert_eq!(
        rows[2..],
        models[..1]
            .iter()
            .chain(&models[2..models.len() - 1])
            .cloned()
            .collect::<Vec<_>>()[..],
        "the unused models keep the catalog's order"
    );
    assert_eq!(
        launcher.selection(&catalog).model,
        entry(Provider::Claude).default_model
    );
}

#[test]
fn changing_provider_drops_a_carried_model() {
    let catalog = catalog();
    let mut launcher = Launcher::from_selection(
        &catalog,
        &parse("assistant:opus-4-1-20250805"),
        &Vec::new(),
    );
    assert!(launcher.carried_model.is_some());

    launcher.prev(&catalog);
    assert_eq!(launcher.carried_model, None);
    let offered = entry(launcher.provider(&catalog));
    assert_eq!(launcher.selection(&catalog).model, offered.default_model);
    launcher.next_column();
    assert_eq!(launcher.model_rows(&catalog), offered.models.len());
}

#[test]
fn changing_provider_falls_back_to_the_new_agents_defaults() {
    let catalog = catalog();
    let mut launcher =
        Launcher::from_selection(&catalog, &parse("assistant:opus-5/max"), &Vec::new());
    assert_eq!(
        launcher.selection(&catalog),
        parse("assistant:opus-5/max")
    );

    launcher.prev(&catalog);
    let selection = launcher.selection(&catalog);
    assert_ne!(selection.provider, Provider::Claude);
    let offered = entry(selection.provider);
    assert_eq!(selection.model, offered.default_model);
    assert_eq!(selection.effort, offered.default_effort);
    assert!(!offered.efforts.contains(&Effort::Max));
}
