use styra::paths::{config_home, default_path, default_socket, default_store};

#[test]
fn xdg_config_home_takes_precedence() {
    assert_eq!(
        config_home(Some("/xdg".into()), Some("/home/user".into())),
        Some("/xdg".to_owned())
    );
}

#[test]
fn home_supplies_the_xdg_default_when_the_variable_is_unset_or_empty() {
    assert_eq!(
        config_home(None, Some("/home/user".into())),
        Some("/home/user/.config".to_owned())
    );
    assert_eq!(
        config_home(Some(String::new()), Some("/home/user".into())),
        Some("/home/user/.config".to_owned())
    );
}

#[test]
fn xdg_config_home_takes_precedence_with_a_home_fallback() {
    assert_eq!(
        config_home(Some("/config".into()), Some("/home/user".into())),
        Some("/config".to_owned())
    );
    assert_eq!(
        config_home(None, Some("/home/user".into())),
        Some("/home/user/.config".to_owned())
    );
    assert_eq!(
        config_home(Some(String::new()), Some("/home/user".into())),
        Some("/home/user/.config".to_owned())
    );
}

#[test]
fn without_either_variable_nothing_is_located() {
    assert_eq!(config_home(None, None), None);
    assert!(default_store(None, None).is_err());
    assert!(default_socket(None, None).is_err());
    assert!(default_path(None, None).is_err());
    assert_eq!(
        default_path(None, Some("/home/user".into())).unwrap(),
        "/home/user/.config/styra/defaults.json"
    );
}
