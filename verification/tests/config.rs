use styra::config::defaults::Defaults;
use styra::config::{Config, Configuration};

#[test]
fn default_editor_is_neovim() {
    let config = Config::default();
    assert_eq!(config.editor, "nvim");
    assert_eq!(config.terminal, "urxvt");
}

#[test]
fn files_open_in_neovim() {
    assert_eq!(Defaults.file_opener(), "nvim");
    assert_eq!(Defaults.terminal(), "urxvt");
}
