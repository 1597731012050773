//! What the client is configured with.

use vstd::prelude::*;

pub mod defaults;

pub use defaults::Defaults;

verus! {

/// The programs the client starts.
#[derive(Debug, PartialEq, Eq)]
pub struct Config {
    pub editor: String,
    pub terminal: String,
}

impl Default for Config {
    fn default() -> (r: Config)
        ensures
            r.editor@ == "nvim"@,
            r.terminal@ == "urxvt"@,
    {
        Config { editor: "nvim".to_owned(), terminal: "urxvt".to_owned() }
    }
}

/// The settings the client reads.
pub trait Configuration {
    /// The program a file is opened in.
    fn file_opener(&self) -> (r: &str);

    /// The terminal emulator that program is started in.
    fn terminal(&self) -> (r: &str);
}

} // verus!
