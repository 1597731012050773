//! What holds where nothing is configured.

use vstd::prelude::*;

use super::Configuration;

verus! {

/// The settings of a client that is not configured.
#[derive(Clone, Copy, Debug, PartialEq, Eq, Structural)]
pub struct Defaults;

impl Configuration for Defaults {
    fn file_opener(&self) -> (r: &str)
        ensures
            r@ == "nvim"@,
    {
        "nvim"
    }

    fn terminal(&self) -> (r: &str)
        ensures
            r@ == "urxvt"@,
    {
        "urxvt"
    }
}

} // verus!
