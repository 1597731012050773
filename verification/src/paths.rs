//! Where the client and the server keep their files.

use vstd::prelude::*;

use crate::path::{join, under};
use crate::text::view_of;

verus! {

/// The directory for configuration: the one that is set, where it is not
/// empty, and otherwise the usual one below the home directory.
pub open spec fn config_directory(
    xdg_config_home: Option<Seq<char>>,
    home: Option<Seq<char>>,
) -> Option<Seq<char>> {
    match xdg_config_home {
        Some(directory) if directory.len() > 0 => Some(directory),
        _ => match home {
            Some(home) => Some(under(home, ".config"@)),
            None => None,
        },
    }
}

/// The directory for configuration, from the two variables that name it.
pub fn config_home(xdg_config_home: Option<String>, home: Option<String>) -> (r: Option<String>)
    ensures
        view_of(r) == config_directory(view_of(xdg_config_home), view_of(home)),
{
    if let Some(directory) = xdg_config_home {
        if !directory.as_str().is_empty() {
            return Some(directory);
        }
    }
    match home {
        Some(home) => Some(join(home.as_str(), ".config")),
        None => None,
    }
}

/// The store, from the variables that name the configuration directory.
pub open spec fn store_directory(
    xdg_config_home: Option<Seq<char>>,
    home: Option<Seq<char>>,
) -> Option<Seq<char>> {
    match config_directory(xdg_config_home, home) {
        Some(directory) => Some(under(directory, "styra"@)),
        None => None,
    }
}

/// Where sessions are stored, or why that is not known.
pub fn default_store(xdg_config_home: Option<String>, home: Option<String>) -> (r: Result<
    String,
    String,
>)
    ensures
        match r {
            Ok(store) => store_directory(view_of(xdg_config_home), view_of(home)) == Some(store@),
            Err(error) => store_directory(view_of(xdg_config_home), view_of(home)) is None && error@
                == "neither XDG_CONFIG_HOME nor HOME is set; pass --store or --socket explicitly"@,
        },
{
    match config_home(xdg_config_home, home) {
        Some(directory) => Ok(join(directory.as_str(), "styra")),
        None => Err(
            "neither XDG_CONFIG_HOME nor HOME is set; pass --store or --socket explicitly".to_owned(),
        ),
    }
}

/// Where the server listens, or why that is not known.
pub fn default_socket(xdg_config_home: Option<String>, home: Option<String>) -> (r: Result<
    String,
    String,
>)
    ensures
        match r {
            Ok(socket) => match store_directory(view_of(xdg_config_home), view_of(home)) {
                Some(store) => socket@ == under(store, "styra.sock"@),
                None => false,
            },
            Err(error) => store_directory(view_of(xdg_config_home), view_of(home)) is None && error@
                == "neither XDG_CONFIG_HOME nor HOME is set; pass --store or --socket explicitly"@,
        },
{
    match default_store(xdg_config_home, home) {
        Ok(store) => Ok(join(store.as_str(), "styra.sock")),
        Err(error) => Err(error),
    }
}

/// Where the saved defaults are kept, or why that is not known.
pub fn default_path(xdg_config_home: Option<String>, home: Option<String>) -> (r: Result<
    String,
    String,
>)
    ensures
        match r {
            Ok(path) => match store_directory(view_of(xdg_config_home), view_of(home)) {
                Some(store) => path@ == under(store, "defaults.json"@),
                None => false,
            },
            Err(error) => store_directory(view_of(xdg_config_home), view_of(home)) is None && error@
                == "neither XDG_CONFIG_HOME nor HOME is set; cannot locate Styra preferences"@,
        },
{
    match config_home(xdg_config_home, home) {
        Some(directory) => Ok(join(join(directory.as_str(), "styra").as_str(), "defaults.json")),
        None => Err(
            "neither XDG_CONFIG_HOME nor HOME is set; cannot locate Styra preferences".to_owned(),
        ),
    }
}

} // verus!
