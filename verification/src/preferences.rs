//! What a brand-new client starts from, as it was kept.

use vstd::prelude::*;

use crate::launcher::Catalog;
use crate::path::{holder, join, parent, under};
use crate::protocol::{no_policy, LaunchPolicy, Provider, Selection};
use crate::text::{decimal, number};

verus! {

/// The agent and the sandbox policy that a new client offers.
#[derive(Debug, PartialEq, Eq)]
pub struct Defaults {
    pub selection: Selection,
    pub launch: LaunchPolicy,
}

/// What the file of defaults holds.
#[derive(Debug, PartialEq, Eq)]
pub enum Stored {
    /// There is no file.
    Absent,
    /// It cannot be read, and why.
    Unreadable(String),
    /// It is not written as defaults are, and why.
    Malformed(String),
    /// Both halves.
    Current(Defaults),
    /// A selection alone, as files were once written.
    SelectionAlone(Selection),
}

/// What a file of defaults holds, from what reading it as both halves gave and
/// what reading it as a selection alone gave. The first counts where it was read,
/// and where neither was, its error is the one to report: the file is more likely
/// a damaged one of today than one as they were once written.
pub fn stored_from(
    current: Result<Defaults, String>,
    alone: Result<Selection, String>,
) -> (r: Stored)
    ensures
        r == match (current, alone) {
            (Ok(defaults), _) => Stored::Current(defaults),
            (Err(_), Ok(selection)) => Stored::SelectionAlone(selection),
            (Err(why), Err(_)) => Stored::Malformed(why),
        },
{
    match (current, alone) {
        (Ok(defaults), _) => Stored::Current(defaults),
        (Err(_), Ok(selection)) => Stored::SelectionAlone(selection),
        (Err(why), Err(_)) => Stored::Malformed(why),
    }
}

/// Whether these are the defaults of a client that has none: what the first
/// agent offers, and no policy.
pub open spec fn is_first(catalog: Catalog, defaults: Defaults) -> bool {
    let entry = catalog.providers@[catalog.row(Provider::Codex)];
    &&& defaults.selection == (Selection {
        provider: Provider::Codex,
        model: entry.default_model,
        effort: entry.default_effort,
    })
    &&& defaults.launch@ == no_policy()
}

impl Defaults {
    /// The defaults of a client that has none.
    pub fn first(catalog: &Catalog) -> (r: Defaults)
        requires
            catalog.wf(),
        ensures
            is_first(*catalog, r),
    {
        let row = catalog.row_of_provider(Provider::Codex);
        let entry = &catalog.providers[row];
        Defaults {
            selection: Selection {
                provider: Provider::Codex,
                model: entry.default_model.clone(),
                effort: entry.default_effort,
            },
            launch: LaunchPolicy::none(),
        }
    }
}

/// A problem with the file at `path`.
pub open spec fn problem(doing: Seq<char>, path: Seq<char>, why: Seq<char>) -> Seq<char> {
    doing + path + ": "@ + why
}

fn describe(doing: &str, path: &str, why: &str) -> (r: String)
    ensures
        r@ == problem(doing@, path@, why@),
{
    doing.to_owned().concat(path).concat(": ").concat(why)
}

/// Whether `r` are the defaults that a file stands for, or why it stands for
/// none.
pub open spec fn loads(
    catalog: Catalog,
    path: Seq<char>,
    stored: Stored,
    validity: Result<(), String>,
    r: Result<Defaults, String>,
) -> bool {
    match stored {
        Stored::Absent => r matches Ok(defaults) && is_first(catalog, defaults),
        Stored::Unreadable(why) => r matches Err(error) && error@ == problem(
            "reading Styra defaults from "@,
            path,
            why@,
        ),
        Stored::Malformed(why) => r matches Err(error) && error@ == problem(
            "parsing Styra defaults from "@,
            path,
            why@,
        ),
        Stored::Current(defaults) => match validity {
            Ok(()) => r == Ok::<Defaults, String>(defaults),
            Err(why) => r matches Err(error) && error@ == problem(
                "invalid Styra defaults in "@,
                path,
                why@,
            ),
        },
        Stored::SelectionAlone(selection) => match validity {
            Ok(()) => r matches Ok(defaults) && defaults.selection == selection
                && defaults.launch@ == no_policy(),
            Err(why) => r matches Err(error) && error@ == problem(
                "invalid Styra defaults in "@,
                path,
                why@,
            ),
        },
    }
}

/// The defaults that a file stands for. A missing file has the first ones; one
/// that cannot be read, or names what there is not, is an error rather than
/// something else to launch. `validity` is whether there is the agent, model
/// and effort that it names.
pub fn load_or_default(
    catalog: &Catalog,
    path: &str,
    stored: Stored,
    validity: Result<(), String>,
) -> (r: Result<Defaults, String>)
    requires
        catalog.wf(),
    ensures
        loads(*catalog, path@, stored, validity, r),
{
    let defaults = match stored {
        Stored::Absent => {
            return Ok(Defaults::first(catalog));
        },
        Stored::Unreadable(why) => {
            return Err(describe("reading Styra defaults from ", path, why.as_str()));
        },
        Stored::Malformed(why) => {
            return Err(describe("parsing Styra defaults from ", path, why.as_str()));
        },
        Stored::Current(defaults) => defaults,
        Stored::SelectionAlone(selection) => Defaults { selection, launch: LaunchPolicy::none() },
    };
    match validity {
        Ok(()) => Ok(defaults),
        Err(why) => Err(describe("invalid Styra defaults in ", path, why.as_str())),
    }
}

/// The defaults to start from where those that are kept may not be readable.
pub open spec fn readable(catalog: Catalog, kept: Result<Defaults, String>, base: Defaults) -> bool {
    match kept {
        Ok(defaults) => base == defaults,
        Err(_) => is_first(catalog, base),
    }
}

fn or_first(catalog: &Catalog, kept: Result<Defaults, String>) -> (r: Defaults)
    requires
        catalog.wf(),
    ensures
        readable(*catalog, kept, r),
{
    match kept {
        Ok(defaults) => defaults,
        Err(_) => Defaults::first(catalog),
    }
}

/// Whether `r` is what is kept with another selection.
pub open spec fn selection_saved(
    kept: Result<Defaults, String>,
    selection: Selection,
    r: Defaults,
) -> bool {
    &&& r.selection == selection
    &&& match kept {
        Ok(defaults) => r.launch == defaults.launch,
        Err(_) => r.launch@ == no_policy(),
    }
}

/// Whether `r` is what is kept with another policy.
pub open spec fn launch_saved(
    catalog: Catalog,
    kept: Result<Defaults, String>,
    launch: LaunchPolicy,
    r: Defaults,
) -> bool {
    &&& r.launch@ == launch@
    &&& match kept {
        Ok(defaults) => r.selection == defaults.selection,
        Err(_) => exists|first: Defaults| #[trigger]
            is_first(catalog, first) && r.selection == first.selection,
    }
}

/// A selection that was saved is what the next client starts from, with the
/// policy that was kept before, and none where none could be read.
pub proof fn law_a_saved_selection_is_loaded(
    catalog: Catalog,
    path: Seq<char>,
    kept: Result<Defaults, String>,
    selection: Selection,
    saved: Defaults,
    r: Result<Defaults, String>,
)
    requires
        selection_saved(kept, selection, saved),
        loads(catalog, path, Stored::Current(saved), Ok(()), r),
    ensures
        r == Ok::<Defaults, String>(saved),
        r->Ok_0.selection == selection,
        match kept {
            Ok(defaults) => r->Ok_0.launch == defaults.launch,
            Err(_) => r->Ok_0.launch@ == no_policy(),
        },
{
}

/// A policy that was saved is what the next client starts from, with the
/// selection that was kept before, and the first one where none could be read.
pub proof fn law_a_saved_policy_is_loaded(
    catalog: Catalog,
    path: Seq<char>,
    kept: Result<Defaults, String>,
    launch: LaunchPolicy,
    saved: Defaults,
    r: Result<Defaults, String>,
)
    requires
        launch_saved(catalog, kept, launch, saved),
        loads(catalog, path, Stored::Current(saved), Ok(()), r),
    ensures
        r == Ok::<Defaults, String>(saved),
        r->Ok_0.launch@ == launch@,
        match kept {
            Ok(defaults) => r->Ok_0.selection == defaults.selection,
            Err(_) => exists|first: Defaults| #[trigger]
                is_first(catalog, first) && r->Ok_0.selection == first.selection,
        },
{
}

/// What is kept with another selection: the policy stays.
pub fn save_selection(catalog: &Catalog, kept: Result<Defaults, String>, selection: &Selection) -> (r:
    Defaults)
    requires
        catalog.wf(),
    ensures
        selection_saved(kept, *selection, r),
{
    let mut defaults = or_first(catalog, kept);
    defaults.selection = selection.copied();
    defaults
}

/// What is kept with another policy: the selection stays.
pub fn save_launch(catalog: &Catalog, kept: Result<Defaults, String>, launch: &LaunchPolicy) -> (r:
    Defaults)
    requires
        catalog.wf(),
    ensures
        launch_saved(*catalog, kept, *launch, r),
{
    let mut defaults = or_first(catalog, kept);
    let ghost before = defaults;
    defaults.launch = launch.copied();
    assert(kept is Err ==> is_first(*catalog, before));
    defaults
}

/// Where defaults are written before they take the place of those at `path`: in
/// the same directory, under a name of this process's own.
pub fn temporary_path(path: &str, process: u64) -> (r: Result<String, String>)
    ensures
        match holder(path@) {
            Some(directory) => r matches Ok(temporary) && temporary@ == under(
                directory,
                ".defaults.json."@ + decimal(process as nat) + ".tmp"@,
            ),
            None => r matches Err(problem) && problem@
                == "Styra defaults path has no parent directory"@,
        },
{
    match parent(path) {
        Some(directory) => {
            let name = ".defaults.json.".to_owned().concat(number(process).as_str()).concat(".tmp");
            Ok(join(directory.as_str(), name.as_str()))
        },
        None => Err("Styra defaults path has no parent directory".to_owned()),
    }
}

/// Whether defaults may be kept. Those that name what there is not are not.
pub fn save(validity: Result<(), String>) -> (r: Result<(), String>)
    ensures
        match validity {
            Ok(()) => r is Ok,
            Err(why) => r matches Err(problem) && problem@
                == "refusing to save an invalid launch selection: "@ + why@,
        },
{
    match validity {
        Ok(()) => Ok(()),
        Err(why) => Err(
            "refusing to save an invalid launch selection: ".to_owned().concat(why.as_str()),
        ),
    }
}

} // verus!
