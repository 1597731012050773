//! Which Workspace a screen shows, and where it is.

use vstd::prelude::*;

use crate::protocol::WorkspaceSummary;

verus! {

/// The Workspace on screen.
#[derive(Debug, PartialEq, Eq)]
pub struct Location {
    pub id: Option<String>,
    pub name: Option<String>,
    /// The host directory the agent works on.
    pub root: Option<String>,
    /// Where inside it the agent was told to work.
    pub directory: Option<String>,
    pub worktrees_enabled: bool,
}

impl Default for Location {
    fn default() -> (r: Location)
        ensures
            r == Location::nowhere(),
    {
        Location { id: None, name: None, root: None, directory: None, worktrees_enabled: false }
    }
}

impl Location {
    /// No Workspace.
    pub open spec fn nowhere() -> Location {
        Location { id: None, name: None, root: None, directory: None, worktrees_enabled: false }
    }

    /// Point at another Workspace. Where the agent works is not part of that.
    pub open spec fn showing(self, workspace: WorkspaceSummary) -> Location {
        Location {
            id: Some(workspace.id),
            name: workspace.name,
            worktrees_enabled: workspace.worktrees_enabled,
            ..self
        }
    }

    pub fn show(&mut self, workspace: &WorkspaceSummary)
        ensures
            *final(self) == old(self).showing(*workspace),
    {
        self.id = Some(workspace.id.clone());
        self.name = workspace.name.clone();
        self.worktrees_enabled = workspace.worktrees_enabled;
    }

    /// Work on `root`.
    pub fn enter(&mut self, root: String)
        ensures
            *final(self) == (Location { root: Some(root), ..*old(self) }),
    {
        self.root = Some(root);
    }

    /// Work in `directory`.
    pub fn change_directory(&mut self, directory: String)
        ensures
            *final(self) == (Location { directory: Some(directory), ..*old(self) }),
    {
        self.directory = Some(directory);
    }

    /// The host directory the agent works on.
    pub fn root(&self) -> (r: Option<&String>)
        ensures
            match r {
                Some(root) => self.root == Some(*root),
                None => self.root is None,
            },
    {
        self.root.as_ref()
    }
}

} // verus!
