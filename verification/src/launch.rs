//! The sandbox policy a launch runs under: its two layers, and the keys that
//! edit them.

use vstd::prelude::*;

use crate::activity::Status;
use crate::app::{told, App, Request};
use crate::mount;
use crate::mount::{history_mounts, mount_asked, mount_label};
use crate::protocol::{
    copied_mounts, grants, holds_mount, mount_views, no_policy, DrivaOptions, LaunchMount,
    LaunchMountView, LaunchPolicy, PolicyView, Selection, SelectionView, WorkspaceLaunchChange,
};
use crate::text::{contains_text, holds, view_of, views};

verus! {

/// Which layer of the policy the keys edit.
#[derive(Clone, Copy, Debug, PartialEq, Eq, Structural)]
pub enum LaunchScope {
    /// The Workspace's standing policy, which every launch there starts from.
    Workspace,
    /// This interaction's own settings, over the Workspace's.
    Interaction,
}

impl Default for LaunchScope {
    fn default() -> (r: LaunchScope)
        ensures
            r == LaunchScope::Interaction,
    {
        LaunchScope::Interaction
    }
}

impl LaunchScope {
    pub open spec fn titled(self) -> Seq<char> {
        match self {
            LaunchScope::Workspace => "Workspace"@,
            LaunchScope::Interaction => "this interaction"@,
        }
    }

    pub open spec fn phrased(self) -> Seq<char> {
        match self {
            LaunchScope::Workspace => "the Workspace"@,
            LaunchScope::Interaction => "this interaction"@,
        }
    }

    pub open spec fn subjected(self) -> Seq<char> {
        match self {
            LaunchScope::Workspace => "every launch in this Workspace"@,
            LaunchScope::Interaction => "this interaction"@,
        }
    }

    pub open spec fn opposite(self) -> LaunchScope {
        match self {
            LaunchScope::Workspace => LaunchScope::Interaction,
            LaunchScope::Interaction => LaunchScope::Workspace,
        }
    }

    /// The layer's name, as a title.
    pub fn title(self) -> (r: &'static str)
        ensures
            r@ == self.titled(),
    {
        match self {
            LaunchScope::Workspace => "Workspace",
            LaunchScope::Interaction => "this interaction",
        }
    }

    /// The layer's name, inside a sentence.
    pub fn phrase(self) -> (r: &'static str)
        ensures
            r@ == self.phrased(),
    {
        match self {
            LaunchScope::Workspace => "the Workspace",
            LaunchScope::Interaction => "this interaction",
        }
    }

    /// What editing the layer changes.
    pub fn subject(self) -> (r: &'static str)
        ensures
            r@ == self.subjected(),
    {
        match self {
            LaunchScope::Workspace => "every launch in this Workspace",
            LaunchScope::Interaction => "this interaction",
        }
    }

    pub fn other(self) -> (r: LaunchScope)
        ensures
            r == self.opposite(),
    {
        match self {
            LaunchScope::Workspace => LaunchScope::Interaction,
            LaunchScope::Interaction => LaunchScope::Workspace,
        }
    }
}

// --- Policies ----------------------------------------------------------------

/// Whether a policy permits the network.
pub open spec fn permits_network(policy: PolicyView) -> bool {
    policy.network == Some(true)
}

/// The policy of two layers: a standalone upper layer alone, and otherwise the
/// lower layer with what the upper one adds, and with its word on the network
/// where it has one.
pub open spec fn merged(base: PolicyView, over: PolicyView) -> PolicyView {
    if over.standalone {
        PolicyView { standalone: false, ..over }
    } else {
        PolicyView {
            network: match over.network {
                Some(said) => Some(said),
                None => base.network,
            },
            templates: base.templates + over.templates,
            mounts: base.mounts + over.mounts,
            standalone: false,
        }
    }
}

impl LaunchPolicy {
    /// Whether this policy permits the network.
    pub fn grants_network(&self) -> (r: bool)
        ensures
            r == permits_network(self@),
    {
        match self.network {
            Some(on) => on,
            None => false,
        }
    }

    /// Whether this policy asks for nothing.
    pub fn is_empty(&self) -> (r: bool)
        ensures
            r == (self@ == no_policy()),
    {
        let r = self.network.is_none() && self.templates.len() == 0 && self.mounts.len() == 0
            && !self.standalone;
        proof {
            assert(views(self.templates@).len() == self.templates@.len());
            assert(mount_views(self.mounts@).len() == self.mounts@.len());
            if r {
                assert(self@ =~= no_policy());
            }
        }
        r
    }

    /// The policy of two layers.
    pub fn merge(base: &LaunchPolicy, over: &LaunchPolicy) -> (r: LaunchPolicy)
        ensures
            r@ == merged(base@, over@),
    {
        if over.standalone {
            let mut r = over.copied();
            r.standalone = false;
            return r;
        }
        let mut templates = base.templates.clone();
        let mut more = over.templates.clone();
        templates.append(&mut more);
        let mut mounts = copied_mounts(&base.mounts);
        let mut extra = copied_mounts(&over.mounts);
        mounts.append(&mut extra);
        let network = match over.network {
            Some(said) => Some(said),
            None => base.network,
        };
        let r = LaunchPolicy { network, templates, mounts, standalone: false };
        assert(views(r.templates@) =~= views(base.templates@) + views(over.templates@));
        assert(mount_views(r.mounts@) =~= mount_views(base.mounts@) + mount_views(over.mounts@));
        r
    }
}

/// Both layers of the policy, the keys' place in them, and the sandbox they
/// lead to.
#[derive(Debug, PartialEq, Eq)]
pub struct Launch {
    /// The Workspace's standing policy, as the server last told it.
    pub workspace: LaunchPolicy,
    /// What this interaction adds to it, or says instead.
    pub interaction: LaunchPolicy,
    pub scope: LaunchScope,
    /// The selected mount of each layer.
    pub selected: (usize, usize),
    /// The text of the open "add a mount" prompt.
    pub prompt: Option<String>,
    /// The sandbox of the live session, or the one the next would get.
    pub driva: Option<DrivaOptions>,
    /// Whether `driva` is about a launch that has not happened.
    pub planned: bool,
    /// What `driva` was last asked for.
    pub plan_key: Option<(Selection, LaunchPolicy)>,
}

impl Default for Launch {
    fn default() -> (r: Launch)
        ensures
            r.workspace@ == no_policy(),
            r.interaction@ == no_policy(),
            r == (Launch {
                workspace: r.workspace,
                interaction: r.interaction,
                scope: LaunchScope::Interaction,
                selected: (0, 0),
                prompt: None,
                driva: None,
                planned: false,
                plan_key: None,
            }),
    {
        Launch {
            workspace: LaunchPolicy::none(),
            interaction: LaunchPolicy::none(),
            scope: LaunchScope::Interaction,
            selected: (0, 0),
            prompt: None,
            driva: None,
            planned: false,
            plan_key: None,
        }
    }
}

/// `index`, or the last place of a list of `count`.
pub open spec fn within(index: usize, count: nat) -> usize {
    if count == 0 {
        0
    } else if index < count {
        index
    } else {
        (count - 1) as usize
    }
}

fn clamp(index: usize, count: usize) -> (r: usize)
    ensures
        r == within(index, count as nat),
{
    if count == 0 {
        0
    } else if index < count {
        index
    } else {
        count - 1
    }
}

impl Launch {
    /// The layer that a scope names.
    pub open spec fn layer(self, scope: LaunchScope) -> LaunchPolicy {
        match scope {
            LaunchScope::Workspace => self.workspace,
            LaunchScope::Interaction => self.interaction,
        }
    }

    /// The policy that a launch would run under.
    pub open spec fn in_effect(self) -> PolicyView {
        merged(self.workspace@, self.interaction@)
    }

    /// Where a layer's cursor was left.
    pub open spec fn place(self, scope: LaunchScope) -> usize {
        match scope {
            LaunchScope::Workspace => self.selected.0,
            LaunchScope::Interaction => self.selected.1,
        }
    }

    /// The mount that a layer's cursor is on.
    pub open spec fn at(self, scope: LaunchScope) -> usize {
        within(self.place(scope), self.layer(scope).mounts@.len())
    }

    /// With a layer's cursor at `place`.
    pub open spec fn placed(self, scope: LaunchScope, place: usize) -> Launch {
        match scope {
            LaunchScope::Workspace => Launch { selected: (place, self.selected.1), ..self },
            LaunchScope::Interaction => Launch { selected: (self.selected.0, place), ..self },
        }
    }

    /// With other mounts in a layer.
    pub open spec fn with_mounts(self, scope: LaunchScope, mounts: Vec<LaunchMount>) -> Launch {
        match scope {
            LaunchScope::Workspace => Launch {
                workspace: LaunchPolicy { mounts, ..self.workspace },
                ..self
            },
            LaunchScope::Interaction => Launch {
                interaction: LaunchPolicy { mounts, ..self.interaction },
                ..self
            },
        }
    }

    /// With the cursor of the edited layer one further.
    pub open spec fn mount_after(self) -> Launch {
        let count = self.layer(self.scope).mounts@.len();
        let place = self.place(self.scope);
        self.placed(
            self.scope,
            if count == 0 {
                0
            } else if place < count - 1 {
                (place + 1) as usize
            } else {
                (count - 1) as usize
            },
        )
    }

    /// With the cursor of the edited layer one back.
    pub open spec fn mount_before(self) -> Launch {
        let place = self.place(self.scope);
        self.placed(
            self.scope,
            if place > 0 {
                (place - 1) as usize
            } else {
                0
            },
        )
    }

    /// Whether the sandbox of the next launch has to be asked for again.
    pub open spec fn stale(self, selection: SelectionView) -> bool {
        match self.plan_key {
            Some(key) => key.0@ != selection || !key.1@.same_as(self.in_effect()),
            None => true,
        }
    }

    /// The layer that a scope names.
    pub fn policy(&self, scope: LaunchScope) -> (r: &LaunchPolicy)
        ensures
            *r == self.layer(scope),
    {
        match scope {
            LaunchScope::Workspace => &self.workspace,
            LaunchScope::Interaction => &self.interaction,
        }
    }

    /// The policy that a launch would run under.
    pub fn effective(&self) -> (r: LaunchPolicy)
        ensures
            r@ == self.in_effect(),
    {
        LaunchPolicy::merge(&self.workspace, &self.interaction)
    }

    /// The mount that a layer's cursor is on.
    pub fn cursor(&self, scope: LaunchScope) -> (r: usize)
        ensures
            r == self.at(scope),
    {
        match scope {
            LaunchScope::Workspace => clamp(self.selected.0, self.workspace.mounts.len()),
            LaunchScope::Interaction => clamp(self.selected.1, self.interaction.mounts.len()),
        }
    }

    fn set_cursor(&mut self, scope: LaunchScope, place: usize)
        ensures
            *final(self) == old(self).placed(scope, place),
    {
        self.selected = match scope {
            LaunchScope::Workspace => (place, self.selected.1),
            LaunchScope::Interaction => (self.selected.0, place),
        };
    }

    fn left_at(&self, scope: LaunchScope) -> (r: usize)
        ensures
            r == self.place(scope),
    {
        match scope {
            LaunchScope::Workspace => self.selected.0,
            LaunchScope::Interaction => self.selected.1,
        }
    }

    /// Move the cursor of the edited layer to the next mount.
    pub fn select_next_mount(&mut self)
        ensures
            *final(self) == old(self).mount_after(),
    {
        let last: usize = self.policy(self.scope).mounts.len().saturating_sub(1);
        let place = self.left_at(self.scope);
        let to: usize = if place < last {
            place + 1
        } else {
            last
        };
        self.set_cursor(self.scope, to);
    }

    /// Move the cursor of the edited layer to the mount before.
    pub fn select_prev_mount(&mut self)
        ensures
            *final(self) == old(self).mount_before(),
    {
        let place = self.left_at(self.scope);
        self.set_cursor(self.scope, place.saturating_sub(1));
    }

    /// Record the sandbox that a live session runs in, in place of any plan.
    pub fn record(&mut self, options: DrivaOptions)
        ensures
            *final(self) == (Launch {
                driva: Some(options),
                planned: false,
                plan_key: None,
                ..*old(self)
            }),
    {
        self.driva = Some(options);
        self.planned = false;
        self.plan_key = None;
    }

    /// Record the sandbox that a launch of this selection and policy would get,
    /// or that it is not known. Either way it has been asked for.
    pub fn plan(
        &mut self,
        selection: Selection,
        effective: LaunchPolicy,
        options: Option<DrivaOptions>,
    )
        ensures
            *final(self) == (Launch {
                plan_key: Some((selection, effective)),
                driva: if options is Some {
                    options
                } else {
                    old(self).driva
                },
                planned: options is Some || old(self).planned,
                ..*old(self)
            }),
    {
        self.plan_key = Some((selection, effective));
        if let Some(options) = options {
            self.driva = Some(options);
            self.planned = true;
        }
    }

    /// Whether the sandbox of the next launch has to be asked for: it was not,
    /// or what it was asked for has changed.
    pub fn needs_plan(&self, selection: &Selection) -> (r: bool)
        ensures
            r == self.stale(selection@),
    {
        match &self.plan_key {
            Some((planned, effective)) => !planned.is(selection) || !effective.is(
                &self.effective(),
            ),
            None => true,
        }
    }

    /// Take over the standing policy of another Workspace. This interaction's
    /// own settings are kept.
    pub fn set_workspace(&mut self, workspace: LaunchPolicy)
        ensures
            *final(self) == (Launch { workspace, selected: (0, 0), ..*old(self) }),
    {
        self.workspace = workspace;
        self.selected = (0, 0);
    }

    /// Take over the standing policy as the server holds it now. The cursors
    /// stay, as far as there are mounts for them.
    pub fn sync_workspace(&mut self, workspace: LaunchPolicy)
        ensures
            *final(self) == (Launch {
                workspace,
                selected: (
                    within(old(self).selected.0, workspace.mounts@.len()),
                    old(self).selected.1,
                ),
                ..*old(self)
            }),
    {
        self.workspace = workspace;
        let at = self.cursor(LaunchScope::Workspace);
        self.selected = (at, self.selected.1);
    }

    /// Take over a standing policy that now holds this interaction's settings,
    /// which are dropped.
    pub fn adopt_workspace(&mut self, workspace: LaunchPolicy)
        ensures
            final(self).interaction@ == no_policy(),
            *final(self) == (Launch {
                workspace,
                interaction: final(self).interaction,
                selected: (0, 0),
                ..*old(self)
            }),
    {
        self.workspace = workspace;
        self.interaction = LaunchPolicy::none();
        self.selected = (0, 0);
    }

    /// The word on the network after it was asked to change: the plain opposite
    /// in the Workspace's layer; in this interaction's, the opposite of what is
    /// inherited, and then no word again.
    pub open spec fn network_after(self) -> Launch {
        match self.scope {
            LaunchScope::Workspace => Launch {
                workspace: LaunchPolicy {
                    network: Some(!permits_network(self.workspace@)),
                    ..self.workspace
                },
                ..self
            },
            LaunchScope::Interaction => Launch {
                interaction: LaunchPolicy {
                    network: match self.interaction.network {
                        None => Some(!permits_network(self.workspace@)),
                        Some(_) => None,
                    },
                    ..self.interaction
                },
                ..self
            },
        }
    }

    /// What is said of the network as it is in the edited layer.
    pub open spec fn network_words(self) -> Seq<char> {
        match self.scope {
            LaunchScope::Workspace => if permits_network(self.workspace@) {
                "network on for every launch in this Workspace"@
            } else {
                "network off for every launch here — a profile or template may still permit it"@
            },
            LaunchScope::Interaction => match self.interaction.network {
                Some(on) => if on {
                    "network on for this interaction"@
                } else {
                    "network permission withdrawn — a profile or template may still permit it"@
                },
                None => "network follows the Workspace policy again ("@ + (if permits_network(
                    self.workspace@,
                ) {
                    "on"@
                } else {
                    "off"@
                }) + ")"@,
            },
        }
    }

    /// Change the word on the network in the edited layer, and say what it is.
    pub fn cycle_network(&mut self) -> (r: String)
        ensures
            *final(self) == old(self).network_after(),
            r@ == final(self).network_words(),
    {
        let inherited = self.workspace.grants_network();
        match self.scope {
            LaunchScope::Workspace => {
                self.workspace.network = Some(!inherited);
                if !inherited {
                    "network on for every launch in this Workspace".to_owned()
                } else {
                    "network off for every launch here — a profile or template may still permit it".to_owned()
                }
            },
            LaunchScope::Interaction => {
                self.interaction.network = match self.interaction.network {
                    None => Some(!inherited),
                    Some(_) => None,
                };
                match self.interaction.network {
                    Some(on) => if on {
                        "network on for this interaction".to_owned()
                    } else {
                        "network permission withdrawn — a profile or template may still permit it".to_owned()
                    },
                    None => {
                        let word = if inherited {
                            "on"
                        } else {
                            "off"
                        };
                        "network follows the Workspace policy again (".to_owned().concat(
                            word,
                        ).concat(")")
                    },
                }
            },
        }
    }

    /// Whether a choice of templates keeps everything the Workspace grants, so
    /// that it can be said by adding.
    pub open spec fn can_add(self, chosen: Seq<String>) -> bool {
        !self.interaction.standalone && forall|i: int|
            0 <= i < self.workspace.templates@.len() ==> holds(
                chosen,
                (#[trigger] self.workspace.templates@[i])@,
            )
    }

    /// Take over the chosen templates in the edited layer. In this interaction's
    /// layer the choice is of the whole list: what the Workspace grants is left
    /// out of it, and where something the Workspace grants was dropped, this
    /// interaction stands alone with the list. Whether it began to is said.
    pub fn set_templates(&mut self, chosen: Vec<String>) -> (r: Option<&'static str>)
        ensures
            match old(self).scope {
                LaunchScope::Workspace => r is None && *final(self) == (Launch {
                    workspace: LaunchPolicy { templates: chosen, ..old(self).workspace },
                    ..*old(self)
                }),
                LaunchScope::Interaction => if old(self).can_add(chosen@) {
                    &&& r is None
                    &&& *final(self) == (Launch {
                        interaction: LaunchPolicy {
                            templates: final(self).interaction.templates,
                            ..old(self).interaction
                        },
                        ..*old(self)
                    })
                    &&& final(self).interaction.templates@ == chosen@.filter(
                        |t: String| !holds(old(self).workspace.templates@, t@),
                    )
                } else {
                    &&& *final(self) == (Launch {
                        interaction: LaunchPolicy {
                            templates: chosen,
                            standalone: true,
                            ..old(self).interaction
                        },
                        ..*old(self)
                    })
                    &&& match r {
                        Some(note) => !old(self).interaction.standalone && note@
                            == "standalone — dropping a Workspace template means this interaction carries its own list"@,
                        None => old(self).interaction.standalone,
                    }
                },
            },
    {
        if self.scope == LaunchScope::Workspace {
            self.workspace.templates = chosen;
            return None;
        }
        if !self.interaction.standalone && holds_all(&chosen, &self.workspace.templates) {
            self.interaction.templates = without(&chosen, &self.workspace.templates);
            return None;
        }
        let begins = !self.interaction.standalone;
        self.interaction.standalone = true;
        self.interaction.templates = chosen;
        if begins {
            Some(
                "standalone — dropping a Workspace template means this interaction carries its own list",
            )
        } else {
            None
        }
    }

    /// Why a mount would change nothing in a layer, where it would not.
    pub open spec fn refusal(self, scope: LaunchScope, mount: LaunchMountView) -> Option<Seq<char>> {
        match scope {
            LaunchScope::Workspace => if grants(mount_views(self.workspace.mounts@), mount) {
                Some("the Workspace policy already grants that mount"@)
            } else {
                None
            },
            LaunchScope::Interaction => if grants(mount_views(self.interaction.mounts@), mount) {
                Some("this interaction already asks for that mount"@)
            } else if !self.interaction.standalone && grants(
                mount_views(self.workspace.mounts@),
                mount,
            ) {
                Some("the Workspace policy already grants that mount"@)
            } else {
                None
            },
        }
    }

    /// Whether adding `mount` to a layer leads from one state to another, or is
    /// refused with these words.
    pub open spec fn adds(
        self,
        scope: LaunchScope,
        mount: LaunchMount,
        after: Launch,
        refused: Option<Seq<char>>,
    ) -> bool {
        &&& refused == self.refusal(scope, mount@)
        &&& match refused {
            Some(_) => after == self,
            None => {
                &&& after.layer(scope).mounts@ == self.layer(scope).mounts@.push(mount)
                &&& after == self.with_mounts(scope, after.layer(scope).mounts).placed(
                    scope,
                    self.layer(scope).mounts@.len() as usize,
                )
            },
        }
    }

    /// Add a mount to the edited layer, or say why it would change nothing.
    pub fn add_mount(&mut self, mount: LaunchMount) -> (r: Result<(), &'static str>)
        ensures
            old(self).adds(old(self).scope, mount, *final(self), refused(r)),
    {
        self.add_mount_to(self.scope, mount)
    }

    /// Add a mount to this interaction's layer, whichever is edited.
    pub fn add_interaction_mount(&mut self, mount: LaunchMount) -> (r: Result<(), &'static str>)
        ensures
            old(self).adds(LaunchScope::Interaction, mount, *final(self), refused(r)),
    {
        self.add_mount_to(LaunchScope::Interaction, mount)
    }

    fn add_mount_to(&mut self, scope: LaunchScope, mount: LaunchMount) -> (r: Result<
        (),
        &'static str,
    >)
        ensures
            old(self).adds(scope, mount, *final(self), refused(r)),
    {
        match scope {
            LaunchScope::Workspace => {
                if holds_mount(&self.workspace.mounts, &mount) {
                    return Err("the Workspace policy already grants that mount");
                }
                self.workspace.mounts.push(mount);
                let last: usize = self.workspace.mounts.len() - 1;
                self.selected = (last, self.selected.1);
            },
            LaunchScope::Interaction => {
                if holds_mount(&self.interaction.mounts, &mount) {
                    return Err("this interaction already asks for that mount");
                }
                if !self.interaction.standalone && holds_mount(&self.workspace.mounts, &mount) {
                    return Err("the Workspace policy already grants that mount");
                }
                self.interaction.mounts.push(mount);
                let last: usize = self.interaction.mounts.len() - 1;
                self.selected = (self.selected.0, last);
            },
        }
        Ok(())
    }

    /// Why there is no mount to remove, where there is none.
    pub open spec fn nothing_to_remove(self) -> Option<Seq<char>> {
        if self.layer(self.scope).mounts@.len() > 0 {
            None
        } else {
            Some(
                match self.scope {
                    LaunchScope::Workspace => "the Workspace policy has no mounts to remove"@,
                    LaunchScope::Interaction => if self.workspace.mounts@.len() > 0 {
                        "this interaction adds no mount — the Workspace's own are edited with Tab"@
                    } else {
                        "no added mount to remove"@
                    },
                },
            )
        }
    }

    /// Whether removing the selected mount of the edited layer leads from one
    /// state to another.
    pub open spec fn removes(self, after: Launch) -> bool {
        let at = self.at(self.scope);
        let left = self.layer(self.scope).mounts@.remove(at as int);
        &&& after.layer(self.scope).mounts@ == left
        &&& after == self.with_mounts(self.scope, after.layer(self.scope).mounts).placed(
            self.scope,
            within(at, left.len()),
        )
    }

    /// Remove the selected mount of the edited layer, or say why there is none.
    pub fn remove_mount(&mut self) -> (r: Result<LaunchMount, &'static str>)
        ensures
            match r {
                Ok(removed) => old(self).nothing_to_remove() is None && removed == old(self).layer(
                    old(self).scope,
                ).mounts@[old(self).at(old(self).scope) as int] && old(self).removes(*final(self)),
                Err(reason) => old(self).nothing_to_remove() == Some(reason@) && *final(self)
                    == *old(self),
            },
    {
        let scope = self.scope;
        if self.policy(scope).mounts.len() == 0 {
            return Err(
                match scope {
                    LaunchScope::Workspace => "the Workspace policy has no mounts to remove",
                    LaunchScope::Interaction => if self.workspace.mounts.len() > 0 {
                        "this interaction adds no mount — the Workspace's own are edited with Tab"
                    } else {
                        "no added mount to remove"
                    },
                },
            );
        }
        let index = self.cursor(scope);
        let removed = match scope {
            LaunchScope::Workspace => self.workspace.mounts.remove(index),
            LaunchScope::Interaction => self.interaction.mounts.remove(index),
        };
        let remaining: usize = self.policy(scope).mounts.len();
        self.set_cursor(scope, clamp(index, remaining));
        Ok(removed)
    }
}

/// The words of a refusal.
pub open spec fn refused(r: Result<(), &'static str>) -> Option<Seq<char>> {
    match r {
        Ok(_) => None,
        Err(reason) => Some(reason@),
    }
}

fn holds_all(list: &Vec<String>, wanted: &Vec<String>) -> (r: bool)
    ensures
        r == forall|i: int| 0 <= i < wanted@.len() ==> holds(list@, (#[trigger] wanted@[i])@),
{
    let mut i: usize = 0;
    while i < wanted.len()
        invariant
            i <= wanted@.len(),
            forall|j: int| 0 <= j < i ==> holds(list@, (#[trigger] wanted@[j])@),
        decreases wanted.len() - i,
    {
        if !contains_text(list, wanted[i].as_str()) {
            return false;
        }
        i = i + 1;
    }
    true
}

fn without(list: &Vec<String>, dropped: &Vec<String>) -> (r: Vec<String>)
    ensures
        r@ == list@.filter(|t: String| !holds(dropped@, t@)),
{
    let ghost keeps = |t: String| !holds(dropped@, t@);
    let mut r: Vec<String> = Vec::new();
    let mut i: usize = 0;
    proof {
        reveal_with_fuel(Seq::filter, 1);
        assert(list@.take(0) =~= Seq::<String>::empty());
    }
    while i < list.len()
        invariant
            i <= list@.len(),
            keeps == (|t: String| !holds(dropped@, t@)),
            r@ == list@.take(i as int).filter(keeps),
        decreases list.len() - i,
    {
        proof {
            assert(list@.take(i + 1).drop_last() =~= list@.take(i as int));
            assert(list@.take(i + 1).last() == list@[i as int]);
            reveal_with_fuel(Seq::filter, 1);
        }
        if !contains_text(dropped, list[i].as_str()) {
            r.push(list[i].clone());
        }
        i = i + 1;
    }
    assert(list@.take(list@.len() as int) =~= list@);
    r
}

// --- Keys --------------------------------------------------------------------

/// Whether the launch policy can still be edited: before an interaction, and
/// once it has stopped or ended.
pub open spec fn can_edit(status: Status) -> bool {
    status is Pending || status is Stopped || status is Ended
}

/// Whether the launch policy can still be edited.
pub fn editable(status: &Status) -> (r: bool)
    ensures
        r == can_edit(*status),
{
    match status {
        Status::Pending => true,
        Status::Stopped => true,
        Status::Ended { .. } => true,
        _ => false,
    }
}

/// Whether an edit is refused with the reason that an interaction is running.
pub open spec fn edit_refused(before: App, after: App) -> bool {
    told(before, after, "the launch policy is fixed while an interaction is running"@)
}

/// This screen with a change to the Workspace's policy asked of the server.
pub open spec fn asking(app: App, change: WorkspaceLaunchChange, clear_interaction: bool) -> App {
    App {
        request: Some(Request::ChangeWorkspaceLaunch { change, clear_interaction }),
        ..app
    }
}

/// Edit the other layer.
pub fn toggle_scope(app: &mut App)
    ensures
        told(
            App {
                launch: Launch { scope: old(app).launch.scope.opposite(), ..old(app).launch },
                ..*old(app)
            },
            *final(app),
            match old(app).launch.scope.opposite() {
                LaunchScope::Workspace => "editing the Workspace policy — every launch here starts from it"@,
                LaunchScope::Interaction => "editing this interaction's own settings"@,
            },
        ),
        old(app).wf() ==> final(app).wf(),
{
    app.launch.scope = app.launch.scope.other();
    let message = match app.launch.scope {
        LaunchScope::Workspace => "editing the Workspace policy — every launch here starts from it",
        LaunchScope::Interaction => "editing this interaction's own settings",
    };
    app.show_action_message(message.to_owned());
}

/// Whether changing the word on the network leads from one screen to another.
/// The Workspace's is changed by the server.
pub open spec fn network_cycled(before: App, after: App) -> bool {
    if !can_edit(before.activity.status) {
        edit_refused(before, after)
    } else if before.launch.scope == LaunchScope::Workspace {
        told(
            asking(
                before,
                WorkspaceLaunchChange::SetNetwork(
                    Some(!permits_network(before.launch.workspace@)),
                ),
                false,
            ),
            after,
            before.launch.network_after().network_words(),
        )
    } else {
        told(
            App { launch: before.launch.network_after(), ..before },
            after,
            before.launch.network_after().network_words(),
        )
    }
}

/// Change the word on the network in the edited layer.
pub fn cycle_network(app: &mut App)
    ensures
        network_cycled(*old(app), *final(app)),
        old(app).wf() ==> final(app).wf(),
{
    if !app.allow_launch_edit() {
        return ;
    }
    if app.launch.scope == LaunchScope::Workspace {
        let on = !app.launch.workspace.grants_network();
        workspace_change(app, WorkspaceLaunchChange::SetNetwork(Some(on)));
        let message = if on {
            "network on for every launch in this Workspace"
        } else {
            "network off for every launch here — a profile or template may still permit it"
        };
        app.show_action_message(message.to_owned());
        return ;
    }
    let message = app.launch.cycle_network();
    app.show_action_message(message);
}

/// Whether changing what this interaction inherits leads from one screen to
/// another.
pub open spec fn standalone_toggled(before: App, after: App) -> bool {
    let standalone = !before.launch.interaction.standalone;
    if !can_edit(before.activity.status) {
        edit_refused(before, after)
    } else if before.launch.scope == LaunchScope::Workspace {
        told(
            before,
            after,
            "inheriting is this interaction's answer — press Tab to edit it"@,
        )
    } else {
        told(
            App {
                launch: Launch {
                    interaction: LaunchPolicy { standalone, ..before.launch.interaction },
                    ..before.launch
                },
                ..before
            },
            after,
            if standalone {
                "standalone — the Workspace policy does not apply to this interaction"@
            } else {
                "this interaction adds to the Workspace policy again"@
            },
        )
    }
}

/// Let this interaction stand alone, or add to the Workspace's policy again.
pub fn toggle_standalone(app: &mut App)
    ensures
        standalone_toggled(*old(app), *final(app)),
        old(app).wf() ==> final(app).wf(),
{
    if !app.allow_launch_edit() {
        return ;
    }
    if app.launch.scope == LaunchScope::Workspace {
        app.show_action_message(
            "inheriting is this interaction's answer — press Tab to edit it".to_owned(),
        );
        return ;
    }
    app.launch.interaction.standalone = !app.launch.interaction.standalone;
    let message = if app.launch.interaction.standalone {
        "standalone — the Workspace policy does not apply to this interaction"
    } else {
        "this interaction adds to the Workspace policy again"
    };
    app.show_action_message(message.to_owned());
}

/// Whether the choice of templates leads from one screen to another.
pub open spec fn templates_set(before: App, chosen: Vec<String>, after: App) -> bool {
    if !can_edit(before.activity.status) {
        edit_refused(before, after)
    } else if before.launch.scope == LaunchScope::Workspace {
        after == asking(before, WorkspaceLaunchChange::SetTemplates(chosen), false)
    } else if before.launch.can_add(chosen@) {
        &&& after.launch.interaction.templates@ == chosen@.filter(
            |t: String| !holds(before.launch.workspace.templates@, t@),
        )
        &&& after == (App {
            launch: Launch {
                interaction: LaunchPolicy {
                    templates: after.launch.interaction.templates,
                    ..before.launch.interaction
                },
                ..before.launch
            },
            ..before
        })
    } else {
        let alone = App {
            launch: Launch {
                interaction: LaunchPolicy {
                    templates: chosen,
                    standalone: true,
                    ..before.launch.interaction
                },
                ..before.launch
            },
            ..before
        };
        if before.launch.interaction.standalone {
            after == alone
        } else {
            told(
                alone,
                after,
                "standalone — dropping a Workspace template means this interaction carries its own list"@,
            )
        }
    }
}

/// Take over the templates that were chosen.
pub fn set_templates(app: &mut App, chosen: Vec<String>)
    ensures
        templates_set(*old(app), chosen, *final(app)),
        old(app).wf() ==> final(app).wf(),
{
    if !app.allow_launch_edit() {
        return ;
    }
    if app.launch.scope == LaunchScope::Workspace {
        workspace_change(app, WorkspaceLaunchChange::SetTemplates(chosen));
        return ;
    }
    let note = app.launch.set_templates(chosen);
    if let Some(note) = note {
        app.show_action_message(note.to_owned());
    }
}

/// Whether the choice of templates for a layer leads from one screen to
/// another. The edited layer stays the edited one.
pub open spec fn templates_set_for(
    before: App,
    scope: LaunchScope,
    chosen: Vec<String>,
    after: App,
) -> bool {
    templates_set(
        App { launch: Launch { scope, ..before.launch }, ..before },
        chosen,
        App { launch: Launch { scope, ..after.launch }, ..after },
    ) && after.launch.scope == before.launch.scope
}

/// Take over the templates that were chosen for a layer.
pub fn set_templates_for(app: &mut App, scope: LaunchScope, chosen: Vec<String>)
    ensures
        templates_set_for(*old(app), scope, chosen, *final(app)),
        old(app).wf() ==> final(app).wf(),
{
    let edited = app.launch.scope;
    app.launch.scope = scope;
    set_templates(app, chosen);
    let ghost middle = *app;
    app.launch.scope = edited;
    assert((App { launch: Launch { scope, ..app.launch }, ..*app }) == middle);
}

/// Open the prompt that adds a mount.
pub fn open_prompt(app: &mut App)
    ensures
        if can_edit(old(app).activity.status) {
            &&& final(app).launch.prompt matches Some(text) && text@ == Seq::<char>::empty()
            &&& *final(app) == (App {
                launch: Launch { prompt: final(app).launch.prompt, ..old(app).launch },
                ..*old(app)
            })
        } else {
            edit_refused(*old(app), *final(app))
        },
        old(app).wf() ==> final(app).wf(),
{
    if !app.allow_launch_edit() {
        return ;
    }
    app.launch.prompt = Some(String::new());
}

/// Close the prompt that adds a mount.
pub fn cancel_prompt(app: &mut App)
    ensures
        *final(app) == (App {
            launch: Launch { prompt: None, ..old(app).launch },
            ..*old(app)
        }),
        old(app).wf() ==> final(app).wf(),
{
    app.launch.prompt = None;
}

/// Whether a change asks for exactly these mounts to be added.
pub open spec fn adds_mount(request: Option<Request>, mount: LaunchMountView) -> bool {
    &&& request matches Some(
        Request::ChangeWorkspaceLaunch {
            change: WorkspaceLaunchChange::AddMounts(mounts),
            clear_interaction,
        },
    )
    &&& !clear_interaction
    &&& mount_views(mounts@) == seq![mount]
}

/// Whether accepting the text of the prompt leads from one screen to another.
/// Text that is no mount is refused with the prompt left open.
pub open spec fn prompt_confirmed(
    before: App,
    text: Seq<char>,
    home: Option<Seq<char>>,
    after: App,
) -> bool {
    let closed = App { launch: Launch { prompt: None, ..before.launch }, ..before };
    if !can_edit(before.activity.status) {
        edit_refused(closed, after)
    } else {
        match mount_asked(text, home) {
            Err(problem) => told(before, after, problem),
            Ok(mount) => if before.launch.scope == LaunchScope::Workspace {
                if grants(mount_views(before.launch.workspace.mounts@), mount) {
                    told(closed, after, "the Workspace policy already grants that mount"@)
                } else {
                    &&& adds_mount(after.request, mount)
                    &&& told(
                        App { request: after.request, ..closed },
                        after,
                        "added "@ + mount_label(mount) + " to every launch in this Workspace"@,
                    )
                }
            } else {
                match closed.launch.refusal(LaunchScope::Interaction, mount) {
                    Some(reason) => told(closed, after, reason),
                    None => exists|added: LaunchMount|
                        added@ == mount && #[trigger] closed.launch.adds(
                            LaunchScope::Interaction,
                            added,
                            after.launch,
                            None,
                        ) && told(
                            App { launch: after.launch, ..closed },
                            after,
                            "added "@ + mount_label(mount) + " to this interaction"@,
                        ),
                }
            },
        }
    }
}

/// Add the mount that the prompt asks for, or say why there is none to add.
pub fn confirm_prompt(app: &mut App, home: &Option<String>)
    ensures
        match old(app).launch.prompt {
            None => *final(app) == *old(app),
            Some(text) => prompt_confirmed(*old(app), text@, view_of(*home), *final(app)),
        },
        old(app).wf() ==> final(app).wf(),
{
    let text = match &app.launch.prompt {
        Some(text) => text.clone(),
        None => {
            return ;
        },
    };
    if !app.can_edit_launch() {
        app.launch.prompt = None;
        app.allow_launch_edit();
        return ;
    }
    let parsed = match mount::parse(text.as_str(), home) {
        Ok(mount) => mount,
        Err(problem) => {
            app.show_action_message(problem);
            return ;
        },
    };
    app.launch.prompt = None;
    let ghost closed = *app;
    let label = mount::label(&parsed);
    if app.launch.scope == LaunchScope::Workspace {
        if holds_mount(&app.launch.workspace.mounts, &parsed) {
            app.show_action_message("the Workspace policy already grants that mount".to_owned());
            return ;
        }
        let ghost asked = parsed@;
        let mounts = vec![parsed];
        assert(mount_views(mounts@) =~= seq![asked]);
        workspace_change(app, WorkspaceLaunchChange::AddMounts(mounts));
        app.show_action_message(
            "added ".to_owned().concat(label.as_str()).concat(
                " to every launch in this Workspace",
            ),
        );
        return ;
    }
    let ghost added = parsed;
    match app.launch.add_mount(parsed) {
        Ok(()) => {
            assert(closed.launch.adds(LaunchScope::Interaction, added, app.launch, None));
            app.show_action_message(
                "added ".to_owned().concat(label.as_str()).concat(" to ").concat(
                    LaunchScope::Interaction.subject(),
                ),
            );
            proof {
                reveal_strlit(" to ");
                reveal_strlit("this interaction");
                reveal_strlit(" to this interaction");
                assert(" to "@ + "this interaction"@ =~= " to this interaction"@);
                assert("added "@ + mount_label(added@) + " to "@ + "this interaction"@ =~= "added "@
                    + mount_label(added@) + " to this interaction"@);
            }
        },
        Err(reason) => app.show_action_message(reason.to_owned()),
    }
}

/// The mounts that would change something in a layer, each once.
pub open spec fn fresh(launch: Launch, scope: LaunchScope, mounts: Seq<LaunchMountView>) -> Seq<
    LaunchMountView,
>
    decreases mounts.len(),
{
    if mounts.len() == 0 {
        Seq::empty()
    } else {
        let before = fresh(launch, scope, mounts.drop_last());
        if launch.refusal(scope, mounts.last()) is Some || grants(before, mounts.last()) {
            before
        } else {
            before.push(mounts.last())
        }
    }
}

fn fresh_mounts(launch: &Launch, scope: LaunchScope, mounts: &Vec<LaunchMount>) -> (r: Vec<
    LaunchMount,
>)
    ensures
        mount_views(r@) == fresh(*launch, scope, mount_views(mounts@)),
{
    let mut r: Vec<LaunchMount> = Vec::new();
    let ghost all = mount_views(mounts@);
    let mut i: usize = 0;
    assert(all.take(0) =~= Seq::<LaunchMountView>::empty());
    assert(mount_views(r@) =~= Seq::<LaunchMountView>::empty());
    while i < mounts.len()
        invariant
            i <= mounts@.len(),
            all == mount_views(mounts@),
            mount_views(r@) == fresh(*launch, scope, all.take(i as int)),
        decreases mounts.len() - i,
    {
        proof {
            assert(all.take(i + 1).drop_last() =~= all.take(i as int));
            assert(all.take(i + 1).last() == mounts@[i as int]@);
        }
        let mount = &mounts[i];
        let known = match scope {
            LaunchScope::Workspace => holds_mount(&launch.workspace.mounts, mount),
            LaunchScope::Interaction => holds_mount(&launch.interaction.mounts, mount) || (
            !launch.interaction.standalone && holds_mount(&launch.workspace.mounts, mount)),
        };
        if !known && !holds_mount(&r, mount) {
            let ghost had = mount_views(r@);
            r.push(mount.copied());
            assert(mount_views(r@) =~= had.push(mount@));
        }
        i = i + 1;
    }
    assert(all.take(all.len() as int) =~= all);
    r
}

/// Whether carrying a checkout's history into the sandbox leads from one screen
/// to another: what is not granted yet is added to the edited layer. The
/// Workspace's is changed by the server.
pub open spec fn history_added(
    before: App,
    checkout: Option<(Seq<char>, Seq<Seq<char>>)>,
    after: App,
) -> bool {
    let scope = before.launch.scope;
    if !can_edit(before.activity.status) {
        edit_refused(before, after)
    } else {
        match checkout {
            None => told(before, after, "no git history here"@),
            Some((root, directories)) => {
                let more = fresh(before.launch, scope, history_mounts(root, directories));
                if more.len() == 0 {
                    told(before, after, "the git history here is already mounted"@)
                } else if scope == LaunchScope::Workspace {
                    &&& after.request matches Some(
                        Request::ChangeWorkspaceLaunch {
                            change: WorkspaceLaunchChange::AddMounts(mounts),
                            clear_interaction: false,
                        },
                    ) && mount_views(mounts@) == more
                    &&& told(
                        App { request: after.request, ..before },
                        after,
                        "added the git history of "@ + root
                            + " to every launch in this Workspace"@,
                    )
                } else {
                    &&& mount_views(after.launch.interaction.mounts@) == mount_views(
                        before.launch.interaction.mounts@,
                    ) + more
                    &&& after.launch == before.launch.with_mounts(
                        scope,
                        after.launch.interaction.mounts,
                    ).placed(scope, (after.launch.interaction.mounts@.len() - 1) as usize)
                    &&& told(
                        App { launch: after.launch, ..before },
                        after,
                        "added the git history of "@ + root + " to this interaction"@,
                    )
                }
            },
        }
    }
}

/// The root of a checkout and the directories outside of it that hold its
/// history, as texts.
pub open spec fn checkout_view(checkout: Option<(String, Vec<String>)>) -> Option<
    (Seq<char>, Seq<Seq<char>>),
> {
    match checkout {
        Some((root, directories)) => Some((root@, views(directories@))),
        None => None,
    }
}

/// Carry the history of a checkout into the sandbox: its root and the
/// directories outside of it that hold its history, where there is a checkout.
pub fn history_found(app: &mut App, checkout: Option<(String, Vec<String>)>)
    ensures
        history_added(*old(app), checkout_view(checkout), *final(app)),
        old(app).wf() ==> final(app).wf(),
{
    if !app.allow_launch_edit() {
        return ;
    }
    let (root, directories) = match checkout {
        Some(found) => found,
        None => {
            app.show_action_message("no git history here".to_owned());
            return ;
        },
    };
    let name = root.clone();
    let scope = app.launch.scope;
    let asked = mount::mounts_of_history(root, directories);
    let mut more = fresh_mounts(&app.launch, scope, &asked);
    let ghost wanted = more@;
    assert(mount_views(wanted).len() == wanted.len());
    if more.len() == 0 {
        app.show_action_message("the git history here is already mounted".to_owned());
        return ;
    }
    let told = "added the git history of ".to_owned().concat(name.as_str());
    if scope == LaunchScope::Workspace {
        workspace_change(app, WorkspaceLaunchChange::AddMounts(more));
        app.show_action_message(told.concat(" to every launch in this Workspace"));
        return ;
    }
    let mut mounts = copied_mounts(&app.launch.interaction.mounts);
    mounts.append(&mut more);
    let last: usize = mounts.len() - 1;
    assert(mount_views(mounts@) =~= mount_views(app.launch.interaction.mounts@) + mount_views(
        wanted,
    ));
    app.launch.interaction.mounts = mounts;
    app.launch.selected = (app.launch.selected.0, last);
    app.show_action_message(told.concat(" to this interaction"));
}

/// After a checkout's history was added, every directory of it is granted: by
/// the layer it was added to, or by one that it inherits from.
pub proof fn law_added_history_is_granted(
    before: App,
    root: Seq<char>,
    directories: Seq<Seq<char>>,
    after: App,
    mount: LaunchMountView,
)
    requires
        can_edit(before.activity.status),
        before.launch.scope == LaunchScope::Interaction,
        history_added(before, Some((root, directories)), after),
        history_mounts(root, directories).contains(mount),
    ensures
        grants(after.launch.in_effect().mounts, mount),
{
    let scope = LaunchScope::Interaction;
    let mounts = history_mounts(root, directories);
    lemma_fresh(before.launch, scope, mounts, mount);
    let own = mount_views(before.launch.interaction.mounts@);
    let shared = mount_views(before.launch.workspace.mounts@);
    let more = fresh(before.launch, scope, mounts);
    let now = mount_views(after.launch.interaction.mounts@);
    if grants(more, mount) {
        let i = choose|i: int| 0 <= i < more.len() && (#[trigger] more[i]).same_as(mount);
        assert(now[own.len() + i] == more[i]);
    } else if grants(own, mount) {
        let i = choose|i: int| 0 <= i < own.len() && (#[trigger] own[i]).same_as(mount);
        assert(now[i] == own[i]);
    }
    assert(grants(now, mount) || (!after.launch.interaction.standalone && grants(shared, mount)));
    let whole = after.launch.in_effect().mounts;
    if after.launch.interaction.standalone {
    } else if grants(now, mount) {
        let i = choose|i: int| 0 <= i < now.len() && (#[trigger] now[i]).same_as(mount);
        assert(whole[shared.len() + i] == now[i]);
    } else {
        let i = choose|i: int| 0 <= i < shared.len() && (#[trigger] shared[i]).same_as(mount);
        assert(whole[i] == shared[i]);
    }
}

proof fn lemma_fresh(
    launch: Launch,
    scope: LaunchScope,
    mounts: Seq<LaunchMountView>,
    mount: LaunchMountView,
)
    requires
        mounts.contains(mount),
    ensures
        grants(fresh(launch, scope, mounts), mount) || launch.refusal(scope, mount) is Some,
    decreases mounts.len(),
{
    let before = fresh(launch, scope, mounts.drop_last());
    if mounts.last() == mount {
        assert(before.push(mount)[before.len() as int].same_as(mount));
    } else {
        let i = choose|i: int| 0 <= i < mounts.len() && mounts[i] == mount;
        assert(mounts.drop_last()[i] == mount);
        lemma_fresh(launch, scope, mounts.drop_last(), mount);
        if grants(before, mount) {
            let k = choose|k: int| 0 <= k < before.len() && (#[trigger] before[k]).same_as(mount);
            assert(before.push(mounts.last())[k] == before[k]);
        }
    }
}

/// Whether removing the selected mount leads from one screen to another. The
/// Workspace's is removed by the server.
pub open spec fn mount_removed(before: App, after: App) -> bool {
    let scope = before.launch.scope;
    if !can_edit(before.activity.status) {
        edit_refused(before, after)
    } else {
        match before.launch.nothing_to_remove() {
            Some(reason) => told(before, after, reason),
            None => {
                let gone = before.launch.layer(scope).mounts@[before.launch.at(scope) as int];
                if scope == LaunchScope::Workspace {
                    told(
                        asking(before, WorkspaceLaunchChange::RemoveMount(gone), false),
                        after,
                        "removed "@ + mount_label(gone@) + " from every launch in this Workspace"@,
                    )
                } else {
                    &&& before.launch.removes(after.launch)
                    &&& told(
                        App { launch: after.launch, ..before },
                        after,
                        "removed "@ + mount_label(gone@) + " from this interaction"@,
                    )
                }
            },
        }
    }
}

/// Remove the selected mount of the edited layer.
pub fn remove_selected_mount(app: &mut App)
    ensures
        mount_removed(*old(app), *final(app)),
        old(app).wf() ==> final(app).wf(),
{
    if !app.allow_launch_edit() {
        return ;
    }
    let scope = app.launch.scope;
    if scope == LaunchScope::Workspace {
        if app.launch.workspace.mounts.len() == 0 {
            app.show_action_message("the Workspace policy has no mounts to remove".to_owned());
            return ;
        }
        let at = app.launch.cursor(scope);
        let removed = app.launch.workspace.mounts[at].copied();
        let label = mount::label(&removed);
        workspace_change(app, WorkspaceLaunchChange::RemoveMount(removed));
        app.show_action_message(
            "removed ".to_owned().concat(label.as_str()).concat(
                " from every launch in this Workspace",
            ),
        );
        return ;
    }
    match app.launch.remove_mount() {
        Ok(removed) => {
            let label = mount::label(&removed);
            app.show_action_message(
                "removed ".to_owned().concat(label.as_str()).concat(" from ").concat(
                    scope.subject(),
                ),
            );
            proof {
                reveal_strlit(" from ");
                reveal_strlit("this interaction");
                reveal_strlit(" from this interaction");
                assert("removed "@ + mount_label(removed@) + " from "@ + "this interaction"@
                    =~= "removed "@ + mount_label(removed@) + " from this interaction"@);
            }
        },
        Err(reason) => app.show_action_message(reason.to_owned()),
    }
}

pub fn select_next_mount(app: &mut App)
    ensures
        *final(app) == (App { launch: old(app).launch.mount_after(), ..*old(app) }),
        old(app).wf() ==> final(app).wf(),
{
    app.launch.select_next_mount();
}

pub fn select_prev_mount(app: &mut App)
    ensures
        *final(app) == (App { launch: old(app).launch.mount_before(), ..*old(app) }),
        old(app).wf() ==> final(app).wf(),
{
    app.launch.select_prev_mount();
}

/// Whether making this interaction's settings the Workspace's own leads from
/// one screen to another. The server makes the change.
pub open spec fn promoted(before: App, after: App) -> bool {
    if !can_edit(before.activity.status) {
        edit_refused(before, after)
    } else if before.launch.interaction@ == no_policy() {
        told(before, after, "this interaction adds nothing to the Workspace policy"@)
    } else {
        &&& after.request matches Some(
            Request::ChangeWorkspaceLaunch {
                change: WorkspaceLaunchChange::Replace(policy),
                clear_interaction,
            },
        )
        &&& clear_interaction
        &&& policy@ == before.launch.in_effect()
        &&& after == (App { request: after.request, ..before })
    }
}

/// Make this interaction's settings the Workspace's own.
pub fn promote_to_workspace(app: &mut App)
    ensures
        promoted(*old(app), *final(app)),
        old(app).wf() ==> final(app).wf(),
{
    if !app.allow_launch_edit() {
        return ;
    }
    if app.launch.interaction.is_empty() {
        app.show_action_message(
            "this interaction adds nothing to the Workspace policy".to_owned(),
        );
        return ;
    }
    let policy = app.launch.effective();
    app.ask(
        Request::ChangeWorkspaceLaunch {
            change: WorkspaceLaunchChange::Replace(policy),
            clear_interaction: true,
        },
    );
}

fn workspace_change(app: &mut App, change: WorkspaceLaunchChange)
    ensures
        *final(app) == asking(*old(app), change, false),
        old(app).wf() ==> final(app).wf(),
{
    app.ask(Request::ChangeWorkspaceLaunch { change, clear_interaction: false });
}

/// Whether the sandbox of the next launch is to be asked for.
pub fn wants_plan(app: &App) -> (r: bool)
    ensures
        r == (can_edit(app.activity.status) && app.launch.stale(app.selection@)),
{
    app.can_edit_launch() && app.launch.needs_plan(&app.selection)
}

/// No edit is made to the policy of an interaction that is running or idle: each
/// of them leaves both layers, and what is asked of the server, as they were.
pub proof fn law_a_running_policy_is_fixed(
    before: App,
    after: App,
    chosen: Vec<String>,
    checkout: Option<(Seq<char>, Seq<Seq<char>>)>,
)
    requires
        !can_edit(before.activity.status),
        network_cycled(before, after) || standalone_toggled(before, after) || templates_set(
            before,
            chosen,
            after,
        ) || mount_removed(before, after) || promoted(before, after) || history_added(
            before,
            checkout,
            after,
        ),
    ensures
        after.launch == before.launch,
        after.request == before.request,
{
}

/// Making this interaction's settings the Workspace's own changes nothing for
/// the next launch: what was in effect stays in effect.
pub proof fn law_promoting_keeps_what_is_in_effect(before: Launch, after: Launch)
    requires
        after.workspace@ == before.in_effect(),
        after.interaction@ == no_policy(),
    ensures
        after.in_effect() == before.in_effect(),
{
    assert(after.in_effect() =~= before.in_effect());
}

/// A first word on the network always changes the answer, and a second always
/// returns to what was inherited.
pub proof fn law_network_is_toggled_and_inherited_again(launch: Launch)
    requires
        launch.scope == LaunchScope::Interaction,
        !launch.interaction.standalone,
        launch.interaction.network is None,
    ensures
        permits_network(launch.network_after().in_effect()) != permits_network(launch.in_effect()),
        launch.network_after().network_after().in_effect() == launch.in_effect(),
{
}

/// A policy that asks for nothing more leaves the Workspace's in effect.
pub proof fn law_an_empty_layer_adds_nothing(launch: Launch)
    requires
        launch.interaction@ == no_policy(),
        !launch.workspace.standalone,
    ensures
        launch.in_effect() == launch.workspace@,
{
    assert(launch.in_effect() =~= launch.workspace@);
}

/// A plan that was asked for what is in effect is not asked for again, and one
/// asked for anything else is.
pub proof fn law_a_plan_is_asked_for_once(
    launch: Launch,
    selection: Selection,
    effective: LaunchPolicy,
)
    requires
        launch.plan_key == Some((selection, effective)),
    ensures
        launch.stale(selection@) == !effective@.same_as(launch.in_effect()),
{
}

} // verus!
