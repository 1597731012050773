//! The navigator of live interactions.

use vstd::prelude::*;

use crate::order::{reorders, stable_sort, stably_sorted, values, without_ranks};
use crate::protocol::{InteractionActivity, InteractionSummary, WorkspaceSummary};
use crate::text::{same};

verus! {

/// How long the cursor rests on an entry before it is loaded, in milliseconds.
pub const LOAD_SETTLE_MS: u64 = 120;

/// The view of an optional text slice.
pub open spec fn str_view(text: Option<&str>) -> Option<Seq<char>> {
    match text {
        Some(t) => Some(t@),
        None => None,
    }
}

/// Positions as integers.
pub open spec fn positions(list: Seq<usize>) -> Seq<int> {
    list.map_values(|i: usize| i as int)
}

/// Where an interaction stands in the list: one that waits for the operator
/// first, then one that works, then one that is stopped.
pub open spec fn standing(interaction: InteractionSummary) -> u64 {
    if !interaction.accepting {
        2
    } else if interaction.activity == InteractionActivity::Pending {
        0
    } else {
        1
    }
}

/// Each interaction with where it stands.
pub open spec fn ranked(items: Seq<InteractionSummary>) -> Seq<(u64, InteractionSummary)> {
    items.map_values(|s: InteractionSummary| (standing(s), s))
}

/// Whether a live interaction waits for input.
pub open spec fn waits(interaction: InteractionSummary) -> bool {
    interaction.accepting && interaction.activity == InteractionActivity::Pending
}

/// Whether a live interaction waits for input.
pub fn is_idle(interaction: &InteractionSummary) -> (r: bool)
    ensures
        r == waits(*interaction),
{
    interaction.accepting && interaction.activity == InteractionActivity::Pending
}

fn rank(interaction: &InteractionSummary) -> (r: u64)
    ensures
        r == standing(*interaction),
{
    if !interaction.accepting {
        2
    } else if interaction.activity == InteractionActivity::Pending {
        0
    } else {
        1
    }
}

/// Order interactions by what they are doing. Those that do the same keep their
/// order.
pub fn sort_interactions(interactions: Vec<InteractionSummary>) -> (r: Vec<InteractionSummary>)
    ensures
        stably_sorted(ranked(interactions@), ranked(r@)),
{
    let ghost before = interactions@;
    let mut rest = interactions;
    let mut pairs: Vec<(u64, InteractionSummary)> = Vec::new();
    while rest.len() > 0
        invariant
            before.len() == pairs@.len() + rest@.len(),
            rest@ == before.skip(pairs@.len() as int),
            pairs@ == ranked(before).take(pairs@.len() as int),
        decreases rest@.len(),
    {
        let item = rest.remove(0);
        let ghost n = pairs@.len() as int;
        assert(item == before[n]);
        assert(before.skip(n).remove(0) =~= before.skip(n + 1));
        pairs.push((rank(&item), item));
        assert(ranked(before).take(n + 1) =~= ranked(before).take(n).push(ranked(before)[n]));
    }
    assert(ranked(before).take(before.len() as int) =~= ranked(before));
    let held = stable_sort(pairs);
    proof {
        let order = choose|order: Seq<int>| reorders(order, ranked(before), held@);
        assert(ranked(values(held@)) =~= held@) by {
            assert forall|i: int| 0 <= i < held@.len() implies ranked(values(held@))[i]
                == held@[i] by {
                assert(0 <= order[i] < before.len());
            }
        }
    }
    without_ranks(held)
}

/// The navigator: which interactions there are, which are listed, and where the
/// cursor is.
#[derive(Debug)]
pub struct LiveInteractions {
    pub open: bool,
    pub only_current_workspace: bool,
    pub items: Vec<InteractionSummary>,
    pub workspaces: Vec<WorkspaceSummary>,
    /// The entry under the cursor, where that is not the one on screen.
    pub cursor: Option<String>,
    /// When the cursor last moved, in milliseconds, while the entry under it is
    /// not loaded.
    pub settle_from: Option<u64>,
}

impl LiveInteractions {
    /// Whether this is what a client knows that has been told of none: nothing,
    /// and the navigator is closed.
    pub open spec fn is_new(self) -> bool {
        &&& self.items@.len() == 0
        &&& self.workspaces@.len() == 0
        &&& self == (LiveInteractions {
            open: false,
            only_current_workspace: false,
            items: self.items,
            workspaces: self.workspaces,
            cursor: None,
            settle_from: None,
        })
    }
}

impl Default for LiveInteractions {
    fn default() -> (r: LiveInteractions)
        ensures
            r.is_new(),
    {
        LiveInteractions {
            open: false,
            only_current_workspace: false,
            items: Vec::new(),
            workspaces: Vec::new(),
            cursor: None,
            settle_from: None,
        }
    }
}

/// The number of the first entry with this id, or the number of entries.
pub open spec fn first_with_id(items: Seq<InteractionSummary>, id: Seq<char>) -> int
    decreases items.len(),
{
    if items.len() == 0 || items[0].id@ == id {
        0
    } else {
        1 + first_with_id(items.skip(1), id)
    }
}

/// Whether an entry of this id is listed.
pub open spec fn listed(items: Seq<InteractionSummary>, id: Seq<char>) -> bool {
    first_with_id(items, id) < items.len()
}

proof fn lemma_first_with_id(items: Seq<InteractionSummary>, id: Seq<char>, i: int)
    requires
        0 <= i <= items.len(),
        forall|j: int| 0 <= j < i ==> (#[trigger] items[j]).id@ != id,
        i < items.len() ==> items[i].id@ == id,
    ensures
        first_with_id(items, id) == i,
    decreases items.len(),
{
    if i > 0 {
        assert(items[0].id@ != id);
        let rest = items.skip(1);
        assert forall|j: int| 0 <= j < i - 1 implies (#[trigger] rest[j]).id@ != id by {
            assert(items[j + 1].id@ != id);
        }
        lemma_first_with_id(rest, id, i - 1);
    }
}

/// The position of the first entry with this id.
pub fn find_id(items: &Vec<InteractionSummary>, id: &str) -> (r: Option<usize>)
    ensures
        match r {
            Some(i) => i == first_with_id(items@, id@) && i < items@.len() && items@[i as int].id@
                == id@,
            None => !listed(items@, id@),
        },
{
    let mut i: usize = 0;
    while i < items.len()
        invariant
            i <= items@.len(),
            forall|j: int| 0 <= j < i ==> (#[trigger] items@[j]).id@ != id@,
        decreases items.len() - i,
    {
        if same(items[i].id.as_str(), id) {
            proof {
                lemma_first_with_id(items@, id@, i as int);
            }
            return Some(i);
        }
        i = i + 1;
    }
    proof {
        lemma_first_with_id(items@, id@, i as int);
    }
    None
}

impl LiveInteractions {
    /// Whether the entry at `i` is listed for a Workspace.
    pub open spec fn shows(self, workspace: Option<Seq<char>>, i: int) -> bool {
        !self.only_current_workspace || workspace == Some(self.items@[i].workspace_id@)
    }

    /// The listed entries among the first `n`.
    pub open spec fn visible_among(self, workspace: Option<Seq<char>>, n: nat) -> Seq<int>
        decreases n,
    {
        if n == 0 {
            Seq::empty()
        } else {
            let before = self.visible_among(workspace, (n - 1) as nat);
            if self.shows(workspace, n - 1) {
                before.push(n - 1)
            } else {
                before
            }
        }
    }

    /// The listed entries, in the order of the items.
    pub open spec fn visible(self, workspace: Option<Seq<char>>) -> Seq<int> {
        self.visible_among(workspace, self.items@.len())
    }

    /// The entries of one Workspace among those given.
    pub open spec fn members(self, among: Seq<int>, workspace: Seq<char>) -> Seq<int>
        decreases among.len(),
    {
        if among.len() == 0 {
            Seq::empty()
        } else {
            let before = self.members(among.drop_last(), workspace);
            if self.items@[among.last()].workspace_id@ == workspace {
                before.push(among.last())
            } else {
                before
            }
        }
    }

    /// The first `n` of the entries given, each with all of its Workspace
    /// behind the first of them.
    pub open spec fn grouped(self, among: Seq<int>, n: nat) -> Seq<int>
        decreases n,
    {
        if n == 0 {
            Seq::empty()
        } else {
            let before = self.grouped(among, (n - 1) as nat);
            let leader = among[n - 1];
            if before.contains(leader) {
                before
            } else {
                before + self.members(among, self.items@[leader].workspace_id@)
            }
        }
    }

    /// The listed entries as they are drawn: Workspace by Workspace, unless one
    /// alone is listed.
    pub open spec fn display(self, workspace: Option<Seq<char>>) -> Seq<int> {
        let visible = self.visible(workspace);
        if self.only_current_workspace {
            visible
        } else {
            self.grouped(visible, visible.len())
        }
    }

    /// The place of the first entry with this id among those given, or how many
    /// there are.
    pub open spec fn place(self, among: Seq<int>, id: Seq<char>) -> int
        decreases among.len(),
    {
        if among.len() == 0 || self.items@[among[0]].id@ == id {
            0
        } else {
            1 + self.place(among.skip(1), id)
        }
    }

    /// The entry after `current`, and after the last the last. Where `current`
    /// is not listed, the first.
    pub open spec fn after(self, current: Seq<char>, workspace: Option<Seq<char>>) -> Option<int> {
        let shown = self.display(workspace);
        let at = self.place(shown, current);
        if shown.len() == 0 {
            None
        } else if at >= shown.len() {
            Some(shown[0])
        } else if at + 1 < shown.len() {
            Some(shown[at + 1])
        } else {
            Some(shown[at])
        }
    }

    /// The entry before `current`, and before the first the first. Where
    /// `current` is not listed, the first.
    pub open spec fn before(self, current: Seq<char>, workspace: Option<Seq<char>>) -> Option<int> {
        let shown = self.display(workspace);
        let at = self.place(shown, current);
        if shown.len() == 0 {
            None
        } else if at >= shown.len() || at == 0 {
            Some(shown[0])
        } else {
            Some(shown[at - 1])
        }
    }

    /// The first of each run of entries of one Workspace, among the first `n`
    /// given.
    pub open spec fn leaders_among(self, shown: Seq<int>, n: nat) -> Seq<int>
        decreases n,
    {
        if n == 0 {
            Seq::empty()
        } else {
            let before = self.leaders_among(shown, (n - 1) as nat);
            if before.len() > 0 && self.items@[before.last()].workspace_id@
                == self.items@[shown[n - 1]].workspace_id@ {
                before
            } else {
                before.push(shown[n - 1])
            }
        }
    }

    /// The first entry of each Workspace, as drawn. There is none where one
    /// Workspace alone is listed.
    pub open spec fn leaders(self, workspace: Option<Seq<char>>) -> Seq<int> {
        if self.only_current_workspace {
            Seq::empty()
        } else {
            self.leaders_among(self.display(workspace), self.display(workspace).len())
        }
    }

    /// The place of the first leader of this Workspace, or how many there are.
    pub open spec fn leader_place(self, leaders: Seq<int>, workspace: Seq<char>) -> int
        decreases leaders.len(),
    {
        if leaders.len() == 0 || self.items@[leaders[0]].workspace_id@ == workspace {
            0
        } else {
            1 + self.leader_place(leaders.skip(1), workspace)
        }
    }

    /// The group that `current` is in.
    pub open spec fn group(self, current: Seq<char>, workspace: Option<Seq<char>>) -> Option<int> {
        let leaders = self.leaders(workspace);
        let i = first_with_id(self.items@, current);
        if i >= self.items@.len() {
            None
        } else {
            let at = self.leader_place(leaders, self.items@[i].workspace_id@);
            if at < leaders.len() {
                Some(at)
            } else {
                None
            }
        }
    }

    /// The first entry of the group after the one of `current`.
    pub open spec fn after_group(self, current: Seq<char>, workspace: Option<Seq<char>>) -> Option<
        int,
    > {
        match self.group(current, workspace) {
            Some(at) => if at + 1 < self.leaders(workspace).len() {
                Some(self.leaders(workspace)[at + 1])
            } else {
                None
            },
            None => None,
        }
    }

    /// The first entry of the group of `current`, or, where that is `current`,
    /// of the group before.
    pub open spec fn before_group(self, current: Seq<char>, workspace: Option<Seq<char>>) -> Option<
        int,
    > {
        match self.group(current, workspace) {
            Some(at) => {
                let leader = self.leaders(workspace)[at];
                if self.items@[leader].id@ != current {
                    Some(leader)
                } else if at > 0 {
                    Some(self.leaders(workspace)[at - 1])
                } else {
                    None
                }
            },
            None => None,
        }
    }

    /// Whether the entry at `i` waits for input and has not been looked at since,
    /// and is another than the one on screen.
    pub open spec fn beckons(self, i: int, current: Seq<char>) -> bool {
        &&& waits(self.items@[i])
        &&& self.items@[i].idle_unseen
        &&& self.items@[i].id@ != current
    }

    /// The first of the entries given that beckons.
    pub open spec fn first_beckoning(self, among: Seq<int>, current: Seq<char>) -> Option<int>
        decreases among.len(),
    {
        if among.len() == 0 {
            None
        } else if self.beckons(among[0], current) {
            Some(among[0])
        } else {
            self.first_beckoning(among.skip(1), current)
        }
    }

    /// The entries given from the one behind `from` round to the one before it,
    /// and all of them where it is not among them.
    pub open spec fn round(self, among: Seq<int>, from: Seq<char>) -> Seq<int> {
        let at = self.place(among, from);
        if at < among.len() {
            among.skip(at + 1) + among.take(at)
        } else {
            among
        }
    }

    /// The next listed entry behind `from` that beckons, round the end of the
    /// list.
    pub open spec fn beckoning_after(
        self,
        from: Seq<char>,
        current: Seq<char>,
        workspace: Option<Seq<char>>,
    ) -> Option<int> {
        self.first_beckoning(self.round(self.display(workspace), from), current)
    }

    /// All entries, listed or not.
    pub open spec fn everything(self) -> Seq<int> {
        Seq::new(self.items@.len(), |i: int| i)
    }

    /// The next entry behind the one on screen that beckons, listed or not.
    pub open spec fn next_beckoning(self, current: Seq<char>) -> Option<int> {
        self.first_beckoning(self.round(self.everything(), current), current)
    }

    /// Whether taking over what the server lists leads from one navigator to
    /// another.
    pub open spec fn refreshed(
        self,
        items: Seq<InteractionSummary>,
        after: LiveInteractions,
    ) -> bool {
        let now = LiveInteractions { items: after.items, ..self };
        &&& stably_sorted(ranked(items), ranked(after.items@))
        &&& after == match self.cursor {
            Some(id) => if listed(after.items@, id@) {
                now
            } else {
                now.rested()
            },
            None => now,
        }
    }

    /// The id under the cursor.
    pub open spec fn cursor_id(self, current: Seq<char>) -> Seq<char> {
        match self.cursor {
            Some(id) => id@,
            None => current,
        }
    }

    /// With the cursor on what is on screen.
    pub open spec fn rested(self) -> LiveInteractions {
        LiveInteractions { cursor: None, settle_from: None, ..self }
    }

    /// With the cursor moved to the entry at `to`, where there is one. An entry
    /// that is on screen needs no move.
    pub open spec fn moved_to(self, to: Option<int>, current: Seq<char>, now: u64) -> LiveInteractions {
        match to {
            Some(i) => if self.items@[i].id@ == current {
                self.rested()
            } else {
                LiveInteractions {
                    cursor: Some(self.items@[i].id),
                    settle_from: Some(now),
                    ..self
                }
            },
            None => self,
        }
    }

    /// The entry under the cursor, where it is not the one on screen.
    pub open spec fn awaited(self, current: Seq<char>) -> Option<InteractionSummary> {
        match self.cursor {
            Some(id) => if id@ == current || !listed(self.items@, id@) {
                None
            } else {
                Some(self.items@[first_with_id(self.items@, id@)])
            },
            None => None,
        }
    }

    /// Open the navigator on these interactions.
    pub fn open(&mut self, items: Vec<InteractionSummary>, workspaces: Vec<WorkspaceSummary>)
        ensures
            stably_sorted(ranked(items@), ranked(final(self).items@)),
            *final(self) == (LiveInteractions {
                items: final(self).items,
                workspaces,
                open: true,
                ..*old(self)
            }),
    {
        self.items = sort_interactions(items);
        self.workspaces = workspaces;
        self.open = true;
    }

    /// Take over what the server lists now. A cursor on an entry that is gone
    /// returns to what is on screen.
    pub fn refresh(&mut self, items: Vec<InteractionSummary>)
        ensures
            old(self).refreshed(items@, *final(self)),
    {
        self.items = sort_interactions(items);
        let gone = match &self.cursor {
            Some(id) => find_id(&self.items, id.as_str()).is_none(),
            None => false,
        };
        if gone {
            self.rest();
        }
    }

    /// How many interactions wait for input and have not been looked at since.
    pub open spec fn unseen_among(self, n: nat) -> nat
        decreases n,
    {
        if n == 0 {
            0
        } else {
            let before = self.unseen_among((n - 1) as nat);
            if waits(self.items@[n - 1]) && self.items@[n - 1].idle_unseen {
                before + 1
            } else {
                before
            }
        }
    }

    pub fn idle_notification_count(&self) -> (r: usize)
        ensures
            r == self.unseen_among(self.items@.len()),
    {
        let mut count: usize = 0;
        let mut i: usize = 0;
        while i < self.items.len()
            invariant
                i <= self.items@.len(),
                count <= i,
                count == self.unseen_among(i as nat),
            decreases self.items.len() - i,
        {
            if is_idle(&self.items[i]) && self.items[i].idle_unseen {
                count = count + 1;
            }
            i = i + 1;
        }
        count
    }

    pub fn close(&mut self)
        ensures
            *final(self) == (LiveInteractions { open: false, ..*old(self) }),
    {
        self.open = false;
    }

    /// The entry of this id.
    pub fn current(&self, current: &str) -> (r: Option<&InteractionSummary>)
        ensures
            match r {
                Some(found) => listed(self.items@, current@) && *found == self.items@[first_with_id(
                    self.items@,
                    current@,
                )],
                None => !listed(self.items@, current@),
            },
    {
        match find_id(&self.items, current) {
            Some(i) => Some(&self.items[i]),
            None => None,
        }
    }

    /// The listed entries, in the order of the items.
    pub fn visible_indices(&self, workspace_id: Option<&str>) -> (r: Vec<usize>)
        ensures
            positions(r@) == self.visible(str_view(workspace_id)),
            forall|k: int| 0 <= k < r@.len() ==> (#[trigger] r@[k]) < self.items@.len(),
    {
        let ghost workspace = str_view(workspace_id);
        let mut r: Vec<usize> = Vec::new();
        let mut i: usize = 0;
        assert(positions(r@) =~= Seq::<int>::empty());
        while i < self.items.len()
            invariant
                i <= self.items@.len(),
                workspace == str_view(workspace_id),
                positions(r@) == self.visible_among(workspace, i as nat),
                forall|k: int| 0 <= k < r@.len() ==> (#[trigger] r@[k]) < self.items@.len(),
            decreases self.items.len() - i,
        {
            let matching = match workspace_id {
                Some(id) => same(self.items[i].workspace_id.as_str(), id),
                None => false,
            };
            if !self.only_current_workspace || matching {
                let ghost had = positions(r@);
                r.push(i);
                assert(positions(r@) =~= had.push(i as int));
            }
            i = i + 1;
        }
        r
    }

    fn members_of(&self, among: &Vec<usize>, workspace: &str) -> (r: Vec<usize>)
        requires
            forall|k: int| 0 <= k < among@.len() ==> (#[trigger] among@[k]) < self.items@.len(),
        ensures
            positions(r@) == self.members(positions(among@), workspace@),
            forall|k: int| 0 <= k < r@.len() ==> (#[trigger] r@[k]) < self.items@.len(),
    {
        let ghost all = positions(among@);
        let mut r: Vec<usize> = Vec::new();
        let mut i: usize = 0;
        assert(positions(r@) =~= Seq::<int>::empty());
        assert(all.take(0) =~= Seq::<int>::empty());
        while i < among.len()
            invariant
                i <= among@.len(),
                all == positions(among@),
                positions(r@) == self.members(all.take(i as int), workspace@),
                forall|k: int| 0 <= k < among@.len() ==> (#[trigger] among@[k]) < self.items@.len(),
                forall|k: int| 0 <= k < r@.len() ==> (#[trigger] r@[k]) < self.items@.len(),
            decreases among.len() - i,
        {
            let at = among[i];
            proof {
                assert(all.take(i + 1).drop_last() =~= all.take(i as int));
                assert(all.take(i + 1).last() == at);
            }
            if same(self.items[at].workspace_id.as_str(), workspace) {
                let ghost had = positions(r@);
                r.push(at);
                assert(positions(r@) =~= had.push(at as int));
            }
            i = i + 1;
        }
        assert(all.take(all.len() as int) =~= all);
        r
    }

    /// The listed entries as they are drawn.
    pub fn display_indices(&self, workspace_id: Option<&str>) -> (r: Vec<usize>)
        ensures
            positions(r@) == self.display(str_view(workspace_id)),
            forall|k: int| 0 <= k < r@.len() ==> (#[trigger] r@[k]) < self.items@.len(),
    {
        let visible = self.visible_indices(workspace_id);
        if self.only_current_workspace {
            return visible;
        }
        let ghost all = positions(visible@);
        let mut r: Vec<usize> = Vec::new();
        let mut i: usize = 0;
        assert(positions(r@) =~= Seq::<int>::empty());
        while i < visible.len()
            invariant
                i <= visible@.len(),
                all == positions(visible@),
                positions(r@) == self.grouped(all, i as nat),
                forall|k: int|
                    0 <= k < visible@.len() ==> (#[trigger] visible@[k]) < self.items@.len(),
                forall|k: int| 0 <= k < r@.len() ==> (#[trigger] r@[k]) < self.items@.len(),
            decreases visible.len() - i,
        {
            let leader = visible[i];
            assert(all[i as int] == leader);
            if !has_position(&r, leader) {
                let mut group = self.members_of(
                    &visible,
                    self.items[leader].workspace_id.as_str(),
                );
                let ghost had = r@;
                let ghost added = group@;
                r.append(&mut group);
                proof {
                    assert(r@ =~= had + added);
                    assert(positions(r@) =~= positions(had) + positions(added));
                    assert forall|k: int| 0 <= k < r@.len() implies (#[trigger] r@[k])
                        < self.items@.len() by {
                        if k < had.len() {
                            assert(had[k] < self.items@.len());
                        } else {
                            assert(added[k - had.len()] < self.items@.len());
                        }
                    }
                }
            }
            i = i + 1;
        }
        r
    }

    /// The id under the cursor.
    pub fn cursor<'a>(&'a self, current: &'a str) -> (r: &'a str)
        ensures
            r@ == self.cursor_id(current@),
    {
        match &self.cursor {
            Some(id) => id.as_str(),
            None => current,
        }
    }

    /// The entry under the cursor, where it is not the one on screen.
    pub fn pending(&self, current: &str) -> (r: Option<&InteractionSummary>)
        ensures
            match r {
                Some(found) => self.awaited(current@) == Some(*found),
                None => self.awaited(current@) is None,
            },
    {
        match &self.cursor {
            Some(id) => if same(id.as_str(), current) {
                None
            } else {
                self.current(id.as_str())
            },
            None => None,
        }
    }

    /// Whether the cursor has rested long enough.
    pub open spec fn settled(self, now: u64) -> bool {
        match self.settle_from {
            Some(since) => since + LOAD_SETTLE_MS <= now,
            None => false,
        }
    }

    /// The entry to load, once the cursor has rested on it long enough.
    pub fn due(&self, current: &str, now: u64) -> (r: Option<&InteractionSummary>)
        ensures
            match r {
                Some(found) => self.settled(now) && self.awaited(current@) == Some(*found),
                None => !self.settled(now) || self.awaited(current@) is None,
            },
    {
        let rested = match self.settle_from {
            Some(since) => now.saturating_sub(since) >= LOAD_SETTLE_MS,
            None => false,
        };
        if rested {
            self.pending(current)
        } else {
            None
        }
    }

    /// Put the cursor on what is on screen.
    pub fn rest(&mut self)
        ensures
            *final(self) == old(self).rested(),
    {
        self.cursor = None;
        self.settle_from = None;
    }

    fn place_of(&self, among: &Vec<usize>, id: &str) -> (r: Option<usize>)
        requires
            forall|k: int| 0 <= k < among@.len() ==> (#[trigger] among@[k]) < self.items@.len(),
        ensures
            match r {
                Some(at) => at == self.place(positions(among@), id@) && at < among@.len(),
                None => self.place(positions(among@), id@) >= among@.len(),
            },
    {
        let ghost all = positions(among@);
        let mut i: usize = 0;
        assert(all.skip(0) =~= all);
        while i < among.len()
            invariant
                i <= among@.len(),
                all == positions(among@),
                forall|k: int| 0 <= k < among@.len() ==> (#[trigger] among@[k]) < self.items@.len(),
                self.place(all, id@) == i + self.place(all.skip(i as int), id@),
            decreases among.len() - i,
        {
            proof {
                assert(all.skip(i as int)[0] == among@[i as int]);
                assert(all.skip(i as int).skip(1) =~= all.skip(i + 1));
            }
            if same(self.items[among[i]].id.as_str(), id) {
                return Some(i);
            }
            i = i + 1;
        }
        None
    }

    pub fn next(&self, current: &str, workspace_id: Option<&str>) -> (r: Option<usize>)
        ensures
            match r {
                Some(i) => self.after(current@, str_view(workspace_id)) == Some(i as int) && i
                    < self.items@.len(),
                None => self.after(current@, str_view(workspace_id)) is None,
            },
    {
        let shown = self.display_indices(workspace_id);
        assert(positions(shown@).len() == shown@.len());
        if shown.len() == 0 {
            return None;
        }
        let at: usize = match self.place_of(&shown, current) {
            Some(at) => if at < shown.len() - 1 {
                at + 1
            } else {
                at
            },
            None => 0,
        };
        assert(positions(shown@)[at as int] == shown@[at as int]);
        Some(shown[at])
    }

    pub fn previous(&self, current: &str, workspace_id: Option<&str>) -> (r: Option<usize>)
        ensures
            match r {
                Some(i) => self.before(current@, str_view(workspace_id)) == Some(i as int) && i
                    < self.items@.len(),
                None => self.before(current@, str_view(workspace_id)) is None,
            },
    {
        let shown = self.display_indices(workspace_id);
        assert(positions(shown@).len() == shown@.len());
        if shown.len() == 0 {
            return None;
        }
        let at: usize = match self.place_of(&shown, current) {
            Some(at) => at.saturating_sub(1),
            None => 0,
        };
        assert(positions(shown@)[at as int] == shown@[at as int]);
        Some(shown[at])
    }

    /// The first entry of each Workspace, as drawn.
    pub fn workspace_leaders(&self, workspace_id: Option<&str>) -> (r: Vec<usize>)
        ensures
            positions(r@) == self.leaders(str_view(workspace_id)),
            forall|k: int| 0 <= k < r@.len() ==> (#[trigger] r@[k]) < self.items@.len(),
    {
        let mut r: Vec<usize> = Vec::new();
        assert(positions(r@) =~= Seq::<int>::empty());
        if self.only_current_workspace {
            return r;
        }
        let shown = self.display_indices(workspace_id);
        let ghost all = positions(shown@);
        let mut i: usize = 0;
        while i < shown.len()
            invariant
                i <= shown@.len(),
                all == positions(shown@),
                positions(r@) == self.leaders_among(all, i as nat),
                forall|k: int| 0 <= k < shown@.len() ==> (#[trigger] shown@[k]) < self.items@.len(),
                forall|k: int| 0 <= k < r@.len() ==> (#[trigger] r@[k]) < self.items@.len(),
            decreases shown.len() - i,
        {
            let at = shown[i];
            assert(all[i as int] == at);
            let goes_on = if r.len() > 0 {
                let last = r[r.len() - 1];
                assert(positions(r@).last() == last);
                same(
                    self.items[last].workspace_id.as_str(),
                    self.items[at].workspace_id.as_str(),
                )
            } else {
                false
            };
            assert(positions(r@).len() == r@.len());
            if !goes_on {
                let ghost had = positions(r@);
                r.push(at);
                assert(positions(r@) =~= had.push(at as int));
            }
            i = i + 1;
        }
        assert(all.len() == shown@.len());
        r
    }

    fn group_of(&self, current: &str, leaders: &Vec<usize>, workspace_id: Option<&str>) -> (r: Option<
        usize,
    >)
        requires
            positions(leaders@) == self.leaders(str_view(workspace_id)),
            forall|k: int| 0 <= k < leaders@.len() ==> (#[trigger] leaders@[k]) < self.items@.len(),
        ensures
            match r {
                Some(at) => self.group(current@, str_view(workspace_id)) == Some(at as int) && at
                    < leaders@.len(),
                None => self.group(current@, str_view(workspace_id)) is None,
            },
    {
        let found = match find_id(&self.items, current) {
            Some(i) => i,
            None => {
                return None;
            },
        };
        let ghost all = positions(leaders@);
        let ghost wanted = self.items@[found as int].workspace_id@;
        let mut i: usize = 0;
        assert(all.skip(0) =~= all);
        while i < leaders.len()
            invariant
                i <= leaders@.len(),
                found < self.items@.len(),
                all == positions(leaders@),
                wanted == self.items@[found as int].workspace_id@,
                forall|k: int|
                    0 <= k < leaders@.len() ==> (#[trigger] leaders@[k]) < self.items@.len(),
                self.leader_place(all, wanted) == i + self.leader_place(all.skip(i as int), wanted),
                found == first_with_id(self.items@, current@),
                all == self.leaders(str_view(workspace_id)),
            decreases leaders.len() - i,
        {
            proof {
                assert(all.skip(i as int)[0] == leaders@[i as int]);
                assert(all.skip(i as int).skip(1) =~= all.skip(i + 1));
            }
            if same(
                self.items[leaders[i]].workspace_id.as_str(),
                self.items[found].workspace_id.as_str(),
            ) {
                return Some(i);
            }
            i = i + 1;
        }
        None
    }

    pub fn next_workspace(&self, current: &str, workspace_id: Option<&str>) -> (r: Option<usize>)
        ensures
            match r {
                Some(i) => self.after_group(current@, str_view(workspace_id)) == Some(i as int) && i
                    < self.items@.len(),
                None => self.after_group(current@, str_view(workspace_id)) is None,
            },
    {
        let leaders = self.workspace_leaders(workspace_id);
        assert(positions(leaders@).len() == leaders@.len());
        match self.group_of(current, &leaders, workspace_id) {
            Some(at) => if at < leaders.len() - 1 {
                assert(positions(leaders@)[at + 1] == leaders@[at + 1]);
                Some(leaders[at + 1])
            } else {
                None
            },
            None => None,
        }
    }

    pub fn previous_workspace(&self, current: &str, workspace_id: Option<&str>) -> (r: Option<usize>)
        ensures
            match r {
                Some(i) => self.before_group(current@, str_view(workspace_id)) == Some(i as int)
                    && i < self.items@.len(),
                None => self.before_group(current@, str_view(workspace_id)) is None,
            },
    {
        let leaders = self.workspace_leaders(workspace_id);
        assert(positions(leaders@).len() == leaders@.len());
        match self.group_of(current, &leaders, workspace_id) {
            Some(at) => {
                let leader = leaders[at];
                assert(positions(leaders@)[at as int] == leader);
                if !same(self.items[leader].id.as_str(), current) {
                    Some(leader)
                } else if at > 0 {
                    assert(positions(leaders@)[at - 1] == leaders@[at - 1]);
                    Some(leaders[at - 1])
                } else {
                    None
                }
            },
            None => None,
        }
    }

    fn move_cursor_to(&mut self, to: usize, current: &str, now: u64)
        requires
            to < old(self).items@.len(),
        ensures
            *final(self) == old(self).moved_to(Some(to as int), current@, now),
    {
        if same(self.items[to].id.as_str(), current) {
            self.rest();
            return ;
        }
        self.cursor = Some(self.items[to].id.clone());
        self.settle_from = Some(now);
    }

    /// Move the cursor to the next entry.
    pub fn cursor_next(&mut self, current: &str, workspace_id: Option<&str>, now: u64)
        ensures
            *final(self) == old(self).moved_to(
                old(self).after(old(self).cursor_id(current@), str_view(workspace_id)),
                current@,
                now,
            ),
    {
        let from = self.cursor(current).to_owned();
        if let Some(to) = self.next(from.as_str(), workspace_id) {
            self.move_cursor_to(to, current, now);
        }
    }

    /// Move the cursor to the entry before.
    pub fn cursor_previous(&mut self, current: &str, workspace_id: Option<&str>, now: u64)
        ensures
            *final(self) == old(self).moved_to(
                old(self).before(old(self).cursor_id(current@), str_view(workspace_id)),
                current@,
                now,
            ),
    {
        let from = self.cursor(current).to_owned();
        if let Some(to) = self.previous(from.as_str(), workspace_id) {
            self.move_cursor_to(to, current, now);
        }
    }

    /// Move the cursor to the first entry of the next Workspace.
    pub fn cursor_next_workspace(&mut self, current: &str, workspace_id: Option<&str>, now: u64)
        ensures
            *final(self) == old(self).moved_to(
                old(self).after_group(old(self).cursor_id(current@), str_view(workspace_id)),
                current@,
                now,
            ),
    {
        let from = self.cursor(current).to_owned();
        if let Some(to) = self.next_workspace(from.as_str(), workspace_id) {
            self.move_cursor_to(to, current, now);
        }
    }

    /// Move the cursor to the first entry of its Workspace, or of the one
    /// before.
    pub fn cursor_previous_workspace(
        &mut self,
        current: &str,
        workspace_id: Option<&str>,
        now: u64,
    )
        ensures
            *final(self) == old(self).moved_to(
                old(self).before_group(old(self).cursor_id(current@), str_view(workspace_id)),
                current@,
                now,
            ),
    {
        let from = self.cursor(current).to_owned();
        if let Some(to) = self.previous_workspace(from.as_str(), workspace_id) {
            self.move_cursor_to(to, current, now);
        }
    }

    /// The first of the entries given that beckons, from the one behind `from`
    /// round to the one before it.
    fn find_beckoning(&self, among: &Vec<usize>, from: &str, current: &str) -> (r: Option<usize>)
        requires
            forall|k: int| 0 <= k < among@.len() ==> (#[trigger] among@[k]) < self.items@.len(),
        ensures
            match r {
                Some(i) => i < self.items@.len() && self.first_beckoning(
                    self.round(positions(among@), from@),
                    current@,
                ) == Some(i as int),
                None => self.first_beckoning(
                    self.round(positions(among@), from@),
                    current@,
                ) is None,
            },
    {
        let ghost all = positions(among@);
        let ghost ring = self.round(all, from@);
        let count: usize = among.len();
        assert(all.len() == count);
        let (start, rows): (usize, usize) = match self.place_of(among, from) {
            Some(at) => (at + 1, count - 1),
            None => (0, count),
        };
        let mut n: usize = 0;
        assert(ring.skip(0) =~= ring);
        while n < rows
            invariant
                count == among@.len(),
                n <= rows == ring.len(),
                ring == self.round(all, from@),
                start <= count,
                rows <= count,
                start > 0 ==> rows == count - 1,
                all == positions(among@),
                forall|k: int| 0 <= k < among@.len() ==> (#[trigger] among@[k]) < self.items@.len(),
                forall|k: int|
                    0 <= k < rows ==> #[trigger] ring[k] == all[if k < count - start {
                        start + k
                    } else {
                        k - (count - start)
                    }],
                self.first_beckoning(ring.skip(n as int), current@) == self.first_beckoning(
                    ring,
                    current@,
                ),
            decreases rows - n,
        {
            let at: usize = if n < count - start {
                start + n
            } else {
                n - (count - start)
            };
            proof {
                assert(ring[n as int] == all[at as int]);
                assert(all[at as int] == among@[at as int]);
                assert(ring.skip(n as int)[0] == ring[n as int]);
                assert(ring.skip(n as int).skip(1) =~= ring.skip(n + 1));
            }
            let entry = &self.items[among[at]];
            if is_idle(entry) && entry.idle_unseen && !same(entry.id.as_str(), current) {
                return Some(among[at]);
            }
            n = n + 1;
        }
        assert(ring.skip(rows as int) =~= Seq::<int>::empty());
        None
    }

    /// Move the cursor to the next listed entry that waits unseen. Where there
    /// is none it stays.
    pub fn cursor_to_next_idle(
        &mut self,
        current: &str,
        workspace_id: Option<&str>,
        now: u64,
    ) -> (r: Option<usize>)
        ensures
            match r {
                Some(i) => old(self).beckoning_after(
                    old(self).cursor_id(current@),
                    current@,
                    str_view(workspace_id),
                ) == Some(i as int),
                None => old(self).beckoning_after(
                    old(self).cursor_id(current@),
                    current@,
                    str_view(workspace_id),
                ) is None,
            },
            *final(self) == old(self).moved_to(
                old(self).beckoning_after(
                    old(self).cursor_id(current@),
                    current@,
                    str_view(workspace_id),
                ),
                current@,
                now,
            ),
    {
        let from = self.cursor(current).to_owned();
        let shown = self.display_indices(workspace_id);
        match self.find_beckoning(&shown, from.as_str(), current) {
            Some(to) => {
                self.move_cursor_to(to, current, now);
                Some(to)
            },
            None => None,
        }
    }

    /// The next entry behind the one on screen that waits unseen, listed or not.
    pub fn next_idle_unseen(&self, current: &str) -> (r: Option<&InteractionSummary>)
        ensures
            match r {
                Some(found) => self.next_beckoning(current@) matches Some(i) && *found
                    == self.items@[i],
                None => self.next_beckoning(current@) is None,
            },
    {
        let mut all: Vec<usize> = Vec::new();
        let mut i: usize = 0;
        while i < self.items.len()
            invariant
                i <= self.items@.len(),
                all@.len() == i,
                forall|k: int| 0 <= k < i ==> #[trigger] all@[k] == k,
            decreases self.items.len() - i,
        {
            all.push(i);
            i = i + 1;
        }
        assert(positions(all@) =~= self.everything());
        match self.find_beckoning(&all, current, current) {
            Some(at) => Some(&self.items[at]),
            None => None,
        }
    }

    /// List one Workspace, or all.
    pub fn toggle_workspace_scope(&mut self)
        ensures
            *final(self) == (LiveInteractions {
                only_current_workspace: !old(self).only_current_workspace,
                ..*old(self)
            }),
    {
        self.only_current_workspace = !self.only_current_workspace;
    }

    /// The first of the positions that is at least `from`, or else the last.
    pub open spec fn from_or_last(among: Seq<int>, from: int) -> int
        decreases among.len(),
    {
        if among.len() <= 1 || among[0] >= from {
            among[0]
        } else {
            Self::from_or_last(among.skip(1), from)
        }
    }

    /// Remove an entry, and say which takes its place: the next one that is
    /// listed, or the last. Where its Workspace has none left, all are listed.
    pub fn remove_and_select_next(&mut self, id: &str, workspace_id: Option<&str>) -> (r: Option<
        usize,
    >)
        ensures
            !listed(old(self).items@, id@) ==> r is None && *final(self) == *old(self),
            listed(old(self).items@, id@) ==> {
                let removed = first_with_id(old(self).items@, id@);
                let less = (LiveInteractions { items: final(self).items, ..*old(self) }).rested();
                let workspace = str_view(workspace_id);
                &&& final(self).items@ == old(self).items@.remove(removed)
                &&& *final(self) == (LiveInteractions {
                    only_current_workspace: old(self).only_current_workspace && (less.items@.len()
                        == 0 || less.visible(workspace).len() > 0),
                    ..less
                })
                &&& match r {
                    Some(i) => final(self).visible(workspace).len() > 0 && i
                        == Self::from_or_last(final(self).visible(workspace), removed) && i
                        < final(self).items@.len(),
                    None => final(self).items@.len() == 0,
                }
            },
    {
        let removed = match find_id(&self.items, id) {
            Some(i) => i,
            None => {
                return None;
            },
        };
        let _ = self.items.remove(removed);
        self.rest();
        if self.items.len() == 0 {
            return None;
        }
        let ghost less = *self;
        let ghost workspace = str_view(workspace_id);
        let first = self.visible_indices(workspace_id);
        assert(positions(first@).len() == first@.len());
        if first.len() == 0 {
            self.only_current_workspace = false;
        }
        let visible = self.visible_indices(workspace_id);
        let ghost all = positions(visible@);
        assert(positions(visible@).len() == visible@.len());
        proof {
            if first@.len() == 0 {
                lemma_all_visible(*self, workspace, self.items@.len());
            }
            assert(first@.len() > 0 ==> *self == less);
        }
        let mut i: usize = 0;
        assert(all.skip(0) =~= all);
        while i < visible.len() - 1 && visible[i] < removed
            invariant
                i < visible@.len(),
                all == positions(visible@),
                Self::from_or_last(all.skip(i as int), removed as int) == Self::from_or_last(
                    all,
                    removed as int,
                ),
            decreases visible.len() - i,
        {
            assert(all.skip(i as int).skip(1) =~= all.skip(i + 1));
            assert(all.skip(i as int)[0] == visible@[i as int]);
            i = i + 1;
        }
        assert(all.skip(i as int)[0] == visible@[i as int]);
        Some(visible[i])
    }
}

fn has_position(list: &Vec<usize>, at: usize) -> (r: bool)
    ensures
        r == positions(list@).contains(at as int),
{
    let mut i: usize = 0;
    while i < list.len()
        invariant
            i <= list@.len(),
            forall|j: int| 0 <= j < i ==> list@[j] != at,
        decreases list.len() - i,
    {
        if list[i] == at {
            assert(positions(list@)[i as int] == at);
            return true;
        }
        i = i + 1;
    }
    assert forall|j: int| 0 <= j < list@.len() implies positions(list@)[j] != at as int by {}
    false
}

proof fn lemma_all_visible(list: LiveInteractions, workspace: Option<Seq<char>>, n: nat)
    requires
        !list.only_current_workspace,
    ensures
        list.visible_among(workspace, n).len() == n,
    decreases n,
{
    if n > 0 {
        lemma_all_visible(list, workspace, (n - 1) as nat);
    }
}

proof fn lemma_first_beckoning(list: LiveInteractions, among: Seq<int>, current: Seq<char>)
    ensures
        match list.first_beckoning(among, current) {
            Some(i) => among.contains(i) && list.beckons(i, current),
            None => forall|k: int|
                0 <= k < among.len() ==> !list.beckons(#[trigger] among[k], current),
        },
    decreases among.len(),
{
    if among.len() > 0 && !list.beckons(among[0], current) {
        let rest = among.skip(1);
        lemma_first_beckoning(list, rest, current);
        match list.first_beckoning(among, current) {
            Some(i) => {
                let k = choose|k: int| 0 <= k < rest.len() && rest[k] == i;
                assert(among[k + 1] == i);
            },
            None => {
                assert forall|k: int| 0 <= k < among.len() implies !list.beckons(
                    #[trigger] among[k],
                    current,
                ) by {
                    if k > 0 {
                        assert(among[k] == rest[k - 1]);
                    }
                }
            },
        }
    } else if among.len() > 0 {
        assert(among.contains(among[0]));
    }
}

/// The jump to work that waits lands on a listed interaction that waits unseen
/// and is not the one on screen. It finds none only where no row but the one it
/// starts from is such an interaction.
pub proof fn law_the_jump_finds_what_waits(
    list: LiveInteractions,
    from: Seq<char>,
    current: Seq<char>,
    workspace: Option<Seq<char>>,
)
    ensures
        match list.beckoning_after(from, current, workspace) {
            Some(i) => list.display(workspace).contains(i) && list.beckons(i, current),
            None => forall|k: int|
                0 <= k < list.display(workspace).len() && k != list.place(
                    list.display(workspace),
                    from,
                ) ==> !list.beckons(#[trigger] list.display(workspace)[k], current),
        },
{
    let shown = list.display(workspace);
    let ring = list.round(shown, from);
    let at = list.place(shown, from);
    lemma_place_is_positive(list, shown, from);
    lemma_first_beckoning(list, ring, current);
    match list.beckoning_after(from, current, workspace) {
        Some(i) => {
            let k = choose|k: int| 0 <= k < ring.len() && ring[k] == i;
            if at < shown.len() {
                if k < shown.len() - at - 1 {
                    assert(shown[at + 1 + k] == i);
                } else {
                    assert(shown[k - (shown.len() - at - 1)] == i);
                }
            } else {
                assert(shown[k] == i);
            }
        },
        None => {
            assert forall|k: int| 0 <= k < shown.len() && k != at implies !list.beckons(
                #[trigger] shown[k],
                current,
            ) by {
                if at >= shown.len() {
                    assert(ring[k] == shown[k]);
                } else if k > at {
                    assert(ring[k - at - 1] == shown[k]);
                } else {
                    assert(ring[shown.len() - at - 1 + k] == shown[k]);
                }
            }
        },
    }
}

proof fn lemma_place_is_positive(list: LiveInteractions, among: Seq<int>, id: Seq<char>)
    ensures
        0 <= list.place(among, id) <= among.len(),
    decreases among.len(),
{
    if among.len() > 0 {
        lemma_place_is_positive(list, among.skip(1), id);
    }
}

/// The interaction the navigator would land on first within a Workspace: of
/// those that can still be talked to, the first as they are ordered.
pub fn first_live_in_workspace(
    interactions: &Vec<InteractionSummary>,
    workspace_id: &str,
) -> (r: Option<usize>)
    ensures
        match r {
            Some(i) => i < interactions@.len() && best_in(interactions@, workspace_id@, i as int),
            None => forall|j: int|
                0 <= j < interactions@.len() ==> !candidate(
                    #[trigger] interactions@[j],
                    workspace_id@,
                ),
        },
{
    let mut best: Option<usize> = None;
    let mut i: usize = 0;
    while i < interactions.len()
        invariant
            i <= interactions@.len(),
            match best {
                Some(b) => b < i && best_in(interactions@.take(i as int), workspace_id@, b as int),
                None => forall|j: int|
                    0 <= j < i ==> !candidate(#[trigger] interactions@[j], workspace_id@),
            },
        decreases interactions.len() - i,
    {
        let ghost now = interactions@.take(i + 1);
        let ghost was = interactions@.take(i as int);
        assert forall|j: int| 0 <= j < i implies now[j] == was[j] by {}
        let fits = interactions[i].accepting && same(
            interactions[i].workspace_id.as_str(),
            workspace_id,
        );
        if fits {
            let better = match best {
                Some(b) => rank(&interactions[i]) < rank(&interactions[b]),
                None => true,
            };
            if better {
                proof {
                    assert(best_in(now, workspace_id@, i as int)) by {
                        assert forall|j: int|
                            0 <= j < now.len() && candidate(
                                #[trigger] now[j],
                                workspace_id@,
                            ) implies standing(now[i as int]) <= standing(now[j]) && (j < i
                            ==> standing(now[i as int]) < standing(now[j])) by {
                            if j < i {
                                assert(was[j] == now[j]);
                                assert(interactions@[j] == now[j]);
                            }
                        }
                    }
                }
                best = Some(i);
            } else {
                proof {
                    let b = best->Some_0 as int;
                    assert(best_in(now, workspace_id@, b)) by {
                        assert forall|j: int|
                            0 <= j < now.len() && candidate(
                                #[trigger] now[j],
                                workspace_id@,
                            ) implies standing(now[b]) <= standing(now[j]) && (j < b
                            ==> standing(now[b]) < standing(now[j])) by {
                            if j < i {
                                assert(was[j] == now[j]);
                            }
                        }
                    }
                }
            }
        } else {
            proof {
                if let Some(b) = best {
                    assert(best_in(now, workspace_id@, b as int)) by {
                        assert forall|j: int|
                            0 <= j < now.len() && candidate(
                                #[trigger] now[j],
                                workspace_id@,
                            ) implies standing(now[b as int]) <= standing(now[j]) && (j < b
                            ==> standing(now[b as int]) < standing(now[j])) by {
                            if j < i {
                                assert(was[j] == now[j]);
                            }
                        }
                    }
                }
            }
        }
        i = i + 1;
    }
    assert(interactions@.take(interactions@.len() as int) =~= interactions@);
    best
}

/// Whether an interaction can be landed on when a Workspace is entered.
pub open spec fn candidate(interaction: InteractionSummary, workspace: Seq<char>) -> bool {
    interaction.accepting && interaction.workspace_id@ == workspace
}

/// Whether the entry at `i` is the first of the candidates as they are ordered.
pub open spec fn best_in(items: Seq<InteractionSummary>, workspace: Seq<char>, i: int) -> bool {
    &&& 0 <= i < items.len()
    &&& candidate(items[i], workspace)
    &&& forall|j: int|
        0 <= j < items.len() && candidate(#[trigger] items[j], workspace) ==> standing(items[i])
            <= standing(items[j]) && (j < i ==> standing(items[i]) < standing(items[j]))
}

// --- Laws --------------------------------------------------------------------

proof fn lemma_visible(list: LiveInteractions, workspace: Option<Seq<char>>, n: nat)
    requires
        n <= list.items@.len(),
    ensures
        forall|k: int|
            0 <= k < list.visible_among(workspace, n).len() ==> 0 <= #[trigger] list.visible_among(
                workspace,
                n,
            )[k] < n,
        forall|a: int, b: int|
            0 <= a < b < list.visible_among(workspace, n).len() ==> #[trigger] list.visible_among(
                workspace,
                n,
            )[a] < #[trigger] list.visible_among(workspace, n)[b],
        forall|i: int|
            0 <= i < n ==> (#[trigger] list.visible_among(workspace, n).contains(i) == list.shows(
                workspace,
                i,
            )),
    decreases n,
{
    if n > 0 {
        lemma_visible(list, workspace, (n - 1) as nat);
        let before = list.visible_among(workspace, (n - 1) as nat);
        let now = list.visible_among(workspace, n);
        assert forall|i: int| 0 <= i < n implies (#[trigger] now.contains(i) == list.shows(
            workspace,
            i,
        )) by {
            if list.shows(workspace, n - 1) {
                assert(now[before.len() as int] == n - 1);
                if i < n - 1 && before.contains(i) {
                    let k = choose|k: int| 0 <= k < before.len() && before[k] == i;
                    assert(now[k] == i);
                }
                if now.contains(i) && i < n - 1 {
                    let k = choose|k: int| 0 <= k < now.len() && now[k] == i;
                    assert(before[k] == i);
                }
            }
            if i == n - 1 && before.contains(i) {
                let k = choose|k: int| 0 <= k < before.len() && before[k] == i;
                assert(0 <= before[k] < n - 1);
            }
        }
    }
}

pub(crate) proof fn lemma_members(list: LiveInteractions, among: Seq<int>, workspace: Seq<char>)
    requires
        among.no_duplicates(),
    ensures
        list.members(among, workspace).no_duplicates(),
        forall|i: int|
            #[trigger] list.members(among, workspace).contains(i) == (among.contains(i)
                && list.items@[i].workspace_id@ == workspace),
    decreases among.len(),
{
    if among.len() > 0 {
        let rest = among.drop_last();
        let last = among.last();
        assert(rest.no_duplicates());
        lemma_members(list, rest, workspace);
        let before = list.members(rest, workspace);
        let now = list.members(among, workspace);
        assert(!rest.contains(last)) by {
            if rest.contains(last) {
                let k = choose|k: int| 0 <= k < rest.len() && rest[k] == last;
                assert(among[k] == among[among.len() - 1]);
            }
        }
        assert forall|i: int| #[trigger] now.contains(i) == (among.contains(i)
            && list.items@[i].workspace_id@ == workspace) by {
            assert(among.contains(i) == (rest.contains(i) || i == last)) by {
                if among.contains(i) {
                    let k = choose|k: int| 0 <= k < among.len() && among[k] == i;
                    if k < rest.len() {
                        assert(rest[k] == i);
                    }
                }
                if rest.contains(i) {
                    let k = choose|k: int| 0 <= k < rest.len() && rest[k] == i;
                    assert(among[k] == i);
                }
                assert(among[among.len() - 1] == last);
            }
            assert(before.contains(i) == (rest.contains(i) && list.items@[i].workspace_id@
                == workspace));
            if list.items@[last].workspace_id@ == workspace {
                assert(now.contains(i) == (before.contains(i) || i == last)) by {
                    if now.contains(i) {
                        let k = choose|k: int| 0 <= k < now.len() && now[k] == i;
                        if k < before.len() {
                            assert(before[k] == i);
                        }
                    }
                    if before.contains(i) {
                        let k = choose|k: int| 0 <= k < before.len() && before[k] == i;
                        assert(now[k] == i);
                    }
                    assert(now[before.len() as int] == last);
                }
            }
        }
        if list.items@[last].workspace_id@ == workspace {
            assert(!before.contains(last));
            assert(now.no_duplicates()) by {
                assert forall|a: int, b: int| 0 <= a < now.len() && 0 <= b < now.len() && a
                    != b implies now[a] != now[b] by {
                    if a == before.len() && now[b] == last {
                        assert(before[b] == last);
                    }
                    if b == before.len() && now[a] == last {
                        assert(before[a] == last);
                    }
                }
            }
        }
    }
}

/// Whether entries of one Workspace stand together.
pub open spec fn together(list: LiveInteractions, shown: Seq<int>) -> bool {
    forall|a: int, b: int, c: int|
        0 <= a <= b <= c < shown.len() && list.items@[#[trigger] shown[a]].workspace_id@
            == list.items@[#[trigger] shown[c]].workspace_id@
            ==> list.items@[#[trigger] shown[b]].workspace_id@ == list.items@[shown[a]].workspace_id@
}

pub(crate) proof fn lemma_grouped(list: LiveInteractions, among: Seq<int>, n: nat)
    requires
        among.no_duplicates(),
        n <= among.len(),
    ensures
        list.grouped(among, n).no_duplicates(),
        together(list, list.grouped(among, n)),
        forall|i: int|
            #[trigger] list.grouped(among, n).contains(i) == (among.contains(i) && exists|k: int|
                0 <= k < n && list.items@[#[trigger] among[k]].workspace_id@
                    == list.items@[i].workspace_id@),
    decreases n,
{
    if n > 0 {
        lemma_grouped(list, among, (n - 1) as nat);
        let before = list.grouped(among, (n - 1) as nat);
        let now = list.grouped(among, n);
        let leader = among[n - 1];
        let ws = list.items@[leader].workspace_id@;
        assert(among.contains(leader));
        if before.contains(leader) {
            assert forall|i: int| #[trigger] now.contains(i) == (among.contains(i) && exists|k: int|
                0 <= k < n && list.items@[#[trigger] among[k]].workspace_id@
                    == list.items@[i].workspace_id@) by {
                assert(before.contains(leader));
                if among.contains(i) && (exists|k: int|
                    0 <= k < n && list.items@[#[trigger] among[k]].workspace_id@
                        == list.items@[i].workspace_id@) {
                    let k = choose|k: int|
                        0 <= k < n && list.items@[#[trigger] among[k]].workspace_id@
                            == list.items@[i].workspace_id@;
                    if k == n - 1 {
                        let m = choose|m: int|
                            0 <= m < n - 1 && list.items@[#[trigger] among[m]].workspace_id@ == ws;
                        assert(list.items@[among[m]].workspace_id@ == list.items@[i].workspace_id@);
                    }
                    assert(before.contains(i));
                }
            }
        } else {
            lemma_members(list, among, ws);
            let group = list.members(among, ws);
            // No entry of this Workspace was placed before.
            assert forall|k: int| 0 <= k < n - 1 implies list.items@[#[trigger] among[k]].workspace_id@
                != ws by {
                if list.items@[among[k]].workspace_id@ == ws {
                    assert(before.contains(leader));
                }
            }
            assert forall|x: int| before.contains(x) implies list.items@[x].workspace_id@ != ws by {
                let k = choose|k: int|
                    0 <= k < n - 1 && list.items@[#[trigger] among[k]].workspace_id@
                        == list.items@[x].workspace_id@;
                assert(list.items@[among[k]].workspace_id@ != ws);
            }
            assert forall|p: int| 0 <= p < before.len() implies list.items@[#[trigger] before[p]].workspace_id@
                != ws by {
                assert(before.contains(before[p]));
            }
            assert forall|p: int| 0 <= p < group.len() implies list.items@[#[trigger] group[p]].workspace_id@
                == ws by {
                assert(group.contains(group[p]));
            }
            assert forall|a: int, b: int| 0 <= a < now.len() && 0 <= b < now.len() && a
                != b implies now[a] != now[b] by {
                if a < before.len() && b >= before.len() {
                    assert(now[a] == before[a] && now[b] == group[b - before.len()]);
                }
                if b < before.len() && a >= before.len() {
                    assert(now[b] == before[b] && now[a] == group[a - before.len()]);
                }
            }
            assert forall|a: int, b: int, c: int|
                0 <= a <= b <= c < now.len() && list.items@[#[trigger] now[a]].workspace_id@
                    == list.items@[#[trigger] now[c]].workspace_id@ implies list.items@[#[trigger] now[b]].workspace_id@
                == list.items@[now[a]].workspace_id@ by {
                if c < before.len() {
                    assert(now[a] == before[a] && now[b] == before[b] && now[c] == before[c]);
                } else {
                    assert(now[c] == group[c - before.len()]);
                    if a < before.len() {
                        assert(now[a] == before[a]);
                    } else {
                        assert(now[a] == group[a - before.len()]);
                        assert(now[b] == group[b - before.len()]);
                    }
                }
            }
            assert forall|i: int| #[trigger] now.contains(i) == (among.contains(i) && exists|k: int|
                0 <= k < n && list.items@[#[trigger] among[k]].workspace_id@
                    == list.items@[i].workspace_id@) by {
                assert(now.contains(i) == (before.contains(i) || group.contains(i))) by {
                    if now.contains(i) {
                        let p = choose|p: int| 0 <= p < now.len() && now[p] == i;
                        if p < before.len() {
                            assert(before[p] == i);
                        } else {
                            assert(group[p - before.len()] == i);
                        }
                    }
                    if before.contains(i) {
                        let p = choose|p: int| 0 <= p < before.len() && before[p] == i;
                        assert(now[p] == i);
                    }
                    if group.contains(i) {
                        let p = choose|p: int| 0 <= p < group.len() && group[p] == i;
                        assert(now[before.len() + p] == i);
                    }
                }
                if group.contains(i) {
                    assert(list.items@[among[n - 1]].workspace_id@ == list.items@[i].workspace_id@);
                }
            }
        }
    }
}

/// What is drawn is every listed entry once, with the entries of one Workspace
/// together.
pub proof fn law_the_display_groups_what_is_listed(
    list: LiveInteractions,
    workspace: Option<Seq<char>>,
)
    ensures
        list.display(workspace).no_duplicates(),
        forall|i: int|
            0 <= i < list.items@.len() ==> (#[trigger] list.display(workspace).contains(i)
                == list.shows(workspace, i)),
        !list.only_current_workspace ==> together(list, list.display(workspace)),
{
    let visible = list.visible(workspace);
    lemma_visible(list, workspace, list.items@.len());
    assert(visible.no_duplicates()) by {
        assert forall|a: int, b: int| 0 <= a < visible.len() && 0 <= b < visible.len() && a
            != b implies visible[a] != visible[b] by {
            if a < b {
                assert(visible[a] < visible[b]);
            } else {
                assert(visible[b] < visible[a]);
            }
        }
    }
    if !list.only_current_workspace {
        lemma_grouped(list, visible, visible.len());
        assert forall|i: int| 0 <= i < list.items@.len() implies (#[trigger] list.display(
            workspace,
        ).contains(i) == list.shows(workspace, i)) by {
            assert(visible.contains(i) == list.shows(workspace, i));
            if visible.contains(i) {
                let k = choose|k: int| 0 <= k < visible.len() && visible[k] == i;
                assert(list.items@[visible[k]].workspace_id@ == list.items@[i].workspace_id@);
            }
        }
    }
}

/// A cursor that moves onto what is on screen has nothing to load.
pub proof fn law_returning_to_the_screen_cancels_the_move(
    list: LiveInteractions,
    to: int,
    current: Seq<char>,
    now: u64,
    later: u64,
)
    requires
        list.items@[to].id@ == current,
    ensures
        list.moved_to(Some(to), current, now).awaited(current) is None,
        !list.moved_to(Some(to), current, now).settled(later),
{
}

/// An entry the cursor moved to is loaded no sooner than the cursor has rested
/// on it.
pub proof fn law_a_moving_cursor_loads_nothing(
    list: LiveInteractions,
    to: int,
    current: Seq<char>,
    now: u64,
    later: u64,
)
    requires
        now <= later < now + LOAD_SETTLE_MS,
    ensures
        !list.moved_to(Some(to), current, now).settled(later),
{
}

} // verus!
