//! The navigator of live interactions: what it lists, and where its cursor goes.

use vstd::prelude::*;

use crate::interactions::{
    best_in, candidate, first_with_id, lemma_grouped, lemma_members, listed, standing, waits,
    LiveInteractions, LOAD_SETTLE_MS,
};
use crate::protocol::{InteractionActivity, InteractionSummary};

verus! {

/// An interaction that waits for the operator stands before one that works, and that
/// before one that is stopped. Only one that takes messages and does nothing waits.
pub proof fn law_what_waits_stands_first(a: InteractionSummary, b: InteractionSummary)
    ensures
        waits(a) == (a.accepting && a.activity == InteractionActivity::Pending),
        waits(a) && !waits(b) ==> standing(a) < standing(b),
        a.accepting && !b.accepting ==> standing(a) < standing(b),
        a.accepting == b.accepting && a.activity == b.activity ==> standing(a) == standing(b),
        !a.accepting && !b.accepting ==> standing(a) == standing(b),
        a.accepting && b.accepting && !waits(a) && !waits(b) ==> standing(a) == standing(b),
{
}

/// An id is listed exactly where an entry has it, and it is found at the first that
/// does.
pub proof fn law_an_entry_is_found_by_its_id(
    items: Seq<InteractionSummary>,
    id: Seq<char>,
    i: int,
)
    ensures
        0 <= i < items.len() && items[i].id@ == id && (forall|j: int|
            0 <= j < i ==> (#[trigger] items[j]).id@ != id) ==> first_with_id(items, id) == i
            && listed(items, id),
        (forall|j: int| 0 <= j < items.len() ==> (#[trigger] items[j]).id@ != id) ==> !listed(
            items,
            id,
        ),
{
    if 0 <= i < items.len() && items[i].id@ == id && (forall|j: int|
        0 <= j < i ==> (#[trigger] items[j]).id@ != id) {
        lemma_first_id(items, id, i);
    }
    if forall|j: int| 0 <= j < items.len() ==> (#[trigger] items[j]).id@ != id {
        lemma_no_id(items, id);
    }
}

proof fn lemma_first_id(items: Seq<InteractionSummary>, id: Seq<char>, i: int)
    requires
        0 <= i < items.len(),
        items[i].id@ == id,
        forall|j: int| 0 <= j < i ==> (#[trigger] items[j]).id@ != id,
    ensures
        first_with_id(items, id) == i,
    decreases items.len(),
{
    if i > 0 {
        let rest = items.skip(1);
        assert(items[0].id@ != id);
        assert forall|j: int| 0 <= j < i - 1 implies (#[trigger] rest[j]).id@ != id by {
            assert(items[j + 1].id@ != id);
        }
        lemma_first_id(rest, id, i - 1);
    }
}

proof fn lemma_no_id(items: Seq<InteractionSummary>, id: Seq<char>)
    requires
        forall|j: int| 0 <= j < items.len() ==> (#[trigger] items[j]).id@ != id,
    ensures
        first_with_id(items, id) == items.len(),
    decreases items.len(),
{
    if items.len() > 0 {
        let rest = items.skip(1);
        assert forall|j: int| 0 <= j < rest.len() implies (#[trigger] rest[j]).id@ != id by {
            assert(items[j + 1].id@ != id);
        }
        lemma_no_id(rest, id);
    }
}

/// One Workspace alone, or all of them.
pub proof fn law_which_entries_are_listed(
    list: LiveInteractions,
    workspace: Option<Seq<char>>,
    i: int,
)
    ensures
        !list.only_current_workspace ==> list.shows(workspace, i),
        list.only_current_workspace && workspace is None ==> !list.shows(workspace, i),
        list.only_current_workspace ==> (workspace matches Some(id) ==> list.shows(workspace, i) == (
        list.items@[i].workspace_id@ == id)),
{
}

/// Whether a list of entries is in the order of the items.
pub open spec fn rising(among: Seq<int>) -> bool {
    forall|a: int, b: int| 0 <= a < b < among.len() ==> #[trigger] among[a] < #[trigger] among[b]
}

pub(crate) proof fn lemma_visible_rises(list: LiveInteractions, workspace: Option<Seq<char>>, n: nat)
    ensures
        rising(list.visible_among(workspace, n)),
        forall|k: int|
            0 <= k < list.visible_among(workspace, n).len() ==> 0 <= #[trigger] list.visible_among(
                workspace,
                n,
            )[k] < n && list.shows(workspace, list.visible_among(workspace, n)[k]),
        forall|i: int|
            0 <= i < n && #[trigger] list.shows(workspace, i) ==> list.visible_among(
                workspace,
                n,
            ).contains(i),
    decreases n,
{
    if n > 0 {
        let before = list.visible_among(workspace, (n - 1) as nat);
        let now = list.visible_among(workspace, n);
        lemma_visible_rises(list, workspace, (n - 1) as nat);
        assert forall|i: int| 0 <= i < n && #[trigger] list.shows(workspace, i) implies now.contains(
            i,
        ) by {
            if i < n - 1 {
                assert(before.contains(i));
                let k = choose|k: int| 0 <= k < before.len() && before[k] == i;
                assert(now[k] == i);
            } else {
                assert(now[before.len() as int] == i);
            }
        }
    }
}

proof fn lemma_members_rise(list: LiveInteractions, among: Seq<int>, workspace: Seq<char>)
    requires
        rising(among),
    ensures
        rising(list.members(among, workspace)),
        forall|k: int|
            0 <= k < list.members(among, workspace).len() ==> among.contains(
                #[trigger] list.members(among, workspace)[k],
            ) && list.items@[list.members(among, workspace)[k]].workspace_id@ == workspace,
    decreases among.len(),
{
    if among.len() > 0 {
        let rest = among.drop_last();
        assert forall|a: int, b: int| 0 <= a < b < rest.len() implies #[trigger] rest[a]
            < #[trigger] rest[b] by {
            assert(among[a] < among[b]);
        }
        lemma_members_rise(list, rest, workspace);
        let before = list.members(rest, workspace);
        let now = list.members(among, workspace);
        assert forall|k: int| 0 <= k < now.len() implies among.contains(#[trigger] now[k])
            && list.items@[now[k]].workspace_id@ == workspace by {
            if k < before.len() {
                assert(rest.contains(before[k]));
                let m = choose|m: int| 0 <= m < rest.len() && rest[m] == before[k];
                assert(among[m] == now[k]);
            } else {
                assert(among[among.len() - 1] == now[k]);
            }
        }
        assert forall|a: int, b: int| 0 <= a < b < now.len() implies #[trigger] now[a]
            < #[trigger] now[b] by {
            if b >= before.len() {
                assert(rest.contains(before[a]));
                let m = choose|m: int| 0 <= m < rest.len() && rest[m] == before[a];
                assert(among[m] < among[among.len() - 1]);
            }
        }
    }
}

/// Whether entries of one Workspace stand in the order of the items.
pub open spec fn rises_within(list: LiveInteractions, shown: Seq<int>) -> bool {
    forall|a: int, b: int|
        0 <= a < b < shown.len() && list.items@[#[trigger] shown[a]].workspace_id@
            == list.items@[#[trigger] shown[b]].workspace_id@ ==> shown[a] < shown[b]
}

proof fn lemma_groups_rise(list: LiveInteractions, among: Seq<int>, n: nat)
    requires
        rising(among),
        n <= among.len(),
    ensures
        rises_within(list, list.grouped(among, n)),
        n > 0 ==> list.grouped(among, n).len() > 0 && list.grouped(among, n)[0] == among[0],
    decreases n,
{
    if n > 0 {
        let before = list.grouped(among, (n - 1) as nat);
        let now = list.grouped(among, n);
        let leader = among[n - 1];
        let ws = list.items@[leader].workspace_id@;
        lemma_groups_rise(list, among, (n - 1) as nat);
        assert(among.no_duplicates()) by {
            assert forall|a: int, b: int|
                0 <= a < among.len() && 0 <= b < among.len() && a != b implies among[a]
                != among[b] by {
                if a < b {
                    assert(among[a] < among[b]);
                } else {
                    assert(among[b] < among[a]);
                }
            }
        }
        if !before.contains(leader) {
            let group = list.members(among, ws);
            lemma_members_rise(list, among, ws);
            lemma_members(list, among, ws);
            lemma_grouped(list, among, (n - 1) as nat);
            assert(among.contains(leader));
            assert(group.contains(leader));
            assert forall|x: int| before.contains(x) implies list.items@[x].workspace_id@ != ws by {
                let k = choose|k: int|
                    0 <= k < n - 1 && list.items@[#[trigger] among[k]].workspace_id@
                        == list.items@[x].workspace_id@;
                if list.items@[among[k]].workspace_id@ == ws {
                    assert(before.contains(leader));
                }
            }
            assert forall|a: int, b: int|
                0 <= a < b < now.len() && list.items@[#[trigger] now[a]].workspace_id@
                    == list.items@[#[trigger] now[b]].workspace_id@ implies now[a] < now[b] by {
                if b < before.len() {
                    assert(now[a] == before[a] && now[b] == before[b]);
                } else {
                    assert(now[b] == group[b - before.len()]);
                    if a < before.len() {
                        assert(before.contains(before[a]));
                    } else {
                        assert(now[a] == group[a - before.len()]);
                    }
                }
            }
            if n == 1 {
                assert(before.len() == 0);
                let p = choose|p: int| 0 <= p < group.len() && group[p] == leader;
                if p > 0 {
                    assert(group[0] < group[p]);
                    assert(among.contains(group[0]));
                    let m = choose|m: int| 0 <= m < among.len() && among[m] == group[0];
                    if m > 0 {
                        assert(among[0] < among[m]);
                    }
                }
            } else {
                assert(now[0] == before[0]);
            }
        } else if n == 1 {
            assert(before.len() == 0);
        }
    }
}

/// The list is drawn from the first listed entry on, and the entries of one Workspace
/// in the order of the items.
pub proof fn law_the_list_is_drawn_in_order(list: LiveInteractions, workspace: Option<Seq<char>>)
    ensures
        rises_within(list, list.display(workspace)),
        list.only_current_workspace ==> rising(list.display(workspace)),
        list.visible(workspace).len() > 0 ==> list.display(workspace).len() > 0 && list.display(
            workspace,
        )[0] == list.visible(workspace)[0],
        rising(list.visible(workspace)),
        forall|i: int|
            0 <= i < list.items@.len() && #[trigger] list.shows(workspace, i) ==> list.visible(
                workspace,
            ).contains(i),
{
    lemma_visible_rises(list, workspace, list.items@.len());
    let visible = list.visible(workspace);
    lemma_groups_rise(list, visible, visible.len());
}

proof fn lemma_place(list: LiveInteractions, among: Seq<int>, id: Seq<char>, at: int)
    requires
        0 <= at < among.len(),
        list.items@[among[at]].id@ == id,
        forall|j: int| 0 <= j < at ==> list.items@[#[trigger] among[j]].id@ != id,
    ensures
        list.place(among, id) == at,
    decreases among.len(),
{
    if at > 0 {
        let rest = among.skip(1);
        assert(list.items@[among[0]].id@ != id);
        assert forall|j: int| 0 <= j < at - 1 implies list.items@[#[trigger] rest[j]].id@ != id by {
            assert(list.items@[among[j + 1]].id@ != id);
        }
        lemma_place(list, rest, id, at - 1);
    }
}

proof fn lemma_no_place(list: LiveInteractions, among: Seq<int>, id: Seq<char>)
    requires
        forall|j: int| 0 <= j < among.len() ==> list.items@[#[trigger] among[j]].id@ != id,
    ensures
        list.place(among, id) == among.len(),
    decreases among.len(),
{
    if among.len() > 0 {
        let rest = among.skip(1);
        assert forall|j: int| 0 <= j < rest.len() implies list.items@[#[trigger] rest[j]].id@ != id by {
            assert(list.items@[among[j + 1]].id@ != id);
        }
        lemma_no_place(list, rest, id);
    }
}

/// The cursor moves to the row drawn right behind or right before the one it is on,
/// stops at both ends, and starts at the first row where its own is not drawn.
pub proof fn law_the_cursor_moves_by_one_row(
    list: LiveInteractions,
    current: Seq<char>,
    workspace: Option<Seq<char>>,
    at: int,
)
    requires
        list.display(workspace).len() > 0,
    ensures
        ({
            let shown = list.display(workspace);
            &&& 0 <= at < shown.len() && list.items@[shown[at]].id@ == current && (forall|j: int|
                0 <= j < at ==> list.items@[#[trigger] shown[j]].id@ != current) ==> {
                &&& at + 1 < shown.len() ==> list.after(current, workspace) == Some(shown[at + 1])
                &&& at + 1 == shown.len() ==> list.after(current, workspace) == Some(shown[at])
                &&& at > 0 ==> list.before(current, workspace) == Some(shown[at - 1])
                &&& at == 0 ==> list.before(current, workspace) == Some(shown[0])
            }
            &&& (forall|j: int|
                0 <= j < shown.len() ==> list.items@[#[trigger] shown[j]].id@ != current)
                ==> list.after(current, workspace) == Some(shown[0]) && list.before(
                current,
                workspace,
            ) == Some(shown[0])
        }),
{
    let shown = list.display(workspace);
    if 0 <= at < shown.len() && list.items@[shown[at]].id@ == current && (forall|j: int|
        0 <= j < at ==> list.items@[#[trigger] shown[j]].id@ != current) {
        lemma_place(list, shown, current, at);
    }
    if forall|j: int| 0 <= j < shown.len() ==> list.items@[#[trigger] shown[j]].id@ != current {
        lemma_no_place(list, shown, current);
    }
}

/// Whether a row is the first of its Workspace as drawn.
pub open spec fn heads(list: LiveInteractions, shown: Seq<int>, k: int) -> bool {
    k == 0 || list.items@[shown[k]].workspace_id@ != list.items@[shown[k - 1]].workspace_id@
}

/// Whether `leaders` are the rows at these places.
pub open spec fn leads_from(
    list: LiveInteractions,
    shown: Seq<int>,
    n: nat,
    leaders: Seq<int>,
    at: Seq<int>,
) -> bool {
    &&& at.len() == leaders.len()
    &&& forall|i: int, j: int| 0 <= i < j < at.len() ==> #[trigger] at[i] < #[trigger] at[j]
    &&& forall|i: int|
        0 <= i < at.len() ==> 0 <= #[trigger] at[i] < n && leaders[i] == shown[at[i]] && heads(
            list,
            shown,
            at[i],
        )
    &&& forall|k: int| 0 <= k < n && #[trigger] heads(list, shown, k) ==> at.contains(k)
}

proof fn lemma_leaders(list: LiveInteractions, shown: Seq<int>, n: nat)
    requires
        n <= shown.len(),
    ensures
        exists|at: Seq<int>| #[trigger]
            leads_from(list, shown, n, list.leaders_among(shown, n), at),
        n > 0 ==> list.leaders_among(shown, n).len() > 0 && list.items@[list.leaders_among(
            shown,
            n,
        ).last()].workspace_id@ == list.items@[shown[n - 1]].workspace_id@,
    decreases n,
{
    if n == 0 {
        assert(leads_from(list, shown, 0, list.leaders_among(shown, 0), Seq::<int>::empty()));
    } else {
        lemma_leaders(list, shown, (n - 1) as nat);
        let before = list.leaders_among(shown, (n - 1) as nat);
        let now = list.leaders_among(shown, n);
        let at = choose|at: Seq<int>|
            #[trigger] leads_from(list, shown, (n - 1) as nat, before, at);
        if now.len() == before.len() {
            assert(!heads(list, shown, n - 1));
            assert forall|k: int| 0 <= k < n && #[trigger] heads(list, shown, k) implies at.contains(
                k,
            ) by {
                assert(k < n - 1);
            }
            assert(leads_from(list, shown, n, now, at));
        } else {
            let more = at.push(n - 1);
            assert(heads(list, shown, n - 1));
            assert forall|k: int| 0 <= k < n && #[trigger] heads(list, shown, k) implies more.contains(
                k,
            ) by {
                if k < n - 1 {
                    assert(at.contains(k));
                    let m = choose|m: int| 0 <= m < at.len() && at[m] == k;
                    assert(more[m] == k);
                } else {
                    assert(more[at.len() as int] == k);
                }
            }
            assert(leads_from(list, shown, n, now, more));
        }
    }
}

/// The skips between Workspaces land on the first row of each, all of them and in the
/// order drawn. Where one Workspace alone is listed there is nowhere to skip to.
pub proof fn law_skips_land_on_first_rows(list: LiveInteractions, workspace: Option<Seq<char>>)
    ensures
        list.only_current_workspace ==> list.leaders(workspace).len() == 0,
        !list.only_current_workspace ==> exists|at: Seq<int>| #[trigger]
            leads_from(
                list,
                list.display(workspace),
                list.display(workspace).len(),
                list.leaders(workspace),
                at,
            ),
{
    let shown = list.display(workspace);
    lemma_leaders(list, shown, shown.len());
    if !list.only_current_workspace {
        let at = choose|at: Seq<int>| #[trigger]
            leads_from(list, shown, shown.len(), list.leaders_among(shown, shown.len()), at);
        assert(leads_from(list, shown, shown.len(), list.leaders(workspace), at));
    }
}

/// A skip forward goes to the first row of the next Workspace. A skip backward goes to
/// the first row of the cursor's own, and from there to that of the one before.
pub proof fn law_skips_go_by_one_workspace(
    list: LiveInteractions,
    current: Seq<char>,
    workspace: Option<Seq<char>>,
    i: int,
    at: int,
)
    requires
        0 <= i < list.items@.len(),
        list.items@[i].id@ == current,
        forall|j: int| 0 <= j < i ==> (#[trigger] list.items@[j]).id@ != current,
        0 <= at < list.leaders(workspace).len(),
        list.items@[list.leaders(workspace)[at]].workspace_id@ == list.items@[i].workspace_id@,
        forall|j: int|
            0 <= j < at ==> list.items@[#[trigger] list.leaders(workspace)[j]].workspace_id@
                != list.items@[i].workspace_id@,
    ensures
        ({
            let leaders = list.leaders(workspace);
            &&& at + 1 < leaders.len() ==> list.after_group(current, workspace) == Some(
                leaders[at + 1],
            )
            &&& at + 1 == leaders.len() ==> list.after_group(current, workspace) is None
            &&& list.items@[leaders[at]].id@ != current ==> list.before_group(current, workspace)
                == Some(leaders[at])
            &&& list.items@[leaders[at]].id@ == current && at > 0 ==> list.before_group(
                current,
                workspace,
            ) == Some(leaders[at - 1])
            &&& list.items@[leaders[at]].id@ == current && at == 0 ==> list.before_group(
                current,
                workspace,
            ) is None
        }),
{
    lemma_first_id(list.items@, current, i);
    lemma_leader_place(list, list.leaders(workspace), list.items@[i].workspace_id@, at);
}

proof fn lemma_leader_place(list: LiveInteractions, leaders: Seq<int>, ws: Seq<char>, at: int)
    requires
        0 <= at < leaders.len(),
        list.items@[leaders[at]].workspace_id@ == ws,
        forall|j: int| 0 <= j < at ==> list.items@[#[trigger] leaders[j]].workspace_id@ != ws,
    ensures
        list.leader_place(leaders, ws) == at,
    decreases leaders.len(),
{
    if at > 0 {
        let rest = leaders.skip(1);
        assert(list.items@[leaders[0]].workspace_id@ != ws);
        assert forall|j: int| 0 <= j < at - 1 implies list.items@[#[trigger] rest[j]].workspace_id@
            != ws by {
            assert(list.items@[leaders[j + 1]].workspace_id@ != ws);
        }
        lemma_leader_place(list, rest, ws, at - 1);
    }
}

/// A move puts the cursor on its entry and starts its rest anew. An entry on screen
/// needs no cursor.
pub proof fn law_a_move_puts_the_cursor(list: LiveInteractions, i: int, current: Seq<char>, now: u64)
    ensures
        list.items@[i].id@ != current ==> {
            let moved = list.moved_to(Some(i), current, now);
            &&& moved.cursor_id(current) == list.items@[i].id@
            &&& moved.settle_from == Some(now)
            &&& moved == (LiveInteractions {
                cursor: moved.cursor,
                settle_from: moved.settle_from,
                ..list
            })
        },
        list.items@[i].id@ == current ==> list.moved_to(Some(i), current, now).cursor_id(current)
            == current && list.moved_to(Some(i), current, now).settle_from is None,
        list.moved_to(None, current, now) == list,
        list.cursor is None ==> list.cursor_id(current) == current,
        list.rested().cursor is None && list.rested().settle_from is None && list.rested().items
            == list.items,
{
}

/// The entry under a cursor that has rested long enough is the one to load, and it is
/// loaded exactly then.
pub proof fn law_a_rested_cursor_is_loaded(
    list: LiveInteractions,
    i: int,
    current: Seq<char>,
    since: u64,
    now: u64,
)
    requires
        0 <= i < list.items@.len(),
        list.items@[i].id@ != current,
        forall|j: int| 0 <= j < i ==> (#[trigger] list.items@[j]).id@ != list.items@[i].id@,
    ensures
        ({
            let moved = list.moved_to(Some(i), current, since);
            &&& moved.awaited(current) == Some(list.items@[i])
            &&& since + LOAD_SETTLE_MS <= now ==> moved.settled(now)
            &&& now < since + LOAD_SETTLE_MS ==> !moved.settled(now)
        }),
        LOAD_SETTLE_MS > 0,
        list.rested().awaited(current) is None,
{
    lemma_first_id(list.items@, list.items@[i].id@, i);
}

/// Unseen work is counted entry by entry: those that wait and were not looked at since,
/// and no others.
pub proof fn law_unseen_work_is_counted(list: LiveInteractions, n: nat)
    requires
        n < list.items@.len(),
    ensures
        list.unseen_among(0) == 0,
        list.items@[n as int].accepting && list.items@[n as int].activity
            == InteractionActivity::Pending && list.items@[n as int].idle_unseen
            ==> list.unseen_among(n + 1) == list.unseen_among(n) + 1,
        !(list.items@[n as int].accepting && list.items@[n as int].activity
            == InteractionActivity::Pending && list.items@[n as int].idle_unseen)
            ==> list.unseen_among(n + 1) == list.unseen_among(n),
{
}

/// What beckons is another interaction than the one on screen that waits unseen. The
/// jump goes to the nearest one behind, round the end of the list.
pub proof fn law_the_jump_goes_to_the_nearest(
    list: LiveInteractions,
    among: Seq<int>,
    from: Seq<char>,
    current: Seq<char>,
    at: int,
    k: int,
)
    requires
        0 <= at < among.len(),
        list.items@[among[at]].id@ == from,
        forall|j: int| 0 <= j < at ==> list.items@[#[trigger] among[j]].id@ != from,
        at < k < among.len(),
        list.beckons(among[k], current),
        forall|j: int| at < j < k ==> !list.beckons(#[trigger] among[j], current),
    ensures
        list.first_beckoning(list.round(among, from), current) == Some(among[k]),
        list.items@[among[k]].id@ != current,
        waits(list.items@[among[k]]),
        list.items@[among[k]].idle_unseen,
{
    lemma_place(list, among, from, at);
    let ring = list.round(among, from);
    assert(ring[k - at - 1] == among[k]);
    assert forall|j: int| 0 <= j < k - at - 1 implies !list.beckons(#[trigger] ring[j], current) by {
        assert(ring[j] == among[at + 1 + j]);
    }
    lemma_first_beckons(list, ring, current, k - at - 1);
}

/// Where nothing behind the cursor's row beckons, the jump goes on from the top of the
/// list.
pub proof fn law_the_jump_goes_round(
    list: LiveInteractions,
    among: Seq<int>,
    from: Seq<char>,
    current: Seq<char>,
    at: int,
    k: int,
)
    requires
        0 <= at < among.len(),
        list.items@[among[at]].id@ == from,
        forall|j: int| 0 <= j < at ==> list.items@[#[trigger] among[j]].id@ != from,
        forall|j: int| at < j < among.len() ==> !list.beckons(#[trigger] among[j], current),
        0 <= k < at,
        list.beckons(among[k], current),
        forall|j: int| 0 <= j < k ==> !list.beckons(#[trigger] among[j], current),
    ensures
        list.first_beckoning(list.round(among, from), current) == Some(among[k]),
{
    lemma_place(list, among, from, at);
    let ring = list.round(among, from);
    let behind = among.len() - at - 1;
    assert(ring[behind + k] == among[k]);
    assert forall|j: int| 0 <= j < behind + k implies !list.beckons(#[trigger] ring[j], current) by {
        if j < behind {
            assert(ring[j] == among[at + 1 + j]);
        } else {
            assert(ring[j] == among[j - behind]);
        }
    }
    lemma_first_beckons(list, ring, current, behind + k);
}

proof fn lemma_first_beckons(list: LiveInteractions, among: Seq<int>, current: Seq<char>, k: int)
    requires
        0 <= k < among.len(),
        list.beckons(among[k], current),
        forall|j: int| 0 <= j < k ==> !list.beckons(#[trigger] among[j], current),
    ensures
        list.first_beckoning(among, current) == Some(among[k]),
    decreases among.len(),
{
    if k > 0 {
        let rest = among.skip(1);
        assert(!list.beckons(among[0], current));
        assert forall|j: int| 0 <= j < k - 1 implies !list.beckons(#[trigger] rest[j], current) by {
            assert(!list.beckons(among[j + 1], current));
        }
        lemma_first_beckons(list, rest, current, k - 1);
    }
}

/// The entry that takes a removed one's place is the next that is listed, and the last
/// where there is none behind.
pub proof fn law_the_next_entry_takes_the_place(among: Seq<int>, from: int, k: int)
    requires
        0 <= k < among.len(),
        forall|j: int| 0 <= j < k ==> (#[trigger] among[j]) < from,
    ensures
        among[k] >= from ==> LiveInteractions::from_or_last(among, from) == among[k],
        k == among.len() - 1 ==> LiveInteractions::from_or_last(among, from) == among[k],
    decreases among.len(),
{
    if k > 0 {
        let rest = among.skip(1);
        assert(among[0] < from);
        assert forall|j: int| 0 <= j < k - 1 implies (#[trigger] rest[j]) < from by {
            assert(among[j + 1] < from);
        }
        law_the_next_entry_takes_the_place(rest, from, k - 1);
    }
}

/// A Workspace is entered at an interaction of its own that takes messages.
pub proof fn law_where_a_workspace_is_entered(interaction: InteractionSummary, workspace: Seq<char>)
    ensures
        candidate(interaction, workspace) == (interaction.accepting && interaction.workspace_id@
            == workspace),
{
}

/// A list that is taken over drops the cursor only where its entry is gone.
pub proof fn law_a_refresh_keeps_the_cursor(
    before: LiveInteractions,
    items: Seq<InteractionSummary>,
    after: LiveInteractions,
)
    requires
        before.refreshed(items, after),
    ensures
        before.cursor matches Some(id) ==> (listed(after.items@, id@) ==> after.cursor
            == before.cursor && after.settle_from == before.settle_from),
        before.cursor matches Some(id) ==> (!listed(after.items@, id@) ==> after.cursor is None),
        before.cursor is None ==> after.cursor is None,
        after.open == before.open && after.workspaces == before.workspaces
            && after.only_current_workspace == before.only_current_workspace,
        after.items@.len() == items.len(),
{
    crate::laws::order::law_sorting_keeps_and_orders(
        crate::interactions::ranked(items),
        crate::interactions::ranked(after.items@),
    );
}

/// Of the interactions that a Workspace can be entered at, the one that stands first is
/// taken: none stands before it, and none of its standing comes earlier.
pub proof fn law_which_interaction_is_entered(
    items: Seq<InteractionSummary>,
    workspace: Seq<char>,
    i: int,
    j: int,
)
    requires
        best_in(items, workspace, i),
        0 <= j < items.len(),
        items[j].accepting,
        items[j].workspace_id@ == workspace,
    ensures
        items[i].accepting,
        items[i].workspace_id@ == workspace,
        items[j].activity == InteractionActivity::Pending ==> items[i].activity
            == InteractionActivity::Pending,
        items[j].activity == items[i].activity ==> i <= j,
{
    assert(candidate(items[j], workspace));
}

} // verus!
