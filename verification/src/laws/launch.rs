//! What a launch runs under, and how the operator's edits change it.

use vstd::prelude::*;

use crate::activity::Status;
use crate::app::{App, Request};
use crate::launch::{
    can_edit, fresh, history_added, merged, mount_removed, network_cycled, permits_network, prompt_confirmed, promoted,
    standalone_toggled, templates_set, templates_set_for, within, Launch, LaunchScope,
};
use crate::laws::text::{law_a_text_starts_with_its_prefix, law_cutting_at_a_mark};
use crate::mount::{
    carried, destination_of, first_pointer, history_mounts, innermost, mount_asked, mount_label,
    reach, seen_through, source_of, Visible,
};
use crate::path::{
    below, lemma_behind, lemma_ended, lemma_names_of_both, lemma_no_names, names_in, rooted,
    same_place, under,
};
use crate::protocol::{
    grants, mount_views, no_policy, LaunchMount, LaunchMountView, LaunchPolicy, Mount, MountAccess,
    PolicyView, WorkspaceLaunchChange,
};
use crate::text::{holds, split_at_each, starts, trimmed, views};

verus! {

// --- Policies ----------------------------------------------------------------

/// Two layers are in effect together: everything the lower one grants, then
/// everything the upper one does, nothing dropped and nothing made up. The upper
/// layer's word on the network counts where it has one. An upper layer that stands
/// alone is in effect alone, whatever is under it.
pub proof fn law_layers_add_up(base: PolicyView, over: PolicyView, other: PolicyView)
    ensures
        over.standalone ==> {
            &&& merged(base, over) == merged(other, over)
            &&& merged(base, over).network == over.network
            &&& merged(base, over).templates == over.templates
            &&& merged(base, over).mounts == over.mounts
        },
        !over.standalone ==> {
            let both = merged(base, over);
            &&& both.mounts.len() == base.mounts.len() + over.mounts.len()
            &&& forall|i: int| 0 <= i < base.mounts.len() ==> #[trigger] both.mounts[i] == base.mounts[i]
            &&& forall|i: int|
                0 <= i < over.mounts.len() ==> both.mounts[base.mounts.len() + i]
                    == #[trigger] over.mounts[i]
            &&& both.templates.len() == base.templates.len() + over.templates.len()
            &&& forall|i: int|
                0 <= i < base.templates.len() ==> #[trigger] both.templates[i] == base.templates[i]
            &&& forall|i: int|
                0 <= i < over.templates.len() ==> both.templates[base.templates.len() + i]
                    == #[trigger] over.templates[i]
            &&& over.network is Some ==> both.network == over.network
            &&& over.network is None ==> both.network == base.network
        },
        !merged(base, over).standalone,
{
}

/// The network is permitted only where a policy says so.
pub proof fn law_silence_permits_no_network(policy: PolicyView)
    ensures
        permits_network(policy) == (policy.network == Some(true)),
        !permits_network(no_policy()),
        policy.network is None ==> !permits_network(policy),
        policy.network == Some(false) ==> !permits_network(policy),
{
}

/// The policy that asks for nothing asks for nothing.
pub proof fn law_no_policy_asks_for_nothing()
    ensures
        no_policy().mounts.len() == 0,
        no_policy().templates.len() == 0,
        no_policy().network is None,
        !no_policy().standalone,
{
}

/// Two mounts ask for the same thing exactly where they carry the same place to the
/// same place on the same terms.
pub proof fn law_mounts_are_told_apart(a: LaunchMountView, b: LaunchMountView)
    ensures
        a.same_as(a),
        a.same_as(b) == b.same_as(a),
        a.same_as(b) ==> a.writable == b.writable && same_place(a.source, b.source) && (
        a.destination is Some) == (b.destination is Some),
        a.writable != b.writable ==> !a.same_as(b),
        !same_place(a.source, b.source) ==> !a.same_as(b),
        a.destination matches Some(x) ==> (b.destination matches Some(y) ==> (!same_place(x, y)
            ==> !a.same_as(b))),
        a.writable == b.writable && a.source == b.source && a.destination == b.destination
            ==> a.same_as(b),
{
}

/// A list of mounts grants what stands in it, and nothing that asks for anything else.
pub proof fn law_a_list_grants_what_it_holds(mounts: Seq<LaunchMountView>, i: int, mount: LaunchMountView)
    requires
        0 <= i < mounts.len(),
    ensures
        grants(mounts, mounts[i]),
        grants(mounts, mount) ==> exists|k: int|
            0 <= k < mounts.len() && (#[trigger] mounts[k]).same_as(mount),
        !grants(Seq::empty(), mount),
{
    law_mounts_are_told_apart(mounts[i], mounts[i]);
}

// --- Edits of the layers -----------------------------------------------------

/// Whether only the edited layer's mounts and the cursor in them may differ.
pub open spec fn only_mounts_differ(before: Launch, after: Launch, scope: LaunchScope) -> bool {
    match scope {
        LaunchScope::Workspace => after == (Launch {
            workspace: LaunchPolicy { mounts: after.workspace.mounts, ..before.workspace },
            selected: (after.selected.0, before.selected.1),
            ..before
        }),
        LaunchScope::Interaction => after == (Launch {
            interaction: LaunchPolicy { mounts: after.interaction.mounts, ..before.interaction },
            selected: (before.selected.0, after.selected.1),
            ..before
        }),
    }
}

/// The mounts of a layer.
pub open spec fn mounts_of(launch: Launch, scope: LaunchScope) -> Seq<LaunchMount> {
    match scope {
        LaunchScope::Workspace => launch.workspace.mounts@,
        LaunchScope::Interaction => launch.interaction.mounts@,
    }
}

/// Where the cursor of a layer is.
pub open spec fn cursor_of(launch: Launch, scope: LaunchScope) -> usize {
    match scope {
        LaunchScope::Workspace => launch.selected.0,
        LaunchScope::Interaction => launch.selected.1,
    }
}

/// Whether a mount is granted already where it would be added to a layer.
pub open spec fn is_granted(launch: Launch, scope: LaunchScope, mount: LaunchMountView) -> bool {
    match scope {
        LaunchScope::Workspace => grants(mount_views(launch.workspace.mounts@), mount),
        LaunchScope::Interaction => grants(mount_views(launch.interaction.mounts@), mount) || (
        !launch.interaction.standalone && grants(mount_views(launch.workspace.mounts@), mount)),
    }
}

/// A mount that is added is the last of its layer, under the cursor, and nothing else
/// changes. It is refused exactly where it is granted already, and then nothing
/// changes at all.
pub proof fn law_an_added_mount_is_the_last(
    before: Launch,
    scope: LaunchScope,
    mount: LaunchMount,
    after: Launch,
    refused: Option<Seq<char>>,
)
    requires
        before.adds(scope, mount, after, refused),
    ensures
        (refused is Some) == is_granted(before, scope, mount@),
        refused is Some ==> after == before,
        refused is None ==> {
            &&& mounts_of(after, scope).len() == mounts_of(before, scope).len() + 1
            &&& mounts_of(after, scope).last() == mount
            &&& forall|i: int|
                0 <= i < mounts_of(before, scope).len() ==> #[trigger] mounts_of(after, scope)[i]
                    == mounts_of(before, scope)[i]
            &&& mounts_of(before, scope).len() <= usize::MAX ==> cursor_of(after, scope)
                == mounts_of(before, scope).len()
            &&& only_mounts_differ(before, after, scope)
        },
{
}

/// Removing takes the mount under the cursor out of the edited layer, and nothing
/// else. The cursor stays on a mount where one is left.
pub proof fn law_the_mount_under_the_cursor_is_removed(before: Launch, after: Launch)
    requires
        before.removes(after),
        mounts_of(before, before.scope).len() > 0,
        cursor_of(before, before.scope) < mounts_of(before, before.scope).len(),
    ensures
        ({
            let scope = before.scope;
            let was = mounts_of(before, scope);
            let now = mounts_of(after, scope);
            let at = cursor_of(before, scope) as int;
            &&& now.len() == was.len() - 1
            &&& forall|i: int| 0 <= i < at ==> #[trigger] now[i] == was[i]
            &&& forall|i: int| at <= i < now.len() ==> #[trigger] now[i] == was[i + 1]
            &&& now.len() > 0 ==> cursor_of(after, scope) < now.len()
            &&& at < now.len() ==> cursor_of(after, scope) == at
            &&& only_mounts_differ(before, after, scope)
        }),
{
}

/// The cursor moves among the mounts of the edited layer one at a time and stops at
/// both ends. A step and the step back return.
pub proof fn law_the_cursor_walks_the_mounts(launch: Launch)
    requires
        mounts_of(launch, launch.scope).len() <= usize::MAX,
        cursor_of(launch, launch.scope) < mounts_of(launch, launch.scope).len(),
    ensures
        ({
            let scope = launch.scope;
            let at = cursor_of(launch, scope);
            let count = mounts_of(launch, scope).len();
            &&& at + 1 < count ==> cursor_of(launch.mount_after(), scope) == at + 1
            &&& at + 1 == count ==> cursor_of(launch.mount_after(), scope) == at
            &&& at > 0 ==> cursor_of(launch.mount_before(), scope) == at - 1
            &&& at == 0 ==> cursor_of(launch.mount_before(), scope) == 0
            &&& at + 1 < count ==> launch.mount_after().mount_before() == launch
            &&& only_mounts_differ(launch, launch.mount_after(), scope)
            &&& only_mounts_differ(launch, launch.mount_before(), scope)
            &&& mounts_of(launch.mount_after(), scope) == mounts_of(launch, scope)
        }),
{
}

/// A cursor that is left behind the end of a list is taken to be on its last place.
pub proof fn law_a_cursor_stays_within(index: usize, count: nat)
    ensures
        count > 0 && count <= usize::MAX ==> within(index, count) < count,
        index < count ==> within(index, count) == index,
        count > 0 && count <= usize::MAX && index >= count ==> within(index, count) == count - 1,
        within(index, 0) == 0,
{
}

/// Changing the word on the network changes what is in effect where it is inherited or
/// the Workspace's own, and changes nothing else.
pub proof fn law_the_network_is_changed_alone(launch: Launch)
    ensures
        launch.scope == LaunchScope::Workspace ==> {
            &&& permits_network(launch.network_after().workspace@) != permits_network(
                launch.workspace@,
            )
            &&& launch.network_after() == (Launch {
                workspace: LaunchPolicy {
                    network: launch.network_after().workspace.network,
                    ..launch.workspace
                },
                ..launch
            })
        },
        launch.scope == LaunchScope::Interaction ==> {
            &&& launch.interaction.network is None ==> launch.network_after().interaction.network
                == Some(!permits_network(launch.workspace@))
            &&& launch.interaction.network is Some
                ==> launch.network_after().interaction.network is None
            &&& launch.network_after() == (Launch {
                interaction: LaunchPolicy {
                    network: launch.network_after().interaction.network,
                    ..launch.interaction
                },
                ..launch
            })
        },
{
}

// --- Edits of the screen -----------------------------------------------------

/// The policy can be edited before an interaction starts and once it is over, and not
/// while one runs, rests or works in the background.
pub proof fn law_when_the_policy_can_be_edited(status: Status)
    ensures
        can_edit(status) == !(status is Running || status is Idle || status is Background),
{
}

/// Whether the screens differ in nothing but the policy's layers and what is told.
pub open spec fn only_launch_differs(before: App, after: App) -> bool {
    after == (App { launch: after.launch, notices: after.notices, ..before })
}

/// Whether the screens differ in nothing but what is asked of the server and what is
/// told.
pub open spec fn only_request_differs(before: App, after: App) -> bool {
    after == (App { request: after.request, notices: after.notices, ..before })
}

/// The templates that are chosen for an interaction are the ones it runs with: all of
/// them, and no others. Those of the Workspace are left to the Workspace where they
/// are among the chosen.
pub proof fn law_chosen_templates_are_in_effect(
    before: App,
    chosen: Vec<String>,
    after: App,
    template: Seq<char>,
)
    requires
        templates_set(before, chosen, after),
        can_edit(before.activity.status),
        before.launch.scope == LaunchScope::Interaction,
    ensures
        after.launch.in_effect().templates.contains(template) == holds(chosen@, template),
        only_launch_differs(before, after),
        after.launch.workspace == before.launch.workspace,
        after.launch.interaction.mounts == before.launch.interaction.mounts,
        after.launch.interaction.network == before.launch.interaction.network,
{
    let shared = before.launch.workspace.templates@;
    let own = after.launch.interaction.templates@;
    let whole = after.launch.in_effect().templates;
    if before.launch.can_add(chosen@) {
        let kept = |t: String| !holds(shared, t@);
        assert(whole =~= views(shared) + views(own));
        if whole.contains(template) {
            let i = choose|i: int| 0 <= i < whole.len() && whole[i] == template;
            if i < shared.len() {
                assert(shared[i]@ == template);
                assert(holds(chosen@, shared[i]@));
            } else {
                let item = own[i - shared.len()];
                assert(own.contains(item));
                chosen@.lemma_filter_contains_rev(kept, item);
                let k = choose|k: int| 0 <= k < chosen@.len() && chosen@[k] == item;
                assert(chosen@[k]@ == template);
            }
        }
        if holds(chosen@, template) {
            let k = choose|k: int| 0 <= k < chosen@.len() && (#[trigger] chosen@[k])@ == template;
            if holds(shared, template) {
                let i = choose|i: int| 0 <= i < shared.len() && (#[trigger] shared[i])@ == template;
                assert(whole[i] == template);
            } else {
                assert(kept(chosen@[k]));
                chosen@.lemma_filter_contains(kept, k);
                let i = choose|i: int| 0 <= i < own.len() && own[i] == chosen@[k];
                assert(whole[shared.len() + i] == template);
            }
        }
    } else {
        assert(whole =~= views(chosen@));
        if whole.contains(template) {
            let i = choose|i: int| 0 <= i < whole.len() && whole[i] == template;
            assert(chosen@[i]@ == template);
        }
        if holds(chosen@, template) {
            let k = choose|k: int| 0 <= k < chosen@.len() && (#[trigger] chosen@[k])@ == template;
            assert(whole[k] == template);
        }
    }
}

/// Choosing templates, and changing the word on the network, in the Workspace's layer
/// asks the server for exactly that, and changes neither layer here.
pub proof fn law_the_servers_layer_is_changed_by_the_server(
    before: App,
    chosen: Vec<String>,
    after: App,
)
    requires
        can_edit(before.activity.status),
        before.launch.scope == LaunchScope::Workspace,
    ensures
        templates_set(before, chosen, after) ==> only_request_differs(before, after)
            && after.request == Some(
            Request::ChangeWorkspaceLaunch {
                change: WorkspaceLaunchChange::SetTemplates(chosen),
                clear_interaction: false,
            },
        ),
        network_cycled(before, after) ==> only_request_differs(before, after) && after.request
            == Some(
            Request::ChangeWorkspaceLaunch {
                change: WorkspaceLaunchChange::SetNetwork(
                    Some(before.launch.workspace.network != Some(true)),
                ),
                clear_interaction: false,
            },
        ),
        mount_removed(before, after) && before.launch.workspace.mounts@.len() > 0
            && before.launch.selected.0 < before.launch.workspace.mounts@.len()
            ==> only_request_differs(before, after) && after.request == Some(
            Request::ChangeWorkspaceLaunch {
                change: WorkspaceLaunchChange::RemoveMount(
                    before.launch.workspace.mounts@[before.launch.selected.0 as int],
                ),
                clear_interaction: false,
            },
        ),
{
}

/// Choosing templates for one layer leaves the other layer the edited one.
pub proof fn law_choosing_for_a_layer_keeps_the_edited_one(
    before: App,
    scope: LaunchScope,
    chosen: Vec<String>,
    after: App,
)
    requires
        templates_set_for(before, scope, chosen, after),
    ensures
        after.launch.scope == before.launch.scope,
        scope == LaunchScope::Workspace ==> after.launch.interaction == before.launch.interaction,
        scope == LaunchScope::Interaction ==> after.request == before.request,
        after.launch.workspace == before.launch.workspace,
{
}

/// Letting an interaction stand alone drops the Workspace's policy from what is in
/// effect, and letting it add again brings it back.
pub proof fn law_standing_alone_is_undone(before: App, between: App, after: App)
    requires
        standalone_toggled(before, between),
        standalone_toggled(between, after),
        can_edit(before.activity.status),
        before.launch.scope == LaunchScope::Interaction,
    ensures
        after.launch == before.launch,
        between.launch.interaction.standalone != before.launch.interaction.standalone,
        between.launch.interaction.standalone ==> between.launch.in_effect().mounts == mount_views(
            before.launch.interaction.mounts@,
        ),
        only_launch_differs(before, between),
{
}

/// A mount that is typed and read is granted once it is confirmed, and the prompt
/// closes. What cannot be read is told, with the prompt and the policy as they were.
pub proof fn law_a_typed_mount_is_granted(
    before: App,
    text: Seq<char>,
    home: Option<Seq<char>>,
    after: App,
)
    requires
        prompt_confirmed(before, text, home, after),
        can_edit(before.activity.status),
    ensures
        mount_asked(text, home) is Err ==> after.launch == before.launch && after.request
            == before.request,
        mount_asked(text, home) is Ok ==> after.launch.prompt is None,
        mount_asked(text, home) matches Ok(mount) ==> (before.launch.scope
            == LaunchScope::Interaction ==> grants(after.launch.in_effect().mounts, mount)
            && after.request == before.request),
        mount_asked(text, home) matches Ok(mount) ==> (before.launch.scope
            == LaunchScope::Workspace && !grants(
            mount_views(before.launch.workspace.mounts@),
            mount,
        ) ==> (after.request matches Some(
            Request::ChangeWorkspaceLaunch {
                change: WorkspaceLaunchChange::AddMounts(mounts),
                clear_interaction: false,
            },
        ) && mounts@.len() == 1 && mounts@[0]@ == mount)),
{
    if let Ok(mount) = mount_asked(text, home) {
        let shared = mount_views(before.launch.workspace.mounts@);
        let own = mount_views(before.launch.interaction.mounts@);
        let now = mount_views(after.launch.interaction.mounts@);
        let whole = after.launch.in_effect().mounts;
        if before.launch.scope == LaunchScope::Interaction {
            law_mounts_are_told_apart(mount, mount);
            if grants(own, mount) {
                let i = choose|i: int| 0 <= i < own.len() && (#[trigger] own[i]).same_as(mount);
                assert(now[i] == own[i]);
                if before.launch.interaction.standalone {
                    assert(whole[i] == own[i]);
                } else {
                    assert(whole[shared.len() + i] == own[i]);
                }
            } else if !before.launch.interaction.standalone && grants(shared, mount) {
                let i = choose|i: int|
                    0 <= i < shared.len() && (#[trigger] shared[i]).same_as(mount);
                assert(whole[i] == shared[i]);
            } else {
                assert(now[now.len() - 1] == mount);
                if before.launch.interaction.standalone {
                    assert(whole[now.len() - 1] == mount);
                } else {
                    assert(whole[shared.len() + now.len() - 1] == mount);
                }
            }
        } else if !grants(shared, mount) {
            let mounts = after.request->Some_0->ChangeWorkspaceLaunch_change->AddMounts_0;
            assert(mount_views(mounts@).len() == mounts@.len());
            assert(mount_views(mounts@)[0] == mounts@[0]@);
        }
    }
}

/// Making an interaction's settings the Workspace's own asks the server for what is in
/// effect, and for the settings here to be dropped.
pub proof fn law_promotion_asks_for_what_is_in_effect(before: App, after: App)
    requires
        promoted(before, after),
        can_edit(before.activity.status),
        before.launch.interaction@ != no_policy(),
    ensures
        after.request matches Some(
            Request::ChangeWorkspaceLaunch {
                change: WorkspaceLaunchChange::Replace(policy),
                clear_interaction: true,
            },
        ) && policy@ == before.launch.in_effect(),
        after.launch == before.launch,
{
}

// --- What a sandbox shows of the host ----------------------------------------

/// What a mount carries is found behind its destination: the names there are those of
/// the destination, and then those of the path below the source.
pub proof fn law_a_carried_path_is_behind_the_destination(
    mount: Mount,
    host: Seq<char>,
    visible: Visible,
)
    requires
        seen_through(mount, host, visible),
        source_of(mount) matches Some(source) && (rooted(source) || names_in(source).len() > 0),
        source_of(mount) matches Some(source) && names_in(source).len() < names_in(host).len(),
    ensures
        rooted(visible.path@) == rooted(destination_of(mount)),
        names_in(visible.path@) == names_in(destination_of(mount)) + names_in(host).skip(
            names_in(source_of(mount)->Some_0).len() as int,
        ),
        mount is Bind ==> visible.access@ == if mount->Bind_access == MountAccess::ReadOnly {
            "ro"@
        } else {
            "rw"@
        },
        mount is Overlay ==> visible.access@ == "overlay"@,
        mount !is Temporary,
{
    let source = source_of(mount)->Some_0;
    let base = destination_of(mount);
    let rest = below(host, source)->Some_0;
    lemma_behind(host, names_in(source).len());
    lemma_no_names(Seq::<char>::empty());
    if base.len() == 0 {
        assert(base =~= Seq::<char>::empty());
        assert(base + rest =~= rest);
        assert(names_in(base) + names_in(rest) =~= names_in(rest));
    } else if base.last() == '/' {
        let start = base.drop_last();
        assert(start.push('/') =~= base);
        lemma_ended(start);
        law_cutting_at_a_mark(start, rest, '/');
        lemma_names_of_both(split_at_each(start, '/'), split_at_each(rest, '/'));
    } else {
        law_cutting_at_a_mark(base, rest, '/');
        lemma_names_of_both(split_at_each(base, '/'), split_at_each(rest, '/'));
    }
}

/// Of the mounts that carry a path, the one with the longest source counts, and of
/// several as long the last.
pub proof fn law_the_innermost_mount_counts(mounts: Seq<Mount>, host: Seq<char>, i: int, j: int)
    requires
        innermost(mounts, host, i),
        0 <= j < mounts.len(),
        source_of(mounts[j]) matches Some(source) && below(host, source) is Some,
    ensures
        source_of(mounts[i]) matches Some(source) && below(host, source) is Some,
        reach(mounts[j]) <= reach(mounts[i]),
        reach(mounts[j]) == reach(mounts[i]) ==> j <= i,
        source_of(mounts[i]) matches Some(source) ==> reach(mounts[i]) == names_in(source).len()
            + if rooted(source) {
            1int
        } else {
            0
        },
{
    assert(carried(mounts[j], host) is Some);
}

/// A bind mount and an overlay carry their source, and a temporary mount nothing.
pub proof fn law_what_mounts_carry(mount: Mount)
    ensures
        mount matches Mount::Bind { source, destination, .. } ==> source_of(mount) == Some(source@)
            && destination_of(mount) == destination@,
        mount matches Mount::Overlay { source, destination } ==> source_of(mount) == Some(source@)
            && destination_of(mount) == destination@,
        mount is Temporary ==> source_of(mount) is None,
{
}

/// A label names the source, the destination where there is one, and the access.
pub proof fn law_a_label_tells_the_access(mount: LaunchMountView)
    ensures
        ({
            let label = mount_label(mount);
            let word = if mount.writable {
                " (rw)"@
            } else {
                " (ro)"@
            };
            &&& starts(label, mount.source)
            &&& label.len() >= word.len() && label.skip(label.len() - word.len()) == word
            &&& mount.destination is None ==> label == mount.source + word
        }),
{
    reveal_strlit(" (rw)");
    reveal_strlit(" (ro)");
    reveal_strlit("rw");
    reveal_strlit("ro");
    reveal_strlit(" (");
    reveal_strlit(")");
    let label = mount_label(mount);
    let word = if mount.writable {
        " (rw)"@
    } else {
        " (ro)"@
    };
    assert(label.skip(label.len() - word.len()) =~= word);
    assert(label.take(mount.source.len() as int) =~= mount.source);
    if mount.destination is None {
        assert(label =~= mount.source + word);
    }
}

// --- Git ---------------------------------------------------------------------

/// A pointer file points where its first line behind `gitdir:` says, without white
/// space, whatever stands on other lines.
pub proof fn law_a_pointer_points_where_it_says(
    before: Seq<Seq<char>>,
    line: Seq<char>,
    target: Seq<char>,
    after: Seq<Seq<char>>,
)
    requires
        forall|i: int|
            0 <= i < before.len() ==> !starts(trimmed(#[trigger] before[i]), "gitdir:"@),
        trimmed(line) == "gitdir:"@ + target,
    ensures
        first_pointer(before + seq![line] + after) == Some(trimmed(target)),
        first_pointer(before) is None,
    decreases before.len(),
{
    let all = before + seq![line] + after;
    if before.len() == 0 {
        law_a_text_starts_with_its_prefix("gitdir:"@, target, trimmed(line));
        assert(all[0] == line);
        assert(("gitdir:"@ + target).skip("gitdir:"@.len() as int) =~= target);
    } else {
        let rest = before.skip(1);
        assert forall|i: int| 0 <= i < rest.len() implies !starts(
            trimmed(#[trigger] rest[i]),
            "gitdir:"@,
        ) by {
            assert(!starts(trimmed(before[i + 1]), "gitdir:"@));
        }
        law_a_pointer_points_where_it_says(rest, line, target, after);
        assert(all.skip(1) =~= rest + seq![line] + after);
        assert(all[0] == before[0]);
        assert(!starts(trimmed(before[0]), "gitdir:"@));
    }
}

/// The history of a checkout is carried by its root and every directory that holds
/// history outside of it, each writable and under its own path.
pub proof fn law_history_is_carried_whole(root: Seq<char>, directories: Seq<Seq<char>>, i: int)
    requires
        0 <= i < directories.len(),
    ensures
        history_mounts(root, directories).len() == directories.len() + 1,
        history_mounts(root, directories)[0] == (LaunchMountView {
            source: root,
            destination: None,
            writable: true,
        }),
        history_mounts(root, directories)[i + 1] == (LaunchMountView {
            source: directories[i],
            destination: None,
            writable: true,
        }),
{
    assert((seq![root] + directories)[i + 1] == directories[i]);
}

/// What is said of the network after a change tells on from off, and this interaction's
/// own word from the one it inherits.
pub proof fn law_the_words_on_the_network(a: Launch, b: Launch)
    requires
        a.network_words() == b.network_words(),
        a.scope == b.scope,
    ensures
        a.scope == LaunchScope::Workspace ==> permits_network(a.workspace@) == permits_network(
            b.workspace@,
        ),
        a.scope == LaunchScope::Interaction && a.interaction.network is Some
            && b.interaction.network is Some ==> a.interaction.network == b.interaction.network,
        a.scope == LaunchScope::Interaction && a.interaction.network is None
            && b.interaction.network is None ==> permits_network(a.workspace@) == permits_network(
            b.workspace@,
        ),
{
    reveal_strlit("network on for every launch in this Workspace");
    reveal_strlit("network off for every launch here — a profile or template may still permit it");
    reveal_strlit("network on for this interaction");
    reveal_strlit("network permission withdrawn — a profile or template may still permit it");
    reveal_strlit("on");
    reveal_strlit("off");
    assert("network on for every launch in this Workspace"@[9] == 'n');
    assert("network off for every launch here — a profile or template may still permit it"@[9]
        == 'f');
    assert("network on for this interaction"@[8] == 'o');
    assert("network permission withdrawn — a profile or template may still permit it"@[8] == 'p');
    let head = "network follows the Workspace policy again ("@;
    let on = head + "on"@ + ")"@;
    let off = head + "off"@ + ")"@;
    assert(on[head.len() as int + 1] == 'n');
    assert(off[head.len() as int + 1] == 'f');
}

/// The sandbox of the next launch is asked for again once what it runs, or what is in
/// effect for it, is another than what it was asked for.
pub proof fn law_when_a_plan_is_asked_for_again(launch: Launch, selection: crate::protocol::SelectionView)
    ensures
        launch.plan_key is None ==> launch.stale(selection),
        launch.plan_key matches Some(key) ==> (key.0@ != selection ==> launch.stale(selection)),
        launch.plan_key matches Some(key) ==> (key.0@ == selection && key.1@.network
            != launch.in_effect().network ==> launch.stale(selection)),
        launch.plan_key matches Some(key) ==> (key.0@ == selection && key.1@
            == launch.in_effect() ==> !launch.stale(selection)),
{
    if let Some(key) = launch.plan_key {
        if key.1@ == launch.in_effect() {
            let mounts = key.1@.mounts;
            assert forall|i: int| 0 <= i < mounts.len() implies (#[trigger] mounts[i]).same_as(
                mounts[i],
            ) by {
                law_mounts_are_told_apart(mounts[i], mounts[i]);
            }
        }
    }
}

/// Of the mounts that are to be added, those are that nothing grants yet, each once and
/// in order.
pub proof fn law_what_is_granted_is_not_added_again(
    launch: Launch,
    scope: LaunchScope,
    mounts: Seq<LaunchMountView>,
    mount: LaunchMountView,
)
    ensures
        fresh(launch, scope, Seq::empty()) == Seq::<LaunchMountView>::empty(),
        !is_granted(launch, scope, mount) && !grants(fresh(launch, scope, mounts), mount) ==> fresh(
            launch,
            scope,
            mounts.push(mount),
        ) == fresh(launch, scope, mounts).push(mount),
        is_granted(launch, scope, mount) || grants(fresh(launch, scope, mounts), mount) ==> fresh(
            launch,
            scope,
            mounts.push(mount),
        ) == fresh(launch, scope, mounts),
{
    assert(mounts.push(mount).drop_last() =~= mounts);
}

/// A checkout's history is added to the edited layer: to this interaction's at once, to
/// the Workspace's by the server. Without one nothing is.
pub proof fn law_history_is_added_to_the_edited_layer(
    before: App,
    root: Seq<char>,
    directories: Seq<Seq<char>>,
    after: App,
)
    requires
        history_added(before, Some((root, directories)), after),
        can_edit(before.activity.status),
        fresh(before.launch, before.launch.scope, history_mounts(root, directories)).len() > 0,
    ensures
        ({
            let more = fresh(before.launch, before.launch.scope, history_mounts(root, directories));
            &&& before.launch.scope == LaunchScope::Interaction ==> mount_views(
                after.launch.interaction.mounts@,
            ) == mount_views(before.launch.interaction.mounts@) + more && after.request
                == before.request && after.launch.workspace == before.launch.workspace
            &&& before.launch.scope == LaunchScope::Workspace ==> after.launch == before.launch && (
            after.request matches Some(
                Request::ChangeWorkspaceLaunch {
                    change: WorkspaceLaunchChange::AddMounts(mounts),
                    clear_interaction: false,
                },
            ) && mount_views(mounts@) == more)
        }),
{
}

/// Without a checkout no mount is added.
pub proof fn law_no_history_adds_nothing(before: App, after: App)
    requires
        history_added(before, None, after),
    ensures
        after.launch == before.launch,
        after.request == before.request,
{
}

} // verus!
