//! What is kept from one client to the next, and what is said of how things go.

use vstd::prelude::*;

use crate::activity::{elapsed, Activity, Status};
use crate::agent::{codex_command, is_codex, Profile};
use crate::laws::order::{is_rearrangement, law_sorted_texts};
use crate::laws::show::{lemma_between, stands_in};
use crate::laws::text::law_what_stands_between_spaces;
use crate::launcher::Catalog;
use crate::notices::{outlived, outlived_among, Notices};
use crate::order::{lemma_onto, strictly_ordered, texts_sorted};
use crate::preferences::{
    is_first, launch_saved, loads, problem, readable, selection_saved, Defaults, Stored,
};
use crate::protocol::{Effort, LaunchPolicy, Provider, Selection};
use crate::session::{creates, paused_words, Creation};
use crate::tag_picker::{row_after, row_before, toggled, typed_tag, with_tag, TagPicker};
use crate::text::{decimal, holds, is_space, signed_decimal};

verus! {

// --- Defaults ----------------------------------------------------------------

/// A client that has no defaults starts from what its first agent offers, with no
/// policy.
pub proof fn law_the_first_defaults(catalog: Catalog, defaults: Defaults, i: int)
    requires
        is_first(catalog, defaults),
        0 <= i < catalog.providers@.len(),
        catalog.providers@[i].provider == Provider::Codex,
        forall|j: int|
            0 <= j < i ==> (#[trigger] catalog.providers@[j]).provider != Provider::Codex,
    ensures
        defaults.selection.provider == Provider::Codex,
        defaults.selection.model == catalog.providers@[i].default_model,
        defaults.selection.effort == catalog.providers@[i].default_effort,
        defaults.launch@.mounts.len() == 0,
        defaults.launch@.templates.len() == 0,
        defaults.launch@.network is None,
{
    crate::laws::session::law_an_agent_is_found_at_its_row(catalog, i);
}

/// What is kept is loaded as it is, and only where there is what it names. What cannot
/// be read is an error, never something else to launch.
pub proof fn law_defaults_are_loaded_as_kept(
    catalog: Catalog,
    path: Seq<char>,
    stored: Stored,
    validity: Result<(), String>,
    r: Result<Defaults, String>,
)
    requires
        loads(catalog, path, stored, validity, r),
    ensures
        stored is Absent ==> r is Ok,
        stored is Unreadable || stored is Malformed ==> r is Err,
        stored is Current || stored is SelectionAlone ==> (r is Ok) == (validity is Ok),
        r matches Ok(defaults) ==> (stored matches Stored::Current(kept) ==> defaults == kept),
        r matches Ok(defaults) ==> (stored matches Stored::SelectionAlone(kept)
            ==> defaults.selection == kept && defaults.launch@.mounts.len() == 0
            && defaults.launch@.network is None),
        r matches Err(error) ==> stands_in(path, error@),
        r matches Err(error) ==> (stored matches Stored::Unreadable(why)
            ==> stands_in(why@, error@)),
{
    if let Err(error) = r {
        let reading = "reading Styra defaults from "@;
        let parsing = "parsing Styra defaults from "@;
        let invalid = "invalid Styra defaults in "@;
        match stored {
            Stored::Unreadable(why) => {
                lemma_a_problem_names(reading, path, why@);
            },
            Stored::Malformed(why) => {
                lemma_a_problem_names(parsing, path, why@);
            },
            _ => {
                if let Err(why) = validity {
                    lemma_a_problem_names(invalid, path, why@);
                }
            },
        }
    }
}

proof fn lemma_a_problem_names(doing: Seq<char>, path: Seq<char>, why: Seq<char>)
    ensures
        stands_in(path, problem(doing, path, why)),
        stands_in(why, problem(doing, path, why)),
{
    let all = problem(doing, path, why);
    lemma_between(doing, path, ": "@ + why, all);
    lemma_between(doing + path + ": "@, why, Seq::empty(), all);
}

/// Keeping a selection keeps the policy, and keeping a policy keeps the selection.
pub proof fn law_one_half_is_kept_with_the_other(
    catalog: Catalog,
    kept: Defaults,
    selection: Selection,
    launch: LaunchPolicy,
    a: Defaults,
    b: Defaults,
)
    requires
        selection_saved(Ok(kept), selection, a),
        launch_saved(catalog, Ok(kept), launch, b),
    ensures
        a.selection == selection,
        a.launch == kept.launch,
        b.launch@ == launch@,
        b.selection == kept.selection,
        forall|base: Defaults| readable(catalog, Ok(kept), base) ==> base == kept,
{
}

// --- Notices -----------------------------------------------------------------

/// A message keeps the time at which it was first looked over. One that was not is
/// looked over now, and none goes before its time.
pub proof fn law_when_a_message_goes(notices: Notices, now: u64, lifetime: u64, i: int)
    requires
        0 <= i < notices.messages@.len(),
    ensures
        notices.times(now).len() == notices.messages@.len(),
        i < notices.since@.len() ==> notices.times(now)[i] == notices.since@[i],
        i >= notices.since@.len() ==> notices.times(now)[i] == now,
        outlived(notices.times(now)[i], now, lifetime) == (notices.times(now)[i] + lifetime <= now),
        i < outlived_among(notices.times(now), now, lifetime) ==> notices.times(now)[i] + lifetime
            <= now,
{
    lemma_outlived(notices.times(now), now, lifetime, i);
}

proof fn lemma_outlived(since: Seq<u64>, now: u64, lifetime: u64, i: int)
    requires
        0 <= i < since.len(),
    ensures
        i < outlived_among(since, now, lifetime) ==> since[i] + lifetime <= now,
    decreases since.len(),
{
    if outlived(since[0], now, lifetime) && i > 0 {
        lemma_outlived(since.skip(1), now, lifetime, i - 1);
    }
}

// --- Tags --------------------------------------------------------------------

/// The cursor goes to the next row and the one before, round both ends.
pub proof fn law_tags_are_walked_round(picker: TagPicker)
    requires
        picker.cursor < picker.available@.len() <= usize::MAX,
    ensures
        picker.cursor + 1 < picker.available@.len() ==> row_after(picker) == picker.cursor + 1,
        picker.cursor + 1 == picker.available@.len() ==> row_after(picker) == 0,
        picker.cursor > 0 ==> row_before(picker) == picker.cursor - 1,
        picker.cursor == 0 ==> row_before(picker) == picker.available@.len() - 1,
{
    let n = picker.available@.len() as int;
    if picker.cursor + 1 < n {
        assert((picker.cursor + 1) % n == picker.cursor + 1) by (nonlinear_arith)
            requires
                0 <= picker.cursor + 1 < n,
        ;
    } else {
        assert(n % n == 0) by (nonlinear_arith)
            requires
                n > 0,
        ;
    }
}

/// A tag that is added is there, and so is every other that was; nothing else is.
pub proof fn law_an_added_tag_is_there(
    before: Seq<String>,
    tag: Seq<char>,
    after: Seq<String>,
    other: Seq<char>,
)
    requires
        with_tag(before, tag, after),
    ensures
        holds(after, tag),
        holds(before, other) ==> holds(after, other),
        holds(after, other) ==> other == tag || holds(before, other),
        after.len() <= before.len() + 1,
{
    if !holds(before, tag) {
        let item = choose|item: String| item@ == tag && #[trigger]
            texts_sorted(before.push(item), after);
        let all = before.push(item);
        law_sorted_texts(all, after);
        let order = choose|order: Seq<int>| #[trigger]
            is_rearrangement(order, all.len()) && (forall|i: int|
                0 <= i < after.len() ==> #[trigger] after[i] == all[order[i]]);
        assert(all[before.len() as int]@ == tag);
        lemma_onto(order, all.len() as int, before.len() as int);
        let k = choose|k: int| 0 <= k < all.len() && #[trigger] order[k] == before.len();
        assert(after[k] == all[order[k]]);
        if holds(before, other) {
            let i = choose|i: int| 0 <= i < before.len() && (#[trigger] before[i])@ == other;
            lemma_onto(order, all.len() as int, i);
            let m = choose|m: int| 0 <= m < all.len() && #[trigger] order[m] == i;
            assert(after[m] == all[order[m]]);
        }
        if holds(after, other) {
            let i = choose|i: int| 0 <= i < after.len() && (#[trigger] after[i])@ == other;
            assert(after[i] == all[order[i]]);
            assert(0 <= order[i] < all.len());
            if order[i] < before.len() {
                assert(before[order[i]]@ == other);
            }
        }
    }
}

/// Choosing or dropping changes whether the tag under the cursor is chosen, and that of
/// no other.
pub proof fn law_the_tag_under_the_cursor_is_toggled(
    picker: TagPicker,
    selected: Seq<String>,
    other: Seq<char>,
)
    requires
        toggled(picker, selected),
        strictly_ordered(picker.selected@),
        picker.cursor < picker.available@.len(),
    ensures
        holds(selected, picker.available@[picker.cursor as int]@) == !holds(
            picker.selected@,
            picker.available@[picker.cursor as int]@,
        ),
        other != picker.available@[picker.cursor as int]@ ==> holds(selected, other) == holds(
            picker.selected@,
            other,
        ),
{
    let tag = picker.available@[picker.cursor as int]@;
    let before = picker.selected@;
    if holds(before, tag) {
        let i = choose|i: int|
            0 <= i < before.len() && (#[trigger] before[i])@ == tag && (forall|j: int|
                0 <= j < i ==> (#[trigger] before[j])@ != tag) && selected == before.remove(i);
        if holds(selected, tag) {
            let k = choose|k: int| 0 <= k < selected.len() && (#[trigger] selected[k])@ == tag;
            if k < i {
                assert(before[k]@ == tag);
            } else {
                assert(selected[k] == before[k + 1]);
                crate::laws::order::law_strict_order_holds_nothing_twice(before, i, k + 1);
            }
        }
        if other != tag {
            if holds(before, other) {
                let k = choose|k: int| 0 <= k < before.len() && (#[trigger] before[k])@ == other;
                if k < i {
                    assert(selected[k] == before[k]);
                } else {
                    assert(selected[k - 1] == before[k]);
                }
            }
            if holds(selected, other) {
                let k = choose|k: int| 0 <= k < selected.len() && (#[trigger] selected[k])@ == other;
                if k < i {
                    assert(selected[k] == before[k]);
                } else {
                    assert(selected[k] == before[k + 1]);
                }
            }
        }
    } else {
        law_an_added_tag_is_there(before, tag, selected, other);
    }
}

/// A tag is typed as it stands between blanks, and blanks alone are no tag.
pub proof fn law_what_a_typed_tag_is(picker: TagPicker, a: Seq<char>, tag: Seq<char>, b: Seq<char>)
    requires
        forall|i: int| 0 <= i < a.len() ==> is_space(#[trigger] a[i]),
        forall|i: int| 0 <= i < b.len() ==> is_space(#[trigger] b[i]),
        tag.len() > 0 ==> !is_space(tag[0]) && !is_space(tag.last()),
        picker.new_tag matches Some(typed) && typed@ == a + tag + b,
    ensures
        tag.len() > 0 ==> typed_tag(picker) == Some(tag),
        tag.len() == 0 ==> typed_tag(picker) is None,
{
    law_what_stands_between_spaces(a, tag, b);
}

// --- How an interaction is going ---------------------------------------------

/// A session that failed is said to have failed whatever its code, and any other end is
/// told with its code.
pub proof fn law_an_end_is_told_with_its_code(code: i32, error: Option<String>)
    ensures
        error is Some ==> (Status::Ended { exit_code: Some(code), error }).words() == "failed"@
            && (Status::Ended { exit_code: None, error }).words() == "failed"@,
        error is None ==> stands_in(
            signed_decimal(code as int),
            (Status::Ended { exit_code: Some(code), error }).words(),
        ),
        error is None ==> (Status::Ended { exit_code: None, error }).words() == "ended"@,
        Status::Pending.words() == "not started"@,
        Status::Running.words() == "running"@,
        Status::Idle.words() == "idle"@,
        Status::Stopped.words() == "stopped"@,
{
}

/// Time is counted from its start to now.
pub proof fn law_time_is_counted_from_its_start(then: u64, more: u64)
    requires
        then + more <= u64::MAX,
    ensures
        elapsed(then, (then + more) as u64) == more,
        more > 0 ==> elapsed((then + more) as u64, then) == 0,
{
}

/// A change of status starts its time anew, and none keeps it.
pub proof fn law_a_change_of_status_is_timed(activity: Activity, now: u64)
    ensures
        activity.noticing(now).status == activity.status,
        activity.noted@ != activity.status@ ==> activity.noticing(now).since == now && activity.noticing(
            now,
        ).noted == activity.status,
        activity.noted@ == activity.status@ ==> activity.noticing(now) == activity,
        activity.noticing(now).events == activity.events,
{
}

/// A session rests in the background while the agent counts tasks, and is idle once it
/// counts none.
pub proof fn law_where_a_session_rests(activity: Activity, running: u64)
    ensures
        running > 0 ==> activity.counted(running).background_work && activity.counted(
            running,
        ).resting() == Status::Background,
        running == 0 ==> !activity.counted(running).background_work && activity.counted(
            running,
        ).resting() == Status::Idle,
        activity.status != Status::Background ==> activity.counted(running).status
            == activity.status,
        activity.status == Status::Background && running > 0 ==> activity.counted(running).status
            == Status::Background,
        activity.status == Status::Background && running == 0 ==> activity.counted(running).status
            == Status::Idle,
        !activity.background_count_known ==> activity.guessed_finished().status == Status::Idle
            && !activity.guessed_finished().background_work,
        activity.counted(running).events == activity.events,
{
}

/// What was dropped by a pause is told.
pub proof fn law_what_a_pause_dropped_is_told(n: nat)
    ensures
        n > 0 ==> stands_in(decimal(n), paused_words(n)),
{
}

/// A launch is asked for with the message, what it runs under, its own policy and the
/// shape of its reply.
pub proof fn law_what_a_launch_is_asked_for(
    app: crate::app::App,
    message: Seq<char>,
    contract: Option<crate::protocol::Contract>,
    creation: Creation,
)
    requires
        creates(app, message, contract, creation),
    ensures
        creation.message matches Some(text) && text@ == message,
        creation.selection == app.selection,
        creation.contract == contract,
        creation.launch@ == app.launch.interaction@,
{
}

// --- Agents ------------------------------------------------------------------

/// The word for an effort tells it apart.
pub proof fn law_efforts_are_told_apart(a: Effort, b: Effort)
    requires
        a.word() == b.word(),
    ensures
        a == b,
{
    reveal_strlit("minimal");
    reveal_strlit("low");
    reveal_strlit("medium");
    reveal_strlit("high");
    reveal_strlit("xhigh");
    reveal_strlit("max");
    assert("low"@[0] != "max"@[0]);
    assert("minimal"@.len() == 7 && "low"@.len() == 3 && "medium"@.len() == 6 && "high"@.len() == 4
        && "xhigh"@.len() == 5 && "max"@.len() == 3);
}

/// The built-in agent trusts the workspace it is given, reads its prompt from its
/// input, and keeps its own sandbox out of the way.
pub proof fn law_how_the_built_in_agent_is_launched(profile: Profile, workspace: Seq<char>)
    requires
        is_codex(profile, workspace),
    ensures
        profile.command@.len() == codex_command(workspace).len(),
        profile.command@[0]@ == "codex"@,
        profile.command@.last()@ == "-"@,
        stands_in(workspace, profile.command@[2]@),
        profile.single_turn,
        profile.network,
        profile.mounts@.len() == 1 && profile.mounts@[0].writable,
        profile.environment@[0].0@ == "HOME"@ && crate::text::starts(
            profile.mounts@[0].destination@,
            profile.environment@[0].1@,
        ),
{
    let words = crate::text::views(profile.command@);
    assert(words.len() == profile.command@.len());
    assert(forall|i: int| 0 <= i < words.len() ==> words[i] == profile.command@[i]@);
    assert(words[0] == profile.command@[0]@);
    assert(words[2] == profile.command@[2]@);
    assert(words[8] == profile.command@[8]@);
    reveal_strlit("/tmp/agent-home");
    reveal_strlit("/tmp/agent-home/.codex/auth.json");
    assert("/tmp/agent-home/.codex/auth.json"@.take("/tmp/agent-home"@.len() as int)
        =~= "/tmp/agent-home"@);
}

} // verus!
