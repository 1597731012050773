//! What is handed to the system, and when.

use vstd::prelude::*;

use crate::clipboard::{copy_sequence, too_large, utilities_for, Multiplexer, Utility};
use crate::laws::show::stands_in;
use crate::loader::{cancels, next_generation, LoadCommand, LoadEvent, Loads};
use crate::path::under;
use crate::paths::{config_directory, store_directory};
use crate::protocol::{Provider, QuotaEvent, QuotaStatus};
use crate::retry::{in_force, minutes_left, wait_words, Pending, Retry};
use crate::text::{decimal, padded};

verus! {

/// What is copied stands in the terminal sequence whole, between an introducer and an
/// end that hold none of it, and the three sequences differ.
pub proof fn law_what_is_copied_stands_in_the_sequence(encoded: Seq<char>, multiplexer: Multiplexer)
    ensures
        exists|a: Seq<char>, b: Seq<char>|
            a.len() > 0 && b.len() > 0 && a[0] == '\u{1b}' && copy_sequence(encoded, multiplexer)
                == #[trigger] (a + encoded + b),
        copy_sequence(encoded, Multiplexer::Plain) == "\x1b]52;c;"@ + encoded + "\x1b\\"@,
{
    reveal_strlit("\x1b]52;c;");
    reveal_strlit("\x1b\\");
    reveal_strlit("\x1bPtmux;\x1b\x1b]52;c;");
    reveal_strlit("\x1b\x1b\\\x1b\\");
    reveal_strlit("\x1bP\x1b]52;c;");
    reveal_strlit("\x07\x1b\\");
    let (a, b) = match multiplexer {
        Multiplexer::Plain => ("\x1b]52;c;"@, "\x1b\\"@),
        Multiplexer::Tmux => ("\x1bPtmux;\x1b\x1b]52;c;"@, "\x1b\x1b\\\x1b\\"@),
        Multiplexer::Screen => ("\x1bP\x1b]52;c;"@, "\x07\x1b\\"@),
    };
    assert(copy_sequence(encoded, multiplexer) == a + encoded + b);
}

/// A program that copies is tried exactly where the environment it needs is there, the
/// one for Wayland before those for X11, and the one for macOS last.
pub proof fn law_which_programs_copy(wayland: bool, x11: bool, macos: bool)
    ensures
        ({
            let tried = utilities_for(wayland, x11, macos);
            &&& tried.contains(Utility::WlCopy) == wayland
            &&& tried.contains(Utility::Xclip) == x11
            &&& tried.contains(Utility::Xsel) == x11
            &&& tried.contains(Utility::Pbcopy) == macos
            &&& wayland ==> tried[0] == Utility::WlCopy
            &&& x11 && !wayland ==> tried[0] == Utility::Xclip
            &&& macos ==> tried.last() == Utility::Pbcopy
            &&& tried.len() == (if wayland {
                1int
            } else {
                0
            }) + (if x11 {
                2int
            } else {
                0
            }) + (if macos {
                1int
            } else {
                0
            })
        }),
{
    let tried = utilities_for(wayland, x11, macos);
    let first: int = if wayland {
        1
    } else {
        0
    };
    if wayland {
        assert(tried[0] == Utility::WlCopy);
    }
    if x11 {
        assert(tried[first] == Utility::Xclip);
        assert(tried[first + 1] == Utility::Xsel);
    }
    if macos {
        assert(tried[tried.len() - 1] == Utility::Pbcopy);
    }
}

/// The configuration is kept where the environment says, where that says anything, and
/// else under the home directory. The store is a directory in it.
pub proof fn law_where_things_are_kept(config: Seq<char>, home: Seq<char>)
    ensures
        config.len() > 0 ==> config_directory(Some(config), Some(home)) == Some(config)
            && config_directory(Some(config), None) == Some(config),
        config_directory(None, Some(home)) == Some(under(home, ".config"@)),
        config_directory(Some(Seq::empty()), Some(home)) == Some(under(home, ".config"@)),
        config_directory(None, None) is None,
        config_directory(Some(Seq::empty()), None) is None,
        config.len() > 0 ==> store_directory(Some(config), Some(home)) == Some(
            under(config, "styra"@),
        ),
        store_directory(None, None) is None,
{
}

// --- Waiting out a limit -----------------------------------------------------

/// A turn that waits is given out once its time has come, whole and not before.
pub proof fn law_a_turn_is_due_at_its_time(
    retry: Retry,
    now_ms: u64,
    due: Option<Pending>,
    after: Retry,
)
    requires
        retry.gives(now_ms, due, after),
    ensures
        retry.pending matches Some(pending) ==> (pending.at_ms <= now_ms ==> due == Some(pending)
            && after.pending is None),
        retry.pending matches Some(pending) ==> (pending.at_ms > now_ms ==> due is None
            && after.pending == retry.pending),
        retry.pending is None ==> due is None && after.pending is None,
        after.enabled == retry.enabled,
{
}

/// A limit holds an agent back exactly while a reading of that agent says its plan is
/// used up and names a reset that is still to come.
pub proof fn law_when_a_limit_is_in_force(reading: QuotaEvent, provider: Provider, now_ms: u64)
    ensures
        in_force(reading, provider, now_ms) ==> reading.provider == provider && reading.status
            == QuotaStatus::Exhausted && reading.resets_at_ms is Some,
        reading.provider == provider && reading.status == QuotaStatus::Exhausted ==> (
        reading.resets_at_ms matches Some(resets) ==> in_force(reading, provider, now_ms) == (now_ms
            < resets)),
        reading.status != QuotaStatus::Exhausted ==> !in_force(reading, provider, now_ms),
        reading.provider != provider ==> !in_force(reading, provider, now_ms),
{
}

/// A wait is told in minutes, a started one counted whole, and from an hour on in hours
/// and minutes.
pub proof fn law_a_wait_is_rounded_up(now_ms: u64, minutes: u64, part: u64)
    requires
        0 < part <= 60_000,
        now_ms + minutes * 60_000 + part <= u64::MAX,
    ensures
        minutes_left((now_ms + minutes * 60_000 + part) as u64, now_ms) == minutes + 1,
        minutes_left(now_ms, now_ms) == 0,
        minutes < 60 ==> wait_words(minutes as nat) == decimal(minutes as nat) + "m"@,
        minutes >= 60 ==> wait_words(minutes as nat) == decimal((minutes / 60) as nat) + "h"@
            + padded((minutes % 60) as nat, 2) + "m"@,
{
    let at = now_ms + minutes * 60_000 + part;
    assert((at - now_ms + 59_999) / 60_000 == minutes + 1) by (nonlinear_arith)
        requires
            at == now_ms + minutes * 60_000 + part,
            0 < part <= 60_000,
    ;
}

// --- Snapshots ---------------------------------------------------------------

/// An answer is wanted exactly where it is to the request that is waited for, about
/// the interaction that is shown, from the time that it was asked in.
pub proof fn law_which_answer_is_wanted(loads: Loads, event: LoadEvent)
    ensures
        loads.wants(event) == (event.generation == loads.generation && event.id@
            == loads.active_id@ && loads.pending is Some && loads.pending->Some_0@
            == event.request_id@),
        next_generation(loads.generation) != loads.generation,
{
}

/// What is outstanding is cancelled under its own name, and nothing else is.
pub proof fn law_what_is_outstanding_is_cancelled(
    outstanding: Option<String>,
    command: Option<LoadCommand>,
)
    requires
        cancels(outstanding, command),
    ensures
        (command is Some) == (outstanding is Some),
        outstanding matches Some(id) ==> command == Some(LoadCommand::Cancel(id)),
{
}

/// A refusal to copy says how much there was to copy.
pub proof fn law_a_refusal_to_copy_names_the_size(bytes: nat)
    ensures
        stands_in(decimal(bytes), too_large(bytes)),
{
}

} // verus!
