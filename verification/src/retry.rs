//! Waiting out a rate limit.

use vstd::prelude::*;

use crate::protocol::{Provider, QuotaEvent, QuotaStatus};
use crate::text::{decimal, number, padded, padded_number};

verus! {

/// How long past the reset of its window a waiting turn is sent, in
/// milliseconds.
pub const GRACE_MS: u64 = 180_000;

/// The turn waiting to be sent again, and when it is due.
#[derive(Debug, PartialEq, Eq)]
pub struct Pending {
    pub at_ms: u64,
    /// The window being waited out.
    pub window: String,
    /// The message to send again.
    pub message: String,
}

/// Whether stopped sessions are waited out, and the turn that waits.
#[derive(Debug, PartialEq, Eq)]
pub struct Retry {
    pub enabled: bool,
    pub pending: Option<Pending>,
}

impl Default for Retry {
    fn default() -> (r: Retry)
        ensures
            r == (Retry { enabled: false, pending: None }),
    {
        Retry { enabled: false, pending: None }
    }
}

impl Retry {
    pub fn enabled(&self) -> (r: bool)
        ensures
            r == self.enabled,
    {
        self.enabled
    }

    /// Turn waiting on or off, and say which it is now. Turning it off drops
    /// the turn that waits.
    pub fn toggle(&mut self) -> (r: bool)
        ensures
            r == !old(self).enabled,
            *final(self) == (Retry {
                enabled: r,
                pending: if r {
                    old(self).pending
                } else {
                    None
                },
            }),
    {
        self.enabled = !self.enabled;
        if !self.enabled {
            self.pending = None;
        }
        self.enabled
    }

    /// The turn that waits.
    pub fn pending(&self) -> (r: Option<&Pending>)
        ensures
            match r {
                Some(pending) => self.pending == Some(*pending),
                None => self.pending is None,
            },
    {
        self.pending.as_ref()
    }

    pub fn arm(&mut self, pending: Pending)
        ensures
            *final(self) == (Retry { pending: Some(pending), ..*old(self) }),
    {
        self.pending = Some(pending);
    }

    /// Drop the turn that waits, and say whether there was one. Waiting stays
    /// on.
    pub fn cancel(&mut self) -> (r: bool)
        ensures
            r == old(self).pending is Some,
            *final(self) == (Retry { pending: None, ..*old(self) }),
    {
        let dropped = self.pending.take();
        dropped.is_some()
    }

    /// Whether taking what is due at a time gives this turn and leaves this.
    pub open spec fn gives(self, now_ms: u64, due: Option<Pending>, after: Retry) -> bool {
        match self.pending {
            Some(pending) => if pending.at_ms <= now_ms {
                due == Some(pending) && after == (Retry { pending: None, ..self })
            } else {
                due is None && after == self
            },
            None => due is None && after == self,
        }
    }

    /// Take the waiting turn once it is due. Until then it waits on.
    pub fn take_due(&mut self, now_ms: u64) -> (r: Option<Pending>)
        ensures
            old(self).gives(now_ms, r, *final(self)),
    {
        let due = match &self.pending {
            Some(pending) => pending.at_ms <= now_ms,
            None => false,
        };
        if due {
            self.pending.take()
        } else {
            None
        }
    }
}

/// Whether a reading says that this agent's plan is used up until later than
/// `now_ms`.
pub open spec fn in_force(reading: QuotaEvent, provider: Provider, now_ms: u64) -> bool {
    &&& reading.provider == provider
    &&& reading.status == QuotaStatus::Exhausted
    &&& reading.resets_at_ms matches Some(resets) && resets > now_ms
}

/// The newest reading that says this agent's plan is used up until later than
/// `now_ms`. The readings are given oldest first.
pub fn limit_in_force<'log>(
    readings: &'log Vec<QuotaEvent>,
    provider: Provider,
    now_ms: u64,
) -> (r: Option<&'log QuotaEvent>)
    ensures
        match r {
            Some(limit) => exists|i: int|
                #![trigger readings@[i]]
                0 <= i < readings@.len() && readings@[i] == *limit && in_force(
                    readings@[i],
                    provider,
                    now_ms,
                ) && forall|j: int|
                    i < j < readings@.len() ==> !in_force(#[trigger] readings@[j], provider, now_ms),
            None => forall|j: int|
                0 <= j < readings@.len() ==> !in_force(#[trigger] readings@[j], provider, now_ms),
        },
{
    let mut i: usize = readings.len();
    while i > 0
        invariant
            i <= readings@.len(),
            forall|j: int|
                i <= j < readings@.len() ==> !in_force(#[trigger] readings@[j], provider, now_ms),
        decreases i,
    {
        let reading = &readings[i - 1];
        let unreset = match reading.resets_at_ms {
            Some(resets) => resets > now_ms,
            None => false,
        };
        if reading.provider == provider && reading.status == QuotaStatus::Exhausted && unreset {
            assert(in_force(readings@[i - 1], provider, now_ms));
            return Some(reading);
        }
        i = i - 1;
    }
    None
}

/// When a turn held back by `limit` is to be sent, where the reading names the
/// reset.
pub fn due_at_ms(limit: &QuotaEvent) -> (r: Option<u64>)
    requires
        limit.resets_at_ms matches Some(resets) ==> resets + GRACE_MS <= u64::MAX,
    ensures
        r == match limit.resets_at_ms {
            Some(resets) => Some((resets + GRACE_MS) as u64),
            None => None,
        },
{
    match limit.resets_at_ms {
        Some(resets) => Some(resets + GRACE_MS),
        None => None,
    }
}

/// The minutes from `now_ms` to `at_ms`, a started one counted whole.
pub open spec fn minutes_left(at_ms: u64, now_ms: u64) -> nat {
    if at_ms <= now_ms {
        0
    } else {
        ((at_ms - now_ms + 59_999) / 60_000) as nat
    }
}

/// The words for a wait.
pub open spec fn wait_words(minutes: nat) -> Seq<char> {
    if minutes < 60 {
        decimal(minutes) + "m"@
    } else {
        decimal(minutes / 60) + "h"@ + padded(minutes % 60, 2) + "m"@
    }
}

/// How long until `at_ms`, in minutes and from an hour on in hours and minutes.
pub fn wait_label(at_ms: u64, now_ms: u64) -> (r: String)
    ensures
        r@ == wait_words(minutes_left(at_ms, now_ms)),
{
    let left: u64 = at_ms.saturating_sub(now_ms);
    let minutes: u64 = if left == 0 {
        0
    } else {
        (left - 1) / 60_000 + 1
    };
    assert(minutes == minutes_left(at_ms, now_ms));
    if minutes < 60 {
        return number(minutes).concat("m");
    }
    number(minutes / 60).concat("h").concat(padded_number(minutes % 60, 2).as_str()).concat("m")
}

/// A wait that is not over is at least one minute.
pub proof fn law_a_wait_is_at_least_a_minute(at_ms: u64, now_ms: u64)
    ensures
        (minutes_left(at_ms, now_ms) == 0) == (at_ms <= now_ms),
{
}

/// A turn is sent again once: whoever takes it leaves nothing to take, however
/// late it is.
pub proof fn law_a_turn_is_sent_again_once(
    retry: Retry,
    now_ms: u64,
    due: Option<Pending>,
    after: Retry,
    later_ms: u64,
    again: Option<Pending>,
    last: Retry,
)
    requires
        retry.gives(now_ms, due, after),
        after.gives(later_ms, again, last),
        due is Some,
    ensures
        again is None,
        last.enabled == retry.enabled,
{
}

} // verus!
