//! What the client tells the operator it did.

use vstd::prelude::*;

use crate::text::views;

verus! {

/// The messages shown, oldest first.
#[derive(Debug, PartialEq, Eq)]
pub struct Notices {
    pub messages: Vec<String>,
    /// When each of the messages was first looked over, in milliseconds. Those
    /// that came since have no time yet.
    pub since: Vec<u64>,
}

impl Default for Notices {
    fn default() -> (r: Notices)
        ensures
            r.messages@.len() == 0,
            r.since@.len() == 0,
    {
        Notices { messages: Vec::new(), since: Vec::new() }
    }
}

/// Whether a message that is shown since a time has been shown long enough.
pub open spec fn outlived(since: u64, now: u64, lifetime: u64) -> bool {
    since + lifetime <= now
}

/// How many messages at the head of the list have been shown long enough.
pub open spec fn outlived_among(since: Seq<u64>, now: u64, lifetime: u64) -> nat
    decreases since.len(),
{
    if since.len() > 0 && outlived(since[0], now, lifetime) {
        1 + outlived_among(since.skip(1), now, lifetime)
    } else {
        0
    }
}

impl Notices {
    /// What the messages say.
    pub open spec fn said(self) -> Seq<Seq<char>> {
        views(self.messages@)
    }

    /// When each message was first looked over, those that are looked over now
    /// among them.
    pub open spec fn times(self, now: u64) -> Seq<u64> {
        Seq::new(
            self.messages@.len(),
            |i: int|
                if i < self.since@.len() {
                    self.since@[i]
                } else {
                    now
                },
        )
    }

    /// Show a message.
    pub fn show(&mut self, message: String)
        ensures
            final(self).messages@ == old(self).messages@.push(message),
            final(self).said() == old(self).said().push(message@),
            *final(self) == (Notices { messages: final(self).messages, ..*old(self) }),
    {
        self.messages.push(message);
        assert(self.said() =~= old(self).said().push(message@));
    }

    /// Look the messages over, and drop those that have been shown for the
    /// lifetime given.
    pub fn expire(&mut self, now: u64, lifetime: u64)
        ensures
            ({
                let times = old(self).times(now);
                let gone = outlived_among(times, now, lifetime) as int;
                &&& final(self).messages@ == old(self).messages@.skip(gone)
                &&& final(self).said() == old(self).said().skip(gone)
                &&& final(self).since@ == times.skip(gone)
            }),
    {
        let ghost times = self.times(now);
        let ghost all = self.messages@;
        let count: usize = self.messages.len();
        self.since.truncate(count);
        while self.since.len() < count
            invariant
                self.messages@ == all,
                count == all.len(),
                self.since@.len() <= count,
                self.since@ == times.take(self.since@.len() as int),
                forall|i: int| self.since@.len() <= i < count ==> #[trigger] times[i] == now,
                times.len() == count,
            decreases count - self.since.len(),
        {
            let ghost had = self.since@;
            self.since.push(now);
            assert(times[had.len() as int] == now);
            assert(self.since@ =~= times.take(had.len() as int + 1));
        }
        assert(self.since@ =~= times);
        let ghost mut gone: int = 0;
        assert(times.skip(0) =~= times);
        assert(all.skip(0) =~= all);
        while self.since.len() > 0 && self.since[0] <= now && now - self.since[0] >= lifetime
            invariant
                0 <= gone <= times.len(),
                times.len() == all.len(),
                self.since@ == times.skip(gone),
                self.messages@ == all.skip(gone),
                outlived_among(times, now, lifetime) == gone + outlived_among(
                    times.skip(gone),
                    now,
                    lifetime,
                ),
            decreases self.since.len(),
        {
            let _ = self.since.remove(0);
            let _ = self.messages.remove(0);
            proof {
                assert(times.skip(gone).skip(1) =~= times.skip(gone + 1));
                assert(times.skip(gone).remove(0) =~= times.skip(gone + 1));
                assert(all.skip(gone).remove(0) =~= all.skip(gone + 1));
                gone = gone + 1;
            }
        }
        assert(self.said() =~= views(all).skip(gone));
    }

    /// The messages shown, oldest first.
    pub fn iter(&self) -> (r: &[String])
        ensures
            r@ == self.messages@,
    {
        self.messages.as_slice()
    }
}

/// Of messages that came one after another, exactly those are dropped that have
/// been shown long enough. With a lifetime at all, one that is looked over for
/// the first time stays.
pub proof fn law_old_messages_are_dropped(since: Seq<u64>, now: u64, lifetime: u64, i: int)
    requires
        forall|a: int, b: int| 0 <= a <= b < since.len() ==> since[a] <= since[b],
        0 <= i < since.len(),
    ensures
        (i < outlived_among(since, now, lifetime)) == outlived(since[i], now, lifetime),
        lifetime > 0 && since[i] == now ==> i >= outlived_among(since, now, lifetime),
    decreases since.len(),
{
    if outlived(since[0], now, lifetime) {
        if i > 0 {
            let rest = since.skip(1);
            assert forall|a: int, b: int| 0 <= a <= b < rest.len() implies rest[a] <= rest[b] by {
                assert(since[a + 1] <= since[b + 1]);
            }
            law_old_messages_are_dropped(rest, now, lifetime, i - 1);
            assert(rest[i - 1] == since[i]);
        }
    } else {
        assert(since[0] <= since[i]);
    }
}

} // verus!
