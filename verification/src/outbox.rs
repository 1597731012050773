//! Messages on their way out.

use std::collections::VecDeque;
use vstd::prelude::*;

use crate::protocol::{Contract, QueuedMessage};
use crate::session::{next_contract, next_shape};

verus! {

/// The shape the next message asks for, and the messages waiting to be sent.
#[derive(Debug)]
pub struct Outbox {
    pub contract: Option<Contract>,
    pub queued: VecDeque<QueuedMessage>,
}

impl Default for Outbox {
    fn default() -> (r: Outbox)
        ensures
            r.contract is None,
            r.queued@ == Seq::<QueuedMessage>::empty(),
    {
        Outbox { contract: None, queued: VecDeque::new() }
    }
}

impl Outbox {
    pub fn contract(&self) -> (r: Option<Contract>)
        ensures
            r == self.contract,
    {
        self.contract
    }

    /// Step to the next shape for the message being written.
    pub fn cycle_contract(&mut self)
        ensures
            *final(self) == (Outbox { contract: next_shape(old(self).contract), ..*old(self) }),
    {
        self.contract = next_contract(self.contract);
    }

    /// Take the shape for the message about to be sent. The next message asks
    /// for none.
    pub fn take_contract(&mut self) -> (r: Option<Contract>)
        ensures
            r == old(self).contract,
            *final(self) == (Outbox { contract: None, ..*old(self) }),
    {
        self.contract.take()
    }

    /// Adopt a shape chosen on another screen.
    pub fn set_contract(&mut self, contract: Option<Contract>)
        ensures
            *final(self) == (Outbox { contract, ..*old(self) }),
    {
        self.contract = contract;
    }

    /// The waiting messages, the one that has waited longest first.
    pub fn queued(&self) -> (r: &VecDeque<QueuedMessage>)
        ensures
            *r == self.queued,
    {
        &self.queued
    }

    pub fn queued_count(&self) -> (r: usize)
        ensures
            r == self.queued@.len(),
    {
        self.queued.len()
    }

    pub fn queue(&mut self, message: QueuedMessage)
        ensures
            final(self).queued@ == old(self).queued@.push(message),
            final(self).contract == old(self).contract,
    {
        self.queued.push_back(message);
    }

    /// Take the message that has waited longest.
    pub fn take_queued(&mut self) -> (r: Option<QueuedMessage>)
        ensures
            match r {
                Some(message) => old(self).queued@.len() > 0 && message == old(self).queued@[0]
                    && final(self).queued@ == old(self).queued@.skip(1),
                None => old(self).queued@.len() == 0 && final(self).queued@ == old(self).queued@,
            },
            final(self).contract == old(self).contract,
    {
        let r = self.queued.pop_front();
        assert(r is Some ==> self.queued@ =~= old(self).queued@.skip(1));
        r
    }

    /// Take over what waits, as the server tells it.
    pub fn replace_queued(&mut self, queued: Vec<QueuedMessage>)
        ensures
            final(self).queued@ == queued@,
            final(self).contract == old(self).contract,
    {
        self.clear_queued();
        self.queue_all(queued);
        assert(Seq::<QueuedMessage>::empty() + queued@ =~= queued@);
    }

    /// Add messages at the end, in their order.
    pub fn queue_all(&mut self, queued: Vec<QueuedMessage>)
        ensures
            final(self).queued@ == old(self).queued@ + queued@,
            final(self).contract == old(self).contract,
    {
        let ghost all = queued@;
        let mut rest = queued;
        let ghost mut done: int = 0;
        assert(self.queued@ =~= old(self).queued@ + all.take(0));
        while rest.len() > 0
            invariant
                0 <= done <= all.len(),
                rest@ == all.skip(done),
                self.queued@ == old(self).queued@ + all.take(done),
                self.contract == old(self).contract,
            decreases rest@.len(),
        {
            let message = rest.remove(0);
            self.queue(message);
            proof {
                assert(all.skip(done).remove(0) =~= all.skip(done + 1));
                assert(all.take(done + 1) =~= all.take(done).push(all[done]));
                assert(self.queued@ =~= old(self).queued@ + all.take(done + 1));
                done = done + 1;
            }
        }
        assert(all.take(all.len() as int) =~= all);
    }

    /// Drop everything waiting, and say how much that was.
    pub fn clear_queued(&mut self) -> (r: usize)
        ensures
            r == old(self).queued@.len(),
            final(self).queued@ == Seq::<QueuedMessage>::empty(),
            final(self).contract == old(self).contract,
    {
        let count: usize = self.queued.len();
        self.queued.clear();
        count
    }
}

/// Messages leave in the order in which they came: one that is queued behind
/// others is the next one once as many as were before it have been taken.
pub proof fn law_messages_leave_in_their_order(
    waiting: Seq<QueuedMessage>,
    message: QueuedMessage,
    taken: int,
)
    requires
        0 <= taken <= waiting.len(),
    ensures
        waiting.push(message).skip(taken)[0] == if taken < waiting.len() {
            waiting[taken]
        } else {
            message
        },
{
}

} // verus!
