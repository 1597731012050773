//! Which of the snapshots that come back are still wanted.

use vstd::prelude::*;

use crate::protocol::{InteractionSnapshot, InteractionSnapshotScope};
use crate::text::{same, view_of};

verus! {

/// A request for a snapshot.
#[derive(Debug, PartialEq, Eq)]
pub struct LoadRequest {
    pub request_id: String,
    pub generation: u64,
    pub id: String,
    pub scope: InteractionSnapshotScope,
}

/// What the fetching side is told to do.
#[derive(Debug, PartialEq, Eq)]
pub enum LoadCommand {
    Load(LoadRequest),
    Cancel(String),
}

/// A snapshot that came back, wanted or not.
#[derive(Debug, PartialEq, Eq)]
pub struct LoadEvent {
    pub request_id: String,
    pub generation: u64,
    pub id: String,
    pub result: Result<InteractionSnapshot, String>,
}

/// What the view waits for, and on behalf of what.
#[derive(Debug, PartialEq, Eq)]
pub struct Loads {
    /// The interaction the view is on.
    pub active_id: String,
    /// Moves on each time the view does.
    pub generation: u64,
    /// The request the view waits on.
    pub pending: Option<String>,
}

/// The generation after this one.
pub open spec fn next_generation(generation: u64) -> u64 {
    if generation == u64::MAX {
        0
    } else {
        (generation + 1) as u64
    }
}

/// Whether a command cancels the request that was outstanding, where there was
/// one.
pub open spec fn cancels(outstanding: Option<String>, command: Option<LoadCommand>) -> bool {
    match outstanding {
        Some(request_id) => command == Some(LoadCommand::Cancel(request_id)),
        None => command is None,
    }
}

impl Loads {
    /// Whether an answer is the one that is waited for.
    pub open spec fn wants(self, event: LoadEvent) -> bool {
        &&& event.generation == self.generation
        &&& event.id@ == self.active_id@
        &&& view_of(self.pending) == Some(event.request_id@)
    }

    /// A view on `active_id` that waits for nothing.
    pub fn start(active_id: String) -> (r: Loads)
        ensures
            r == (Loads { active_id, generation: 0, pending: None }),
    {
        Loads { active_id, generation: 0, pending: None }
    }

    pub fn active_id(&self) -> (r: &str)
        ensures
            r@ == self.active_id@,
    {
        self.active_id.as_str()
    }

    /// Whether the view is on this interaction.
    pub fn is_on(&self, session_id: &str) -> (r: bool)
        ensures
            r == (self.active_id@ == session_id@),
    {
        same(self.active_id.as_str(), session_id)
    }

    /// Ask for a snapshot of `id` under a request id of its own, giving up
    /// whatever was outstanding. What to tell the fetching side, in order: the
    /// cancelling comes before the asking.
    pub fn request(
        &mut self,
        id: String,
        scope: InteractionSnapshotScope,
        request_id: String,
    ) -> (r: (Option<LoadCommand>, LoadCommand))
        ensures
            cancels(old(self).pending, r.0),
            r.1 == LoadCommand::Load(
                LoadRequest {
                    request_id,
                    generation: next_generation(old(self).generation),
                    id,
                    scope,
                },
            ),
            *final(self) == (Loads {
                active_id: id,
                generation: next_generation(old(self).generation),
                pending: Some(request_id),
            }),
    {
        let cancelled = self.settle_on(id.clone());
        self.pending = Some(request_id.clone());
        (
            cancelled,
            LoadCommand::Load(
                LoadRequest { request_id, generation: self.generation, id, scope },
            ),
        )
    }

    /// Give up whatever is outstanding, and take `id` as what the view is on.
    pub fn settle_on(&mut self, id: String) -> (r: Option<LoadCommand>)
        ensures
            cancels(old(self).pending, r),
            *final(self) == (Loads {
                active_id: id,
                generation: next_generation(old(self).generation),
                pending: None,
            }),
    {
        let cancelled = self.cancel();
        self.generation = self.generation.wrapping_add(1);
        self.active_id = id;
        cancelled
    }

    /// Give up the outstanding request, where there is one.
    pub fn cancel(&mut self) -> (r: Option<LoadCommand>)
        ensures
            cancels(old(self).pending, r),
            *final(self) == (Loads { pending: None, ..*old(self) }),
    {
        match self.pending.take() {
            Some(request_id) => Some(LoadCommand::Cancel(request_id)),
            None => None,
        }
    }

    /// Whether an answer is still wanted: about the interaction the view is
    /// on, to the outstanding request, from the generation it was asked in.
    pub fn accepts(&self, event: &LoadEvent) -> (r: bool)
        ensures
            r == self.wants(*event),
    {
        let outstanding = match &self.pending {
            Some(request_id) => same(request_id.as_str(), event.request_id.as_str()),
            None => false,
        };
        event.generation == self.generation && same(event.id.as_str(), self.active_id.as_str())
            && outstanding
    }

    /// The outstanding request has been answered.
    pub fn answered(&mut self)
        ensures
            *final(self) == (Loads { pending: None, ..*old(self) }),
    {
        self.pending = None;
    }

    /// Whether a snapshot is the one asked for under `request_id`.
    pub fn matches(&self, snapshot: &InteractionSnapshot, request_id: &str) -> (r: bool)
        ensures
            r == (snapshot.request_id@ == request_id@ && snapshot.interaction.id@
                == self.active_id@),
    {
        same(snapshot.request_id.as_str(), request_id) && same(
            snapshot.interaction.id.as_str(),
            self.active_id.as_str(),
        )
    }

    /// The request an answer came under.
    pub fn request_id_of(event: &LoadEvent) -> (r: &str)
        ensures
            r@ == event.request_id@,
    {
        event.request_id.as_str()
    }

    /// Whether an answer is awaited.
    pub fn is_waiting(&self) -> (r: bool)
        ensures
            r == self.pending is Some,
    {
        self.pending.is_some()
    }
}

/// An answer that was wanted before the view moved is not wanted after,
/// whatever the view moved to and even where it asked for the same
/// interaction again.
pub proof fn law_a_superseded_answer_is_rejected(
    before: Loads,
    event: LoadEvent,
    id: String,
    pending: Option<String>,
)
    requires
        before.wants(event),
    ensures
        !(Loads { active_id: id, generation: next_generation(before.generation), pending }).wants(
            event,
        ),
{
}

/// The answer to the outstanding request is wanted once.
pub proof fn law_an_answer_is_accepted_once(before: Loads, event: LoadEvent)
    ensures
        !(Loads { pending: None, ..before }).wants(event),
{
}

} // verus!
