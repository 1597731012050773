//! The pickers: sessions, Workspaces, live interactions and sandbox templates.

use vstd::prelude::*;

use crate::activity::elapsed;
use crate::interactions::{find_id, first_with_id, listed, positions, str_view};
use crate::key::KeyCode;
use crate::launch::LaunchScope;
use crate::order::{reorders, stable_sort, stably_sorted, values, without_ranks, Ranked};
use crate::protocol::{
    AgentEvent, InteractionSummary, InteractionUpdate, LogEntry, LogLevel, StoredSession,
    WorkspaceSummary,
};
use crate::text::{
    chars_of, contains_text, control, holds, is_control, position_of, same, same_list, trim, trimmed,
    views,
};
use crate::composer::drop_last_char;

verus! {

/// How long the cursor rests on a row before its preview is loaded.
pub const PREVIEW_SETTLE_MS: u64 = 120;

/// How often the Workspace picker asks which interactions are live.
pub const LIVENESS_REFRESH_MS: u64 = 2_000;

/// How many characters the name of a session may have.
pub const NAME_LIMIT: usize = 80;

// --- Moving through a list ---------------------------------------------------

/// One row further down a list of `count`.
pub open spec fn below(at: usize, count: nat) -> usize {
    if count == 0 {
        0
    } else if at < count - 1 {
        (at + 1) as usize
    } else {
        (count - 1) as usize
    }
}

/// One row further up.
pub open spec fn above(at: usize) -> usize {
    if at > 0 {
        (at - 1) as usize
    } else {
        0
    }
}

fn step_down(at: usize, count: usize) -> (r: usize)
    ensures
        r == below(at, count as nat),
{
    let last: usize = count.saturating_sub(1);
    if at < last {
        at + 1
    } else {
        last
    }
}

/// Whether a key moves down a list.
pub open spec fn goes_down(code: KeyCode) -> bool {
    code == KeyCode::Char('j') || code == KeyCode::Down
}

/// Whether a key moves up a list.
pub open spec fn goes_up(code: KeyCode) -> bool {
    code == KeyCode::Char('k') || code == KeyCode::Up
}

/// Whether a key leaves a picker.
pub open spec fn backs_out(code: KeyCode) -> bool {
    code == KeyCode::Char('q') || code == KeyCode::Esc
}

// --- Previews ----------------------------------------------------------------

/// What is previewed of the row under the cursor.
#[derive(Debug, PartialEq, Eq)]
pub struct Reading {
    pub id: String,
    /// How far the updates of a live interaction are read.
    pub cursor: u64,
    pub updates: Vec<InteractionUpdate>,
    /// Whether an interaction is live behind it.
    pub live: bool,
    /// Since when the cursor rests on the row, while nothing is loaded.
    pub settle_from: Option<u64>,
}

/// Whether a row's preview is to be loaded: the cursor has rested on it.
pub open spec fn rested(since: Option<u64>, now: u64) -> bool {
    since matches Some(since) && elapsed(since, now) >= PREVIEW_SETTLE_MS
}

/// Whether an update is this error in the log.
pub open spec fn is_error(update: InteractionUpdate, message: Seq<char>) -> bool {
    update matches InteractionUpdate::Log(entry) && entry.level == LogLevel::Error
        && entry.message@ == message
}

/// Whether the last update is a log entry with these words.
pub open spec fn said_last(updates: Seq<InteractionUpdate>, message: Seq<char>) -> bool {
    updates.len() > 0 && (updates.last() matches InteractionUpdate::Log(entry) && entry.message@
        == message)
}

/// Whether an error was added to the updates, once in a row.
pub open spec fn complained(
    before: Seq<InteractionUpdate>,
    message: Seq<char>,
    after: Seq<InteractionUpdate>,
) -> bool {
    if said_last(before, message) {
        after == before
    } else {
        after.len() == before.len() + 1 && after.drop_last() == before && is_error(
            after.last(),
            message,
        )
    }
}

/// The events of a journal that are shown, as updates.
pub open spec fn shown_events(events: Seq<AgentEvent>) -> Seq<InteractionUpdate> {
    events.filter(|e: AgentEvent| e !is Unknown).map_values(
        |e: AgentEvent| InteractionUpdate::Event(e),
    )
}

/// Updates without wire lines.
pub open spec fn without_raw(updates: Seq<InteractionUpdate>) -> Seq<InteractionUpdate> {
    updates.filter(|u: InteractionUpdate| u !is Raw)
}

impl Reading {
    /// Whether nothing is previewed.
    pub open spec fn is_blank(self) -> bool {
        &&& self.id@ == Seq::<char>::empty()
        &&& self.updates@ == Seq::<InteractionUpdate>::empty()
        &&& self == (Reading {
            id: self.id,
            cursor: 0,
            updates: self.updates,
            live: false,
            settle_from: None,
        })
    }

    pub fn new() -> (r: Reading)
        ensures
            r.is_blank(),
    {
        Reading {
            id: String::new(),
            cursor: 0,
            updates: Vec::new(),
            live: false,
            settle_from: None,
        }
    }

    /// Whether turning to a row leads from one preview to another. Another row
    /// starts from nothing.
    pub open spec fn turned(self, id: String, now: u64, after: Reading) -> bool {
        if self.id@ == id@ {
            after == self
        } else {
            &&& after.updates@ == Seq::<InteractionUpdate>::empty()
            &&& after == (Reading {
                id,
                cursor: 0,
                updates: after.updates,
                live: false,
                settle_from: Some(now),
            })
        }
    }

    /// Turn to a row, and say whether its preview is to be loaded now.
    pub fn turn(&mut self, id: &String, now: u64) -> (due: bool)
        ensures
            due == (old(self).id@ == id@ && rested(old(self).settle_from, now)),
            if due {
                *final(self) == (Reading { settle_from: None, ..*old(self) })
            } else {
                old(self).turned(*id, now, *final(self))
            },
    {
        if !same(self.id.as_str(), id.as_str()) {
            self.id = id.clone();
            self.cursor = 0;
            self.updates = Vec::new();
            self.live = false;
            self.settle_from = Some(now);
            return false;
        }
        if let Some(since) = self.settle_from {
            if now.saturating_sub(since) >= PREVIEW_SETTLE_MS {
                self.settle_from = None;
                return true;
            }
        }
        false
    }

    /// Take note of which interactions are live. Whether the journal is to be
    /// read instead is returned.
    pub fn found(&mut self, interactions: &Vec<InteractionSummary>) -> (stored: bool)
        ensures
            stored == !listed(interactions@, old(self).id@),
            *final(self) == (Reading { live: !stored, ..*old(self) }),
    {
        let live = find_id(interactions, self.id.as_str()).is_some();
        self.live = live;
        !live
    }

    /// Take the events of the journal, or why it could not be read.
    pub fn stored(&mut self, result: Result<Vec<AgentEvent>, String>)
        ensures
            match result {
                Ok(events) => final(self).updates@ == old(self).updates@ + shown_events(events@),
                Err(error) => final(self).updates@.len() == old(self).updates@.len() + 1
                    && final(self).updates@.drop_last() == old(self).updates@ && is_error(
                    final(self).updates@.last(),
                    "could not load session log: "@ + error@,
                ),
            },
            *final(self) == (Reading { updates: final(self).updates, ..*old(self) }),
    {
        match result {
            Ok(events) => {
                let mut shown = events_to_show(events);
                self.updates.append(&mut shown);
            },
            Err(error) => {
                self.updates.push(
                    InteractionUpdate::Log(
                        LogEntry::error("could not load session log: ".to_owned().concat(
                            error.as_str(),
                        )),
                    ),
                );
                assert(self.updates@.drop_last() =~= old(self).updates@);
            },
        }
    }

    /// Take the next updates of a live interaction and where those after them
    /// start, or why they could not be read.
    pub fn polled(&mut self, result: Result<(Vec<InteractionUpdate>, u64), String>)
        ensures
            match result {
                Ok((updates, next)) => final(self).updates@ == old(self).updates@ + without_raw(
                    updates@,
                ) && final(self).cursor == next,
                Err(error) => complained(
                    old(self).updates@,
                    "could not load current log: "@ + error@,
                    final(self).updates@,
                ) && final(self).cursor == old(self).cursor,
            },
            *final(self) == (Reading {
                updates: final(self).updates,
                cursor: final(self).cursor,
                ..*old(self)
            }),
    {
        match result {
            Ok((updates, next)) => {
                self.cursor = next;
                let mut shown = drop_raw(updates);
                self.updates.append(&mut shown);
            },
            Err(error) => {
                let message = "could not load current log: ".to_owned().concat(error.as_str());
                if !ends_with_log(&self.updates, message.as_str()) {
                    self.updates.push(InteractionUpdate::Log(LogEntry::error(message)));
                    assert(self.updates@.drop_last() =~= old(self).updates@);
                }
            },
        }
    }

    /// Forget the row, so that it is loaded anew.
    pub fn forget(&mut self)
        ensures
            final(self).id@ == Seq::<char>::empty(),
            *final(self) == (Reading { id: final(self).id, ..*old(self) }),
    {
        self.id = String::new();
    }

    /// Whether `after` previews another row from the beginning.
    pub open spec fn starts_over(self, after: Reading) -> bool {
        &&& after.updates@ == Seq::<InteractionUpdate>::empty()
        &&& after == (Reading { id: after.id, cursor: 0, updates: after.updates, ..self })
    }

    /// Turn to nothing: there is no row.
    pub fn clear(&mut self)
        ensures
            final(self).id@ == Seq::<char>::empty(),
            old(self).starts_over(*final(self)),
    {
        self.id = String::new();
        self.cursor = 0;
        self.updates = Vec::new();
    }
}

fn ends_with_log(updates: &Vec<InteractionUpdate>, message: &str) -> (r: bool)
    ensures
        r == said_last(updates@, message@),
{
    if updates.len() == 0 {
        return false;
    }
    match &updates[updates.len() - 1] {
        InteractionUpdate::Log(entry) => same(entry.message.as_str(), message),
        _ => false,
    }
}

fn events_to_show(events: Vec<AgentEvent>) -> (r: Vec<InteractionUpdate>)
    ensures
        r@ == shown_events(events@),
{
    let ghost all = events@;
    let ghost known = |e: AgentEvent| e !is Unknown;
    let ghost wrap = |e: AgentEvent| InteractionUpdate::Event(e);
    let mut rest = events;
    let mut r: Vec<InteractionUpdate> = Vec::new();
    let ghost mut done: int = 0;
    proof {
        reveal_with_fuel(Seq::filter, 1);
        assert(all.take(0) =~= Seq::<AgentEvent>::empty());
        assert(r@ =~= all.take(0).filter(known).map_values(wrap));
    }
    while rest.len() > 0
        invariant
            0 <= done <= all.len(),
            rest@ == all.skip(done),
            known == (|e: AgentEvent| e !is Unknown),
            wrap == (|e: AgentEvent| InteractionUpdate::Event(e)),
            r@ == all.take(done).filter(known).map_values(wrap),
        decreases rest@.len(),
    {
        let event = rest.remove(0);
        proof {
            assert(all.skip(done).remove(0) =~= all.skip(done + 1));
            assert(all.take(done + 1).drop_last() =~= all.take(done));
            assert(all.take(done + 1).last() == event);
            reveal_with_fuel(Seq::filter, 1);
        }
        let shown = match &event {
            AgentEvent::Unknown { .. } => false,
            _ => true,
        };
        if shown {
            r.push(InteractionUpdate::Event(event));
            assert(r@ =~= all.take(done + 1).filter(known).map_values(wrap));
        }
        proof {
            done = done + 1;
        }
    }
    assert(all.take(all.len() as int) =~= all);
    r
}

fn drop_raw(updates: Vec<InteractionUpdate>) -> (r: Vec<InteractionUpdate>)
    ensures
        r@ == without_raw(updates@),
{
    let ghost all = updates@;
    let ghost kept = |u: InteractionUpdate| u !is Raw;
    let mut rest = updates;
    let mut r: Vec<InteractionUpdate> = Vec::new();
    let ghost mut done: int = 0;
    proof {
        reveal_with_fuel(Seq::filter, 1);
        assert(all.take(0) =~= Seq::<InteractionUpdate>::empty());
    }
    while rest.len() > 0
        invariant
            0 <= done <= all.len(),
            rest@ == all.skip(done),
            kept == (|u: InteractionUpdate| u !is Raw),
            r@ == all.take(done).filter(kept),
        decreases rest@.len(),
    {
        let update = rest.remove(0);
        proof {
            assert(all.skip(done).remove(0) =~= all.skip(done + 1));
            assert(all.take(done + 1).drop_last() =~= all.take(done));
            assert(all.take(done + 1).last() == update);
            reveal_with_fuel(Seq::filter, 1);
        }
        let wire = match &update {
            InteractionUpdate::Raw(_) => true,
            _ => false,
        };
        if !wire {
            r.push(update);
        }
        proof {
            done = done + 1;
        }
    }
    assert(all.take(all.len() as int) =~= all);
    r
}

// --- Sessions ----------------------------------------------------------------

/// The session picker: the selected row, and what is previewed of it.
#[derive(Debug, PartialEq, Eq)]
pub struct SessionPicker {
    pub selected: usize,
    pub reading: Reading,
}

/// What a key in the session picker decides.
#[derive(Debug, PartialEq, Eq)]
pub enum SessionPick {
    /// Nothing yet.
    Open,
    Cancel,
    /// Open this session.
    Choose(String),
    /// Ask for the name of the session in this row.
    Rename(usize),
    /// Edit the notes of the session in this row.
    Notes(usize),
    /// Convert this session to the other provider, and open the result.
    Convert(String),
}

impl SessionPicker {
    pub fn new() -> (r: SessionPicker)
        ensures
            r.selected == 0,
            r.reading.is_blank(),
    {
        SessionPicker { selected: 0, reading: Reading::new() }
    }

    /// Turn the preview to the selected session, and say whether it is to be
    /// loaded now.
    pub fn look(&mut self, sessions: &Vec<StoredSession>, now: u64) -> (due: bool)
        ensures
            if old(self).selected < sessions@.len() {
                let id = sessions@[old(self).selected as int].id;
                &&& due == (old(self).reading.id@ == id@ && rested(
                    old(self).reading.settle_from,
                    now,
                ))
                &&& if due {
                    final(self).reading == (Reading { settle_from: None, ..old(self).reading })
                } else {
                    old(self).reading.turned(id, now, final(self).reading)
                }
            } else {
                !due && final(self).reading == old(self).reading
            },
            final(self).selected == old(self).selected,
    {
        if self.selected < sessions.len() {
            self.reading.turn(&sessions[self.selected].id, now)
        } else {
            false
        }
    }

    /// Whether the preview is still to be loaded.
    pub fn is_loading(&self) -> (r: bool)
        ensures
            r == (self.reading.settle_from is Some),
    {
        self.reading.settle_from.is_some()
    }

    /// Whether a key leads from this picker to another and this decision.
    pub open spec fn keyed(
        self,
        sessions: Seq<StoredSession>,
        code: KeyCode,
        after: SessionPicker,
        pick: SessionPick,
    ) -> bool {
        if backs_out(code) {
            after == self && pick is Cancel
        } else if goes_down(code) {
            after == (SessionPicker { selected: below(self.selected, sessions.len()), ..self })
                && pick is Open
        } else if goes_up(code) {
            after == (SessionPicker { selected: above(self.selected), ..self }) && pick is Open
        } else {
            after == self && if self.selected >= sessions.len() {
                pick is Open
            } else if code == KeyCode::Enter {
                pick == SessionPick::Choose(sessions[self.selected as int].id)
            } else if code == KeyCode::Char('r') {
                pick == SessionPick::Rename(self.selected)
            } else if code == KeyCode::Char('e') {
                pick == SessionPick::Notes(self.selected)
            } else if code == KeyCode::Char('x') {
                pick == SessionPick::Convert(sessions[self.selected as int].id)
            } else {
                pick is Open
            }
        }
    }

    /// Take a key.
    pub fn key(&mut self, sessions: &Vec<StoredSession>, code: KeyCode) -> (r: SessionPick)
        ensures
            old(self).keyed(sessions@, code, *final(self), r),
    {
        match code {
            KeyCode::Char('q') | KeyCode::Esc => {
                return SessionPick::Cancel;
            },
            KeyCode::Char('j') | KeyCode::Down => {
                self.selected = step_down(self.selected, sessions.len());
                return SessionPick::Open;
            },
            KeyCode::Char('k') | KeyCode::Up => {
                self.selected = self.selected.saturating_sub(1);
                return SessionPick::Open;
            },
            _ => {},
        }
        if self.selected >= sessions.len() {
            return SessionPick::Open;
        }
        match code {
            KeyCode::Enter => SessionPick::Choose(sessions[self.selected].id.clone()),
            KeyCode::Char('r') => SessionPick::Rename(self.selected),
            KeyCode::Char('e') => SessionPick::Notes(self.selected),
            KeyCode::Char('x') => SessionPick::Convert(sessions[self.selected].id.clone()),
            _ => SessionPick::Open,
        }
    }
}

/// How the prompt for a name ended.
#[derive(Clone, Copy, Debug, PartialEq, Eq, Structural)]
pub enum NameEnd {
    Cancelled,
    Accepted,
}

/// Take a key in the prompt for a session's name.
pub fn read_session_name(value: &mut String, code: KeyCode) -> (r: Option<NameEnd>)
    ensures
        r == match code {
            KeyCode::Esc => Some(NameEnd::Cancelled),
            KeyCode::Enter => Some(NameEnd::Accepted),
            _ => None,
        },
        final(value)@ == match code {
            KeyCode::Backspace => if old(value)@.len() > 0 {
                old(value)@.drop_last()
            } else {
                old(value)@
            },
            KeyCode::Char(ch) => if old(value)@.len() < NAME_LIMIT && !is_control(ch) {
                old(value)@.push(ch)
            } else {
                old(value)@
            },
            _ => old(value)@,
        },
{
    match code {
        KeyCode::Esc => Some(NameEnd::Cancelled),
        KeyCode::Enter => Some(NameEnd::Accepted),
        KeyCode::Backspace => {
            drop_last_char(value);
            None
        },
        KeyCode::Char(ch) => {
            if chars_of(value.as_str()).len() < NAME_LIMIT && !control(ch) {
                value.push(ch);
            }
            None
        },
        _ => None,
    }
}

/// The name a session is given: none where the prompt held blanks alone.
pub fn name_to_give(value: String) -> (r: Option<String>)
    ensures
        r == if trimmed(value@).len() > 0 {
            Some(value)
        } else {
            None
        },
{
    if trim(value.as_str()).as_str().is_empty() {
        None
    } else {
        Some(value)
    }
}

// --- Workspaces --------------------------------------------------------------

/// What the Workspace picker chose.
#[derive(Debug, PartialEq, Eq)]
pub enum WorkspaceChoice {
    /// The Workspace in this row.
    Existing(usize),
    CreateCurrentDirectory,
}

/// What a key in the Workspace picker decides.
#[derive(Debug, PartialEq, Eq)]
pub enum WorkspacePick {
    Open,
    Cancel,
    Choose(WorkspaceChoice),
    /// Edit the notes of the Workspace in this row.
    Notes(usize),
}

/// The Workspace picker: the selected row, when liveness was last asked for,
/// and which Workspace's sessions are previewed.
#[derive(Debug, PartialEq, Eq)]
pub struct WorkspacePicker {
    pub selected: usize,
    pub refreshed: u64,
    pub preview_id: String,
    pub sessions: Vec<StoredSession>,
    pub settle_from: Option<u64>,
}

impl WorkspacePicker {
    pub fn new(now: u64) -> (r: WorkspacePicker)
        ensures
            r.selected == 0,
            r.refreshed == now,
            r.preview_id@ == Seq::<char>::empty(),
            r.sessions@ == Seq::<StoredSession>::empty(),
            r.settle_from is None,
    {
        WorkspacePicker {
            selected: 0,
            refreshed: now,
            preview_id: String::new(),
            sessions: Vec::new(),
            settle_from: None,
        }
    }

    /// Turn the preview to the selected Workspace, and say whether its sessions
    /// are to be listed now.
    pub fn look(&mut self, workspaces: &Vec<WorkspaceSummary>, now: u64) -> (due: bool)
        ensures
            if old(self).selected >= workspaces@.len() {
                !due && *final(self) == *old(self)
            } else {
                let id = workspaces@[old(self).selected as int].id;
                &&& due == (old(self).preview_id@ == id@ && rested(old(self).settle_from, now))
                &&& if old(self).preview_id@ != id@ {
                    &&& final(self).sessions@ == Seq::<StoredSession>::empty()
                    &&& *final(self) == (WorkspacePicker {
                        preview_id: id,
                        sessions: final(self).sessions,
                        settle_from: Some(now),
                        ..*old(self)
                    })
                } else if due {
                    *final(self) == (WorkspacePicker { settle_from: None, ..*old(self) })
                } else {
                    *final(self) == *old(self)
                }
            },
    {
        if self.selected >= workspaces.len() {
            return false;
        }
        if !same(self.preview_id.as_str(), workspaces[self.selected].id.as_str()) {
            self.preview_id = workspaces[self.selected].id.clone();
            self.sessions = Vec::new();
            self.settle_from = Some(now);
            return false;
        }
        if let Some(since) = self.settle_from {
            if now.saturating_sub(since) >= PREVIEW_SETTLE_MS {
                self.settle_from = None;
                return true;
            }
        }
        false
    }

    /// Take the sessions of the previewed Workspace; none where they could not
    /// be listed.
    pub fn listed(&mut self, sessions: Option<Vec<StoredSession>>)
        ensures
            match sessions {
                Some(sessions) => final(self).sessions == sessions,
                None => final(self).sessions@ == Seq::<StoredSession>::empty(),
            },
            *final(self) == (WorkspacePicker { sessions: final(self).sessions, ..*old(self) }),
    {
        self.sessions = match sessions {
            Some(sessions) => sessions,
            None => Vec::new(),
        };
    }

    /// Whether liveness is to be asked for again now.
    pub fn refresh_due(&mut self, now: u64) -> (due: bool)
        ensures
            due == (elapsed(old(self).refreshed, now) >= LIVENESS_REFRESH_MS),
            *final(self) == (WorkspacePicker {
                refreshed: if due {
                    now
                } else {
                    old(self).refreshed
                },
                ..*old(self)
            }),
    {
        if now.saturating_sub(self.refreshed) >= LIVENESS_REFRESH_MS {
            self.refreshed = now;
            return true;
        }
        false
    }

    /// Whether a key leads from this picker to another and this decision.
    pub open spec fn keyed(
        self,
        count: nat,
        code: KeyCode,
        after: WorkspacePicker,
        pick: WorkspacePick,
    ) -> bool {
        if backs_out(code) {
            after == self && pick is Cancel
        } else if goes_down(code) {
            after == (WorkspacePicker { selected: below(self.selected, count), ..self }) && pick
                is Open
        } else if goes_up(code) {
            after == (WorkspacePicker { selected: above(self.selected), ..self }) && pick is Open
        } else if code == KeyCode::Char('c') {
            after == self && pick == WorkspacePick::Choose(WorkspaceChoice::CreateCurrentDirectory)
        } else {
            after == self && pick == if self.selected < count && code == KeyCode::Enter {
                WorkspacePick::Choose(WorkspaceChoice::Existing(self.selected))
            } else if self.selected < count && code == KeyCode::Char('e') {
                WorkspacePick::Notes(self.selected)
            } else {
                WorkspacePick::Open
            }
        }
    }

    /// Take a key.
    pub fn key(&mut self, workspaces: &Vec<WorkspaceSummary>, code: KeyCode) -> (r: WorkspacePick)
        ensures
            old(self).keyed(workspaces@.len(), code, *final(self), r),
    {
        let count: usize = workspaces.len();
        match code {
            KeyCode::Char('q') | KeyCode::Esc => WorkspacePick::Cancel,
            KeyCode::Char('j') | KeyCode::Down => {
                self.selected = step_down(self.selected, count);
                WorkspacePick::Open
            },
            KeyCode::Char('k') | KeyCode::Up => {
                self.selected = self.selected.saturating_sub(1);
                WorkspacePick::Open
            },
            KeyCode::Char('c') => WorkspacePick::Choose(WorkspaceChoice::CreateCurrentDirectory),
            KeyCode::Enter => if self.selected < count {
                WorkspacePick::Choose(WorkspaceChoice::Existing(self.selected))
            } else {
                WorkspacePick::Open
            },
            KeyCode::Char('e') => if self.selected < count {
                WorkspacePick::Notes(self.selected)
            } else {
                WorkspacePick::Open
            },
            _ => WorkspacePick::Open,
        }
    }
}

/// Whether an interaction takes messages in a Workspace.
pub open spec fn is_live_in(interaction: InteractionSummary, workspace: Seq<char>) -> bool {
    interaction.accepting && interaction.workspace_id@ == workspace
}

/// Whether a Workspace has an interaction that takes messages.
pub open spec fn has_live(workspace: WorkspaceSummary, interactions: Seq<InteractionSummary>) -> bool {
    exists|i: int|
        0 <= i < interactions.len() && #[trigger] is_live_in(interactions[i], workspace.id@)
}

/// Whether a Workspace has an interaction that takes messages.
pub fn has_live_interaction(
    workspace: &WorkspaceSummary,
    interactions: &Vec<InteractionSummary>,
) -> (r: bool)
    ensures
        r == has_live(*workspace, interactions@),
{
    let mut i: usize = 0;
    while i < interactions.len()
        invariant
            i <= interactions@.len(),
            forall|j: int|
                0 <= j < i ==> !#[trigger] is_live_in(interactions@[j], workspace.id@),
        decreases interactions.len() - i,
    {
        if interactions[i].accepting && same(
            interactions[i].workspace_id.as_str(),
            workspace.id.as_str(),
        ) {
            assert(is_live_in(interactions@[i as int], workspace.id@));
            return true;
        }
        i = i + 1;
    }
    false
}

/// What Workspaces are ordered by: one with live work first, then the one
/// opened last, then the one made last.
pub struct Recency {
    pub live: bool,
    pub accessed: u64,
    pub created: u64,
}

impl Ranked for Recency {
    open spec fn ranks(&self, other: &Self) -> bool {
        if self.live != other.live {
            self.live
        } else if self.accessed != other.accessed {
            self.accessed > other.accessed
        } else {
            self.created >= other.created
        }
    }

    proof fn rank_total(a: &Self, b: &Self) {
    }

    proof fn rank_chain(a: &Self, b: &Self, c: &Self) {
    }

    fn may_precede(&self, other: &Self) -> (r: bool) {
        if self.live != other.live {
            self.live
        } else if self.accessed != other.accessed {
            self.accessed > other.accessed
        } else {
            self.created >= other.created
        }
    }
}

/// What a Workspace is ordered by.
pub open spec fn recency(workspace: WorkspaceSummary, interactions: Seq<InteractionSummary>) -> Recency {
    Recency {
        live: has_live(workspace, interactions),
        accessed: workspace.last_accessed_at_ms,
        created: workspace.created_at_ms,
    }
}

/// Each Workspace with what it is ordered by.
pub open spec fn by_recency(
    workspaces: Seq<WorkspaceSummary>,
    interactions: Seq<InteractionSummary>,
) -> Seq<(Recency, WorkspaceSummary)> {
    workspaces.map_values(|w: WorkspaceSummary| (recency(w, interactions), w))
}

/// Order Workspaces for the picker: those with live work first, and otherwise
/// the one opened last first.
pub fn sort_workspaces(
    workspaces: Vec<WorkspaceSummary>,
    interactions: &Vec<InteractionSummary>,
) -> (r: Vec<WorkspaceSummary>)
    ensures
        stably_sorted(by_recency(workspaces@, interactions@), by_recency(r@, interactions@)),
{
    let ghost before = workspaces@;
    let ghost ranked = by_recency(before, interactions@);
    let mut rest = workspaces;
    let mut pairs: Vec<(Recency, WorkspaceSummary)> = Vec::new();
    while rest.len() > 0
        invariant
            ranked == by_recency(before, interactions@),
            before.len() == pairs@.len() + rest@.len(),
            rest@ == before.skip(pairs@.len() as int),
            pairs@ == ranked.take(pairs@.len() as int),
        decreases rest@.len(),
    {
        let workspace = rest.remove(0);
        let ghost n = pairs@.len() as int;
        assert(workspace == before[n]);
        assert(before.skip(n).remove(0) =~= before.skip(n + 1));
        let rank = Recency {
            live: has_live_interaction(&workspace, interactions),
            accessed: workspace.last_accessed_at_ms,
            created: workspace.created_at_ms,
        };
        pairs.push((rank, workspace));
        assert(ranked.take(n + 1) =~= ranked.take(n).push(ranked[n]));
    }
    assert(ranked.take(before.len() as int) =~= ranked);
    let held = stable_sort(pairs);
    proof {
        let order = choose|order: Seq<int>| reorders(order, ranked, held@);
        assert(by_recency(values(held@), interactions@) =~= held@) by {
            assert forall|i: int| 0 <= i < held@.len() implies by_recency(
                values(held@),
                interactions@,
            )[i] == held@[i] by {
                assert(0 <= order[i] < before.len());
            }
        }
    }
    without_ranks(held)
}

// --- Live interactions -------------------------------------------------------

/// How the interactions picker shows its list.
#[derive(Clone, Copy, Debug, PartialEq, Eq, Structural)]
pub struct InteractionsView {
    pub only_current_workspace: bool,
    pub grouped: bool,
}

impl Default for InteractionsView {
    fn default() -> (r: InteractionsView)
        ensures
            r == (InteractionsView { only_current_workspace: false, grouped: false }),
    {
        InteractionsView { only_current_workspace: false, grouped: false }
    }
}

/// One row: the heading of a Workspace, or an interaction by its place in the
/// list.
#[derive(Debug, PartialEq, Eq)]
pub enum InteractionRow {
    Workspace(String),
    Interaction(usize),
}

/// A row, in the mathematics.
pub ghost enum RowView {
    Workspace(Seq<char>),
    Interaction(int),
}

impl View for InteractionRow {
    type V = RowView;

    open spec fn view(&self) -> RowView {
        match self {
            InteractionRow::Workspace(name) => RowView::Workspace(name@),
            InteractionRow::Interaction(index) => RowView::Interaction(*index as int),
        }
    }
}

/// What rows show.
pub open spec fn row_views(rows: Seq<InteractionRow>) -> Seq<RowView> {
    rows.map_values(|row: InteractionRow| row@)
}

/// What a Workspace is called: its name, and otherwise its directory's.
pub open spec fn display_name(workspace: WorkspaceSummary) -> Seq<char> {
    match workspace.name {
        Some(name) => name@,
        None => match crate::path::last_name(workspace.host_path@) {
            Some(name) => name,
            None => workspace.host_path@,
        },
    }
}

/// What a Workspace is called.
pub fn workspace_display_name(workspace: &WorkspaceSummary) -> (r: String)
    ensures
        r@ == display_name(*workspace),
{
    match &workspace.name {
        Some(name) => name.clone(),
        None => match crate::path::file_name(workspace.host_path.as_str()) {
            Some(name) => name,
            None => workspace.host_path.clone(),
        },
    }
}

/// What the first Workspace with this id is called, and the id where none is
/// known.
pub open spec fn name_of(workspaces: Seq<WorkspaceSummary>, id: Seq<char>) -> Seq<char>
    decreases workspaces.len(),
{
    if workspaces.len() == 0 {
        id
    } else if workspaces[0].id@ == id {
        display_name(workspaces[0])
    } else {
        name_of(workspaces.skip(1), id)
    }
}

/// What a Workspace is called, and its id where it is not known.
pub fn workspace_name(workspaces: &Vec<WorkspaceSummary>, workspace_id: &str) -> (r: String)
    ensures
        r@ == name_of(workspaces@, workspace_id@),
{
    let mut i: usize = 0;
    assert(workspaces@.skip(0) =~= workspaces@);
    while i < workspaces.len()
        invariant
            i <= workspaces@.len(),
            name_of(workspaces@, workspace_id@) == name_of(
                workspaces@.skip(i as int),
                workspace_id@,
            ),
        decreases workspaces.len() - i,
    {
        assert(workspaces@.skip(i as int).skip(1) =~= workspaces@.skip(i + 1));
        if same(workspaces[i].id.as_str(), workspace_id) {
            return workspace_display_name(&workspaces[i]);
        }
        i = i + 1;
    }
    workspace_id.to_owned()
}

/// Whether the interaction at `i` is listed.
pub open spec fn included(
    items: Seq<InteractionSummary>,
    current: Option<Seq<char>>,
    view: InteractionsView,
    i: int,
) -> bool {
    match current {
        Some(id) => view.only_current_workspace ==> items[i].workspace_id@ == id,
        None => true,
    }
}

/// The listed among the first `n` interactions.
pub open spec fn included_among(
    items: Seq<InteractionSummary>,
    current: Option<Seq<char>>,
    view: InteractionsView,
    n: nat,
) -> Seq<int>
    decreases n,
{
    if n == 0 {
        Seq::empty()
    } else {
        let before = included_among(items, current, view, (n - 1) as nat);
        if included(items, current, view, n - 1) {
            before.push(n - 1)
        } else {
            before
        }
    }
}

/// Whether an interaction belongs to a Workspace.
pub open spec fn belongs(items: Seq<InteractionSummary>, id: Seq<char>) -> spec_fn(int) -> bool {
    |i: int| items[i].workspace_id@ == id
}

/// Whether an interaction belongs to another Workspace.
pub open spec fn differs(items: Seq<InteractionSummary>, id: Seq<char>) -> spec_fn(int) -> bool {
    |i: int| items[i].workspace_id@ != id
}

/// Those of these interactions that belong to a Workspace.
pub open spec fn of_workspace(items: Seq<InteractionSummary>, among: Seq<int>, id: Seq<char>) -> Seq<int> {
    among.filter(belongs(items, id))
}

/// Those of these interactions that belong to another Workspace.
pub open spec fn of_others(items: Seq<InteractionSummary>, among: Seq<int>, id: Seq<char>) -> Seq<int> {
    among.filter(differs(items, id))
}

/// Interactions as rows.
pub open spec fn plain_rows(among: Seq<int>) -> Seq<RowView> {
    among.map_values(|i: int| RowView::Interaction(i))
}

/// Interactions as rows under the headings of their Workspaces: the Workspace
/// of the first interaction leads with all of its own, and the rest follow in
/// the same way.
pub open spec fn grouped_rows(
    items: Seq<InteractionSummary>,
    workspaces: Seq<WorkspaceSummary>,
    among: Seq<int>,
) -> Seq<RowView>
    decreases among.len(),
{
    if among.len() == 0 {
        Seq::empty()
    } else {
        proof {
            lemma_others_are_fewer(items, among);
        }
        let id = items[among[0]].workspace_id@;
        seq![RowView::Workspace(name_of(workspaces, id))] + plain_rows(
            of_workspace(items, among, id),
        ) + grouped_rows(items, workspaces, of_others(items, among, id))
    }
}

/// A Workspace leaves fewer interactions to the others than there are, where the
/// first is its own.
pub proof fn lemma_others_are_fewer(items: Seq<InteractionSummary>, among: Seq<int>)
    requires
        among.len() > 0,
    ensures
        of_others(items, among, items[among[0]].workspace_id@).len() < among.len(),
{
    let id = items[among[0]].workspace_id@;
    let other = differs(items, id);
    let first = seq![among[0]];
    let tail = among.skip(1);
    assert(among =~= first + tail);
    Seq::filter_distributes_over_add(first, tail, other);
    assert(first.filter(other).len() == 0) by {
        reveal_with_fuel(Seq::filter, 2);
        assert(first.drop_last() =~= Seq::<int>::empty());
        assert(!other(first.last()));
    }
    tail.lemma_filter_len(other);
}

proof fn lemma_grouped_step(
    items: Seq<InteractionSummary>,
    workspaces: Seq<WorkspaceSummary>,
    among: Seq<int>,
    id: Seq<char>,
)
    requires
        among.len() > 0,
        items[among[0]].workspace_id@ == id,
    ensures
        grouped_rows(items, workspaces, among) == seq![
            RowView::Workspace(name_of(workspaces, id)),
        ] + plain_rows(of_workspace(items, among, id)) + grouped_rows(
            items,
            workspaces,
            of_others(items, among, id),
        ),
{
    lemma_others_are_fewer(items, among);
}

/// The rows of the picker.
pub open spec fn rows_shown(
    items: Seq<InteractionSummary>,
    workspaces: Seq<WorkspaceSummary>,
    current: Option<Seq<char>>,
    view: InteractionsView,
) -> Seq<RowView> {
    let among = included_among(items, current, view, items.len());
    if view.grouped {
        grouped_rows(items, workspaces, among)
    } else {
        plain_rows(among)
    }
}

fn list_included(
    items: &Vec<InteractionSummary>,
    current: Option<&str>,
    view: InteractionsView,
) -> (r: Vec<usize>)
    ensures
        positions(r@) == included_among(items@, str_view(current), view, items@.len()),
        forall|k: int| 0 <= k < r@.len() ==> #[trigger] r@[k] < items@.len(),
{
    let mut r: Vec<usize> = Vec::new();
    let mut i: usize = 0;
    assert(positions(r@) =~= Seq::<int>::empty());
    while i < items.len()
        invariant
            i <= items@.len(),
            positions(r@) == included_among(items@, str_view(current), view, i as nat),
            forall|k: int| 0 <= k < r@.len() ==> #[trigger] r@[k] < items@.len(),
        decreases items.len() - i,
    {
        let shown = match current {
            Some(id) => !view.only_current_workspace || same(items[i].workspace_id.as_str(), id),
            None => true,
        };
        if shown {
            let ghost before = r@;
            r.push(i);
            assert(positions(r@) =~= positions(before).push(i as int));
        }
        i = i + 1;
    }
    r
}

fn split_workspace(items: &Vec<InteractionSummary>, among: &Vec<usize>, id: &str) -> (r: (
    Vec<usize>,
    Vec<usize>,
))
    requires
        forall|k: int| 0 <= k < among@.len() ==> #[trigger] among@[k] < items@.len(),
    ensures
        positions(r.0@) == of_workspace(items@, positions(among@), id@),
        positions(r.1@) == of_others(items@, positions(among@), id@),
        forall|k: int| 0 <= k < r.1@.len() ==> #[trigger] r.1@[k] < items@.len(),
{
    let ghost all = positions(among@);
    let ghost own = belongs(items@, id@);
    let ghost other = differs(items@, id@);
    let mut members: Vec<usize> = Vec::new();
    let mut others: Vec<usize> = Vec::new();
    let mut k: usize = 0;
    proof {
        reveal_with_fuel(Seq::filter, 1);
        assert(all.take(0) =~= Seq::<int>::empty());
        assert(positions(members@) =~= all.take(0).filter(own));
        assert(positions(others@) =~= all.take(0).filter(other));
    }
    while k < among.len()
        invariant
            k <= among@.len(),
            all == positions(among@),
            own == belongs(items@, id@),
            other == differs(items@, id@),
            forall|j: int| 0 <= j < among@.len() ==> #[trigger] among@[j] < items@.len(),
            positions(members@) == all.take(k as int).filter(own),
            positions(others@) == all.take(k as int).filter(other),
            forall|j: int| 0 <= j < others@.len() ==> #[trigger] others@[j] < items@.len(),
        decreases among.len() - k,
    {
        let index = among[k];
        proof {
            assert(all.take(k + 1).drop_last() =~= all.take(k as int));
            assert(all.take(k + 1).last() == index as int);
            reveal_with_fuel(Seq::filter, 1);
        }
        if same(items[index].workspace_id.as_str(), id) {
            let ghost before = members@;
            members.push(index);
            assert(positions(members@) =~= positions(before).push(index as int));
        } else {
            let ghost before = others@;
            others.push(index);
            assert(positions(others@) =~= positions(before).push(index as int));
        }
        k = k + 1;
    }
    assert(all.take(all.len() as int) =~= all);
    (members, others)
}

fn push_rows(rows: &mut Vec<InteractionRow>, among: &Vec<usize>)
    ensures
        row_views(final(rows)@) == row_views(old(rows)@) + plain_rows(positions(among@)),
{
    let ghost all = plain_rows(positions(among@));
    let mut k: usize = 0;
    assert(row_views(rows@) =~= row_views(old(rows)@) + all.take(0));
    while k < among.len()
        invariant
            k <= among@.len(),
            all == plain_rows(positions(among@)),
            row_views(rows@) == row_views(old(rows)@) + all.take(k as int),
        decreases among.len() - k,
    {
        let ghost before = rows@;
        rows.push(InteractionRow::Interaction(among[k]));
        assert(row_views(rows@) =~= row_views(before).push(all[k as int]));
        assert(all.take(k + 1) =~= all.take(k as int).push(all[k as int]));
        k = k + 1;
        assert(row_views(rows@) =~= row_views(old(rows)@) + all.take(k as int));
    }
    assert(all.take(all.len() as int) =~= all);
}

/// The rows of the picker: what is left of the list in this view, under
/// headings where it is grouped.
pub fn interaction_rows(
    interactions: &Vec<InteractionSummary>,
    workspaces: &Vec<WorkspaceSummary>,
    current_workspace_id: Option<&str>,
    view: InteractionsView,
) -> (r: Vec<InteractionRow>)
    ensures
        row_views(r@) == rows_shown(
            interactions@,
            workspaces@,
            str_view(current_workspace_id),
            view,
        ),
{
    let mut rest = list_included(interactions, current_workspace_id, view);
    let mut rows: Vec<InteractionRow> = Vec::new();
    assert(row_views(rows@) =~= Seq::<RowView>::empty());
    if !view.grouped {
        push_rows(&mut rows, &rest);
        assert(row_views(rows@) =~= plain_rows(positions(rest@)));
        return rows;
    }
    let ghost among = positions(rest@);
    assert(row_views(rows@) + grouped_rows(interactions@, workspaces@, among) =~= grouped_rows(
        interactions@,
        workspaces@,
        among,
    ));
    while rest.len() > 0
        invariant
            forall|k: int| 0 <= k < rest@.len() ==> #[trigger] rest@[k] < interactions@.len(),
            row_views(rows@) + grouped_rows(interactions@, workspaces@, positions(rest@))
                == grouped_rows(interactions@, workspaces@, among),
        decreases rest@.len(),
    {
        let ghost left = positions(rest@);
        proof {
            lemma_others_are_fewer(interactions@, left);
            assert(left[0] == rest@[0] as int);
        }
        let leader = rest[0];
        let id = interactions[leader].workspace_id.clone();
        let ghost before = rows@;
        let name = workspace_name(workspaces, id.as_str());
        let ghost heading = RowView::Workspace(name@);
        rows.push(InteractionRow::Workspace(name));
        assert(row_views(rows@) =~= row_views(before).push(heading));
        let (members, others) = split_workspace(interactions, &rest, id.as_str());
        push_rows(&mut rows, &members);
        assert(positions(others@).len() == others@.len());
        assert(left.len() == rest@.len());
        rest = others;
        proof {
            let own = plain_rows(of_workspace(interactions@, left, id@));
            let more = grouped_rows(
                interactions@,
                workspaces@,
                of_others(interactions@, left, id@),
            );
            assert(left.len() > 0);
            assert(interactions@[left[0]].workspace_id@ == id@);
            lemma_grouped_step(interactions@, workspaces@, left, id@);
            assert(row_views(rows@) =~= row_views(before).push(heading) + own);
            assert(row_views(rows@) + more =~= row_views(before) + (seq![heading] + own + more));
        }
        assert(row_views(rows@) + grouped_rows(interactions@, workspaces@, positions(rest@))
            =~= row_views(before) + grouped_rows(interactions@, workspaces@, left));
    }
    assert(row_views(rows@) + grouped_rows(interactions@, workspaces@, positions(rest@))
        =~= row_views(rows@));
    rows
}

/// The interactions that rows show, in their order.
pub open spec fn shown(rows: Seq<RowView>) -> Seq<int>
    decreases rows.len(),
{
    if rows.len() == 0 {
        Seq::empty()
    } else {
        match rows.last() {
            RowView::Interaction(i) => shown(rows.drop_last()).push(i),
            RowView::Workspace(_) => shown(rows.drop_last()),
        }
    }
}

proof fn lemma_shown_joins(a: Seq<RowView>, b: Seq<RowView>)
    ensures
        shown(a + b) == shown(a) + shown(b),
    decreases b.len(),
{
    if b.len() == 0 {
        assert(a + b =~= a);
        assert(shown(a) + shown(b) =~= shown(a));
    } else {
        lemma_shown_joins(a, b.drop_last());
        assert((a + b).drop_last() =~= a + b.drop_last());
        assert((a + b).last() == b.last());
        assert(shown(a + b) =~= shown(a) + shown(b));
    }
}

proof fn lemma_plain_rows_show(among: Seq<int>)
    ensures
        shown(plain_rows(among)) == among,
    decreases among.len(),
{
    if among.len() > 0 {
        lemma_plain_rows_show(among.drop_last());
        assert(plain_rows(among).drop_last() =~= plain_rows(among.drop_last()));
        assert(plain_rows(among).last() == RowView::Interaction(among.last()));
        assert(among =~= among.drop_last().push(among.last()));
    } else {
        assert(shown(plain_rows(among)) =~= among);
    }
}

proof fn lemma_split_keeps_all(items: Seq<InteractionSummary>, among: Seq<int>, id: Seq<char>)
    ensures
        of_workspace(items, among, id).len() + of_others(items, among, id).len() == among.len(),
        forall|i: int| #[trigger]
            among.contains(i) == (of_workspace(items, among, id).contains(i) || of_others(
                items,
                among,
                id,
            ).contains(i)),
    decreases among.len(),
{
    let own = belongs(items, id);
    let other = differs(items, id);
    reveal_with_fuel(Seq::filter, 2);
    if among.len() > 0 {
        lemma_split_keeps_all(items, among.drop_last(), id);
    }
    assert forall|i: int| #[trigger]
        among.contains(i) == (of_workspace(items, among, id).contains(i) || of_others(
            items,
            among,
            id,
        ).contains(i)) by {
        if among.contains(i) {
            let k = among.index_of(i);
            if own(i) {
                among.lemma_filter_contains(own, k);
            } else {
                among.lemma_filter_contains(other, k);
            }
        }
        if of_workspace(items, among, id).contains(i) {
            among.lemma_filter_contains_rev(own, i);
        }
        if of_others(items, among, id).contains(i) {
            among.lemma_filter_contains_rev(other, i);
        }
    }
}

/// Grouping the list shows the same interactions: each that is listed, and as
/// many rows of them.
pub proof fn law_grouping_shows_the_same_interactions(
    items: Seq<InteractionSummary>,
    workspaces: Seq<WorkspaceSummary>,
    among: Seq<int>,
)
    ensures
        shown(grouped_rows(items, workspaces, among)).len() == among.len(),
        forall|i: int| #[trigger]
            shown(grouped_rows(items, workspaces, among)).contains(i) <==> among.contains(i),
        shown(plain_rows(among)) == among,
    decreases among.len(),
{
    lemma_plain_rows_show(among);
    if among.len() > 0 {
        let id = items[among[0]].workspace_id@;
        let heading = seq![RowView::Workspace(name_of(workspaces, id))];
        let own = of_workspace(items, among, id);
        let others = of_others(items, among, id);
        lemma_others_are_fewer(items, among);
        lemma_split_keeps_all(items, among, id);
        law_grouping_shows_the_same_interactions(items, workspaces, others);
        lemma_plain_rows_show(own);
        lemma_shown_joins(heading, plain_rows(own));
        lemma_shown_joins(heading + plain_rows(own), grouped_rows(items, workspaces, others));
        assert(heading.drop_last() =~= Seq::<RowView>::empty());
        assert(shown(heading) =~= Seq::<int>::empty()) by {
            reveal_with_fuel(shown, 2);
        }
        let rest = shown(grouped_rows(items, workspaces, others));
        assert(shown(grouped_rows(items, workspaces, among)) =~= own + rest);
        assert forall|i: int| #[trigger]
            shown(grouped_rows(items, workspaces, among)).contains(i) <==> among.contains(i) by {
            assert((own + rest).contains(i) <==> own.contains(i) || rest.contains(i)) by {
                if own.contains(i) {
                    let k = own.index_of(i);
                    assert((own + rest)[k] == i);
                }
                if rest.contains(i) {
                    let k = rest.index_of(i);
                    assert((own + rest)[own.len() + k] == i);
                }
            }
            assert(rest.contains(i) <==> others.contains(i));
        }
    } else {
        assert(shown(grouped_rows(items, workspaces, among)) =~= among);
    }
}

proof fn lemma_included_in_range(
    items: Seq<InteractionSummary>,
    current: Option<Seq<char>>,
    view: InteractionsView,
    n: nat,
)
    ensures
        forall|k: int|
            0 <= k < included_among(items, current, view, n).len() ==> 0
                <= #[trigger] included_among(items, current, view, n)[k] < n,
    decreases n,
{
    if n > 0 {
        let before = included_among(items, current, view, (n - 1) as nat);
        lemma_included_in_range(items, current, view, (n - 1) as nat);
        assert forall|k: int| 0 <= k < included_among(items, current, view, n).len() implies 0
            <= #[trigger] included_among(items, current, view, n)[k] < n by {
            if k < before.len() {
                assert(included_among(items, current, view, n)[k] == before[k]);
            }
        }
    }
}

/// Every interaction that a row shows is in the list.
pub proof fn law_rows_show_what_is_listed(
    items: Seq<InteractionSummary>,
    workspaces: Seq<WorkspaceSummary>,
    current: Option<Seq<char>>,
    view: InteractionsView,
    k: int,
)
    requires
        0 <= k < shown(rows_shown(items, workspaces, current, view)).len(),
    ensures
        0 <= shown(rows_shown(items, workspaces, current, view))[k] < items.len(),
{
    let among = included_among(items, current, view, items.len());
    let all = shown(rows_shown(items, workspaces, current, view));
    law_grouping_shows_the_same_interactions(items, workspaces, among);
    lemma_included_in_range(items, current, view, items.len());
    assert(all.contains(all[k]));
    assert(among.contains(all[k]));
    let j = among.index_of(all[k]);
    assert(among[j] == all[k]);
}

fn visible_in(rows: &Vec<InteractionRow>) -> (r: Vec<usize>)
    ensures
        positions(r@) == shown(row_views(rows@)),
{
    let ghost all = row_views(rows@);
    let mut r: Vec<usize> = Vec::new();
    let mut k: usize = 0;
    assert(all.take(0) =~= Seq::<RowView>::empty());
    assert(positions(r@) =~= Seq::<int>::empty());
    while k < rows.len()
        invariant
            k <= rows@.len(),
            all == row_views(rows@),
            positions(r@) == shown(all.take(k as int)),
        decreases rows.len() - k,
    {
        proof {
            assert(all.take(k + 1).drop_last() =~= all.take(k as int));
            assert(all.take(k + 1).last() == rows@[k as int]@);
        }
        if let InteractionRow::Interaction(index) = &rows[k] {
            let ghost before = r@;
            r.push(*index);
            assert(positions(r@) =~= positions(before).push(*index as int));
        }
        k = k + 1;
    }
    assert(all.take(all.len() as int) =~= all);
    r
}

/// Whether a row shows this interaction.
pub open spec fn shows(row: InteractionRow, index: usize) -> bool {
    row matches InteractionRow::Interaction(other) && other == index
}

/// Which row shows this interaction.
pub fn selected_row(rows: &Vec<InteractionRow>, selected_index: Option<usize>) -> (r: Option<usize>)
    ensures
        match selected_index {
            None => r is None,
            Some(index) => match r {
                Some(row) => row < rows@.len() && shows(rows@[row as int], index) && forall|j: int|
                    0 <= j < row ==> !shows(#[trigger] rows@[j], index),
                None => forall|j: int|
                    0 <= j < rows@.len() ==> !shows(#[trigger] rows@[j], index),
            },
        },
{
    let index = match selected_index {
        Some(index) => index,
        None => {
            return None;
        },
    };
    let mut k: usize = 0;
    while k < rows.len()
        invariant
            k <= rows@.len(),
            selected_index == Some(index),
            forall|j: int| 0 <= j < k ==> !shows(#[trigger] rows@[j], index),
        decreases rows.len() - k,
    {
        if let InteractionRow::Interaction(other) = &rows[k] {
            if *other == index {
                return Some(k);
            }
        }
        k = k + 1;
    }
    None
}

/// The interactions picker: the selected row among those that are
/// interactions, the row to return to, the view, and the preview.
#[derive(Debug, PartialEq, Eq)]
pub struct InteractionsPicker {
    pub selected: usize,
    pub refocus: Option<String>,
    pub view: InteractionsView,
    pub reading: Reading,
}

/// What a key in the interactions picker decides.
#[derive(Debug, PartialEq, Eq)]
pub enum InteractionPick {
    Open,
    Cancel,
    /// Attach to the interaction at this place.
    Attach(usize),
    /// Convert the interaction at this place; see [`Handoff`].
    Convert(usize),
    /// Stop the interaction at this place, and where that succeeds answer with
    /// [`InteractionsPicker::stopped`].
    Stop(usize),
    /// Have the server forget the interaction at this place, and answer with
    /// [`InteractionsPicker::deleted`].
    Delete(usize),
    /// Show a message.
    Message(&'static str, &'static str),
}

/// The place of the first of these interactions with this id.
pub open spec fn place_of(items: Seq<InteractionSummary>, visible: Seq<int>, id: Seq<char>) -> Option<int>
    decreases visible.len(),
{
    if visible.len() == 0 {
        None
    } else {
        match place_of(items, visible.drop_last(), id) {
            Some(place) => Some(place),
            None => if items[visible.last()].id@ == id {
                Some(visible.len() - 1)
            } else {
                None
            },
        }
    }
}

impl InteractionsPicker {
    /// Open the picker. Without a Workspace the list cannot be restricted to
    /// one.
    pub fn new(view: InteractionsView, current_workspace_id: Option<&str>) -> (r: InteractionsPicker)
        ensures
            r.selected == 0,
            r.refocus is None,
            r.view == (InteractionsView {
                only_current_workspace: view.only_current_workspace && current_workspace_id is Some,
                ..view
            }),
            r.reading.is_blank(),
    {
        InteractionsPicker {
            selected: 0,
            refocus: None,
            view: InteractionsView {
                only_current_workspace: view.only_current_workspace
                    && current_workspace_id.is_some(),
                grouped: view.grouped,
            },
            reading: Reading::new(),
        }
    }

    /// The place the selection takes among these interactions: where it was
    /// left, or where the interaction it was on now is, as far as there are
    /// rows.
    pub open spec fn placed(self, items: Seq<InteractionSummary>, visible: Seq<int>) -> usize {
        let wanted = match self.refocus {
            Some(id) => match place_of(items, visible, id@) {
                Some(place) => place as usize,
                None => self.selected,
            },
            None => self.selected,
        };
        if visible.len() == 0 {
            0
        } else if wanted < visible.len() {
            wanted
        } else {
            (visible.len() - 1) as usize
        }
    }

    /// Lay out the rows and place the selection among them. Which interaction it
    /// is on, and how many are shown, is returned with them.
    pub fn place(
        &mut self,
        interactions: &Vec<InteractionSummary>,
        workspaces: &Vec<WorkspaceSummary>,
        current_workspace_id: Option<&str>,
    ) -> (r: (Vec<InteractionRow>, Option<usize>, usize))
        ensures
            ({
                let visible = shown(row_views(r.0@));
                &&& row_views(r.0@) == rows_shown(
                    interactions@,
                    workspaces@,
                    str_view(current_workspace_id),
                    old(self).view,
                )
                &&& *final(self) == (InteractionsPicker {
                    selected: old(self).placed(interactions@, visible),
                    refocus: None,
                    ..*old(self)
                })
                &&& match r.1 {
                    Some(index) => visible.len() > 0 && index
                        == visible[final(self).selected as int] && index < interactions@.len(),
                    None => visible.len() == 0,
                }
                &&& r.2 == visible.len()
            }),
    {
        let rows = interaction_rows(interactions, workspaces, current_workspace_id, self.view);
        let visible = visible_in(&rows);
        let ghost all = shown(row_views(rows@));
        assert(all.len() == visible@.len());
        assert forall|k: int| 0 <= k < visible@.len() implies #[trigger] visible@[k]
            < interactions@.len() && all[k] == visible@[k] as int by {
            law_rows_show_what_is_listed(
                interactions@,
                workspaces@,
                str_view(current_workspace_id),
                self.view,
                k,
            );
            assert(all[k] == visible@[k] as int);
        }
        if let Some(id) = self.refocus.take() {
            if let Some(place) = find_place(interactions, &visible, id.as_str()) {
                self.selected = place;
            }
        }
        let count: usize = visible.len();
        if count == 0 {
            self.selected = 0;
            return (rows, None, count);
        }
        if self.selected >= count {
            self.selected = count - 1;
        }
        let at = visible[self.selected];
        assert(all[self.selected as int] == at as int);
        (rows, Some(at), count)
    }

    /// Turn the preview to the selected interaction.
    pub fn look(&mut self, interactions: &Vec<InteractionSummary>, at: Option<usize>)
        requires
            at matches Some(i) ==> i < interactions@.len(),
        ensures
            match at {
                Some(i) => if old(self).reading.id@ == interactions@[i as int].id@ {
                    final(self).reading == old(self).reading
                } else {
                    final(self).reading.id == interactions@[i as int].id && old(
                        self,
                    ).reading.starts_over(final(self).reading)
                },
                None => final(self).reading.id@ == Seq::<char>::empty() && old(
                    self,
                ).reading.starts_over(final(self).reading),
            },
            *final(self) == (InteractionsPicker { reading: final(self).reading, ..*old(self) }),
    {
        match at {
            Some(i) => {
                if !same(self.reading.id.as_str(), interactions[i].id.as_str()) {
                    self.reading.clear();
                    self.reading.id = interactions[i].id.clone();
                }
            },
            None => self.reading.clear(),
        }
    }

    /// Whether a key leads from this picker to another and this decision.
    /// `count` is how many interactions are shown, and `at` the place of the
    /// selected one.
    pub open spec fn keyed(
        self,
        items: Seq<InteractionSummary>,
        count: nat,
        at: Option<usize>,
        has_workspace: bool,
        code: KeyCode,
        after: InteractionsPicker,
        pick: InteractionPick,
    ) -> bool {
        let id = match at {
            Some(i) => Some(items[i as int].id),
            None => None,
        };
        if backs_out(code) {
            after == self && pick is Cancel
        } else if goes_down(code) {
            after == (InteractionsPicker { selected: below(self.selected, count), ..self }) && pick
                is Open
        } else if goes_up(code) {
            after == (InteractionsPicker { selected: above(self.selected), ..self }) && pick is Open
        } else if code == KeyCode::Char('w') && has_workspace {
            pick is Open && after == (InteractionsPicker {
                refocus: id,
                view: InteractionsView {
                    only_current_workspace: !self.view.only_current_workspace,
                    ..self.view
                },
                ..self
            })
        } else if code == KeyCode::Char('g') {
            pick is Open && after == (InteractionsPicker {
                refocus: id,
                view: InteractionsView { grouped: !self.view.grouped, ..self.view },
                ..self
            })
        } else {
            after == self && match at {
                None => pick is Open,
                Some(i) => match code {
                    KeyCode::Enter => pick == InteractionPick::Attach(i),
                    KeyCode::Char('X') => if items[i as int].accepting {
                        pick == InteractionPick::Convert(i)
                    } else {
                        pick matches InteractionPick::Message(title, words) && title@
                            == "interaction is not active"@ && words@
                            == "Only an active interaction can be converted."@
                    },
                    KeyCode::Char('S') => pick == if items[i as int].accepting {
                        InteractionPick::Stop(i)
                    } else {
                        InteractionPick::Open
                    },
                    KeyCode::Char('D') => if items[i as int].accepting {
                        pick matches InteractionPick::Message(title, words) && title@
                            == "interaction is still running"@ && words@
                            == "Stop it with S before deleting it."@
                    } else {
                        pick == InteractionPick::Delete(i)
                    },
                    _ => pick is Open,
                },
            }
        }
    }

    /// Take a key.
    pub fn key(
        &mut self,
        interactions: &Vec<InteractionSummary>,
        count: usize,
        at: Option<usize>,
        has_workspace: bool,
        code: KeyCode,
    ) -> (r: InteractionPick)
        requires
            at matches Some(i) ==> i < interactions@.len(),
        ensures
            old(self).keyed(
                interactions@,
                count as nat,
                at,
                has_workspace,
                code,
                *final(self),
                r,
            ),
    {
        match code {
            KeyCode::Char('q') | KeyCode::Esc => {
                return InteractionPick::Cancel;
            },
            KeyCode::Char('j') | KeyCode::Down => {
                self.selected = step_down(self.selected, count);
                return InteractionPick::Open;
            },
            KeyCode::Char('k') | KeyCode::Up => {
                self.selected = self.selected.saturating_sub(1);
                return InteractionPick::Open;
            },
            _ => {},
        }
        if code == KeyCode::Char('w') && has_workspace {
            self.refocus = id_at(interactions, at);
            self.view.only_current_workspace = !self.view.only_current_workspace;
            return InteractionPick::Open;
        }
        if code == KeyCode::Char('g') {
            self.refocus = id_at(interactions, at);
            self.view.grouped = !self.view.grouped;
            return InteractionPick::Open;
        }
        let i = match at {
            Some(i) => i,
            None => {
                return InteractionPick::Open;
            },
        };
        let accepting = interactions[i].accepting;
        match code {
            KeyCode::Enter => InteractionPick::Attach(i),
            KeyCode::Char('X') => if accepting {
                InteractionPick::Convert(i)
            } else {
                InteractionPick::Message(
                    "interaction is not active",
                    "Only an active interaction can be converted.",
                )
            },
            KeyCode::Char('S') => if accepting {
                InteractionPick::Stop(i)
            } else {
                InteractionPick::Open
            },
            KeyCode::Char('D') => if accepting {
                InteractionPick::Message(
                    "interaction is still running",
                    "Stop it with S before deleting it.",
                )
            } else {
                InteractionPick::Delete(i)
            },
            _ => InteractionPick::Open,
        }
    }

    /// Show an interaction as stopped once the server has stopped it. The rest of
    /// the list stays as it is.
    pub fn stopped(&self, interactions: &mut Vec<InteractionSummary>, i: usize)
        requires
            i < old(interactions)@.len(),
        ensures
            final(interactions)@ == old(interactions)@.update(
                i as int,
                InteractionSummary { accepting: false, ..old(interactions)@[i as int] },
            ),
    {
        let mut interaction = interactions.remove(i);
        interaction.accepting = false;
        interactions.insert(i, interaction);
        assert(interactions@ =~= old(interactions)@.update(i as int, interaction));
    }

    /// Take an interaction off the list once the server was asked to forget it.
    /// Whether the picker stays open is returned.
    pub fn deleted(&mut self, interactions: &mut Vec<InteractionSummary>, i: usize) -> (r: bool)
        requires
            i < old(interactions)@.len(),
        ensures
            final(interactions)@ == old(interactions)@.remove(i as int),
            r == (final(interactions)@.len() > 0),
            r ==> final(self).reading.id@ == Seq::<char>::empty(),
            *final(self) == (InteractionsPicker {
                reading: Reading { id: final(self).reading.id, ..old(self).reading },
                ..*old(self)
            }),
    {
        let _ = interactions.remove(i);
        if interactions.len() == 0 {
            return false;
        }
        self.reading.forget();
        true
    }
}

fn id_at(interactions: &Vec<InteractionSummary>, at: Option<usize>) -> (r: Option<String>)
    requires
        at matches Some(i) ==> i < interactions@.len(),
    ensures
        r == match at {
            Some(i) => Some(interactions@[i as int].id),
            None => None,
        },
{
    match at {
        Some(i) => Some(interactions[i].id.clone()),
        None => None,
    }
}

fn find_place(interactions: &Vec<InteractionSummary>, visible: &Vec<usize>, id: &str) -> (r: Option<
    usize,
>)
    requires
        forall|k: int| 0 <= k < visible@.len() ==> #[trigger] visible@[k] < interactions@.len(),
    ensures
        match place_of(interactions@, positions(visible@), id@) {
            Some(place) => r == Some(place as usize) && 0 <= place < visible@.len(),
            None => r is None,
        },
{
    let ghost all = positions(visible@);
    let mut k: usize = 0;
    assert(all.take(0) =~= Seq::<int>::empty());
    while k < visible.len()
        invariant
            k <= visible@.len(),
            all == positions(visible@),
            forall|j: int| 0 <= j < visible@.len() ==> #[trigger] visible@[j] < interactions@.len(),
            place_of(interactions@, all.take(k as int), id@) is None,
        decreases visible.len() - k,
    {
        proof {
            assert(all.take(k + 1).drop_last() =~= all.take(k as int));
            assert(all.take(k + 1).last() == visible@[k as int] as int);
        }
        if same(interactions[visible[k]].id.as_str(), id) {
            proof {
                lemma_place_stays(interactions@, all, id@, k + 1);
            }
            return Some(k);
        }
        k = k + 1;
    }
    assert(all.take(all.len() as int) =~= all);
    None
}

proof fn lemma_place_stays(items: Seq<InteractionSummary>, visible: Seq<int>, id: Seq<char>, n: int)
    requires
        0 <= n <= visible.len(),
        place_of(items, visible.take(n), id) is Some,
    ensures
        place_of(items, visible, id) == place_of(items, visible.take(n), id),
    decreases visible.len() - n,
{
    if n == visible.len() {
        assert(visible.take(n) =~= visible);
    } else {
        assert(visible.take(n + 1).drop_last() =~= visible.take(n));
        lemma_place_stays(items, visible, id, n + 1);
    }
}

// --- Handing an interaction over to another provider -------------------------

/// Moving a conversation to the other provider, step by step: the converted
/// session is resumed before the original is stopped, so that a failure never
/// stops what the operator is using; and where the original cannot be stopped,
/// the converted one is, so that not both go on.
#[derive(Debug, PartialEq, Eq)]
pub enum Handoff {
    /// Convert the session with this id, and answer with
    /// [`Handoff::converted`].
    Convert { source: String },
    /// Resume the converted session, and answer with [`Handoff::resumed`].
    Resume { source: String, converted: String },
    /// Stop the original, and answer with [`Handoff::stopped`].
    Stop { source: String, converted: String },
    /// Find the converted session among the live interactions, and answer with
    /// [`Handoff::listed`].
    Find { converted: String },
    /// Attach to the interaction at this place of the list.
    Attach(usize),
    /// Stop the converted session, then show the message.
    Revert { converted: String, title: &'static str, error: String },
    /// Show the message. Nothing has changed.
    Failed { title: &'static str, error: String },
}

/// What the operator is told once a session was handed over from one agent to
/// another.
pub fn handed_over(from: &str, to: &str) -> (r: String)
    ensures
        r@ == "converted "@ + from@ + " session to "@ + to@,
{
    "converted ".to_owned().concat(from).concat(" session to ").concat(to)
}

impl Handoff {
    /// Begin with the interaction at this place.
    pub fn new(source: &InteractionSummary) -> (r: Handoff)
        ensures
            r == (Handoff::Convert { source: source.id }),
    {
        Handoff::Convert { source: source.id.clone() }
    }

    /// Where the answer to converting leads.
    pub open spec fn once_converted(self, result: Result<String, String>, r: Handoff) -> bool {
        match (self, result) {
            (Handoff::Convert { source }, Ok(converted)) => r == (Handoff::Resume {
                source,
                converted,
            }),
            (Handoff::Convert { .. }, Err(error)) => r matches Handoff::Failed {
                title,
                error: why,
            } && title@ == "could not convert interaction"@ && why == error,
            _ => r == self,
        }
    }

    /// The converted session's id, or why there is none.
    pub fn converted(self, result: Result<String, String>) -> (r: Handoff)
        ensures
            self.once_converted(result, r),
    {
        match (self, result) {
            (Handoff::Convert { source }, Ok(converted)) => Handoff::Resume { source, converted },
            (Handoff::Convert { .. }, Err(error)) => Handoff::Failed {
                title: "could not convert interaction",
                error,
            },
            (other, _) => other,
        }
    }

    /// Where the answer to resuming leads.
    pub open spec fn once_resumed(self, result: Result<(), String>, r: Handoff) -> bool {
        match (self, result) {
            (Handoff::Resume { source, converted }, Ok(())) => r == (Handoff::Stop {
                source,
                converted,
            }),
            (Handoff::Resume { .. }, Err(error)) => r matches Handoff::Failed {
                title,
                error: why,
            } && title@ == "could not activate converted interaction"@ && why == error,
            _ => r == self,
        }
    }

    /// Whether the converted session was resumed.
    pub fn resumed(self, result: Result<(), String>) -> (r: Handoff)
        ensures
            self.once_resumed(result, r),
    {
        match (self, result) {
            (Handoff::Resume { source, converted }, Ok(())) => Handoff::Stop { source, converted },
            (Handoff::Resume { .. }, Err(error)) => Handoff::Failed {
                title: "could not activate converted interaction",
                error,
            },
            (other, _) => other,
        }
    }

    /// Where the answer to stopping leads.
    pub open spec fn once_stopped(self, result: Result<(), String>, r: Handoff) -> bool {
        match (self, result) {
            (Handoff::Stop { converted, .. }, Ok(())) => r == (Handoff::Find { converted }),
            (Handoff::Stop { converted, .. }, Err(error)) => r matches Handoff::Revert {
                converted: undone,
                title,
                error: why,
            } && undone == converted && title@ == "could not stop original interaction"@ && why
                == error,
            _ => r == self,
        }
    }

    /// Whether the original was stopped.
    pub fn stopped(self, result: Result<(), String>) -> (r: Handoff)
        ensures
            self.once_stopped(result, r),
    {
        match (self, result) {
            (Handoff::Stop { converted, .. }, Ok(())) => Handoff::Find { converted },
            (Handoff::Stop { converted, .. }, Err(error)) => Handoff::Revert {
                converted,
                title: "could not stop original interaction",
                error,
            },
            (other, _) => other,
        }
    }

    /// The live interactions, or why they could not be listed.
    pub fn listed(self, result: Result<&Vec<InteractionSummary>, String>) -> (r: Handoff)
        ensures
            match (self, result) {
                (Handoff::Find { converted }, Ok(interactions)) => if listed(
                    interactions@,
                    converted@,
                ) {
                    r matches Handoff::Attach(i) && i == first_with_id(interactions@, converted@)
                        && i < interactions@.len()
                } else {
                    r matches Handoff::Failed { title, error } && title@
                        == "could not open converted interaction"@ && error@
                        == "the converted interaction did not become active"@
                },
                (Handoff::Find { .. }, Err(error)) => r matches Handoff::Failed {
                    title,
                    error: why,
                } && title@ == "could not open converted interaction"@ && why == error,
                _ => r == self,
            },
    {
        match (self, result) {
            (Handoff::Find { converted }, Ok(interactions)) => match find_id(
                interactions,
                converted.as_str(),
            ) {
                Some(i) => {
                    assert(listed(interactions@, converted@));
                    Handoff::Attach(i)
                },
                None => Handoff::Failed {
                    title: "could not open converted interaction",
                    error: "the converted interaction did not become active".to_owned(),
                },
            },
            (Handoff::Find { .. }, Err(error)) => Handoff::Failed {
                title: "could not open converted interaction",
                error,
            },
            (other, _) => other,
        }
    }
}

/// The original is stopped last: it is to be stopped only once the converted
/// session was resumed, and a step that fails before that leaves it as it is.
/// Where it cannot be stopped, the converted session is undone.
pub proof fn law_the_original_is_stopped_last(
    source: String,
    conversion: Result<String, String>,
    converted: Handoff,
    resumption: Result<(), String>,
    resumed: Handoff,
    stop: Result<(), String>,
    stopped: Handoff,
)
    requires
        (Handoff::Convert { source }).once_converted(conversion, converted),
        converted.once_resumed(resumption, resumed),
        resumed.once_stopped(stop, stopped),
    ensures
        converted !is Stop,
        resumed is Stop <==> conversion is Ok && resumption is Ok,
        conversion is Err || resumption is Err ==> stopped is Failed,
        stopped is Find <==> conversion is Ok && resumption is Ok && stop is Ok,
        stopped matches Handoff::Revert { converted: undone, .. } ==> conversion == Ok::<
            String,
            String,
        >(undone),
{
}

// --- Templates ---------------------------------------------------------------

/// The template picker: which templates are chosen, in the order they apply.
#[derive(Debug, PartialEq, Eq)]
pub struct TemplatePicker {
    /// Which request for the list it waits for.
    pub request_id: u64,
    pub workspace_id: String,
    pub scope: LaunchScope,
    /// What was chosen when it was opened.
    pub initial: Vec<String>,
    pub chosen: Vec<String>,
    /// The templates there are, once they are known.
    pub templates: Option<Vec<String>>,
    pub cursor: usize,
}

/// What a key in the template picker decides.
#[derive(Debug, PartialEq, Eq)]
pub enum TemplatePickerAction {
    Nothing,
    Cancel,
    /// Leave the templates as they are.
    Unchanged,
    Apply { scope: LaunchScope, chosen: Vec<String> },
}

/// Those of these names that are templates.
pub open spec fn known_names(names: Seq<String>, templates: Seq<String>) -> Seq<String> {
    names.filter(|n: String| holds(templates, n@))
}

fn keep_known(names: &Vec<String>, templates: &Vec<String>) -> (r: Vec<String>)
    ensures
        r@ == known_names(names@, templates@),
{
    let ghost known = |n: String| holds(templates@, n@);
    let mut r: Vec<String> = Vec::new();
    let mut i: usize = 0;
    proof {
        reveal_with_fuel(Seq::filter, 1);
        assert(names@.take(0) =~= Seq::<String>::empty());
    }
    while i < names.len()
        invariant
            i <= names@.len(),
            known == (|n: String| holds(templates@, n@)),
            r@ == names@.take(i as int).filter(known),
        decreases names.len() - i,
    {
        proof {
            assert(names@.take(i + 1).drop_last() =~= names@.take(i as int));
            assert(names@.take(i + 1).last() == names@[i as int]);
            reveal_with_fuel(Seq::filter, 1);
        }
        if contains_text(templates, names[i].as_str()) {
            r.push(names[i].clone());
        }
        i = i + 1;
    }
    assert(names@.take(names@.len() as int) =~= names@);
    r
}

/// Whether choosing or dropping a template leads from one choice to another:
/// one that is chosen is dropped, and any other is added at the end.
pub open spec fn toggled(chosen: Seq<String>, name: String, after: Seq<String>) -> bool {
    if holds(chosen, name@) {
        exists|i: int|
            0 <= i < chosen.len() && (#[trigger] chosen[i])@ == name@ && (forall|j: int|
                0 <= j < i ==> (#[trigger] chosen[j])@ != name@) && after == chosen.remove(i)
    } else {
        after == chosen.push(name)
    }
}

impl TemplatePicker {
    /// Open the picker on the templates of a layer, before the list is known.
    pub fn loading(
        request_id: u64,
        workspace_id: String,
        scope: LaunchScope,
        current: Vec<String>,
    ) -> (r: TemplatePicker)
        ensures
            r.initial == current,
            r.chosen@ == current@,
            r == (TemplatePicker {
                request_id,
                workspace_id,
                scope,
                initial: current,
                chosen: r.chosen,
                templates: None,
                cursor: 0,
            }),
    {
        let chosen = current.clone();
        TemplatePicker {
            request_id,
            workspace_id,
            scope,
            initial: current,
            chosen,
            templates: None,
            cursor: 0,
        }
    }

    /// Take the list of templates. Names that are not on it are no longer
    /// chosen.
    pub fn loaded(&mut self, templates: Vec<String>)
        ensures
            final(self).chosen@ == known_names(old(self).initial@, templates@),
            *final(self) == (TemplatePicker {
                templates: Some(templates),
                chosen: final(self).chosen,
                ..*old(self)
            }),
    {
        self.chosen = keep_known(&self.initial, &templates);
        self.templates = Some(templates);
    }

    /// Whether a key leads from this picker to another and this decision. Until
    /// the list is known it can only be left.
    pub open spec fn keyed(
        self,
        code: KeyCode,
        after: TemplatePicker,
        action: TemplatePickerAction,
    ) -> bool {
        if backs_out(code) {
            after == self && action is Cancel
        } else {
            match self.templates {
                None => after == self && action is Nothing,
                Some(templates) => if goes_down(code) {
                    action is Nothing && after == (TemplatePicker {
                        cursor: below(self.cursor, templates@.len()),
                        ..self
                    })
                } else if goes_up(code) {
                    action is Nothing && after == (TemplatePicker {
                        cursor: above(self.cursor),
                        ..self
                    })
                } else if code == KeyCode::Char(' ') {
                    action is Nothing && if self.cursor < templates@.len() {
                        &&& toggled(self.chosen@, templates@[self.cursor as int], after.chosen@)
                        &&& after == (TemplatePicker { chosen: after.chosen, ..self })
                    } else {
                        after == self
                    }
                } else if code == KeyCode::Enter {
                    &&& after == self
                    &&& if views(self.chosen@) == views(self.initial@) {
                        action is Unchanged
                    } else {
                        action matches TemplatePickerAction::Apply { scope, chosen } && scope
                            == self.scope && chosen@ == self.chosen@
                    }
                } else {
                    after == self && action is Nothing
                },
            }
        }
    }

    /// Take a key.
    pub fn handle_key(&mut self, code: KeyCode) -> (r: TemplatePickerAction)
        ensures
            old(self).keyed(code, *final(self), r),
    {
        match code {
            KeyCode::Char('q') | KeyCode::Esc => {
                return TemplatePickerAction::Cancel;
            },
            _ => {},
        }
        let templates = match &self.templates {
            Some(templates) => templates,
            None => {
                return TemplatePickerAction::Nothing;
            },
        };
        match code {
            KeyCode::Char('j') | KeyCode::Down => {
                self.cursor = step_down(self.cursor, templates.len());
            },
            KeyCode::Char('k') | KeyCode::Up => {
                self.cursor = self.cursor.saturating_sub(1);
            },
            KeyCode::Char(' ') => {
                if self.cursor < templates.len() {
                    match position_of(&self.chosen, templates[self.cursor].as_str()) {
                        Some(i) => {
                            let _ = self.chosen.remove(i);
                        },
                        None => self.chosen.push(templates[self.cursor].clone()),
                    }
                }
            },
            KeyCode::Enter => {
                if same_list(&self.chosen, &self.initial) {
                    return TemplatePickerAction::Unchanged;
                }
                return TemplatePickerAction::Apply {
                    scope: self.scope,
                    chosen: self.chosen.clone(),
                };
            },
            _ => {},
        }
        TemplatePickerAction::Nothing
    }
}

/// Dropping a template and choosing it again puts it last; choosing one and
/// dropping it again changes nothing.
pub proof fn law_choosing_twice_returns(
    chosen: Seq<String>,
    name: String,
    once: Seq<String>,
    twice: Seq<String>,
)
    requires
        !holds(chosen, name@),
        toggled(chosen, name, once),
        toggled(once, name, twice),
    ensures
        twice == chosen,
{
    assert(once[chosen.len() as int]@ == name@);
    assert(holds(once, name@));
    let i = choose|i: int|
        0 <= i < once.len() && (#[trigger] once[i])@ == name@ && (forall|j: int|
            0 <= j < i ==> (#[trigger] once[j])@ != name@) && twice == once.remove(i);
    if i < chosen.len() {
        assert(chosen[i]@ == name@);
        assert(holds(chosen, name@));
    }
    assert(twice =~= chosen);
}

} // verus!
