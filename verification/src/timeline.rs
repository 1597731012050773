//! The event list, and the operator's place in it.

use vstd::prelude::*;

use crate::event::{first_line, leading_line};
use crate::protocol::{AgentEvent, Contract};
use crate::text::{same, trim, trimmed};

verus! {

/// One row of the list.
#[derive(Debug, PartialEq, Eq)]
pub struct Entry {
    pub event: AgentEvent,
    pub expanded: bool,
    /// The wire line the event was read from.
    pub raw_index: Option<usize>,
    /// The shape the message asked its reply to take.
    pub contract: Option<Contract>,
}

/// Whether a text says more than its first line does.
pub open spec fn says_more(text: Seq<char>) -> bool {
    trimmed(text) != leading_line(text)
}

fn more_than_a_line(text: &str) -> (r: bool)
    ensures
        r == says_more(text@),
{
    let whole = trim(text);
    let line = first_line(text);
    !same(whole.as_str(), line.as_str())
}

/// Whether an event holds more than the line that stands for it.
pub open spec fn holds_detail(event: AgentEvent) -> bool {
    match event {
        AgentEvent::UserMessage { text } => says_more(text@),
        AgentEvent::AgentMessage { text } => says_more(text@),
        AgentEvent::Thinking { text, .. } => says_more(text@),
        AgentEvent::PlanUpdated { text } => says_more(text@),
        AgentEvent::Error { message } => says_more(message@),
        AgentEvent::CommandStarted { command } => says_more(command@),
        AgentEvent::CommandCompleted { command, output, .. } => output@.len() > 0 || says_more(
            command@,
        ),
        AgentEvent::ToolStarted { detail, .. } => detail@.len() > 0,
        AgentEvent::ToolCompleted { detail, output, .. } => detail@.len() > 0 || output@.len() > 0,
        AgentEvent::FileChanged { diff, .. } => diff is Some,
        AgentEvent::TaskCompleted { error, .. } => error is Some,
        AgentEvent::Unknown { raw, .. } => raw@.len() > 0,
        AgentEvent::Malformed { raw, .. } => raw@.len() > 0,
        _ => false,
    }
}

/// Whether an event is about the session's lifecycle rather than its work.
pub open spec fn is_minor(event: AgentEvent) -> bool {
    event is ThreadStarted || event is TurnStarted || event is TurnCompleted || event
        is UsageUpdated || event is BackgroundTasks
}

/// Whether an event belongs to the conversation: what was said, what went
/// wrong, and which model says it.
pub open spec fn is_conversation(event: AgentEvent) -> bool {
    event is UserMessage || event is AgentMessage || event is Error || event is ModelChanged
}

impl AgentEvent {
    pub fn minor(&self) -> (r: bool)
        ensures
            r == is_minor(*self),
    {
        match self {
            AgentEvent::ThreadStarted { .. } => true,
            AgentEvent::TurnStarted => true,
            AgentEvent::TurnCompleted { .. } => true,
            AgentEvent::UsageUpdated { .. } => true,
            AgentEvent::BackgroundTasks { .. } => true,
            _ => false,
        }
    }

    pub fn conversational(&self) -> (r: bool)
        ensures
            r == is_conversation(*self),
    {
        match self {
            AgentEvent::UserMessage { .. } => true,
            AgentEvent::AgentMessage { .. } => true,
            AgentEvent::Error { .. } => true,
            AgentEvent::ModelChanged { .. } => true,
            _ => false,
        }
    }
}

impl Entry {
    /// Whether the entry holds more than the line that stands for it.
    pub fn has_detail(&self) -> (r: bool)
        ensures
            r == holds_detail(self.event),
    {
        match &self.event {
            AgentEvent::UserMessage { text } => more_than_a_line(text.as_str()),
            AgentEvent::AgentMessage { text } => more_than_a_line(text.as_str()),
            AgentEvent::Thinking { text, .. } => more_than_a_line(text.as_str()),
            AgentEvent::PlanUpdated { text } => more_than_a_line(text.as_str()),
            AgentEvent::Error { message } => more_than_a_line(message.as_str()),
            AgentEvent::CommandStarted { command } => more_than_a_line(command.as_str()),
            AgentEvent::CommandCompleted { command, output, .. } => !output.as_str().is_empty()
                || more_than_a_line(command.as_str()),
            AgentEvent::ToolStarted { detail, .. } => !detail.as_str().is_empty(),
            AgentEvent::ToolCompleted { detail, output, .. } => !detail.as_str().is_empty()
                || !output.as_str().is_empty(),
            AgentEvent::FileChanged { diff, .. } => diff.is_some(),
            AgentEvent::TaskCompleted { error, .. } => error.is_some(),
            AgentEvent::Unknown { raw, .. } => !raw.as_str().is_empty(),
            AgentEvent::Malformed { raw, .. } => !raw.as_str().is_empty(),
            _ => false,
        }
    }
}

/// Which entries a move through the list stops at.
#[derive(Clone, Copy, Debug, PartialEq, Eq, Structural)]
pub enum Step {
    /// Every entry that is shown.
    Line,
    /// Every entry that is shown and holds more than its line, or names files.
    WithDetail,
}

/// The events, which of them is selected, and which are shown.
#[derive(Debug, PartialEq, Eq)]
pub struct Timeline {
    pub entries: Vec<Entry>,
    pub selected: usize,
    /// Whether the selection moves with the newest entry.
    pub follow: bool,
    pub show_minor: bool,
    pub conversation_only: bool,
}

impl Default for Timeline {
    fn default() -> (r: Timeline)
        ensures
            r.entries@.len() == 0,
            r == (Timeline {
                entries: r.entries,
                selected: 0,
                follow: true,
                show_minor: false,
                conversation_only: false,
            }),
    {
        Timeline {
            entries: Vec::new(),
            selected: 0,
            follow: true,
            show_minor: false,
            conversation_only: false,
        }
    }
}

impl Timeline {
    /// The selection is on an entry where there is one.
    pub open spec fn wf(self) -> bool {
        self.selected == 0 || self.selected < self.entries@.len()
    }

    /// Whether an event is shown under the filters.
    pub open spec fn shows(self, event: AgentEvent) -> bool {
        (self.show_minor || !is_minor(event)) && (!self.conversation_only || is_conversation(event))
    }

    /// Whether the entry at `i` is there and shown.
    pub open spec fn visible(self, i: int) -> bool {
        0 <= i < self.entries@.len() && self.shows(self.entries@[i].event)
    }

    /// Whether a move by `step` stops at `i`.
    pub open spec fn stops(self, step: Step, i: int) -> bool {
        self.visible(i) && (step == Step::WithDetail ==> holds_detail(self.entries@[i].event)
            || self.entries@[i].event is FileChanged)
    }

    /// The first stop at or after `i`.
    pub open spec fn stop_from(self, step: Step, i: int) -> Option<usize>
        decreases self.entries@.len() - i,
    {
        if i < 0 || i >= self.entries@.len() {
            None
        } else if self.stops(step, i) {
            Some(i as usize)
        } else {
            self.stop_from(step, i + 1)
        }
    }

    /// The last stop before `i`.
    pub open spec fn stop_before(self, step: Step, i: int) -> Option<usize>
        decreases i,
    {
        if i <= 0 {
            None
        } else if self.stops(step, i - 1) {
            Some((i - 1) as usize)
        } else {
            self.stop_before(step, i - 1)
        }
    }

    /// Whether nothing is shown behind the entry at `i`.
    pub open spec fn at_tail(self, i: int) -> bool {
        self.stop_from(Step::Line, i + 1) is None
    }

    /// The selection moved to `at`, where a move found something. It follows
    /// from the last entry that is shown.
    pub open spec fn landed(self, at: Option<usize>) -> Timeline {
        match at {
            Some(i) => Timeline { selected: i, follow: self.at_tail(i as int), ..self },
            None => self,
        }
    }

    /// After moving forward by `step`.
    pub open spec fn forward(self, step: Step) -> Timeline {
        self.landed(self.stop_from(step, self.selected + 1))
    }

    /// After moving backward by `step`.
    pub open spec fn backward(self, step: Step) -> Timeline {
        self.landed(self.stop_before(step, self.selected as int))
    }

    /// After moving to the first entry that is shown.
    pub open spec fn first(self) -> Timeline {
        self.landed(self.stop_from(Step::Line, 0))
    }

    /// After moving to the last entry that is shown.
    pub open spec fn last(self) -> Timeline {
        self.landed(self.stop_before(Step::Line, self.entries@.len() as int))
    }

    /// After the filters changed: where the selected entry is hidden, the
    /// selection moves to the nearest one shown before it, or else behind it.
    pub open spec fn settled(self) -> Timeline {
        if self.visible(self.selected as int) {
            self
        } else {
            match self.stop_before(Step::Line, self.selected as int) {
                Some(i) => Timeline { selected: i, ..self },
                None => match self.stop_from(Step::Line, self.selected as int) {
                    Some(i) => Timeline { selected: i, ..self },
                    None => self,
                },
            }
        }
    }

    /// Whether an event is shown under the filters.
    pub fn event_is_visible(&self, event: &AgentEvent) -> (r: bool)
        ensures
            r == self.shows(*event),
    {
        (self.show_minor || !event.minor()) && (!self.conversation_only || event.conversational())
    }

    /// Whether the entry at `i` is there and shown.
    pub fn is_visible(&self, i: usize) -> (r: bool)
        ensures
            r == self.visible(i as int),
    {
        i < self.entries.len() && self.event_is_visible(&self.entries[i].event)
    }

    fn is_stop(&self, step: Step, i: usize) -> (r: bool)
        requires
            i < self.entries@.len(),
        ensures
            r == self.stops(step, i as int),
    {
        let names_files = match &self.entries[i].event {
            AgentEvent::FileChanged { .. } => true,
            _ => false,
        };
        self.is_visible(i) && (step == Step::Line || self.entries[i].has_detail() || names_files)
    }

    /// The first stop at or after `from`.
    pub fn seek_forward(&self, from: usize, step: Step) -> (r: Option<usize>)
        ensures
            r == self.stop_from(step, from as int),
            r matches Some(i) ==> from <= i < self.entries@.len(),
    {
        let mut i: usize = from;
        while i < self.entries.len()
            invariant
                from <= i,
                self.stop_from(step, from as int) == self.stop_from(step, i as int),
            decreases self.entries.len() - i,
        {
            if self.is_stop(step, i) {
                return Some(i);
            }
            i = i + 1;
        }
        None
    }

    /// The last stop before `before`.
    pub fn seek_backward(&self, before: usize, step: Step) -> (r: Option<usize>)
        requires
            before <= self.entries@.len(),
        ensures
            r == self.stop_before(step, before as int),
            r matches Some(i) ==> i < before,
    {
        let mut i: usize = before;
        while i > 0
            invariant
                i <= before <= self.entries@.len(),
                self.stop_before(step, before as int) == self.stop_before(step, i as int),
            decreases i,
        {
            if self.is_stop(step, i - 1) {
                return Some(i - 1);
            }
            i = i - 1;
        }
        None
    }

    fn land(&mut self, at: Option<usize>) -> (moved: bool)
        requires
            at matches Some(i) ==> i < old(self).entries@.len(),
            old(self).wf(),
        ensures
            *final(self) == old(self).landed(at),
            moved == (final(self).selected != old(self).selected),
            final(self).wf(),
    {
        match at {
            Some(i) => {
                let count: usize = self.entries.len();
                assert(i < count);
                let moved = i != self.selected;
                let follow = self.seek_forward(i + 1, Step::Line).is_none();
                self.selected = i;
                self.follow = follow;
                moved
            },
            None => false,
        }
    }

    /// Move forward. Whether the selection moved is what comes back.
    pub fn select_forward(&mut self, step: Step) -> (moved: bool)
        requires
            old(self).wf(),
        ensures
            *final(self) == old(self).forward(step),
            moved == (final(self).selected != old(self).selected),
            final(self).wf(),
    {
        let at = if self.selected < self.entries.len() {
            self.seek_forward(self.selected + 1, step)
        } else {
            None
        };
        self.land(at)
    }

    /// Move backward. Whether the selection moved is what comes back.
    pub fn select_backward(&mut self, step: Step) -> (moved: bool)
        requires
            old(self).wf(),
        ensures
            *final(self) == old(self).backward(step),
            moved == (final(self).selected != old(self).selected),
            final(self).wf(),
    {
        let at = self.seek_backward(self.selected, step);
        self.land(at)
    }

    pub fn select_first(&mut self) -> (moved: bool)
        requires
            old(self).wf(),
        ensures
            *final(self) == old(self).first(),
            moved == (final(self).selected != old(self).selected),
            final(self).wf(),
    {
        let at = self.seek_forward(0, Step::Line);
        self.land(at)
    }

    pub fn select_last(&mut self) -> (moved: bool)
        requires
            old(self).wf(),
        ensures
            *final(self) == old(self).last(),
            moved == (final(self).selected != old(self).selected),
            final(self).wf(),
    {
        let at = self.seek_backward(self.entries.len(), Step::Line);
        self.land(at)
    }

    /// Select the last entry, shown or not.
    pub fn select_tail(&mut self)
        requires
            old(self).entries@.len() > 0,
        ensures
            *final(self) == (Timeline {
                selected: (old(self).entries@.len() - 1) as usize,
                ..*old(self)
            }),
            final(self).wf(),
    {
        self.selected = self.entries.len() - 1;
    }

    fn settle(&mut self) -> (moved: bool)
        requires
            old(self).wf(),
        ensures
            *final(self) == old(self).settled(),
            moved == (final(self).selected != old(self).selected),
            final(self).wf(),
    {
        if self.is_visible(self.selected) {
            return false;
        }
        let at = match self.seek_backward(self.selected, Step::Line) {
            Some(i) => Some(i),
            None => self.seek_forward(self.selected, Step::Line),
        };
        match at {
            Some(i) => {
                let moved = i != self.selected;
                self.selected = i;
                moved
            },
            None => false,
        }
    }

    /// Show or hide the events of the session's lifecycle.
    pub fn toggle_minor(&mut self) -> (moved: bool)
        requires
            old(self).wf(),
        ensures
            *final(self) == (Timeline { show_minor: !old(self).show_minor, ..*old(self) }).settled(),
            moved == (final(self).selected != old(self).selected),
            final(self).wf(),
    {
        self.show_minor = !self.show_minor;
        self.settle()
    }

    /// Show the conversation alone, or everything.
    pub fn toggle_conversation_only(&mut self) -> (moved: bool)
        requires
            old(self).wf(),
        ensures
            *final(self) == (Timeline {
                conversation_only: !old(self).conversation_only,
                ..*old(self)
            }).settled(),
            moved == (final(self).selected != old(self).selected),
            final(self).wf(),
    {
        self.conversation_only = !self.conversation_only;
        self.settle()
    }

    pub fn selected_entry(&self) -> (r: Option<&Entry>)
        ensures
            match r {
                Some(entry) => self.selected < self.entries@.len() && *entry
                    == self.entries@[self.selected as int],
                None => self.selected >= self.entries@.len(),
            },
    {
        if self.selected < self.entries.len() {
            Some(&self.entries[self.selected])
        } else {
            None
        }
    }

    /// Whether the entry at `i` is a command, running or done.
    pub open spec fn is_command(self, i: int) -> bool {
        self.entries@[i].event is CommandStarted || self.entries@[i].event is CommandCompleted
    }

    /// The last command among the first `n` entries.
    pub open spec fn command_before(self, n: int) -> Option<int>
        decreases n,
    {
        if n <= 0 {
            None
        } else if self.is_command(n - 1) {
            Some(n - 1)
        } else {
            self.command_before(n - 1)
        }
    }

    /// The newest command.
    pub fn newest_command(&self) -> (r: Option<&Entry>)
        ensures
            match self.command_before(self.entries@.len() as int) {
                Some(i) => r == Some(&self.entries@[i]) && 0 <= i < self.entries@.len(),
                None => r is None,
            },
    {
        let mut i: usize = self.entries.len();
        while i > 0
            invariant
                i <= self.entries@.len(),
                self.command_before(self.entries@.len() as int) == self.command_before(i as int),
            decreases i,
        {
            let found = match &self.entries[i - 1].event {
                AgentEvent::CommandStarted { .. } => true,
                AgentEvent::CommandCompleted { .. } => true,
                _ => false,
            };
            assert(found == self.is_command(i - 1));
            if found {
                return Some(&self.entries[i - 1]);
            }
            i = i - 1;
        }
        None
    }

    /// Whether the entries are those of `before`, each folded or not as `open`
    /// says.
    pub open spec fn folded_as(self, before: Timeline, open: spec_fn(int) -> bool) -> bool {
        &&& self == (Timeline { entries: self.entries, ..before })
        &&& self.entries@.len() == before.entries@.len()
        &&& forall|i: int|
            0 <= i < self.entries@.len() ==> #[trigger] self.entries@[i] == (Entry {
                expanded: open(i),
                ..before.entries@[i]
            })
    }

    fn set_expanded(&mut self, i: usize, expanded: bool)
        requires
            i < old(self).entries@.len(),
        ensures
            *final(self) == (Timeline { entries: final(self).entries, ..*old(self) }),
            final(self).entries@ == old(self).entries@.update(
                i as int,
                (Entry { expanded, ..old(self).entries@[i as int] }),
            ),
    {
        self.entries[i].expanded = expanded;
    }

    /// Fold or unfold the selected entry.
    pub fn toggle_expand(&mut self)
        ensures
            final(self).folded_as(
                *old(self),
                |i: int|
                    if i == old(self).selected {
                        !old(self).entries@[i].expanded
                    } else {
                        old(self).entries@[i].expanded
                    },
            ),
    {
        if self.selected < self.entries.len() {
            let expanded = !self.entries[self.selected].expanded;
            self.set_expanded(self.selected, expanded);
        }
    }

    fn fold_all(&mut self, expanded: bool)
        ensures
            final(self).folded_as(*old(self), |i: int| expanded),
    {
        let mut i: usize = 0;
        while i < self.entries.len()
            invariant
                i <= self.entries@.len(),
                self.entries@.len() == old(self).entries@.len(),
                *self == (Timeline { entries: self.entries, ..*old(self) }),
                forall|j: int|
                    0 <= j < i ==> #[trigger] self.entries@[j] == (Entry {
                        expanded,
                        ..old(self).entries@[j]
                    }),
                forall|j: int|
                    i <= j < self.entries@.len() ==> #[trigger] self.entries@[j] == old(
                        self,
                    ).entries@[j],
            decreases self.entries.len() - i,
        {
            self.set_expanded(i, expanded);
            i = i + 1;
        }
    }

    pub fn expand_all(&mut self)
        ensures
            final(self).folded_as(*old(self), |i: int| true),
    {
        self.fold_all(true);
    }

    pub fn collapse_all(&mut self)
        ensures
            final(self).folded_as(*old(self), |i: int| false),
    {
        self.fold_all(false);
    }

    /// Unfold the selected entry and fold every other.
    pub fn expand_only_selected(&mut self)
        ensures
            final(self).folded_as(*old(self), |i: int| i == old(self).selected),
    {
        self.fold_all(false);
        if self.selected < self.entries.len() {
            self.set_expanded(self.selected, true);
        }
    }
}

pub(crate) proof fn lemma_stop_from(t: Timeline, step: Step, i: int)
    requires
        0 <= i,
    ensures
        match t.stop_from(step, i) {
            Some(at) => i <= at < t.entries@.len() && t.stops(step, at as int) && forall|j: int|
                i <= j < at ==> !#[trigger] t.stops(step, j),
            None => forall|j: int| i <= j < t.entries@.len() ==> !#[trigger] t.stops(step, j),
        },
    decreases t.entries@.len() - i,
{
    assert(t.entries.len() == t.entries@.len());
    if i < t.entries@.len() && !t.stops(step, i) {
        lemma_stop_from(t, step, i + 1);
    }
}

pub(crate) proof fn lemma_stop_before(t: Timeline, step: Step, i: int)
    requires
        0 <= i <= t.entries@.len(),
    ensures
        match t.stop_before(step, i) {
            Some(at) => at < i && t.stops(step, at as int) && forall|j: int|
                at < j < i ==> !#[trigger] t.stops(step, j),
            None => forall|j: int| 0 <= j < i ==> !#[trigger] t.stops(step, j),
        },
    decreases i,
{
    assert(t.entries.len() == t.entries@.len());
    if i > 0 && !t.stops(step, i - 1) {
        lemma_stop_before(t, step, i - 1);
    }
}

/// A move forward lands on the nearest stop ahead and skips nothing; with no
/// stop ahead it changes nothing.
pub proof fn law_moving_forward(t: Timeline, step: Step)
    requires
        t.wf(),
    ensures
        t.forward(step).selected != t.selected ==> t.stops(
            step,
            t.forward(step).selected as int,
        ) && t.selected < t.forward(step).selected,
        forall|j: int|
            t.selected < j < t.forward(step).selected ==> !#[trigger] t.stops(step, j),
        (forall|j: int| t.selected < j < t.entries@.len() ==> !#[trigger] t.stops(step, j))
            ==> t.forward(step) == t,
{
    lemma_stop_from(t, step, t.selected + 1);
}

/// A move backward lands on the nearest stop behind and skips nothing; with no
/// stop behind it changes nothing.
pub proof fn law_moving_backward(t: Timeline, step: Step)
    requires
        t.wf(),
    ensures
        t.backward(step).selected != t.selected ==> t.stops(
            step,
            t.backward(step).selected as int,
        ) && t.backward(step).selected < t.selected,
        forall|j: int|
            t.backward(step).selected < j < t.selected ==> !#[trigger] t.stops(step, j),
        (forall|j: int| 0 <= j < t.selected ==> !#[trigger] t.stops(step, j)) ==> t.backward(step)
            == t,
{
    lemma_stop_before(t, step, t.selected as int);
}

/// Hiding events leaves the selection on an entry that is shown, where one is.
pub proof fn law_the_selection_stays_in_sight(t: Timeline)
    requires
        t.wf(),
        exists|i: int| #[trigger] t.visible(i),
    ensures
        t.settled().visible(t.settled().selected as int),
{
    let at = t.selected as int;
    if !t.visible(at) {
        if at <= t.entries@.len() {
            lemma_stop_before(t, Step::Line, at);
            lemma_stop_from(t, Step::Line, at);
            let i = choose|i: int| #[trigger] t.visible(i);
            assert(t.stops(Step::Line, i));
        }
    }
}

} // verus!
