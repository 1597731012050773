//! How the interaction on screen is going.

use vstd::prelude::*;

use crate::event::TokenUsage;
use crate::protocol::InteractionActivity;
use crate::text::{same_option, signed_decimal, signed_number, view_of};

verus! {

/// The session's lifecycle as the operator sees it.
#[derive(Debug, PartialEq, Eq)]
pub enum Status {
    /// No agent process has been launched.
    Pending,
    /// The agent is working.
    Running,
    /// A turn completed, and the agent awaits input.
    Idle,
    /// The agent awaits input while a background task runs.
    Background,
    /// The operator stopped the session.
    Stopped,
    /// The agent process ended.
    Ended { exit_code: Option<i32>, error: Option<String> },
}

/// What a status holds.
pub ghost enum StatusView {
    Pending,
    Running,
    Idle,
    Background,
    Stopped,
    Ended { exit_code: Option<i32>, error: Option<Seq<char>> },
}

impl View for Status {
    type V = StatusView;

    open spec fn view(&self) -> StatusView {
        match self {
            Status::Pending => StatusView::Pending,
            Status::Running => StatusView::Running,
            Status::Idle => StatusView::Idle,
            Status::Background => StatusView::Background,
            Status::Stopped => StatusView::Stopped,
            Status::Ended { exit_code, error } => StatusView::Ended {
                exit_code: *exit_code,
                error: view_of(*error),
            },
        }
    }
}

impl Status {
    /// The words for a status.
    pub open spec fn words(self) -> Seq<char> {
        match self {
            Status::Pending => "not started"@,
            Status::Running => "running"@,
            Status::Idle => "idle"@,
            Status::Background => "idle · background work running"@,
            Status::Stopped => "stopped"@,
            Status::Ended { exit_code, error } => if error is Some {
                "failed"@
            } else {
                match exit_code {
                    Some(code) => "ended ("@ + signed_decimal(code as int) + ")"@,
                    None => "ended"@,
                }
            },
        }
    }

    /// The character for a status.
    pub open spec fn mark(self) -> char {
        match self {
            Status::Pending => '.',
            Status::Running => '>',
            Status::Idle => 'o',
            Status::Background => '*',
            Status::Stopped => '#',
            Status::Ended { error, .. } => if error is Some {
                '!'
            } else {
                'x'
            },
        }
    }

    pub fn label(&self) -> (r: String)
        ensures
            r@ == self.words(),
    {
        match self {
            Status::Pending => "not started".to_owned(),
            Status::Running => "running".to_owned(),
            Status::Idle => "idle".to_owned(),
            Status::Background => "idle · background work running".to_owned(),
            Status::Stopped => "stopped".to_owned(),
            Status::Ended { exit_code, error } => if error.is_some() {
                "failed".to_owned()
            } else {
                match exit_code {
                    Some(code) => {
                        let mut r = "ended (".to_owned();
                        r.append(signed_number(*code as i64).as_str());
                        r.append(")");
                        r
                    },
                    None => "ended".to_owned(),
                }
            },
        }
    }

    /// One ASCII character standing in for the status.
    pub fn glyph(&self) -> (r: char)
        ensures
            r == self.mark(),
    {
        match self {
            Status::Pending => '.',
            Status::Running => '>',
            Status::Idle => 'o',
            Status::Background => '*',
            Status::Stopped => '#',
            Status::Ended { error, .. } => if error.is_some() {
                '!'
            } else {
                'x'
            },
        }
    }

    /// Whether the session has not ended.
    pub fn is_active(&self) -> (r: bool)
        ensures
            r == (self !is Ended),
    {
        match self {
            Status::Ended { .. } => false,
            _ => true,
        }
    }

    pub fn copied(&self) -> (r: Status)
        ensures
            r == *self,
    {
        match self {
            Status::Pending => Status::Pending,
            Status::Running => Status::Running,
            Status::Idle => Status::Idle,
            Status::Background => Status::Background,
            Status::Stopped => Status::Stopped,
            Status::Ended { exit_code, error } => Status::Ended {
                exit_code: *exit_code,
                error: error.clone(),
            },
        }
    }

    /// Whether both are the same status.
    pub fn is(&self, other: &Status) -> (r: bool)
        ensures
            r == (self@ == other@),
    {
        match (self, other) {
            (Status::Pending, Status::Pending) => true,
            (Status::Running, Status::Running) => true,
            (Status::Idle, Status::Idle) => true,
            (Status::Background, Status::Background) => true,
            (Status::Stopped, Status::Stopped) => true,
            (
                Status::Ended { exit_code: a, error: x },
                Status::Ended { exit_code: b, error: y },
            ) => {
                let codes = match (a, b) {
                    (Some(m), Some(n)) => *m == *n,
                    (None, None) => true,
                    _ => false,
                };
                codes && same_option(x, y)
            },
            _ => false,
        }
    }

    /// The status the server's word for an interaction stands for.
    pub open spec fn of_activity(activity: InteractionActivity) -> Status {
        match activity {
            InteractionActivity::Pending => Status::Idle,
            InteractionActivity::Running => Status::Running,
            InteractionActivity::Background => Status::Background,
        }
    }
}

/// The glyph tells every two statuses apart, an end with an error from one
/// without among them, but not two ends with an error, nor two without. Each is
/// one ASCII character.
pub proof fn law_glyphs_tell_statuses_apart(a: Status, b: Status)
    requires
        a.mark() == b.mark(),
    ensures
        a is Pending == b is Pending,
        a is Running == b is Running,
        a is Idle == b is Idle,
        a is Background == b is Background,
        a is Stopped == b is Stopped,
        a is Ended == b is Ended,
        a matches Status::Ended { error: x, .. } ==> (b matches Status::Ended { error: y, .. } && (x
            is Some) == (y is Some)),
        (a.mark() as u32) < 128,
{
}

impl From<InteractionActivity> for Status {
    fn from(activity: InteractionActivity) -> (r: Status) {
        match activity {
            InteractionActivity::Pending => Status::Idle,
            InteractionActivity::Running => Status::Running,
            InteractionActivity::Background => Status::Background,
        }
    }
}

impl vstd::std_specs::convert::FromSpecImpl<InteractionActivity> for Status {
    open spec fn obeys_from_spec() -> bool {
        true
    }

    open spec fn from_spec(activity: InteractionActivity) -> Status {
        Status::of_activity(activity)
    }
}

/// How long the session has been in its status, and how long since anything
/// arrived from the agent, in milliseconds.
#[derive(Clone, Copy, Debug, PartialEq, Eq, Structural)]
pub struct Progress {
    pub in_status: u64,
    pub since_event: Option<u64>,
    /// How many events have arrived.
    pub events: u64,
}

/// The interaction's status and what hangs off it. Times are milliseconds of
/// one clock.
#[derive(Debug, PartialEq, Eq)]
pub struct Activity {
    pub status: Status,
    pub latest_usage: Option<TokenUsage>,
    /// When `noted` became the status.
    pub since: u64,
    pub noted: Status,
    pub last_event_at: Option<u64>,
    pub events: u64,
    pub background_work: bool,
    /// Set once the agent has counted its own background tasks. From then on
    /// only that count moves `background_work`.
    pub background_count_known: bool,
}

impl Default for Activity {
    fn default() -> (r: Activity)
        ensures
            r == Activity::fresh(),
    {
        Activity {
            status: Status::Running,
            latest_usage: None,
            since: 0,
            noted: Status::Running,
            last_event_at: None,
            events: 0,
            background_work: false,
            background_count_known: false,
        }
    }
}

/// The time from `then` to `now`; none where `now` is earlier.
pub open spec fn elapsed(then: u64, now: u64) -> u64 {
    if then <= now {
        (now - then) as u64
    } else {
        0
    }
}

impl Activity {
    /// The activity of a session just started, on a clock that starts with it.
    pub open spec fn fresh() -> Activity {
        Activity {
            status: Status::Running,
            latest_usage: None,
            since: 0,
            noted: Status::Running,
            last_event_at: None,
            events: 0,
            background_work: false,
            background_count_known: false,
        }
    }

    /// Where a completed turn leaves the session.
    pub open spec fn resting(self) -> Status {
        if self.background_work {
            Status::Background
        } else {
            Status::Idle
        }
    }

    /// After something arrived.
    pub open spec fn heard(self, now: u64) -> Activity {
        Activity { last_event_at: Some(now), events: (self.events + 1) as u64, ..self }
    }

    /// After the agent counted its background tasks.
    pub open spec fn counted(self, running: u64) -> Activity {
        Activity {
            background_count_known: true,
            background_work: running > 0,
            status: if running == 0 && self.status is Background {
                Status::Idle
            } else {
                self.status
            },
            ..self
        }
    }

    /// After a tool call that looks like the end of background work.
    pub open spec fn guessed_finished(self) -> Activity {
        if self.background_count_known {
            self
        } else {
            Activity { background_work: false, status: Status::Idle, ..self }
        }
    }

    /// Once a change of status is noticed.
    pub open spec fn noticing(self, now: u64) -> Activity {
        if self.noted@ != self.status@ {
            Activity { noted: self.status, since: now, ..self }
        } else {
            self
        }
    }

    /// Notice a change of status since the last call.
    pub fn note_progress(&mut self, now: u64)
        ensures
            *final(self) == old(self).noticing(now),
    {
        if !self.noted.is(&self.status) {
            self.noted = self.status.copied();
            self.since = now;
        }
    }

    pub fn progress(&self, now: u64) -> (r: Progress)
        ensures
            r.in_status == elapsed(self.since, now),
            r.since_event == match self.last_event_at {
                Some(at) => Some(elapsed(at, now)),
                None => None,
            },
            r.events == self.events,
    {
        Progress {
            in_status: now.saturating_sub(self.since),
            since_event: match self.last_event_at {
                Some(at) => Some(now.saturating_sub(at)),
                None => None,
            },
            events: self.events,
        }
    }

    /// Note that something arrived from the agent.
    pub fn note_event_received(&mut self, now: u64)
        requires
            old(self).events < u64::MAX,
        ensures
            *final(self) == old(self).heard(now),
    {
        self.last_event_at = Some(now);
        self.events = self.events + 1;
    }

    /// Where a completed turn leaves the session.
    pub fn idle_or_background(&self) -> (r: Status)
        ensures
            r == self.resting(),
    {
        if self.background_work {
            Status::Background
        } else {
            Status::Idle
        }
    }

    /// Take over what the server says of the interaction. Background work is
    /// said apart, since it can go on while the agent works.
    pub fn sync_to_interaction(&mut self, activity: InteractionActivity, background_work: bool)
        ensures
            *final(self) == (Activity {
                background_work,
                status: Status::of_activity(activity),
                ..*old(self)
            }),
    {
        self.background_work = background_work;
        self.status = Status::from(activity);
    }

    /// The agent's own count of its background tasks.
    pub fn note_background_count(&mut self, running: u64)
        ensures
            *final(self) == old(self).counted(running),
    {
        self.background_count_known = true;
        self.background_work = running > 0;
        if !self.background_work {
            match self.status {
                Status::Background => {
                    self.status = Status::Idle;
                },
                _ => {},
            }
        }
    }

    /// A tool call that looks like the start of background work.
    pub fn note_background_started(&mut self)
        ensures
            *final(self) == (Activity { background_work: true, ..*old(self) }),
    {
        self.background_work = true;
    }

    /// A tool call that looks like the end of background work. It says nothing
    /// once the agent has counted for itself.
    pub fn note_background_finished(&mut self)
        ensures
            *final(self) == old(self).guessed_finished(),
    {
        if !self.background_count_known {
            self.background_work = false;
            self.status = Status::Idle;
        }
    }
}

/// Once the agent has counted its tasks, a guess that they are finished
/// changes nothing.
pub proof fn law_a_count_outranks_guesses(activity: Activity, running: u64)
    ensures
        activity.counted(running).guessed_finished() == activity.counted(running),
        activity.counted(running).resting() == (if running > 0 {
            Status::Background
        } else {
            Status::Idle
        }),
        activity.counted(0).status !is Background,
        activity.status is Running ==> activity.counted(running).status is Running,
{
}

} // verus!
