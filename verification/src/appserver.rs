//! The handshake and the turns of Codex's two-way protocol.
//!
//! A session starts with `initialize`, announces `initialized`, asks for a
//! thread with `thread/start`, and then sends one `turn/start` per message.
//! Messages that come before the thread is ready wait for it.

use vstd::prelude::*;

use crate::event::{signed_in, EventView, StyraEvent};
use crate::json::{
    field, key_before, list_of_one, number_value, parse_json, parsed_json, table_of_one,
    table_of_three, table_of_two, text_field, text_value, write_value, written_json, Json,
    JsonView,
};
use crate::protocol::{LogEntry, LogLevel};
use crate::text::{same, text_le, view_of, views};

verus! {

/// The request id of `initialize`.
pub const INIT_ID: u64 = 1;

/// The request id of `thread/start`.
pub const THREAD_START_ID: u64 = 2;

/// One thing to do for the session, in order.
#[derive(Debug, PartialEq, Eq)]
pub enum Step {
    /// Show the line as sent, and write it to the agent.
    Write(String),
    Log(LogEntry),
    Event(StyraEvent),
}

/// What a step does.
#[verifier::ext_equal]
pub ghost enum StepView {
    Write(Seq<char>),
    Log(LogLevel, Seq<char>),
    Event(EventView),
}

impl View for Step {
    type V = StepView;

    open spec fn view(&self) -> StepView {
        match self {
            Step::Write(line) => StepView::Write(line@),
            Step::Log(entry) => StepView::Log(entry.level, entry.message@),
            Step::Event(event) => StepView::Event(event@),
        }
    }
}

/// What the steps do.
pub open spec fn step_views(steps: Seq<Step>) -> Seq<StepView> {
    steps.map_values(|s: Step| s@)
}

/// One session's side of the protocol.
#[derive(Debug, PartialEq, Eq)]
pub struct AppServer {
    /// The working directory of the thread, inside the sandbox.
    pub cwd: String,
    pub sandbox: String,
    pub thread_id: Option<String>,
    pub ready: bool,
    pub next_turn_id: u64,
    /// Messages that came before the thread was ready, oldest first.
    pub pending: Vec<String>,
}

#[verifier::ext_equal]
pub ghost struct AppServerView {
    pub cwd: Seq<char>,
    pub sandbox: Seq<char>,
    pub thread_id: Option<Seq<char>>,
    pub ready: bool,
    pub next_turn_id: nat,
    pub pending: Seq<Seq<char>>,
}

impl View for AppServer {
    type V = AppServerView;

    open spec fn view(&self) -> AppServerView {
        AppServerView {
            cwd: self.cwd@,
            sandbox: self.sandbox@,
            thread_id: view_of(self.thread_id),
            ready: self.ready,
            next_turn_id: self.next_turn_id as nat,
            pending: views(self.pending@),
        }
    }
}

// --- Messages ----------------------------------------------------------------

/// The message that opens the handshake.
pub open spec fn initialize(version: Seq<char>) -> JsonView {
    JsonView::Table(
        seq![
            ("id"@, JsonView::Unsigned(INIT_ID)),
            ("method"@, JsonView::Text("initialize"@)),
            (
                "params"@,
                JsonView::Table(
                    seq![
                        (
                            "clientInfo"@,
                            JsonView::Table(
                                seq![
                                    ("name"@, JsonView::Text("styra"@)),
                                    ("version"@, JsonView::Text(version)),
                                ],
                            ),
                        ),
                    ],
                ),
            ),
        ],
    )
}

/// The message that ends the handshake.
pub open spec fn initialized() -> JsonView {
    JsonView::Table(seq![("method"@, JsonView::Text("initialized"@))])
}

/// The message that asks for a thread.
pub open spec fn thread_start(cwd: Seq<char>, sandbox: Seq<char>) -> JsonView {
    JsonView::Table(
        seq![
            ("id"@, JsonView::Unsigned(THREAD_START_ID)),
            ("method"@, JsonView::Text("thread/start"@)),
            (
                "params"@,
                JsonView::Table(
                    seq![
                        ("approvalPolicy"@, JsonView::Text("never"@)),
                        ("cwd"@, JsonView::Text(cwd)),
                        ("sandbox"@, JsonView::Text(sandbox)),
                    ],
                ),
            ),
        ],
    )
}

/// The message that starts a turn.
pub open spec fn turn_start(id: u64, thread_id: Seq<char>, text: Seq<char>) -> JsonView {
    JsonView::Table(
        seq![
            ("id"@, JsonView::Unsigned(id)),
            ("method"@, JsonView::Text("turn/start"@)),
            (
                "params"@,
                JsonView::Table(
                    seq![
                        (
                            "input"@,
                            JsonView::List(
                                seq![
                                    JsonView::Table(
                                        seq![
                                            ("text"@, JsonView::Text(text)),
                                            ("type"@, JsonView::Text("text"@)),
                                        ],
                                    ),
                                ],
                            ),
                        ),
                        ("threadId"@, JsonView::Text(thread_id)),
                    ],
                ),
            ),
        ],
    )
}

proof fn lemma_message_keys()
    ensures
        key_before("id"@, "method"@),
        key_before("method"@, "params"@),
        key_before("name"@, "version"@),
        key_before("approvalPolicy"@, "cwd"@),
        key_before("cwd"@, "sandbox"@),
        key_before("input"@, "threadId"@),
        key_before("text"@, "type"@),
{
    reveal_strlit("id");
    reveal_strlit("method");
    reveal_strlit("params");
    reveal_strlit("name");
    reveal_strlit("version");
    reveal_strlit("approvalPolicy");
    reveal_strlit("cwd");
    reveal_strlit("sandbox");
    reveal_strlit("input");
    reveal_strlit("threadId");
    reveal_strlit("text");
    reveal_strlit("type");
    reveal_with_fuel(text_le, 3);
}

fn turn_line(id: u64, thread_id: &str, text: &str) -> (r: String)
    ensures
        r@ == written_json(turn_start(id, thread_id@, text@)),
{
    proof {
        lemma_message_keys();
    }
    let item = table_of_two("text", text_value(text), "type", text_value("text"));
    let params = table_of_two("input", list_of_one(item), "threadId", text_value(thread_id));
    let message = table_of_three(
        "id",
        number_value(id),
        "method",
        text_value("turn/start"),
        "params",
        params,
    );
    write_value(&message)
}

// --- What each event leads to ------------------------------------------------

/// The turns that a list of messages starts, in order.
pub open spec fn turns(thread_id: Seq<char>, messages: Seq<Seq<char>>, first: nat) -> Seq<
    StepView,
> {
    Seq::new(
        messages.len(),
        |i: int|
            StepView::Write(
                written_json(turn_start((first + i) as u64, thread_id, messages[i])),
            ),
    )
}

impl AppServerView {
    /// A side that has said nothing yet.
    pub open spec fn fresh(cwd: Seq<char>) -> AppServerView {
        AppServerView {
            cwd,
            sandbox: "danger-full-access"@,
            thread_id: None,
            ready: false,
            next_turn_id: 3,
            pending: Seq::empty(),
        }
    }

    /// Once the thread is known, it is told apart from a later word of it.
    pub open spec fn ready_with(self, thread_id: Seq<char>) -> AppServerView {
        if self.ready {
            self
        } else {
            AppServerView {
                thread_id: Some(thread_id),
                ready: true,
                next_turn_id: self.next_turn_id + self.pending.len(),
                pending: Seq::empty(),
                ..self
            }
        }
    }

    /// What becoming ready leads to: a note, and a turn for every message that
    /// waited.
    pub open spec fn ready_steps(self, thread_id: Seq<char>) -> Seq<StepView> {
        if self.ready {
            Seq::empty()
        } else {
            seq![StepView::Log(LogLevel::Info, "app-server ready; thread "@ + thread_id)] + turns(
                thread_id,
                self.pending,
                self.next_turn_id,
            )
        }
    }

    /// After a message was given.
    pub open spec fn sent(self, text: Seq<char>) -> AppServerView {
        match self.thread_id {
            Some(_) => AppServerView { next_turn_id: self.next_turn_id + 1, ..self },
            None => AppServerView { pending: self.pending.push(text), ..self },
        }
    }

    /// What giving a message leads to.
    pub open spec fn sent_steps(self, text: Seq<char>) -> Seq<StepView> {
        match self.thread_id {
            Some(thread_id) => seq![
                StepView::Write(
                    written_json(turn_start(self.next_turn_id as u64, thread_id, text)),
                ),
            ],
            None => seq![
                StepView::Log(
                    LogLevel::Info,
                    "queued message until the app-server session is ready"@,
                ),
            ],
        }
    }
}

/// The thread id that a table of this key carries.
pub open spec fn carried_thread(value: JsonView, key: Seq<char>) -> Option<Seq<char>> {
    match field(value, key) {
        Some(outer) => match field(outer, "thread"@) {
            Some(thread) => text_field(thread, "id"@),
            None => None,
        },
        None => None,
    }
}

/// The integer id of a message.
pub open spec fn message_id(value: JsonView) -> Option<i64> {
    match field(value, "id"@) {
        Some(id) => signed_in(id),
        None => None,
    }
}

/// The thread that a message makes known: the answer to `thread/start`, or the
/// announcement that one started.
pub open spec fn announced_thread(value: JsonView) -> Option<Seq<char>> {
    match (text_field(value, "method"@), message_id(value)) {
        (None, Some(id)) => if id == THREAD_START_ID {
            carried_thread(value, "result"@)
        } else {
            None
        },
        (Some(method), None) => if method == "thread/started"@ {
            carried_thread(value, "params"@)
        } else {
            None
        },
        _ => None,
    }
}

/// What becoming ready leads to, where the message makes a thread known.
pub open spec fn thread_steps(server: AppServerView, value: JsonView) -> Seq<StepView> {
    match announced_thread(value) {
        Some(thread_id) => server.ready_steps(thread_id),
        None => Seq::empty(),
    }
}

/// What a message from the agent leads to. `decoded` is the event that it
/// decodes to.
pub open spec fn value_steps(
    server: AppServerView,
    value: JsonView,
    decoded: EventView,
) -> Seq<StepView> {
    match (text_field(value, "method"@), message_id(value)) {
        (None, Some(id)) => if id == INIT_ID {
            seq![
                StepView::Write(written_json(initialized())),
                StepView::Write(written_json(thread_start(server.cwd, server.sandbox))),
            ]
        } else {
            thread_steps(server, value)
        },
        (None, None) => Seq::empty(),
        (Some(method), Some(_)) => seq![
            StepView::Log(LogLevel::Warn, "unhandled server request: "@ + method),
        ],
        (Some(_), None) => if decoded is Unknown {
            thread_steps(server, value)
        } else {
            thread_steps(server, value).push(StepView::Event(decoded))
        },
    }
}

/// The side after a message from the agent.
pub open spec fn after_value(server: AppServerView, value: JsonView) -> AppServerView {
    match announced_thread(value) {
        Some(thread_id) => server.ready_with(thread_id),
        None => server,
    }
}

impl AppServer {
    /// Whether every waiting message can still get an id.
    pub open spec fn ids_left(self) -> bool {
        self.next_turn_id + self.pending@.len() < u64::MAX
    }

    /// A side whose thread will work in `cwd`.
    pub fn new(cwd: String) -> (r: AppServer)
        ensures
            r@ == AppServerView::fresh(cwd@),
            r.ids_left(),
    {
        let r = AppServer {
            cwd,
            sandbox: "danger-full-access".to_owned(),
            thread_id: None,
            ready: false,
            next_turn_id: THREAD_START_ID + 1,
            pending: Vec::new(),
        };
        assert(r@ =~= AppServerView::fresh(cwd@));
        r
    }

    /// Begin the handshake.
    pub fn start(&self, version: &str) -> (r: Vec<Step>)
        ensures
            step_views(r@) == seq![StepView::Write(written_json(initialize(version@)))],
    {
        proof {
            lemma_message_keys();
        }
        let info = table_of_two("name", text_value("styra"), "version", text_value(version));
        let message = table_of_three(
            "id",
            number_value(INIT_ID),
            "method",
            text_value("initialize"),
            "params",
            table_of_one("clientInfo", info),
        );
        let mut r: Vec<Step> = Vec::new();
        r.push(Step::Write(write_value(&message)));
        assert(step_views(r@) =~= seq![StepView::Write(written_json(initialize(version@)))]);
        r
    }

    /// Handle one line from the agent. `decoded` is the event that the line
    /// decodes to.
    pub fn handle_line(&mut self, line: &str, decoded: StyraEvent) -> (r: Vec<Step>)
        requires
            old(self).ids_left(),
        ensures
            match parsed_json(line@) {
                Ok(value) => step_views(r@) == value_steps(old(self)@, value, decoded@)
                    && final(self)@ == after_value(old(self)@, value),
                Err(_) => step_views(r@) == seq![StepView::Event(decoded@)] && final(self)@ == old(
                    self,
                )@,
            },
            final(self).ids_left(),
    {
        self.handle_message(parse_json(line), decoded)
    }

    /// Handle what reading a line from the agent as JSON gave.
    pub fn handle_message(&mut self, read: Result<Json, String>, decoded: StyraEvent) -> (r: Vec<
        Step,
    >)
        requires
            old(self).ids_left(),
        ensures
            match read {
                Ok(value) => step_views(r@) == value_steps(old(self)@, value@, decoded@)
                    && final(self)@ == after_value(old(self)@, value@),
                Err(_) => step_views(r@) == seq![StepView::Event(decoded@)] && final(self)@ == old(
                    self,
                )@,
            },
            final(self).ids_left(),
    {
        let mut r: Vec<Step> = Vec::new();
        let value = match read {
            Ok(value) => value,
            Err(_) => {
                r.push(Step::Event(decoded));
                assert(step_views(r@) =~= seq![StepView::Event(decoded@)]);
                return r;
            },
        };
        let id = match value.get("id") {
            Some(id) => integer(id),
            None => None,
        };
        match (value.text_at("method"), id) {
            (None, Some(id)) => {
                if id == INIT_ID as i64 {
                    r.push(Step::Write(initialized_line()));
                    r.push(
                        Step::Write(
                            thread_start_line(self.cwd.as_str(), self.sandbox.as_str()),
                        ),
                    );
                    assert(step_views(r@) =~= value_steps(old(self)@, value@, decoded@));
                } else if id == THREAD_START_ID as i64 {
                    if let Some(thread_id) = thread_in(&value, "result") {
                        r = self.become_ready(thread_id);
                    } else {
                        assert(step_views(r@) =~= Seq::<StepView>::empty());
                    }
                } else {
                    assert(step_views(r@) =~= Seq::<StepView>::empty());
                }
            },
            (None, None) => {
                assert(step_views(r@) =~= Seq::<StepView>::empty());
            },
            (Some(method), Some(_)) => {
                r.push(
                    Step::Log(
                        LogEntry::warn("unhandled server request: ".to_owned().concat(method)),
                    ),
                );
                assert(step_views(r@) =~= value_steps(old(self)@, value@, decoded@));
            },
            (Some(method), None) => {
                assert(step_views(r@) =~= Seq::<StepView>::empty());
                if same(method, "thread/started") {
                    if let Some(thread_id) = thread_in(&value, "params") {
                        r = self.become_ready(thread_id);
                    }
                }
                let ghost before = step_views(r@);
                match decoded {
                    StyraEvent::Unknown { .. } => {},
                    _ => {
                        r.push(Step::Event(decoded));
                        assert(step_views(r@) =~= before.push(StepView::Event(decoded@)));
                    },
                }
            },
        }
        r
    }

    /// Send a message as a new turn, or keep it until the thread is ready.
    pub fn send(&mut self, text: &str) -> (r: Vec<Step>)
        requires
            old(self).ids_left(),
        ensures
            step_views(r@) == old(self)@.sent_steps(text@),
            final(self)@ == old(self)@.sent(text@),
    {
        let mut r: Vec<Step> = Vec::new();
        match &self.thread_id {
            Some(thread_id) => {
                r.push(Step::Write(turn_line(self.next_turn_id, thread_id.as_str(), text)));
                self.next_turn_id = self.next_turn_id + 1;
            },
            None => {
                self.pending.push(text.to_owned());
                r.push(
                    Step::Log(
                        LogEntry::info(
                            "queued message until the app-server session is ready".to_owned(),
                        ),
                    ),
                );
                assert(views(self.pending@) =~= old(self)@.pending.push(text@));
            },
        }
        assert(step_views(r@) =~= old(self)@.sent_steps(text@));
        assert(self@ =~= old(self)@.sent(text@));
        r
    }

    fn become_ready(&mut self, thread_id: String) -> (r: Vec<Step>)
        requires
            old(self).ids_left(),
        ensures
            step_views(r@) == old(self)@.ready_steps(thread_id@),
            final(self)@ == old(self)@.ready_with(thread_id@),
            final(self).ids_left(),
    {
        let mut r: Vec<Step> = Vec::new();
        if self.ready {
            assert(step_views(r@) =~= Seq::<StepView>::empty());
            return r;
        }
        let ghost waiting = views(self.pending@);
        let ghost first = self.next_turn_id as nat;
        let ghost head = seq![
            StepView::Log(LogLevel::Info, "app-server ready; thread "@ + thread_id@),
        ];
        r.push(
            Step::Log(
                LogEntry::info("app-server ready; thread ".to_owned().concat(thread_id.as_str())),
            ),
        );
        assert(step_views(r@) =~= head + turns(thread_id@, waiting.take(0), first));
        let count: usize = self.pending.len();
        let mut i: usize = 0;
        let mut next: u64 = self.next_turn_id;
        while i < count
            invariant
                i <= count,
                count == self.pending@.len(),
                waiting == views(self.pending@),
                first + count < u64::MAX,
                next == first + i,
                step_views(r@) == head + turns(thread_id@, waiting.take(i as int), first),
            decreases count - i,
        {
            let ghost had = step_views(r@);
            let line = turn_line(next, thread_id.as_str(), self.pending[i].as_str());
            proof {
                assert(waiting[i as int] == self.pending@[i as int]@);
            }
            r.push(Step::Write(line));
            assert(step_views(r@) =~= had.push(StepView::Write(line@)));
            assert(turns(thread_id@, waiting.take(i + 1), first) =~= turns(
                thread_id@,
                waiting.take(i as int),
                first,
            ).push(StepView::Write(line@)));
            assert(had.push(StepView::Write(line@)) =~= head + turns(
                thread_id@,
                waiting.take(i + 1),
                first,
            ));
            next = next + 1;
            i = i + 1;
        }
        assert(waiting.take(count as int) =~= waiting);
        self.thread_id = Some(thread_id);
        self.ready = true;
        self.next_turn_id = next;
        self.pending = Vec::new();
        assert(self@ =~= old(self)@.ready_with(thread_id@));
        r
    }
}

fn initialized_line() -> (r: String)
    ensures
        r@ == written_json(initialized()),
{
    write_value(&table_of_one("method", text_value("initialized")))
}

fn thread_start_line(cwd: &str, sandbox: &str) -> (r: String)
    ensures
        r@ == written_json(thread_start(cwd@, sandbox@)),
{
    proof {
        lemma_message_keys();
    }
    let params = table_of_three(
        "approvalPolicy",
        text_value("never"),
        "cwd",
        text_value(cwd),
        "sandbox",
        text_value(sandbox),
    );
    let message = table_of_three(
        "id",
        number_value(THREAD_START_ID),
        "method",
        text_value("thread/start"),
        "params",
        params,
    );
    write_value(&message)
}

fn integer(value: &Json) -> (r: Option<i64>)
    ensures
        r == signed_in(value@),
{
    match value {
        Json::Unsigned(n) => if *n <= i64::MAX as u64 {
            Some(*n as i64)
        } else {
            None
        },
        Json::Negative(n) => Some(*n),
        _ => None,
    }
}

fn thread_in(value: &Json, key: &str) -> (r: Option<String>)
    ensures
        view_of(r) == carried_thread(value@, key@),
{
    match value.get(key) {
        Some(outer) => match outer.get("thread") {
            Some(thread) => match thread.text_at("id") {
                Some(id) => Some(id.to_owned()),
                None => None,
            },
            None => None,
        },
        None => None,
    }
}

/// A message given before the thread is ready starts a turn as soon as it is,
/// behind those that were given before it.
pub proof fn law_early_messages_are_sent_when_ready(
    server: AppServerView,
    text: Seq<char>,
    thread_id: Seq<char>,
)
    requires
        !server.ready,
        server.thread_id is None,
    ensures
        server.sent(text).ready_steps(thread_id).last() == StepView::Write(
            written_json(
                turn_start(
                    (server.next_turn_id + server.pending.len()) as u64,
                    thread_id,
                    text,
                ),
            ),
        ),
        server.sent(text).ready_with(thread_id).pending.len() == 0,
{
    let steps = server.sent(text).ready_steps(thread_id);
    let flushed = turns(thread_id, server.pending.push(text), server.next_turn_id);
    assert(steps.last() == flushed.last());
}

/// A thread is taken up once: a later word of one changes nothing.
pub proof fn law_a_thread_is_taken_up_once(server: AppServerView, one: Seq<char>, other: Seq<char>)
    ensures
        server.ready_with(one).ready_with(other) == server.ready_with(one),
        server.ready_with(one).ready_steps(other).len() == 0,
{
}

} // verus!
