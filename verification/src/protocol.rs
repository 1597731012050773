//! What the client and its server tell each other, as plain values.

use serde_json::Value;
use vstd::prelude::*;

pub use crate::event::TokenUsage;
use crate::ingest::Arrival;
use crate::path::{same_path, same_place};
use crate::text::{same, same_list, view_of, views};

verus! {

// --- Agents ------------------------------------------------------------------

/// Which agent runs a session. Agents that no rule of the client treats apart
/// are told apart by a number.
#[derive(Clone, Copy, Debug, PartialEq, Eq, Structural)]
pub enum Provider {
    Codex,
    Claude,
    Other(u8),
}

/// How much an agent is asked to think.
#[derive(Clone, Copy, Debug, PartialEq, Eq, Structural)]
pub enum Effort {
    Minimal,
    Low,
    Medium,
    High,
    XHigh,
    Max,
}

impl Effort {
    /// The word for this effort.
    pub open spec fn word(self) -> Seq<char> {
        match self {
            Effort::Minimal => "minimal"@,
            Effort::Low => "low"@,
            Effort::Medium => "medium"@,
            Effort::High => "high"@,
            Effort::XHigh => "xhigh"@,
            Effort::Max => "max"@,
        }
    }

    pub fn as_str(self) -> (r: &'static str)
        ensures
            r@ == self.word(),
    {
        match self {
            Effort::Minimal => "minimal",
            Effort::Low => "low",
            Effort::Medium => "medium",
            Effort::High => "high",
            Effort::XHigh => "xhigh",
            Effort::Max => "max",
        }
    }
}

/// What a session is launched with.
#[derive(Debug, PartialEq, Eq)]
pub struct Selection {
    pub provider: Provider,
    pub model: String,
    pub effort: Effort,
}

pub ghost struct SelectionView {
    pub provider: Provider,
    pub model: Seq<char>,
    pub effort: Effort,
}

impl View for Selection {
    type V = SelectionView;

    open spec fn view(&self) -> SelectionView {
        SelectionView { provider: self.provider, model: self.model@, effort: self.effort }
    }
}

impl Selection {
    pub fn copied(&self) -> (r: Selection)
        ensures
            r == *self,
    {
        Selection { provider: self.provider, model: self.model.clone(), effort: self.effort }
    }

    /// Whether both name the same agent, model and effort.
    pub fn is(&self, other: &Selection) -> (r: bool)
        ensures
            r == (self@ == other@),
    {
        self.provider == other.provider && same(self.model.as_str(), other.model.as_str())
            && self.effort == other.effort
    }
}

// --- Typed replies -----------------------------------------------------------

/// The shape a turn asks its reply to take.
#[derive(Clone, Copy, Debug, PartialEq, Eq, Structural)]
pub enum Contract {
    Text,
    Lines,
    Files,
    Json,
}

/// One place in a file that a reply names.
#[derive(Debug, PartialEq, Eq)]
pub struct FileLocation {
    pub path: String,
    pub line: Option<u32>,
    pub column: Option<u32>,
    pub description: String,
}

/// What a typed reply turned out to hold.
#[derive(Debug, PartialEq, Eq)]
pub enum AnswerValue {
    Lines(Vec<String>),
    Files(Vec<FileLocation>),
    Text(String),
    Json(Value),
}

/// A typed reply: what it was read as, or why it could not be.
#[derive(Debug, PartialEq, Eq)]
pub struct Answer {
    pub contract: Contract,
    pub value: Option<AnswerValue>,
    pub error: Option<String>,
    pub source: String,
}

/// A message waiting for the agent, with the shape it asks its reply to take.
#[derive(Debug, PartialEq, Eq)]
pub struct QueuedMessage {
    pub text: String,
    pub contract: Option<Contract>,
}

impl QueuedMessage {
    pub fn new(text: String) -> (r: QueuedMessage)
        ensures
            r.text == text,
            r.contract is None,
    {
        QueuedMessage { text, contract: None }
    }

    pub fn asking_for(self, contract: Option<Contract>) -> (r: QueuedMessage)
        ensures
            r.text == self.text,
            r.contract == contract,
    {
        QueuedMessage { text: self.text, contract }
    }
}

// --- The wire and the log ----------------------------------------------------

/// Which way a wire line went.
#[derive(Clone, Copy, Debug, PartialEq, Eq, Structural)]
pub enum Direction {
    ToAgent,
    FromAgent,
}

/// One line of the wire, as it went.
#[derive(Debug, PartialEq, Eq)]
pub struct RawLine {
    pub at_ms: u64,
    pub direction: Direction,
    pub text: String,
}

/// How much a log entry matters.
#[derive(Clone, Copy, Debug, PartialEq, Eq, Structural)]
pub enum LogLevel {
    Info,
    Warn,
    Error,
}

/// One entry of the diagnostic log.
#[derive(Debug, PartialEq, Eq)]
pub struct LogEntry {
    pub level: LogLevel,
    pub message: String,
}

impl LogEntry {
    pub fn info(message: String) -> (r: LogEntry)
        ensures
            r == (LogEntry { level: LogLevel::Info, message }),
    {
        LogEntry { level: LogLevel::Info, message }
    }

    pub fn warn(message: String) -> (r: LogEntry)
        ensures
            r == (LogEntry { level: LogLevel::Warn, message }),
    {
        LogEntry { level: LogLevel::Warn, message }
    }

    pub fn error(message: String) -> (r: LogEntry)
        ensures
            r == (LogEntry { level: LogLevel::Error, message }),
    {
        LogEntry { level: LogLevel::Error, message }
    }
}

/// How full a plan's window is.
#[derive(Clone, Copy, Debug, PartialEq, Eq, Structural)]
pub enum QuotaStatus {
    Normal,
    Warning,
    Exhausted,
}

/// One reading of a plan's window.
#[derive(Debug, PartialEq, Eq)]
pub struct QuotaEvent {
    pub at_ms: u64,
    pub session_id: String,
    pub provider: Provider,
    pub window: String,
    pub status: QuotaStatus,
    pub resets_at_ms: Option<u64>,
    pub detail: Option<String>,
}

// --- Sandboxes ---------------------------------------------------------------

/// A host path an operator asks a launch to carry into the sandbox.
#[derive(Debug, PartialEq, Eq)]
pub struct LaunchMount {
    pub source: String,
    pub destination: Option<String>,
    pub writable: bool,
}

pub ghost struct LaunchMountView {
    pub source: Seq<char>,
    pub destination: Option<Seq<char>>,
    pub writable: bool,
}

impl View for LaunchMount {
    type V = LaunchMountView;

    open spec fn view(&self) -> LaunchMountView {
        LaunchMountView {
            source: self.source@,
            destination: view_of(self.destination),
            writable: self.writable,
        }
    }
}

/// Whether two optional paths are the same.
pub open spec fn same_places(a: Option<Seq<char>>, b: Option<Seq<char>>) -> bool {
    match (a, b) {
        (Some(a), Some(b)) => same_place(a, b),
        (None, None) => true,
        _ => false,
    }
}

impl LaunchMountView {
    /// Whether both ask for the same thing, however they spell their paths.
    pub open spec fn same_as(self, other: LaunchMountView) -> bool {
        &&& same_place(self.source, other.source)
        &&& same_places(self.destination, other.destination)
        &&& self.writable == other.writable
    }
}

impl LaunchMount {
    pub fn copied(&self) -> (r: LaunchMount)
        ensures
            r == *self,
    {
        LaunchMount {
            source: self.source.clone(),
            destination: self.destination.clone(),
            writable: self.writable,
        }
    }

    /// Whether both ask for the same thing.
    pub fn is(&self, other: &LaunchMount) -> (r: bool)
        ensures
            r == self@.same_as(other@),
    {
        let destinations = match (&self.destination, &other.destination) {
            (Some(a), Some(b)) => same_path(a.as_str(), b.as_str()),
            (None, None) => true,
            _ => false,
        };
        same_path(self.source.as_str(), other.source.as_str()) && destinations && self.writable
            == other.writable
    }
}

/// The views of a list of mounts.
pub open spec fn mount_views(mounts: Seq<LaunchMount>) -> Seq<LaunchMountView> {
    mounts.map_values(|m: LaunchMount| m@)
}

/// Whether one of the mounts asks for the same thing as `mount`.
pub open spec fn grants(mounts: Seq<LaunchMountView>, mount: LaunchMountView) -> bool {
    exists|i: int| 0 <= i < mounts.len() && (#[trigger] mounts[i]).same_as(mount)
}

/// Whether a list of mounts holds one that asks for the same thing as `mount`.
pub fn holds_mount(mounts: &Vec<LaunchMount>, mount: &LaunchMount) -> (r: bool)
    ensures
        r == grants(mount_views(mounts@), mount@),
{
    let mut i: usize = 0;
    while i < mounts.len()
        invariant
            i <= mounts@.len(),
            forall|j: int| 0 <= j < i ==> !(#[trigger] mounts@[j])@.same_as(mount@),
        decreases mounts.len() - i,
    {
        if mounts[i].is(mount) {
            assert(mount_views(mounts@)[i as int].same_as(mount@));
            return true;
        }
        i = i + 1;
    }
    assert forall|j: int| 0 <= j < mounts@.len() implies !(#[trigger] mount_views(
        mounts@,
    )[j]).same_as(mount@) by {
        assert(!mounts@[j]@.same_as(mount@));
    }
    false
}

/// A copy of a list of mounts.
pub fn copied_mounts(mounts: &Vec<LaunchMount>) -> (r: Vec<LaunchMount>)
    ensures
        r@ == mounts@,
{
    let mut r: Vec<LaunchMount> = Vec::new();
    let mut i: usize = 0;
    while i < mounts.len()
        invariant
            i <= mounts@.len(),
            r@ == mounts@.take(i as int),
        decreases mounts.len() - i,
    {
        r.push(mounts[i].copied());
        assert(mounts@.take(i + 1) =~= mounts@.take(i as int).push(mounts@[i as int]));
        i = i + 1;
    }
    assert(mounts@.take(mounts@.len() as int) =~= mounts@);
    r
}

/// Whether two lists ask for the same things in the same order.
pub open spec fn same_lists(a: Seq<LaunchMountView>, b: Seq<LaunchMountView>) -> bool {
    &&& a.len() == b.len()
    &&& forall|i: int| 0 <= i < a.len() ==> (#[trigger] a[i]).same_as(b[i])
}

/// Whether two lists ask for the same things in the same order.
pub fn same_mounts(a: &Vec<LaunchMount>, b: &Vec<LaunchMount>) -> (r: bool)
    ensures
        r == same_lists(mount_views(a@), mount_views(b@)),
{
    if a.len() != b.len() {
        assert(mount_views(a@).len() != mount_views(b@).len());
        return false;
    }
    let mut i: usize = 0;
    while i < a.len()
        invariant
            i <= a@.len(),
            a@.len() == b@.len(),
            forall|j: int| 0 <= j < i ==> (#[trigger] a@[j])@.same_as(b@[j]@),
        decreases a.len() - i,
    {
        if !a[i].is(&b[i]) {
            assert(!mount_views(a@)[i as int].same_as(mount_views(b@)[i as int]));
            return false;
        }
        i = i + 1;
    }
    assert forall|j: int| 0 <= j < a@.len() implies (#[trigger] mount_views(a@)[j]).same_as(
        mount_views(b@)[j],
    ) by {
        assert(a@[j]@.same_as(b@[j]@));
    }
    true
}

/// What a launch is asked for beyond its agent.
#[derive(Debug, PartialEq, Eq)]
pub struct LaunchPolicy {
    /// Whether the agent may use the network, where this policy says.
    pub network: Option<bool>,
    pub templates: Vec<String>,
    pub mounts: Vec<LaunchMount>,
    /// Whether this policy is the whole of it, rather than an addition to the
    /// one beneath.
    pub standalone: bool,
}

#[verifier::ext_equal]
pub ghost struct PolicyView {
    pub network: Option<bool>,
    pub templates: Seq<Seq<char>>,
    pub mounts: Seq<LaunchMountView>,
    pub standalone: bool,
}

impl View for LaunchPolicy {
    type V = PolicyView;

    open spec fn view(&self) -> PolicyView {
        PolicyView {
            network: self.network,
            templates: views(self.templates@),
            mounts: mount_views(self.mounts@),
            standalone: self.standalone,
        }
    }
}

impl PolicyView {
    /// Whether both ask for the same things, however they spell their paths.
    pub open spec fn same_as(self, other: PolicyView) -> bool {
        &&& self.network == other.network
        &&& self.templates == other.templates
        &&& same_lists(self.mounts, other.mounts)
        &&& self.standalone == other.standalone
    }
}

/// The policy that asks for nothing.
pub open spec fn no_policy() -> PolicyView {
    PolicyView {
        network: None,
        templates: Seq::empty(),
        mounts: Seq::empty(),
        standalone: false,
    }
}

impl LaunchPolicy {
    pub fn none() -> (r: LaunchPolicy)
        ensures
            r@ == no_policy(),
            r.templates@.len() == 0,
            r.mounts@.len() == 0,
    {
        LaunchPolicy { network: None, templates: Vec::new(), mounts: Vec::new(), standalone: false }
    }

    pub fn copied(&self) -> (r: LaunchPolicy)
        ensures
            r@ == self@,
            r.templates@ == self.templates@,
            r.mounts@ == self.mounts@,
    {
        LaunchPolicy {
            network: self.network,
            templates: self.templates.clone(),
            mounts: copied_mounts(&self.mounts),
            standalone: self.standalone,
        }
    }

    /// Whether both ask for the same things.
    pub fn is(&self, other: &LaunchPolicy) -> (r: bool)
        ensures
            r == self@.same_as(other@),
    {
        let networks = match (self.network, other.network) {
            (Some(a), Some(b)) => a == b,
            (None, None) => true,
            _ => false,
        };
        networks && same_list(&self.templates, &other.templates) && same_mounts(
            &self.mounts,
            &other.mounts,
        ) && self.standalone == other.standalone
    }
}

/// Whether a bind mount lets the agent write to the host.
#[derive(Clone, Copy, Debug, PartialEq, Eq, Structural)]
pub enum MountAccess {
    ReadOnly,
    ReadWrite,
}

/// One mount of a sandbox.
#[derive(Debug, PartialEq, Eq)]
pub enum Mount {
    Bind { source: String, destination: String, access: MountAccess },
    Overlay { source: String, destination: String },
    Temporary { destination: String },
}

impl Mount {
    pub fn copied(&self) -> (r: Mount)
        ensures
            r == *self,
    {
        match self {
            Mount::Bind { source, destination, access } => Mount::Bind {
                source: source.clone(),
                destination: destination.clone(),
                access: *access,
            },
            Mount::Overlay { source, destination } => Mount::Overlay {
                source: source.clone(),
                destination: destination.clone(),
            },
            Mount::Temporary { destination } => Mount::Temporary {
                destination: destination.clone(),
            },
        }
    }
}

/// What put a mount into a sandbox.
#[derive(Clone, Copy, Debug, PartialEq, Eq, Structural)]
pub enum MountOrigin {
    Base,
    Profile,
    Template,
    Workspace,
    Interaction,
}

/// A mount and what put it there.
#[derive(Debug, PartialEq, Eq)]
pub struct AttributedMount {
    pub origin: MountOrigin,
    pub mount: Mount,
}

/// The sandbox an interaction runs in.
#[derive(Debug, PartialEq, Eq)]
pub struct DrivaOptions {
    pub isolation_backend: String,
    pub command: Vec<String>,
    pub working_directory: String,
    pub network: bool,
    pub mounts: Vec<AttributedMount>,
}

impl DrivaOptions {
    /// The mounts alone.
    pub open spec fn mount_list(self) -> Seq<Mount> {
        self.mounts@.map_values(|m: AttributedMount| m.mount)
    }

    /// The mounts, without what put them there.
    pub fn plain_mounts(&self) -> (r: Vec<Mount>)
        ensures
            r@ == self.mount_list(),
    {
        let mut r: Vec<Mount> = Vec::new();
        let mut i: usize = 0;
        while i < self.mounts.len()
            invariant
                i <= self.mounts@.len(),
                r@ == self.mount_list().take(i as int),
            decreases self.mounts.len() - i,
        {
            r.push(self.mounts[i].mount.copied());
            assert(self.mount_list().take(i + 1) =~= self.mount_list().take(i as int).push(
                self.mounts@[i as int].mount,
            ));
            i = i + 1;
        }
        assert(self.mount_list().take(self.mounts@.len() as int) =~= self.mount_list());
        r
    }
}

/// An edit of a Workspace's standing policy, as the server is asked for it.
#[derive(Debug, PartialEq, Eq)]
pub enum WorkspaceLaunchChange {
    SetNetwork(Option<bool>),
    SetTemplates(Vec<String>),
    AddMounts(Vec<LaunchMount>),
    RemoveMount(LaunchMount),
    Replace(LaunchPolicy),
}

// --- Interactions and Workspaces ---------------------------------------------

/// What the server says a live interaction is doing.
#[derive(Clone, Copy, Debug, PartialEq, Eq, Structural)]
pub enum InteractionActivity {
    Pending,
    Running,
    Background,
}

/// One interaction, as the server lists it.
#[derive(Debug, PartialEq, Eq)]
pub struct InteractionSummary {
    pub id: String,
    pub name: Option<String>,
    pub workspace_id: String,
    pub selection: Selection,
    pub workspace: String,
    pub driva: DrivaOptions,
    pub accepting: bool,
    pub activity: InteractionActivity,
    pub idle_unseen: bool,
    pub auto_retry: bool,
    pub last_message: Option<String>,
    pub events: u64,
}

/// One Workspace, as the server lists it.
#[derive(Debug, PartialEq, Eq)]
pub struct WorkspaceSummary {
    pub id: String,
    pub name: Option<String>,
    pub notes: String,
    pub host_path: String,
    pub path: String,
    pub session_count: u64,
    pub created_at_ms: u64,
    pub last_accessed_at_ms: u64,
    pub launch: LaunchPolicy,
    pub git_repository: bool,
    pub worktrees_enabled: bool,
}

/// How a session's process ended.
#[derive(Debug, PartialEq, Eq)]
pub struct InteractionEnd {
    pub exit_code: Option<i32>,
    pub error: Option<String>,
}

/// How much of an interaction a snapshot holds.
#[derive(Clone, Copy, Debug, PartialEq, Eq, Structural)]
pub enum InteractionSnapshotScope {
    Preview { limit: usize },
    Full,
}

/// One change to an interaction.
#[derive(Debug, PartialEq, Eq)]
pub enum InteractionUpdate {
    Event(AgentEvent),
    Raw(RawLine),
    Log(LogEntry),
    Quota(QuotaEvent),
    WorkingDirectoryChanged(String),
    Ended(InteractionEnd),
}

/// An update as it arrived.
#[derive(Debug, PartialEq, Eq)]
pub struct Arrived {
    pub update: InteractionUpdate,
    /// What is known of an event besides what it says.
    pub arrival: Arrival,
    /// A quota reading in words.
    pub description: String,
}

/// A stored session, as the server lists it.
#[derive(Debug, PartialEq, Eq)]
pub struct StoredSession {
    pub id: String,
    pub name: Option<String>,
    pub workspace_id: String,
    pub selection: Selection,
    pub notes: String,
    pub created_at_ms: u64,
}

/// A session as the server launched or resumed it.
#[derive(Debug, PartialEq, Eq)]
pub struct SessionInfo {
    pub id: String,
    pub name: Option<String>,
    pub workspace_id: String,
    pub workspace: String,
    pub selection: Selection,
    pub driva: DrivaOptions,
    pub journal_path: String,
    pub queued: Vec<QueuedMessage>,
    /// Where its updates start.
    pub updates_after: u64,
}

/// An interaction as it was when the server was asked for it.
#[derive(Debug, PartialEq, Eq)]
pub struct InteractionSnapshot {
    pub request_id: String,
    pub interaction: InteractionSummary,
    pub background_work: bool,
    /// The updates, oldest first.
    pub updates: Vec<Arrived>,
    /// Where the updates after these start.
    pub next: u64,
    pub queued: Vec<QueuedMessage>,
    pub scope: InteractionSnapshotScope,
}

// --- Agent events ------------------------------------------------------------

/// One thing an agent said or did.
#[allow(inconsistent_fields)]
#[derive(Debug, PartialEq, Eq)]
pub enum AgentEvent {
    ThreadStarted { thread_id: String, model: Option<String>, effort: Option<String> },
    ModelChanged { model: Option<String>, effort: Option<String> },
    TurnStarted,
    TurnCompleted { usage: TokenUsage },
    UsageUpdated { usage: TokenUsage },
    UserMessage { text: String },
    AgentMessage { text: String },
    Thinking { text: String, tokens: Option<u64> },
    PlanUpdated { text: String },
    CommandStarted { command: String },
    CommandCompleted { command: String, status: String, exit_code: Option<i64>, output: String },
    ToolStarted { id: String, name: String, detail: String },
    ToolCompleted { id: String, name: String, detail: String, status: String, output: String },
    FileChanged {
        id: String,
        paths: Vec<String>,
        diff: Option<String>,
        checkpoint: Option<String>,
        checkpoint_error: Option<String>,
    },
    TaskStarted { id: String, description: String, kind: String, agent: Option<String> },
    TaskProgress {
        id: String,
        description: String,
        agent: Option<String>,
        tool: Option<String>,
        tokens: Option<u64>,
    },
    TaskCompleted { id: String, status: String, summary: String, error: Option<String> },
    BackgroundTasks { running: u64 },
    Error { message: String },
    Unknown { event_type: String, raw: String },
    Malformed { error: String, raw: String },
}

} // verus!
