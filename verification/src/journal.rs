//! The append-only journal of a session, and what it replays to.

use serde_json::Value;
use vstd::prelude::*;

use crate::event::{
    decode_line, line_event, EventView, Protocol, StyraEvent,
};
use crate::json::{
    entry_at, entry_views, field, keys_differ, number_value, parse_json, parsed_json, plain,
    text_field, text_value, write_entries, written_entries, Json, JsonView,
};
use crate::order::{reorders, stable_sort, stably_sorted, values, without_ranks, Ranked};
use crate::path::{join, under};
use crate::protocol::{Direction, RawLine};
use crate::text::{
    decimal, lemma_padded_value, number, padded, padded_number, parse_number, parsed,
    pieces, same, split_at_each, split_on, trim, trimmed, unsigned_digits, value, views,
};

verus! {

/// One line of a journal.
#[derive(Debug, PartialEq, Eq)]
pub enum Record {
    /// A line from the agent, as it came.
    Agent { at_ms: u64, raw: String },
    /// A message the operator sent.
    User { at_ms: u64, text: String },
}

/// What a record holds.
pub ghost enum RecordView {
    Agent { at_ms: u64, raw: Seq<char> },
    User { at_ms: u64, text: Seq<char> },
}

impl View for Record {
    type V = RecordView;

    open spec fn view(&self) -> RecordView {
        match self {
            Record::Agent { at_ms, raw } => RecordView::Agent { at_ms: *at_ms, raw: raw@ },
            Record::User { at_ms, text } => RecordView::User { at_ms: *at_ms, text: text@ },
        }
    }
}

/// The entries that a record is written as: where it is from, the time, and what
/// came.
pub open spec fn record_entries(record: RecordView) -> Seq<(Seq<char>, JsonView)> {
    match record {
        RecordView::Agent { at_ms, raw } => seq![
            ("source"@, JsonView::Text("agent"@)),
            ("at_ms"@, JsonView::Unsigned(at_ms)),
            ("raw"@, JsonView::Text(raw)),
        ],
        RecordView::User { at_ms, text } => seq![
            ("source"@, JsonView::Text("user"@)),
            ("at_ms"@, JsonView::Unsigned(at_ms)),
            ("text"@, JsonView::Text(text)),
        ],
    }
}

/// The record that a list describes: its source, the time and what came, in
/// that order, and nothing more.
pub open spec fn listed_record(items: Seq<JsonView>) -> Option<RecordView> {
    if items.len() != 3 {
        None
    } else {
        match (items[0], items[1], items[2]) {
            (JsonView::Text(source), JsonView::Unsigned(at_ms), JsonView::Text(came)) => if source
                == "agent"@ {
                Some(RecordView::Agent { at_ms, raw: came })
            } else if source == "user"@ {
                Some(RecordView::User { at_ms, text: came })
            } else {
                None
            },
            _ => None,
        }
    }
}

/// The record that a JSON value describes: a table that names its source, the
/// time, and what came, or a list of the three. Other entries of a table are
/// passed over.
pub open spec fn record_in(value: JsonView) -> Option<RecordView> {
    if let JsonView::List(items) = value {
        listed_record(items)
    } else {
        tabled_record(value)
    }
}

/// The record that a table describes.
pub open spec fn tabled_record(value: JsonView) -> Option<RecordView> {
    match (text_field(value, "source"@), field(value, "at_ms"@)) {
        (Some(source), Some(JsonView::Unsigned(at_ms))) => if source == "agent"@ {
            match text_field(value, "raw"@) {
                Some(raw) => Some(RecordView::Agent { at_ms, raw }),
                None => None,
            }
        } else if source == "user"@ {
            match text_field(value, "text"@) {
                Some(text) => Some(RecordView::User { at_ms, text }),
                None => None,
            }
        } else {
            None
        },
        _ => None,
    }
}

/// What a line of a journal describes: a record, or why it is none.
pub open spec fn line_record(line: Seq<char>) -> Result<RecordView, Seq<char>> {
    match parsed_json(line) {
        Ok(value) => match record_in(value) {
            Some(record) => Ok(record),
            None => Err("not a journal record"@),
        },
        Err(error) => Err(error),
    }
}

proof fn lemma_record_keys()
    ensures
        "source"@ != "at_ms"@,
        "source"@ != "raw"@,
        "source"@ != "text"@,
        "at_ms"@ != "raw"@,
        "at_ms"@ != "text"@,
        "agent"@ != "user"@,
{
    reveal_strlit("at_ms");
    reveal_strlit("raw");
    reveal_strlit("source");
    reveal_strlit("text");
    reveal_strlit("agent");
    reveal_strlit("user");
    assert("agent"@.len() != "user"@.len());
    assert("raw"@.len() != "source"@.len());
    assert("at_ms"@.len() != "source"@.len());
    assert("at_ms"@.len() != "raw"@.len());
    assert("source"@.len() != "text"@.len());
    assert("at_ms"@.len() != "text"@.len());
}

/// What a record is written as describes the record, whatever order its entries
/// are read in.
pub proof fn lemma_record_entries(record: RecordView, read: JsonView)
    requires
        read is Table,
        forall|key: Seq<char>| #[trigger]
            field(read, key) == field(JsonView::Table(record_entries(record)), key),
    ensures
        record_in(read) == Some(record),
{
    lemma_record_keys();
    reveal_with_fuel(entry_at, 4);
    let entries = record_entries(record);
    assert(entries.skip(1)[0] == entries[1]);
    assert(entries.skip(1).skip(1)[0] == entries[2]);
}

/// The line that stands for a record, with the newline that ends it. Reading it
/// gives the record back.
pub fn record_line(record: &Record) -> (r: String)
    ensures
        r@ == written_entries(record_entries(record@)).push('\n'),
        r@.last() == '\n',
        !r@.drop_last().contains('\n'),
        records(r@.drop_last(), record@),
{
    let mut entries: Vec<(String, Value)> = Vec::new();
    match record {
        Record::Agent { at_ms, raw } => {
            entries.push(("source".to_owned(), text_value("agent")));
            entries.push(("at_ms".to_owned(), number_value(*at_ms)));
            entries.push(("raw".to_owned(), text_value(raw.as_str())));
        },
        Record::User { at_ms, text } => {
            entries.push(("source".to_owned(), text_value("user")));
            entries.push(("at_ms".to_owned(), number_value(*at_ms)));
            entries.push(("text".to_owned(), text_value(text.as_str())));
        },
    }
    let ghost written = entry_views(entries@);
    proof {
        assert(written =~= record_entries(record@));
        lemma_record_keys();
        reveal_with_fuel(plain, 3);
        assert(keys_differ(written));
        assert(plain(JsonView::Table(written), 100));
    }
    let mut line = write_entries(entries);
    let ghost body = line@;
    proof {
        crate::text::lemma_not_blank(body);
        lemma_record_entries(record@, parsed_json(body)->Ok_0);
    }
    line.push('\n');
    assert(line@.drop_last() =~= body);
    line
}

/// The record that a line describes, or why it describes none.
pub fn read_record(line: &str) -> (r: Result<Record, String>)
    ensures
        match r {
            Ok(record) => line_record(line@) == Ok::<RecordView, Seq<char>>(record@),
            Err(error) => line_record(line@) == Err::<RecordView, Seq<char>>(error@),
        },
{
    match parse_json(line) {
        Ok(value) => match record_of(&value) {
            Some(record) => Ok(record),
            None => Err("not a journal record".to_owned()),
        },
        Err(error) => Err(error),
    }
}

/// The record that a JSON value describes.
pub fn record_of(value: &Json) -> (r: Option<Record>)
    ensures
        match r {
            Some(record) => record_in(value@) == Some(record@),
            None => record_in(value@) is None,
        },
{
    if let Json::List(items) = value {
        proof {
            crate::json::lemma_list_view(*value);
        }
        return record_in_list(items, Ghost(value@->List_0));
    }
    let at_ms = match value.get("at_ms") {
        Some(Json::Unsigned(n)) => *n,
        _ => {
            return None;
        },
    };
    let source = match value.text_at("source") {
        Some(source) => source,
        None => {
            return None;
        },
    };
    if same(source, "agent") {
        match value.text_at("raw") {
            Some(raw) => Some(Record::Agent { at_ms, raw: raw.to_owned() }),
            None => None,
        }
    } else if same(source, "user") {
        match value.text_at("text") {
            Some(text) => Some(Record::User { at_ms, text: text.to_owned() }),
            None => None,
        }
    } else {
        None
    }
}

fn record_in_list(items: &Vec<Json>, Ghost(all): Ghost<Seq<JsonView>>) -> (r: Option<Record>)
    requires
        all.len() == items@.len(),
        forall|j: int| 0 <= j < items@.len() ==> #[trigger] all[j] == items@[j]@,
    ensures
        match r {
            Some(record) => listed_record(all) == Some(record@),
            None => listed_record(all) is None,
        },
{
    if items.len() != 3 {
        return None;
    }
    assert(all[0] == items@[0]@ && all[1] == items@[1]@ && all[2] == items@[2]@);
    let at_ms = match items[1] {
        Json::Unsigned(n) => n,
        _ => {
            return None;
        },
    };
    match (items[0].as_text(), items[2].as_text()) {
        (Some(source), Some(came)) => if same(source, "agent") {
            Some(Record::Agent { at_ms, raw: came.to_owned() })
        } else if same(source, "user") {
            Some(Record::User { at_ms, text: came.to_owned() })
        } else {
            None
        },
        _ => None,
    }
}

// --- Replay ------------------------------------------------------------------

/// The event that what a line describes replays to.
pub open spec fn replayed(record: Result<RecordView, Seq<char>>) -> EventView {
    match record {
        Ok(RecordView::Agent { raw, .. }) => line_event(raw),
        Ok(RecordView::User { text, .. }) => EventView::UserMessage { text },
        Err(error) => EventView::Malformed { error: "unreadable journal record: "@ + error },
    }
}

/// The events that the lines of a journal replay to, blank lines apart.
pub open spec fn replayed_lines(lines: Seq<Seq<char>>) -> Seq<EventView>
    decreases lines.len(),
{
    if lines.len() == 0 {
        Seq::empty()
    } else {
        let before = replayed_lines(lines.drop_last());
        if trimmed(lines.last()).len() == 0 {
            before
        } else {
            before.push(replayed(line_record(lines.last())))
        }
    }
}

/// What the events of a list hold.
pub open spec fn event_views(events: Seq<StyraEvent>) -> Seq<EventView> {
    events.map_values(|e: StyraEvent| e@)
}

/// The event that what a line describes replays to.
pub fn replay_record(record: Result<Record, String>, protocol: Protocol) -> (r: StyraEvent)
    ensures
        match record {
            Ok(Record::Agent { raw, .. }) => r@ == line_event(raw@),
            Ok(Record::User { text, .. }) => r@ == (EventView::UserMessage { text: text@ }),
            Err(error) => r@ == (EventView::Malformed {
                error: "unreadable journal record: "@ + error@,
            }),
        },
{
    match record {
        Ok(Record::Agent { raw, .. }) => decode_line(protocol, raw.as_str()),
        Ok(Record::User { text, .. }) => StyraEvent::UserMessage { text },
        Err(error) => StyraEvent::Malformed {
            error: "unreadable journal record: ".to_owned().concat(error.as_str()),
        },
    }
}

/// The events that the lines of a journal replay to: each agent line decoded,
/// each message as it was sent, and each line that is no record as an event
/// that says so.
pub fn replay(lines: &Vec<String>, protocol: Protocol) -> (r: Vec<StyraEvent>)
    ensures
        event_views(r@) == replayed_lines(views(lines@)),
{
    let ghost all = views(lines@);
    let mut r: Vec<StyraEvent> = Vec::new();
    let mut i: usize = 0;
    assert(all.take(0) =~= Seq::<Seq<char>>::empty());
    assert(event_views(r@) =~= Seq::<EventView>::empty());
    while i < lines.len()
        invariant
            i <= lines@.len(),
            all == views(lines@),
            event_views(r@) == replayed_lines(all.take(i as int)),
        decreases lines.len() - i,
    {
        proof {
            assert(all.take(i + 1).drop_last() =~= all.take(i as int));
            assert(all.take(i + 1).last() == lines@[i as int]@);
        }
        let line = lines[i].as_str();
        if !trim(line).as_str().is_empty() {
            let ghost had = event_views(r@);
            let event = replay_record(read_record(line), protocol);
            assert(event@ == replayed(line_record(line@)));
            r.push(event);
            assert(event_views(r@) =~= had.push(event@));
        }
        i = i + 1;
    }
    assert(all.take(all.len() as int) =~= all);
    r
}

/// One wire line of a replayed journal.
pub ghost struct RawView {
    pub at_ms: u64,
    pub direction: Direction,
    pub text: Seq<char>,
}

/// What a wire line holds.
pub open spec fn raw_view(line: RawLine) -> RawView {
    RawView { at_ms: line.at_ms, direction: line.direction, text: line.text@ }
}

/// What the wire lines of a list hold.
pub open spec fn raw_views(lines: Seq<RawLine>) -> Seq<RawView> {
    lines.map_values(|l: RawLine| raw_view(l))
}

/// The wire line that a record stands for.
pub open spec fn record_raw(record: RecordView) -> RawView {
    match record {
        RecordView::Agent { at_ms, raw } => RawView {
            at_ms,
            direction: Direction::FromAgent,
            text: raw,
        },
        RecordView::User { at_ms, text } => RawView {
            at_ms,
            direction: Direction::ToAgent,
            text,
        },
    }
}

/// The wire lines that the lines of a journal stand for. A line that is no
/// record stands for none.
pub open spec fn raw_lines(lines: Seq<Seq<char>>) -> Seq<RawView>
    decreases lines.len(),
{
    if lines.len() == 0 {
        Seq::empty()
    } else {
        let before = raw_lines(lines.drop_last());
        match line_record(lines.last()) {
            Ok(record) => if trimmed(lines.last()).len() == 0 {
                before
            } else {
                before.push(record_raw(record))
            },
            Err(_) => before,
        }
    }
}

/// The wire lines that the lines of a journal stand for.
pub fn replay_raw(lines: &Vec<String>) -> (r: Vec<RawLine>)
    ensures
        raw_views(r@) == raw_lines(views(lines@)),
{
    let ghost all = views(lines@);
    let mut r: Vec<RawLine> = Vec::new();
    let mut i: usize = 0;
    assert(all.take(0) =~= Seq::<Seq<char>>::empty());
    assert(raw_views(r@) =~= Seq::<RawView>::empty());
    while i < lines.len()
        invariant
            i <= lines@.len(),
            all == views(lines@),
            raw_views(r@) == raw_lines(all.take(i as int)),
        decreases lines.len() - i,
    {
        proof {
            assert(all.take(i + 1).drop_last() =~= all.take(i as int));
            assert(all.take(i + 1).last() == lines@[i as int]@);
        }
        let line = lines[i].as_str();
        let ghost had = raw_views(r@);
        if !trim(line).as_str().is_empty() {
            match read_record(line) {
                Ok(Record::Agent { at_ms, raw }) => {
                    r.push(RawLine { at_ms, direction: Direction::FromAgent, text: raw });
                    assert(raw_views(r@) =~= had.push(raw_view(r@.last())));
                },
                Ok(Record::User { at_ms, text }) => {
                    r.push(RawLine { at_ms, direction: Direction::ToAgent, text });
                    assert(raw_views(r@) =~= had.push(raw_view(r@.last())));
                },
                Err(_) => {},
            }
        }
        i = i + 1;
    }
    assert(all.take(all.len() as int) =~= all);
    r
}

/// Whether `line` is what is written for `record`, without the newline.
pub open spec fn records(line: Seq<char>, record: RecordView) -> bool {
    line_record(line) == Ok::<RecordView, Seq<char>>(record) && trimmed(line).len() > 0
}

/// A journal replays in the order it was written: record by record, each agent
/// line to what decoding it gives, each message to itself. Its wire lines are
/// the recorded ones, verbatim.
pub proof fn law_a_journal_replays_what_was_recorded(
    lines: Seq<Seq<char>>,
    written: Seq<RecordView>,
)
    requires
        lines.len() == written.len(),
        forall|i: int| 0 <= i < lines.len() ==> records(#[trigger] lines[i], written[i]),
    ensures
        replayed_lines(lines) == Seq::new(
            written.len(),
            |i: int| replayed(Ok::<RecordView, Seq<char>>(written[i])),
        ),
        raw_lines(lines) == Seq::new(written.len(), |i: int| record_raw(written[i])),
    decreases lines.len(),
{
    if lines.len() > 0 {
        assert(records(lines[lines.len() - 1], written[lines.len() - 1]));
        assert forall|i: int| 0 <= i < lines.drop_last().len() implies records(
            #[trigger] lines.drop_last()[i],
            written.drop_last()[i],
        ) by {
            assert(records(lines[i], written[i]));
        }
        law_a_journal_replays_what_was_recorded(lines.drop_last(), written.drop_last());
        assert(replayed_lines(lines) =~= Seq::new(
            written.len(),
            |i: int| replayed(Ok::<RecordView, Seq<char>>(written[i])),
        ));
        assert(raw_lines(lines) =~= Seq::new(written.len(), |i: int| record_raw(written[i])));
    } else {
        assert(replayed_lines(lines) =~= Seq::new(
            written.len(),
            |i: int| replayed(Ok::<RecordView, Seq<char>>(written[i])),
        ));
        assert(raw_lines(lines) =~= Seq::new(written.len(), |i: int| record_raw(written[i])));
    }
}

// --- The store ---------------------------------------------------------------

/// The directory of a store that holds its sessions.
pub fn sessions_dir(store_root: &str) -> (r: String)
    ensures
        r@ == under(store_root@, "sessions"@),
{
    join(store_root, "sessions")
}

/// The session id for a time, a process and a count.
pub open spec fn session_name(now: nat, process: nat, sequence: nat) -> Seq<char> {
    padded(now, 13).push('-') + (decimal(process).push('-') + decimal(sequence))
}

/// The id of a new session: the time in milliseconds, the process, and how
/// many this process started before.
pub fn new_session_id(now: u64, process: u64, sequence: u64) -> (r: String)
    ensures
        r@ == session_name(now as nat, process as nat, sequence as nat),
{
    let mut r = padded_number(now, 13);
    r.push('-');
    r.append(number(process).as_str());
    r.push('-');
    r.append(number(sequence).as_str());
    assert(r@ =~= session_name(now as nat, process as nat, sequence as nat));
    r
}

/// The time that a session id starts with.
pub open spec fn created_at(id: Seq<char>) -> Option<nat> {
    parsed(split_at_each(id, '-')[0], u64::MAX as nat)
}

/// The time that a session id starts with, where it starts with one.
pub fn session_created_at_ms(id: &str) -> (r: Option<u64>)
    ensures
        match r {
            Some(n) => created_at(id@) == Some(n as nat),
            None => created_at(id@) is None,
        },
{
    let fields = split_on(id, '-');
    assert(views(fields@)[0] == fields@[0]@);
    parse_number(fields[0].as_str(), u64::MAX)
}

proof fn lemma_first_piece(a: Seq<char>, b: Seq<char>, mark: char)
    requires
        !a.contains(mark),
    ensures
        split_at_each(a.push(mark) + b, mark)[0] == a,
        split_at_each(a.push(mark) + b, mark).len() >= 2,
    decreases b.len(),
{
    let cut = crate::text::is_mark(mark);
    let s = a.push(mark) + b;
    if b.len() == 0 {
        assert(s =~= a.push(mark));
        assert(s.drop_last() =~= a);
        lemma_single_piece(a, mark);
    } else {
        assert(s.drop_last() =~= a.push(mark) + b.drop_last());
        lemma_first_piece(a, b.drop_last(), mark);
    }
}

proof fn lemma_single_piece(a: Seq<char>, mark: char)
    requires
        !a.contains(mark),
    ensures
        split_at_each(a, mark) == seq![a],
    decreases a.len(),
{
    if a.len() > 0 {
        assert forall|i: int| 0 <= i < a.drop_last().len() implies a.drop_last()[i] != mark by {
            assert(a.contains(a[i]));
        }
        lemma_single_piece(a.drop_last(), mark);
        assert(a.contains(a.last()));
        assert(a.drop_last().push(a.last()) =~= a);
        assert(pieces(a, crate::text::is_mark(mark)) =~= seq![a]);
    } else {
        assert(a =~= Seq::<char>::empty());
        assert(pieces(a, crate::text::is_mark(mark)) =~= seq![a]);
    }
}

/// The id of a new session gives the time back that it was made at.
pub proof fn law_a_session_id_tells_its_time(now: nat, process: nat, sequence: nat)
    requires
        now <= u64::MAX,
    ensures
        created_at(session_name(now, process, sequence)) == Some(now),
{
    lemma_padded_value(now, 13);
    let stamp = padded(now, 13);
    assert(!stamp.contains('-')) by {
        if stamp.contains('-') {
            let i = choose|i: int| 0 <= i < stamp.len() && stamp[i] == '-';
            assert('0' <= stamp[i] <= '9');
        }
    }
    lemma_first_piece(stamp, decimal(process).push('-') + decimal(sequence), '-');
    assert('0' <= stamp[0] <= '9');
    assert(unsigned_digits(stamp) == stamp);
}

/// A coarse age.
pub open spec fn age(now: u64, created: Option<u64>) -> Seq<char> {
    match created {
        None => "unknown"@,
        Some(at) => {
            let seconds = if at <= now {
                ((now - at) / 1000) as nat
            } else {
                0
            };
            if seconds < 60 {
                "just now"@
            } else if seconds < 3600 {
                decimal(seconds / 60) + "m ago"@
            } else if seconds < 86400 {
                decimal(seconds / 3600) + "h ago"@
            } else {
                decimal(seconds / 86400) + "d ago"@
            }
        },
    }
}

/// How long ago a session was made, roughly. Both times are milliseconds since
/// the epoch.
pub fn humanize_age(now_ms: u64, created_at_ms: Option<u64>) -> (r: String)
    ensures
        r@ == age(now_ms, created_at_ms),
{
    let created = match created_at_ms {
        None => {
            return "unknown".to_owned();
        },
        Some(at) => at,
    };
    let seconds: u64 = now_ms.saturating_sub(created) / 1000;
    if seconds < 60 {
        "just now".to_owned()
    } else if seconds < 3600 {
        number(seconds / 60).concat("m ago")
    } else if seconds < 86400 {
        number(seconds / 3600).concat("h ago")
    } else {
        number(seconds / 86400).concat("d ago")
    }
}

/// A stored session, as a list shows it.
#[derive(Debug, PartialEq, Eq)]
pub struct SessionSummary {
    pub id: String,
    pub path: String,
    /// The agent that ran it, where that is recorded.
    pub profile: Option<String>,
    pub age: String,
    pub created_at_ms: Option<u64>,
}

/// A time by which sessions are ordered: later first, and unknown last.
pub struct Newest(pub Option<u64>);

impl Ranked for Newest {
    open spec fn ranks(&self, other: &Self) -> bool {
        match (self.0, other.0) {
            (_, None) => true,
            (None, Some(_)) => false,
            (Some(a), Some(b)) => a >= b,
        }
    }

    proof fn rank_total(a: &Self, b: &Self) {
    }

    proof fn rank_chain(a: &Self, b: &Self, c: &Self) {
    }

    fn may_precede(&self, other: &Self) -> (r: bool) {
        match (self.0, other.0) {
            (_, None) => true,
            (None, Some(_)) => false,
            (Some(a), Some(b)) => a >= b,
        }
    }
}

/// Each session with the time it is ordered by.
pub open spec fn timed(sessions: Seq<SessionSummary>) -> Seq<(Newest, SessionSummary)> {
    sessions.map_values(|s: SessionSummary| (Newest(s.created_at_ms), s))
}

/// Order sessions by when they were made, newest first and those of unknown
/// time last. Sessions of one time keep their order.
pub fn sort_newest_first(sessions: Vec<SessionSummary>) -> (r: Vec<SessionSummary>)
    ensures
        stably_sorted(timed(sessions@), timed(r@)),
{
    let ghost before = sessions@;
    let mut rest = sessions;
    let mut pairs: Vec<(Newest, SessionSummary)> = Vec::new();
    while rest.len() > 0
        invariant
            before.len() == pairs@.len() + rest@.len(),
            rest@ == before.skip(pairs@.len() as int),
            pairs@ == timed(before).take(pairs@.len() as int),
        decreases rest@.len(),
    {
        let session = rest.remove(0);
        let ghost n = pairs@.len() as int;
        assert(session == before[n]);
        assert(before.skip(n).remove(0) =~= before.skip(n + 1));
        pairs.push((Newest(session.created_at_ms), session));
        assert(timed(before).take(n + 1) =~= timed(before).take(n).push(timed(before)[n]));
    }
    assert(timed(before).take(before.len() as int) =~= timed(before));
    let held = stable_sort(pairs);
    proof {
        let order = choose|order: Seq<int>| reorders(order, timed(before), held@);
        assert(timed(values(held@)) =~= held@) by {
            assert forall|i: int| 0 <= i < held@.len() implies timed(values(held@))[i]
                == held@[i] by {
                assert(0 <= order[i] < before.len());
            }
        }
    }
    without_ranks(held)
}

/// An entry of the directory that holds the sessions.
#[derive(Debug, PartialEq, Eq)]
pub struct Found {
    pub name: String,
    pub is_directory: bool,
    /// The agent that is recorded beside its journal.
    pub profile: Option<String>,
}

/// Whether a session is listed for an entry.
pub open spec fn listed_for(directory: Seq<char>, found: Found, now: u64, session: SessionSummary) -> bool {
    &&& session.id == found.name
    &&& session.path@ == under(directory, found.name@)
    &&& session.profile == found.profile
    &&& match session.created_at_ms {
        Some(at) => created_at(found.name@) == Some(at as nat),
        None => created_at(found.name@) is None,
    }
    &&& session.age@ == age(now, session.created_at_ms)
}

/// The directories among the entries.
pub open spec fn directories(entries: Seq<Found>) -> Seq<Found> {
    entries.filter(|found: Found| found.is_directory)
}

/// Whether a session is listed for each of these entries, in their order.
pub open spec fn listed_each(
    directory: Seq<char>,
    entries: Seq<Found>,
    now: u64,
    sessions: Seq<SessionSummary>,
) -> bool {
    &&& sessions.len() == entries.len()
    &&& forall|i: int|
        0 <= i < entries.len() ==> listed_for(directory, #[trigger] entries[i], now, sessions[i])
}

/// The sessions of a store, newest first: one for each directory among the
/// entries.
pub fn list_sessions(store_root: &str, entries: Vec<Found>, now: u64) -> (r: Vec<SessionSummary>)
    ensures
        exists|sessions: Seq<SessionSummary>|
            listed_each(
                under(store_root@, "sessions"@),
                directories(entries@),
                now,
                sessions,
            ) && #[trigger] stably_sorted(timed(sessions), timed(r@)),
{
    let directory = sessions_dir(store_root);
    let ghost all = entries@;
    let ghost kept = |found: Found| found.is_directory;
    let mut rest = entries;
    let mut sessions: Vec<SessionSummary> = Vec::new();
    let ghost mut done: int = 0;
    proof {
        reveal_with_fuel(Seq::filter, 1);
        assert(all.take(0) =~= Seq::<Found>::empty());
    }
    while rest.len() > 0
        invariant
            0 <= done <= all.len(),
            rest@ == all.skip(done),
            kept == (|found: Found| found.is_directory),
            listed_each(directory@, all.take(done).filter(kept), now, sessions@),
        decreases rest@.len(),
    {
        let found = rest.remove(0);
        let ghost entry = found;
        let ghost before = all.take(done).filter(kept);
        let ghost listed = sessions@;
        proof {
            assert(all.skip(done).remove(0) =~= all.skip(done + 1));
            assert(all.take(done + 1).drop_last() =~= all.take(done));
            assert(all.take(done + 1).last() == entry);
            reveal_with_fuel(Seq::filter, 1);
        }
        if found.is_directory {
            let created_at_ms = session_created_at_ms(found.name.as_str());
            let path = join(directory.as_str(), found.name.as_str());
            sessions.push(
                SessionSummary {
                    id: found.name,
                    path,
                    profile: found.profile,
                    age: humanize_age(now, created_at_ms),
                    created_at_ms,
                },
            );
            proof {
                let after = all.take(done + 1).filter(kept);
                assert(after == before.push(entry));
                assert forall|i: int| 0 <= i < after.len() implies listed_for(
                    directory@,
                    #[trigger] after[i],
                    now,
                    sessions@[i],
                ) by {
                    if i < before.len() {
                        assert(after[i] == before[i]);
                        assert(sessions@[i] == listed[i]);
                    }
                }
            }
        }
        proof {
            done = done + 1;
        }
    }
    assert(all.take(all.len() as int) =~= all);
    let ghost unsorted = sessions@;
    let r = sort_newest_first(sessions);
    assert(stably_sorted(timed(unsorted), timed(r@)));
    r
}

} // verus!
