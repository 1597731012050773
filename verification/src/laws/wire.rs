//! What is said to the agent, what is kept of a session, and how both are read.

use vstd::prelude::*;

use crate::agent::{message_line, on_one_line, submission, MessageFormat};
use crate::appserver::{
    after_value, announced_thread, initialize, initialized, thread_start, turn_start, value_steps,
    AppServerView, StepView, INIT_ID, THREAD_START_ID,
};
use crate::client::{Answered, Asked};
use crate::event::{line_event, EventView};
use crate::journal::{
    age, directories, listed_each, listed_for, raw_lines, record_entries, record_in, record_raw,
    replayed, replayed_lines, session_name, Found, RecordView, SessionSummary,
};
use crate::json::{entry_at, field, written_json, JsonView};
use crate::laws::decode::{says, silent};
use crate::path::under;
use crate::protocol::{Direction, LogLevel};
use crate::text::{
    decimal, lemma_decimal_injective, lemma_decimal_value, lemma_first_part_unique,
    lemma_padded_value, padded, trimmed, value,
};

verus! {

// --- The two-way protocol ----------------------------------------------------

/// Whether a message calls this method under this id.
pub open spec fn calls(message: JsonView, method: Seq<char>, id: u64) -> bool {
    says(message, "method"@, method) && field(message, "id"@) == Some(JsonView::Unsigned(id))
}

proof fn lemma_message_keys()
    ensures
        "id"@ != "method"@,
        "id"@ != "params"@,
        "method"@ != "params"@,
        "input"@ != "threadId"@,
        "text"@ != "type"@,
        "approvalPolicy"@ != "cwd"@,
        "approvalPolicy"@ != "sandbox"@,
        "cwd"@ != "sandbox"@,
        "id"@ != "op"@,
        "items"@ != "type"@,
        "name"@ != "version"@,
{
    reveal_strlit("id");
    reveal_strlit("method");
    reveal_strlit("params");
    reveal_strlit("input");
    reveal_strlit("threadId");
    reveal_strlit("text");
    reveal_strlit("type");
    reveal_strlit("approvalPolicy");
    reveal_strlit("cwd");
    reveal_strlit("sandbox");
    reveal_strlit("op");
    reveal_strlit("items");
    reveal_strlit("name");
    reveal_strlit("version");
    assert("id"@.len() == 2 && "method"@.len() == 6 && "params"@.len() == 6);
    assert("method"@[0] == 'm' && "params"@[0] == 'p');
    assert("input"@.len() == 5 && "threadId"@.len() == 8);
    assert("text"@[1] == 'e' && "type"@[1] == 'y');
    assert("approvalPolicy"@.len() == 14 && "cwd"@.len() == 3 && "sandbox"@.len() == 7);
    assert("id"@[0] == 'i' && "op"@[0] == 'o');
    assert("items"@.len() == 5 && "type"@.len() == 4);
    assert("name"@.len() == 4 && "version"@.len() == 7);
}

/// A turn is asked for in its thread, under its id, with the operator's text as its
/// one input.
pub proof fn law_a_turn_carries_its_text(id: u64, thread_id: Seq<char>, text: Seq<char>)
    ensures
        calls(turn_start(id, thread_id, text), "turn/start"@, id),
        field(turn_start(id, thread_id, text), "params"@) matches Some(params) && says(
            params,
            "threadId"@,
            thread_id,
        ) && (field(params, "input"@) matches Some(JsonView::List(items)) && items.len() == 1
            && says(items[0], "text"@, text) && says(items[0], "type"@, "text"@)),
{
    lemma_message_keys();
    reveal_with_fuel(entry_at, 4);
    let message = turn_start(id, thread_id, text)->Table_0;
    assert(message.skip(1)[0] == message[1]);
    assert(message.skip(1).skip(1)[0] == message[2]);
    let params = message[2].1->Table_0;
    assert(params.skip(1)[0] == params[1]);
    let item = params[0].1->List_0[0]->Table_0;
    assert(item.skip(1)[0] == item[1]);
}

/// A thread is asked for in the working directory, under the sandbox that was set,
/// with nothing to be approved.
pub proof fn law_a_thread_is_asked_for(cwd: Seq<char>, sandbox: Seq<char>)
    ensures
        calls(thread_start(cwd, sandbox), "thread/start"@, THREAD_START_ID),
        field(thread_start(cwd, sandbox), "params"@) matches Some(params) && says(
            params,
            "cwd"@,
            cwd,
        ) && says(params, "sandbox"@, sandbox) && says(params, "approvalPolicy"@, "never"@),
        says(initialized(), "method"@, "initialized"@),
        field(initialized(), "id"@) is None,
        calls(initialize(cwd), "initialize"@, INIT_ID),
        INIT_ID != THREAD_START_ID,
        AppServerView::fresh(cwd).next_turn_id > THREAD_START_ID,
        AppServerView::fresh(cwd).next_turn_id > INIT_ID,
        AppServerView::fresh(cwd).cwd == cwd,
        AppServerView::fresh(cwd).sandbox == "danger-full-access"@,
        AppServerView::fresh(cwd).thread_id is None && !AppServerView::fresh(cwd).ready
            && AppServerView::fresh(cwd).pending.len() == 0,
{
    lemma_message_keys();
    reveal_with_fuel(entry_at, 4);
    let message = thread_start(cwd, sandbox)->Table_0;
    assert(message.skip(1)[0] == message[1]);
    assert(message.skip(1).skip(1)[0] == message[2]);
    let params = message[2].1->Table_0;
    assert(params.skip(1)[0] == params[1]);
    assert(params.skip(1).skip(1)[0] == params[2]);
    let first = initialize(cwd)->Table_0;
    assert(first.skip(1)[0] == first[1]);
    assert(first.skip(1).skip(1)[0] == first[2]);
}

/// The answer to the first request is met with the end of the handshake and the request
/// for a thread, in that order, and with nothing else.
pub proof fn law_the_handshake_goes_on(server: AppServerView, value: JsonView, decoded: EventView)
    requires
        silent(value, "method"@),
        field(value, "id"@) == Some(JsonView::Unsigned(INIT_ID)),
    ensures
        value_steps(server, value, decoded).len() == 2,
        value_steps(server, value, decoded)[0] == StepView::Write(written_json(initialized())),
        value_steps(server, value, decoded)[1] == StepView::Write(
            written_json(thread_start(server.cwd, server.sandbox)),
        ),
        after_value(server, value) == server,
{
}

/// Once the thread is known, every message that waited is sent to it as a turn of its
/// own, in the order given and under ids that follow one another. Nothing waits after
/// that, and later turns have later ids.
pub proof fn law_what_waited_is_sent_in_order(server: AppServerView, thread_id: Seq<char>, i: int)
    requires
        !server.ready,
        0 <= i < server.pending.len(),
    ensures
        server.ready_steps(thread_id).len() == server.pending.len() + 1,
        server.ready_steps(thread_id)[0] is Log,
        server.ready_steps(thread_id)[i + 1] == StepView::Write(
            written_json(
                turn_start((server.next_turn_id + i) as u64, thread_id, server.pending[i]),
            ),
        ),
        server.ready_with(thread_id).pending.len() == 0,
        server.ready_with(thread_id).ready,
        server.ready_with(thread_id).thread_id == Some(thread_id),
        server.ready_with(thread_id).next_turn_id == server.next_turn_id + server.pending.len(),
        server.ready_with(thread_id).cwd == server.cwd,
        server.ready_with(thread_id).sandbox == server.sandbox,
{
}

/// A message that is given is sent as a turn where the thread is known, and the next
/// turn gets another id. Where it is not, the message waits behind the others and
/// nothing is sent.
pub proof fn law_a_message_is_sent_or_waits(server: AppServerView, text: Seq<char>)
    ensures
        server.thread_id matches Some(thread_id) ==> {
            &&& server.sent_steps(text) == seq![
                StepView::Write(
                    written_json(turn_start(server.next_turn_id as u64, thread_id, text)),
                ),
            ]
            &&& server.sent(text).next_turn_id == server.next_turn_id + 1
            &&& server.sent(text).pending == server.pending
        },
        server.thread_id is None ==> {
            &&& forall|i: int|
                0 <= i < server.sent_steps(text).len() ==> (#[trigger] server.sent_steps(text)[i])
                    !is Write
            &&& server.sent(text).pending.len() == server.pending.len() + 1
            &&& server.sent(text).pending.last() == text
            &&& server.sent(text).pending.drop_last() == server.pending
            &&& server.sent(text).next_turn_id == server.next_turn_id
        },
        server.sent(text).thread_id == server.thread_id,
{
    assert(server.pending.push(text).drop_last() =~= server.pending);
}

/// The thread is made known by the answer to the request for it, and by the
/// announcement that it started. No other message makes one known.
pub proof fn law_which_messages_name_the_thread(
    value: JsonView,
    outer: JsonView,
    thread: JsonView,
    id: Seq<char>,
)
    ensures
        silent(value, "method"@) && field(value, "id"@) == Some(JsonView::Unsigned(THREAD_START_ID))
            && field(value, "result"@) == Some(outer) && field(outer, "thread"@) == Some(thread)
            && says(thread, "id"@, id) ==> announced_thread(value) == Some(id),
        says(value, "method"@, "thread/started"@) && field(value, "id"@) is None && field(
            value,
            "params"@,
        ) == Some(outer) && field(outer, "thread"@) == Some(thread) && says(thread, "id"@, id)
            ==> announced_thread(value) == Some(id),
        silent(value, "method"@) && field(value, "id"@) is None ==> announced_thread(value) is None,
        silent(value, "method"@) && field(value, "id"@) == Some(JsonView::Unsigned(INIT_ID))
            ==> announced_thread(value) is None,
{
}

/// What the agent announces is shown as what it decodes to, last, unless it decodes to
/// nothing known. A request of the agent is refused with a warning and nothing is
/// sent; an answer to a turn leads to nothing.
pub proof fn law_what_the_agent_says_is_shown(
    server: AppServerView,
    value: JsonView,
    method: Seq<char>,
    decoded: EventView,
    n: u64,
)
    ensures
        says(value, "method"@, method) && field(value, "id"@) is None && decoded !is Unknown ==> {
            let steps = value_steps(server, value, decoded);
            steps.len() > 0 && steps.last() == StepView::Event(decoded)
        },
        says(value, "method"@, method) && field(value, "id"@) is None && announced_thread(value)
            is None && decoded is Unknown ==> value_steps(server, value, decoded).len() == 0,
        says(value, "method"@, method) && field(value, "id"@) == Some(JsonView::Unsigned(n)) && n
            <= i64::MAX ==> {
            let steps = value_steps(server, value, decoded);
            steps.len() == 1 && steps[0] == StepView::Log(
                LogLevel::Warn,
                "unhandled server request: "@ + method,
            )
        },
        silent(value, "method"@) && field(value, "id"@) == Some(JsonView::Unsigned(n)) && n
            > THREAD_START_ID && n <= i64::MAX ==> value_steps(server, value, decoded).len() == 0
            && after_value(server, value) == server,
{
}

// --- Messages on one line ----------------------------------------------------

/// A submission carries its id and the operator's text as one input of the user.
pub proof fn law_a_submission_carries_its_text(id: Seq<char>, text: Seq<char>)
    ensures
        says(submission(id, text), "id"@, id),
        field(submission(id, text), "op"@) matches Some(op) && says(op, "type"@, "user_input"@) && (
        field(op, "items"@) matches Some(JsonView::List(items)) && items.len() == 1 && says(
            items[0],
            "text"@,
            text,
        ) && says(items[0], "type"@, "text"@)),
{
    lemma_message_keys();
    reveal_with_fuel(entry_at, 4);
    let message = submission(id, text)->Table_0;
    assert(message.skip(1)[0] == message[1]);
    let op = message[1].1->Table_0;
    assert(op.skip(1)[0] == op[1]);
    let item = op[0].1->List_0[0]->Table_0;
    assert(item.skip(1)[0] == item[1]);
}

/// A plain line carries the text character by character, with spaces for its newlines.
pub proof fn law_a_plain_line_carries_its_text(id: Seq<char>, text: Seq<char>, i: int)
    requires
        0 <= i < text.len(),
    ensures
        on_one_line(text).len() == text.len(),
        text[i] != '\n' ==> on_one_line(text)[i] == text[i],
        text[i] == '\n' ==> on_one_line(text)[i] == ' ',
        message_line(MessageFormat::PlainLine, id, text) == on_one_line(text).push('\n'),
        message_line(MessageFormat::CodexSubmission, id, text) == written_json(
            submission(id, text),
        ).push('\n'),
{
}

/// An answer is taken only where it is of the kind that was asked for.
pub proof fn law_answers_match_their_questions(asked: Asked, answer: Answered)
    ensures
        asked is Health ==> asked.takes(answer) == (answer is Health),
        asked is CreateSession ==> asked.takes(answer) == (answer is SessionCreated),
        asked is SendMessage || asked is StopSession ==> asked.takes(answer) == (answer is Accepted),
        asked is Updates ==> asked.takes(answer) == (answer is Updates),
        asked is ListStoredSessions ==> asked.takes(answer) == (answer is StoredSessions),
        asked is StoredSession ==> asked.takes(answer) == (answer is StoredSession),
        asked is Transcript ==> asked.takes(answer) == (answer is Transcript),
{
}

// --- Journals ----------------------------------------------------------------

/// A table is a record exactly where it names its source, a time and what came from
/// that source.
pub proof fn law_what_a_record_is(value: JsonView, at_ms: u64, text: Seq<char>)
    requires
        value is Table,
        field(value, "at_ms"@) == Some(JsonView::Unsigned(at_ms)),
    ensures
        says(value, "source"@, "agent"@) && says(value, "raw"@, text) ==> record_in(value) == Some(
            RecordView::Agent { at_ms, raw: text },
        ),
        says(value, "source"@, "user"@) && says(value, "text"@, text) ==> record_in(value) == Some(
            RecordView::User { at_ms, text },
        ),
        says(value, "source"@, "agent"@) && silent(value, "raw"@) ==> record_in(value) is None,
        says(value, "source"@, "user"@) && silent(value, "text"@) ==> record_in(value) is None,
        silent(value, "source"@) ==> record_in(value) is None,
        forall|source: Seq<char>| #[trigger]
            says(value, "source"@, source) && source != "agent"@ && source != "user"@ ==> record_in(
                value,
            ) is None,
{
    reveal_strlit("agent");
    reveal_strlit("user");
    assert("agent"@.len() != "user"@.len());
}

/// A value without a time is no record, and neither is one that is neither a table nor
/// a list of three.
pub proof fn law_what_is_no_record(value: JsonView, items: Seq<JsonView>)
    ensures
        value is Table && !(field(value, "at_ms"@) matches Some(JsonView::Unsigned(_))) ==> record_in(
            value,
        ) is None,
        value !is Table && value !is List ==> record_in(value) is None,
        items.len() != 3 ==> record_in(JsonView::List(items)) is None,
        items.len() == 3 && items[1] !is Unsigned ==> record_in(JsonView::List(items)) is None,
{
}

/// A record is written as its source, its time and what came, in that order.
pub proof fn law_how_a_record_is_written(at_ms: u64, text: Seq<char>)
    ensures
        ({
            let agent = record_entries(RecordView::Agent { at_ms, raw: text });
            let user = record_entries(RecordView::User { at_ms, text });
            &&& agent.len() == 3 && user.len() == 3
            &&& agent[0] == ("source"@, JsonView::Text("agent"@))
            &&& user[0] == ("source"@, JsonView::Text("user"@))
            &&& agent[1] == ("at_ms"@, JsonView::Unsigned(at_ms)) && user[1] == agent[1]
            &&& agent[2] == ("raw"@, JsonView::Text(text))
            &&& user[2] == ("text"@, JsonView::Text(text))
        }),
{
}

/// An agent's line replays to what decoding it gives, and stands on the wire as it
/// came. A message replays to itself, and stands on the wire as sent. What is no
/// record replays to the reason why.
pub proof fn law_what_a_record_replays_to(at_ms: u64, text: Seq<char>)
    ensures
        replayed(Ok(RecordView::Agent { at_ms, raw: text })) == line_event(text),
        replayed(Ok(RecordView::User { at_ms, text })) == (EventView::UserMessage { text }),
        replayed(Err(text)) == (EventView::Malformed {
            error: "unreadable journal record: "@ + text,
        }),
        record_raw(RecordView::Agent { at_ms, raw: text }).text == text,
        record_raw(RecordView::Agent { at_ms, raw: text }).direction == Direction::FromAgent,
        record_raw(RecordView::Agent { at_ms, raw: text }).at_ms == at_ms,
        record_raw(RecordView::User { at_ms, text }).text == text,
        record_raw(RecordView::User { at_ms, text }).direction == Direction::ToAgent,
        record_raw(RecordView::User { at_ms, text }).at_ms == at_ms,
{
}

/// A journal replays line by line: two parts replay one after the other. A blank line
/// replays to nothing, and any other to one event.
pub proof fn law_journals_replay_line_by_line(a: Seq<Seq<char>>, b: Seq<Seq<char>>, line: Seq<char>)
    ensures
        replayed_lines(a + b) == replayed_lines(a) + replayed_lines(b),
        raw_lines(a + b) == raw_lines(a) + raw_lines(b),
        trimmed(line).len() == 0 ==> replayed_lines(seq![line]).len() == 0 && raw_lines(
            seq![line],
        ).len() == 0,
        trimmed(line).len() > 0 ==> replayed_lines(seq![line]).len() == 1,
        raw_lines(seq![line]).len() <= 1,
    decreases b.len(),
{
    reveal_with_fuel(replayed_lines, 2);
    reveal_with_fuel(raw_lines, 2);
    assert(seq![line].drop_last() =~= Seq::<Seq<char>>::empty());
    if b.len() == 0 {
        assert(a + b =~= a);
        assert(replayed_lines(a) + replayed_lines(b) =~= replayed_lines(a));
        assert(raw_lines(a) + raw_lines(b) =~= raw_lines(a));
    } else {
        law_journals_replay_line_by_line(a, b.drop_last(), line);
        assert((a + b).drop_last() =~= a + b.drop_last());
        assert(replayed_lines(a + b) =~= replayed_lines(a) + replayed_lines(b));
        assert(raw_lines(a + b) =~= raw_lines(a) + raw_lines(b));
    }
}

/// Sessions that differ in their time, their process or their count have different
/// ids.
pub proof fn law_session_ids_differ(
    now: nat,
    process: nat,
    sequence: nat,
    later: nat,
    other: nat,
    count: nat,
)
    requires
        now != later || process != other || sequence != count,
    ensures
        session_name(now, process, sequence) != session_name(later, other, count),
{
    let a = session_name(now, process, sequence);
    let b = session_name(later, other, count);
    if a == b {
        lemma_padded_value(now, 13);
        lemma_padded_value(later, 13);
        let x = decimal(process).push('-') + decimal(sequence);
        let y = decimal(other).push('-') + decimal(count);
        lemma_first_part_unique(padded(now, 13), padded(later, 13), x, y, '-');
        lemma_decimal_value(process);
        lemma_decimal_value(other);
        lemma_first_part_unique(
            decimal(process),
            decimal(other),
            decimal(sequence),
            decimal(count),
            '-',
        );
        lemma_decimal_injective(process, other);
        lemma_decimal_injective(sequence, count);
    }
}

/// A session is told to be as old as it is: just now within a minute, then in whole
/// minutes, from an hour on in whole hours, and from a day on in whole days.
pub proof fn law_an_age_is_rounded_down(created: u64, n: u64, rest: u64)
    ensures
        rest < 60_000 && created + rest <= u64::MAX ==> age(
            (created + rest) as u64,
            Some(created),
        ) == "just now"@,
        0 < n < 60 && rest < 60_000 && created + n * 60_000 + rest <= u64::MAX ==> age(
            (created + n * 60_000 + rest) as u64,
            Some(created),
        ) == decimal(n as nat) + "m ago"@,
        0 < n < 24 && rest < 3_600_000 && created + n * 3_600_000 + rest <= u64::MAX ==> age(
            (created + n * 3_600_000 + rest) as u64,
            Some(created),
        ) == decimal(n as nat) + "h ago"@,
        0 < n && rest < 86_400_000 && created + n * 86_400_000 + rest <= u64::MAX ==> age(
            (created + n * 86_400_000 + rest) as u64,
            Some(created),
        ) == decimal(n as nat) + "d ago"@,
        n <= created ==> age(n, Some(created)) == "just now"@,
        age(n, None) == "unknown"@,
{
    if 0 < n < 60 && rest < 60_000 && created + n * 60_000 + rest <= u64::MAX {
        let seconds = (n * 60_000 + rest) / 1000;
        assert(60 <= seconds < 3600);
        assert(seconds / 60 == n as int);
    }
    if 0 < n < 24 && rest < 3_600_000 && created + n * 3_600_000 + rest <= u64::MAX {
        let seconds = (n * 3_600_000 + rest) / 1000;
        assert(3600 <= seconds < 86400);
        assert(seconds / 3600 == n as int);
    }
    if 0 < n && rest < 86_400_000 && created + n * 86_400_000 + rest <= u64::MAX {
        let seconds = (n * 86_400_000 + rest) / 1000;
        assert(86400 <= seconds);
        assert(seconds / 86400 == n as int);
    }
}

/// Every directory of a store has a session in the list, under its own name and at its
/// own path, with the agent that is recorded beside it.
pub proof fn law_every_stored_session_is_listed(
    directory: Seq<char>,
    entries: Seq<Found>,
    now: u64,
    sessions: Seq<SessionSummary>,
    k: int,
)
    requires
        listed_each(directory, directories(entries), now, sessions),
        0 <= k < entries.len(),
        entries[k].is_directory,
    ensures
        exists|i: int|
            0 <= i < sessions.len() && (#[trigger] sessions[i]).id == entries[k].name
                && sessions[i].path@ == under(directory, entries[k].name@) && sessions[i].profile
                == entries[k].profile,
        forall|i: int|
            0 <= i < directories(entries).len() ==> (#[trigger] directories(
                entries,
            )[i]).is_directory,
{
    let pick = |found: Found| found.is_directory;
    entries.lemma_filter_contains(pick, k);
    let kept = directories(entries);
    let i = choose|i: int| 0 <= i < kept.len() && kept[i] == entries[k];
    assert(listed_for(directory, kept[i], now, sessions[i]));
    assert forall|i: int| 0 <= i < kept.len() implies (#[trigger] kept[i]).is_directory by {
        entries.lemma_filter_pred(pick, i);
    }
}

/// A message that makes the thread known has everything sent that waited for it, before
/// anything else that it leads to; and the thread is known from then on.
pub proof fn law_a_known_thread_gets_what_waited(
    server: AppServerView,
    value: JsonView,
    thread_id: Seq<char>,
    decoded: EventView,
    i: int,
)
    requires
        announced_thread(value) == Some(thread_id),
        !server.ready,
        0 <= i < server.pending.len(),
    ensures
        value_steps(server, value, decoded).len() > server.pending.len(),
        value_steps(server, value, decoded)[i + 1] == StepView::Write(
            written_json(
                turn_start((server.next_turn_id + i) as u64, thread_id, server.pending[i]),
            ),
        ),
        after_value(server, value).thread_id == Some(thread_id),
        after_value(server, value).pending.len() == 0,
{
    law_what_waited_is_sent_in_order(server, thread_id, i);
}

/// A list of three is a record in the order of its source, its time and what came.
pub proof fn law_a_record_may_be_a_list(source: Seq<char>, at_ms: u64, came: Seq<char>)
    ensures
        ({
            let listed = JsonView::List(
                seq![JsonView::Text(source), JsonView::Unsigned(at_ms), JsonView::Text(came)],
            );
            &&& source == "agent"@ ==> record_in(listed) == Some(
                RecordView::Agent { at_ms, raw: came },
            )
            &&& source == "user"@ ==> record_in(listed) == Some(
                RecordView::User { at_ms, text: came },
            )
            &&& source != "agent"@ && source != "user"@ ==> record_in(listed) is None
        }),
{
    reveal_strlit("agent");
    reveal_strlit("user");
    assert("agent"@.len() != "user"@.len());
}

} // verus!
