//! What moving through the screen's lists and panels does.

use vstd::prelude::*;

use crate::answer::{located, AnswerView};
use crate::composer::{without_last_word, ComposerView};
use crate::event::{first_filled, leading_line, trimmed_lines};
use crate::json::{pretty_json, value_view};
use crate::laws::show::law_the_first_line_that_says_something;
use crate::laws::text::{
    is_core, law_a_text_without_the_mark_is_whole, law_cutting_is_undone_by_joining,
    law_trimming_takes_white_space_alone, law_trimming_the_end_takes_white_space_alone,
};
use crate::preview::{Choices, Preview};
use crate::protocol::{AgentEvent, AnswerValue, FileLocation, RawLine};
use crate::raw::RawView;
use crate::references::References;
use crate::scroll::{Scroll, SCROLL_PAGE};
use crate::tail::Tail;
use crate::text::{decimal, is_space, split_at_each, trimmed, trimmed_end};
use crate::timeline::{holds_detail, lemma_stop_before, lemma_stop_from, says_more, Step, Timeline};

verus! {

// --- The event list ----------------------------------------------------------

/// What the list hides: the events of the session's lifecycle unless they are asked
/// for, and everything but the conversation where that alone is asked for.
pub proof fn law_what_the_list_shows(t: Timeline, event: AgentEvent)
    ensures
        t.show_minor && !t.conversation_only ==> t.shows(event),
        !t.show_minor && (event is ThreadStarted || event is TurnStarted || event is TurnCompleted
            || event is UsageUpdated || event is BackgroundTasks) ==> !t.shows(event),
        t.conversation_only && !(event is UserMessage || event is AgentMessage || event is Error
            || event is ModelChanged) ==> !t.shows(event),
        event is UserMessage || event is AgentMessage || event is Error || event is ModelChanged
            ==> t.shows(event),
        !t.conversation_only && (event is CommandStarted || event is CommandCompleted || event
            is ToolStarted || event is ToolCompleted || event is FileChanged || event is Thinking
            || event is PlanUpdated || event is TaskStarted || event is TaskProgress || event
            is TaskCompleted || event is Unknown || event is Malformed) ==> t.shows(event),
{
}

/// Which events hold more than the line that stands for them: texts of more than one
/// line, commands and calls with output, calls with arguments, edits with a diff, and
/// failures with a reason.
pub proof fn law_which_events_hold_detail(event: AgentEvent)
    ensures
        event matches AgentEvent::CommandCompleted { command, output, .. } ==> holds_detail(event)
            == (output@.len() > 0 || says_more(command@)),
        event matches AgentEvent::CommandStarted { command } ==> holds_detail(event) == says_more(
            command@,
        ),
        event matches AgentEvent::Thinking { text, .. } ==> holds_detail(event) == says_more(text@),
        event matches AgentEvent::PlanUpdated { text } ==> holds_detail(event) == says_more(text@),
        event matches AgentEvent::Unknown { raw, .. } ==> holds_detail(event) == (raw@.len() > 0),
        event matches AgentEvent::Malformed { raw, .. } ==> holds_detail(event) == (raw@.len() > 0),
        event matches AgentEvent::ToolCompleted { detail, output, .. } ==> holds_detail(event) == (
        detail@.len() > 0 || output@.len() > 0),
        event matches AgentEvent::ToolStarted { detail, .. } ==> holds_detail(event) == (
        detail@.len() > 0),
        event matches AgentEvent::FileChanged { diff, .. } ==> holds_detail(event) == (diff is Some),
        event matches AgentEvent::TaskCompleted { error, .. } ==> holds_detail(event) == (error
            is Some),
        event matches AgentEvent::AgentMessage { text } ==> holds_detail(event) == says_more(text@),
        event matches AgentEvent::UserMessage { text } ==> holds_detail(event) == says_more(text@),
        event matches AgentEvent::Error { message } ==> holds_detail(event) == says_more(message@),
        event is TurnStarted || event is TurnCompleted || event is UsageUpdated ==> !holds_detail(
            event,
        ),
{
}

/// Moving forward goes to the nearest stop behind the selection, wherever there is
/// one, and moving backward to the nearest before it. Nothing of the list changes.
pub proof fn law_moving_finds_the_next_stop(t: Timeline, step: Step, i: int)
    requires
        t.wf(),
        t.stops(step, i),
    ensures
        i > t.selected ==> t.selected < t.forward(step).selected <= i && t.stops(
            step,
            t.forward(step).selected as int,
        ),
        i < t.selected ==> i <= t.backward(step).selected < t.selected && t.stops(
            step,
            t.backward(step).selected as int,
        ),
        t.forward(step) == (Timeline {
            selected: t.forward(step).selected,
            follow: t.forward(step).follow,
            ..t
        }),
        t.backward(step) == (Timeline {
            selected: t.backward(step).selected,
            follow: t.backward(step).follow,
            ..t
        }),
{
    lemma_stop_from(t, step, t.selected + 1);
    if t.selected <= t.entries@.len() {
        lemma_stop_before(t, step, t.selected as int);
    }
}

/// The first and the last stop are the outermost entries that are shown. The list
/// follows from the last one, and from no other.
pub proof fn law_the_ends_of_the_list(t: Timeline, i: int)
    requires
        t.wf(),
        t.visible(i),
    ensures
        t.visible(t.first().selected as int),
        t.first().selected <= i <= t.last().selected,
        t.visible(t.last().selected as int),
        t.last().follow,
        t.first().selected != t.last().selected ==> !t.first().follow,
        i > t.selected && t.stops(Step::Line, i) ==> (t.forward(Step::Line).follow
            <==> t.forward(Step::Line).selected == t.last().selected),
{
    assert(t.stops(Step::Line, i));
    lemma_stop_from(t, Step::Line, 0);
    lemma_stop_before(t, Step::Line, t.entries@.len() as int);
    lemma_stop_from(t, Step::Line, t.first().selected + 1);
    lemma_stop_from(t, Step::Line, t.last().selected + 1);
    lemma_stop_from(t, Step::Line, t.selected + 1);
    lemma_stop_from(t, Step::Line, t.forward(Step::Line).selected + 1);
    assert(t.entries.len() == t.entries@.len());
}

/// A stop is an entry that is shown; for a move by detail it holds more than its line
/// or names files.
pub proof fn law_what_a_stop_is(t: Timeline, i: int)
    requires
        0 <= i < t.entries@.len(),
    ensures
        t.visible(i) == t.shows(t.entries@[i].event),
        t.stops(Step::Line, i) == t.shows(t.entries@[i].event),
        t.stops(Step::WithDetail, i) == (t.shows(t.entries@[i].event) && (holds_detail(
            t.entries@[i].event,
        ) || t.entries@[i].event is FileChanged)),
        !t.visible(-1),
        !t.visible(t.entries@.len() as int),
{
}

/// Changing what is shown leaves a selection that is still shown where it is, and
/// moves a hidden one to the nearest before it.
pub proof fn law_a_hidden_selection_moves_back(t: Timeline, i: int)
    requires
        t.wf(),
    ensures
        t.visible(t.selected as int) ==> t.settled() == t,
        !t.visible(t.selected as int) && 0 <= i < t.selected && t.visible(i) ==> i
            <= t.settled().selected < t.selected && t.visible(t.settled().selected as int),
        t.settled() == (Timeline { selected: t.settled().selected, ..t }),
{
    if t.selected <= t.entries@.len() {
        lemma_stop_before(t, Step::Line, t.selected as int);
        if t.visible(i) {
            assert(t.stops(Step::Line, i));
        }
    }
}

/// A hidden selection with nothing shown before it moves to the nearest behind it.
pub proof fn law_a_hidden_selection_may_move_on(t: Timeline, i: int)
    requires
        t.wf(),
        !t.visible(t.selected as int),
        forall|j: int| 0 <= j < t.selected ==> !(#[trigger] t.visible(j)),
        t.selected < i,
        t.visible(i),
    ensures
        t.selected < t.settled().selected <= i,
        t.visible(t.settled().selected as int),
        forall|j: int| t.selected < j < t.settled().selected ==> !(#[trigger] t.visible(j)),
{
    lemma_stop_before(t, Step::Line, t.selected as int);
    lemma_stop_from(t, Step::Line, t.selected as int);
    assert(t.stops(Step::Line, i));
    assert(!t.stops(Step::Line, t.selected as int));
    if let Some(at) = t.stop_before(Step::Line, t.selected as int) {
        assert(!t.visible(at as int));
    }
    assert forall|j: int| t.selected < j < t.settled().selected implies !(#[trigger] t.visible(
        j,
    )) by {
        assert(!t.stops(Step::Line, j));
    }
}

/// Moving back stops following, where anything is shown behind.
pub proof fn law_moving_back_stops_following(t: Timeline, step: Step, i: int)
    requires
        t.wf(),
        t.stops(step, i),
        i < t.selected,
    ensures
        t.visible(t.selected as int) ==> !t.backward(step).follow,
{
    lemma_stop_before(t, step, t.selected as int);
    let at = t.backward(step).selected as int;
    lemma_stop_from(t, Step::Line, at + 1);
    if t.visible(t.selected as int) {
        assert(t.stops(Step::Line, t.selected as int));
    }
}

/// A text says more than its first line where anything is left of another line, and a
/// text of one line does not.
pub proof fn law_which_texts_say_more(text: Seq<char>)
    ensures
        !text.contains('\n') ==> !says_more(text),
        trimmed(text).contains('\n') ==> says_more(text),
{
    let lines = split_at_each(text, '\n');
    if !text.contains('\n') {
        law_a_text_without_the_mark_is_whole(text, '\n');
        law_the_first_line_that_says_something(text, 0);
        if trimmed(text).len() == 0 {
            assert(leading_line(text) =~= trimmed(text));
        }
    }
    law_cutting_is_undone_by_joining(text, '\n');
    lemma_a_line_is_one_line(trimmed_lines(text));
    assert forall|i: int| 0 <= i < trimmed_lines(text).len() implies !(
    #[trigger] trimmed_lines(text)[i]).contains('\n') by {
        assert(!lines[i].contains('\n'));
        law_trimming_takes_white_space_alone(lines[i]);
        let (a, b) = choose|a: int, b: int| is_core(lines[i], a, b, trimmed(lines[i]));
        let core = trimmed(lines[i]);
        if core.contains('\n') {
            let k = choose|k: int| 0 <= k < core.len() && core[k] == '\n';
            assert(lines[i][a + k] == '\n');
        }
    }
    if trimmed(text).contains('\n') {
        assert(!leading_line(text).contains('\n'));
    }
}

proof fn lemma_a_line_is_one_line(list: Seq<Seq<char>>)
    ensures
        (forall|i: int| 0 <= i < list.len() ==> !(#[trigger] list[i]).contains('\n'))
            ==> !first_filled(list).contains('\n'),
    decreases list.len(),
{
    if list.len() > 0 && list[0].len() == 0 {
        let rest = list.skip(1);
        lemma_a_line_is_one_line(rest);
        if forall|i: int| 0 <= i < list.len() ==> !(#[trigger] list[i]).contains('\n') {
            assert forall|i: int| 0 <= i < rest.len() implies !(#[trigger] rest[i]).contains(
                '\n',
            ) by {
                assert(!list[i + 1].contains('\n'));
            }
        }
    }
}

/// The newest command is the last entry that is one, running or done.
pub proof fn law_the_newest_command(t: Timeline, n: int, i: int)
    requires
        0 <= n <= t.entries@.len(),
        0 <= i < n,
        t.entries@[i].event is CommandStarted || t.entries@[i].event is CommandCompleted,
    ensures
        t.command_before(n) matches Some(at) && i <= at < n && (t.entries@[at].event
            is CommandStarted || t.entries@[at].event is CommandCompleted),
    decreases n,
{
    if !t.is_command(n - 1) {
        law_the_newest_command(t, n - 1, i);
    }
}

// --- The message box ---------------------------------------------------------

/// Deleting a word takes the white space behind it and the word, and leaves everything
/// before the word as it was.
pub proof fn law_the_last_word_is_deleted(before: Seq<char>, word: Seq<char>, spaces: Seq<char>)
    requires
        before.len() > 0 ==> is_space(before.last()),
        word.len() > 0,
        forall|i: int| 0 <= i < word.len() ==> !is_space(#[trigger] word[i]),
        forall|i: int| 0 <= i < spaces.len() ==> is_space(#[trigger] spaces[i]),
    ensures
        without_last_word(before + word + spaces) == before,
{
    let s = before + word + spaces;
    law_trimming_the_end_takes_white_space_alone(s);
    let n = trimmed_end(s).len();
    let whole = (before + word).len();
    assert(s[whole - 1] == word[word.len() - 1]);
    if n > whole {
        assert(s[n - 1] == spaces[n - 1 - whole]);
        assert(trimmed_end(s).last() == s[n - 1]);
    }
    assert(n == whole);
    assert(trimmed_end(s) =~= before + word);
    lemma_back_to_space(before, word);
}

proof fn lemma_back_to_space(before: Seq<char>, word: Seq<char>)
    requires
        before.len() > 0 ==> is_space(before.last()),
        forall|i: int| 0 <= i < word.len() ==> !is_space(#[trigger] word[i]),
    ensures
        crate::composer::up_to_last_space(before + word) == before,
    decreases word.len(),
{
    if word.len() == 0 {
        assert(before + word =~= before);
    } else {
        let rest = word.drop_last();
        assert(!is_space(word[word.len() - 1]));
        assert forall|i: int| 0 <= i < rest.len() implies !is_space(#[trigger] rest[i]) by {
            assert(!is_space(word[i]));
        }
        lemma_back_to_space(before, rest);
        assert((before + word).drop_last() =~= before + rest);
        assert((before + word).last() == word.last());
    }
}

/// Walking back through the history shows the sent messages from the newest, and the
/// message that was being typed is set aside meanwhile.
pub proof fn law_walking_back_shows_what_was_sent(c: ComposerView, n: nat)
    requires
        c.cursor is None,
        0 < n <= c.history.len(),
    ensures
        c.back(n).text == c.history[c.history.len() - n],
        c.back(n).draft == c.text,
        c.back(n).history == c.history,
        c.back(n).cursor == Some((c.history.len() - n) as nat),
    decreases n,
{
    if n > 1 {
        law_walking_back_shows_what_was_sent(c, (n - 1) as nat);
    } else {
        assert(c.back(0) == c);
    }
}

/// Taking the message empties the box and remembers what was sent, without white space
/// around it, behind everything sent before. A blank box is emptied and nothing is
/// remembered.
pub proof fn law_a_sent_message_is_remembered(c: ComposerView)
    ensures
        c.taken().text.len() == 0,
        trimmed(c.text).len() > 0 ==> {
            &&& c.taken().history.len() == c.history.len() + 1
            &&& c.taken().history.last() == trimmed(c.text)
            &&& c.taken().history.drop_last() == c.history
            &&& c.taken().cursor is None
        },
        trimmed(c.text).len() == 0 ==> c.taken().history == c.history,
        forall|text: Seq<char>| #[trigger]
            c.edited(text).text == text && c.edited(text).history == c.history && c.edited(
                text,
            ).cursor is None,
{
    assert(c.history.push(trimmed(c.text)).drop_last() =~= c.history);
}

// --- The wire ----------------------------------------------------------------

/// The selection moves through the wire one line at a time and stops at both ends. It
/// follows exactly where it was moved to the last line, and no line is lost.
pub proof fn law_walking_the_wire(view: RawView)
    requires
        view.wf(),
        view.lines@.len() > 0,
        view.lines@.len() <= usize::MAX,
    ensures
        view.selected + 1 < view.lines@.len() ==> view.next().selected == view.selected + 1,
        view.selected + 1 == view.lines@.len() ==> view.next().selected == view.selected,
        view.next().follow == (view.next().selected + 1 == view.lines@.len()),
        view.selected > 0 ==> view.prev().selected == view.selected - 1,
        view.selected == 0 ==> view.prev().selected == 0,
        !view.prev().follow,
        view.first().selected == 0 && !view.first().follow,
        view.last().selected == view.lines@.len() - 1 && view.last().follow,
        view.next().lines == view.lines && view.prev().lines == view.lines && view.first().lines
            == view.lines && view.last().lines == view.lines,
        view.next().selected != view.selected ==> view.next().preview.shown() == 0,
        view.prev().selected != view.selected ==> view.prev().preview.shown() == 0,
{
}

/// The wire opens on the line that was asked for, or on the newest, and follows only
/// there.
pub proof fn law_the_wire_opens_on_a_line(view: RawView, line: Option<usize>)
    requires
        view.lines@.len() > 0,
        view.lines@.len() <= usize::MAX,
    ensures
        line is None ==> view.entered(line).selected == view.lines@.len() - 1 && view.entered(
            line,
        ).follow,
        line matches Some(i) ==> !view.entered(line).follow && (i < view.lines@.len()
            ==> view.entered(line).selected == i) && (i >= view.lines@.len() ==> view.entered(
            line,
        ).selected == view.lines@.len() - 1),
        view.entered(line).lines == view.lines,
        view.entered(line).preview.shown() == 0,
{
}

/// A new wire line is the last. The selection moves to it while it follows, and stays
/// on its line while it does not.
pub proof fn law_the_wire_grows_at_its_end(view: RawView, line: RawLine, after: RawView)
    requires
        view.grows(line, after),
        view.lines@.len() <= usize::MAX,
    ensures
        after.lines@.len() == view.lines@.len() + 1,
        after.lines@.last() == line,
        forall|i: int| 0 <= i < view.lines@.len() ==> #[trigger] after.lines@[i] == view.lines@[i],
        view.follow ==> after.selected == after.lines@.len() - 1,
        !view.follow ==> after.selected == view.selected && after.preview == view.preview,
        after.follow == view.follow,
{
}

// --- Lists that are read from their end --------------------------------------

/// Scrolling back and forth moves by one entry between the newest and the oldest, and
/// a step back and a step forth return.
pub proof fn law_scrolling_back_is_undone<T>(tail: Tail<T>)
    requires
        tail.wf(),
        tail.items@.len() <= usize::MAX,
    ensures
        tail.back + 1 < tail.items@.len() ==> tail.up().back == tail.back + 1 && tail.up().down()
            == tail,
        tail.back + 1 >= tail.items@.len() ==> tail.up().back == tail.back,
        tail.back > 0 ==> tail.down().back == tail.back - 1 && tail.down().up() == tail,
        tail.back == 0 ==> tail.down().back == 0,
        tail.items@.len() > 0 ==> tail.furthest() == tail.items@.len() - 1,
        tail.up().items == tail.items && tail.down().items == tail.items,
{
}

/// A panel scrolls by the lines asked for, as far as there is something to show, and
/// back to its top. What is shown never lies past the end.
pub proof fn law_a_panel_scrolls_by_lines(scroll: Scroll, lines: u16)
    ensures
        scroll.shown() <= scroll.limit,
        scroll.offset <= scroll.limit ==> scroll.shown() == scroll.offset,
        scroll.shown() + lines <= scroll.limit ==> scroll.down(lines).shown() == scroll.shown()
            + lines,
        scroll.shown() + lines > scroll.limit ==> scroll.down(lines).shown() == scroll.limit,
        scroll.shown() >= lines ==> scroll.up(lines).shown() == scroll.shown() - lines,
        scroll.shown() < lines ==> scroll.up(lines).shown() == 0,
        scroll.top().shown() == 0,
        scroll.top().limit == scroll.limit,
        scroll.down(lines).limit == scroll.limit && scroll.up(lines).limit == scroll.limit,
        SCROLL_PAGE > 1,
{
}

/// A panel takes over all of another screen's choices, and starts at its top.
pub proof fn law_a_panel_takes_over_choices(panel: Preview, choices: Choices)
    ensures
        panel.adopting(choices).open == choices.open,
        panel.adopting(choices).mode == choices.mode,
        panel.adopting(choices).target == choices.target,
        panel.adopting(choices).scroll.shown() == 0,
        panel.chosen().open == panel.open && panel.chosen().mode == panel.mode
            && panel.chosen().target == panel.target,
        panel.top().chosen() == panel.chosen(),
        panel.top().scroll.shown() == 0,
        !Preview::closed().open,
{
}

// --- The answer --------------------------------------------------------------

/// The rows of an answer are its lines or its files. The selection walks them one at a
/// time and stops at both ends; prose and JSON have no rows.
pub proof fn law_the_rows_of_an_answer(view: AnswerView)
    requires
        view.wf(),
        view.row_count() <= usize::MAX,
    ensures
        view.selected + 1 < view.row_count() ==> view.next().selected == view.selected + 1
            && view.next().prev() == view,
        view.selected + 1 >= view.row_count() ==> view.next().selected == view.selected,
        view.selected > 0 ==> view.prev().selected == view.selected - 1,
        view.selected == 0 ==> view.prev().selected == 0,
        view.row_count() > 0 ==> view.last_row() == view.row_count() - 1,
        view.answer is None ==> view.row_count() == 0 && view.file() is None
            && view.copied() is None,
        view.answer matches Some(answer) ==> match answer.value {
            Some(AnswerValue::Lines(lines)) => view.row_count() == lines@.len()
                && view.file() is None && (view.selected < lines@.len() ==> view.copied() == Some(
                lines@[view.selected as int]@,
            )),
            Some(AnswerValue::Files(files)) => view.row_count() == files@.len() && (view.selected
                < files@.len() ==> view.file() == Some(files@[view.selected as int])
                && view.copied() == Some(located(files@[view.selected as int]))),
            Some(AnswerValue::Text(text)) => view.row_count() == 0 && view.copied() == Some(text@),
            Some(AnswerValue::Json(json)) => view.row_count() == 0 && view.copied() == pretty_json(
                value_view(json),
            ),
            None => view.row_count() == 0 && view.copied() == Some(answer.source@),
        },
{
}

/// A location is written as its path, with the line behind a colon where it is known,
/// and the column behind another where that is known too.
pub proof fn law_a_location_names_its_line(location: FileLocation)
    ensures
        location.line is None ==> located(location) == location.path@,
        location.line matches Some(line) ==> (location.column is None ==> located(location)
            == location.path@.push(':') + decimal(line as nat)),
        location.line matches Some(line) ==> (location.column matches Some(column) ==> located(
            location,
        ) == (location.path@.push(':') + decimal(line as nat)).push(':') + decimal(column as nat)),
{
    reveal_strlit(":");
    if let Some(line) = location.line {
        if let Some(column) = location.column {
            assert(located(location) =~= (location.path@.push(':') + decimal(line as nat)).push(':')
                + decimal(column as nat));
        } else {
            assert(located(location) =~= location.path@.push(':') + decimal(line as nat));
        }
    }
}

/// The selection walks the cited files one at a time and stops at both ends.
pub proof fn law_walking_the_cited_files(list: References)
    requires
        list.wf(),
        list.references@.len() <= usize::MAX,
    ensures
        list.down().wf() && list.up().wf() && list.bottom().wf(),
        list.selected + 1 < list.references@.len() ==> list.down().selected == list.selected + 1
            && list.down().up() == list,
        list.selected + 1 == list.references@.len() ==> list.down() == list,
        list.selected > 0 ==> list.up().selected == list.selected - 1,
        list.selected == 0 ==> list.up() == list,
        list.bottom().selected == list.references@.len() - 1,
        list.down().references == list.references && list.up().references == list.references
            && list.bottom().references == list.references,
{
}

} // verus!
