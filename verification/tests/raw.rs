use styra::protocol::{Direction, RawLine};
use styra::raw::RawView;

fn line(text: &str) -> RawLine {
    RawLine {
        at_ms: 0,
        direction: Direction::FromAgent,
        text: text.into(),
    }
}

#[test]
fn the_selection_tracks_the_tail_until_the_operator_moves_it() {
    let mut raw = RawView::default();
    for i in 0..5 {
        raw.push(line(&format!("line {i}")));
    }
    assert_eq!(raw.selected_index(), 4, "starts pinned to the tail");
    assert!(raw.is_following());

    raw.select_prev();
    assert_eq!(raw.selected_index(), 3);
    assert!(!raw.is_following());

    raw.push(line("new"));
    assert_eq!(raw.selected_index(), 3);

    raw.select_last();
    assert_eq!(raw.selected_index(), 5);
    assert!(raw.is_following());
    raw.select_first();
    assert_eq!(raw.selected_index(), 0);
    assert!(!raw.is_following());
}

#[test]
fn reaching_the_tail_again_resumes_following() {
    let mut raw = RawView::default();
    raw.push(line("one"));
    raw.push(line("two"));
    raw.select_prev();
    assert!(!raw.is_following());

    raw.select_next();

    assert_eq!(raw.selected_index(), 1);
    assert!(raw.is_following());
}

#[test]
fn entering_on_a_line_pins_the_view_and_entering_on_nothing_follows() {
    let mut raw = RawView::default();
    for i in 0..3 {
        raw.push(line(&format!("line {i}")));
    }

    raw.enter(Some(1));
    assert_eq!(raw.selected_index(), 1);
    assert!(!raw.is_following());

    raw.enter(None);
    assert_eq!(raw.selected_index(), 2);
    assert!(raw.is_following());
}

#[test]
fn entering_on_a_line_that_is_no_longer_there_lands_on_the_last_one() {
    let mut raw = RawView::default();
    raw.push(line("only"));

    raw.enter(Some(7));

    assert_eq!(raw.selected_index(), 0);
}

#[test]
fn entering_an_empty_view_selects_nothing_and_follows() {
    let mut raw = RawView::default();

    raw.enter(Some(3));

    assert_eq!(raw.selected_index(), 0);
    assert!(raw.is_following());
    assert!(raw.selected().is_none());
}

#[test]
fn navigating_an_empty_view_does_nothing() {
    let mut raw = RawView::default();

    raw.select_first();
    raw.select_last();
    raw.select_prev();

    assert_eq!(raw.selected_index(), 0);
    assert!(raw.is_empty());
}

#[test]
fn a_longer_history_is_taken_over_from_its_newest_line() {
    let line = |text: &str| RawLine {
        at_ms: 1,
        direction: Direction::FromAgent,
        text: text.into(),
    };
    let mut raw = RawView::default();
    raw.push(line("a"));
    raw.push(line("b"));
    raw.select_first();
    raw.take_history(vec![line("x"), line("y")]);
    assert_eq!(raw.lines[0].text, "a");
    assert_eq!(raw.selected, 0);
    raw.take_history(vec![line("x"), line("y"), line("z")]);
    assert_eq!(raw.lines[0].text, "x");
    assert_eq!(raw.selected, 2);
    assert!(raw.follow);
}
