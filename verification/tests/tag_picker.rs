use styra::tag_picker::TagPicker;

#[test]
fn adding_a_tag_selects_it_and_makes_it_available() {
    let mut picker = TagPicker::new(vec!["bug".into()], vec![]);
    picker.new_tag = Some("urgent".into());
    picker.add_new();
    assert_eq!(picker.available, ["bug", "urgent"]);
    assert_eq!(picker.selected, ["urgent"]);
}

#[test]
fn the_cursor_comes_round_and_a_toggle_returns() {
    let mut picker = TagPicker::new(
        vec!["b".into(), "a".into(), "b".into()],
        vec!["c".into()],
    );
    assert_eq!(picker.available, ["a", "b", "c"]);
    picker.previous();
    assert_eq!(picker.cursor, 2);
    picker.next();
    assert_eq!(picker.cursor, 0);
    picker.toggle();
    assert_eq!(picker.selected, ["a", "c"]);
    picker.toggle();
    assert_eq!(picker.selected, ["c"]);
}

#[test]
fn a_step_is_undone_and_the_rows_come_round() {
    let mut picker = TagPicker::new(vec!["a".into(), "b".into(), "c".into()], vec![]);
    for start in 0..3 {
        picker.cursor = start;
        picker.next();
        picker.previous();
        assert_eq!(picker.cursor, start);
        picker.previous();
        picker.next();
        assert_eq!(picker.cursor, start);
        let mut seen = vec![];
        for _ in 0..3 {
            picker.next();
            seen.push(picker.cursor);
        }
        assert_eq!(picker.cursor, start);
        seen.sort();
        assert_eq!(seen, [0, 1, 2]);
    }
}

#[test]
fn a_picker_of_no_tag_never_moves() {
    let mut picker = TagPicker::new(vec![], vec![]);
    picker.cursor = usize::MAX;
    picker.next();
    assert_eq!(picker.cursor, usize::MAX);
    picker.previous();
    assert_eq!(picker.cursor, usize::MAX);
}
