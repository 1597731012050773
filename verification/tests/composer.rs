use styra::composer::Composer;

#[test]
fn typing_edits_the_buffer_and_sending_empties_it() {
    let mut composer = Composer::default();
    composer.char('h');
    composer.char('i');
    composer.newline();
    composer.char('!');
    composer.backspace();
    assert_eq!(composer.text, "hi\n");
    assert_eq!(composer.take(), Some("hi".into()));
    assert!(composer.text.is_empty());
    assert_eq!(composer.take(), None);
}

#[test]
fn delete_word_removes_the_trailing_word_readline_style() {
    let mut composer = Composer::default();
    composer.set("fix the flaky test".into());
    composer.delete_word();
    assert_eq!(composer.text, "fix the flaky ");
    composer.delete_word();
    assert_eq!(composer.text, "fix the ");
    composer.set("one".into());
    composer.delete_word();
    assert!(composer.text.is_empty());
    composer.delete_word();
    assert!(composer.text.is_empty());
}

#[test]
fn history_walks_back_and_returns_to_the_draft() {
    let mut composer = Composer::default();
    composer.set("first".into());
    composer.take();
    composer.set("second".into());
    composer.take();

    composer.set("draft".into());
    composer.history_previous();
    assert_eq!(composer.text, "second");
    composer.history_previous();
    assert_eq!(composer.text, "first");
    composer.history_previous();
    assert_eq!(composer.text, "first");

    composer.history_next();
    assert_eq!(composer.text, "second");
    composer.history_next();
    assert_eq!(composer.text, "draft");
    composer.history_next();
    assert_eq!(composer.text, "draft");
}

#[test]
fn typing_ends_a_history_walk() {
    let mut composer = Composer::default();
    composer.set("first".into());
    composer.take();

    composer.history_previous();
    assert_eq!(composer.text, "first");
    composer.char('!');
    composer.history_previous();
    assert_eq!(composer.text, "first");
    composer.history_next();
    assert_eq!(composer.text, "first!");
}
