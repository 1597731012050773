use styra::preview::{PresentationMode, Preview, PreviewTarget};

#[test]
fn changing_what_is_shown_returns_to_the_top() {
    let mut preview = Preview::default();
    preview.scroll.note_limit(100);
    preview.scroll.page_down();
    assert!(preview.scroll.offset > 0);

    preview.toggle_mode();
    assert_eq!(preview.scroll.offset, 0);

    preview.scroll.page_down();
    assert!(preview.scroll.offset > 0);

    preview.toggle_target();
    assert_eq!(preview.scroll.offset, 0);
}

#[test]
fn the_presentation_and_the_target_toggle_independently() {
    let mut preview = Preview::default();
    assert_eq!(preview.mode(), PresentationMode::Pretty);
    assert_eq!(preview.target(), PreviewTarget::Selection);

    preview.toggle_mode();

    assert_eq!(preview.mode(), PresentationMode::Raw);
    assert_eq!(
        preview.target(),
        PreviewTarget::Selection,
        "the target is a separate choice"
    );

    preview.toggle_target();
    preview.toggle_mode();

    assert_eq!(preview.mode(), PresentationMode::Pretty);
    assert!(preview.follows_command());
}

#[test]
fn opening_the_panel_leaves_the_presentation_choices_alone() {
    let mut preview = Preview::default();
    preview.toggle_mode();
    preview.toggle_target();

    preview.toggle();
    preview.toggle();

    assert!(!preview.open);
    assert_eq!(preview.mode(), PresentationMode::Raw);
    assert!(preview.follows_command());
}

#[test]
fn adopting_a_previous_screens_choices_starts_its_content_from_the_top() {
    let mut preview = Preview::default();
    preview.scroll.note_limit(100);
    preview.scroll.page_down();

    let mut chosen = Preview::default();
    chosen.show();
    chosen.toggle_mode();
    chosen.toggle_target();
    preview.adopt(chosen.choices());

    assert!(preview.open);
    assert_eq!(preview.mode(), PresentationMode::Raw);
    assert!(preview.follows_command());
    assert_eq!(preview.scroll.offset, 0, "a different screen's content");
}
