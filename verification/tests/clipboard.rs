use styra::clipboard::{copy_via_terminal, osc52, utilities, Multiplexer, OSC52_LIMIT};

#[test]
fn encodes_the_text_as_an_osc_52_clipboard_sequence() {
    assert_eq!(
        osc52("hello", Multiplexer::Plain),
        "\x1b]52;c;aGVsbG8=\x1b\\"
    );
}

#[test]
fn wraps_the_sequence_in_a_passthrough_under_a_multiplexer() {
    assert_eq!(
        osc52("hello", Multiplexer::Tmux),
        "\x1bPtmux;\x1b\x1b]52;c;aGVsbG8=\x1b\x1b\\\x1b\\"
    );
    assert_eq!(
        osc52("hello", Multiplexer::Screen),
        "\x1bP\x1b]52;c;aGVsbG8=\x07\x1b\\"
    );
}

#[test]
fn refuses_to_pretend_a_large_copy_went_through_the_terminal() {
    let error = copy_via_terminal(&"x".repeat(OSC52_LIMIT + 1), Multiplexer::Plain).unwrap_err();
    assert!(error.contains("too much"));
    assert!(copy_via_terminal(&"x".repeat(OSC52_LIMIT), Multiplexer::Plain).is_ok());
}

#[test]
fn a_multiplexer_is_told_by_its_variable() {
    assert_eq!(Multiplexer::detect(true, true), Multiplexer::Tmux);
    assert_eq!(Multiplexer::detect(false, true), Multiplexer::Screen);
    assert_eq!(Multiplexer::detect(false, false), Multiplexer::Plain);
}

#[test]
fn only_utilities_that_a_display_can_reach_are_tried() {
    assert!(utilities(false, false, false).is_empty());
    assert_eq!(utilities(true, true, false).len(), 3);
    assert_eq!(utilities(false, false, true).len(), 1);
}
