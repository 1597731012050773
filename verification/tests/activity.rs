use styra::activity::{Activity, Status};
use styra::protocol::InteractionActivity;

#[test]
fn a_reported_count_takes_over_from_the_tool_call_heuristic() {
    let mut activity = Activity::default();
    activity.note_background_started();
    assert_eq!(activity.idle_or_background(), Status::Background);

    activity.note_background_count(2);
    activity.note_background_finished();

    assert_eq!(
        activity.idle_or_background(),
        Status::Background,
        "one finished tool call does not clear a reported set of two"
    );
}

#[test]
fn a_reported_empty_set_clears_a_background_status_on_the_spot() {
    let mut activity = Activity::default();
    activity.note_background_started();
    activity.status = Status::Background;

    activity.note_background_count(0);

    assert_eq!(activity.status, Status::Idle);
    assert_eq!(activity.idle_or_background(), Status::Idle);
}

#[test]
fn a_cleared_count_leaves_a_running_turn_alone() {
    let mut activity = Activity::default();
    activity.status = Status::Running;

    activity.note_background_count(0);

    assert_eq!(activity.status, Status::Running);
}

#[test]
fn the_heuristic_still_applies_while_the_provider_stays_silent() {
    let mut activity = Activity::default();
    activity.note_background_started();
    activity.status = Status::Background;

    activity.note_background_finished();

    assert_eq!(activity.status, Status::Idle);
}

#[test]
fn a_server_summary_settles_a_status_a_preview_could_not_reconstruct() {
    let mut activity = Activity::default();

    activity.sync_to_interaction(InteractionActivity::Running, true);

    assert_eq!(activity.status, Status::Running);
    assert_eq!(
        activity.idle_or_background(),
        Status::Background,
        "foreground and background work coexist"
    );

    activity.sync_to_interaction(InteractionActivity::Pending, false);

    assert_eq!(activity.status, Status::Idle);
    assert_eq!(activity.idle_or_background(), Status::Idle);
}

#[test]
fn progress_counts_what_has_arrived_and_when_the_status_last_changed() {
    let mut activity = Activity::default();
    assert_eq!(activity.progress(10).events, 0);
    assert!(activity.progress(10).since_event.is_none());

    activity.note_event_received(20);
    activity.note_event_received(30);

    assert_eq!(activity.progress(45).events, 2);
    assert!(activity.progress(45).since_event.is_some());
    assert_eq!(activity.progress(45).since_event, Some(15));
}

#[test]
fn the_status_clock_restarts_only_on_a_real_change() {
    let mut activity = Activity::default();
    activity.status = Status::Idle;
    activity.note_progress(100);
    let first = activity.progress(150).in_status;

    activity.note_progress(160);

    assert!(
        activity.progress(170).in_status >= first,
        "same status, same clock"
    );
    assert_eq!(activity.progress(170).in_status, 70);

    activity.status = Status::Running;
    activity.note_progress(200);
    assert_eq!(activity.progress(205).in_status, 5);
}

#[test]
fn every_status_has_its_own_words_and_glyph() {
    let statuses = [
        (Status::Pending, "not started", '.'),
        (Status::Running, "running", '>'),
        (Status::Idle, "idle", 'o'),
        (Status::Background, "idle · background work running", '*'),
        (Status::Stopped, "stopped", '#'),
        (Status::Ended { exit_code: None, error: None }, "ended", 'x'),
        (Status::Ended { exit_code: Some(-1), error: None }, "ended (-1)", 'x'),
        (
            Status::Ended { exit_code: Some(0), error: Some("gone".into()) },
            "failed",
            '!',
        ),
    ];
    for (status, words, glyph) in statuses {
        assert_eq!(status.label(), words);
        assert_eq!(status.glyph(), glyph);
    }
}
