use styra::protocol::{Provider, QuotaEvent, QuotaStatus};
use styra::retry::{due_at_ms, limit_in_force, wait_label, Pending, Retry, GRACE_MS};

fn reading(
    provider: Provider,
    status: QuotaStatus,
    at_ms: u64,
    resets_at_ms: Option<u64>,
) -> QuotaEvent {
    QuotaEvent {
        at_ms,
        session_id: "s-1".into(),
        provider,
        window: "five_hour".into(),
        status,
        resets_at_ms,
        detail: None,
    }
}

#[test]
fn toggling_returns_the_state_it_left_behind() {
    let mut retry = Retry::default();
    assert!(!retry.enabled());
    assert!(retry.toggle());
    assert!(!retry.toggle());
}

#[test]
fn turning_it_off_drops_the_waiting_turn() {
    let mut retry = Retry::default();
    retry.toggle();
    retry.arm(Pending {
        at_ms: 5_000,
        window: "five_hour".into(),
        message: "carry on".into(),
    });
    assert!(retry.pending().is_some());

    retry.toggle();

    assert!(retry.pending().is_none());
    retry.toggle();
    assert!(retry.pending().is_none());
}

#[test]
fn a_waiting_turn_is_held_until_it_is_due() {
    let mut retry = Retry::default();
    retry.toggle();
    retry.arm(Pending {
        at_ms: 5_000,
        window: "five_hour".into(),
        message: "carry on".into(),
    });

    assert!(retry.take_due(4_999).is_none());
    assert!(retry.pending().is_some(), "still waiting, not consumed");
    let due = retry.take_due(5_000).expect("due on the minute");
    assert_eq!(due.message, "carry on");
    assert!(
        retry.take_due(9_999).is_none(),
        "one wait sends one turn, not one per frame"
    );
}

#[test]
fn the_limit_in_force_is_the_newest_unreset_rejection() {
    let readings = vec![
        reading(Provider::Claude, QuotaStatus::Exhausted, 1_000, Some(2_000)),
        reading(Provider::Claude, QuotaStatus::Exhausted, 3_000, Some(9_000)),
        reading(Provider::Claude, QuotaStatus::Warning, 4_000, Some(9_000)),
    ];

    let limit = limit_in_force(&readings, Provider::Claude, 5_000)
        .expect("the rejection at 3_000 is still in force");

    assert_eq!(limit.at_ms, 3_000);
    assert_eq!(due_at_ms(limit), Some(9_000 + GRACE_MS));
}

#[test]
fn a_window_that_has_already_reset_is_not_in_force() {
    let readings = vec![reading(
        Provider::Claude,
        QuotaStatus::Exhausted,
        1_000,
        Some(2_000),
    )];

    assert!(limit_in_force(&readings, Provider::Claude, 2_001).is_none());
}

#[test]
fn another_providers_exhausted_window_explains_nothing() {
    let readings = vec![reading(
        Provider::Codex,
        QuotaStatus::Exhausted,
        1_000,
        Some(9_000),
    )];

    assert!(limit_in_force(&readings, Provider::Claude, 2_000).is_none());
    assert!(limit_in_force(&readings, Provider::Codex, 2_000).is_some());
}

#[test]
fn a_rejection_naming_no_reset_is_not_waited_out() {
    let readings = vec![reading(
        Provider::Claude,
        QuotaStatus::Exhausted,
        1_000,
        None,
    )];

    assert!(limit_in_force(&readings, Provider::Claude, 2_000).is_none());
}

#[test]
fn a_wait_reads_as_minutes_and_then_as_hours() {
    assert_eq!(wait_label(60_000, 0), "1m");
    assert_eq!(wait_label(1, 0), "1m");
    assert_eq!(wait_label(0, 0), "0m");
    assert_eq!(wait_label(59 * 60_000, 0), "59m");
    assert_eq!(wait_label(60 * 60_000, 0), "1h00m");
    assert_eq!(wait_label(4 * 60 * 60_000 + 7 * 60_000, 0), "4h07m");
    assert_eq!(wait_label(0, 10_000), "0m");
}
