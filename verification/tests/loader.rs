use styra::loader::{LoadCommand, LoadEvent, Loads};
use styra::protocol::InteractionSnapshotScope;

fn answer(loads: &Loads, id: &str) -> LoadEvent {
    LoadEvent {
        request_id: loads.pending.clone().unwrap_or_default(),
        generation: loads.generation,
        id: id.to_owned(),
        result: Err("not used by these tests".into()),
    }
}

#[test]
fn the_answer_to_the_outstanding_request_is_accepted() {
    let mut loads = Loads::start("one".into());
    loads.request("one".into(), InteractionSnapshotScope::Full, "r-1".into());

    assert!(loads.accepts(&answer(&loads, "one")));
}

#[test]
fn an_answer_about_an_interaction_the_view_has_left_is_rejected() {
    let mut loads = Loads::start("one".into());
    loads.request("one".into(), InteractionSnapshotScope::Full, "r-1".into());
    let in_flight = answer(&loads, "one");

    loads.request("two".into(), InteractionSnapshotScope::Full, "r-2".into());

    assert!(!loads.accepts(&in_flight));
    assert!(loads.accepts(&answer(&loads, "two")));
}

#[test]
fn a_superseded_preview_of_the_same_interaction_is_rejected() {
    let mut loads = Loads::start("one".into());
    loads.request(
        "one".into(),
        InteractionSnapshotScope::Preview { limit: 5 },
        "r-1".into(),
    );
    let preview = answer(&loads, "one");

    loads.request("one".into(), InteractionSnapshotScope::Full, "r-2".into());

    assert_eq!(preview.id, loads.active_id, "the same interaction");
    assert!(!loads.accepts(&preview), "but asked for by an older view");
}

#[test]
fn settling_abandons_what_was_in_flight() {
    let mut loads = Loads::start("one".into());
    loads.request("one".into(), InteractionSnapshotScope::Full, "r-1".into());
    let abandoned = answer(&loads, "one");

    loads.settle_on("one".into());

    assert!(!loads.accepts(&abandoned));
    assert!(loads.pending.is_none());
}

#[test]
fn an_answer_is_only_accepted_once() {
    let mut loads = Loads::start("one".into());
    loads.request("one".into(), InteractionSnapshotScope::Full, "r-1".into());
    let event = answer(&loads, "one");
    assert!(loads.accepts(&event));

    loads.answered();

    assert!(!loads.accepts(&event), "nothing is outstanding any more");
}

#[test]
fn moving_on_cancels_the_outstanding_fetch_before_asking_for_the_next() {
    let mut loads = Loads::start("one".into());
    let (nothing, first) =
        loads.request("one".into(), InteractionSnapshotScope::Full, "r-1".into());
    assert!(nothing.is_none());
    let LoadCommand::Load(first) = first else {
        panic!("expected a load");
    };
    let generation = loads.generation;

    let (cancel, second) = loads.request(
        "two".into(),
        InteractionSnapshotScope::Preview { limit: 5 },
        "r-2".into(),
    );

    match cancel.expect("the cancel") {
        LoadCommand::Cancel(cancelled) => assert_eq!(cancelled, first.request_id),
        LoadCommand::Load(_) => panic!("the cancel must come first"),
    }
    let LoadCommand::Load(second) = second else {
        panic!("the replacement fetch must follow cancellation");
    };
    assert_eq!(second.id, "two");
    assert_eq!(loads.active_id(), "two");
    assert_eq!(loads.pending.as_deref(), Some(second.request_id.as_str()));
    assert_eq!(loads.generation, generation + 1);
}

#[test]
fn cancelling_with_nothing_outstanding_says_nothing() {
    let mut loads = Loads::start("one".into());

    assert!(loads.cancel().is_none());
}
