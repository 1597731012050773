use styra::outbox::Outbox;
use styra::protocol::{Contract, QueuedMessage};

#[test]
fn a_contract_does_not_outlive_the_message_it_was_chosen_for() {
    let mut outbox = Outbox::default();
    outbox.cycle_contract();
    assert!(outbox.contract().is_some());

    let taken = outbox.take_contract();

    assert!(taken.is_some());
    assert!(outbox.contract().is_none(), "the next message is untyped");
}

#[test]
fn cycling_contracts_walks_the_list_and_returns_to_an_untyped_turn() {
    let mut outbox = Outbox::default();
    assert_eq!(outbox.contract(), None);

    for expected in [
        Contract::Text,
        Contract::Lines,
        Contract::Files,
        Contract::Json,
    ] {
        outbox.cycle_contract();
        assert_eq!(outbox.contract(), Some(expected));
    }
    outbox.cycle_contract();

    assert_eq!(outbox.contract(), None);
}

#[test]
fn queued_messages_are_sent_in_the_order_they_were_written() {
    let mut outbox = Outbox::default();
    outbox.queue(QueuedMessage::new("first".into()));
    outbox.queue(QueuedMessage::new("second".into()));
    assert_eq!(outbox.queued_count(), 2);

    assert_eq!(outbox.take_queued().unwrap().text, "first");
    assert_eq!(outbox.take_queued().unwrap().text, "second");
    assert!(outbox.take_queued().is_none());
}

#[test]
fn a_queued_message_keeps_its_own_contract() {
    let mut outbox = Outbox::default();
    outbox.cycle_contract();
    let contract = outbox.take_contract();
    outbox.queue(QueuedMessage::new("typed".into()).asking_for(contract));
    outbox.queue(QueuedMessage::new("untyped".into()));

    assert_eq!(outbox.take_queued().unwrap().contract, contract);
    assert_eq!(outbox.take_queued().unwrap().contract, None);
}

#[test]
fn clearing_says_how_many_were_discarded() {
    let mut outbox = Outbox::default();
    outbox.queue(QueuedMessage::new("one".into()));
    outbox.queue(QueuedMessage::new("two".into()));

    assert_eq!(outbox.clear_queued(), 2);
    assert_eq!(outbox.queued_count(), 0);
    assert_eq!(outbox.clear_queued(), 0);
}

#[test]
fn what_the_server_says_waits_replaces_what_waited() {
    let mut outbox = Outbox::default();
    outbox.queue(QueuedMessage::new("stale".into()));
    outbox.replace_queued(vec![
        QueuedMessage::new("one".into()),
        QueuedMessage::new("two".into()),
    ]);
    assert_eq!(outbox.take_queued().unwrap().text, "one");
    assert_eq!(outbox.take_queued().unwrap().text, "two");
    assert!(outbox.take_queued().is_none());
}
