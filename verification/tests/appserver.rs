use serde_json::Value;
use styra::appserver::{AppServer, Step, INIT_ID};
use styra::event::StyraEvent;

fn unknown() -> StyraEvent {
    StyraEvent::Unknown {
        wire_type: "control".into(),
    }
}

fn sent(steps: Vec<Step>) -> Vec<Value> {
    steps
        .into_iter()
        .filter_map(|step| match step {
            Step::Write(line) => serde_json::from_str(&line).ok(),
            _ => None,
        })
        .collect()
}

#[test]
fn start_sends_initialize() {
    let client = AppServer::new("/tmp/styra/workspace".into());
    let raw = sent(client.start("0.1.0"));
    assert_eq!(raw.len(), 1);
    assert_eq!(raw[0]["method"], "initialize");
    assert_eq!(raw[0]["id"], INIT_ID);
    assert_eq!(raw[0]["params"]["clientInfo"]["version"], "0.1.0");
}

#[test]
fn handshake_progresses_and_a_ready_thread_starts_a_turn() {
    let mut client = AppServer::new("/tmp/styra/workspace".into());

    let answered = sent(client.handle_line(r#"{"id":1,"result":{}}"#, unknown()));
    assert_eq!(answered[0]["method"], "initialized");
    assert_eq!(answered[1]["method"], "thread/start");
    assert_eq!(answered[1]["params"]["approvalPolicy"], "never");
    assert_eq!(answered[1]["params"]["sandbox"], "danger-full-access");

    client.handle_line(
        r#"{"id":2,"result":{"thread":{"id":"thread-xyz"}}}"#,
        unknown(),
    );

    let turn = sent(client.send("do the thing"))
        .into_iter()
        .find(|v| v["method"] == "turn/start")
        .expect("a turn/start was written");
    assert_eq!(turn["params"]["threadId"], "thread-xyz");
    assert_eq!(turn["params"]["input"][0]["text"], "do the thing");
}

#[test]
fn a_message_sent_before_ready_is_queued_then_flushed() {
    let mut client = AppServer::new("/tmp/styra/workspace".into());

    assert!(!client
        .send("early")
        .into_iter()
        .any(|step| matches!(step, Step::Write(_))));

    let turn = sent(client.handle_line(
        r#"{"method":"thread/started","params":{"thread":{"id":"t1"}}}"#,
        unknown(),
    ))
    .into_iter()
    .find(|v| v["method"] == "turn/start");
    assert_eq!(turn.unwrap()["params"]["input"][0]["text"], "early");
}

#[test]
fn a_notification_is_forwarded_as_an_event() {
    let mut client = AppServer::new("/tmp/styra/workspace".into());
    let events: Vec<StyraEvent> = client
        .handle_line(
            r#"{"method":"item/completed","params":{"item":{"type":"agentMessage","id":"m","text":"hi"}}}"#,
            StyraEvent::AgentMessage { text: "hi".into() },
        )
        .into_iter()
        .filter_map(|step| match step {
            Step::Event(e) => Some(e),
            _ => None,
        })
        .collect();
    assert_eq!(events, vec![StyraEvent::AgentMessage { text: "hi".into() }]);
}

#[test]
fn a_line_that_is_not_json_is_forwarded_as_it_decodes() {
    let mut client = AppServer::new("/tmp/styra/workspace".into());
    let malformed = StyraEvent::Malformed {
        error: "expected value".into(),
    };
    let steps = client.handle_line("nonsense", malformed);
    assert_eq!(steps.len(), 1);
    assert!(matches!(steps[0], Step::Event(StyraEvent::Malformed { .. })));
}
