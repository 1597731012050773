use serde_json::Value;
use styra::client::{Answered, Client, Wire};

fn client() -> Client {
    Client::new("/run/styra.sock".into())
}

#[test]
fn a_request_takes_its_own_kind_of_answer() {
    assert_eq!(client().socket_path(), "/run/styra.sock");
    let asked = client().send_message("styra-1", "hello");
    assert_eq!(
        asked.answer("{}", Ok(Wire::Done(Answered::Accepted)), ""),
        Ok(Answered::Accepted)
    );
    assert_eq!(
        client()
            .health()
            .answer("{}", Ok(Wire::Done(Answered::Health(Value::Null))), ""),
        Ok(Answered::Health(Value::Null))
    );
    assert_eq!(
        client().transcript("styra-1").answer(
            "{}",
            Ok(Wire::Done(Answered::Transcript("all of it".into()))),
            ""
        ),
        Ok(Answered::Transcript("all of it".into()))
    );
    assert_eq!(
        client()
            .list_sessions()
            .answer("{}", Ok(Wire::Done(Answered::StoredSessions(vec![]))), ""),
        Ok(Answered::StoredSessions(vec![]))
    );
}

#[test]
fn an_answer_of_another_kind_is_a_protocol_error() {
    let asked = client().updates("styra-1", 7);
    assert_eq!(
        asked.answer("{}", Ok(Wire::Done(Answered::Accepted)), "Accepted"),
        Err("Styra protocol error: expected updates response, got Accepted".into())
    );
    assert_eq!(
        client()
            .stored_session("styra-1")
            .answer("{}", Ok(Wire::Done(Answered::Accepted)), "Accepted"),
        Err("Styra protocol error: expected stored_session response, got Accepted".into())
    );
}

#[test]
fn a_closed_socket_a_refusal_and_noise_are_told_apart() {
    let asked = client().stop_session("styra-1");
    assert_eq!(
        asked.answer("", Err("EOF".into()), ""),
        Err("Styra server closed the socket without a response".into())
    );
    assert_eq!(
        asked.answer("{}", Ok(Wire::Refused("no such session".into())), ""),
        Err("Styra server: no such session".into())
    );
    assert_eq!(
        asked.answer("noise", Err("expected value".into()), ""),
        Err("decoding the Styra response: expected value".into())
    );
}
