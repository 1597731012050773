use styra::event::{decode_line, Protocol, StyraEvent};
use styra::journal::{
    humanize_age, list_sessions, new_session_id, read_record, record_line, replay, replay_raw,
    session_created_at_ms, sessions_dir, sort_newest_first, Found, Record, SessionSummary,
};
use styra::protocol::Direction;

fn agent(raw: &str) -> String {
    record_line(&Record::Agent {
        at_ms: 1,
        raw: raw.into(),
    })
}

fn user(text: &str) -> String {
    record_line(&Record::User {
        at_ms: 2,
        text: text.into(),
    })
}

#[test]
fn records_replay_in_receive_order_with_interleaved_turns() {
    let lines = vec![
        user("do the thing"),
        agent(r#"{"type":"item.completed","item":{"type":"agent_message","text":"done"}}"#),
        user("thanks"),
    ];

    let events = replay(&lines, Protocol::CodexJsonl);
    assert_eq!(
        events,
        vec![
            StyraEvent::UserMessage {
                text: "do the thing".into()
            },
            StyraEvent::AgentMessage {
                text: "done".into()
            },
            StyraEvent::UserMessage {
                text: "thanks".into()
            },
        ]
    );
}

#[test]
fn agent_lines_are_stored_verbatim() {
    let raw = r#"{"type":"turn.completed","usage":{"input_tokens":5}}"#;
    let lines = vec![agent(raw)];
    let events = replay(&lines, Protocol::CodexJsonl);
    assert_eq!(events, vec![decode_line(Protocol::CodexJsonl, raw)]);
    let shown = replay_raw(&lines);
    assert_eq!(shown.len(), 1);
    assert_eq!(shown[0].text, raw);
    assert_eq!(shown[0].at_ms, 1);
    assert_eq!(shown[0].direction, Direction::FromAgent);
}

#[test]
fn a_record_is_one_line_and_reads_back() {
    let line = user("two\nlines \"quoted\" → é");
    assert_eq!(line.find('\n'), Some(line.len() - 1));
    let line = line.trim_end().to_owned();
    assert_eq!(
        read_record(&line),
        Ok(Record::User {
            at_ms: 2,
            text: "two\nlines \"quoted\" → é".into()
        })
    );
}

#[test]
fn create_in_store_makes_a_unique_session_directory() {
    let id_a = new_session_id(5, 42, 0);
    let id_b = new_session_id(5, 42, 1);
    assert_ne!(id_a, id_b, "session ids must be unique");
    assert_eq!(id_a, "0000000000005-42-0");
    assert_eq!(sessions_dir("/store"), "/store/sessions");
}

#[test]
fn a_corrupt_record_is_surfaced_not_fatal() {
    let events = replay(&vec!["not a record".to_owned()], Protocol::CodexJsonl);
    assert!(matches!(
        events.as_slice(),
        [StyraEvent::Malformed { .. }]
    ));
}

fn found(name: &str, profile: Option<&str>) -> Found {
    Found {
        name: name.into(),
        is_directory: true,
        profile: profile.map(str::to_owned),
    }
}

#[test]
fn list_sessions_is_empty_when_the_store_has_no_sessions_yet() {
    assert_eq!(list_sessions("/store", Vec::new(), 0), Vec::new());
}

#[test]
fn list_sessions_finds_created_sessions_with_their_profile() {
    let id_a = new_session_id(1_000, 42, 0);
    let id_b = new_session_id(2_000, 42, 1);
    let mut file = found("stray", None);
    file.is_directory = false;
    let sessions = list_sessions(
        "/store",
        vec![found(&id_a, Some("codex")), file, found(&id_b, Some("assistant:opus"))],
        63_000,
    );
    assert_eq!(sessions.len(), 2);
    let by_id = |id: &str| sessions.iter().find(|s| s.id == id).unwrap();
    assert_eq!(by_id(&id_a).profile.as_deref(), Some("codex"));
    assert_eq!(by_id(&id_b).profile.as_deref(), Some("assistant:opus"));
    assert!(sessions.iter().all(|s| s.created_at_ms.is_some()));
    assert_eq!(sessions[0].id, id_b, "newest first");
    assert_eq!(sessions[0].age, "1m ago");
    assert_eq!(sessions[0].path, format!("/store/sessions/{id_b}"));
}

#[test]
fn list_sessions_reports_an_unknown_profile_for_sessions_without_metadata() {
    let sessions = list_sessions("/store", vec![found("legacy-session", None)], 0);
    assert_eq!(sessions.len(), 1);
    assert_eq!(sessions[0].id, "legacy-session");
    assert_eq!(sessions[0].profile, None);
}

#[test]
fn sessions_sort_newest_first_with_unknown_age_last() {
    let summary = |created_at_ms: Option<u64>| SessionSummary {
        id: format!("{created_at_ms:?}"),
        path: String::new(),
        profile: None,
        age: String::new(),
        created_at_ms,
    };
    let sessions = sort_newest_first(vec![
        summary(Some(100)),
        summary(None),
        summary(Some(300)),
        summary(Some(200)),
    ]);
    let order: Vec<Option<u64>> = sessions.iter().map(|s| s.created_at_ms).collect();
    assert_eq!(order, vec![Some(300), Some(200), Some(100), None]);
}

#[test]
fn session_created_at_ms_parses_the_leading_timestamp_field() {
    assert_eq!(session_created_at_ms("0000000123456-42-7"), Some(123456));
    assert_eq!(session_created_at_ms("not-an-id"), None);
    assert_eq!(session_created_at_ms(""), None);
}

#[test]
fn humanize_age_buckets_elapsed_time() {
    assert_eq!(humanize_age(1_000, None), "unknown");
    assert_eq!(humanize_age(10_000, Some(9_500)), "just now");
    assert_eq!(humanize_age(200_000, Some(0)), "3m ago");
    assert_eq!(humanize_age(3_600_000 * 2, Some(0)), "2h ago");
    assert_eq!(humanize_age(86_400_000 * 5, Some(0)), "5d ago");
}

#[test]
fn a_record_may_be_written_as_a_list() {
    assert_eq!(
        read_record(r#"["agent", 5, "line"]"#),
        Ok(Record::Agent { at_ms: 5, raw: "line".into() })
    );
    assert_eq!(
        read_record(r#"["user", 6, "text"]"#),
        Ok(Record::User { at_ms: 6, text: "text".into() })
    );
    for line in [
        r#"["agent", 5]"#,
        r#"["agent", 5, "line", 1]"#,
        r#"["other", 5, "line"]"#,
        r#"["agent", "5", "line"]"#,
        r#"["agent", -5, "line"]"#,
        r#"["agent", 5, null]"#,
        r#"[7, 5, "line"]"#,
        "[]",
    ] {
        assert_eq!(read_record(line), Err("not a journal record".to_owned()), "{line}");
    }
}

#[test]
fn a_record_is_written_with_its_source_first() {
    assert_eq!(
        agent("{\"a\":1}"),
        "{\"source\":\"agent\",\"at_ms\":1,\"raw\":\"{\\\"a\\\":1}\"}\n"
    );
    assert_eq!(user("é\n"), "{\"source\":\"user\",\"at_ms\":2,\"text\":\"é\\n\"}\n");
}
