use serde_json::Value;
use styra::agent::{codex, submission_id, MessageFormat, Profile, SandboxLayout};
use styra::event::Protocol;

#[test]
fn codex_profile_isolates_the_workspace_and_speaks_the_decoded_protocol() {
    let layout = SandboxLayout::default();
    let profile = Profile::builtin("codex", &layout).unwrap();

    assert_eq!(profile.protocol, Protocol::CodexJsonl);
    assert!(profile.network);
    assert!(profile.single_turn);
    assert_eq!(profile.command[0], "codex");
    assert!(profile.command.iter().any(|arg| arg == "danger-full-access"));
    assert!(profile.command.iter().any(|arg| arg == "exec"));
    assert!(profile.command.iter().any(|arg| arg == "--json"));
    assert_eq!(profile.command.last().unwrap(), "-", "prompt is read from stdin");
    assert!(profile
        .command
        .iter()
        .any(|arg| arg.contains("/tmp/styra/workspace") && arg.contains("trusted")));
    assert!(profile
        .command
        .iter()
        .any(|arg| arg.contains("projects.\"/tmp/styra/workspace\".trust_level=\"trusted\"")));
    assert!(profile.mounts.iter().any(|mount| {
        mount.destination == "/tmp/agent-home/.codex/auth.json" && mount.writable
    }));
    assert!(profile
        .environment
        .contains(&("HOME".to_string(), "/tmp/agent-home".to_string())));
}

#[test]
fn unknown_profile_is_rejected() {
    assert!(Profile::builtin("gpt5", &SandboxLayout::default()).is_err());
    assert_eq!(
        Profile::builtin("gpt\"5", &SandboxLayout::default()).unwrap_err(),
        "unknown agent profile \"gpt\\\"5\"; known profiles: codex"
    );
}

fn codex_submission_profile() -> Profile {
    Profile {
        message_format: MessageFormat::CodexSubmission,
        ..codex(&SandboxLayout::default())
    }
}

#[test]
fn codex_submission_is_valid_json_carrying_the_text_and_one_line() {
    let profile = codex_submission_profile();
    let encoded = profile.encode_message(&submission_id(7, 0), "fix the bug\nand test it");
    assert_eq!(*encoded.last().unwrap(), b'\n');
    assert_eq!(
        encoded.iter().filter(|&&b| b == b'\n').count(),
        1,
        "a submission must be exactly one input line"
    );
    let line = std::str::from_utf8(&encoded).unwrap().trim_end();
    let value: Value = serde_json::from_str(line).expect("submission is valid JSON");
    assert_eq!(value["op"]["items"][0]["text"], "fix the bug\nand test it");
    assert!(value["id"].is_string());
}

#[test]
fn distinct_submissions_get_distinct_ids() {
    let profile = codex_submission_profile();
    let a = String::from_utf8(profile.encode_message(&submission_id(7, 0), "a")).unwrap();
    let b = String::from_utf8(profile.encode_message(&submission_id(7, 1), "b")).unwrap();
    let id = |s: &str| {
        serde_json::from_str::<Value>(s.trim_end()).unwrap()["id"]
            .as_str()
            .unwrap()
            .to_owned()
    };
    assert_ne!(id(&a), id(&b));
}

#[test]
fn plain_line_format_flattens_to_a_single_line() {
    let profile = Profile {
        message_format: MessageFormat::PlainLine,
        ..codex(&SandboxLayout::default())
    };
    let encoded = profile.encode_message("unused", "one\ntwo");
    assert_eq!(encoded, b"one two\n");
}

#[test]
fn a_message_is_one_line_that_reads_as_one_value() {
    let mut profile = Profile::builtin("codex", &SandboxLayout::default()).unwrap();
    profile.message_format = MessageFormat::CodexSubmission;
    let encoded = profile.encode_message("id", "one\r\ntwo \u{2028} \"three\"");
    assert_eq!(encoded.iter().filter(|byte| **byte == b'\n').count(), 1);
    assert_eq!(encoded.last(), Some(&b'\n'));
    let text = String::from_utf8(encoded).unwrap();
    assert!(styra::json::parse_json(text.trim_end()).is_ok());
}
