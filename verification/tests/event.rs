use styra::event::{
    clean_terminal_text, decode_line, markdown_blocks, truncate_line, DetailBlock, Protocol,
    StyraEvent, TokenUsage,
};

#[test]
fn agent_message_decodes_and_summarises_to_one_line() {
    let event = decode_line(
        Protocol::CodexJsonl,
        r#"{"type":"item.completed","item":{"id":"m1","type":"agent_message","text":"Added backoff.\nTests pass."}}"#,
    );
    assert_eq!(
        event,
        StyraEvent::AgentMessage {
            text: "Added backoff.\nTests pass.".into()
        }
    );
    assert_eq!(event.tag(), "agent");
    assert_eq!(event.summary(), "Added backoff.");
}

#[test]
fn command_lifecycle_decodes_with_status_and_output() {
    let started = decode_line(
        Protocol::CodexJsonl,
        r#"{"type":"item.started","item":{"id":"c1","type":"command_execution","command":"cargo test"}}"#,
    );
    assert_eq!(
        started,
        StyraEvent::CommandStarted {
            command: "cargo test".into()
        }
    );

    let completed = decode_line(
        Protocol::CodexJsonl,
        r#"{"type":"item.completed","item":{"id":"c1","type":"command_execution","command":"cargo test","status":"completed","exit_code":0,"aggregated_output":"ok"}}"#,
    );
    assert_eq!(
        completed,
        StyraEvent::CommandCompleted {
            command: "cargo test".into(),
            status: "completed".into(),
            exit_code: Some(0),
            output: "ok".into(),
        }
    );
    assert_eq!(completed.summary(), "cargo test (completed, exit 0)");
}

#[test]
fn thread_and_turn_events_decode() {
    assert_eq!(
        decode_line(
            Protocol::CodexJsonl,
            r#"{"type":"thread.started","thread_id":"t-7"}"#
        ),
        StyraEvent::ThreadStarted {
            thread_id: "t-7".into()
        }
    );
    assert_eq!(
        decode_line(Protocol::CodexJsonl, r#"{"type":"turn.started"}"#),
        StyraEvent::TurnStarted
    );
    let usage = decode_line(
        Protocol::CodexJsonl,
        r#"{"type":"turn.completed","usage":{"input_tokens":10,"output_tokens":3,"cached_input_tokens":2}}"#,
    );
    assert_eq!(
        usage,
        StyraEvent::TurnCompleted {
            usage: TokenUsage {
                input_tokens: 10,
                output_tokens: 3,
                cached_input_tokens: 2,
                reasoning_output_tokens: 0,
            }
        }
    );
    assert_eq!(usage.summary(), "in 10 · out 3 · cached 2");
}

#[test]
fn file_change_collects_paths() {
    let event = decode_line(
        Protocol::CodexJsonl,
        r#"{"type":"item.completed","item":{"id":"f1","type":"file_change","changes":[{"path":"src/a.rs"},{"path":"src/b.rs"}]}}"#,
    );
    assert_eq!(
        event,
        StyraEvent::FileChanged {
            paths: vec!["src/a.rs".into(), "src/b.rs".into()]
        }
    );
    assert_eq!(event.summary(), "src/a.rs, src/b.rs");
}

#[test]
fn unknown_and_malformed_are_preserved_not_dropped() {
    assert_eq!(
        decode_line(Protocol::CodexJsonl, r#"{"type":"future.event"}"#),
        StyraEvent::Unknown {
            wire_type: "future.event".into()
        }
    );
    assert!(matches!(
        decode_line(Protocol::CodexJsonl, "not json"),
        StyraEvent::Malformed { .. }
    ));
}

#[test]
fn terminal_escapes_are_stripped_from_decoded_text() {
    let event = decode_line(
        Protocol::CodexJsonl,
        "{\"type\":\"item.completed\",\"item\":{\"type\":\"agent_message\",\"text\":\"\\u001b[31mred\\u001b[0m done\"}}",
    );
    assert_eq!(
        event,
        StyraEvent::AgentMessage {
            text: "red done".into()
        }
    );
}

#[test]
fn markdown_detail_separates_prose_and_code() {
    let blocks = markdown_blocks("before\n```rust\nfn main() {}\n```\nafter");
    assert_eq!(
        blocks,
        vec![
            DetailBlock::Text("before".into()),
            DetailBlock::Code {
                language: Some("rust".into()),
                text: "fn main() {}\n".into()
            },
            DetailBlock::Text("after".into()),
        ]
    );
}

#[test]
fn agent_message_detail_uses_markdown_blocks() {
    let event = StyraEvent::AgentMessage {
        text: "text\n```\ncode\n```".into(),
    };
    assert_eq!(
        event.detail(),
        vec![
            DetailBlock::Text("text".into()),
            DetailBlock::Code {
                language: None,
                text: "code\n".into()
            },
        ]
    );
}

#[test]
fn summary_is_flattened_and_truncated() {
    let long = "x".repeat(500);
    let event = StyraEvent::AgentMessage { text: long };
    let summary = event.summary();
    assert!(summary.chars().count() <= 200);
    assert!(summary.ends_with('…'));
}

#[test]
fn cleaning_text_settles_and_keeps_what_is_clean() {
    let dirty = "\u{1b}]0;title\u{7}plain\u{1b}[1m text\u{8}\tkept\n";
    let clean = clean_terminal_text(dirty);
    assert!(!clean.contains('\u{1b}'));
    assert_eq!(clean_terminal_text(&clean), clean);
    assert_eq!(clean_terminal_text("plain\ttext\n"), "plain\ttext\n");
}

#[test]
fn a_line_is_cut_to_its_limit() {
    assert_eq!(truncate_line("short", 10), "short");
    let cut = truncate_line("0123456789", 4);
    assert_eq!(cut.chars().count(), 4);
    assert!(cut.ends_with('…'));
}

fn shown(event: StyraEvent) -> Vec<DetailBlock> {
    let blocks = event.detail();
    for block in &blocks {
        match block {
            DetailBlock::Text(text) => assert_eq!(&clean_terminal_text(text), text),
            DetailBlock::Code { language, text } => {
                assert_eq!(&clean_terminal_text(text), text);
                if let Some(language) = language {
                    assert_eq!(&clean_terminal_text(language), language);
                }
            }
        }
    }
    blocks
}

#[test]
fn no_detail_block_carries_an_escape_sequence() {
    let red = || "\u{1b}[31mred\u{1b}[0m".to_string();
    assert_eq!(
        shown(StyraEvent::ThreadStarted { thread_id: red() }),
        vec![DetailBlock::Text("thread id: red".into())]
    );
    assert_eq!(
        shown(StyraEvent::CommandStarted { command: red() }),
        vec![DetailBlock::Code { language: None, text: "red".into() }]
    );
    assert_eq!(
        shown(StyraEvent::CommandCompleted {
            command: "\u{1b}".into(),
            status: red(),
            exit_code: Some(-1),
            output: red(),
        }),
        vec![
            DetailBlock::Text("$ \nstatus: red (exit -1)".into()),
            DetailBlock::Code { language: None, text: "red".into() },
        ]
    );
    assert_eq!(
        shown(StyraEvent::FileChanged { paths: vec![red(), "\u{8}a".into()] }),
        vec![DetailBlock::Text("red\na".into())]
    );
    assert_eq!(
        shown(StyraEvent::ToolStarted { name: red(), detail: red() }),
        vec![DetailBlock::Text("red\nred".into())]
    );
    assert_eq!(
        shown(StyraEvent::ToolCompleted { name: red(), status: red() }),
        vec![DetailBlock::Text("red: red".into())]
    );
    assert_eq!(
        shown(StyraEvent::Error { message: red() }),
        vec![DetailBlock::Text("red".into())]
    );
    assert_eq!(
        shown(StyraEvent::Unknown { wire_type: red() }),
        vec![DetailBlock::Text("unrecognised event: red".into())]
    );
    assert_eq!(
        shown(StyraEvent::Malformed { error: red() }),
        vec![DetailBlock::Text("red".into())]
    );
    assert_eq!(
        shown(StyraEvent::UserMessage { text: "```\u{1b}[1mrust\nlet\u{7}\n```".into() }),
        vec![DetailBlock::Code { language: Some("rust".into()), text: "let\n".into() }]
    );
}

#[test]
fn an_item_of_an_unknown_kind_is_read_without_its_escape_sequences() {
    assert_eq!(
        decode_line(
            Protocol::CodexJsonl,
            "{\"type\":\"item.completed\",\"item\":{\"type\":\"\\u001b[31mmystery\\u001b[0m\"}}",
        ),
        StyraEvent::Unknown { wire_type: "item.completed:mystery".into() }
    );
    assert_eq!(
        decode_line(Protocol::CodexJsonl, r#"{"type":"item.started","item":{"type":"todo"}}"#),
        StyraEvent::Unknown { wire_type: "item.started:todo".into() }
    );
}

#[test]
fn markdown_is_split_well() {
    let texts = [
        "",
        "\n",
        "prose  \n\n",
        "one\n```rust\nlet x;\n```\ntwo \n~~~\nopen\nto the end",
        "```\n```\n```\n```",
        "```",
        "a\n```sh\n",
        "\u{1b}[1m",
    ];
    for text in texts {
        let blocks = markdown_blocks(text);
        assert_eq!(blocks, markdown_blocks(&clean_terminal_text(text)));
        assert_eq!(blocks.is_empty(), clean_terminal_text(text).is_empty(), "{text:?}");
        for pair in blocks.windows(2) {
            assert!(!matches!(pair, [DetailBlock::Text(_), DetailBlock::Text(_)]), "{text:?}");
        }
        for block in &blocks {
            if let DetailBlock::Text(prose) = block {
                assert_eq!(prose.trim_end(), prose);
            }
        }
    }
    assert_eq!(
        markdown_blocks(texts[3]).last(),
        Some(&DetailBlock::Code { language: None, text: "open\nto the end".into() })
    );
    assert_eq!(
        markdown_blocks(texts[6]).last(),
        Some(&DetailBlock::Code { language: Some("sh".into()), text: String::new() })
    );
}
