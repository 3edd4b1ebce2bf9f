use bridge_session::history::{
    bridge_thread_turns, trace_entry_to_item, HistoryItem, SessionMessage, TraceEntry,
};

fn s(x: &str) -> String {
    x.to_string()
}

fn entry(kind: &str) -> TraceEntry {
    TraceEntry {
        kind: s(kind),
        title: None,
        text: None,
        command: None,
        status: None,
        exit_code: None,
        output: None,
    }
}

fn msg(role: &str, text: &str) -> SessionMessage {
    SessionMessage { role: s(role), text: s(text), trace: vec![] }
}

#[test]
fn reasoning_entry_joins_title_and_text() {
    let mut e = entry("Reasoning");
    e.text = Some(s("  deep thought  "));
    e.title = Some(s(" Plan "));
    assert_eq!(
        trace_entry_to_item(&e),
        Some(HistoryItem::Reasoning { summary: s("Plan: deep thought") })
    );
    e.title = None;
    assert_eq!(
        trace_entry_to_item(&e),
        Some(HistoryItem::Reasoning { summary: s("deep thought") })
    );
}

#[test]
fn reasoning_entry_without_text_renders_nothing() {
    let mut e = entry("reasoning");
    assert_eq!(trace_entry_to_item(&e), None);
    e.text = Some(s("   "));
    assert_eq!(trace_entry_to_item(&e), None);
}

#[test]
fn command_entry_defaults_status_completed() {
    let mut e = entry("command");
    e.command = Some(s("ls"));
    e.exit_code = Some(0);
    e.output = Some(s("ok"));
    assert_eq!(
        trace_entry_to_item(&e),
        Some(HistoryItem::CommandExecution {
            command: s("ls"),
            status: s("completed"),
            exit_code: Some(0),
            output: Some(s("ok")),
        })
    );
    assert_eq!(trace_entry_to_item(&entry("somethingElse")), None);
}

#[test]
fn messages_group_into_turns() {
    let mut assistant = msg("Assistant", "answer one");
    let mut cmd = entry("command");
    cmd.command = Some(s("pwd"));
    assistant.trace = vec![cmd];
    let messages = vec![
        msg("user", "question one"),
        assistant,
        msg("system", "ignored"),
        msg("user", "question two"),
    ];
    let turns = bridge_thread_turns(&messages);
    assert_eq!(
        turns,
        vec![
            vec![
                HistoryItem::UserMessage { text: s("question one") },
                HistoryItem::CommandExecution {
                    command: s("pwd"),
                    status: s("completed"),
                    exit_code: None,
                    output: None,
                },
                HistoryItem::AgentMessage { text: s("answer one") },
            ],
            vec![HistoryItem::UserMessage { text: s("question two") }],
        ]
    );
}

#[test]
fn consecutive_user_messages_split_turns() {
    let messages = vec![msg("user", "a"), msg("user", "b")];
    let turns = bridge_thread_turns(&messages);
    assert_eq!(
        turns,
        vec![
            vec![HistoryItem::UserMessage { text: s("a") }],
            vec![HistoryItem::UserMessage { text: s("b") }],
        ]
    );
}

#[test]
fn assistant_without_user_still_forms_a_turn() {
    let messages = vec![msg("assistant", "hello")];
    let turns = bridge_thread_turns(&messages);
    assert_eq!(turns, vec![vec![HistoryItem::AgentMessage { text: s("hello") }]]);
}

#[test]
fn empty_history_yields_no_turns() {
    let turns = bridge_thread_turns(&vec![]);
    assert!(turns.is_empty());
}
