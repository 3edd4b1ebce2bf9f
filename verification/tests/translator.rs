use bridge_session::events::{ApprovalKind, BridgeEvent, ItemPayload, Notification, TurnStatus};
use bridge_session::runtime::BridgeRuntime;
use bridge_session::translate::{apply_event, build_turn_started_notification, handle_event, respond_to_approval};

fn s(x: &str) -> String {
    x.to_string()
}

fn bind_run(rt: &mut BridgeRuntime, run: &str, thread: &str, turn: &str) {
    let out = apply_event(
        rt,
        &BridgeEvent::TurnStarted { run_id: s(run), thread_id: s(thread), turn_id: s(turn) },
        s("fresh-unused"),
        7,
    );
    assert_eq!(
        out,
        vec![Notification::TurnStarted { thread_id: s(thread), turn_id: s(turn) }]
    );
}

#[test]
fn session_created_announces_thread() {
    let mut rt = BridgeRuntime::new();
    let out = apply_event(
        &mut rt,
        &BridgeEvent::SessionCreated { run_id: s("r1"), session_id: s("  T9  ") },
        s("f"),
        42,
    );
    assert_eq!(
        out,
        vec![Notification::ThreadStarted { thread_id: s("T9"), created_at: 42 }]
    );
}

#[test]
fn session_created_without_ids_is_dropped() {
    let mut rt = BridgeRuntime::new();
    let out = apply_event(
        &mut rt,
        &BridgeEvent::SessionCreated { run_id: s(""), session_id: s("T") },
        s("f"),
        1,
    );
    assert!(out.is_empty());
    let out = apply_event(
        &mut rt,
        &BridgeEvent::SessionCreated { run_id: s("r"), session_id: s("   ") },
        s("f"),
        1,
    );
    assert!(out.is_empty());
}

#[test]
fn turn_correlation_in_queue_order() {
    let mut rt = BridgeRuntime::new();
    rt.queue_pending_turn(&s("T"), &s("t1"));
    rt.queue_pending_turn(&s("T"), &s("t2"));
    let out1 = apply_event(
        &mut rt,
        &BridgeEvent::RunStarted { run_id: s("r1"), thread_id: s("T") },
        s("fresh-1"),
        0,
    );
    assert_eq!(
        out1,
        vec![Notification::TurnStarted { thread_id: s("T"), turn_id: s("t1") }]
    );
    let out2 = apply_event(
        &mut rt,
        &BridgeEvent::RunStarted { run_id: s("r2"), thread_id: s("T") },
        s("fresh-2"),
        0,
    );
    assert_eq!(
        out2,
        vec![Notification::TurnStarted { thread_id: s("T"), turn_id: s("t2") }]
    );
    let out3 = apply_event(
        &mut rt,
        &BridgeEvent::RunStarted { run_id: s("r3"), thread_id: s("T") },
        s("fresh-3"),
        0,
    );
    assert_eq!(
        out3,
        vec![Notification::TurnStarted { thread_id: s("T"), turn_id: s("fresh-3") }]
    );
}

#[test]
fn duplicate_pending_turn_is_queued_once() {
    let mut rt = BridgeRuntime::new();
    rt.queue_pending_turn(&s("T"), &s("t1"));
    rt.queue_pending_turn(&s("T"), &s("t1"));
    let out1 = apply_event(
        &mut rt,
        &BridgeEvent::RunStarted { run_id: s("r1"), thread_id: s("T") },
        s("fresh-1"),
        0,
    );
    assert_eq!(
        out1,
        vec![Notification::TurnStarted { thread_id: s("T"), turn_id: s("t1") }]
    );
    let out2 = apply_event(
        &mut rt,
        &BridgeEvent::RunStarted { run_id: s("r2"), thread_id: s("T") },
        s("fresh-2"),
        0,
    );
    assert_eq!(
        out2,
        vec![Notification::TurnStarted { thread_id: s("T"), turn_id: s("fresh-2") }]
    );
}

#[test]
fn turn_started_emits_only_first_binding() {
    let mut rt = BridgeRuntime::new();
    bind_run(&mut rt, "r1", "T", "t1");
    let again = apply_event(
        &mut rt,
        &BridgeEvent::TurnStarted { run_id: s("r1"), thread_id: s("T"), turn_id: s("t9") },
        s("f"),
        0,
    );
    assert!(again.is_empty());
}

#[test]
fn message_delta_starts_item_then_streams() {
    let mut rt = BridgeRuntime::new();
    bind_run(&mut rt, "r1", "T", "t1");
    let out = apply_event(
        &mut rt,
        &BridgeEvent::MessageDelta {
            run_id: s("r1"),
            item_id: s("m1"),
            delta: s("he"),
            thread_hint: None,
        },
        s("f"),
        0,
    );
    assert_eq!(
        out,
        vec![
            Notification::ItemStarted {
                thread_id: s("T"),
                turn_id: s("t1"),
                item: ItemPayload::AgentMessage { id: s("m1") },
            },
            Notification::AgentMessageDelta {
                thread_id: s("T"),
                turn_id: s("t1"),
                item_id: s("m1"),
                delta: s("he"),
            },
        ]
    );
    let out2 = apply_event(
        &mut rt,
        &BridgeEvent::MessageDelta {
            run_id: s("r1"),
            item_id: s("m1"),
            delta: s("llo"),
            thread_hint: None,
        },
        s("f"),
        0,
    );
    assert_eq!(
        out2,
        vec![Notification::AgentMessageDelta {
            thread_id: s("T"),
            turn_id: s("t1"),
            item_id: s("m1"),
            delta: s("llo"),
        }]
    );
}

#[test]
fn message_delta_with_hint_binds_unknown_run() {
    let mut rt = BridgeRuntime::new();
    let out = apply_event(
        &mut rt,
        &BridgeEvent::MessageDelta {
            run_id: s("rX"),
            item_id: s("m1"),
            delta: s("hi"),
            thread_hint: Some(s(" T2 ")),
        },
        s("turn-f"),
        0,
    );
    assert_eq!(
        out,
        vec![
            Notification::ItemStarted {
                thread_id: s("T2"),
                turn_id: s("turn-f"),
                item: ItemPayload::AgentMessage { id: s("m1") },
            },
            Notification::AgentMessageDelta {
                thread_id: s("T2"),
                turn_id: s("turn-f"),
                item_id: s("m1"),
                delta: s("hi"),
            },
        ]
    );
}

#[test]
fn message_delta_without_thread_is_deferred() {
    let mut rt = BridgeRuntime::new();
    let out = apply_event(
        &mut rt,
        &BridgeEvent::MessageDelta {
            run_id: s("rX"),
            item_id: s("m1"),
            delta: s("hi"),
            thread_hint: None,
        },
        s("f"),
        0,
    );
    assert!(out.is_empty());
}

#[test]
fn full_message_after_delta_adds_no_second_delta() {
    let mut rt = BridgeRuntime::new();
    bind_run(&mut rt, "r1", "T", "t1");
    apply_event(
        &mut rt,
        &BridgeEvent::MessageDelta {
            run_id: s("r1"),
            item_id: s("m1"),
            delta: s("hello"),
            thread_hint: None,
        },
        s("f"),
        0,
    );
    let out = apply_event(
        &mut rt,
        &BridgeEvent::Message {
            run_id: s("r1"),
            role: s("Assistant"),
            text: s("hello world"),
            thread_hint: None,
        },
        s("f"),
        0,
    );
    assert!(out.is_empty());
}

#[test]
fn full_message_without_delta_emits_one_delta() {
    let mut rt = BridgeRuntime::new();
    bind_run(&mut rt, "r1", "T", "t1");
    let out = apply_event(
        &mut rt,
        &BridgeEvent::Message {
            run_id: s("r1"),
            role: s("assistant"),
            text: s("hello"),
            thread_hint: None,
        },
        s("f"),
        0,
    );
    assert_eq!(
        out,
        vec![
            Notification::ItemStarted {
                thread_id: s("T"),
                turn_id: s("t1"),
                item: ItemPayload::AgentMessage { id: s("assistant-r1") },
            },
            Notification::AgentMessageDelta {
                thread_id: s("T"),
                turn_id: s("t1"),
                item_id: s("assistant-r1"),
                delta: s("hello"),
            },
        ]
    );
}

#[test]
fn non_assistant_message_is_ignored() {
    let mut rt = BridgeRuntime::new();
    bind_run(&mut rt, "r1", "T", "t1");
    let out = apply_event(
        &mut rt,
        &BridgeEvent::Message {
            run_id: s("r1"),
            role: s("user"),
            text: s("hello"),
            thread_hint: None,
        },
        s("f"),
        0,
    );
    assert!(out.is_empty());
}

#[test]
fn reasoning_id_split_with_index() {
    let mut rt = BridgeRuntime::new();
    bind_run(&mut rt, "r1", "T", "t1");
    let out = apply_event(
        &mut rt,
        &BridgeEvent::ReasoningDelta {
            run_id: s("r1"),
            item_id: s("r1_summary_2"),
            delta: s("x"),
            thread_hint: None,
        },
        s("f"),
        0,
    );
    assert_eq!(
        out,
        vec![
            Notification::ItemStarted {
                thread_id: s("T"),
                turn_id: s("t1"),
                item: ItemPayload::Reasoning { id: s("r1") },
            },
            Notification::ReasoningSummaryDelta {
                thread_id: s("T"),
                turn_id: s("t1"),
                item_id: s("r1"),
                summary_index: 2,
                delta: s("x"),
            },
        ]
    );
}

#[test]
fn reasoning_id_without_separator_gets_index_zero() {
    let mut rt = BridgeRuntime::new();
    bind_run(&mut rt, "rA", "T", "t1");
    let out = apply_event(
        &mut rt,
        &BridgeEvent::Reasoning {
            run_id: s("rA"),
            item_id: s("r1"),
            text: s("thinking"),
            thread_hint: None,
        },
        s("f"),
        0,
    );
    assert_eq!(
        out,
        vec![
            Notification::ItemStarted {
                thread_id: s("T"),
                turn_id: s("t1"),
                item: ItemPayload::Reasoning { id: s("r1") },
            },
            Notification::ReasoningSummaryDelta {
                thread_id: s("T"),
                turn_id: s("t1"),
                item_id: s("r1"),
                summary_index: 0,
                delta: s("thinking"),
            },
        ]
    );
}

#[test]
fn reasoning_bad_index_defaults_to_zero() {
    let mut rt = BridgeRuntime::new();
    bind_run(&mut rt, "rA", "T", "t1");
    let out = apply_event(
        &mut rt,
        &BridgeEvent::ReasoningDelta {
            run_id: s("rA"),
            item_id: s("base_summary_x7"),
            delta: s("d"),
            thread_hint: None,
        },
        s("f"),
        0,
    );
    match &out[1] {
        Notification::ReasoningSummaryDelta { item_id, summary_index, .. } => {
            assert_eq!(item_id, "base");
            assert_eq!(*summary_index, 0);
        }
        other => panic!("unexpected notification {:?}", other),
    }
}

#[test]
fn command_terminal_starts_and_completes_in_order() {
    let mut rt = BridgeRuntime::new();
    bind_run(&mut rt, "r1", "T", "t1");
    let payload = ItemPayload::CommandExecution {
        id: s("c1"),
        command: Some(s("ls")),
        status: s("completed"),
        exit_code: Some(0),
        output: Some(s("ok")),
    };
    let out = apply_event(
        &mut rt,
        &BridgeEvent::Command {
            run_id: s("r1"),
            item_id: s("c1"),
            command: s("ls"),
            status: Some(s("completed")),
            exit_code: Some(0),
            output: Some(s("ok")),
            thread_hint: None,
        },
        s("f"),
        0,
    );
    assert_eq!(
        out,
        vec![
            Notification::ItemStarted {
                thread_id: s("T"),
                turn_id: s("t1"),
                item: payload.clone(),
            },
            Notification::CommandOutputDelta {
                thread_id: s("T"),
                turn_id: s("t1"),
                item_id: s("c1"),
                delta: s("ok"),
            },
            Notification::ItemCompleted { thread_id: s("T"), turn_id: s("t1"), item: payload },
        ]
    );
}

#[test]
fn command_in_progress_does_not_complete() {
    let mut rt = BridgeRuntime::new();
    bind_run(&mut rt, "r1", "T", "t1");
    let out = apply_event(
        &mut rt,
        &BridgeEvent::Command {
            run_id: s("r1"),
            item_id: s("c1"),
            command: s("ls"),
            status: None,
            exit_code: None,
            output: None,
            thread_hint: None,
        },
        s("f"),
        0,
    );
    assert_eq!(out.len(), 1);
    match &out[0] {
        Notification::ItemStarted { item, .. } => match item {
            ItemPayload::CommandExecution { status, .. } => assert_eq!(status, "inProgress"),
            other => panic!("unexpected payload {:?}", other),
        },
        other => panic!("unexpected notification {:?}", other),
    }
}

#[test]
fn command_declined_is_terminal() {
    let mut rt = BridgeRuntime::new();
    bind_run(&mut rt, "r1", "T", "t1");
    let out = apply_event(
        &mut rt,
        &BridgeEvent::Command {
            run_id: s("r1"),
            item_id: s("c1"),
            command: s("rm -rf"),
            status: Some(s("declined")),
            exit_code: None,
            output: None,
            thread_hint: None,
        },
        s("f"),
        0,
    );
    assert_eq!(out.len(), 2);
    assert!(matches!(out[1], Notification::ItemCompleted { .. }));
}

#[test]
fn every_terminal_status_completes_the_item() {
    for (i, status) in ["completed", "failed", "declined", "interrupted", "canceled", "cancelled"]
        .iter()
        .enumerate()
    {
        let mut rt = BridgeRuntime::new();
        bind_run(&mut rt, "r1", "T", "t1");
        let out = apply_event(
            &mut rt,
            &BridgeEvent::Command {
                run_id: s("r1"),
                item_id: format!("c{i}"),
                command: s("x"),
                status: Some(s(status)),
                exit_code: None,
                output: None,
                thread_hint: None,
            },
            s("f"),
            0,
        );
        assert_eq!(out.len(), 2, "status {status}");
        assert!(matches!(out[0], Notification::ItemStarted { .. }));
        assert!(matches!(out[1], Notification::ItemCompleted { .. }));
    }
}

#[test]
fn command_output_delta_uses_placeholder() {
    let mut rt = BridgeRuntime::new();
    bind_run(&mut rt, "r1", "T", "t1");
    let out = apply_event(
        &mut rt,
        &BridgeEvent::CommandOutputDelta {
            run_id: s("r1"),
            item_id: s("c1"),
            delta: s("chunk"),
            thread_hint: None,
        },
        s("f"),
        0,
    );
    assert_eq!(
        out,
        vec![
            Notification::ItemStarted {
                thread_id: s("T"),
                turn_id: s("t1"),
                item: ItemPayload::CommandExecution {
                    id: s("c1"),
                    command: None,
                    status: s("inProgress"),
                    exit_code: None,
                    output: None,
                },
            },
            Notification::CommandOutputDelta {
                thread_id: s("T"),
                turn_id: s("t1"),
                item_id: s("c1"),
                delta: s("chunk"),
            },
        ]
    );
}

#[test]
fn terminal_sweep_completes_unfinished_items() {
    let mut rt = BridgeRuntime::new();
    bind_run(&mut rt, "r1", "T", "t1");
    for item in ["a", "b", "c"] {
        apply_event(
            &mut rt,
            &BridgeEvent::CommandOutputDelta {
                run_id: s("r1"),
                item_id: s(item),
                delta: s("out"),
                thread_hint: None,
            },
            s("f"),
            0,
        );
    }
    let placeholder = |id: &str| ItemPayload::CommandExecution {
        id: s(id),
        command: None,
        status: s("inProgress"),
        exit_code: None,
        output: None,
    };
    let done = apply_event(
        &mut rt,
        &BridgeEvent::Command {
            run_id: s("r1"),
            item_id: s("b"),
            command: s("x"),
            status: Some(s("completed")),
            exit_code: Some(0),
            output: None,
            thread_hint: None,
        },
        s("f"),
        0,
    );
    assert!(matches!(done[0], Notification::ItemCompleted { .. }));
    let out = apply_event(&mut rt, &BridgeEvent::RunCompleted { run_id: s("r1") }, s("f"), 0);
    assert_eq!(
        out,
        vec![
            Notification::ItemCompleted {
                thread_id: s("T"),
                turn_id: s("t1"),
                item: placeholder("a"),
            },
            Notification::ItemCompleted {
                thread_id: s("T"),
                turn_id: s("t1"),
                item: placeholder("c"),
            },
            Notification::TurnCompleted {
                thread_id: s("T"),
                turn_id: s("t1"),
                status: TurnStatus::Completed,
                error_message: None,
            },
        ]
    );
    assert!(rt.finish(&s("r1")).is_none());
}

#[test]
fn run_failed_attaches_error_message() {
    let mut rt = BridgeRuntime::new();
    bind_run(&mut rt, "r1", "T", "t1");
    let out = apply_event(
        &mut rt,
        &BridgeEvent::RunFailed { run_id: s("r1"), message: Some(s("boom")) },
        s("f"),
        0,
    );
    assert_eq!(
        out,
        vec![Notification::TurnCompleted {
            thread_id: s("T"),
            turn_id: s("t1"),
            status: TurnStatus::Failed,
            error_message: Some(s("boom")),
        }]
    );
}

#[test]
fn run_canceled_is_interrupted() {
    let mut rt = BridgeRuntime::new();
    bind_run(&mut rt, "r1", "T", "t1");
    let out = apply_event(&mut rt, &BridgeEvent::RunCanceled { run_id: s("r1") }, s("f"), 0);
    assert_eq!(
        out,
        vec![Notification::TurnCompleted {
            thread_id: s("T"),
            turn_id: s("t1"),
            status: TurnStatus::Interrupted,
            error_message: None,
        }]
    );
}

#[test]
fn run_completed_for_unknown_run_is_ignored() {
    let mut rt = BridgeRuntime::new();
    let out = apply_event(&mut rt, &BridgeEvent::RunCompleted { run_id: s("nope") }, s("f"), 0);
    assert!(out.is_empty());
}

#[test]
fn run_rejected_pops_or_synthesizes_turn() {
    let mut rt = BridgeRuntime::new();
    rt.queue_pending_turn(&s("T"), &s("t1"));
    let out = apply_event(
        &mut rt,
        &BridgeEvent::RunRejected { thread_id: s("T"), reason: None },
        s("f"),
        0,
    );
    assert_eq!(
        out,
        vec![Notification::TurnCompleted {
            thread_id: s("T"),
            turn_id: s("t1"),
            status: TurnStatus::Failed,
            error_message: Some(s("Run rejected")),
        }]
    );
    let out2 = apply_event(
        &mut rt,
        &BridgeEvent::RunRejected { thread_id: s("T"), reason: Some(s("busy")) },
        s("fresh-9"),
        0,
    );
    assert_eq!(
        out2,
        vec![Notification::TurnCompleted {
            thread_id: s("T"),
            turn_id: s("fresh-9"),
            status: TurnStatus::Failed,
            error_message: Some(s("busy")),
        }]
    );
}

#[test]
fn abandonment_on_disconnect_drops_all_runs_silently() {
    let mut rt = BridgeRuntime::new();
    bind_run(&mut rt, "r1", "T", "t1");
    bind_run(&mut rt, "r2", "T", "t2");
    apply_event(
        &mut rt,
        &BridgeEvent::MessageDelta {
            run_id: s("r1"),
            item_id: s("m1"),
            delta: s("x"),
            thread_hint: None,
        },
        s("f"),
        0,
    );
    rt.clear_on_disconnect();
    assert!(rt.finish(&s("r1")).is_none());
    assert!(rt.finish(&s("r2")).is_none());
    let out = apply_event(&mut rt, &BridgeEvent::RunCompleted { run_id: s("r1") }, s("f"), 0);
    assert!(out.is_empty());
    let out = apply_event(&mut rt, &BridgeEvent::RunCompleted { run_id: s("r2") }, s("f"), 0);
    assert!(out.is_empty());
}

#[test]
fn approval_round_trip_sends_exactly_one_command() {
    let mut rt = BridgeRuntime::new();
    let out = apply_event(
        &mut rt,
        &BridgeEvent::ApprovalRequested {
            request_id: s("R"),
            run_id: s("X"),
            kind: s("commandExecution"),
        },
        s("f"),
        0,
    );
    assert_eq!(
        out,
        vec![Notification::ApprovalRequest {
            request_id: s("R"),
            kind: ApprovalKind::CommandExecution,
        }]
    );
    let decision = s("approve");
    let first = respond_to_approval(&mut rt, &s("R"), Some(&decision), None).unwrap();
    assert_eq!(first.run_id, "X");
    assert_eq!(first.request_id, "R");
    assert_eq!(first.decision, "approve");
    let second = respond_to_approval(&mut rt, &s("R"), Some(&decision), None);
    assert!(second.is_none());
}

#[test]
fn approval_kind_routes_file_changes() {
    let mut rt = BridgeRuntime::new();
    let out = apply_event(
        &mut rt,
        &BridgeEvent::ApprovalRequested {
            request_id: s("R2"),
            run_id: s(""),
            kind: s("filechange"),
        },
        s("f"),
        0,
    );
    assert_eq!(
        out,
        vec![Notification::ApprovalRequest { request_id: s("R2"), kind: ApprovalKind::FileChange }]
    );
    let fallback = s("Y");
    let resp = respond_to_approval(&mut rt, &s("R2"), None, Some(&fallback)).unwrap();
    assert_eq!(resp.run_id, "Y");
    assert_eq!(resp.decision, "decline");
}

#[test]
fn approval_decision_without_target_is_dropped() {
    let mut rt = BridgeRuntime::new();
    let resp = respond_to_approval(&mut rt, &s("unknown"), None, None);
    assert!(resp.is_none());
    let blank_hint = s("   ");
    let resp = respond_to_approval(&mut rt, &s("unknown"), None, Some(&blank_hint));
    assert!(resp.is_none());
}

#[test]
fn unknown_event_is_ignored() {
    let mut rt = BridgeRuntime::new();
    let out = apply_event(&mut rt, &BridgeEvent::Unknown, s("f"), 0);
    assert!(out.is_empty());
}

#[test]
fn handle_event_draws_its_own_ids() {
    let mut rt = BridgeRuntime::new();
    let out = handle_event(
        &mut rt,
        &BridgeEvent::RunStarted { run_id: s("r1"), thread_id: s("T") },
    );
    assert_eq!(out.len(), 1);
    match &out[0] {
        Notification::TurnStarted { thread_id, turn_id } => {
            assert_eq!(thread_id, "T");
            assert_eq!(turn_id.len(), 36);
        }
        other => panic!("unexpected notification {:?}", other),
    }
}

#[test]
fn mark_item_started_true_exactly_once() {
    let mut rt = BridgeRuntime::new();
    let p = ItemPayload::AgentMessage { id: s("i1") };
    assert!(rt.mark_item_started(&s("r1"), &s("i1"), p.clone()));
    assert!(!rt.mark_item_started(&s("r1"), &s("i1"), p.clone()));
    assert!(!rt.mark_item_started(&s("r1"), &s("i1"), p));
}

#[test]
fn mark_item_completed_true_exactly_once() {
    let mut rt = BridgeRuntime::new();
    let p = ItemPayload::AgentMessage { id: s("i1") };
    assert!(rt.mark_item_completed(&s("r1"), &s("i1"), p.clone()));
    assert!(!rt.mark_item_completed(&s("r1"), &s("i1"), p));
}

#[test]
fn turn_started_notification_shape() {
    let n = build_turn_started_notification(&s("T"), &s("t"));
    assert_eq!(n, Notification::TurnStarted { thread_id: s("T"), turn_id: s("t") });
}
