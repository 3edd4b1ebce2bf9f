//! The event and notification vocabulary of the bridge session runtime.
//!
//! A `BridgeEvent` is one decoded inbound event from the backend service; a
//! `Notification` is one outbound UI notification. Both carry plain values
//! only, so the translation between them can be verified; the surrounding
//! process decodes frames into events and renders notifications out.

use vstd::prelude::*;

verus! {

/// The last known rendering of one item, cached so a terminal sweep can
/// complete items that never saw their own completion event.
#[derive(Debug, Clone, PartialEq, Eq)]
pub enum ItemPayload {
    AgentMessage { id: String },
    Reasoning { id: String },
    CommandExecution {
        id: String,
        command: Option<String>,
        status: String,
        exit_code: Option<i64>,
        output: Option<String>,
    },
}

/// Spec-level form of `ItemPayload`.
pub enum PayloadView {
    AgentMessage { id: Seq<char> },
    Reasoning { id: Seq<char> },
    CommandExecution {
        id: Seq<char>,
        command: Option<Seq<char>>,
        status: Seq<char>,
        exit_code: Option<i64>,
        output: Option<Seq<char>>,
    },
}

pub open spec fn view_opt_str(o: Option<String>) -> Option<Seq<char>> {
    match o {
        Some(s) => Some(s@),
        None => None,
    }
}

impl DeepView for ItemPayload {
    type V = PayloadView;

    open spec fn deep_view(&self) -> PayloadView {
        match self {
            ItemPayload::AgentMessage { id } => PayloadView::AgentMessage { id: id@ },
            ItemPayload::Reasoning { id } => PayloadView::Reasoning { id: id@ },
            ItemPayload::CommandExecution { id, command, status, exit_code, output } => {
                PayloadView::CommandExecution {
                    id: id@,
                    command: view_opt_str(*command),
                    status: status@,
                    exit_code: *exit_code,
                    output: view_opt_str(*output),
                }
            },
        }
    }
}

/// The status a turn ends with.
#[derive(PartialEq, Eq, Structural, Clone, Copy, Debug)]
pub enum TurnStatus {
    Completed,
    Failed,
    Interrupted,
}

/// Which approval surface a request is routed to.
#[derive(PartialEq, Eq, Structural, Clone, Copy, Debug)]
pub enum ApprovalKind {
    FileChange,
    CommandExecution,
}

/// One outbound UI notification.
#[derive(Debug, Clone, PartialEq, Eq)]
pub enum Notification {
    ThreadStarted { thread_id: String, created_at: i64 },
    TurnStarted { thread_id: String, turn_id: String },
    ItemStarted { thread_id: String, turn_id: String, item: ItemPayload },
    AgentMessageDelta { thread_id: String, turn_id: String, item_id: String, delta: String },
    ReasoningSummaryDelta {
        thread_id: String,
        turn_id: String,
        item_id: String,
        summary_index: i64,
        delta: String,
    },
    CommandOutputDelta { thread_id: String, turn_id: String, item_id: String, delta: String },
    ApprovalRequest { request_id: String, kind: ApprovalKind },
    ItemCompleted { thread_id: String, turn_id: String, item: ItemPayload },
    TurnCompleted {
        thread_id: String,
        turn_id: String,
        status: TurnStatus,
        error_message: Option<String>,
    },
}

/// Spec-level form of `Notification`.
pub enum NotifView {
    ThreadStarted { thread_id: Seq<char>, created_at: i64 },
    TurnStarted { thread_id: Seq<char>, turn_id: Seq<char> },
    ItemStarted { thread_id: Seq<char>, turn_id: Seq<char>, item: PayloadView },
    AgentMessageDelta {
        thread_id: Seq<char>,
        turn_id: Seq<char>,
        item_id: Seq<char>,
        delta: Seq<char>,
    },
    ReasoningSummaryDelta {
        thread_id: Seq<char>,
        turn_id: Seq<char>,
        item_id: Seq<char>,
        summary_index: i64,
        delta: Seq<char>,
    },
    CommandOutputDelta {
        thread_id: Seq<char>,
        turn_id: Seq<char>,
        item_id: Seq<char>,
        delta: Seq<char>,
    },
    ApprovalRequest { request_id: Seq<char>, kind: ApprovalKind },
    ItemCompleted { thread_id: Seq<char>, turn_id: Seq<char>, item: PayloadView },
    TurnCompleted {
        thread_id: Seq<char>,
        turn_id: Seq<char>,
        status: TurnStatus,
        error_message: Option<Seq<char>>,
    },
}

impl DeepView for Notification {
    type V = NotifView;

    open spec fn deep_view(&self) -> NotifView {
        match self {
            Notification::ThreadStarted { thread_id, created_at } => NotifView::ThreadStarted {
                thread_id: thread_id@,
                created_at: *created_at,
            },
            Notification::TurnStarted { thread_id, turn_id } => NotifView::TurnStarted {
                thread_id: thread_id@,
                turn_id: turn_id@,
            },
            Notification::ItemStarted { thread_id, turn_id, item } => NotifView::ItemStarted {
                thread_id: thread_id@,
                turn_id: turn_id@,
                item: item.deep_view(),
            },
            Notification::AgentMessageDelta { thread_id, turn_id, item_id, delta } => {
                NotifView::AgentMessageDelta {
                    thread_id: thread_id@,
                    turn_id: turn_id@,
                    item_id: item_id@,
                    delta: delta@,
                }
            },
            Notification::ReasoningSummaryDelta {
                thread_id,
                turn_id,
                item_id,
                summary_index,
                delta,
            } => NotifView::ReasoningSummaryDelta {
                thread_id: thread_id@,
                turn_id: turn_id@,
                item_id: item_id@,
                summary_index: *summary_index,
                delta: delta@,
            },
            Notification::CommandOutputDelta { thread_id, turn_id, item_id, delta } => {
                NotifView::CommandOutputDelta {
                    thread_id: thread_id@,
                    turn_id: turn_id@,
                    item_id: item_id@,
                    delta: delta@,
                }
            },
            Notification::ApprovalRequest { request_id, kind } => NotifView::ApprovalRequest {
                request_id: request_id@,
                kind: *kind,
            },
            Notification::ItemCompleted { thread_id, turn_id, item } => NotifView::ItemCompleted {
                thread_id: thread_id@,
                turn_id: turn_id@,
                item: item.deep_view(),
            },
            Notification::TurnCompleted { thread_id, turn_id, status, error_message } => {
                NotifView::TurnCompleted {
                    thread_id: thread_id@,
                    turn_id: turn_id@,
                    status: *status,
                    error_message: view_opt_str(*error_message),
                }
            },
        }
    }
}

/// One decoded inbound event from the backend service. Field values are the
/// raw strings the frame carried; validation and trimming is the
/// translator's job. An event name this runtime does not know decodes to
/// `Unknown` and is ignored.
#[derive(Debug, Clone, PartialEq, Eq)]
pub enum BridgeEvent {
    SessionCreated { run_id: String, session_id: String },
    RunStarted { run_id: String, thread_id: String },
    TurnStarted { run_id: String, thread_id: String, turn_id: String },
    MessageDelta { run_id: String, item_id: String, delta: String, thread_hint: Option<String> },
    Message { run_id: String, role: String, text: String, thread_hint: Option<String> },
    ReasoningDelta {
        run_id: String,
        item_id: String,
        delta: String,
        thread_hint: Option<String>,
    },
    Reasoning { run_id: String, item_id: String, text: String, thread_hint: Option<String> },
    Command {
        run_id: String,
        item_id: String,
        command: String,
        status: Option<String>,
        exit_code: Option<i64>,
        output: Option<String>,
        thread_hint: Option<String>,
    },
    CommandOutputDelta {
        run_id: String,
        item_id: String,
        delta: String,
        thread_hint: Option<String>,
    },
    ApprovalRequested { request_id: String, run_id: String, kind: String },
    RunCompleted { run_id: String },
    RunFailed { run_id: String, message: Option<String> },
    RunCanceled { run_id: String },
    RunRejected { thread_id: String, reason: Option<String> },
    Unknown,
}

/// Spec-level form of `BridgeEvent`.
pub enum EventView {
    SessionCreated { run_id: Seq<char>, session_id: Seq<char> },
    RunStarted { run_id: Seq<char>, thread_id: Seq<char> },
    TurnStarted { run_id: Seq<char>, thread_id: Seq<char>, turn_id: Seq<char> },
    MessageDelta {
        run_id: Seq<char>,
        item_id: Seq<char>,
        delta: Seq<char>,
        thread_hint: Option<Seq<char>>,
    },
    Message {
        run_id: Seq<char>,
        role: Seq<char>,
        text: Seq<char>,
        thread_hint: Option<Seq<char>>,
    },
    ReasoningDelta {
        run_id: Seq<char>,
        item_id: Seq<char>,
        delta: Seq<char>,
        thread_hint: Option<Seq<char>>,
    },
    Reasoning {
        run_id: Seq<char>,
        item_id: Seq<char>,
        text: Seq<char>,
        thread_hint: Option<Seq<char>>,
    },
    Command {
        run_id: Seq<char>,
        item_id: Seq<char>,
        command: Seq<char>,
        status: Option<Seq<char>>,
        exit_code: Option<i64>,
        output: Option<Seq<char>>,
        thread_hint: Option<Seq<char>>,
    },
    CommandOutputDelta {
        run_id: Seq<char>,
        item_id: Seq<char>,
        delta: Seq<char>,
        thread_hint: Option<Seq<char>>,
    },
    ApprovalRequested { request_id: Seq<char>, run_id: Seq<char>, kind: Seq<char> },
    RunCompleted { run_id: Seq<char> },
    RunFailed { run_id: Seq<char>, message: Option<Seq<char>> },
    RunCanceled { run_id: Seq<char> },
    RunRejected { thread_id: Seq<char>, reason: Option<Seq<char>> },
    Unknown,
}

impl DeepView for BridgeEvent {
    type V = EventView;

    open spec fn deep_view(&self) -> EventView {
        match self {
            BridgeEvent::SessionCreated { run_id, session_id } => EventView::SessionCreated {
                run_id: run_id@,
                session_id: session_id@,
            },
            BridgeEvent::RunStarted { run_id, thread_id } => EventView::RunStarted {
                run_id: run_id@,
                thread_id: thread_id@,
            },
            BridgeEvent::TurnStarted { run_id, thread_id, turn_id } => EventView::TurnStarted {
                run_id: run_id@,
                thread_id: thread_id@,
                turn_id: turn_id@,
            },
            BridgeEvent::MessageDelta { run_id, item_id, delta, thread_hint } => {
                EventView::MessageDelta {
                    run_id: run_id@,
                    item_id: item_id@,
                    delta: delta@,
                    thread_hint: view_opt_str(*thread_hint),
                }
            },
            BridgeEvent::Message { run_id, role, text, thread_hint } => EventView::Message {
                run_id: run_id@,
                role: role@,
                text: text@,
                thread_hint: view_opt_str(*thread_hint),
            },
            BridgeEvent::ReasoningDelta { run_id, item_id, delta, thread_hint } => {
                EventView::ReasoningDelta {
                    run_id: run_id@,
                    item_id: item_id@,
                    delta: delta@,
                    thread_hint: view_opt_str(*thread_hint),
                }
            },
            BridgeEvent::Reasoning { run_id, item_id, text, thread_hint } => EventView::Reasoning {
                run_id: run_id@,
                item_id: item_id@,
                text: text@,
                thread_hint: view_opt_str(*thread_hint),
            },
            BridgeEvent::Command {
                run_id,
                item_id,
                command,
                status,
                exit_code,
                output,
                thread_hint,
            } => EventView::Command {
                run_id: run_id@,
                item_id: item_id@,
                command: command@,
                status: view_opt_str(*status),
                exit_code: *exit_code,
                output: view_opt_str(*output),
                thread_hint: view_opt_str(*thread_hint),
            },
            BridgeEvent::CommandOutputDelta { run_id, item_id, delta, thread_hint } => {
                EventView::CommandOutputDelta {
                    run_id: run_id@,
                    item_id: item_id@,
                    delta: delta@,
                    thread_hint: view_opt_str(*thread_hint),
                }
            },
            BridgeEvent::ApprovalRequested { request_id, run_id, kind } => {
                EventView::ApprovalRequested {
                    request_id: request_id@,
                    run_id: run_id@,
                    kind: kind@,
                }
            },
            BridgeEvent::RunCompleted { run_id } => EventView::RunCompleted { run_id: run_id@ },
            BridgeEvent::RunFailed { run_id, message } => EventView::RunFailed {
                run_id: run_id@,
                message: view_opt_str(*message),
            },
            BridgeEvent::RunCanceled { run_id } => EventView::RunCanceled { run_id: run_id@ },
            BridgeEvent::RunRejected { thread_id, reason } => EventView::RunRejected {
                thread_id: thread_id@,
                reason: view_opt_str(*reason),
            },
            BridgeEvent::Unknown => EventView::Unknown,
        }
    }
}

} // verus!
