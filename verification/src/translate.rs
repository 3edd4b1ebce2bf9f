//! The event translator: maps one backend event to zero or more ordered UI
//! notifications, consulting and mutating the shared runtime state.
//!
//! Every exec path is verified against `step_spec`, the specification-level
//! state machine over `RuntimeView`.

use vstd::prelude::*;
use crate::assoc::{lemma_assoc_contains, lemma_assoc_get};
use crate::chars::{to_lower_spec, trim_spec};
use crate::events::{
    ApprovalKind, BridgeEvent, EventView, ItemPayload, NotifView, Notification, PayloadView,
    TurnStatus,
};
use crate::ids::{last_sep_at, sep_at};
use crate::numbers::parse_i64_spec;
use crate::runtime::{
    ctx_spec, get_run, mark_completed_spec, mark_started_spec, pop_pending_spec, with_approvals,
    with_runs, BridgeRuntime, RunView, RuntimeView,
};

verus! {

/// The rightmost separator position at or below `k`, if any.
pub open spec fn last_sep_index(raw: Seq<char>, k: int) -> Option<int>
    decreases k + 1,
    when k < raw.len()
{
    if k < 0 {
        None
    } else if sep_at(raw, k) {
        Some(k)
    } else {
        last_sep_index(raw, k - 1)
    }
}

/// Splitting a reasoning item id on its rightmost `_summary_` separator: the
/// base id and the parsed summary index, index zero when no separator occurs.
pub open spec fn split_summary_spec(raw: Seq<char>) -> (Seq<char>, i64) {
    match last_sep_index(raw, raw.len() - 9) {
        Some(k) => (
            raw.subrange(0, k),
            parse_i64_spec(raw.subrange(k + 9, raw.len() as int)),
        ),
        None => (raw, 0),
    }
}

/// session-created: binds the run's thread and announces the thread.
pub open spec fn session_created_spec(
    st: RuntimeView,
    run_id: Seq<char>,
    session_id: Seq<char>,
    now: i64,
) -> (RuntimeView, Seq<NotifView>) {
    let sid = trim_spec(session_id);
    if run_id.len() == 0 || sid.len() == 0 {
        (st, Seq::empty())
    } else {
        let r0 = get_run(st, run_id);
        let r1 = RunView { thread_id: sid, ..r0 };
        (
            with_runs(st, st.runs.insert(run_id, r1)),
            seq![NotifView::ThreadStarted { thread_id: sid, created_at: now }],
        )
    }
}

/// run-started: correlates the run with the next pending turn id for its
/// thread, or a fresh one, and announces the turn.
pub open spec fn run_started_spec(
    st: RuntimeView,
    run_id: Seq<char>,
    thread_raw: Seq<char>,
    fresh: Seq<char>,
) -> (RuntimeView, Seq<NotifView>) {
    let tid = trim_spec(thread_raw);
    if run_id.len() == 0 || tid.len() == 0 {
        (st, Seq::empty())
    } else {
        let popped = pop_pending_spec(st, tid, fresh);
        let st1 = popped.0;
        let turn = popped.1;
        let r0 = get_run(st1, run_id);
        let r1 = RunView { thread_id: tid, turn_id: turn, ..r0 };
        (
            with_runs(st1, st1.runs.insert(run_id, r1)),
            seq![NotifView::TurnStarted { thread_id: tid, turn_id: turn }],
        )
    }
}

/// turn-started: binds thread and turn, announcing the turn only when this
/// event was the first to bind it.
pub open spec fn turn_started_spec(
    st: RuntimeView,
    run_id: Seq<char>,
    thread_raw: Seq<char>,
    turn_raw: Seq<char>,
) -> (RuntimeView, Seq<NotifView>) {
    let tid = trim_spec(thread_raw);
    let tn = trim_spec(turn_raw);
    if run_id.len() == 0 || tid.len() == 0 || tn.len() == 0 {
        (st, Seq::empty())
    } else {
        let r0 = get_run(st, run_id);
        let was_empty = r0.turn_id.len() == 0;
        let r1 = RunView {
            thread_id: tid,
            turn_id: if was_empty {
                tn
            } else {
                r0.turn_id
            },
            ..r0
        };
        let st1 = with_runs(st, st.runs.insert(run_id, r1));
        if was_empty {
            (st1, seq![NotifView::TurnStarted { thread_id: tid, turn_id: tn }])
        } else {
            (st1, Seq::empty())
        }
    }
}

/// chat message delta: ensures the assistant item is started, records the
/// assistant item id and that streaming was seen, and forwards the delta.
pub open spec fn message_delta_spec(
    st: RuntimeView,
    run_id: Seq<char>,
    item_id: Seq<char>,
    delta: Seq<char>,
    hint: Option<Seq<char>>,
    fresh: Seq<char>,
) -> (RuntimeView, Seq<NotifView>) {
    if run_id.len() == 0 || item_id.len() == 0 || delta.len() == 0 {
        (st, Seq::empty())
    } else {
        let ctx = ctx_spec(st, run_id, hint, fresh);
        let st1 = ctx.0;
        match ctx.1 {
            None => (st1, Seq::empty()),
            Some(pair) => {
                let tid = pair.0;
                let turn = pair.1;
                let payload = PayloadView::AgentMessage { id: item_id };
                let r1 = get_run(st1, run_id);
                let marked = mark_started_spec(r1, item_id, payload);
                let r2 = RunView {
                    assistant_item_id: Some(item_id),
                    assistant_delta_seen: true,
                    ..marked.0
                };
                let st2 = with_runs(st1, st1.runs.insert(run_id, r2));
                let started = if marked.1 {
                    seq![
                        NotifView::ItemStarted { thread_id: tid, turn_id: turn, item: payload },
                    ]
                } else {
                    Seq::empty()
                };
                (
                    st2,
                    started + seq![
                        NotifView::AgentMessageDelta {
                            thread_id: tid,
                            turn_id: turn,
                            item_id: item_id,
                            delta: delta,
                        },
                    ],
                )
            },
        }
    }
}

/// full chat message: starts the assistant item if needed and forwards the
/// whole text as one delta unless streaming deltas were already seen.
pub open spec fn message_spec(
    st: RuntimeView,
    run_id: Seq<char>,
    role: Seq<char>,
    text: Seq<char>,
    hint: Option<Seq<char>>,
    fresh: Seq<char>,
) -> (RuntimeView, Seq<NotifView>) {
    if run_id.len() == 0 || to_lower_spec(role) != to_lower_spec("assistant"@) || text.len()
        == 0 {
        (st, Seq::empty())
    } else {
        let ctx = ctx_spec(st, run_id, hint, fresh);
        let st1 = ctx.0;
        match ctx.1 {
            None => (st1, Seq::empty()),
            Some(pair) => {
                let tid = pair.0;
                let turn = pair.1;
                let r1 = get_run(st1, run_id);
                let item_id = match r1.assistant_item_id {
                    Some(x) => x,
                    None => "assistant-"@ + run_id,
                };
                let payload = PayloadView::AgentMessage { id: item_id };
                let marked = mark_started_spec(r1, item_id, payload);
                let st2 = with_runs(st1, st1.runs.insert(run_id, marked.0));
                let started = if marked.1 {
                    seq![
                        NotifView::ItemStarted { thread_id: tid, turn_id: turn, item: payload },
                    ]
                } else {
                    Seq::empty()
                };
                let deltas = if !r1.assistant_delta_seen {
                    seq![
                        NotifView::AgentMessageDelta {
                            thread_id: tid,
                            turn_id: turn,
                            item_id: item_id,
                            delta: text,
                        },
                    ]
                } else {
                    Seq::empty()
                };
                (st2, started + deltas)
            },
        }
    }
}

/// reasoning text (streamed or full): splits the raw item id into base id
/// and summary index, starts the item if needed, forwards the text.
pub open spec fn reasoning_spec(
    st: RuntimeView,
    run_id: Seq<char>,
    raw_item_id: Seq<char>,
    delta: Seq<char>,
    hint: Option<Seq<char>>,
    fresh: Seq<char>,
) -> (RuntimeView, Seq<NotifView>) {
    if run_id.len() == 0 || raw_item_id.len() == 0 || delta.len() == 0 {
        (st, Seq::empty())
    } else {
        let split = split_summary_spec(raw_item_id);
        let item_id = split.0;
        let idx = split.1;
        let ctx = ctx_spec(st, run_id, hint, fresh);
        let st1 = ctx.0;
        match ctx.1 {
            None => (st1, Seq::empty()),
            Some(pair) => {
                let tid = pair.0;
                let turn = pair.1;
                let payload = PayloadView::Reasoning { id: item_id };
                let r1 = get_run(st1, run_id);
                let marked = mark_started_spec(r1, item_id, payload);
                let st2 = with_runs(st1, st1.runs.insert(run_id, marked.0));
                let started = if marked.1 {
                    seq![
                        NotifView::ItemStarted { thread_id: tid, turn_id: turn, item: payload },
                    ]
                } else {
                    Seq::empty()
                };
                (
                    st2,
                    started + seq![
                        NotifView::ReasoningSummaryDelta {
                            thread_id: tid,
                            turn_id: turn,
                            item_id: item_id,
                            summary_index: idx,
                            delta: delta,
                        },
                    ],
                )
            },
        }
    }
}

/// Whether a command status string is terminal.
pub open spec fn is_terminal_status(status: Seq<char>) -> bool {
    status == "completed"@ || status == "failed"@ || status == "declined"@ || status
        == "interrupted"@ || status == "canceled"@ || status == "cancelled"@
}

/// command event: starts the item, forwards nonempty output as a delta, and
/// completes the item when the status is terminal.
pub open spec fn command_spec(
    st: RuntimeView,
    run_id: Seq<char>,
    item_id: Seq<char>,
    command: Seq<char>,
    status_raw: Option<Seq<char>>,
    exit_code: Option<i64>,
    output: Option<Seq<char>>,
    hint: Option<Seq<char>>,
    fresh: Seq<char>,
) -> (RuntimeView, Seq<NotifView>) {
    if run_id.len() == 0 || item_id.len() == 0 || command.len() == 0 {
        (st, Seq::empty())
    } else {
        let status = match status_raw {
            Some(s) => s,
            None => "inProgress"@,
        };
        let ctx = ctx_spec(st, run_id, hint, fresh);
        let st1 = ctx.0;
        match ctx.1 {
            None => (st1, Seq::empty()),
            Some(pair) => {
                let tid = pair.0;
                let turn = pair.1;
                let payload = PayloadView::CommandExecution {
                    id: item_id,
                    command: Some(command),
                    status: status,
                    exit_code: exit_code,
                    output: output,
                };
                let r1 = get_run(st1, run_id);
                let marked = mark_started_spec(r1, item_id, payload);
                let st2 = with_runs(st1, st1.runs.insert(run_id, marked.0));
                let started = if marked.1 {
                    seq![
                        NotifView::ItemStarted { thread_id: tid, turn_id: turn, item: payload },
                    ]
                } else {
                    Seq::empty()
                };
                let outs = match output {
                    Some(o) => if o.len() > 0 {
                        seq![
                            NotifView::CommandOutputDelta {
                                thread_id: tid,
                                turn_id: turn,
                                item_id: item_id,
                                delta: o,
                            },
                        ]
                    } else {
                        Seq::empty()
                    },
                    None => Seq::empty(),
                };
                if is_terminal_status(status) {
                    let completed = mark_completed_spec(marked.0, item_id, payload);
                    let st3 = with_runs(st2, st2.runs.insert(run_id, completed.0));
                    let comps = if completed.1 {
                        seq![
                            NotifView::ItemCompleted {
                                thread_id: tid,
                                turn_id: turn,
                                item: payload,
                            },
                        ]
                    } else {
                        Seq::empty()
                    };
                    (st3, started + outs + comps)
                } else {
                    (st2, started + outs)
                }
            },
        }
    }
}

/// command output delta: starts the item with a placeholder when unseen and
/// forwards the output delta.
pub open spec fn command_output_delta_spec(
    st: RuntimeView,
    run_id: Seq<char>,
    item_id: Seq<char>,
    delta: Seq<char>,
    hint: Option<Seq<char>>,
    fresh: Seq<char>,
) -> (RuntimeView, Seq<NotifView>) {
    if run_id.len() == 0 || item_id.len() == 0 || delta.len() == 0 {
        (st, Seq::empty())
    } else {
        let ctx = ctx_spec(st, run_id, hint, fresh);
        let st1 = ctx.0;
        match ctx.1 {
            None => (st1, Seq::empty()),
            Some(pair) => {
                let tid = pair.0;
                let turn = pair.1;
                let payload = PayloadView::CommandExecution {
                    id: item_id,
                    command: None,
                    status: "inProgress"@,
                    exit_code: None,
                    output: None,
                };
                let r1 = get_run(st1, run_id);
                let marked = mark_started_spec(r1, item_id, payload);
                let st2 = with_runs(st1, st1.runs.insert(run_id, marked.0));
                let started = if marked.1 {
                    seq![
                        NotifView::ItemStarted { thread_id: tid, turn_id: turn, item: payload },
                    ]
                } else {
                    Seq::empty()
                };
                (
                    st2,
                    started + seq![
                        NotifView::CommandOutputDelta {
                            thread_id: tid,
                            turn_id: turn,
                            item_id: item_id,
                            delta: delta,
                        },
                    ],
                )
            },
        }
    }
}

/// approval-requested: records the correlation when a run id is present and
/// routes the request by kind.
pub open spec fn approval_requested_spec(
    st: RuntimeView,
    request_raw: Seq<char>,
    run_raw: Seq<char>,
    kind: Seq<char>,
) -> (RuntimeView, Seq<NotifView>) {
    let rid = trim_spec(request_raw);
    let run = trim_spec(run_raw);
    if rid.len() == 0 {
        (st, Seq::empty())
    } else {
        let st1 = if run.len() > 0 {
            with_approvals(st, st.approvals.insert(rid, run))
        } else {
            st
        };
        let kind_v = if to_lower_spec(kind) == to_lower_spec("fileChange"@) {
            ApprovalKind::FileChange
        } else {
            ApprovalKind::CommandExecution
        };
        (st1, seq![NotifView::ApprovalRequest { request_id: rid, kind: kind_v }])
    }
}

/// The completion notifications the terminal sweep emits for the first `n`
/// started items: each started item that never completed and has a cached
/// payload is completed with that payload, in start order.
pub open spec fn sweep_notifs(r: RunView, n: int) -> Seq<NotifView>
    decreases n,
{
    if n <= 0 {
        Seq::empty()
    } else {
        let prev = sweep_notifs(r, n - 1);
        let it = r.started[n - 1];
        if !r.completed.contains(it) && r.payloads.contains_key(it) {
            prev.push(
                NotifView::ItemCompleted {
                    thread_id: r.thread_id,
                    turn_id: r.turn_id,
                    item: r.payloads[it],
                },
            )
        } else {
            prev
        }
    }
}

/// A run's terminal event: removes the run, completes every started item
/// that never completed, using its cached payload, then completes the turn.
pub open spec fn run_finished_spec(
    st: RuntimeView,
    run_id: Seq<char>,
    status: TurnStatus,
    error_message: Option<Seq<char>>,
) -> (RuntimeView, Seq<NotifView>) {
    if run_id.len() == 0 || !st.runs.contains_key(run_id) {
        (st, Seq::empty())
    } else {
        let r = st.runs[run_id];
        let st1 = with_runs(st, st.runs.remove(run_id));
        if r.thread_id.len() == 0 || r.turn_id.len() == 0 {
            (st1, Seq::empty())
        } else {
            (
                st1,
                sweep_notifs(r, r.started.len() as int).push(
                    NotifView::TurnCompleted {
                        thread_id: r.thread_id,
                        turn_id: r.turn_id,
                        status: status,
                        error_message: error_message,
                    },
                ),
            )
        }
    }
}

/// run-rejected: resolves or synthesizes the turn id and fails the turn.
pub open spec fn run_rejected_spec(
    st: RuntimeView,
    thread_raw: Seq<char>,
    reason: Option<Seq<char>>,
    fresh: Seq<char>,
) -> (RuntimeView, Seq<NotifView>) {
    let tid = trim_spec(thread_raw);
    if tid.len() == 0 {
        (st, Seq::empty())
    } else {
        let popped = pop_pending_spec(st, tid, fresh);
        let msg = match reason {
            Some(m) => m,
            None => "Run rejected"@,
        };
        (
            popped.0,
            seq![
                NotifView::TurnCompleted {
                    thread_id: tid,
                    turn_id: popped.1,
                    status: TurnStatus::Failed,
                    error_message: Some(msg),
                },
            ],
        )
    }
}

/// The deterministic state machine of the translator: what one event does
/// to the runtime state and which notifications it emits, given the fresh
/// id used if a turn id must be synthesized and the current time.
pub open spec fn step_spec(st: RuntimeView, ev: EventView, fresh: Seq<char>, now: i64) -> (
    RuntimeView,
    Seq<NotifView>,
) {
    match ev {
        EventView::SessionCreated { run_id, session_id } => session_created_spec(
            st,
            run_id,
            session_id,
            now,
        ),
        EventView::RunStarted { run_id, thread_id } => run_started_spec(
            st,
            run_id,
            thread_id,
            fresh,
        ),
        EventView::TurnStarted { run_id, thread_id, turn_id } => turn_started_spec(
            st,
            run_id,
            thread_id,
            turn_id,
        ),
        EventView::MessageDelta { run_id, item_id, delta, thread_hint } => message_delta_spec(
            st,
            run_id,
            item_id,
            delta,
            thread_hint,
            fresh,
        ),
        EventView::Message { run_id, role, text, thread_hint } => message_spec(
            st,
            run_id,
            role,
            text,
            thread_hint,
            fresh,
        ),
        EventView::ReasoningDelta { run_id, item_id, delta, thread_hint } => reasoning_spec(
            st,
            run_id,
            item_id,
            delta,
            thread_hint,
            fresh,
        ),
        EventView::Reasoning { run_id, item_id, text, thread_hint } => reasoning_spec(
            st,
            run_id,
            item_id,
            text,
            thread_hint,
            fresh,
        ),
        EventView::Command {
            run_id,
            item_id,
            command,
            status,
            exit_code,
            output,
            thread_hint,
        } => command_spec(
            st,
            run_id,
            item_id,
            command,
            status,
            exit_code,
            output,
            thread_hint,
            fresh,
        ),
        EventView::CommandOutputDelta { run_id, item_id, delta, thread_hint } => {
            command_output_delta_spec(st, run_id, item_id, delta, thread_hint, fresh)
        },
        EventView::ApprovalRequested { request_id, run_id, kind } => approval_requested_spec(
            st,
            request_id,
            run_id,
            kind,
        ),
        EventView::RunCompleted { run_id } => run_finished_spec(
            st,
            run_id,
            TurnStatus::Completed,
            None,
        ),
        EventView::RunFailed { run_id, message } => run_finished_spec(
            st,
            run_id,
            TurnStatus::Failed,
            message,
        ),
        EventView::RunCanceled { run_id } => run_finished_spec(
            st,
            run_id,
            TurnStatus::Interrupted,
            None,
        ),
        EventView::RunRejected { thread_id, reason } => run_rejected_spec(
            st,
            thread_id,
            reason,
            fresh,
        ),
        EventView::Unknown => (st, Seq::empty()),
    }
}

proof fn lemma_last_sep_from_witness(raw: Seq<char>, k: int, c: int)
    requires
        sep_at(raw, k),
        k <= c,
        c <= raw.len() - 9,
        forall|j: int| k < j ==> !sep_at(raw, j),
    ensures
        last_sep_index(raw, c) == Some(k),
    decreases c - k,
{
    if c > k {
        assert(!sep_at(raw, c));
        lemma_last_sep_from_witness(raw, k, c - 1);
    }
}

proof fn lemma_last_sep_none(raw: Seq<char>, c: int)
    requires
        forall|j: int| !sep_at(raw, j),
        -1 <= c <= raw.len() - 9,
    ensures
        last_sep_index(raw, c) is None,
    decreases c + 1,
{
    if c >= 0 {
        assert(!sep_at(raw, c));
        lemma_last_sep_none(raw, c - 1);
    }
}

/// Splits a reasoning item id and parses its summary index.
fn split_summary(raw: &String) -> (r: (String, i64))
    ensures
        r.0@ == split_summary_spec(raw@).0,
        r.1 == split_summary_spec(raw@).1,
{
    match crate::ids::split_summary_id(raw) {
        Some(parts) => {
            proof {
                let k = choose|k: int|
                    last_sep_at(raw@, k) && parts.0@ == raw@.subrange(0, k)
                        && parts.1@ == raw@.subrange(k + 9, raw@.len() as int);
                lemma_last_sep_from_witness(raw@, k, raw@.len() - 9);
            }
            let idx = crate::numbers::parse_i64_or_zero(&parts.1);
            (parts.0, idx)
        },
        None => {
            proof {
                if raw@.len() >= 9 {
                    lemma_last_sep_none(raw@, raw@.len() - 9);
                }
            }
            (raw.clone(), 0)
        },
    }
}

/// Copies an item payload.
fn clone_payload(p: &ItemPayload) -> (r: ItemPayload)
    ensures
        r.deep_view() == p.deep_view(),
{
    match p {
        ItemPayload::AgentMessage { id } => ItemPayload::AgentMessage { id: id.clone() },
        ItemPayload::Reasoning { id } => ItemPayload::Reasoning { id: id.clone() },
        ItemPayload::CommandExecution { id, command, status, exit_code, output } => {
            ItemPayload::CommandExecution {
                id: id.clone(),
                command: clone_opt(command),
                status: status.clone(),
                exit_code: *exit_code,
                output: clone_opt(output),
            }
        },
    }
}

/// Copies an optional string.
fn clone_opt(o: &Option<String>) -> (r: Option<String>)
    ensures
        crate::events::view_opt_str(r) == crate::events::view_opt_str(*o),
{
    match o {
        Some(s) => Some(s.clone()),
        None => None,
    }
}

fn as_hint<'a>(o: &'a Option<String>) -> (r: Option<&'a String>)
    ensures
        ({
            let v = match r {
                Some(h) => Some(h@),
                None => None,
            };
            v == crate::events::view_opt_str(*o)
        }),
{
    match o {
        Some(s) => Some(s),
        None => None,
    }
}

fn is_terminal(status: &String) -> (r: bool)
    ensures
        r == is_terminal_status(status@),
{
    *status == String::from_str("completed") || *status == String::from_str("failed") || *status
        == String::from_str("declined") || *status == String::from_str("interrupted") || *status
        == String::from_str("canceled") || *status == String::from_str("cancelled")
}

/// Builds the notification announcing a started turn.
pub fn build_turn_started_notification(thread_id: &String, turn_id: &String) -> (r: Notification)
    ensures
        r.deep_view() == (NotifView::TurnStarted { thread_id: thread_id@, turn_id: turn_id@ }),
{
    Notification::TurnStarted { thread_id: thread_id.clone(), turn_id: turn_id.clone() }
}

fn on_session_created(rt: &mut BridgeRuntime, run_id: &String, session_id: &String, now: i64) -> (out:
    Vec<Notification>)
    requires
        old(rt).wf(),
    ensures
        final(rt).wf(),
        ({
            let step = session_created_spec(old(rt).deep_view(), run_id@, session_id@, now);
            final(rt).deep_view() == step.0 && out.deep_view() == step.1
        }),
{
    let mut out: Vec<Notification> = Vec::new();
    assert(out.deep_view() =~= Seq::<NotifView>::empty());
    let sid = crate::chars::trim_spaces(session_id);
    if run_id.as_str().is_empty() || sid.as_str().is_empty() {
        return out;
    }
    rt.set_thread(run_id, sid.clone());
    out.push(Notification::ThreadStarted { thread_id: sid, created_at: now });
    proof {
        let step = session_created_spec(old(rt).deep_view(), run_id@, session_id@, now);
        assert(rt.deep_view() =~~= step.0);
        assert(out.deep_view() =~~= step.1);
    }
    out
}

fn on_run_started(rt: &mut BridgeRuntime, run_id: &String, thread_raw: &String, fresh: String) -> (out:
    Vec<Notification>)
    requires
        old(rt).wf(),
    ensures
        final(rt).wf(),
        ({
            let step = run_started_spec(old(rt).deep_view(), run_id@, thread_raw@, fresh@);
            final(rt).deep_view() == step.0 && out.deep_view() == step.1
        }),
{
    let mut out: Vec<Notification> = Vec::new();
    assert(out.deep_view() =~= Seq::<NotifView>::empty());
    let tid = crate::chars::trim_spaces(thread_raw);
    if run_id.as_str().is_empty() || tid.as_str().is_empty() {
        return out;
    }
    let turn = rt.pop_pending_turn(&tid, fresh);
    rt.bind_run(run_id, tid.clone(), turn.clone());
    out.push(build_turn_started_notification(&tid, &turn));
    proof {
        let step = run_started_spec(old(rt).deep_view(), run_id@, thread_raw@, fresh@);
        assert(rt.deep_view() =~~= step.0);
        assert(out.deep_view() =~~= step.1);
    }
    out
}

fn on_turn_started(
    rt: &mut BridgeRuntime,
    run_id: &String,
    thread_raw: &String,
    turn_raw: &String,
) -> (out: Vec<Notification>)
    requires
        old(rt).wf(),
    ensures
        final(rt).wf(),
        ({
            let step = turn_started_spec(old(rt).deep_view(), run_id@, thread_raw@, turn_raw@);
            final(rt).deep_view() == step.0 && out.deep_view() == step.1
        }),
{
    let mut out: Vec<Notification> = Vec::new();
    assert(out.deep_view() =~= Seq::<NotifView>::empty());
    let tid = crate::chars::trim_spaces(thread_raw);
    let tn = crate::chars::trim_spaces(turn_raw);
    if run_id.as_str().is_empty() || tid.as_str().is_empty() || tn.as_str().is_empty() {
        return out;
    }
    let was_empty = rt.bind_turn_if_empty(run_id, tid.clone(), tn.clone());
    if was_empty {
        out.push(build_turn_started_notification(&tid, &tn));
    }
    proof {
        let step = turn_started_spec(old(rt).deep_view(), run_id@, thread_raw@, turn_raw@);
        assert(rt.deep_view() =~~= step.0);
        assert(out.deep_view() =~~= step.1);
    }
    out
}

fn on_message_delta(
    rt: &mut BridgeRuntime,
    run_id: &String,
    item_id: &String,
    delta: &String,
    thread_hint: &Option<String>,
    fresh: String,
) -> (out: Vec<Notification>)
    requires
        old(rt).wf(),
    ensures
        final(rt).wf(),
        ({
            let step = message_delta_spec(
                old(rt).deep_view(),
                run_id@,
                item_id@,
                delta@,
                crate::events::view_opt_str(*thread_hint),
                fresh@,
            );
            final(rt).deep_view() == step.0 && out.deep_view() == step.1
        }),
{
    let mut out: Vec<Notification> = Vec::new();
    assert(out.deep_view() =~= Seq::<NotifView>::empty());
    if run_id.as_str().is_empty() || item_id.as_str().is_empty() || delta.as_str().is_empty() {
        return out;
    }
    let ctx = rt.run_context(run_id, as_hint(thread_hint), fresh);
    match ctx {
        None => out,
        Some(pair) => {
            let tid = pair.0;
            let turn = pair.1;
            let payload = ItemPayload::AgentMessage { id: item_id.clone() };
            let started_new = rt.mark_item_started(run_id, item_id, clone_payload(&payload));
            if started_new {
                out.push(
                    Notification::ItemStarted {
                        thread_id: tid.clone(),
                        turn_id: turn.clone(),
                        item: clone_payload(&payload),
                    },
                );
            }
            rt.note_assistant_delta(run_id, item_id);
            out.push(
                Notification::AgentMessageDelta {
                    thread_id: tid,
                    turn_id: turn,
                    item_id: item_id.clone(),
                    delta: delta.clone(),
                },
            );
            proof {
                let step = message_delta_spec(
                    old(rt).deep_view(),
                    run_id@,
                    item_id@,
                    delta@,
                    crate::events::view_opt_str(*thread_hint),
                    fresh@,
                );
                assert(rt.deep_view() =~~= step.0);
                assert(out.deep_view() =~~= step.1);
            }
            out
        },
    }
}

fn on_message(
    rt: &mut BridgeRuntime,
    run_id: &String,
    role: &String,
    text: &String,
    thread_hint: &Option<String>,
    fresh: String,
) -> (out: Vec<Notification>)
    requires
        old(rt).wf(),
    ensures
        final(rt).wf(),
        ({
            let step = message_spec(
                old(rt).deep_view(),
                run_id@,
                role@,
                text@,
                crate::events::view_opt_str(*thread_hint),
                fresh@,
            );
            final(rt).deep_view() == step.0 && out.deep_view() == step.1
        }),
{
    let mut out: Vec<Notification> = Vec::new();
    assert(out.deep_view() =~= Seq::<NotifView>::empty());
    let assistant = String::from_str("assistant");
    if run_id.as_str().is_empty() || !crate::chars::eq_ignore_ascii_case(role, &assistant)
        || text.as_str().is_empty() {
        return out;
    }
    let ctx = rt.run_context(run_id, as_hint(thread_hint), fresh);
    match ctx {
        None => out,
        Some(pair) => {
            let tid = pair.0;
            let turn = pair.1;
            let astate = rt.assistant_state(run_id);
            let item_id = match astate.0 {
                Some(x) => x,
                None => crate::chars::concat_str(&String::from_str("assistant-"), run_id),
            };
            let payload = ItemPayload::AgentMessage { id: item_id.clone() };
            let started_new = rt.mark_item_started(run_id, &item_id, clone_payload(&payload));
            if started_new {
                out.push(
                    Notification::ItemStarted {
                        thread_id: tid.clone(),
                        turn_id: turn.clone(),
                        item: clone_payload(&payload),
                    },
                );
            }
            if !astate.1 {
                out.push(
                    Notification::AgentMessageDelta {
                        thread_id: tid,
                        turn_id: turn,
                        item_id: item_id.clone(),
                        delta: text.clone(),
                    },
                );
            }
            proof {
                let step = message_spec(
                    old(rt).deep_view(),
                    run_id@,
                    role@,
                    text@,
                    crate::events::view_opt_str(*thread_hint),
                    fresh@,
                );
                assert(rt.deep_view() =~~= step.0);
                assert(out.deep_view() =~~= step.1);
            }
            out
        },
    }
}

fn on_reasoning(
    rt: &mut BridgeRuntime,
    run_id: &String,
    raw_item_id: &String,
    delta: &String,
    thread_hint: &Option<String>,
    fresh: String,
) -> (out: Vec<Notification>)
    requires
        old(rt).wf(),
    ensures
        final(rt).wf(),
        ({
            let step = reasoning_spec(
                old(rt).deep_view(),
                run_id@,
                raw_item_id@,
                delta@,
                crate::events::view_opt_str(*thread_hint),
                fresh@,
            );
            final(rt).deep_view() == step.0 && out.deep_view() == step.1
        }),
{
    let mut out: Vec<Notification> = Vec::new();
    assert(out.deep_view() =~= Seq::<NotifView>::empty());
    if run_id.as_str().is_empty() || raw_item_id.as_str().is_empty()
        || delta.as_str().is_empty() {
        return out;
    }
    let split = split_summary(raw_item_id);
    let item_id = split.0;
    let idx = split.1;
    let ctx = rt.run_context(run_id, as_hint(thread_hint), fresh);
    match ctx {
        None => out,
        Some(pair) => {
            let tid = pair.0;
            let turn = pair.1;
            let payload = ItemPayload::Reasoning { id: item_id.clone() };
            let started_new = rt.mark_item_started(run_id, &item_id, clone_payload(&payload));
            if started_new {
                out.push(
                    Notification::ItemStarted {
                        thread_id: tid.clone(),
                        turn_id: turn.clone(),
                        item: clone_payload(&payload),
                    },
                );
            }
            out.push(
                Notification::ReasoningSummaryDelta {
                    thread_id: tid,
                    turn_id: turn,
                    item_id: item_id.clone(),
                    summary_index: idx,
                    delta: delta.clone(),
                },
            );
            proof {
                let step = reasoning_spec(
                    old(rt).deep_view(),
                    run_id@,
                    raw_item_id@,
                    delta@,
                    crate::events::view_opt_str(*thread_hint),
                    fresh@,
                );
                assert(rt.deep_view() =~~= step.0);
                assert(out.deep_view() =~~= step.1);
            }
            out
        },
    }
}

fn on_command(
    rt: &mut BridgeRuntime,
    run_id: &String,
    item_id: &String,
    command: &String,
    status_raw: &Option<String>,
    exit_code: Option<i64>,
    output: &Option<String>,
    thread_hint: &Option<String>,
    fresh: String,
) -> (out: Vec<Notification>)
    requires
        old(rt).wf(),
    ensures
        final(rt).wf(),
        ({
            let step = command_spec(
                old(rt).deep_view(),
                run_id@,
                item_id@,
                command@,
                crate::events::view_opt_str(*status_raw),
                exit_code,
                crate::events::view_opt_str(*output),
                crate::events::view_opt_str(*thread_hint),
                fresh@,
            );
            final(rt).deep_view() == step.0 && out.deep_view() == step.1
        }),
{
    let mut out: Vec<Notification> = Vec::new();
    assert(out.deep_view() =~= Seq::<NotifView>::empty());
    if run_id.as_str().is_empty() || item_id.as_str().is_empty() || command.as_str().is_empty() {
        return out;
    }
    let status = match status_raw {
        Some(s) => s.clone(),
        None => String::from_str("inProgress"),
    };
    let ctx = rt.run_context(run_id, as_hint(thread_hint), fresh);
    match ctx {
        None => out,
        Some(pair) => {
            let tid = pair.0;
            let turn = pair.1;
            let payload = ItemPayload::CommandExecution {
                id: item_id.clone(),
                command: Some(command.clone()),
                status: status.clone(),
                exit_code: exit_code,
                output: clone_opt(output),
            };
            let started_new = rt.mark_item_started(run_id, item_id, clone_payload(&payload));
            if started_new {
                out.push(
                    Notification::ItemStarted {
                        thread_id: tid.clone(),
                        turn_id: turn.clone(),
                        item: clone_payload(&payload),
                    },
                );
            }
            match output {
                Some(o) => {
                    if !o.as_str().is_empty() {
                        out.push(
                            Notification::CommandOutputDelta {
                                thread_id: tid.clone(),
                                turn_id: turn.clone(),
                                item_id: item_id.clone(),
                                delta: o.clone(),
                            },
                        );
                    }
                },
                None => {},
            }
            if is_terminal(&status) {
                let completed_new = rt.mark_item_completed(
                    run_id,
                    item_id,
                    clone_payload(&payload),
                );
                if completed_new {
                    out.push(
                        Notification::ItemCompleted {
                            thread_id: tid.clone(),
                            turn_id: turn.clone(),
                            item: clone_payload(&payload),
                        },
                    );
                }
            }
            proof {
                let step = command_spec(
                    old(rt).deep_view(),
                    run_id@,
                    item_id@,
                    command@,
                    crate::events::view_opt_str(*status_raw),
                    exit_code,
                    crate::events::view_opt_str(*output),
                    crate::events::view_opt_str(*thread_hint),
                    fresh@,
                );
                assert(rt.deep_view() =~~= step.0);
                assert(out.deep_view() =~~= step.1);
            }
            out
        },
    }
}

fn on_command_output_delta(
    rt: &mut BridgeRuntime,
    run_id: &String,
    item_id: &String,
    delta: &String,
    thread_hint: &Option<String>,
    fresh: String,
) -> (out: Vec<Notification>)
    requires
        old(rt).wf(),
    ensures
        final(rt).wf(),
        ({
            let step = command_output_delta_spec(
                old(rt).deep_view(),
                run_id@,
                item_id@,
                delta@,
                crate::events::view_opt_str(*thread_hint),
                fresh@,
            );
            final(rt).deep_view() == step.0 && out.deep_view() == step.1
        }),
{
    let mut out: Vec<Notification> = Vec::new();
    assert(out.deep_view() =~= Seq::<NotifView>::empty());
    if run_id.as_str().is_empty() || item_id.as_str().is_empty() || delta.as_str().is_empty() {
        return out;
    }
    let ctx = rt.run_context(run_id, as_hint(thread_hint), fresh);
    match ctx {
        None => out,
        Some(pair) => {
            let tid = pair.0;
            let turn = pair.1;
            let payload = ItemPayload::CommandExecution {
                id: item_id.clone(),
                command: None,
                status: String::from_str("inProgress"),
                exit_code: None,
                output: None,
            };
            let started_new = rt.mark_item_started(run_id, item_id, clone_payload(&payload));
            if started_new {
                out.push(
                    Notification::ItemStarted {
                        thread_id: tid.clone(),
                        turn_id: turn.clone(),
                        item: clone_payload(&payload),
                    },
                );
            }
            out.push(
                Notification::CommandOutputDelta {
                    thread_id: tid,
                    turn_id: turn,
                    item_id: item_id.clone(),
                    delta: delta.clone(),
                },
            );
            proof {
                let step = command_output_delta_spec(
                    old(rt).deep_view(),
                    run_id@,
                    item_id@,
                    delta@,
                    crate::events::view_opt_str(*thread_hint),
                    fresh@,
                );
                assert(rt.deep_view() =~~= step.0);
                assert(out.deep_view() =~~= step.1);
            }
            out
        },
    }
}

fn on_approval_requested(
    rt: &mut BridgeRuntime,
    request_raw: &String,
    run_raw: &String,
    kind: &String,
) -> (out: Vec<Notification>)
    requires
        old(rt).wf(),
    ensures
        final(rt).wf(),
        ({
            let step = approval_requested_spec(old(rt).deep_view(), request_raw@, run_raw@, kind@);
            final(rt).deep_view() == step.0 && out.deep_view() == step.1
        }),
{
    let mut out: Vec<Notification> = Vec::new();
    assert(out.deep_view() =~= Seq::<NotifView>::empty());
    let rid = crate::chars::trim_spaces(request_raw);
    let run = crate::chars::trim_spaces(run_raw);
    if rid.as_str().is_empty() {
        return out;
    }
    if !run.as_str().is_empty() {
        rt.record_approval(&rid, &run);
    }
    let file_change = String::from_str("fileChange");
    let kind_v = if crate::chars::eq_ignore_ascii_case(kind, &file_change) {
        ApprovalKind::FileChange
    } else {
        ApprovalKind::CommandExecution
    };
    out.push(Notification::ApprovalRequest { request_id: rid, kind: kind_v });
    proof {
        let step = approval_requested_spec(old(rt).deep_view(), request_raw@, run_raw@, kind@);
        assert(rt.deep_view() =~~= step.0);
        assert(out.deep_view() =~~= step.1);
    }
    out
}

fn on_run_finished(
    rt: &mut BridgeRuntime,
    run_id: &String,
    status: TurnStatus,
    error_message: &Option<String>,
) -> (out: Vec<Notification>)
    requires
        old(rt).wf(),
    ensures
        final(rt).wf(),
        ({
            let step = run_finished_spec(
                old(rt).deep_view(),
                run_id@,
                status,
                crate::events::view_opt_str(*error_message),
            );
            final(rt).deep_view() == step.0 && out.deep_view() == step.1
        }),
{
    let mut out: Vec<Notification> = Vec::new();
    assert(out.deep_view() =~= Seq::<NotifView>::empty());
    if run_id.as_str().is_empty() {
        return out;
    }
    match rt.finish(run_id) {
        None => out,
        Some(run) => {
            let ghost rv = run.deep_view();
            if run.thread_id.as_str().is_empty() || run.turn_id.as_str().is_empty() {
                return out;
            }
            let n = run.started_items.len();
            let mut i: usize = 0;
            while i < n
                invariant
                    n == run.started_items@.len(),
                    i <= n,
                    rv == run.deep_view(),
                    crate::runtime::run_wf(run),
                    out.deep_view() =~= sweep_notifs(rv, i as int),
                decreases n - i,
            {
                let it = &run.started_items[i];
                assert(it@ == rv.started[i as int]);
                let done = crate::assoc::vec_contains_str(&run.completed_items, it);
                if !done {
                    proof {
                        lemma_assoc_contains::<ItemPayload>(run.item_payloads@, it@);
                    }
                    match crate::assoc::assoc_find(&run.item_payloads, it) {
                        Some(j) => {
                            proof {
                                lemma_assoc_get::<ItemPayload>(run.item_payloads@, j as int);
                            }
                            out.push(
                                Notification::ItemCompleted {
                                    thread_id: run.thread_id.clone(),
                                    turn_id: run.turn_id.clone(),
                                    item: clone_payload(&run.item_payloads[j].1),
                                },
                            );
                            assert(out.deep_view() =~= sweep_notifs(rv, i + 1 as int));
                        },
                        None => {
                            assert(!rv.payloads.contains_key(it@));
                        },
                    }
                }
                i = i + 1;
            }
            out.push(
                Notification::TurnCompleted {
                    thread_id: run.thread_id.clone(),
                    turn_id: run.turn_id.clone(),
                    status: status,
                    error_message: clone_opt(error_message),
                },
            );
            proof {
                let step = run_finished_spec(
                    old(rt).deep_view(),
                    run_id@,
                    status,
                    crate::events::view_opt_str(*error_message),
                );
                assert(rt.deep_view() =~~= step.0);
                assert(out.deep_view() =~~= step.1);
            }
            out
        },
    }
}

fn on_run_rejected(
    rt: &mut BridgeRuntime,
    thread_raw: &String,
    reason: &Option<String>,
    fresh: String,
) -> (out: Vec<Notification>)
    requires
        old(rt).wf(),
    ensures
        final(rt).wf(),
        ({
            let step = run_rejected_spec(
                old(rt).deep_view(),
                thread_raw@,
                crate::events::view_opt_str(*reason),
                fresh@,
            );
            final(rt).deep_view() == step.0 && out.deep_view() == step.1
        }),
{
    let mut out: Vec<Notification> = Vec::new();
    assert(out.deep_view() =~= Seq::<NotifView>::empty());
    let tid = crate::chars::trim_spaces(thread_raw);
    if tid.as_str().is_empty() {
        return out;
    }
    let turn = rt.pop_pending_turn(&tid, fresh);
    let msg = match reason {
        Some(m) => m.clone(),
        None => String::from_str("Run rejected"),
    };
    out.push(
        Notification::TurnCompleted {
            thread_id: tid,
            turn_id: turn,
            status: TurnStatus::Failed,
            error_message: Some(msg),
        },
    );
    proof {
        let step = run_rejected_spec(
            old(rt).deep_view(),
            thread_raw@,
            crate::events::view_opt_str(*reason),
            fresh@,
        );
        assert(rt.deep_view() =~~= step.0);
        assert(out.deep_view() =~~= step.1);
    }
    out
}

/// Translates one backend event deterministically: `fresh_turn_id` is used
/// wherever a turn id must be synthesized, `now` wherever the current time
/// is stamped. The returned notifications are emitted in order.
pub fn apply_event(
    rt: &mut BridgeRuntime,
    event: &BridgeEvent,
    fresh_turn_id: String,
    now: i64,
) -> (out: Vec<Notification>)
    requires
        old(rt).wf(),
    ensures
        final(rt).wf(),
        ({
            let step = step_spec(old(rt).deep_view(), event.deep_view(), fresh_turn_id@, now);
            final(rt).deep_view() == step.0 && out.deep_view() == step.1
        }),
{
    match event {
        BridgeEvent::SessionCreated { run_id, session_id } => on_session_created(
            rt,
            run_id,
            session_id,
            now,
        ),
        BridgeEvent::RunStarted { run_id, thread_id } => on_run_started(
            rt,
            run_id,
            thread_id,
            fresh_turn_id,
        ),
        BridgeEvent::TurnStarted { run_id, thread_id, turn_id } => on_turn_started(
            rt,
            run_id,
            thread_id,
            turn_id,
        ),
        BridgeEvent::MessageDelta { run_id, item_id, delta, thread_hint } => on_message_delta(
            rt,
            run_id,
            item_id,
            delta,
            thread_hint,
            fresh_turn_id,
        ),
        BridgeEvent::Message { run_id, role, text, thread_hint } => on_message(
            rt,
            run_id,
            role,
            text,
            thread_hint,
            fresh_turn_id,
        ),
        BridgeEvent::ReasoningDelta { run_id, item_id, delta, thread_hint } => on_reasoning(
            rt,
            run_id,
            item_id,
            delta,
            thread_hint,
            fresh_turn_id,
        ),
        BridgeEvent::Reasoning { run_id, item_id, text, thread_hint } => on_reasoning(
            rt,
            run_id,
            item_id,
            text,
            thread_hint,
            fresh_turn_id,
        ),
        BridgeEvent::Command {
            run_id,
            item_id,
            command,
            status,
            exit_code,
            output,
            thread_hint,
        } => on_command(
            rt,
            run_id,
            item_id,
            command,
            status,
            *exit_code,
            output,
            thread_hint,
            fresh_turn_id,
        ),
        BridgeEvent::CommandOutputDelta { run_id, item_id, delta, thread_hint } => {
            on_command_output_delta(rt, run_id, item_id, delta, thread_hint, fresh_turn_id)
        },
        BridgeEvent::ApprovalRequested { request_id, run_id, kind } => on_approval_requested(
            rt,
            request_id,
            run_id,
            kind,
        ),
        BridgeEvent::RunCompleted { run_id } => on_run_finished(
            rt,
            run_id,
            TurnStatus::Completed,
            &None,
        ),
        BridgeEvent::RunFailed { run_id, message } => on_run_finished(
            rt,
            run_id,
            TurnStatus::Failed,
            message,
        ),
        BridgeEvent::RunCanceled { run_id } => on_run_finished(
            rt,
            run_id,
            TurnStatus::Interrupted,
            &None,
        ),
        BridgeEvent::RunRejected { thread_id, reason } => on_run_rejected(
            rt,
            thread_id,
            reason,
            fresh_turn_id,
        ),
        BridgeEvent::Unknown => {
            let out: Vec<Notification> = Vec::new();
            assert(out.deep_view() =~= Seq::<NotifView>::empty());
            out
        },
    }
}

/// Translates one backend event, drawing the fresh id and the timestamp
/// itself; whichever values came back, the result is one `step_spec`
/// transition from the old state.
pub fn handle_event(rt: &mut BridgeRuntime, event: &BridgeEvent) -> (out: Vec<Notification>)
    requires
        old(rt).wf(),
    ensures
        final(rt).wf(),
        exists|fresh: Seq<char>, t: i64|
            final(rt).deep_view() == step_spec(old(rt).deep_view(), event.deep_view(), fresh, t).0
                && out.deep_view() == #[trigger] step_spec(
                old(rt).deep_view(),
                event.deep_view(),
                fresh,
                t,
            ).1,
{
    let fresh = crate::ids::new_unique_id();
    let now = crate::ids::now_unix_seconds();
    let ghost f = fresh@;
    let out = apply_event(rt, event, fresh, now);
    proof {
        assert(final(rt).deep_view() == step_spec(old(rt).deep_view(), event.deep_view(), f, now).0
            && out.deep_view() == step_spec(old(rt).deep_view(), event.deep_view(), f, now).1);
    }
    out
}

/// The outbound command a UI approval decision produces.
pub struct ApprovalResponse {
    pub run_id: String,
    pub request_id: String,
    pub decision: String,
}

/// What resolving a UI decision yields: the correlated run id, or the
/// caller's trimmed nonempty hint as fallback; an empty trimmed decision
/// falls back to decline; no target run means no command at all.
pub open spec fn respond_spec(
    st: RuntimeView,
    request_id: Seq<char>,
    decision_raw: Option<Seq<char>>,
    hint: Option<Seq<char>>,
) -> (RuntimeView, Option<(Seq<char>, Seq<char>, Seq<char>)>) {
    if trim_spec(request_id).len() == 0 {
        (st, None)
    } else {
        let decision = match decision_raw {
            Some(d) => if trim_spec(d).len() > 0 {
                trim_spec(d)
            } else {
                "decline"@
            },
            None => "decline"@,
        };
        if st.approvals.contains_key(request_id) {
            (
                with_approvals(st, st.approvals.remove(request_id)),
                Some((st.approvals[request_id], request_id, decision)),
            )
        } else {
            match hint {
                Some(h) => if trim_spec(h).len() > 0 {
                    (st, Some((trim_spec(h), request_id, decision)))
                } else {
                    (st, None)
                },
                None => (st, None),
            }
        }
    }
}

/// Routes a UI approval decision to its run: consumes the recorded
/// correlation (at most once per request id), falls back to the caller's
/// run id hint, and yields the command to send, or nothing when no target
/// run can be determined.
pub fn respond_to_approval(
    rt: &mut BridgeRuntime,
    request_id: &String,
    decision_raw: Option<&String>,
    run_id_hint: Option<&String>,
) -> (r: Option<ApprovalResponse>)
    requires
        old(rt).wf(),
    ensures
        final(rt).wf(),
        ({
            let d = match decision_raw {
                Some(x) => Some(x@),
                None => None,
            };
            let h = match run_id_hint {
                Some(x) => Some(x@),
                None => None,
            };
            let step = respond_spec(old(rt).deep_view(), request_id@, d, h);
            &&& final(rt).deep_view() == step.0
            &&& (match r {
                Some(resp) => step.1 == Some((resp.run_id@, resp.request_id@, resp.decision@)),
                None => step.1 is None,
            })
        }),
{
    let trimmed = crate::chars::trim_spaces(request_id);
    if trimmed.as_str().is_empty() {
        return None;
    }
    let decision = match decision_raw {
        Some(d) => {
            let t = crate::chars::trim_spaces(d);
            if !t.as_str().is_empty() {
                t
            } else {
                String::from_str("decline")
            }
        },
        None => String::from_str("decline"),
    };
    match rt.resolve_approval(request_id) {
        Some(run) => Some(
            ApprovalResponse { run_id: run, request_id: request_id.clone(), decision },
        ),
        None => {
            match run_id_hint {
                Some(h) => {
                    let t = crate::chars::trim_spaces(h);
                    if !t.as_str().is_empty() {
                        Some(
                            ApprovalResponse {
                                run_id: t,
                                request_id: request_id.clone(),
                                decision,
                            },
                        )
                    } else {
                        None
                    }
                },
                None => None,
            }
        },
    }
}

} // verus!
