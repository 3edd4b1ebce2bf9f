//! Laws of the runtime, stated and proved over the specification-level
//! state machine.

use vstd::prelude::*;
use crate::chars::trim_spec;
use crate::events::{EventView, NotifView, PayloadView};
use crate::runtime::{get_run, mark_started_spec, pop_pending_spec, RunView, RuntimeView};
use crate::translate::{approval_requested_spec, respond_spec, run_started_spec, step_spec, sweep_notifs};

verus! {

/// The item id a payload renders.
pub open spec fn payload_id(p: PayloadView) -> Seq<char> {
    match p {
        PayloadView::AgentMessage { id } => id,
        PayloadView::Reasoning { id } => id,
        PayloadView::CommandExecution { id, .. } => id,
    }
}

/// Whether a notification starts the item with this id.
pub open spec fn is_start_of(n: NotifView, item: Seq<char>) -> bool {
    &&& n is ItemStarted
    &&& payload_id(n->ItemStarted_item) == item
}

/// Whether a notification completes the item with this id.
pub open spec fn is_completion_of(n: NotifView, item: Seq<char>) -> bool {
    &&& n is ItemCompleted
    &&& payload_id(n->ItemCompleted_item) == item
}

/// Whether some notification in the sequence starts this item.
pub open spec fn has_start(out: Seq<NotifView>, item: Seq<char>) -> bool {
    exists|i: int| 0 <= i < out.len() && is_start_of(out[i], item)
}

/// The ordering law on a notification sequence: a completion for an item id
/// is always preceded by a start for that id.
pub open spec fn completion_after_start(out: Seq<NotifView>) -> bool {
    forall|j: int, item: Seq<char>|
        0 <= j < out.len() && #[trigger] is_completion_of(out[j], item) ==> has_start(
            out.subrange(0, j),
            item,
        )
}

/// Every item started in the tracked state already received its start
/// notification.
pub open spec fn started_covered(st: RuntimeView, out: Seq<NotifView>) -> bool {
    forall|k: Seq<char>, item: Seq<char>|
        st.runs.contains_key(k) && #[trigger] st.runs[k].started.contains(item) ==> has_start(
            out,
            item,
        )
}

/// Every cached payload renders the item it is cached under.
pub open spec fn payloads_tagged(st: RuntimeView) -> bool {
    forall|k: Seq<char>, item: Seq<char>|
        st.runs.contains_key(k) && #[trigger] st.runs[k].payloads.contains_key(item)
            ==> payload_id(st.runs[k].payloads[item]) == item
}

/// The translator's invariant between the state and the notifications
/// emitted so far.
pub open spec fn translator_inv(st: RuntimeView, out: Seq<NotifView>) -> bool {
    started_covered(st, out) && payloads_tagged(st) && completion_after_start(out)
}

proof fn lemma_has_start_mono(out: Seq<NotifView>, ext: Seq<NotifView>, item: Seq<char>)
    requires
        has_start(out, item),
    ensures
        has_start(out + ext, item),
{
    let i = choose|i: int| 0 <= i < out.len() && is_start_of(out[i], item);
    assert((out + ext)[i] == out[i]);
}

proof fn lemma_covered_mono(st: RuntimeView, out: Seq<NotifView>, ext: Seq<NotifView>)
    requires
        started_covered(st, out),
    ensures
        started_covered(st, out + ext),
{
    assert forall|k: Seq<char>, item: Seq<char>|
        st.runs.contains_key(k) && #[trigger] st.runs[k].started.contains(item) implies has_start(
        out + ext,
        item,
    ) by {
        lemma_has_start_mono(out, ext, item);
    }
}

proof fn lemma_cas_append(out: Seq<NotifView>, ext: Seq<NotifView>)
    requires
        completion_after_start(out),
        forall|j: int, item: Seq<char>|
            0 <= j < ext.len() && #[trigger] is_completion_of(ext[j], item) ==> (has_start(
                out,
                item,
            ) || exists|i: int| 0 <= i < j && is_start_of(ext[i], item)),
    ensures
        completion_after_start(out + ext),
{
    let whole = out + ext;
    assert forall|j: int, item: Seq<char>|
        0 <= j < whole.len() && #[trigger] is_completion_of(whole[j], item) implies has_start(
        whole.subrange(0, j),
        item,
    ) by {
        if j < out.len() {
            assert(whole[j] == out[j]);
            assert(has_start(out.subrange(0, j), item));
            let i = choose|i: int|
                0 <= i < out.subrange(0, j).len() && is_start_of(out.subrange(0, j)[i], item);
            assert(whole.subrange(0, j)[i] == out[i]);
        } else {
            let jj = j - out.len();
            assert(whole[j] == ext[jj]);
            if has_start(out, item) {
                let i = choose|i: int| 0 <= i < out.len() && is_start_of(out[i], item);
                assert(whole.subrange(0, j)[i] == out[i]);
            } else {
                let i = choose|i: int| 0 <= i < jj && is_start_of(ext[i], item);
                assert(whole.subrange(0, j)[out.len() + i] == ext[i]);
            }
        }
    }
}

proof fn lemma_get_run_inv(st: RuntimeView, out: Seq<NotifView>, run_id: Seq<char>)
    requires
        started_covered(st, out),
        payloads_tagged(st),
    ensures
        forall|item: Seq<char>|
            #[trigger] get_run(st, run_id).started.contains(item) ==> has_start(out, item),
        forall|item: Seq<char>|
            #[trigger] get_run(st, run_id).payloads.contains_key(item) ==> payload_id(
                get_run(st, run_id).payloads[item],
            ) == item,
{
    if !st.runs.contains_key(run_id) {
        assert(forall|item: Seq<char>| !get_run(st, run_id).started.contains(item));
        assert(forall|item: Seq<char>| !get_run(st, run_id).payloads.contains_key(item));
    }
}

proof fn lemma_insert_preserves(
    st: RuntimeView,
    st2: RuntimeView,
    out: Seq<NotifView>,
    run_id: Seq<char>,
    r: RunView,
)
    requires
        started_covered(st, out),
        payloads_tagged(st),
        st2.runs == st.runs.insert(run_id, r),
        forall|item: Seq<char>| #[trigger] r.started.contains(item) ==> has_start(out, item),
        forall|item: Seq<char>|
            #[trigger] r.payloads.contains_key(item) ==> payload_id(r.payloads[item]) == item,
    ensures
        started_covered(st2, out),
        payloads_tagged(st2),
{
    assert forall|k: Seq<char>, item: Seq<char>|
        st2.runs.contains_key(k) && #[trigger] st2.runs[k].started.contains(item) implies has_start(
        out,
        item,
    ) by {
        if k != run_id {
            assert(st.runs.contains_key(k) && st.runs[k] == st2.runs[k]);
        }
    }
    assert forall|k: Seq<char>, item: Seq<char>|
        st2.runs.contains_key(k) && #[trigger] st2.runs[k].payloads.contains_key(
        item,
    ) implies payload_id(st2.runs[k].payloads[item]) == item by {
        if k != run_id {
            assert(st.runs.contains_key(k) && st.runs[k] == st2.runs[k]);
        }
    }
}

proof fn lemma_same_runs_preserves(st: RuntimeView, st2: RuntimeView, out: Seq<NotifView>)
    requires
        started_covered(st, out),
        payloads_tagged(st),
        st2.runs == st.runs,
    ensures
        started_covered(st2, out),
        payloads_tagged(st2),
{
}

proof fn lemma_remove_preserves(st: RuntimeView, st2: RuntimeView, out: Seq<NotifView>, run_id: Seq<char>)
    requires
        started_covered(st, out),
        payloads_tagged(st),
        st2.runs == st.runs.remove(run_id),
    ensures
        started_covered(st2, out),
        payloads_tagged(st2),
{
    assert forall|k: Seq<char>, item: Seq<char>|
        st2.runs.contains_key(k) && #[trigger] st2.runs[k].started.contains(item) implies has_start(
        out,
        item,
    ) by {
        assert(st.runs.contains_key(k) && st.runs[k] == st2.runs[k]);
    }
    assert forall|k: Seq<char>, item: Seq<char>|
        st2.runs.contains_key(k) && #[trigger] st2.runs[k].payloads.contains_key(
        item,
    ) implies payload_id(st2.runs[k].payloads[item]) == item by {
        assert(st.runs.contains_key(k) && st.runs[k] == st2.runs[k]);
    }
}

proof fn lemma_sweep_elems(r: RunView, n: int)
    requires
        0 <= n <= r.started.len(),
    ensures
        forall|j: int|
            0 <= j < sweep_notifs(r, n).len() ==> exists|m: int|
                0 <= m < n && r.payloads.contains_key(r.started[m])
                    && #[trigger] sweep_notifs(r, n)[j] == (NotifView::ItemCompleted {
                    thread_id: r.thread_id,
                    turn_id: r.turn_id,
                    item: r.payloads[r.started[m]],
                }),
    decreases n,
{
    if n > 0 {
        lemma_sweep_elems(r, n - 1);
        let prev = sweep_notifs(r, n - 1);
        let it = r.started[n - 1];
        if !r.completed.contains(it) && r.payloads.contains_key(it) {
            assert forall|j: int| 0 <= j < sweep_notifs(r, n).len() implies exists|m: int|
                0 <= m < n && r.payloads.contains_key(r.started[m]) && #[trigger] sweep_notifs(
                r,
                n,
            )[j] == (NotifView::ItemCompleted {
                thread_id: r.thread_id,
                turn_id: r.turn_id,
                item: r.payloads[r.started[m]],
            }) by {
                if j < prev.len() {
                    assert(sweep_notifs(r, n)[j] == prev[j]);
                } else {
                    assert(sweep_notifs(r, n)[j] == (NotifView::ItemCompleted {
                        thread_id: r.thread_id,
                        turn_id: r.turn_id,
                        item: r.payloads[r.started[n - 1]],
                    }));
                }
            }
        }
    }
}

proof fn lemma_ctx_inv(
    st: RuntimeView,
    out: Seq<NotifView>,
    run_id: Seq<char>,
    hint: Option<Seq<char>>,
    fresh: Seq<char>,
)
    requires
        started_covered(st, out),
        payloads_tagged(st),
    ensures
        started_covered(crate::runtime::ctx_spec(st, run_id, hint, fresh).0, out),
        payloads_tagged(crate::runtime::ctx_spec(st, run_id, hint, fresh).0),
        get_run(crate::runtime::ctx_spec(st, run_id, hint, fresh).0, run_id).started == get_run(
            st,
            run_id,
        ).started,
        get_run(crate::runtime::ctx_spec(st, run_id, hint, fresh).0, run_id).payloads == get_run(
            st,
            run_id,
        ).payloads,
{
    let ctx = crate::runtime::ctx_spec(st, run_id, hint, fresh);
    lemma_get_run_inv(st, out, run_id);
    let r2 = choose|r2: RunView| ctx.0.runs == st.runs.insert(run_id, r2);
    assert(exists|r2: RunView| ctx.0.runs == st.runs.insert(run_id, r2)) by {
        let r0 = get_run(st, run_id);
        if r0.thread_id.len() == 0 {
            match hint {
                Some(h) => {
                    if trim_spec(h).len() > 0 {
                    }
                },
                None => {},
            }
        }
    }
    assert(ctx.0.runs.contains_key(run_id));
    let rr = ctx.0.runs[run_id];
    assert(rr.started == get_run(st, run_id).started && rr.payloads == get_run(
        st,
        run_id,
    ).payloads);
    lemma_insert_preserves(st, ctx.0, out, run_id, rr);
}

proof fn lemma_marked_insert(
    stc: RuntimeView,
    out: Seq<NotifView>,
    ext: Seq<NotifView>,
    run_id: Seq<char>,
    item: Seq<char>,
    payload: PayloadView,
    rfinal: RunView,
)
    requires
        started_covered(stc, out),
        payloads_tagged(stc),
        completion_after_start(out),
        payload_id(payload) == item,
        rfinal.started == mark_started_spec(get_run(stc, run_id), item, payload).0.started,
        rfinal.payloads == mark_started_spec(get_run(stc, run_id), item, payload).0.payloads,
        mark_started_spec(get_run(stc, run_id), item, payload).1 ==> (exists|i: int|
            0 <= i < ext.len() && is_start_of(ext[i], item)),
        forall|j: int, it: Seq<char>|
            0 <= j < ext.len() ==> !#[trigger] is_completion_of(ext[j], it),
    ensures
        translator_inv(
            crate::runtime::with_runs(stc, stc.runs.insert(run_id, rfinal)),
            out + ext,
        ),
{
    lemma_get_run_inv(stc, out, run_id);
    lemma_covered_mono(stc, out, ext);
    let r1 = get_run(stc, run_id);
    let marked = mark_started_spec(r1, item, payload);
    assert forall|it: Seq<char>| #[trigger] rfinal.started.contains(it) implies has_start(
        out + ext,
        it,
    ) by {
        if marked.1 {
            let idx = choose|idx: int| 0 <= idx < rfinal.started.len() && rfinal.started[idx] == it;
            if idx == r1.started.len() {
                assert(it == item);
                let i = choose|i: int| 0 <= i < ext.len() && is_start_of(ext[i], item);
                assert((out + ext)[out.len() + i] == ext[i]);
            } else {
                assert(r1.started.contains(it));
                lemma_has_start_mono(out, ext, it);
            }
        } else {
            assert(r1.started.contains(it));
            lemma_has_start_mono(out, ext, it);
        }
    }
    assert forall|it: Seq<char>| #[trigger] rfinal.payloads.contains_key(it) implies payload_id(
        rfinal.payloads[it],
    ) == it by {
        if marked.1 {
            if it != item {
                assert(r1.payloads.contains_key(it));
            }
        } else {
            assert(r1.payloads.contains_key(it));
        }
    }
    let st2 = crate::runtime::with_runs(stc, stc.runs.insert(run_id, rfinal));
    lemma_insert_preserves(stc, st2, out + ext, run_id, rfinal);
    lemma_cas_append(out, ext);
}

proof fn lemma_rebind_insert(
    st: RuntimeView,
    st2: RuntimeView,
    out: Seq<NotifView>,
    run_id: Seq<char>,
    r: RunView,
)
    requires
        started_covered(st, out),
        payloads_tagged(st),
        st2.runs == st.runs.insert(run_id, r),
        r.started == get_run(st, run_id).started,
        r.payloads == get_run(st, run_id).payloads,
    ensures
        started_covered(st2, out),
        payloads_tagged(st2),
{
    lemma_get_run_inv(st, out, run_id);
    lemma_insert_preserves(st, st2, out, run_id, r);
}

proof fn lemma_step_inv(st: RuntimeView, ev: EventView, fresh: Seq<char>, now: i64, out: Seq<NotifView>)
    requires
        translator_inv(st, out),
    ensures
        ({
            let step = step_spec(st, ev, fresh, now);
            translator_inv(step.0, out + step.1)
        }),
{
    let step = step_spec(st, ev, fresh, now);
    assert(out + Seq::<NotifView>::empty() =~= out);
    match ev {
        EventView::SessionCreated { run_id, session_id } => {
            let sid = trim_spec(session_id);
            if run_id.len() == 0 || sid.len() == 0 {
            } else {
                let ext = step.1;
                lemma_covered_mono(st, out, ext);
                assert(step.0.runs.contains_key(run_id));
                lemma_rebind_insert(st, step.0, out + ext, run_id, step.0.runs[run_id]);
                assert forall|j: int, it: Seq<char>|
                    0 <= j < ext.len() implies !#[trigger] is_completion_of(ext[j], it) by {
                    assert(ext[0] is ThreadStarted);
                }
                lemma_cas_append(out, ext);
            }
        },
        EventView::RunStarted { run_id, thread_id } => {
            let tid = trim_spec(thread_id);
            if run_id.len() == 0 || tid.len() == 0 {
            } else {
                let popped = pop_pending_spec(st, tid, fresh);
                let ext = step.1;
                lemma_covered_mono(st, out, ext);
                assert(popped.0.runs == st.runs);
                assert(step.0.runs.contains_key(run_id));
                assert(get_run(popped.0, run_id) == get_run(st, run_id));
                lemma_rebind_insert(st, step.0, out + ext, run_id, step.0.runs[run_id]);
                assert forall|j: int, it: Seq<char>|
                    0 <= j < ext.len() implies !#[trigger] is_completion_of(ext[j], it) by {
                    assert(ext[0] is TurnStarted);
                }
                lemma_cas_append(out, ext);
            }
        },
        EventView::TurnStarted { run_id, thread_id, turn_id } => {
            let tid = trim_spec(thread_id);
            let tn = trim_spec(turn_id);
            if run_id.len() == 0 || tid.len() == 0 || tn.len() == 0 {
            } else {
                let ext = step.1;
                lemma_covered_mono(st, out, ext);
                assert(step.0.runs.contains_key(run_id));
                lemma_rebind_insert(st, step.0, out + ext, run_id, step.0.runs[run_id]);
                assert forall|j: int, it: Seq<char>|
                    0 <= j < ext.len() implies !#[trigger] is_completion_of(ext[j], it) by {
                    assert(ext[j] is TurnStarted);
                }
                lemma_cas_append(out, ext);
            }
        },
        EventView::MessageDelta { run_id, item_id, delta, thread_hint } => {
            if run_id.len() == 0 || item_id.len() == 0 || delta.len() == 0 {
            } else {
                let ctx = crate::runtime::ctx_spec(st, run_id, thread_hint, fresh);
                lemma_ctx_inv(st, out, run_id, thread_hint, fresh);
                match ctx.1 {
                    None => {
                        assert(translator_inv(step.0, out + step.1));
                    },
                    Some(pair) => {
                        let payload = PayloadView::AgentMessage { id: item_id };
                        let r1 = get_run(ctx.0, run_id);
                        let marked = mark_started_spec(r1, item_id, payload);
                        let rfinal = RunView {
                            assistant_item_id: Some(item_id),
                            assistant_delta_seen: true,
                            ..marked.0
                        };
                        let ext = step.1;
                        if marked.1 {
                            assert(is_start_of(ext[0], item_id));
                        }
                        assert forall|j: int, it: Seq<char>|
                            0 <= j < ext.len() implies !#[trigger] is_completion_of(ext[j], it) by {
                            assert(ext[j] is ItemStarted || ext[j] is AgentMessageDelta);
                        }
                        lemma_marked_insert(ctx.0, out, ext, run_id, item_id, payload, rfinal);
                    },
                }
            }
        },
        EventView::Message { run_id, role, text, thread_hint } => {
            if run_id.len() == 0 || crate::chars::to_lower_spec(role) != crate::chars::to_lower_spec(
                "assistant"@,
            ) || text.len() == 0 {
            } else {
                let ctx = crate::runtime::ctx_spec(st, run_id, thread_hint, fresh);
                lemma_ctx_inv(st, out, run_id, thread_hint, fresh);
                match ctx.1 {
                    None => {
                        assert(translator_inv(step.0, out + step.1));
                    },
                    Some(pair) => {
                        let r1 = get_run(ctx.0, run_id);
                        let item_id = match r1.assistant_item_id {
                            Some(x) => x,
                            None => "assistant-"@ + run_id,
                        };
                        let payload = PayloadView::AgentMessage { id: item_id };
                        let marked = mark_started_spec(r1, item_id, payload);
                        let ext = step.1;
                        if marked.1 {
                            assert(is_start_of(ext[0], item_id));
                        }
                        assert forall|j: int, it: Seq<char>|
                            0 <= j < ext.len() implies !#[trigger] is_completion_of(ext[j], it) by {
                            assert(ext[j] is ItemStarted || ext[j] is AgentMessageDelta);
                        }
                        lemma_marked_insert(ctx.0, out, ext, run_id, item_id, payload, marked.0);
                    },
                }
            }
        },
        EventView::ReasoningDelta { run_id, item_id, delta, thread_hint } => {
            lemma_reasoning_inv(st, run_id, item_id, delta, thread_hint, fresh, out);
        },
        EventView::Reasoning { run_id, item_id, text, thread_hint } => {
            lemma_reasoning_inv(st, run_id, item_id, text, thread_hint, fresh, out);
        },
        EventView::Command { run_id, item_id, command, status, exit_code, output, thread_hint } => {
            if run_id.len() == 0 || item_id.len() == 0 || command.len() == 0 {
            } else {
                let status_v = match status {
                    Some(s) => s,
                    None => "inProgress"@,
                };
                let ctx = crate::runtime::ctx_spec(st, run_id, thread_hint, fresh);
                lemma_ctx_inv(st, out, run_id, thread_hint, fresh);
                match ctx.1 {
                    None => {
                        assert(translator_inv(step.0, out + step.1));
                    },
                    Some(pair) => {
                        let tid = pair.0;
                        let turn = pair.1;
                        let payload = PayloadView::CommandExecution {
                            id: item_id,
                            command: Some(command),
                            status: status_v,
                            exit_code: exit_code,
                            output: output,
                        };
                        let r1 = get_run(ctx.0, run_id);
                        let marked = mark_started_spec(r1, item_id, payload);
                        let st2 = crate::runtime::with_runs(
                            ctx.0,
                            ctx.0.runs.insert(run_id, marked.0),
                        );
                        let started = if marked.1 {
                            seq![
                                NotifView::ItemStarted {
                                    thread_id: tid,
                                    turn_id: turn,
                                    item: payload,
                                },
                            ]
                        } else {
                            Seq::<NotifView>::empty()
                        };
                        let outs = match output {
                            Some(o) => if o.len() > 0 {
                                seq![
                                    NotifView::CommandOutputDelta {
                                        thread_id: tid,
                                        turn_id: turn,
                                        item_id: item_id,
                                        delta: o,
                                    },
                                ]
                            } else {
                                Seq::<NotifView>::empty()
                            },
                            None => Seq::<NotifView>::empty(),
                        };
                        let ext1 = started + outs;
                        if marked.1 {
                            assert(is_start_of(ext1[0], item_id));
                        }
                        assert forall|j: int, it: Seq<char>|
                            0 <= j < ext1.len() implies !#[trigger] is_completion_of(
                            ext1[j],
                            it,
                        ) by {
                            assert(ext1[j] is ItemStarted || ext1[j] is CommandOutputDelta);
                        }
                        lemma_marked_insert(ctx.0, out, ext1, run_id, item_id, payload, marked.0);
                        if crate::translate::is_terminal_status(status_v) {
                            let completed = crate::runtime::mark_completed_spec(
                                marked.0,
                                item_id,
                                payload,
                            );
                            let st3 = crate::runtime::with_runs(
                                st2,
                                st2.runs.insert(run_id, completed.0),
                            );
                            let comps = if completed.1 {
                                seq![
                                    NotifView::ItemCompleted {
                                        thread_id: tid,
                                        turn_id: turn,
                                        item: payload,
                                    },
                                ]
                            } else {
                                Seq::<NotifView>::empty()
                            };
                            let out1 = out + ext1;
                            // the item is started in st2, so its start is in out1
                            assert(st2.runs.contains_key(run_id) && st2.runs[run_id] == marked.0);
                            assert(marked.0.started.contains(item_id)) by {
                                if marked.1 {
                                    assert(marked.0.started[r1.started.len() as int] == item_id);
                                }
                            }
                            assert(has_start(out1, item_id));
                            lemma_covered_mono(st2, out1, comps);
                            assert forall|it: Seq<char>|
                                #[trigger] completed.0.started.contains(it) implies has_start(
                                out1 + comps,
                                it,
                            ) by {
                                lemma_has_start_mono(out1, comps, it);
                            }
                            assert forall|it: Seq<char>|
                                #[trigger] completed.0.payloads.contains_key(it) implies payload_id(
                                completed.0.payloads[it],
                            ) == it by {
                                if it != item_id {
                                    assert(marked.0.payloads.contains_key(it));
                                }
                            }
                            lemma_insert_preserves(st2, st3, out1 + comps, run_id, completed.0);
                            assert forall|j: int, it: Seq<char>|
                                0 <= j < comps.len() && #[trigger] is_completion_of(
                                comps[j],
                                it,
                            ) implies (has_start(out1, it) || exists|i: int|
                                0 <= i < j && is_start_of(comps[i], it)) by {
                                assert(it == item_id);
                            }
                            lemma_cas_append(out1, comps);
                            assert(out + step.1 =~= out1 + comps);
                            assert(translator_inv(step.0, out + step.1));
                        } else {
                            assert(translator_inv(step.0, out + step.1));
                        }
                    },
                }
            }
        },
        EventView::CommandOutputDelta { run_id, item_id, delta, thread_hint } => {
            if run_id.len() == 0 || item_id.len() == 0 || delta.len() == 0 {
            } else {
                let ctx = crate::runtime::ctx_spec(st, run_id, thread_hint, fresh);
                lemma_ctx_inv(st, out, run_id, thread_hint, fresh);
                match ctx.1 {
                    None => {
                        assert(translator_inv(step.0, out + step.1));
                    },
                    Some(pair) => {
                        let payload = PayloadView::CommandExecution {
                            id: item_id,
                            command: None,
                            status: "inProgress"@,
                            exit_code: None,
                            output: None,
                        };
                        let r1 = get_run(ctx.0, run_id);
                        let marked = mark_started_spec(r1, item_id, payload);
                        let ext = step.1;
                        if marked.1 {
                            assert(is_start_of(ext[0], item_id));
                        }
                        assert forall|j: int, it: Seq<char>|
                            0 <= j < ext.len() implies !#[trigger] is_completion_of(ext[j], it) by {
                            assert(ext[j] is ItemStarted || ext[j] is CommandOutputDelta);
                        }
                        lemma_marked_insert(ctx.0, out, ext, run_id, item_id, payload, marked.0);
                    },
                }
            }
        },
        EventView::ApprovalRequested { request_id, run_id, kind } => {
            let rid = trim_spec(request_id);
            if rid.len() == 0 {
            } else {
                let ext = step.1;
                lemma_covered_mono(st, out, ext);
                lemma_same_runs_preserves(st, step.0, out + ext);
                assert forall|j: int, it: Seq<char>|
                    0 <= j < ext.len() implies !#[trigger] is_completion_of(ext[j], it) by {
                    assert(ext[j] is ApprovalRequest);
                }
                lemma_cas_append(out, ext);
            }
        },
        EventView::RunCompleted { run_id } => {
            lemma_run_finished_inv(st, run_id, crate::events::TurnStatus::Completed, None, out);
        },
        EventView::RunFailed { run_id, message } => {
            lemma_run_finished_inv(st, run_id, crate::events::TurnStatus::Failed, message, out);
        },
        EventView::RunCanceled { run_id } => {
            lemma_run_finished_inv(st, run_id, crate::events::TurnStatus::Interrupted, None, out);
        },
        EventView::RunRejected { thread_id, reason } => {
            let tid = trim_spec(thread_id);
            if tid.len() == 0 {
            } else {
                let ext = step.1;
                lemma_covered_mono(st, out, ext);
                lemma_same_runs_preserves(st, step.0, out + ext);
                assert forall|j: int, it: Seq<char>|
                    0 <= j < ext.len() implies !#[trigger] is_completion_of(ext[j], it) by {
                    assert(ext[j] is TurnCompleted);
                }
                lemma_cas_append(out, ext);
            }
        },
        EventView::Unknown => {},
    }
}

proof fn lemma_reasoning_inv(
    st: RuntimeView,
    run_id: Seq<char>,
    raw_item_id: Seq<char>,
    delta: Seq<char>,
    thread_hint: Option<Seq<char>>,
    fresh: Seq<char>,
    out: Seq<NotifView>,
)
    requires
        translator_inv(st, out),
    ensures
        ({
            let step = crate::translate::reasoning_spec(
                st,
                run_id,
                raw_item_id,
                delta,
                thread_hint,
                fresh,
            );
            translator_inv(step.0, out + step.1)
        }),
{
    let step = crate::translate::reasoning_spec(st, run_id, raw_item_id, delta, thread_hint, fresh);
    assert(out + Seq::<NotifView>::empty() =~= out);
    if run_id.len() == 0 || raw_item_id.len() == 0 || delta.len() == 0 {
    } else {
        let item_id = crate::translate::split_summary_spec(raw_item_id).0;
        let ctx = crate::runtime::ctx_spec(st, run_id, thread_hint, fresh);
        lemma_ctx_inv(st, out, run_id, thread_hint, fresh);
        match ctx.1 {
            None => {
                assert(translator_inv(step.0, out + step.1));
            },
            Some(pair) => {
                let payload = PayloadView::Reasoning { id: item_id };
                let r1 = get_run(ctx.0, run_id);
                let marked = mark_started_spec(r1, item_id, payload);
                let ext = step.1;
                if marked.1 {
                    assert(is_start_of(ext[0], item_id));
                }
                assert forall|j: int, it: Seq<char>|
                    0 <= j < ext.len() implies !#[trigger] is_completion_of(ext[j], it) by {
                    assert(ext[j] is ItemStarted || ext[j] is ReasoningSummaryDelta);
                }
                lemma_marked_insert(ctx.0, out, ext, run_id, item_id, payload, marked.0);
            },
        }
    }
}

proof fn lemma_run_finished_inv(
    st: RuntimeView,
    run_id: Seq<char>,
    status: crate::events::TurnStatus,
    error_message: Option<Seq<char>>,
    out: Seq<NotifView>,
)
    requires
        translator_inv(st, out),
    ensures
        ({
            let step = crate::translate::run_finished_spec(st, run_id, status, error_message);
            translator_inv(step.0, out + step.1)
        }),
{
    let step = crate::translate::run_finished_spec(st, run_id, status, error_message);
    assert(out + Seq::<NotifView>::empty() =~= out);
    if run_id.len() == 0 || !st.runs.contains_key(run_id) {
    } else {
        let r = st.runs[run_id];
        let st1 = crate::runtime::with_runs(st, st.runs.remove(run_id));
        if r.thread_id.len() == 0 || r.turn_id.len() == 0 {
            lemma_remove_preserves(st, st1, out, run_id);
        } else {
            let n = r.started.len() as int;
            let sweep = sweep_notifs(r, n);
            let ext = sweep.push(
                NotifView::TurnCompleted {
                    thread_id: r.thread_id,
                    turn_id: r.turn_id,
                    status: status,
                    error_message: error_message,
                },
            );
            lemma_sweep_elems(r, n);
            lemma_remove_preserves(st, st1, out, run_id);
            lemma_covered_mono(st1, out, ext);
            assert forall|j: int, it: Seq<char>|
                0 <= j < ext.len() && #[trigger] is_completion_of(ext[j], it) implies (has_start(
                out,
                it,
            ) || exists|i: int| 0 <= i < j && is_start_of(ext[i], it)) by {
                if j < sweep.len() {
                    assert(ext[j] == sweep[j]);
                    let m = choose|m: int|
                        0 <= m < n && r.payloads.contains_key(r.started[m]) && sweep[j]
                            == (NotifView::ItemCompleted {
                            thread_id: r.thread_id,
                            turn_id: r.turn_id,
                            item: r.payloads[r.started[m]],
                        });
                    assert(st.runs[run_id].payloads.contains_key(r.started[m]));
                    assert(payload_id(r.payloads[r.started[m]]) == r.started[m]);
                    assert(it == r.started[m]);
                    assert(st.runs[run_id].started.contains(it));
                } else {
                    assert(ext[j] is TurnCompleted);
                }
            }
            lemma_cas_append(out, ext);
        }
    }
}

/// The runtime state before any event was seen.
pub open spec fn initial_state() -> RuntimeView {
    RuntimeView {
        runs: Map::empty(),
        pending: Map::empty(),
        approvals: Map::empty(),
    }
}

/// The state after translating a sequence of events, given the fresh ids
/// and timestamps each step drew.
pub open spec fn trace_state(
    st: RuntimeView,
    evs: Seq<EventView>,
    fr: Seq<Seq<char>>,
    tm: Seq<i64>,
) -> RuntimeView
    decreases evs.len(),
    when evs.len() == fr.len() && evs.len() == tm.len()
{
    if evs.len() == 0 {
        st
    } else {
        let step = step_spec(st, evs[0], fr[0], tm[0]);
        trace_state(step.0, evs.drop_first(), fr.drop_first(), tm.drop_first())
    }
}

/// Every notification emitted translating a sequence of events, in order.
pub open spec fn trace_out(
    st: RuntimeView,
    evs: Seq<EventView>,
    fr: Seq<Seq<char>>,
    tm: Seq<i64>,
) -> Seq<NotifView>
    decreases evs.len(),
    when evs.len() == fr.len() && evs.len() == tm.len()
{
    if evs.len() == 0 {
        Seq::empty()
    } else {
        let step = step_spec(st, evs[0], fr[0], tm[0]);
        step.1 + trace_out(step.0, evs.drop_first(), fr.drop_first(), tm.drop_first())
    }
}

proof fn lemma_trace_inv(
    st: RuntimeView,
    evs: Seq<EventView>,
    fr: Seq<Seq<char>>,
    tm: Seq<i64>,
    out: Seq<NotifView>,
)
    requires
        evs.len() == fr.len(),
        evs.len() == tm.len(),
        translator_inv(st, out),
    ensures
        translator_inv(trace_state(st, evs, fr, tm), out + trace_out(st, evs, fr, tm)),
    decreases evs.len(),
{
    if evs.len() == 0 {
        assert(out + trace_out(st, evs, fr, tm) =~= out);
    } else {
        let step = step_spec(st, evs[0], fr[0], tm[0]);
        lemma_step_inv(st, evs[0], fr[0], tm[0], out);
        lemma_trace_inv(step.0, evs.drop_first(), fr.drop_first(), tm.drop_first(), out + step.1);
        let rest = trace_out(step.0, evs.drop_first(), fr.drop_first(), tm.drop_first());
        assert((out + step.1) + rest =~= out + (step.1 + rest));
    }
}

/// Completion implies start: over any sequence of backend events translated
/// from the initial state, with whatever fresh ids and timestamps each step
/// drew, a completion notification for an item id never precedes that item
/// id's start notification. The executable translator emits exactly these
/// `step_spec` transitions, one per event.
pub proof fn lemma_completion_implies_start(evs: Seq<EventView>, fr: Seq<Seq<char>>, tm: Seq<i64>)
    requires
        evs.len() == fr.len(),
        evs.len() == tm.len(),
    ensures
        completion_after_start(trace_out(initial_state(), evs, fr, tm)),
{
    let empty_out = Seq::<NotifView>::empty();
    assert(translator_inv(initial_state(), empty_out)) by {
        assert(forall|k: Seq<char>| !initial_state().runs.contains_key(k));
    }
    lemma_trace_inv(initial_state(), evs, fr, tm, empty_out);
    assert(empty_out + trace_out(initial_state(), evs, fr, tm) =~= trace_out(
        initial_state(),
        evs,
        fr,
        tm,
    ));
}

/// Marking an item started reports true exactly once: it reports true
/// precisely when the item was not yet started, afterwards the item is
/// started, and any later mark of the same item reports false, whatever
/// payloads are supplied.
pub proof fn lemma_mark_started_once(
    r: crate::runtime::RunView,
    item: Seq<char>,
    p1: PayloadView,
    p2: PayloadView,
)
    ensures
        mark_started_spec(r, item, p1).1 == !r.started.contains(item),
        mark_started_spec(r, item, p1).0.started.contains(item),
        !mark_started_spec(mark_started_spec(r, item, p1).0, item, p2).1,
{
    let r1 = mark_started_spec(r, item, p1).0;
    if !r.started.contains(item) {
        assert(r1.started == r.started.push(item));
        assert(r1.started[r.started.len() as int] == item);
    }
}

/// Turn correlation: with turn ids `t1, t2` queued for a thread, the first
/// two run-started events for that thread bind `t1` then `t2`, in order; a
/// third, unexpected one binds the fresh id instead of failing.
pub proof fn lemma_turn_correlation(
    st: RuntimeView,
    thread: Seq<char>,
    t1: Seq<char>,
    t2: Seq<char>,
    r1: Seq<char>,
    r2: Seq<char>,
    r3: Seq<char>,
    f1: Seq<char>,
    f2: Seq<char>,
    f3: Seq<char>,
)
    requires
        trim_spec(thread) == thread,
        thread.len() > 0,
        r1.len() > 0,
        r2.len() > 0,
        r3.len() > 0,
        st.pending.contains_key(thread),
        st.pending[thread] == seq![t1, t2],
    ensures
        ({
            let s1 = run_started_spec(st, r1, thread, f1);
            let s2 = run_started_spec(s1.0, r2, thread, f2);
            let s3 = run_started_spec(s2.0, r3, thread, f3);
            &&& s1.1 == seq![NotifView::TurnStarted { thread_id: thread, turn_id: t1 }]
            &&& s2.1 == seq![NotifView::TurnStarted { thread_id: thread, turn_id: t2 }]
            &&& s3.1 == seq![NotifView::TurnStarted { thread_id: thread, turn_id: f3 }]
        }),
{
    let q: Seq<Seq<char>> = seq![t1, t2];
    assert(q[0] == t1);
    assert(q.drop_first() =~= seq![t2]);
    let p1 = pop_pending_spec(st, thread, f1);
    assert(p1.1 == t1);
    assert(p1.0.pending[thread] =~= seq![t2]);
    let s1 = run_started_spec(st, r1, thread, f1);
    assert(s1.0.pending == p1.0.pending);
    let p2 = pop_pending_spec(s1.0, thread, f2);
    assert(seq![t2][0] == t2);
    assert(seq![t2].drop_first() =~= Seq::<Seq<char>>::empty());
    assert(p2.1 == t2);
    assert(!p2.0.pending.contains_key(thread));
    let s2 = run_started_spec(s1.0, r2, thread, f2);
    assert(s2.0.pending == p2.0.pending);
    let p3 = pop_pending_spec(s2.0, thread, f3);
    assert(p3.1 == f3);
}

/// Approval round trip: after an approval request with id `request` raised
/// by run `run`, the first UI decision for `request` produces exactly one
/// command addressed to that run, carrying the request id and the supplied
/// decision; a second decision for the same request id, with no hint to
/// fall back on, produces no command.
pub proof fn lemma_approval_roundtrip(
    st: RuntimeView,
    request: Seq<char>,
    run: Seq<char>,
    kind: Seq<char>,
    decision: Seq<char>,
    hint: Option<Seq<char>>,
)
    requires
        trim_spec(request) == request,
        request.len() > 0,
        trim_spec(run) == run,
        run.len() > 0,
        trim_spec(decision) == decision,
        decision.len() > 0,
    ensures
        ({
            let s1 = approval_requested_spec(st, request, run, kind);
            let s2 = respond_spec(s1.0, request, Some(decision), hint);
            &&& s2.1 == Some((run, request, decision))
            &&& respond_spec(s2.0, request, Some(decision), None).1 is None
        }),
{
    let s1 = approval_requested_spec(st, request, run, kind);
    assert(s1.0.approvals == st.approvals.insert(request, run));
    let s2 = respond_spec(s1.0, request, Some(decision), hint);
    assert(s1.0.approvals.contains_key(request));
    assert(s1.0.approvals[request] == run);
    assert(!s2.0.approvals.contains_key(request));
}

} // verus!
