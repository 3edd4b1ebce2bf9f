//! The shared in-memory state of one connection: per-run execution state,
//! the per-thread pending-turn queues, and the approval correlations, with
//! the specification-level transition functions the translator is verified
//! against.

use vstd::prelude::*;
use crate::assoc::{
    assoc_dview, assoc_find, assoc_unique, lemma_assoc_contains, lemma_assoc_get,
    lemma_assoc_push, lemma_assoc_remove, vec_contains_str,
};
use crate::chars::{trim_spec, trim_spaces};
use crate::events::{ItemPayload, PayloadView};

verus! {

/// Spec-level state of one run.
#[verifier::ext_equal]
pub struct RunView {
    pub thread_id: Seq<char>,
    pub turn_id: Seq<char>,
    pub assistant_item_id: Option<Seq<char>>,
    pub started: Seq<Seq<char>>,
    pub completed: Seq<Seq<char>>,
    pub payloads: Map<Seq<char>, PayloadView>,
    pub assistant_delta_seen: bool,
}

/// Spec-level state of the whole runtime.
#[verifier::ext_equal]
pub struct RuntimeView {
    pub runs: Map<Seq<char>, RunView>,
    pub pending: Map<Seq<char>, Seq<Seq<char>>>,
    pub approvals: Map<Seq<char>, Seq<char>>,
}

/// Execution state of one run, keyed by the backend-assigned run id.
#[derive(Debug, Clone, PartialEq, Eq)]
pub struct RunState {
    pub thread_id: String,
    pub turn_id: String,
    pub assistant_item_id: Option<String>,
    pub started_items: Vec<String>,
    pub completed_items: Vec<String>,
    pub item_payloads: Vec<(String, ItemPayload)>,
    pub assistant_delta_seen: bool,
}

impl DeepView for RunState {
    type V = RunView;

    open spec fn deep_view(&self) -> RunView {
        RunView {
            thread_id: self.thread_id@,
            turn_id: self.turn_id@,
            assistant_item_id: match self.assistant_item_id {
                Some(s) => Some(s@),
                None => None,
            },
            started: self.started_items.deep_view(),
            completed: self.completed_items.deep_view(),
            payloads: assoc_dview(self.item_payloads@),
            assistant_delta_seen: self.assistant_delta_seen,
        }
    }
}

/// No string occurs twice.
pub open spec fn strs_unique(s: Seq<Seq<char>>) -> bool {
    forall|i: int, j: int| 0 <= i < j < s.len() ==> s[i] != s[j]
}

/// Well-formedness of one run's execution state: the item lists and the
/// payload table hold each id at most once.
pub open spec fn run_wf(r: RunState) -> bool {
    &&& strs_unique(r.started_items.deep_view())
    &&& strs_unique(r.completed_items.deep_view())
    &&& assoc_unique(r.item_payloads@)
}

/// The state a run is first seen in.
pub open spec fn default_run_view() -> RunView {
    RunView {
        thread_id: Seq::empty(),
        turn_id: Seq::empty(),
        assistant_item_id: None,
        started: Seq::empty(),
        completed: Seq::empty(),
        payloads: Map::empty(),
        assistant_delta_seen: false,
    }
}

/// The run state for `run_id`, created lazily when absent.
pub open spec fn get_run(st: RuntimeView, run_id: Seq<char>) -> RunView {
    if st.runs.contains_key(run_id) {
        st.runs[run_id]
    } else {
        default_run_view()
    }
}

pub open spec fn with_runs(st: RuntimeView, runs: Map<Seq<char>, RunView>) -> RuntimeView {
    RuntimeView { runs, pending: st.pending, approvals: st.approvals }
}

pub open spec fn with_pending(st: RuntimeView, pending: Map<Seq<char>, Seq<Seq<char>>>) -> RuntimeView {
    RuntimeView { runs: st.runs, pending, approvals: st.approvals }
}

pub open spec fn with_approvals(st: RuntimeView, approvals: Map<Seq<char>, Seq<char>>) -> RuntimeView {
    RuntimeView { runs: st.runs, pending: st.pending, approvals }
}

/// Resolving a run's context: adopt a nonempty trimmed thread hint when the
/// thread is unknown, assign the fresh turn id when no turn is bound, and
/// yield the pair only once the thread is known.
pub open spec fn ctx_spec(
    st: RuntimeView,
    run_id: Seq<char>,
    hint: Option<Seq<char>>,
    fresh: Seq<char>,
) -> (RuntimeView, Option<(Seq<char>, Seq<char>)>) {
    let r0 = get_run(st, run_id);
    let r1 = if r0.thread_id.len() == 0 {
        match hint {
            Some(h) => if trim_spec(h).len() > 0 {
                RunView {
                    thread_id: trim_spec(h),
                    turn_id: r0.turn_id,
                    assistant_item_id: r0.assistant_item_id,
                    started: r0.started,
                    completed: r0.completed,
                    payloads: r0.payloads,
                    assistant_delta_seen: r0.assistant_delta_seen,
                }
            } else {
                r0
            },
            None => r0,
        }
    } else {
        r0
    };
    let r2 = if r1.turn_id.len() == 0 {
        RunView {
            thread_id: r1.thread_id,
            turn_id: fresh,
            assistant_item_id: r1.assistant_item_id,
            started: r1.started,
            completed: r1.completed,
            payloads: r1.payloads,
            assistant_delta_seen: r1.assistant_delta_seen,
        }
    } else {
        r1
    };
    let st2 = with_runs(st, st.runs.insert(run_id, r2));
    if r2.thread_id.len() == 0 {
        (st2, None)
    } else {
        (st2, Some((r2.thread_id, r2.turn_id)))
    }
}

/// Marking an item started: a no-op when the id was already started, else
/// the id is appended and the payload cached; the flag says whether this was
/// the first time.
pub open spec fn mark_started_spec(r: RunView, item: Seq<char>, payload: PayloadView) -> (
    RunView,
    bool,
) {
    if r.started.contains(item) {
        (r, false)
    } else {
        (
            RunView {
                thread_id: r.thread_id,
                turn_id: r.turn_id,
                assistant_item_id: r.assistant_item_id,
                started: r.started.push(item),
                completed: r.completed,
                payloads: r.payloads.insert(item, payload),
                assistant_delta_seen: r.assistant_delta_seen,
            },
            true,
        )
    }
}

/// Marking an item completed, gated on the completed set alone.
pub open spec fn mark_completed_spec(r: RunView, item: Seq<char>, payload: PayloadView) -> (
    RunView,
    bool,
) {
    if r.completed.contains(item) {
        (r, false)
    } else {
        (
            RunView {
                thread_id: r.thread_id,
                turn_id: r.turn_id,
                assistant_item_id: r.assistant_item_id,
                started: r.started,
                completed: r.completed.push(item),
                payloads: r.payloads.insert(item, payload),
                assistant_delta_seen: r.assistant_delta_seen,
            },
            true,
        )
    }
}

/// Queueing a pending turn id: appended to the thread's queue unless the id
/// is already waiting there.
pub open spec fn push_pending_spec(st: RuntimeView, thread: Seq<char>, turn: Seq<char>) -> RuntimeView {
    let q = if st.pending.contains_key(thread) {
        st.pending[thread]
    } else {
        Seq::empty()
    };
    if q.contains(turn) {
        st
    } else {
        with_pending(st, st.pending.insert(thread, q.push(turn)))
    }
}

/// Popping the next pending turn id for a thread, or falling back to the
/// fresh id; an emptied queue is pruned.
pub open spec fn pop_pending_spec(st: RuntimeView, thread: Seq<char>, fresh: Seq<char>) -> (
    RuntimeView,
    Seq<char>,
) {
    if st.pending.contains_key(thread) && st.pending[thread].len() > 0 {
        let q = st.pending[thread];
        let rest = q.drop_first();
        let pending2 = if rest.len() == 0 {
            st.pending.remove(thread)
        } else {
            st.pending.insert(thread, rest)
        };
        (with_pending(st, pending2), q[0])
    } else {
        (st, fresh)
    }
}

/// The shared, per-connection runtime state: the run tracker, the
/// pending-turn queues, and the approval correlator.
pub struct BridgeRuntime {
    pub runs: Vec<(String, RunState)>,
    pub pending_turns: Vec<(String, Vec<String>)>,
    pub approvals: Vec<(String, String)>,
}

impl DeepView for BridgeRuntime {
    type V = RuntimeView;

    open spec fn deep_view(&self) -> RuntimeView {
        RuntimeView {
            runs: assoc_dview(self.runs@),
            pending: assoc_dview(self.pending_turns@),
            approvals: assoc_dview(self.approvals@),
        }
    }
}

impl BridgeRuntime {
    /// Well-formedness: all keys unique, run states well-formed, and every
    /// pending queue nonempty and duplicate-free.
    pub open spec fn wf(self) -> bool {
        &&& assoc_unique(self.runs@)
        &&& (forall|i: int| 0 <= i < self.runs@.len() ==> run_wf(#[trigger] self.runs@[i].1))
        &&& assoc_unique(self.pending_turns@)
        &&& (forall|i: int|
            0 <= i < self.pending_turns@.len() ==> strs_unique(
                #[trigger] self.pending_turns@[i].1.deep_view(),
            ) && self.pending_turns@[i].1.deep_view().len() > 0)
        &&& assoc_unique(self.approvals@)
    }

    /// A runtime with no tracked state.
    pub fn new() -> (r: BridgeRuntime)
        ensures
            r.wf(),
            r.deep_view().runs == Map::<Seq<char>, RunView>::empty(),
            r.deep_view().pending == Map::<Seq<char>, Seq<Seq<char>>>::empty(),
            r.deep_view().approvals == Map::<Seq<char>, Seq<char>>::empty(),
    {
        BridgeRuntime { runs: Vec::new(), pending_turns: Vec::new(), approvals: Vec::new() }
    }

    /// Removes and returns the run state for `run_id`, or a fresh default.
    fn take_run(&mut self, run_id: &String) -> (r: RunState)
        requires
            old(self).wf(),
        ensures
            final(self).wf(),
            final(self).deep_view().runs =~= old(self).deep_view().runs.remove(run_id@),
            !final(self).deep_view().runs.contains_key(run_id@),
            final(self).deep_view().pending == old(self).deep_view().pending,
            final(self).deep_view().approvals == old(self).deep_view().approvals,
            final(self).pending_turns@ == old(self).pending_turns@,
            final(self).approvals@ == old(self).approvals@,
            r.deep_view() == get_run(old(self).deep_view(), run_id@),
            run_wf(r),
    {
        proof {
            lemma_assoc_contains::<RunState>(self.runs@, run_id@);
        }
        match assoc_find(&self.runs, run_id) {
            Some(i) => {
                proof {
                    lemma_assoc_get::<RunState>(self.runs@, i as int);
                    lemma_assoc_remove::<RunState>(self.runs@, i as int);
                }
                let pair = self.runs.remove(i);
                proof {
                    lemma_assoc_contains::<RunState>(self.runs@, run_id@);
                }
                pair.1
            },
            None => {
                assert(old(self).deep_view().runs.remove(run_id@) =~= old(self).deep_view().runs);
                let fresh = RunState {
                    thread_id: String::new(),
                    turn_id: String::new(),
                    assistant_item_id: None,
                    started_items: Vec::new(),
                    completed_items: Vec::new(),
                    item_payloads: Vec::new(),
                    assistant_delta_seen: false,
                };
                assert(fresh.deep_view() =~~= default_run_view());
                fresh
            },
        }
    }

    /// Reinstates a run state under `run_id`.
    fn put_run(&mut self, run_id: &String, r: RunState)
        requires
            old(self).wf(),
            !old(self).deep_view().runs.contains_key(run_id@),
            run_wf(r),
        ensures
            final(self).wf(),
            final(self).deep_view().runs =~= old(self).deep_view().runs.insert(
                run_id@,
                r.deep_view(),
            ),
            final(self).deep_view().pending == old(self).deep_view().pending,
            final(self).deep_view().approvals == old(self).deep_view().approvals,
            final(self).pending_turns@ == old(self).pending_turns@,
            final(self).approvals@ == old(self).approvals@,
    {
        proof {
            lemma_assoc_contains::<RunState>(self.runs@, run_id@);
            lemma_assoc_push(self.runs@, *run_id, r);
        }
        let ghost before = self.runs@;
        self.runs.push((run_id.clone(), r));
        assert forall|i: int| 0 <= i < self.runs@.len() implies run_wf(
            #[trigger] self.runs@[i].1,
        ) by {
            if i < before.len() {
                assert(self.runs@[i] == before[i]);
            } else {
                assert(self.runs@[i].1 == r);
            }
        }
    }

    /// Lazily creates the run state and resolves its `(threadId, turnId)`
    /// context; `None` while the owning thread is still unknown.
    pub fn run_context(
        &mut self,
        run_id: &String,
        thread_hint: Option<&String>,
        fresh_turn_id: String,
    ) -> (r: Option<(String, String)>)
        requires
            old(self).wf(),
        ensures
            final(self).wf(),
            ({
                let hint = match thread_hint {
                    Some(h) => Some(h@),
                    None => None,
                };
                let step = ctx_spec(old(self).deep_view(), run_id@, hint, fresh_turn_id@);
                &&& final(self).deep_view() == step.0
                &&& (match r {
                    Some(p) => step.1 == Some((p.0@, p.1@)),
                    None => step.1 is None,
                })
            }),
    {
        let ghost st0 = self.deep_view();
        let mut run = self.take_run(run_id);
        if run.thread_id.as_str().is_empty() {
            match thread_hint {
                Some(h) => {
                    let t = trim_spaces(h);
                    if !t.as_str().is_empty() {
                        run.thread_id = t;
                    }
                },
                None => {},
            }
        }
        if run.turn_id.as_str().is_empty() {
            run.turn_id = fresh_turn_id;
        }
        let result = if run.thread_id.as_str().is_empty() {
            None
        } else {
            Some((run.thread_id.clone(), run.turn_id.clone()))
        };
        let ghost runv = run.deep_view();
        self.put_run(run_id, run);
        proof {
            let hint = match thread_hint {
                Some(h) => Some(h@),
                None => None,
            };
            let step = ctx_spec(st0, run_id@, hint, fresh_turn_id@);
            assert(runv =~~= step.0.runs[run_id@]);
            assert(final(self).deep_view() =~~= step.0);
        }
        result
    }

    /// Records that `item_id` received its start notification, caching the
    /// payload; yields true only the first time for this run.
    pub fn mark_item_started(&mut self, run_id: &String, item_id: &String, payload: ItemPayload) -> (r:
        bool)
        requires
            old(self).wf(),
        ensures
            final(self).wf(),
            ({
                let m = mark_started_spec(
                    get_run(old(self).deep_view(), run_id@),
                    item_id@,
                    payload.deep_view(),
                );
                &&& final(self).deep_view() == with_runs(
                    old(self).deep_view(),
                    old(self).deep_view().runs.insert(run_id@, m.0),
                )
                &&& r == m.1
            }),
    {
        let ghost st0 = self.deep_view();
        let ghost r0 = get_run(st0, run_id@);
        let ghost spec_run = mark_started_spec(r0, item_id@, payload.deep_view()).0;
        let mut run = self.take_run(run_id);
        let hit = vec_contains_str(&run.started_items, item_id);
        if !hit {
            let ghost started0 = run.started_items.deep_view();
            run.started_items.push(item_id.clone());
            proof {
                assert(run.started_items.deep_view() =~= started0.push(item_id@));
                assert forall|a: int, b: int|
                    0 <= a < b < started0.len() + 1 implies run.started_items.deep_view()[a]
                    != run.started_items.deep_view()[b] by {
                    if b == started0.len() {
                        assert(run.started_items.deep_view()[b] == item_id@);
                        assert(started0[a] != item_id@);
                    }
                }
            }
            match assoc_find(&run.item_payloads, item_id) {
                Some(i) => {
                    proof {
                        lemma_assoc_remove::<ItemPayload>(run.item_payloads@, i as int);
                    }
                    run.item_payloads.remove(i);
                },
                None => {},
            }
            proof {
                lemma_assoc_contains::<ItemPayload>(run.item_payloads@, item_id@);
                lemma_assoc_push(run.item_payloads@, *item_id, payload);
            }
            run.item_payloads.push((item_id.clone(), payload));
            proof {
                assert(assoc_dview(run.item_payloads@) =~= r0.payloads.insert(
                    item_id@,
                    payload.deep_view(),
                ));
                assert(run.deep_view() =~~= spec_run);
            }
            self.put_run(run_id, run);
            proof {
                assert(final(self).deep_view() =~~= with_runs(
                    st0,
                    st0.runs.insert(run_id@, spec_run),
                ));
            }
            true
        } else {
            let ghost runv = run.deep_view();
            self.put_run(run_id, run);
            proof {
                assert(runv =~~= spec_run);
                assert(final(self).deep_view() =~~= with_runs(
                    st0,
                    st0.runs.insert(run_id@, spec_run),
                ));
            }
            false
        }
    }

    /// Records that `item_id` received its completion notification; yields
    /// true only the first time, independently of the started set.
    pub fn mark_item_completed(
        &mut self,
        run_id: &String,
        item_id: &String,
        payload: ItemPayload,
    ) -> (r: bool)
        requires
            old(self).wf(),
        ensures
            final(self).wf(),
            ({
                let m = mark_completed_spec(
                    get_run(old(self).deep_view(), run_id@),
                    item_id@,
                    payload.deep_view(),
                );
                &&& final(self).deep_view() == with_runs(
                    old(self).deep_view(),
                    old(self).deep_view().runs.insert(run_id@, m.0),
                )
                &&& r == m.1
            }),
    {
        let ghost st0 = self.deep_view();
        let ghost r0 = get_run(st0, run_id@);
        let ghost spec_run = mark_completed_spec(r0, item_id@, payload.deep_view()).0;
        let mut run = self.take_run(run_id);
        let hit = vec_contains_str(&run.completed_items, item_id);
        if !hit {
            let ghost completed0 = run.completed_items.deep_view();
            run.completed_items.push(item_id.clone());
            proof {
                assert(run.completed_items.deep_view() =~= completed0.push(item_id@));
                assert forall|a: int, b: int|
                    0 <= a < b < completed0.len() + 1 implies run.completed_items.deep_view()[a]
                    != run.completed_items.deep_view()[b] by {
                    if b == completed0.len() {
                        assert(run.completed_items.deep_view()[b] == item_id@);
                        assert(completed0[a] != item_id@);
                    }
                }
            }
            match assoc_find(&run.item_payloads, item_id) {
                Some(i) => {
                    proof {
                        lemma_assoc_remove::<ItemPayload>(run.item_payloads@, i as int);
                    }
                    run.item_payloads.remove(i);
                },
                None => {},
            }
            proof {
                lemma_assoc_contains::<ItemPayload>(run.item_payloads@, item_id@);
                lemma_assoc_push(run.item_payloads@, *item_id, payload);
            }
            run.item_payloads.push((item_id.clone(), payload));
            proof {
                assert(assoc_dview(run.item_payloads@) =~= r0.payloads.insert(
                    item_id@,
                    payload.deep_view(),
                ));
                assert(run.deep_view() =~~= spec_run);
            }
            self.put_run(run_id, run);
            proof {
                assert(final(self).deep_view() =~~= with_runs(
                    st0,
                    st0.runs.insert(run_id@, spec_run),
                ));
            }
            true
        } else {
            let ghost runv = run.deep_view();
            self.put_run(run_id, run);
            proof {
                assert(runv =~~= spec_run);
                assert(final(self).deep_view() =~~= with_runs(
                    st0,
                    st0.runs.insert(run_id@, spec_run),
                ));
            }
            false
        }
    }

    /// Binds the run's thread id, creating the run when absent.
    pub fn set_thread(&mut self, run_id: &String, thread_id: String)
        requires
            old(self).wf(),
        ensures
            final(self).wf(),
            ({
                let r0 = get_run(old(self).deep_view(), run_id@);
                let r1 = RunView { thread_id: thread_id@, ..r0 };
                final(self).deep_view() == with_runs(
                    old(self).deep_view(),
                    old(self).deep_view().runs.insert(run_id@, r1),
                )
            }),
    {
        let ghost st0 = self.deep_view();
        let ghost r0 = get_run(st0, run_id@);
        let mut run = self.take_run(run_id);
        run.thread_id = thread_id;
        let ghost runv = run.deep_view();
        self.put_run(run_id, run);
        proof {
            assert(runv =~~= (RunView { thread_id: runv.thread_id, ..r0 }));
            assert(final(self).deep_view() =~~= with_runs(
                st0,
                st0.runs.insert(run_id@, runv),
            ));
        }
    }

    /// Binds the run's thread and turn ids, creating the run when absent.
    pub fn bind_run(&mut self, run_id: &String, thread_id: String, turn_id: String)
        requires
            old(self).wf(),
        ensures
            final(self).wf(),
            ({
                let r0 = get_run(old(self).deep_view(), run_id@);
                let r1 = RunView { thread_id: thread_id@, turn_id: turn_id@, ..r0 };
                final(self).deep_view() == with_runs(
                    old(self).deep_view(),
                    old(self).deep_view().runs.insert(run_id@, r1),
                )
            }),
    {
        let ghost st0 = self.deep_view();
        let ghost r0 = get_run(st0, run_id@);
        let mut run = self.take_run(run_id);
        run.thread_id = thread_id;
        run.turn_id = turn_id;
        let ghost runv = run.deep_view();
        self.put_run(run_id, run);
        proof {
            assert(runv =~~= (RunView { thread_id: runv.thread_id, turn_id: runv.turn_id, ..r0 }));
            assert(final(self).deep_view() =~~= with_runs(
                st0,
                st0.runs.insert(run_id@, runv),
            ));
        }
    }

    /// Binds the run's thread, and its turn only when no turn was bound yet;
    /// says whether the turn was unbound before.
    pub fn bind_turn_if_empty(&mut self, run_id: &String, thread_id: String, turn_id: String) -> (r:
        bool)
        requires
            old(self).wf(),
        ensures
            final(self).wf(),
            ({
                let r0 = get_run(old(self).deep_view(), run_id@);
                let was_empty = r0.turn_id.len() == 0;
                let r1 = RunView {
                    thread_id: thread_id@,
                    turn_id: if was_empty {
                        turn_id@
                    } else {
                        r0.turn_id
                    },
                    ..r0
                };
                &&& r == was_empty
                &&& final(self).deep_view() == with_runs(
                    old(self).deep_view(),
                    old(self).deep_view().runs.insert(run_id@, r1),
                )
            }),
    {
        let ghost st0 = self.deep_view();
        let ghost r0 = get_run(st0, run_id@);
        let mut run = self.take_run(run_id);
        let was_empty = run.turn_id.as_str().is_empty();
        run.thread_id = thread_id;
        if was_empty {
            run.turn_id = turn_id;
        }
        let ghost runv = run.deep_view();
        self.put_run(run_id, run);
        proof {
            assert(runv =~~= (RunView {
                thread_id: runv.thread_id,
                turn_id: runv.turn_id,
                ..r0
            }));
            assert(final(self).deep_view() =~~= with_runs(
                st0,
                st0.runs.insert(run_id@, runv),
            ));
        }
        was_empty
    }

    /// Records the in-progress assistant item and that a streamed delta for
    /// it was seen.
    pub fn note_assistant_delta(&mut self, run_id: &String, item_id: &String)
        requires
            old(self).wf(),
        ensures
            final(self).wf(),
            ({
                let r0 = get_run(old(self).deep_view(), run_id@);
                let r1 = RunView {
                    assistant_item_id: Some(item_id@),
                    assistant_delta_seen: true,
                    ..r0
                };
                final(self).deep_view() == with_runs(
                    old(self).deep_view(),
                    old(self).deep_view().runs.insert(run_id@, r1),
                )
            }),
    {
        let ghost st0 = self.deep_view();
        let ghost r0 = get_run(st0, run_id@);
        let mut run = self.take_run(run_id);
        run.assistant_item_id = Some(item_id.clone());
        run.assistant_delta_seen = true;
        let ghost runv = run.deep_view();
        self.put_run(run_id, run);
        proof {
            assert(runv =~~= (RunView {
                assistant_item_id: Some(item_id@),
                assistant_delta_seen: true,
                ..r0
            }));
            assert(final(self).deep_view() =~~= with_runs(
                st0,
                st0.runs.insert(run_id@, runv),
            ));
        }
    }

    /// Reads the run's assistant item id and streamed-delta flag.
    pub fn assistant_state(&self, run_id: &String) -> (r: (Option<String>, bool))
        requires
            self.wf(),
        ensures
            ({
                let run = get_run(self.deep_view(), run_id@);
                &&& (match r.0 {
                    Some(s) => run.assistant_item_id == Some(s@),
                    None => run.assistant_item_id is None,
                })
                &&& r.1 == run.assistant_delta_seen
            }),
    {
        proof {
            lemma_assoc_contains::<RunState>(self.runs@, run_id@);
        }
        match assoc_find(&self.runs, run_id) {
            Some(i) => {
                proof {
                    lemma_assoc_get::<RunState>(self.runs@, i as int);
                }
                let item = match &self.runs[i].1.assistant_item_id {
                    Some(s) => Some(s.clone()),
                    None => None,
                };
                (item, self.runs[i].1.assistant_delta_seen)
            },
            None => (None, false),
        }
    }

    /// Atomically removes and returns the run state, exactly once per run.
    pub fn finish(&mut self, run_id: &String) -> (r: Option<RunState>)
        requires
            old(self).wf(),
        ensures
            final(self).wf(),
            final(self).deep_view().pending == old(self).deep_view().pending,
            final(self).deep_view().approvals == old(self).deep_view().approvals,
            ({
                match r {
                    Some(run) => old(self).deep_view().runs.contains_key(run_id@)
                        && run.deep_view() == old(self).deep_view().runs[run_id@] && run_wf(run)
                        && final(self).deep_view().runs == old(self).deep_view().runs.remove(
                        run_id@,
                    ),
                    None => !old(self).deep_view().runs.contains_key(run_id@) && final(self).deep_view() == old(self).deep_view(),
                }
            }),
    {
        proof {
            lemma_assoc_contains::<RunState>(self.runs@, run_id@);
        }
        match assoc_find(&self.runs, run_id) {
            Some(i) => {
                proof {
                    lemma_assoc_get::<RunState>(self.runs@, i as int);
                    lemma_assoc_remove::<RunState>(self.runs@, i as int);
                }
                let pair = self.runs.remove(i);
                assert(final(self).deep_view().runs =~= old(self).deep_view().runs.remove(
                    run_id@,
                ));
                Some(pair.1)
            },
            None => None,
        }
    }

    /// Removes and returns the pending queue for a thread, or an empty one.
    fn take_queue(&mut self, thread_id: &String) -> (r: Vec<String>)
        requires
            old(self).wf(),
        ensures
            final(self).wf(),
            final(self).deep_view().pending =~= old(self).deep_view().pending.remove(thread_id@),
            !final(self).deep_view().pending.contains_key(thread_id@),
            final(self).deep_view().runs == old(self).deep_view().runs,
            final(self).deep_view().approvals == old(self).deep_view().approvals,
            final(self).runs@ == old(self).runs@,
            final(self).approvals@ == old(self).approvals@,
            r.deep_view() == (if old(self).deep_view().pending.contains_key(thread_id@) {
                old(self).deep_view().pending[thread_id@]
            } else {
                Seq::<Seq<char>>::empty()
            }),
            strs_unique(r.deep_view()),
            old(self).deep_view().pending.contains_key(thread_id@) ==> r.deep_view().len() > 0,
    {
        proof {
            lemma_assoc_contains::<Vec<String>>(self.pending_turns@, thread_id@);
        }
        match assoc_find(&self.pending_turns, thread_id) {
            Some(i) => {
                proof {
                    lemma_assoc_get::<Vec<String>>(self.pending_turns@, i as int);
                    lemma_assoc_remove::<Vec<String>>(self.pending_turns@, i as int);
                }
                let pair = self.pending_turns.remove(i);
                proof {
                    lemma_assoc_contains::<Vec<String>>(self.pending_turns@, thread_id@);
                }
                pair.1
            },
            None => {
                assert(old(self).deep_view().pending.remove(thread_id@) =~= old(self).deep_view().pending);
                let fresh_q: Vec<String> = Vec::new();
                assert(fresh_q.deep_view() =~= Seq::<Seq<char>>::empty());
                fresh_q
            },
        }
    }

    /// Reinstates a nonempty queue for a thread.
    fn put_queue(&mut self, thread_id: &String, q: Vec<String>)
        requires
            old(self).wf(),
            !old(self).deep_view().pending.contains_key(thread_id@),
            strs_unique(q.deep_view()),
            q.deep_view().len() > 0,
        ensures
            final(self).wf(),
            final(self).deep_view().pending =~= old(self).deep_view().pending.insert(
                thread_id@,
                q.deep_view(),
            ),
            final(self).deep_view().runs == old(self).deep_view().runs,
            final(self).deep_view().approvals == old(self).deep_view().approvals,
            final(self).runs@ == old(self).runs@,
            final(self).approvals@ == old(self).approvals@,
    {
        proof {
            lemma_assoc_contains::<Vec<String>>(self.pending_turns@, thread_id@);
            lemma_assoc_push(self.pending_turns@, *thread_id, q);
        }
        let ghost before = self.pending_turns@;
        let ghost qv = q.deep_view();
        self.pending_turns.push((thread_id.clone(), q));
        assert forall|i: int| 0 <= i < self.pending_turns@.len() implies strs_unique(
            #[trigger] self.pending_turns@[i].1.deep_view(),
        ) && self.pending_turns@[i].1.deep_view().len() > 0 by {
            if i < before.len() {
                assert(self.pending_turns@[i] == before[i]);
            } else {
                assert(self.pending_turns@[i].1.deep_view() == qv);
            }
        }
    }

    /// Queues a UI-issued turn id to await the matching run-started event;
    /// an id already waiting on the same thread is not queued twice.
    pub fn queue_pending_turn(&mut self, thread_id: &String, turn_id: &String)
        requires
            old(self).wf(),
        ensures
            final(self).wf(),
            final(self).deep_view() == push_pending_spec(
                old(self).deep_view(),
                thread_id@,
                turn_id@,
            ),
    {
        let ghost st0 = self.deep_view();
        let mut q = self.take_queue(thread_id);
        let ghost q0 = q.deep_view();
        if vec_contains_str(&q, turn_id) {
            self.put_queue(thread_id, q);
            proof {
                assert(st0.pending.contains_key(thread_id@));
                assert(final(self).deep_view().pending =~= st0.pending);
                assert(final(self).deep_view() =~~= push_pending_spec(st0, thread_id@, turn_id@));
            }
        } else {
            q.push(turn_id.clone());
            proof {
                assert(q.deep_view() =~= q0.push(turn_id@));
                assert forall|a: int, b: int|
                    0 <= a < b < q0.len() + 1 implies q.deep_view()[a] != q.deep_view()[b] by {
                    if b == q0.len() {
                        assert(q.deep_view()[b] == turn_id@);
                        assert(q0[a] != turn_id@);
                    }
                }
            }
            self.put_queue(thread_id, q);
            proof {
                assert(final(self).deep_view().pending =~= st0.pending.insert(
                    thread_id@,
                    q0.push(turn_id@),
                ));
                assert(final(self).deep_view() =~~= push_pending_spec(st0, thread_id@, turn_id@));
            }
        }
    }

    /// Pops the next pending turn id for a thread, falling back to the
    /// supplied fresh id; an emptied queue is pruned.
    pub fn pop_pending_turn(&mut self, thread_id: &String, fresh_turn_id: String) -> (r: String)
        requires
            old(self).wf(),
        ensures
            final(self).wf(),
            ({
                let step = pop_pending_spec(old(self).deep_view(), thread_id@, fresh_turn_id@);
                final(self).deep_view() == step.0 && r@ == step.1
            }),
    {
        let ghost st0 = self.deep_view();
        let mut q = self.take_queue(thread_id);
        let ghost q0 = q.deep_view();
        if q.len() > 0 {
            proof {
                assert(st0.pending.contains_key(thread_id@));
                assert(q0 == st0.pending[thread_id@]);
            }
            let head = q.remove(0);
            proof {
                assert(q.deep_view() =~= q0.drop_first());
                assert(head@ == q0[0]);
            }
            if q.len() > 0 {
                proof {
                    assert forall|a: int, b: int|
                        0 <= a < b < q.deep_view().len() implies q.deep_view()[a]
                        != q.deep_view()[b] by {
                        assert(q.deep_view()[a] == q0[a + 1]);
                        assert(q.deep_view()[b] == q0[b + 1]);
                    }
                }
                self.put_queue(thread_id, q);
                proof {
                    assert(final(self).deep_view().pending =~= st0.pending.insert(
                        thread_id@,
                        q0.drop_first(),
                    ));
                    assert(final(self).deep_view() =~~= pop_pending_spec(
                        st0,
                        thread_id@,
                        fresh_turn_id@,
                    ).0);
                }
            } else {
                proof {
                    assert(q0.drop_first().len() == 0);
                    assert(final(self).deep_view().pending =~= st0.pending.remove(thread_id@));
                    assert(final(self).deep_view() =~~= pop_pending_spec(
                        st0,
                        thread_id@,
                        fresh_turn_id@,
                    ).0);
                }
            }
            head
        } else {
            proof {
                assert(!st0.pending.contains_key(thread_id@));
                assert(final(self).deep_view().pending =~= st0.pending);
                assert(final(self).deep_view() =~~= pop_pending_spec(
                    st0,
                    thread_id@,
                    fresh_turn_id@,
                ).0);
            }
            fresh_turn_id
        }
    }

    /// Records which run raised an approval request.
    pub fn record_approval(&mut self, request_id: &String, run_id: &String)
        requires
            old(self).wf(),
        ensures
            final(self).wf(),
            final(self).deep_view() == with_approvals(
                old(self).deep_view(),
                old(self).deep_view().approvals.insert(request_id@, run_id@),
            ),
    {
        let ghost st0 = self.deep_view();
        match assoc_find(&self.approvals, request_id) {
            Some(i) => {
                proof {
                    lemma_assoc_remove::<String>(self.approvals@, i as int);
                }
                self.approvals.remove(i);
            },
            None => {},
        }
        proof {
            lemma_assoc_contains::<String>(self.approvals@, request_id@);
            lemma_assoc_push(self.approvals@, *request_id, *run_id);
        }
        self.approvals.push((request_id.clone(), run_id.clone()));
        proof {
            assert(final(self).deep_view().approvals =~= st0.approvals.insert(
                request_id@,
                run_id@,
            ));
            assert(final(self).deep_view() =~~= with_approvals(
                st0,
                st0.approvals.insert(request_id@, run_id@),
            ));
        }
    }

    /// Removes and returns the run a request was recorded for; at most once
    /// per request id.
    pub fn resolve_approval(&mut self, request_id: &String) -> (r: Option<String>)
        requires
            old(self).wf(),
        ensures
            final(self).wf(),
            ({
                match r {
                    Some(run) => old(self).deep_view().approvals.contains_key(request_id@) && run@
                        == old(self).deep_view().approvals[request_id@] && final(self).deep_view()
                        == with_approvals(
                        old(self).deep_view(),
                        old(self).deep_view().approvals.remove(request_id@),
                    ),
                    None => !old(self).deep_view().approvals.contains_key(request_id@) && final(self).deep_view() == old(self).deep_view(),
                }
            }),
    {
        proof {
            lemma_assoc_contains::<String>(self.approvals@, request_id@);
        }
        match assoc_find(&self.approvals, request_id) {
            Some(i) => {
                proof {
                    lemma_assoc_get::<String>(self.approvals@, i as int);
                    lemma_assoc_remove::<String>(self.approvals@, i as int);
                }
                let pair = self.approvals.remove(i);
                proof {
                    assert(final(self).deep_view().approvals =~= old(
                        self,
                    ).deep_view().approvals.remove(request_id@));
                    assert(final(self).deep_view() =~~= with_approvals(
                        old(self).deep_view(),
                        old(self).deep_view().approvals.remove(request_id@),
                    ));
                }
                Some(pair.1)
            },
            None => None,
        }
    }

    /// Drops every run and approval correlation: the channel is gone and all
    /// in-flight runs are abandoned, with no synthetic completions.
    pub fn clear_on_disconnect(&mut self)
        requires
            old(self).wf(),
        ensures
            final(self).wf(),
            final(self).deep_view().runs == Map::<Seq<char>, RunView>::empty(),
            final(self).deep_view().approvals == Map::<Seq<char>, Seq<char>>::empty(),
            final(self).deep_view().pending == old(self).deep_view().pending,
    {
        self.runs = Vec::new();
        self.approvals = Vec::new();
        assert(self.deep_view().runs =~= Map::<Seq<char>, RunView>::empty());
        assert(self.deep_view().approvals =~= Map::<Seq<char>, Seq<char>>::empty());
    }
}

} // verus!
