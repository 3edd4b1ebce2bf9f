//! Reconstruction of a thread's past turns from the backend's stored
//! message list: user messages open a new turn, assistant messages close
//! one, carrying their reasoning and command trace along as items.
//!
//! Items here carry no presentation ids; the surrounding process assigns
//! fresh ids when it renders a turn.

use vstd::prelude::*;
use crate::chars::{concat_str, eq_ignore_ascii_case, to_lower_spec, trim_spec, trim_spaces};
use crate::events::view_opt_str;

verus! {

/// One entry of an assistant message's stored trace.
#[derive(Debug, Clone, PartialEq, Eq)]
pub struct TraceEntry {
    pub kind: String,
    pub title: Option<String>,
    pub text: Option<String>,
    pub command: Option<String>,
    pub status: Option<String>,
    pub exit_code: Option<i64>,
    pub output: Option<String>,
}

/// Spec-level form of `TraceEntry`.
pub struct TraceEntryView {
    pub kind: Seq<char>,
    pub title: Option<Seq<char>>,
    pub text: Option<Seq<char>>,
    pub command: Option<Seq<char>>,
    pub status: Option<Seq<char>>,
    pub exit_code: Option<i64>,
    pub output: Option<Seq<char>>,
}

impl DeepView for TraceEntry {
    type V = TraceEntryView;

    open spec fn deep_view(&self) -> TraceEntryView {
        TraceEntryView {
            kind: self.kind@,
            title: view_opt_str(self.title),
            text: view_opt_str(self.text),
            command: view_opt_str(self.command),
            status: view_opt_str(self.status),
            exit_code: self.exit_code,
            output: view_opt_str(self.output),
        }
    }
}

/// One stored message of a session.
#[derive(Debug, Clone, PartialEq, Eq)]
pub struct SessionMessage {
    pub role: String,
    pub text: String,
    pub trace: Vec<TraceEntry>,
}

/// Spec-level form of `SessionMessage`.
pub struct SessionMessageView {
    pub role: Seq<char>,
    pub text: Seq<char>,
    pub trace: Seq<TraceEntryView>,
}

impl DeepView for SessionMessage {
    type V = SessionMessageView;

    open spec fn deep_view(&self) -> SessionMessageView {
        SessionMessageView { role: self.role@, text: self.text@, trace: self.trace.deep_view() }
    }
}

/// One reconstructed item of a past turn.
#[derive(Debug, Clone, PartialEq, Eq)]
pub enum HistoryItem {
    UserMessage { text: String },
    AgentMessage { text: String },
    Reasoning { summary: String },
    CommandExecution {
        command: String,
        status: String,
        exit_code: Option<i64>,
        output: Option<String>,
    },
}

/// Spec-level form of `HistoryItem`.
pub enum HistoryItemView {
    UserMessage { text: Seq<char> },
    AgentMessage { text: Seq<char> },
    Reasoning { summary: Seq<char> },
    CommandExecution {
        command: Seq<char>,
        status: Seq<char>,
        exit_code: Option<i64>,
        output: Option<Seq<char>>,
    },
}

impl DeepView for HistoryItem {
    type V = HistoryItemView;

    open spec fn deep_view(&self) -> HistoryItemView {
        match self {
            HistoryItem::UserMessage { text } => HistoryItemView::UserMessage { text: text@ },
            HistoryItem::AgentMessage { text } => HistoryItemView::AgentMessage { text: text@ },
            HistoryItem::Reasoning { summary } => HistoryItemView::Reasoning { summary: summary@ },
            HistoryItem::CommandExecution { command, status, exit_code, output } => {
                HistoryItemView::CommandExecution {
                    command: command@,
                    status: status@,
                    exit_code: *exit_code,
                    output: view_opt_str(*output),
                }
            },
        }
    }
}

/// What one trace entry renders to: a reasoning entry needs nonempty
/// trimmed text and is prefixed by its trimmed title when one is present; a
/// command entry keeps its command, its status (completed when absent), its
/// exit code and its output; other kinds render nothing. Kinds compare up
/// to ASCII case.
pub open spec fn entry_item_spec(e: TraceEntryView) -> Option<HistoryItemView> {
    if to_lower_spec(e.kind) == to_lower_spec("reasoning"@) {
        match e.text {
            Some(raw) => {
                let t = trim_spec(raw);
                if t.len() == 0 {
                    None
                } else {
                    let summary = match e.title {
                        Some(title_raw) => {
                            let title = trim_spec(title_raw);
                            if title.len() > 0 {
                                title + ": "@ + t
                            } else {
                                t
                            }
                        },
                        None => t,
                    };
                    Some(HistoryItemView::Reasoning { summary })
                }
            },
            None => None,
        }
    } else if to_lower_spec(e.kind) == to_lower_spec("command"@) {
        Some(
            HistoryItemView::CommandExecution {
                command: match e.command {
                    Some(c) => c,
                    None => Seq::empty(),
                },
                status: match e.status {
                    Some(s) => s,
                    None => "completed"@,
                },
                exit_code: e.exit_code,
                output: e.output,
            },
        )
    } else {
        None
    }
}

/// Renders one trace entry, or nothing for an unknown kind.
pub fn trace_entry_to_item(entry: &TraceEntry) -> (r: Option<HistoryItem>)
    ensures
        ({
            let s = entry_item_spec(entry.deep_view());
            match r {
                Some(item) => s == Some(item.deep_view()),
                None => s is None,
            }
        }),
{
    let reasoning = String::from_str("reasoning");
    let command_kind = String::from_str("command");
    if eq_ignore_ascii_case(&entry.kind, &reasoning) {
        match &entry.text {
            Some(raw) => {
                let t = trim_spaces(raw);
                if t.as_str().is_empty() {
                    None
                } else {
                    let summary = match &entry.title {
                        Some(title_raw) => {
                            let title = trim_spaces(title_raw);
                            if !title.as_str().is_empty() {
                                let prefixed = concat_str(&title, &String::from_str(": "));
                                concat_str(&prefixed, &t)
                            } else {
                                t
                            }
                        },
                        None => t,
                    };
                    Some(HistoryItem::Reasoning { summary })
                }
            },
            None => None,
        }
    } else if eq_ignore_ascii_case(&entry.kind, &command_kind) {
        Some(
            HistoryItem::CommandExecution {
                command: match &entry.command {
                    Some(c) => c.clone(),
                    None => String::new(),
                },
                status: match &entry.status {
                    Some(s) => s.clone(),
                    None => String::from_str("completed"),
                },
                exit_code: entry.exit_code,
                output: match &entry.output {
                    Some(o) => Some(o.clone()),
                    None => None,
                },
            },
        )
    } else {
        None
    }
}

/// The items a trace renders to, in order.
pub open spec fn trace_items_spec(tr: Seq<TraceEntryView>) -> Seq<HistoryItemView>
    decreases tr.len(),
{
    if tr.len() == 0 {
        Seq::empty()
    } else {
        let rest = trace_items_spec(tr.drop_last());
        match entry_item_spec(tr.last()) {
            Some(item) => rest.push(item),
            None => rest,
        }
    }
}

/// Closing the turn under construction: pushed only when it has items.
pub open spec fn flush_spec(
    acc: Seq<Seq<HistoryItemView>>,
    cur: Seq<HistoryItemView>,
) -> Seq<Seq<HistoryItemView>> {
    if cur.len() == 0 {
        acc
    } else {
        acc.push(cur)
    }
}

/// The grouping of stored messages into past turns: a user message closes
/// any open turn and opens a new one with itself; an assistant message
/// appends its trace items and its own text, then closes the turn; other
/// roles are skipped; a trailing open turn is closed at the end. Roles
/// compare trimmed and up to ASCII case.
pub open spec fn group_spec(
    msgs: Seq<SessionMessageView>,
    cur: Seq<HistoryItemView>,
    acc: Seq<Seq<HistoryItemView>>,
) -> Seq<Seq<HistoryItemView>>
    decreases msgs.len(),
{
    if msgs.len() == 0 {
        flush_spec(acc, cur)
    } else {
        let m = msgs[0];
        let role = to_lower_spec(trim_spec(m.role));
        if role == to_lower_spec("user"@) {
            group_spec(
                msgs.drop_first(),
                seq![HistoryItemView::UserMessage { text: m.text }],
                flush_spec(acc, cur),
            )
        } else if role == to_lower_spec("assistant"@) {
            let items = cur + trace_items_spec(m.trace).push(
                HistoryItemView::AgentMessage { text: m.text },
            );
            group_spec(msgs.drop_first(), Seq::empty(), flush_spec(acc, items))
        } else {
            group_spec(msgs.drop_first(), cur, acc)
        }
    }
}

/// The past turns a session's stored messages reconstruct to.
pub open spec fn history_turns_spec(msgs: Seq<SessionMessageView>) -> Seq<Seq<HistoryItemView>> {
    group_spec(msgs, Seq::empty(), Seq::empty())
}

fn trace_items(tr: &Vec<TraceEntry>) -> (r: Vec<HistoryItem>)
    ensures
        r.deep_view() == trace_items_spec(tr.deep_view()),
{
    let n = tr.len();
    let mut r: Vec<HistoryItem> = Vec::new();
    assert(r.deep_view() =~= trace_items_spec(tr.deep_view().subrange(0, 0)));
    for i in 0..n
        invariant
            n == tr@.len(),
            r.deep_view() == trace_items_spec(tr.deep_view().subrange(0, i as int)),
    {
        let ghost prefix = tr.deep_view().subrange(0, i as int);
        proof {
            assert(tr.deep_view().subrange(0, i + 1 as int).drop_last() =~= prefix);
            assert(tr.deep_view().subrange(0, i + 1 as int).last() == tr.deep_view()[i as int]);
        }
        match trace_entry_to_item(&tr[i]) {
            Some(item) => {
                r.push(item);
                assert(r.deep_view() =~= trace_items_spec(
                    tr.deep_view().subrange(0, i + 1 as int),
                ));
            },
            None => {
                assert(r.deep_view() =~= trace_items_spec(
                    tr.deep_view().subrange(0, i + 1 as int),
                ));
            },
        }
    }
    assert(tr.deep_view().subrange(0, n as int) =~= tr.deep_view());
    r
}

fn flush_turn(turns: &mut Vec<Vec<HistoryItem>>, items: &mut Vec<HistoryItem>)
    ensures
        final(turns).deep_view() == flush_spec(old(turns).deep_view(), old(items).deep_view()),
        final(items).deep_view() == Seq::<HistoryItemView>::empty(),
{
    if items.len() > 0 {
        let mut taken: Vec<HistoryItem> = Vec::new();
        core::mem::swap(items, &mut taken);
        turns.push(taken);
        assert(final(turns).deep_view() =~= old(turns).deep_view().push(
            old(items).deep_view(),
        ));
    } else {
        assert(final(turns).deep_view() =~= old(turns).deep_view());
    }
    assert(items.deep_view() =~= Seq::<HistoryItemView>::empty());
}

/// Groups a session's stored messages into its past turns.
pub fn bridge_thread_turns(messages: &Vec<SessionMessage>) -> (r: Vec<Vec<HistoryItem>>)
    ensures
        r.deep_view() == history_turns_spec(messages.deep_view()),
{
    let n = messages.len();
    let user = String::from_str("user");
    let assistant = String::from_str("assistant");
    let mut turns: Vec<Vec<HistoryItem>> = Vec::new();
    let mut items: Vec<HistoryItem> = Vec::new();
    assert(turns.deep_view() =~= Seq::<Seq<HistoryItemView>>::empty());
    assert(items.deep_view() =~= Seq::<HistoryItemView>::empty());
    assert(messages.deep_view().subrange(0, n as int) =~= messages.deep_view());
    let mut i: usize = 0;
    while i < n
        invariant
            n == messages@.len(),
            i <= n,
            user@ == "user"@,
            assistant@ == "assistant"@,
            history_turns_spec(messages.deep_view()) == group_spec(
                messages.deep_view().subrange(i as int, n as int),
                items.deep_view(),
                turns.deep_view(),
            ),
        decreases n - i,
    {
        let ghost rem = messages.deep_view().subrange(i as int, n as int);
        proof {
            assert(rem[0] == messages.deep_view()[i as int]);
            assert(rem.drop_first() =~= messages.deep_view().subrange(i + 1, n as int));
        }
        let role = trim_spaces(&messages[i].role);
        if eq_ignore_ascii_case(&role, &user) {
            flush_turn(&mut turns, &mut items);
            items.push(HistoryItem::UserMessage { text: messages[i].text.clone() });
            assert(items.deep_view() =~= seq![
                HistoryItemView::UserMessage { text: messages.deep_view()[i as int].text },
            ]);
        } else if eq_ignore_ascii_case(&role, &assistant) {
            let mut traced = trace_items(&messages[i].trace);
            traced.push(HistoryItem::AgentMessage { text: messages[i].text.clone() });
            let ghost items0 = items.deep_view();
            items.append(&mut traced);
            proof {
                assert(items.deep_view() =~= items0 + trace_items_spec(
                    messages.deep_view()[i as int].trace,
                ).push(
                    HistoryItemView::AgentMessage { text: messages.deep_view()[i as int].text },
                ));
            }
            flush_turn(&mut turns, &mut items);
        }
        i = i + 1;
    }
    assert(messages.deep_view().subrange(n as int, n as int)
        =~= Seq::<SessionMessageView>::empty());
    flush_turn(&mut turns, &mut items);
    turns
}

} // verus!
