//! Progress events of one agent run, and the laws its event trace obeys.
use vstd::prelude::*;

verus! {

/// Events streamed from the agent loop to its listener.
#[derive(Debug, Clone, PartialEq, Eq)]
pub enum AgentStreamEvent {
    /// A chunk of text from the streaming model reply.
    TextChunk { content: String },
    /// A tool call has started execution.
    ToolCallStart { name: String, arguments: String },
    /// A tool call has completed.
    ToolCallResult { name: String, success: bool, output: String },
    /// Memory was queried for context.
    MemoryRecall { query: String, results_count: usize },
    /// A provider call has started.
    ProviderCallStart { provider: String, model: String },
    /// A provider call has ended.
    ProviderCallEnd { duration_ms: u64 },
    /// The agent loop has completed.
    Done { session_id: String },
    /// An error ended the agent loop.
    Error { message: String },
}

/// The mathematical value of an event: its strings as character sequences.
pub enum EventV {
    TextChunk { content: Seq<char> },
    ToolCallStart { name: Seq<char>, arguments: Seq<char> },
    ToolCallResult { name: Seq<char>, success: bool, output: Seq<char> },
    MemoryRecall { query: Seq<char>, results_count: nat },
    ProviderCallStart { provider: Seq<char>, model: Seq<char> },
    ProviderCallEnd { duration_ms: nat },
    Done { session_id: Seq<char> },
    Error { message: Seq<char> },
}

impl View for AgentStreamEvent {
    type V = EventV;

    open spec fn view(&self) -> EventV {
        match self {
            AgentStreamEvent::TextChunk { content } => EventV::TextChunk { content: content@ },
            AgentStreamEvent::ToolCallStart { name, arguments } => EventV::ToolCallStart {
                name: name@,
                arguments: arguments@,
            },
            AgentStreamEvent::ToolCallResult { name, success, output } => EventV::ToolCallResult {
                name: name@,
                success: *success,
                output: output@,
            },
            AgentStreamEvent::MemoryRecall { query, results_count } => EventV::MemoryRecall {
                query: query@,
                results_count: *results_count as nat,
            },
            AgentStreamEvent::ProviderCallStart { provider, model } => EventV::ProviderCallStart {
                provider: provider@,
                model: model@,
            },
            AgentStreamEvent::ProviderCallEnd { duration_ms } => EventV::ProviderCallEnd {
                duration_ms: *duration_ms as nat,
            },
            AgentStreamEvent::Done { session_id } => EventV::Done { session_id: session_id@ },
            AgentStreamEvent::Error { message } => EventV::Error { message: message@ },
        }
    }
}

impl AgentStreamEvent {
    /// The name of the variant, as the listener sees it in the `type` field.
    pub fn kind(&self) -> (r: &'static str)
        ensures
            r@ == event_kind(self@),
    {
        match self {
            AgentStreamEvent::TextChunk { .. } => "TextChunk",
            AgentStreamEvent::ToolCallStart { .. } => "ToolCallStart",
            AgentStreamEvent::ToolCallResult { .. } => "ToolCallResult",
            AgentStreamEvent::MemoryRecall { .. } => "MemoryRecall",
            AgentStreamEvent::ProviderCallStart { .. } => "ProviderCallStart",
            AgentStreamEvent::ProviderCallEnd { .. } => "ProviderCallEnd",
            AgentStreamEvent::Done { .. } => "Done",
            AgentStreamEvent::Error { .. } => "Error",
        }
    }

    /// Whether this event ends a run.
    pub fn is_terminal(&self) -> (r: bool)
        ensures
            r == is_terminal(self@),
    {
        matches!(self, AgentStreamEvent::Done { .. } | AgentStreamEvent::Error { .. })
    }
}

pub open spec fn event_kind(e: EventV) -> Seq<char> {
    match e {
        EventV::TextChunk { .. } => "TextChunk"@,
        EventV::ToolCallStart { .. } => "ToolCallStart"@,
        EventV::ToolCallResult { .. } => "ToolCallResult"@,
        EventV::MemoryRecall { .. } => "MemoryRecall"@,
        EventV::ProviderCallStart { .. } => "ProviderCallStart"@,
        EventV::ProviderCallEnd { .. } => "ProviderCallEnd"@,
        EventV::Done { .. } => "Done"@,
        EventV::Error { .. } => "Error"@,
    }
}

pub open spec fn is_terminal(e: EventV) -> bool {
    e is Done || e is Error
}

/// Number of terminal events (`Done` or `Error`) in a trace.
pub open spec fn terminal_count(t: Seq<EventV>) -> nat
    decreases t.len(),
{
    if t.len() == 0 {
        0
    } else {
        terminal_count(t.drop_last()) + if is_terminal(t.last()) { 1nat } else { 0nat }
    }
}

/// Number of `ProviderCallStart` events in a trace.
pub open spec fn call_starts(t: Seq<EventV>) -> nat
    decreases t.len(),
{
    if t.len() == 0 {
        0
    } else {
        call_starts(t.drop_last()) + if t.last() is ProviderCallStart { 1nat } else { 0nat }
    }
}

/// Number of `ProviderCallEnd` events in a trace.
pub open spec fn call_ends(t: Seq<EventV>) -> nat
    decreases t.len(),
{
    if t.len() == 0 {
        0
    } else {
        call_ends(t.drop_last()) + if t.last() is ProviderCallEnd { 1nat } else { 0nat }
    }
}

/// Reads the tool events of a trace in order: each `ToolCallStart` must come
/// when no call is open and opens one under its name; each `ToolCallResult`
/// must close the open call of the same name. `None` when that fails;
/// otherwise `Some(None)` when every call is closed, or `Some(Some(name))`
/// when the call `name` is still open.
pub open spec fn open_tool_call(t: Seq<EventV>) -> Option<Option<Seq<char>>>
    decreases t.len(),
{
    if t.len() == 0 {
        Some(None)
    } else {
        let prev = open_tool_call(t.drop_last());
        match t.last() {
            EventV::ToolCallStart { name, .. } => if prev == Some(None::<Seq<char>>) {
                Some(Some(name))
            } else {
                None
            },
            EventV::ToolCallResult { name, .. } => if prev == Some(Some(name)) {
                Some(None)
            } else {
                None
            },
            _ => prev,
        }
    }
}

/// How each count of a trace moves when one event is appended.
pub proof fn lemma_trace_push(t: Seq<EventV>, e: EventV)
    ensures
        terminal_count(t.push(e)) == terminal_count(t) + if is_terminal(e) { 1nat } else { 0nat },
        call_starts(t.push(e)) == call_starts(t) + if e is ProviderCallStart { 1nat } else { 0nat },
        call_ends(t.push(e)) == call_ends(t) + if e is ProviderCallEnd { 1nat } else { 0nat },
        open_tool_call(t.push(e)) == match e {
            EventV::ToolCallStart { name, .. } => if open_tool_call(t) == Some(
                None::<Seq<char>>,
            ) {
                Some(Some(name))
            } else {
                None
            },
            EventV::ToolCallResult { name, .. } => if open_tool_call(t) == Some(Some(name)) {
                Some(None)
            } else {
                None
            },
            _ => open_tool_call(t),
        },
{
    assert(t.push(e).drop_last() =~= t);
}

} // verus!
