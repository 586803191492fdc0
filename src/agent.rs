//! The agent loop as a state machine. Each step takes what the outside world
//! reported (a stored turn, a provider reply, a tool outcome, a failure) and
//! returns the actions to perform next, in order. The last action of a batch
//! is the one whose result the caller reports back.
use vstd::prelude::*;
use crate::dispatch::{
    normalize_outcome, outcome_success, outcome_text, result_block, tool_result_block,
    ParsedToolCall, ToolOutcome,
};
use crate::events::{
    call_ends, call_starts, is_terminal, lemma_trace_push, open_tool_call, terminal_count,
    AgentStreamEvent, EventV,
};
use crate::memory::bullets_before;
use crate::text::{append, decimal, decimal_text, owned, slice_chars};
use vstd::string::StrSliceExecFns;

verus! {

/// The most provider calls one run makes before giving up: ten, within the
/// design bound of eight to thirty-two.
pub const MAX_TOOL_ITERATIONS: usize = 10;

/// The longest session title taken from a user message, in characters.
pub const TITLE_CHARS: usize = 60;

/// Role of a message in the conversation sent to a provider.
#[derive(Debug, Clone, Copy, PartialEq, Eq, Structural)]
pub enum Role {
    System,
    User,
    Assistant,
}

impl Role {
    pub fn as_str(&self) -> (r: &'static str)
        ensures
            r@ == role_name(*self),
    {
        match self {
            Role::System => "system",
            Role::User => "user",
            Role::Assistant => "assistant",
        }
    }
}

pub open spec fn role_name(r: Role) -> Seq<char> {
    match r {
        Role::System => "system"@,
        Role::User => "user"@,
        Role::Assistant => "assistant"@,
    }
}

/// One message of the conversation sent to a provider.
#[derive(Debug, Clone, PartialEq, Eq)]
pub struct ChatMessage {
    pub role: Role,
    pub content: String,
}

impl View for ChatMessage {
    type V = (Role, Seq<char>);

    open spec fn view(&self) -> (Role, Seq<char>) {
        (self.role, self.content@)
    }
}

/// Role of a stored turn.
#[derive(Debug, Clone, Copy, PartialEq, Eq, Structural)]
pub enum TurnRole {
    User,
    Assistant,
    ToolCall,
    ToolResult,
}

impl TurnRole {
    pub fn as_str(&self) -> (r: &'static str)
        ensures
            r@ == turn_role_name(*self),
    {
        match self {
            TurnRole::User => "user",
            TurnRole::Assistant => "assistant",
            TurnRole::ToolCall => "tool_call",
            TurnRole::ToolResult => "tool_result",
        }
    }
}

pub open spec fn turn_role_name(r: TurnRole) -> Seq<char> {
    match r {
        TurnRole::User => "user"@,
        TurnRole::Assistant => "assistant"@,
        TurnRole::ToolCall => "tool_call"@,
        TurnRole::ToolResult => "tool_result"@,
    }
}

/// A turn to be appended to the session.
#[derive(Debug, Clone, PartialEq, Eq)]
pub struct TurnDraft {
    pub role: TurnRole,
    pub content: String,
    pub tool_name: Option<String>,
    pub tool_args: Option<String>,
    pub tool_success: Option<bool>,
}

pub struct TurnV {
    pub role: TurnRole,
    pub content: Seq<char>,
    pub tool_name: Option<Seq<char>>,
    pub tool_args: Option<Seq<char>>,
    pub tool_success: Option<bool>,
}

pub open spec fn opt_view(o: Option<String>) -> Option<Seq<char>> {
    match o {
        Some(s) => Some(s@),
        None => None,
    }
}

impl View for TurnDraft {
    type V = TurnV;

    open spec fn view(&self) -> TurnV {
        TurnV {
            role: self.role,
            content: self.content@,
            tool_name: opt_view(self.tool_name),
            tool_args: opt_view(self.tool_args),
            tool_success: self.tool_success,
        }
    }
}

pub open spec fn plain_turn(role: TurnRole, content: Seq<char>) -> TurnV {
    TurnV { role, content, tool_name: None, tool_args: None, tool_success: None }
}

pub open spec fn call_turn(c: (Seq<char>, Seq<char>)) -> TurnV {
    TurnV {
        role: TurnRole::ToolCall,
        content: c.0,
        tool_name: Some(c.0),
        tool_args: Some(c.1),
        tool_success: None,
    }
}

pub open spec fn result_turn(name: Seq<char>, output: Seq<char>, success: bool) -> TurnV {
    TurnV {
        role: TurnRole::ToolResult,
        content: output,
        tool_name: Some(name),
        tool_args: None,
        tool_success: Some(success),
    }
}

/// What the caller is asked to do next.
#[derive(Debug, Clone, PartialEq, Eq)]
pub enum Action {
    /// Deliver an event to the listener.
    Emit(AgentStreamEvent),
    /// Append a turn to the session; report back with `persisted` or `failed`.
    Persist(TurnDraft),
    /// Set the session title; a failure is ignored.
    SetTitle(String),
    /// Stream a reply for `history()`; report with `text_received`, then
    /// `provider_replied` or `failed`.
    CallProvider,
    /// Run the tool; report with `tool_finished`.
    RunTool(ParsedToolCall),
    /// The run is over.
    Finish,
}

pub enum ActionV {
    Emit(EventV),
    Persist(TurnV),
    SetTitle(Seq<char>),
    CallProvider,
    RunTool((Seq<char>, Seq<char>)),
    Finish,
}

impl View for Action {
    type V = ActionV;

    open spec fn view(&self) -> ActionV {
        match self {
            Action::Emit(e) => ActionV::Emit(e@),
            Action::Persist(t) => ActionV::Persist(t@),
            Action::SetTitle(s) => ActionV::SetTitle(s@),
            Action::CallProvider => ActionV::CallProvider,
            Action::RunTool(c) => ActionV::RunTool(c@),
            Action::Finish => ActionV::Finish,
        }
    }
}

pub open spec fn actions_view(a: Seq<Action>) -> Seq<ActionV> {
    a.map_values(|x: Action| x@)
}

/// Where a run stands.
#[derive(Debug, Clone, Copy, PartialEq, Eq, Structural)]
pub enum Phase {
    /// Waiting for the user turn to be stored.
    PersistUser,
    /// Waiting for the provider's reply.
    AwaitProvider,
    /// Waiting for the final assistant turn to be stored.
    PersistAssistant,
    /// Waiting for the turn of tool call `i` to be stored.
    PersistCall(usize),
    /// Waiting for tool call `i` to run.
    RunTool(usize),
    /// Waiting for the result turn of tool call `i` to be stored.
    PersistResult(usize),
    /// The run is over.
    Finished,
}

/// The title a session takes from its first user message.
pub open spec fn title_of(m: Seq<char>) -> Seq<char> {
    if m.len() <= TITLE_CHARS {
        m
    } else {
        m.subrange(0, TITLE_CHARS as int)
    }
}

/// The message of the error that ends a run at the iteration cap.
pub open spec fn cap_message() -> Seq<char> {
    "Agent exceeded maximum tool iterations ("@ + decimal(MAX_TOOL_ITERATIONS as nat) + ")"@
}

/// The user message that carries tool results back to the model.
pub open spec fn results_message(results: Seq<char>) -> Seq<char> {
    "[Tool results]\n"@ + results
}

/// One run of the agent loop.
pub struct AgentRun {
    session_id: String,
    user_message: String,
    provider: String,
    model: String,
    history: Vec<ChatMessage>,
    iterations: usize,
    reply: String,
    calls: Vec<ParsedToolCall>,
    results: String,
    last_output: String,
    last_success: bool,
    phase: Phase,
    trace: Ghost<Seq<EventV>>,
}

impl AgentRun {
    /// The events this run has handed out in `Emit` actions, in order.
    pub closed spec fn trace(&self) -> Seq<EventV> {
        self.trace@
    }

    pub closed spec fn phase_spec(&self) -> Phase {
        self.phase
    }

    pub closed spec fn iterations_spec(&self) -> nat {
        self.iterations as nat
    }

    pub closed spec fn history_view(&self) -> Seq<(Role, Seq<char>)> {
        self.history@.map_values(|m: ChatMessage| m@)
    }

    pub closed spec fn session_view(&self) -> Seq<char> {
        self.session_id@
    }

    pub closed spec fn user_view(&self) -> Seq<char> {
        self.user_message@
    }

    pub closed spec fn provider_view(&self) -> Seq<char> {
        self.provider@
    }

    pub closed spec fn model_view(&self) -> Seq<char> {
        self.model@
    }

    pub closed spec fn reply_view(&self) -> Seq<char> {
        self.reply@
    }

    pub closed spec fn calls_view(&self) -> Seq<(Seq<char>, Seq<char>)> {
        self.calls@.map_values(|c: ParsedToolCall| c@)
    }

    pub closed spec fn results_view(&self) -> Seq<char> {
        self.results@
    }

    pub closed spec fn last_output_view(&self) -> Seq<char> {
        self.last_output@
    }

    pub closed spec fn last_success_spec(&self) -> bool {
        self.last_success
    }

    /// The state invariant: it ties the phase to what the trace holds.
    pub closed spec fn wf(&self) -> bool {
        let t = self.trace@;
        &&& self.iterations <= MAX_TOOL_ITERATIONS
        &&& call_starts(t) == self.iterations
        &&& match self.phase {
            Phase::PersistUser => {
                &&& self.iterations == 0
                &&& call_ends(t) == 0
                &&& terminal_count(t) == 0
                &&& open_tool_call(t) == Some(None::<Seq<char>>)
            },
            Phase::AwaitProvider => {
                &&& self.iterations >= 1
                &&& call_starts(t) == call_ends(t) + 1
                &&& terminal_count(t) == 0
                &&& open_tool_call(t) == Some(None::<Seq<char>>)
            },
            Phase::PersistAssistant => {
                &&& call_starts(t) == call_ends(t)
                &&& terminal_count(t) == 0
                &&& open_tool_call(t) == Some(None::<Seq<char>>)
            },
            Phase::PersistCall(i) => {
                &&& i < self.calls.len()
                &&& call_starts(t) == call_ends(t)
                &&& terminal_count(t) == 0
                &&& open_tool_call(t) == Some(None::<Seq<char>>)
            },
            Phase::RunTool(i) | Phase::PersistResult(i) => {
                &&& i < self.calls.len()
                &&& call_starts(t) == call_ends(t)
                &&& terminal_count(t) == 0
                &&& open_tool_call(t) == Some(Some(self.calls@[i as int].name@))
            },
            Phase::Finished => {
                &&& (call_starts(t) == call_ends(t) || call_starts(t) == call_ends(t) + 1)
                &&& terminal_count(t) == 1
                &&& t.len() > 0
                &&& is_terminal(t.last())
                &&& open_tool_call(t) is Some
            },
        }
    }

    /// Where the run stands.
    pub fn phase(&self) -> (r: Phase)
        ensures
            r == self.phase_spec(),
    {
        self.phase
    }

    /// The conversation to send on the next provider call.
    pub fn history(&self) -> (r: &Vec<ChatMessage>)
        ensures
            r@.map_values(|m: ChatMessage| m@) == self.history_view(),
    {
        &self.history
    }

    /// Provider calls begun so far.
    pub fn iterations(&self) -> (r: usize)
        ensures
            r == self.iterations_spec(),
    {
        self.iterations
    }

    pub fn session_id(&self) -> (r: &str)
        ensures
            r@ == self.session_view(),
    {
        self.session_id.as_str()
    }

    /// Starts a run: reports the memory recall, whose count is the number of
    /// `- ` lines of the memory context, and asks for the original user
    /// message to be stored. The first user turn of the conversation is
    /// the memory context followed by the message.
    pub fn start(
        session_id: String,
        user_message: String,
        provider: String,
        model: String,
        system_prompt: String,
        memory_context: String,
        results_count: usize,
    ) -> (r: (AgentRun, Vec<Action>))
        requires
            results_count == bullets_before(memory_context@, memory_context@.len() as int),
        ensures
            r.0.wf(),
            r.0.phase_spec() == Phase::PersistUser,
            r.0.session_view() == session_id@,
            r.0.user_view() == user_message@,
            r.0.provider_view() == provider@,
            r.0.model_view() == model@,
            r.0.history_view() == seq![
                (Role::System, system_prompt@),
                (Role::User, memory_context@ + user_message@),
            ],
            r.0.trace() == seq![
                EventV::MemoryRecall { query: user_message@, results_count: results_count as nat },
            ],
            actions_view(r.1@) == seq![
                ActionV::Emit(
                    EventV::MemoryRecall { query: user_message@, results_count: results_count as nat },
                ),
                ActionV::Persist(plain_turn(TurnRole::User, user_message@)),
            ],
    {
        let mut enriched = memory_context;
        append(&mut enriched, user_message.as_str());
        let mut history: Vec<ChatMessage> = Vec::new();
        history.push(ChatMessage { role: Role::System, content: system_prompt });
        history.push(ChatMessage { role: Role::User, content: enriched });
        let recall = AgentStreamEvent::MemoryRecall { query: user_message.clone(), results_count };
        let ghost t = Seq::<EventV>::empty().push(recall@);
        proof {
            lemma_trace_push(Seq::<EventV>::empty(), recall@);
        }
        let mut actions: Vec<Action> = Vec::new();
        actions.push(Action::Emit(recall));
        actions.push(
            Action::Persist(
                TurnDraft {
                    role: TurnRole::User,
                    content: user_message.clone(),
                    tool_name: None,
                    tool_args: None,
                    tool_success: None,
                },
            ),
        );
        let run = AgentRun {
            session_id,
            user_message,
            provider,
            model,
            history,
            iterations: 0,
            reply: String::new(),
            calls: Vec::new(),
            results: String::new(),
            last_output: String::new(),
            last_success: false,
            phase: Phase::PersistUser,
            trace: Ghost(t),
        };
        assert(run.history@.map_values(|m: ChatMessage| m@) =~= seq![
            (Role::System, system_prompt@),
            (Role::User, memory_context@ + user_message@),
        ]);
        assert(t =~= seq![
            EventV::MemoryRecall { query: user_message@, results_count: results_count as nat },
        ]);
        assert(actions_view(actions@) =~= seq![
            ActionV::Emit(
                EventV::MemoryRecall { query: user_message@, results_count: results_count as nat },
            ),
            ActionV::Persist(plain_turn(TurnRole::User, user_message@)),
        ]);
        (run, actions)
    }
}


impl AgentRun {
    /// The parts of a run that no step changes.
    pub open spec fn same_run(&self, other: &AgentRun) -> bool {
        &&& self.session_view() == other.session_view()
        &&& self.user_view() == other.user_view()
        &&& self.provider_view() == other.provider_view()
        &&& self.model_view() == other.model_view()
    }

    /// Events and actions that start the next provider call.
    pub open spec fn call_start_event(&self) -> EventV {
        EventV::ProviderCallStart { provider: self.provider_view(), model: self.model_view() }
    }

    /// The event that reports the result of tool call `i`.
    pub open spec fn result_event(&self, i: int) -> EventV {
        EventV::ToolCallResult {
            name: self.calls_view()[i].0,
            success: self.last_success_spec(),
            output: self.last_output_view(),
        }
    }

    /// Reports that the turn asked for by the last `Persist` action was stored.
    pub fn persisted(&mut self) -> (actions: Vec<Action>)
        requires
            old(self).wf(),
            old(self).phase_spec() is PersistUser || old(self).phase_spec() is PersistAssistant
                || old(self).phase_spec() is PersistCall || old(self).phase_spec() is PersistResult,
        ensures
            final(self).wf(),
            final(self).same_run(old(self)),
            final(self).calls_view() == old(self).calls_view(),
            match old(self).phase_spec() {
                Phase::PersistUser => {
                    &&& final(self).phase_spec() == Phase::AwaitProvider
                    &&& final(self).iterations_spec() == 1
                    &&& final(self).history_view() == old(self).history_view()
                    &&& final(self).trace() == old(self).trace().push(old(self).call_start_event())
                    &&& actions_view(actions@) == seq![
                        ActionV::Emit(old(self).call_start_event()),
                        ActionV::CallProvider,
                    ]
                },
                Phase::PersistAssistant => {
                    let done = EventV::Done { session_id: old(self).session_view() };
                    &&& final(self).phase_spec() == Phase::Finished
                    &&& final(self).trace() == old(self).trace().push(done)
                    &&& actions_view(actions@) == if old(self).user_view().len() > 0 {
                        seq![
                            ActionV::SetTitle(title_of(old(self).user_view())),
                            ActionV::Emit(done),
                            ActionV::Finish,
                        ]
                    } else {
                        seq![ActionV::Emit(done), ActionV::Finish]
                    }
                },
                Phase::PersistCall(i) => {
                    let c = old(self).calls_view()[i as int];
                    let ev = EventV::ToolCallStart { name: c.0, arguments: c.1 };
                    &&& final(self).phase_spec() == Phase::RunTool(i)
                    &&& final(self).history_view() == old(self).history_view()
                    &&& final(self).reply_view() == old(self).reply_view()
                    &&& final(self).results_view() == old(self).results_view()
                    &&& final(self).iterations_spec() == old(self).iterations_spec()
                    &&& final(self).trace() == old(self).trace().push(ev)
                    &&& actions_view(actions@) == seq![ActionV::Emit(ev), ActionV::RunTool(c)]
                },
                Phase::PersistResult(i) => {
                    let ev = old(self).result_event(i as int);
                    let t = old(self).trace().push(ev);
                    if i + 1 < old(self).calls_view().len() {
                        &&& final(self).phase_spec() == Phase::PersistCall((i + 1) as usize)
                        &&& final(self).history_view() == old(self).history_view()
                        &&& final(self).reply_view() == old(self).reply_view()
                        &&& final(self).results_view() == old(self).results_view()
                        &&& final(self).iterations_spec() == old(self).iterations_spec()
                        &&& final(self).trace() == t
                        &&& actions_view(actions@) == seq![
                            ActionV::Emit(ev),
                            ActionV::Persist(call_turn(old(self).calls_view()[i + 1])),
                        ]
                    } else {
                        &&& final(self).history_view() == old(self).history_view().push(
                            (Role::Assistant, old(self).reply_view()),
                        ).push((Role::User, results_message(old(self).results_view())))
                        &&& if old(self).iterations_spec() < MAX_TOOL_ITERATIONS {
                            &&& final(self).phase_spec() == Phase::AwaitProvider
                            &&& final(self).iterations_spec() == old(self).iterations_spec() + 1
                            &&& final(self).trace() == t.push(old(self).call_start_event())
                            &&& actions_view(actions@) == seq![
                                ActionV::Emit(ev),
                                ActionV::Emit(old(self).call_start_event()),
                                ActionV::CallProvider,
                            ]
                        } else {
                            let err = EventV::Error { message: cap_message() };
                            &&& final(self).phase_spec() == Phase::Finished
                            &&& final(self).trace() == t.push(err)
                            &&& actions_view(actions@) == seq![
                                ActionV::Emit(ev),
                                ActionV::Emit(err),
                                ActionV::Finish,
                            ]
                        }
                    }
                },
                _ => false,
            },
    {
        let mut actions: Vec<Action> = Vec::new();
        let ghost t0 = self.trace@;
        match self.phase {
            Phase::PersistUser => {
                let ev = AgentStreamEvent::ProviderCallStart {
                    provider: self.provider.clone(),
                    model: self.model.clone(),
                };
                proof {
                    lemma_trace_push(t0, ev@);
                }
                self.trace = Ghost(t0.push(ev@));
                actions.push(Action::Emit(ev));
                actions.push(Action::CallProvider);
                self.iterations = 1;
                self.phase = Phase::AwaitProvider;
                assert(actions_view(actions@) =~= seq![ActionV::Emit(ev@), ActionV::CallProvider]);
            },
            Phase::PersistAssistant => {
                if self.user_message.as_str().unicode_len() > 0 {
                    let n = self.user_message.as_str().unicode_len();
                    let title = if n <= TITLE_CHARS {
                        self.user_message.clone()
                    } else {
                        slice_chars(self.user_message.as_str(), 0, TITLE_CHARS)
                    };
                    actions.push(Action::SetTitle(title));
                }
                let ev = AgentStreamEvent::Done { session_id: self.session_id.clone() };
                proof {
                    lemma_trace_push(t0, ev@);
                }
                self.trace = Ghost(t0.push(ev@));
                actions.push(Action::Emit(ev));
                actions.push(Action::Finish);
                self.phase = Phase::Finished;
                proof {
                if self.user_message@.len() > 0nat {
                    assert(actions_view(actions@) =~= seq![
                        ActionV::SetTitle(title_of(self.user_message@)),
                        ActionV::Emit(ev@),
                        ActionV::Finish,
                    ]);
                } else {
                    assert(actions_view(actions@) =~= seq![ActionV::Emit(ev@), ActionV::Finish]);
                }
                }
            },
            Phase::PersistCall(i) => {
                let c = ParsedToolCall {
                    name: self.calls[i].name.clone(),
                    arguments: self.calls[i].arguments.clone(),
                };
                let ev = AgentStreamEvent::ToolCallStart {
                    name: c.name.clone(),
                    arguments: c.arguments.clone(),
                };
                proof {
                    lemma_trace_push(t0, ev@);
                }
                self.trace = Ghost(t0.push(ev@));
                actions.push(Action::Emit(ev));
                actions.push(Action::RunTool(c));
                self.phase = Phase::RunTool(i);
                assert(actions_view(actions@) =~= seq![ActionV::Emit(ev@), ActionV::RunTool(c@)]);
            },
            Phase::PersistResult(i) => {
                let ev = AgentStreamEvent::ToolCallResult {
                    name: self.calls[i].name.clone(),
                    success: self.last_success,
                    output: self.last_output.clone(),
                };
                proof {
                    lemma_trace_push(t0, ev@);
                }
                let ghost t1 = t0.push(ev@);
                self.trace = Ghost(t1);
                actions.push(Action::Emit(ev));
                if i + 1 < self.calls.len() {
                    let c = &self.calls[i + 1];
                    actions.push(
                        Action::Persist(
                            TurnDraft {
                                role: TurnRole::ToolCall,
                                content: c.name.clone(),
                                tool_name: Some(c.name.clone()),
                                tool_args: Some(c.arguments.clone()),
                                tool_success: None,
                            },
                        ),
                    );
                    self.phase = Phase::PersistCall(i + 1);
                    assert(actions_view(actions@) =~= seq![
                        ActionV::Emit(ev@),
                        ActionV::Persist(call_turn(self.calls@[i + 1]@)),
                    ]);
                } else {
                    let ghost h0 = self.history@;
                    self.history.push(
                        ChatMessage { role: Role::Assistant, content: self.reply.clone() },
                    );
                    let mut feedback = owned("[Tool results]\n");
                    append(&mut feedback, self.results.as_str());
                    self.history.push(ChatMessage { role: Role::User, content: feedback });
                    assert(self.history@.map_values(|m: ChatMessage| m@) =~= h0.map_values(
                        |m: ChatMessage| m@,
                    ).push((Role::Assistant, self.reply@)).push(
                        (Role::User, results_message(self.results@)),
                    ));
                    if self.iterations < MAX_TOOL_ITERATIONS {
                        let start = AgentStreamEvent::ProviderCallStart {
                            provider: self.provider.clone(),
                            model: self.model.clone(),
                        };
                        proof {
                            lemma_trace_push(t1, start@);
                        }
                        self.trace = Ghost(t1.push(start@));
                        actions.push(Action::Emit(start));
                        actions.push(Action::CallProvider);
                        self.iterations = self.iterations + 1;
                        self.phase = Phase::AwaitProvider;
                        assert(actions_view(actions@) =~= seq![
                            ActionV::Emit(ev@),
                            ActionV::Emit(start@),
                            ActionV::CallProvider,
                        ]);
                    } else {
                        let mut message = owned("Agent exceeded maximum tool iterations (");
                        let digits = decimal_text(MAX_TOOL_ITERATIONS as u64);
                        append(&mut message, digits.as_str());
                        append(&mut message, ")");
                        let err = AgentStreamEvent::Error { message };
                        proof {
                            lemma_trace_push(t1, err@);
                        }
                        self.trace = Ghost(t1.push(err@));
                        actions.push(Action::Emit(err));
                        actions.push(Action::Finish);
                        self.phase = Phase::Finished;
                        assert(actions_view(actions@) =~= seq![
                            ActionV::Emit(ev@),
                            ActionV::Emit(err@),
                            ActionV::Finish,
                        ]);
                    }
                }
            },
            _ => {},
        }
        actions
    }
}


impl AgentRun {
    /// Reports a piece of reply text as it streams in; a non-empty piece is
    /// handed on as a `TextChunk`.
    pub fn text_received(&mut self, delta: String) -> (actions: Vec<Action>)
        requires
            old(self).wf(),
            old(self).phase_spec() == Phase::AwaitProvider,
        ensures
            final(self).wf(),
            final(self).same_run(old(self)),
            final(self).phase_spec() == Phase::AwaitProvider,
            final(self).iterations_spec() == old(self).iterations_spec(),
            final(self).history_view() == old(self).history_view(),
            final(self).calls_view() == old(self).calls_view(),
            delta@.len() > 0 ==> {
                &&& final(self).trace() == old(self).trace().push(
                    EventV::TextChunk { content: delta@ },
                )
                &&& actions_view(actions@) == seq![
                    ActionV::Emit(EventV::TextChunk { content: delta@ }),
                ]
            },
            delta@.len() == 0 ==> {
                &&& final(self).trace() == old(self).trace()
                &&& actions@.len() == 0
            },
    {
        let mut actions: Vec<Action> = Vec::new();
        if delta.as_str().unicode_len() > 0 {
            let ev = AgentStreamEvent::TextChunk { content: delta };
            proof {
                lemma_trace_push(self.trace@, ev@);
            }
            self.trace = Ghost(self.trace@.push(ev@));
            actions.push(Action::Emit(ev));
            assert(actions_view(actions@) =~= seq![ActionV::Emit(ev@)]);
        }
        actions
    }

    /// Reports the provider's full reply, with what the extractor made of it:
    /// the prose and the tool calls in order of appearance.
    pub fn provider_replied(
        &mut self,
        reply: String,
        duration_ms: u64,
        prose: String,
        calls: Vec<ParsedToolCall>,
    ) -> (actions: Vec<Action>)
        requires
            old(self).wf(),
            old(self).phase_spec() == Phase::AwaitProvider,
        ensures
            final(self).wf(),
            final(self).same_run(old(self)),
            final(self).iterations_spec() == old(self).iterations_spec(),
            final(self).history_view() == old(self).history_view(),
            final(self).reply_view() == reply@,
            final(self).calls_view() == calls@.map_values(|c: ParsedToolCall| c@),
            final(self).results_view() == Seq::<char>::empty(),
            final(self).trace() == old(self).trace().push(
                EventV::ProviderCallEnd { duration_ms: duration_ms as nat },
            ),
            calls@.len() == 0 ==> {
                &&& final(self).phase_spec() == Phase::PersistAssistant
                &&& actions_view(actions@) == seq![
                    ActionV::Emit(EventV::ProviderCallEnd { duration_ms: duration_ms as nat }),
                    ActionV::Persist(
                        plain_turn(
                            TurnRole::Assistant,
                            if prose@.len() == 0 {
                                reply@
                            } else {
                                prose@
                            },
                        ),
                    ),
                ]
            },
            calls@.len() > 0 ==> {
                &&& final(self).phase_spec() == Phase::PersistCall(0)
                &&& actions_view(actions@) == seq![
                    ActionV::Emit(EventV::ProviderCallEnd { duration_ms: duration_ms as nat }),
                    ActionV::Persist(call_turn(calls@[0]@)),
                ]
            },
    {
        let ghost rv = reply@;
        let ghost pv = prose@;
        let ghost cv = calls@;
        let mut actions: Vec<Action> = Vec::new();
        let ev = AgentStreamEvent::ProviderCallEnd { duration_ms };
        proof {
            lemma_trace_push(self.trace@, ev@);
        }
        self.trace = Ghost(self.trace@.push(ev@));
        actions.push(Action::Emit(ev));
        if calls.len() == 0 {
            let text = if prose.as_str().unicode_len() == 0 {
                reply.clone()
            } else {
                prose
            };
            actions.push(
                Action::Persist(
                    TurnDraft {
                        role: TurnRole::Assistant,
                        content: text,
                        tool_name: None,
                        tool_args: None,
                        tool_success: None,
                    },
                ),
            );
            self.phase = Phase::PersistAssistant;
        } else {
            let c = &calls[0];
            actions.push(
                Action::Persist(
                    TurnDraft {
                        role: TurnRole::ToolCall,
                        content: c.name.clone(),
                        tool_name: Some(c.name.clone()),
                        tool_args: Some(c.arguments.clone()),
                        tool_success: None,
                    },
                ),
            );
            self.phase = Phase::PersistCall(0);
        }
        self.reply = reply;
        self.calls = calls;
        self.results = String::new();
        proof {
            if cv.len() == 0 {
                assert(actions_view(actions@) =~= seq![
                    ActionV::Emit(ev@),
                    ActionV::Persist(
                        plain_turn(
                            TurnRole::Assistant,
                            if pv.len() == 0 {
                                rv
                            } else {
                                pv
                            },
                        ),
                    ),
                ]);
            } else {
                assert(actions_view(actions@) =~= seq![
                    ActionV::Emit(ev@),
                    ActionV::Persist(call_turn(cv[0]@)),
                ]);
            }
        }
        actions
    }

    /// Reports what came of running the current tool call. Tool failures do
    /// not end the run: they are reported to the model as results.
    pub fn tool_finished(&mut self, outcome: ToolOutcome) -> (actions: Vec<Action>)
        requires
            old(self).wf(),
            old(self).phase_spec() is RunTool,
        ensures
            final(self).wf(),
            final(self).same_run(old(self)),
            final(self).iterations_spec() == old(self).iterations_spec(),
            final(self).history_view() == old(self).history_view(),
            final(self).calls_view() == old(self).calls_view(),
            final(self).reply_view() == old(self).reply_view(),
            final(self).trace() == old(self).trace(),
            ({
                let i = old(self).phase_spec()->RunTool_0;
                let name = old(self).calls_view()[i as int].0;
                let output = outcome_text(name, outcome);
                let success = outcome_success(outcome);
                &&& final(self).phase_spec() == Phase::PersistResult(i)
                &&& final(self).last_output_view() == output
                &&& final(self).last_success_spec() == success
                &&& final(self).results_view() == old(self).results_view() + result_block(
                    name,
                    output,
                )
                &&& actions_view(actions@) == seq![
                    ActionV::Persist(result_turn(name, output, success)),
                ]
            }),
    {
        let i = match self.phase {
            Phase::RunTool(i) => i,
            _ => 0,
        };
        let (success, output) = normalize_outcome(self.calls[i].name.as_str(), &outcome);
        let block = tool_result_block(self.calls[i].name.as_str(), output.as_str());
        append(&mut self.results, block.as_str());
        let mut actions: Vec<Action> = Vec::new();
        actions.push(
            Action::Persist(
                TurnDraft {
                    role: TurnRole::ToolResult,
                    content: output.clone(),
                    tool_name: Some(self.calls[i].name.clone()),
                    tool_args: None,
                    tool_success: Some(success),
                },
            ),
        );
        self.last_output = output;
        self.last_success = success;
        self.phase = Phase::PersistResult(i);
        assert(actions_view(actions@) =~= seq![
            ActionV::Persist(result_turn(self.calls@[i as int].name@, self.last_output@, success)),
        ]);
        actions
    }

    /// Reports a failure that ends the run: a turn that could not be stored,
    /// or a provider call that failed. The run ends with one `Error` event.
    pub fn failed(&mut self, message: String) -> (actions: Vec<Action>)
        requires
            old(self).wf(),
            old(self).phase_spec() != Phase::Finished,
        ensures
            final(self).wf(),
            final(self).same_run(old(self)),
            final(self).phase_spec() == Phase::Finished,
            final(self).trace() == old(self).trace().push(EventV::Error { message: message@ }),
            actions_view(actions@) == seq![
                ActionV::Emit(EventV::Error { message: message@ }),
                ActionV::Finish,
            ],
    {
        let ev = AgentStreamEvent::Error { message };
        proof {
            lemma_trace_push(self.trace@, ev@);
        }
        self.trace = Ghost(self.trace@.push(ev@));
        let mut actions: Vec<Action> = Vec::new();
        actions.push(Action::Emit(ev));
        actions.push(Action::Finish);
        self.phase = Phase::Finished;
        assert(actions_view(actions@) =~= seq![ActionV::Emit(ev@), ActionV::Finish]);
        actions
    }
}

/// A run hands out exactly one terminal event (`Done` or `Error`) once it
/// has finished, as its last event, and none before.
pub proof fn lemma_one_terminal_event(run: &AgentRun)
    requires
        run.wf(),
    ensures
        run.phase_spec() == Phase::Finished ==> terminal_count(run.trace()) == 1
            && run.trace().len() > 0 && is_terminal(run.trace().last()),
        run.phase_spec() != Phase::Finished ==> terminal_count(run.trace()) == 0,
{
}

/// Tool events pair up: each `ToolCallStart` is followed by the
/// `ToolCallResult` of the same name before any other call starts; at most
/// the last call is left open, and only while it runs or when an error ended
/// the run.
pub proof fn lemma_tool_calls_paired(run: &AgentRun)
    requires
        run.wf(),
    ensures
        open_tool_call(run.trace()) is Some,
        !(run.phase_spec() is RunTool || run.phase_spec() is PersistResult || run.phase_spec()
            is Finished) ==> open_tool_call(run.trace()) == Some(None::<Seq<char>>),
{
}

/// Provider calls are bracketed: the `ProviderCallStart` events number the
/// `ProviderCallEnd` events, or one more while a call is under way or when an
/// error cut it short; and they never exceed the iteration cap.
pub proof fn lemma_provider_calls_bracketed(run: &AgentRun)
    requires
        run.wf(),
    ensures
        call_starts(run.trace()) == call_ends(run.trace()) || call_starts(run.trace())
            == call_ends(run.trace()) + 1,
        call_starts(run.trace()) <= MAX_TOOL_ITERATIONS,
        run.phase_spec() == Phase::AwaitProvider ==> call_starts(run.trace()) == call_ends(
            run.trace(),
        ) + 1,
{
}

} // verus!
