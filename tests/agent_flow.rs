use viziclaw_agent::agent::{
    Action, AgentRun, ChatMessage, Phase, Role, TurnDraft, TurnRole, MAX_TOOL_ITERATIONS,
};
use viziclaw_agent::dispatch::{ParsedToolCall, ToolOutcome};
use viziclaw_agent::events::AgentStreamEvent;
use viziclaw_agent::extract::parse_tool_calls;
use viziclaw_agent::provider::check_status;
use viziclaw_agent::session::SessionStore;
use viziclaw_agent::stream::{Dialect, StreamDecoder};

/// Performs the store and title actions of a batch and collects its events.
fn apply(store: &mut SessionStore, sid: &str, actions: &[Action], events: &mut Vec<AgentStreamEvent>) {
    for a in actions {
        match a {
            Action::Emit(e) => events.push(e.clone()),
            Action::Persist(t) => {
                store
                    .add_message(
                        sid,
                        t.role.as_str(),
                        &t.content,
                        t.tool_name.as_deref(),
                        t.tool_args.as_deref(),
                        t.tool_success,
                    )
                    .unwrap();
            }
            Action::SetTitle(title) => store.update_title(sid, title),
            _ => {}
        }
    }
}

fn begin(store: &mut SessionStore, message: &str, events: &mut Vec<AgentStreamEvent>) -> (AgentRun, String) {
    let sid = store.create_session("openai", "gpt").unwrap();
    let (mut run, actions) = AgentRun::start(
        sid.clone(),
        message.to_string(),
        "openai".to_string(),
        "gpt".to_string(),
        "system prompt".to_string(),
        String::new(),
        0,
    );
    apply(store, &sid, &actions, events);
    let actions = run.persisted();
    apply(store, &sid, &actions, events);
    (run, sid)
}

fn reply(run: &mut AgentRun, store: &mut SessionStore, sid: &str, text: &str, events: &mut Vec<AgentStreamEvent>) -> Vec<Action> {
    let (prose, calls) = parse_tool_calls(text);
    let actions = run.provider_replied(text.to_string(), 7, prose, calls);
    apply(store, sid, &actions, events);
    actions
}

fn roles(store: &SessionStore, sid: &str) -> Vec<String> {
    store.get_session(sid).unwrap().messages.iter().map(|m| m.role.clone()).collect()
}

#[test]
fn zero_tool_reply() {
    let mut store = SessionStore::new();
    let mut events = Vec::new();
    let (mut run, sid) = begin(&mut store, "hi", &mut events);
    let mut decoder = StreamDecoder::new(Dialect::OpenAiCompat);
    let body = b"data: {\"choices\":[{\"delta\":{\"content\":\"hello\"}}]}\n\ndata: [DONE]\n";
    for d in decoder.feed(body) {
        let actions = run.text_received(d);
        apply(&mut store, &sid, &actions, &mut events);
    }
    let text = decoder.text().to_string();
    assert_eq!(text, "hello");
    reply(&mut run, &mut store, &sid, &text, &mut events);
    let actions = run.persisted();
    apply(&mut store, &sid, &actions, &mut events);
    assert_eq!(run.phase(), Phase::Finished);
    let kinds: Vec<&str> = events.iter().map(|e| e.kind()).collect();
    assert_eq!(kinds, vec!["MemoryRecall", "ProviderCallStart", "TextChunk", "ProviderCallEnd", "Done"]);
    assert_eq!(events[0], AgentStreamEvent::MemoryRecall { query: "hi".to_string(), results_count: 0 });
    assert_eq!(events[2], AgentStreamEvent::TextChunk { content: "hello".to_string() });
    let detail = store.get_session(&sid).unwrap();
    assert_eq!(detail.title, "hi");
    assert_eq!(detail.messages.len(), 2);
    assert_eq!((detail.messages[0].role.as_str(), detail.messages[0].content.as_str()), ("user", "hi"));
    assert_eq!((detail.messages[1].role.as_str(), detail.messages[1].content.as_str()), ("assistant", "hello"));
}

#[test]
fn single_tool_round_trip() {
    let mut store = SessionStore::new();
    let mut events = Vec::new();
    let (mut run, sid) = begin(&mut store, "run it", &mut events);
    let first = "<tool_call>{\"name\":\"shell\",\"arguments\":{\"cmd\":\"echo x\"}}</tool_call>";
    let actions = reply(&mut run, &mut store, &sid, first, &mut events);
    assert_eq!(run.phase(), Phase::PersistCall(0));
    assert!(matches!(&actions[1], Action::Persist(TurnDraft { role: TurnRole::ToolCall, .. })));
    let actions = run.persisted();
    apply(&mut store, &sid, &actions, &mut events);
    assert_eq!(
        actions[1],
        Action::RunTool(ParsedToolCall { name: "shell".to_string(), arguments: "{\"cmd\":\"echo x\"}".to_string() })
    );
    let outcome = ToolOutcome::Completed { success: true, output: "x\n".to_string(), error: None };
    let actions = run.tool_finished(outcome);
    apply(&mut store, &sid, &actions, &mut events);
    let actions = run.persisted();
    apply(&mut store, &sid, &actions, &mut events);
    assert_eq!(
        actions[0],
        Action::Emit(AgentStreamEvent::ToolCallResult { name: "shell".to_string(), success: true, output: "x\n".to_string() })
    );
    assert_eq!(actions[2], Action::CallProvider);
    let history = run.history();
    assert_eq!(history.len(), 4);
    assert_eq!(history[2], ChatMessage { role: Role::Assistant, content: first.to_string() });
    assert_eq!(
        history[3].content,
        "[Tool results]\n<tool_result name=\"shell\">\nx\n\n</tool_result>\n"
    );
    reply(&mut run, &mut store, &sid, "done", &mut events);
    let actions = run.persisted();
    apply(&mut store, &sid, &actions, &mut events);
    assert_eq!(roles(&store, &sid), vec!["user", "tool_call", "tool_result", "assistant"]);
    let detail = store.get_session(&sid).unwrap();
    assert_eq!(detail.messages[1].tool_name.as_deref(), Some("shell"));
    assert_eq!(detail.messages[2].tool_success, Some(true));
    assert_eq!(detail.messages[3].content, "done");
}

#[test]
fn unknown_tool_continues() {
    let mut store = SessionStore::new();
    let mut events = Vec::new();
    let (mut run, sid) = begin(&mut store, "x", &mut events);
    let text = "<tool_call>{\"name\":\"does_not_exist\",\"arguments\":{}}</tool_call>";
    reply(&mut run, &mut store, &sid, text, &mut events);
    let actions = run.persisted();
    apply(&mut store, &sid, &actions, &mut events);
    let actions = run.tool_finished(ToolOutcome::Unknown);
    apply(&mut store, &sid, &actions, &mut events);
    let actions = run.persisted();
    apply(&mut store, &sid, &actions, &mut events);
    assert!(events.contains(&AgentStreamEvent::ToolCallResult {
        name: "does_not_exist".to_string(),
        success: false,
        output: "Unknown tool: does_not_exist".to_string(),
    }));
    assert_eq!(run.phase(), Phase::AwaitProvider);
    assert_eq!(actions.last(), Some(&Action::CallProvider));
}

#[test]
fn iteration_cap_ends_with_error() {
    let mut store = SessionStore::new();
    let mut events = Vec::new();
    let (mut run, sid) = begin(&mut store, "loop", &mut events);
    let text = "<tool_call>{\"name\":\"shell\",\"arguments\":{}}</tool_call>";
    let mut calls = 0;
    while run.phase() == Phase::AwaitProvider {
        calls += 1;
        reply(&mut run, &mut store, &sid, text, &mut events);
        let actions = run.persisted();
        apply(&mut store, &sid, &actions, &mut events);
        let outcome = ToolOutcome::Completed { success: true, output: "ok".to_string(), error: None };
        let actions = run.tool_finished(outcome);
        apply(&mut store, &sid, &actions, &mut events);
        let actions = run.persisted();
        apply(&mut store, &sid, &actions, &mut events);
    }
    assert_eq!(calls, MAX_TOOL_ITERATIONS);
    assert_eq!(run.phase(), Phase::Finished);
    assert_eq!(
        events.last(),
        Some(&AgentStreamEvent::Error { message: "Agent exceeded maximum tool iterations (10)".to_string() })
    );
    assert!(!events.iter().any(|e| matches!(e, AgentStreamEvent::Done { .. })));
}

#[test]
fn http_429_on_first_call() {
    let mut store = SessionStore::new();
    let mut events = Vec::new();
    let (mut run, sid) = begin(&mut store, "hi", &mut events);
    let err = check_status(Dialect::OpenAiCompat, 429, "slow down".to_string()).unwrap_err();
    let actions = run.failed(err.message());
    apply(&mut store, &sid, &actions, &mut events);
    assert_eq!(actions.last(), Some(&Action::Finish));
    let kinds: Vec<&str> = events.iter().map(|e| e.kind()).collect();
    assert_eq!(kinds, vec!["MemoryRecall", "ProviderCallStart", "Error"]);
    match events.last().unwrap() {
        AgentStreamEvent::Error { message } => {
            assert!(message.contains("429"));
            assert_eq!(message, "Provider returned 429: slow down");
        }
        other => panic!("unexpected {other:?}"),
    }
    assert_eq!(roles(&store, &sid), vec!["user"]);
}

#[test]
fn terminal_event_once_and_calls_bracketed() {
    let mut store = SessionStore::new();
    let mut events = Vec::new();
    let (mut run, sid) = begin(&mut store, "hi", &mut events);
    reply(&mut run, &mut store, &sid, "plain answer", &mut events);
    let actions = run.persisted();
    apply(&mut store, &sid, &actions, &mut events);
    let terminal = events.iter().filter(|e| e.is_terminal()).count();
    assert_eq!(terminal, 1);
    let starts = events.iter().filter(|e| e.kind() == "ProviderCallStart").count();
    let ends = events.iter().filter(|e| e.kind() == "ProviderCallEnd").count();
    assert_eq!(starts, ends);
}

#[test]
fn tool_events_pair_by_name() {
    let mut store = SessionStore::new();
    let mut events = Vec::new();
    let (mut run, sid) = begin(&mut store, "two tools", &mut events);
    let text = "a <tool_call>{\"name\":\"file_read\",\"arguments\":{}}</tool_call> b <tool_call>{\"name\":\"shell\",\"arguments\":{}}</tool_call>";
    reply(&mut run, &mut store, &sid, text, &mut events);
    for _ in 0..2 {
        let actions = run.persisted();
        apply(&mut store, &sid, &actions, &mut events);
        let actions = run.tool_finished(ToolOutcome::Failed { error: "boom".to_string() });
        apply(&mut store, &sid, &actions, &mut events);
        let actions = run.persisted();
        apply(&mut store, &sid, &actions, &mut events);
    }
    assert_eq!(run.phase(), Phase::AwaitProvider);
    let tools: Vec<(String, String)> = events
        .iter()
        .filter_map(|e| match e {
            AgentStreamEvent::ToolCallStart { name, .. } => Some(("start".to_string(), name.clone())),
            AgentStreamEvent::ToolCallResult { name, .. } => Some(("result".to_string(), name.clone())),
            _ => None,
        })
        .collect();
    let expected: Vec<(String, String)> = vec![
        ("start".to_string(), "file_read".to_string()),
        ("result".to_string(), "file_read".to_string()),
        ("start".to_string(), "shell".to_string()),
        ("result".to_string(), "shell".to_string()),
    ];
    assert_eq!(tools, expected);
    assert!(events.contains(&AgentStreamEvent::ToolCallResult {
        name: "shell".to_string(),
        success: false,
        output: "Error executing shell: boom".to_string(),
    }));
}

#[test]
fn enriched_message_goes_to_model_original_is_stored() {
    let mut store = SessionStore::new();
    let sid = store.create_session("openai", "gpt").unwrap();
    let (run, actions) = AgentRun::start(
        sid.clone(),
        "question".to_string(),
        "openai".to_string(),
        "gpt".to_string(),
        "sys".to_string(),
        "[Memory context]\n- k: v\n\n".to_string(),
        1,
    );
    assert_eq!(run.history()[1].content, "[Memory context]\n- k: v\n\nquestion");
    assert_eq!(run.history()[0].role, Role::System);
    assert_eq!(
        actions[1],
        Action::Persist(TurnDraft {
            role: TurnRole::User,
            content: "question".to_string(),
            tool_name: None,
            tool_args: None,
            tool_success: None,
        })
    );
}

#[test]
fn empty_prose_falls_back_to_full_reply_and_long_title_is_cut() {
    let mut store = SessionStore::new();
    let mut events = Vec::new();
    let long: String = "é".repeat(70);
    let (mut run, sid) = begin(&mut store, &long, &mut events);
    let actions = run.provider_replied("   ".to_string(), 1, String::new(), Vec::new());
    assert!(matches!(&actions[1], Action::Persist(t) if t.content == "   "));
    apply(&mut store, &sid, &actions, &mut events);
    let actions = run.persisted();
    assert_eq!(actions[0], Action::SetTitle("é".repeat(60)));
}
