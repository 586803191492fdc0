use viziclaw_agent::agent::{ChatMessage, Role};
use viziclaw_agent::commands::{delete_session, get_session, list_sessions, new_session, send_message};
use viziclaw_agent::events::AgentStreamEvent;
use viziclaw_agent::provider::{
    build_headers, check_status, credential_for, oauth_token_from_record, plan_request, provider_dialect,
    provider_endpoint, provider_env_var, resolve_api_key, resolve_model, resolve_provider,
    split_system, token_if_fresh, AgentError,
};
use viziclaw_agent::session::{SessionStore, StoreError};
use viziclaw_agent::stream::Dialect;

fn s(x: &str) -> String {
    x.to_string()
}

#[test]
fn endpoints_by_provider() {
    assert_eq!(provider_endpoint("openrouter"), "https://openrouter.ai/api/v1/chat/completions");
    assert_eq!(provider_endpoint("openai"), "https://api.openai.com/v1/chat/completions");
    assert_eq!(provider_endpoint("anthropic"), "https://api.anthropic.com/v1/messages");
    assert_eq!(provider_endpoint("ollama"), "http://localhost:11434/v1/chat/completions");
    assert_eq!(provider_endpoint("mystery"), "https://openrouter.ai/api/v1/chat/completions");
    assert_eq!(provider_dialect("anthropic"), Dialect::Anthropic);
    assert_eq!(provider_dialect("ollama"), Dialect::OpenAiCompat);
}

#[test]
fn provider_and_model_defaults() {
    assert_eq!(resolve_provider(None, None), "anthropic");
    assert_eq!(resolve_provider(None, Some("openai")), "openai");
    assert_eq!(resolve_provider(Some("ollama"), Some("openai")), "ollama");
    assert_eq!(resolve_model(None, None, "fallback-model"), "fallback-model");
    assert_eq!(resolve_model(None, Some("cfg"), "fallback-model"), "cfg");
    assert_eq!(resolve_model(Some("m"), Some("cfg"), "fallback-model"), "m");
}

#[test]
fn key_resolution_order() {
    assert_eq!(provider_env_var("openrouter"), "OPENROUTER_API_KEY");
    assert_eq!(provider_env_var("anthropic"), "ANTHROPIC_API_KEY");
    assert_eq!(provider_env_var("ollama"), "VIZICLAW_API_KEY");
    assert_eq!(resolve_api_key(Some(s("cfg")), Some(s("env")), None, None), Some(s("cfg")));
    assert_eq!(resolve_api_key(Some(s("")), Some(s("env")), None, None), Some(s("env")));
    assert_eq!(resolve_api_key(None, Some(s("")), Some(s("")), Some(s("last"))), Some(s("last")));
    assert_eq!(resolve_api_key(None, None, Some(s("generic")), Some(s("last"))), Some(s("generic")));
    assert_eq!(resolve_api_key(None, None, None, None), None);
}

#[test]
fn oauth_token_expiring_in_30s_is_absent() {
    let now = 1_700_000_000_000i64;
    let soon = format!("{{\"accessToken\":\"sk-ant-oat01-x\",\"expiresAt\":{}}}", now + 30_000);
    assert_eq!(oauth_token_from_record(&soon, now), None);
    let later = format!("{{\"accessToken\":\"sk-ant-oat01-x\",\"expiresAt\":{}}}", now + 600_000);
    assert_eq!(oauth_token_from_record(&later, now), Some(s("sk-ant-oat01-x")));
    assert_eq!(oauth_token_from_record("{\"accessToken\":\"tok\"}\n", now), Some(s("tok")));
    assert_eq!(oauth_token_from_record("garbage", now), None);
    assert_eq!(oauth_token_from_record("{\"accessToken\":\"\"}", now), Some(s("")));
    assert_eq!(token_if_fresh(Some(now + 60_000), now, Some(s("t"))), None);
    assert_eq!(token_if_fresh(Some(now + 60_001), now, Some(s("t"))), Some(s("t")));
    assert_eq!(token_if_fresh(Some(i64::MIN), i64::MAX, Some(s("t"))), None);
    // Nothing in the credential store and nothing in the environment.
    let key = resolve_api_key(None, None, None, None);
    let history = vec![ChatMessage { role: Role::User, content: s("hi") }];
    let err = plan_request("anthropic", key.as_deref(), &history, "m").unwrap_err();
    assert_eq!(err, AgentError::CredentialMissing);
    assert!(err.message().starts_with("No Anthropic API key found"));
}

#[test]
fn oauth_selects_bearer_header() {
    let h = build_headers(Dialect::Anthropic, Some("sk-ant-oat01-abc"));
    assert_eq!(h, vec![(s("anthropic-version"), s("2023-06-01")), (s("Authorization"), s("Bearer sk-ant-oat01-abc"))]);
    assert!(!h.iter().any(|(k, _)| k == "x-api-key"));
    let h = build_headers(Dialect::Anthropic, Some("sk-ant-api03-abc"));
    assert_eq!(h[1], (s("x-api-key"), s("sk-ant-api03-abc")));
    assert!(!h.iter().any(|(k, _)| k == "Authorization"));
    assert_eq!(build_headers(Dialect::OpenAiCompat, Some("k")), vec![(s("Authorization"), s("Bearer k"))]);
    assert!(build_headers(Dialect::OpenAiCompat, None).is_empty());
}

#[test]
fn anthropic_request_moves_system_prompt() {
    let history = vec![
        ChatMessage { role: Role::System, content: s("be brief") },
        ChatMessage { role: Role::User, content: s("hi") },
        ChatMessage { role: Role::System, content: s("second") },
        ChatMessage { role: Role::Assistant, content: s("yo") },
    ];
    let (system, rest) = split_system(&history);
    assert_eq!(system, Some(s("be brief")));
    assert_eq!(rest.len(), 2);
    let plan = plan_request("anthropic", Some("key"), &history, "model-x").unwrap();
    assert_eq!(plan.endpoint, "https://api.anthropic.com/v1/messages");
    assert_eq!(plan.max_tokens, Some(16384));
    assert_eq!(plan.system, Some(s("be brief")));
    assert_eq!(plan.messages, rest);
    let plan = plan_request("openai", None, &history, "gpt").unwrap();
    assert_eq!(plan.messages, history);
    assert_eq!(plan.system, None);
    assert!(plan.headers.is_empty());
}

#[test]
fn status_check() {
    assert_eq!(check_status(Dialect::Anthropic, 200, s("")), Ok(()));
    assert_eq!(check_status(Dialect::Anthropic, 299, s("")), Ok(()));
    let e = check_status(Dialect::Anthropic, 500, s("oops")).unwrap_err();
    assert_eq!(e.message(), "Anthropic returned 500: oops");
}

#[test]
fn sequence_numbers_are_dense_and_counts_consistent() {
    let mut store = SessionStore::new();
    let a = store.create_session("p", "m").unwrap();
    let b = store.create_session("p", "m").unwrap();
    assert_eq!(a.len(), 36);
    assert_ne!(a, b);
    for i in 0..5 {
        let sid = if i % 2 == 0 { &a } else { &b };
        store.add_message(sid, "user", "x", None, None, None).unwrap();
    }
    let da = store.get_session(&a).unwrap();
    let seqs: Vec<i64> = da.messages.iter().map(|m| m.sequence).collect();
    assert_eq!(seqs, vec![1, 2, 3]);
    assert_eq!(da.message_count, 3);
    let db = store.get_session(&b).unwrap();
    assert_eq!(db.messages.iter().map(|m| m.sequence).collect::<Vec<_>>(), vec![1, 2]);
    assert_eq!(db.message_count, 2);
    assert!(!da.created_at.is_empty());
    assert_eq!(store.turn_count(), 5);
    assert_eq!(da.messages[0].tool_name, None);
    assert_eq!(da.messages[0].timestamp, da.updated_at.clone().min(da.messages[0].timestamp.clone()));
}

#[test]
fn add_message_to_missing_session_fails() {
    let mut store = SessionStore::new();
    let r = store.add_message("nope", "user", "x", None, None, None);
    assert_eq!(r, Err(StoreError::SessionNotFound { id: s("nope") }));
    assert!(store.get_session("nope").is_err());
}

#[test]
fn delete_cascades_and_is_idempotent() {
    let mut store = SessionStore::new();
    let a = store.create_session("p", "m").unwrap();
    let b = store.create_session("p", "m").unwrap();
    store.add_message(&a, "user", "1", None, None, None).unwrap();
    store.add_message(&b, "user", "2", None, None, None).unwrap();
    store.add_message(&a, "tool_result", "3", Some("shell"), None, Some(false)).unwrap();
    store.delete_session(&a);
    assert!(store.get_session(&a).is_err());
    store.delete_session(&a);
    let db = store.get_session(&b).unwrap();
    assert_eq!(db.messages.len(), 1);
    assert_eq!(db.messages[0].sequence, 1);
    assert_eq!(store.list_sessions(50, 0).len(), 1);
}

#[test]
fn listing_orders_by_update_time_then_id() {
    let mut store = SessionStore::new();
    store.create_session_with(s("b"), s("2024-01-01T00:00:00+00:00"), "p", "m").unwrap();
    store.create_session_with(s("a"), s("2024-01-01T00:00:00+00:00"), "p", "m").unwrap();
    store.create_session_with(s("c"), s("2023-01-01T00:00:00+00:00"), "p", "m").unwrap();
    store.create_session_with(s("d"), s("2025-01-01T00:00:00+00:00"), "p", "m").unwrap();
    assert_eq!(
        store.create_session_with(s("d"), s("x"), "p", "m"),
        Err(StoreError::DuplicateId { id: s("d") })
    );
    let ids = |v: Vec<viziclaw_agent::session::SessionSummary>| v.into_iter().map(|x| x.id).collect::<Vec<_>>();
    assert_eq!(ids(store.list_sessions(50, 0)), vec!["d", "a", "b", "c"]);
    assert_eq!(ids(store.list_sessions(2, 1)), vec!["a", "b"]);
    assert_eq!(ids(store.list_sessions(-1, 3)), vec!["c"]);
    assert_eq!(ids(store.list_sessions(5, 9)), Vec::<String>::new());
    store
        .add_message_with("c", "user", "x", None, None, None, s("m1"), s("2026-01-01T00:00:00+00:00"))
        .unwrap();
    assert_eq!(ids(store.list_sessions(1, 0)), vec!["c"]);
    let c = store.get_session("c").unwrap();
    assert_eq!(c.title, "New Session");
    assert_eq!(c.updated_at, "2026-01-01T00:00:00+00:00");
    assert_eq!(c.created_at, "2023-01-01T00:00:00+00:00");
}

#[test]
fn update_title_overwrites() {
    let mut store = SessionStore::new();
    let a = store.create_session("p", "m").unwrap();
    store.update_title(&a, "First");
    store.update_title(&a, "Second");
    assert_eq!(store.get_session(&a).unwrap().title, "Second");
    store.update_title("missing", "x");
}

#[test]
fn event_kinds() {
    assert_eq!(AgentStreamEvent::ProviderCallEnd { duration_ms: 3 }.kind(), "ProviderCallEnd");
    assert!(AgentStreamEvent::Done { session_id: s("x") }.is_terminal());
    assert!(!AgentStreamEvent::TextChunk { content: s("x") }.is_terminal());
}

#[test]
fn command_surface() {
    let mut store = SessionStore::new();
    let id = new_session(&mut store, None, None, "fallback").unwrap();
    let d = get_session(&store, &id).unwrap();
    assert_eq!((d.provider.as_str(), d.model.as_str(), d.title.as_str()), ("anthropic", "fallback", "New Session"));
    let same = send_message(&mut store, Some(id.clone()), None, None, "fallback").unwrap();
    assert_eq!(same, id);
    let other = send_message(&mut store, None, Some("openai"), Some("gpt"), "fallback").unwrap();
    assert_ne!(other, id);
    assert_eq!(get_session(&store, &other).unwrap().provider, "openai");
    assert_eq!(list_sessions(&store, None, None).len(), 2);
    assert_eq!(list_sessions(&store, Some(1), Some(1)).len(), 1);
    assert_eq!(delete_session(&mut store, &id), Ok(()));
    assert_eq!(get_session(&store, &id), Err(format!("Session not found: {id}")));
    assert_eq!(StoreError::DuplicateId { id: s("z") }.message(), "Duplicate id: z");
}

#[test]
fn oauth_token_takes_precedence_for_anthropic() {
    assert_eq!(credential_for("anthropic", Some(s("oauth")), Some(s("env"))), Some(s("oauth")));
    assert_eq!(credential_for("anthropic", None, Some(s("env"))), Some(s("env")));
    assert_eq!(credential_for("openai", Some(s("oauth")), Some(s("env"))), Some(s("env")));
    assert_eq!(credential_for("openai", Some(s("oauth")), None), None);
}

#[test]
fn duplicate_turn_id_is_refused() {
    let mut store = SessionStore::new();
    store.create_session_with(s("a"), s("t0"), "p", "m").unwrap();
    store.add_message_with("a", "user", "x", None, None, None, s("m1"), s("t1")).unwrap();
    assert_eq!(
        store.add_message_with("a", "user", "y", None, None, None, s("m1"), s("t2")),
        Err(StoreError::DuplicateId { id: s("m1") })
    );
    assert_eq!(
        store.add_message_with("zz", "user", "y", None, None, None, s("m1"), s("t2")),
        Err(StoreError::SessionNotFound { id: s("zz") })
    );
    assert_eq!(store.get_session("a").unwrap().messages.len(), 1);
    assert_eq!(StoreError::ClockUnavailable.message(), "System clock unavailable");
    assert_eq!(StoreError::RandomUnavailable.message(), "Random source unavailable");
}
