use viziclaw_agent::dispatch::{normalize_outcome, tool_result_block, ToolOutcome};
use viziclaw_agent::extract::{parse_tool_calls, split_tool_blocks, tool_call_of};
use viziclaw_agent::memory::{build_context, recall_count, MemoryEntry};
use viziclaw_agent::sse::{sse_payload, LineBuffer};
use viziclaw_agent::stream::{
    anthropic_delta, content_block_text, line_delta, nonempty_text, openai_delta, Dialect, StreamDecoder,
};
use viziclaw_agent::text::{decimal_text, trimmed};

const OPENAI_BODY: &str = "data: {\"choices\":[{\"delta\":{\"content\":\"Héllo\"}}]}\n: keepalive\n\ndata: {\"choices\":[{\"delta\":{\"content\":\" world\"}}]}\r\ndata: [DONE]\n";

#[test]
fn sse_chunking_does_not_matter() {
    let bytes = OPENAI_BODY.as_bytes();
    let mut whole = StreamDecoder::new(Dialect::OpenAiCompat);
    let all = whole.feed(bytes);
    let mut single = StreamDecoder::new(Dialect::OpenAiCompat);
    let mut pieces = Vec::new();
    for b in bytes {
        pieces.extend(single.feed(&[*b]));
    }
    assert_eq!(all, vec!["Héllo".to_string(), " world".to_string()]);
    assert_eq!(pieces, all);
    assert_eq!(whole.text(), "Héllo world");
    assert_eq!(single.text(), whole.text());
}

#[test]
fn line_buffer_keeps_partial_line() {
    let mut lb = LineBuffer::new();
    assert!(lb.feed(b"data: a").is_empty());
    let lines = lb.feed(b"b\ncd\n\nef");
    assert_eq!(lines, vec![b"data: ab".to_vec(), b"cd".to_vec(), Vec::new()]);
    assert_eq!(lb.feed(b"\n"), vec![b"ef".to_vec()]);
}

#[test]
fn sse_line_classification() {
    assert_eq!(sse_payload("  data: {\"a\":1}  "), Some("{\"a\":1}".to_string()));
    assert_eq!(sse_payload(": comment"), None);
    assert_eq!(sse_payload("   "), None);
    assert_eq!(sse_payload("event: ping"), None);
    assert_eq!(sse_payload("data: [DONE]"), Some("[DONE]".to_string()));
}

#[test]
fn openai_delta_extraction() {
    assert_eq!(openai_delta("{\"choices\":[{\"delta\":{\"content\":\"hi\"}}]}"), Some("hi".to_string()));
    assert_eq!(openai_delta("{\"choices\":[{\"delta\":{\"content\":\"\"}}]}"), None);
    assert_eq!(openai_delta("{\"choices\":[{\"delta\":{}}]}"), None);
    assert_eq!(openai_delta("not json"), None);
    assert_eq!(openai_delta(" [DONE] "), None);
}

#[test]
fn anthropic_delta_extraction() {
    let good = "{\"type\":\"content_block_delta\",\"index\":0,\"delta\":{\"type\":\"text_delta\",\"text\":\"Hi\"}}";
    assert_eq!(anthropic_delta(good), Some("Hi".to_string()));
    assert_eq!(anthropic_delta("{\"type\":\"message_start\",\"delta\":{\"text\":\"x\"}}"), None);
    assert_eq!(anthropic_delta("{broken"), None);
    let mut dec = StreamDecoder::new(Dialect::Anthropic);
    let body = format!("event: content_block_delta\ndata: {good}\n\ndata: {{\"type\":\"message_stop\"}}\n");
    assert_eq!(dec.feed(body.as_bytes()), vec!["Hi".to_string()]);
}

#[test]
fn invalid_utf8_is_decoded_lossily() {
    let mut line = b"data: {\"choices\":[{\"delta\":{\"content\":\"a".to_vec();
    line.push(0xff);
    line.extend_from_slice(b"\"}}]}");
    assert_eq!(line_delta(Dialect::OpenAiCompat, &line), (Some("a\u{fffd}".to_string()), false));
    assert_eq!(line_delta(Dialect::OpenAiCompat, b"data: [DONE]"), (None, true));
    assert_eq!(line_delta(Dialect::Anthropic, b"data: [DONE]"), (None, false));
    assert_eq!(line_delta(Dialect::OpenAiCompat, b"data:  [DONE]"), (None, false));
}

#[test]
fn extractor_splits_prose_and_calls() {
    let reply = "Let me check.\n<tool_call>\n{\"name\": \"file_read\", \"arguments\": {\"path\": \"a.txt\"}}\n</tool_call>\nThen more.";
    let (prose, calls) = parse_tool_calls(reply);
    assert_eq!(prose, "Let me check.\nThen more.");
    assert_eq!(calls.len(), 1);
    assert_eq!(calls[0].name, "file_read");
    assert_eq!(calls[0].arguments, "{\"path\":\"a.txt\"}");
}

#[test]
fn extractor_without_blocks_returns_whole_reply() {
    let (prose, calls) = parse_tool_calls("  just text  ");
    assert_eq!(prose, "just text");
    assert!(calls.is_empty());
    let (prose, calls) = parse_tool_calls("open <tool_call>{\"name\":\"x\"}");
    assert_eq!(prose, "open <tool_call>{\"name\":\"x\"}");
    assert!(calls.is_empty());
}

#[test]
fn extractor_keeps_order_and_drops_bad_json() {
    let reply = "<tool_call>{\"name\":\"a\"}</tool_call><tool_call>oops</tool_call><tool_call>{\"name\":\"b\",\"arguments\":{\"n\":1}}</tool_call>";
    let (parts, bodies) = split_tool_blocks(reply);
    assert_eq!(parts, vec!["".to_string(), "".to_string(), "".to_string(), "".to_string()]);
    assert_eq!(bodies.len(), 3);
    let (prose, calls) = parse_tool_calls(reply);
    assert_eq!(prose, "");
    let names: Vec<&str> = calls.iter().map(|c| c.name.as_str()).collect();
    assert_eq!(names, vec!["a", "b"]);
    assert_eq!(calls[0].arguments, "{}");
    assert_eq!(calls[1].arguments, "{\"n\":1}");
}

#[test]
fn dispatch_normalisation() {
    let ok = ToolOutcome::Completed { success: true, output: "out".to_string(), error: None };
    assert_eq!(normalize_outcome("shell", &ok), (true, "out".to_string()));
    let failed_with_error = ToolOutcome::Completed { success: false, output: "o".to_string(), error: Some("bad".to_string()) };
    assert_eq!(normalize_outcome("shell", &failed_with_error), (false, "Error: bad".to_string()));
    let failed_plain = ToolOutcome::Completed { success: false, output: "o".to_string(), error: None };
    assert_eq!(normalize_outcome("shell", &failed_plain), (false, "Error: o".to_string()));
    let crashed = ToolOutcome::Failed { error: "io".to_string() };
    assert_eq!(normalize_outcome("shell", &crashed), (false, "Error executing shell: io".to_string()));
    assert_eq!(normalize_outcome("nope", &ToolOutcome::Unknown), (false, "Unknown tool: nope".to_string()));
    assert_eq!(tool_result_block("t", "r"), "<tool_result name=\"t\">\nr\n</tool_result>\n");
}

#[test]
fn memory_context_block() {
    assert_eq!(build_context(&Vec::new()), "");
    assert_eq!(recall_count(""), 0);
    let entries = vec![
        MemoryEntry { key: "lang".to_string(), content: "rust".to_string() },
        MemoryEntry { key: "os".to_string(), content: "linux".to_string() },
    ];
    let ctx = build_context(&entries);
    assert_eq!(ctx, "[Memory context]\n- lang: rust\n- os: linux\n\n");
    assert_eq!(recall_count(&ctx), 2);
}

#[test]
fn text_helpers() {
    assert_eq!(trimmed("\u{3000} a b \t\n"), "a b");
    assert_eq!(trimmed("   "), "");
    assert_eq!(decimal_text(0), "0");
    assert_eq!(decimal_text(429), "429");
    assert_eq!(decimal_text(18446744073709551615), "18446744073709551615");
}

#[test]
fn decisions_after_json() {
    assert_eq!(nonempty_text(Some("a".to_string())), Some("a".to_string()));
    assert_eq!(nonempty_text(Some(String::new())), None);
    assert_eq!(nonempty_text(None), None);
    let kind = Some("content_block_delta".to_string());
    assert_eq!(content_block_text(kind.clone(), Some("t".to_string())), Some("t".to_string()));
    assert_eq!(content_block_text(kind, Some(String::new())), None);
    assert_eq!(content_block_text(Some("ping".to_string()), Some("t".to_string())), None);
    assert_eq!(content_block_text(None, Some("t".to_string())), None);
    let call = tool_call_of(None, None);
    assert_eq!((call.name.as_str(), call.arguments.as_str()), ("", "{}"));
    let call = tool_call_of(Some("shell".to_string()), Some("[1]".to_string()));
    assert_eq!((call.name.as_str(), call.arguments.as_str()), ("shell", "[1]"));
}

#[test]
fn done_payload_ends_the_stream() {
    let mut dec = StreamDecoder::new(Dialect::OpenAiCompat);
    let body = "data: {\"choices\":[{\"delta\":{\"content\":\"a\"}}]}\ndata: [DONE]\ndata: {\"choices\":[{\"delta\":{\"content\":\"b\"}}]}\n";
    assert_eq!(dec.feed(body.as_bytes()), vec!["a".to_string()]);
    assert_eq!(dec.feed(b"data: {\"choices\":[{\"delta\":{\"content\":\"c\"}}]}\n"), Vec::<String>::new());
    assert_eq!(dec.text(), "a");
}

#[test]
fn utf8_split_across_chunks_decodes_whole() {
    let body = "data: {\"choices\":[{\"delta\":{\"content\":\"\u{00e9}\u{4e2d}\"}}]}\n".as_bytes();
    let mut dec = StreamDecoder::new(Dialect::OpenAiCompat);
    let mut out = Vec::new();
    for pair in body.chunks(2) {
        out.extend(dec.feed(pair));
    }
    assert_eq!(out, vec!["\u{00e9}\u{4e2d}".to_string()]);
}

#[test]
fn only_a_literal_done_payload_ends_the_stream() {
    let mut dec = StreamDecoder::new(Dialect::OpenAiCompat);
    let body = "data:  [DONE]\ndata: {\"choices\":[{\"delta\":{\"content\":\"b\"}}]}\n";
    assert_eq!(dec.feed(body.as_bytes()), vec!["b".to_string()]);
}
