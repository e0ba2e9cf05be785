//! Tests of what the Responses interfaces share: items, signatures and streams.
use pi_ai::api::constrained_sampling::resolve_json_schema_strict_sampling;
use pi_ai::api::finish::conclude;
use pi_ai::api::headers::{has_header, override_headers, resolve_cache_retention};
use pi_ai::api::openai_responses_shared::convert::{
    convert_responses_messages, convert_responses_tools, normalize_id_part, normalize_tool_call_id,
};
use pi_ai::api::openai_responses_shared::items::{
    OpenAITool, ResponseInputItem, ResponseInputText, ResponseToolResultOutput,
};
use pi_ai::api::openai_responses_shared::{encode_text_signature_v1, parse_text_signature};
use pi_ai::api::openai_stream::{
    event_is_complete, parse_stream_event, process_responses_stream, OpenAIResponsesStreamOptions,
    ResponseStreamEvent,
};
use pi_ai::hash::short_hash;
use pi_ai::json::{json_stringify, set_entries};
use pi_ai::types::{ConstrainedSampling, ConstrainedSamplingConfig};
use pi_ai::json::Value;
use pi_ai::number::{Cost, Number};
#[allow(unused_imports)]
use pi_ai::types::{
    begin_message, AssistantMessage, AssistantMessageEvent, Content, Context, ImageContent, JsonSchemaObject, Message,
    Model, ModelCompat, ModelCostRates, SeriesName, StopReason, StreamOptions, TextContent, ThinkingBudgets,
    ThinkingContent, Tool, ToolCall, ToolPlacement, ToolResultMessage, Usage, UsageCost,
    UserMessage, UserMessageContent,
};

// ---------------------------------------------------------------------------
// A JSON parser for the tests
// ---------------------------------------------------------------------------

struct Parser {
    chars: Vec<char>,
    at: usize,
    lenient: bool,
}

impl Parser {
    fn space(&mut self) {
        while self.at < self.chars.len() && self.chars[self.at].is_whitespace() {
            self.at += 1;
        }
    }

    fn peek(&self) -> Option<char> {
        self.chars.get(self.at).copied()
    }

    fn take(&mut self, c: char) -> bool {
        self.space();
        if self.peek() == Some(c) {
            self.at += 1;
            true
        } else {
            false
        }
    }

    fn word(&mut self, word: &str, value: Value) -> Option<Value> {
        for c in word.chars() {
            if self.peek() != Some(c) {
                return None;
            }
            self.at += 1;
        }
        Some(value)
    }

    fn text(&mut self) -> Option<String> {
        let mut out = String::new();
        loop {
            match self.peek() {
                None => return if self.lenient { Some(out) } else { None },
                Some('"') => {
                    self.at += 1;
                    return Some(out);
                }
                Some('\\') => {
                    self.at += 1;
                    let c = match self.peek() {
                        Some(c) => c,
                        None => return if self.lenient { Some(out) } else { None },
                    };
                    self.at += 1;
                    match c {
                        'n' => out.push('\n'),
                        'r' => out.push('\r'),
                        't' => out.push('\t'),
                        'b' => out.push('\u{8}'),
                        'f' => out.push('\u{c}'),
                        'u' => {
                            let mut code = 0;
                            for _ in 0..4 {
                                code = code * 16 + self.peek()?.to_digit(16)?;
                                self.at += 1;
                            }
                            out.push(char::from_u32(code)?);
                        }
                        other => out.push(other),
                    }
                }
                Some(c) => {
                    out.push(c);
                    self.at += 1;
                }
            }
        }
    }

    fn value(&mut self) -> Option<Value> {
        self.space();
        match self.peek()? {
            '{' => {
                self.at += 1;
                let mut entries = Vec::new();
                if self.take('}') {
                    return Some(Value::Object(entries));
                }
                loop {
                    if !self.take('"') {
                        return if self.lenient && self.peek().is_none() { Some(Value::Object(entries)) } else { None };
                    }
                    let key = self.text()?;
                    if !self.take(':') {
                        return if self.lenient { Some(Value::Object(entries)) } else { None };
                    }
                    match self.value() {
                        Some(value) => entries.push((key, value)),
                        None => return if self.lenient { Some(Value::Object(entries)) } else { None },
                    }
                    if self.take('}') {
                        return Some(Value::Object(entries));
                    }
                    if !self.take(',') {
                        return if self.lenient { Some(Value::Object(entries)) } else { None };
                    }
                }
            }
            '[' => {
                self.at += 1;
                let mut items = Vec::new();
                if self.take(']') {
                    return Some(Value::Array(items));
                }
                loop {
                    match self.value() {
                        Some(value) => items.push(value),
                        None => return if self.lenient { Some(Value::Array(items)) } else { None },
                    }
                    if self.take(']') {
                        return Some(Value::Array(items));
                    }
                    if !self.take(',') {
                        return if self.lenient { Some(Value::Array(items)) } else { None };
                    }
                }
            }
            '"' => {
                self.at += 1;
                Some(Value::Str(self.text()?))
            }
            't' => self.word("true", Value::Bool(true)),
            'f' => self.word("false", Value::Bool(false)),
            'n' => self.word("null", Value::Null),
            _ => {
                let start = self.at;
                while self.peek().is_some_and(|c| c.is_ascii_digit() || "+-.eE".contains(c)) {
                    self.at += 1;
                }
                let digits: String = self.chars[start..self.at].iter().collect();
                let nearest = num(digits.parse::<f64>().ok()?);
                let places = digits.split('.').nth(1).map_or(0, |fraction| fraction.len());
                if digits.contains("e-") || places > 9 {
                    return Some(Value::Precise { text: digits, nearest });
                }
                Some(Value::Number(nearest))
            }
        }
    }
}

fn num(n: f64) -> Number {
    Number { nanos: (n * 1e9).round() as i128 }
}

#[allow(dead_code)]
fn parse(text: &str) -> Option<Value> {
    let mut parser = Parser { chars: text.chars().collect(), at: 0, lenient: false };
    let value = parser.value()?;
    parser.space();
    if parser.at == parser.chars.len() { Some(value) } else { None }
}

#[allow(dead_code)]
fn check(text: &str) -> Result<Value, String> {
    parse(text).ok_or_else(|| "unreadable".to_string())
}

#[allow(dead_code)]
fn read(text: &str) -> Value {
    let mut parser = Parser { chars: text.chars().collect(), at: 0, lenient: true };
    parser.value().unwrap_or(Value::Object(Vec::new()))
}

#[allow(dead_code)]
fn get<'a>(value: &'a Value, key: &str) -> Option<&'a Value> {
    match value {
        Value::Object(entries) => entries.iter().find(|(k, _)| k == key).map(|(_, v)| v),
        _ => None,
    }
}

#[allow(dead_code)]
fn s(text: &str) -> Value {
    Value::Str(text.to_string())
}

#[allow(dead_code)]
fn money(n: f64) -> Cost {
    Cost { parts: num(n).nanos * 1_000_000_000_000_000 }
}

/// Prices nothing.
#[allow(dead_code)]
fn free(_usage: Usage) -> UsageCost {
    UsageCost { input: money(0.0), output: money(0.0), cache_read: money(0.0), cache_write: money(0.0), total: money(0.0) }
}

/// Prices the input at what it counts, and the rest at nothing.
#[allow(dead_code)]
fn price(usage: Usage) -> UsageCost {
    let input = Cost { parts: usage.input.nanos * 1_000_000_000_000_000 };
    UsageCost { input, total: input, ..free(usage) }
}

#[allow(dead_code)]
fn make_model(id: &str, api: &str, provider: &str, base_url: &str, reasoning: bool) -> Model {
    Model {
        id: id.to_string(),
        name: id.to_string(),
        api: api.to_string(),
        provider: provider.to_string(),
        base_url: base_url.to_string(),
        reasoning,
        thinking_level_map: None,
        input: vec!["text".to_string()],
        cost: ModelCostRates { input: num(3.0), output: num(15.0), cache_read: num(0.3), cache_write: num(3.0) },
        context_window: num(200_000.0),
        max_tokens: num(8192.0),
        headers: None,
        compat: None,
        anthropic_series: SeriesName { id: "nova".to_string(), title: "Nova".to_string() },
    }
}

#[allow(dead_code)]
fn user_text(text: &str) -> Message {
    Message::User(UserMessage { content: UserMessageContent::Text(text.to_string()), timestamp: num(1.0) })
}

#[allow(dead_code)]
fn assistant_with(content: Vec<Content>, provider: &str, model: &str) -> Message {
    let mut message = begin_message("test", provider, model, num(2.0));
    message.content = content;
    message.stop_reason = StopReason::Stop;
    Message::Assistant(message)
}

#[allow(dead_code)]
fn text_block(text: &str) -> Content {
    Content::Text(TextContent { text: text.to_string(), text_signature: None })
}

#[allow(dead_code)]
fn tool_result(id: &str, content: Vec<Content>, is_error: bool) -> Message {
    Message::ToolResult(ToolResultMessage {
        tool_call_id: id.to_string(),
        tool_name: "read".to_string(),
        content,
        added_tool_names: None,
        is_error,
        timestamp: num(3.0),
    })
}

#[allow(dead_code)]
fn plain_tool(name: &str) -> Tool {
    Tool {
        name: name.to_string(),
        description: "d".to_string(),
        parameters: JsonSchemaObject::default(),
        constrained_sampling: None,
    }
}

#[allow(dead_code)]
fn no_placement() -> ToolPlacement {
    ToolPlacement { immediate: Vec::new(), deferred: Vec::new() }
}

fn model() -> Model {
    make_model("gpt-5", "openai-responses", "openai", "https://api.openai.com/v1", true)
}

#[test]
fn signatures_read_back() {
    for (id, phase) in [("msg_1", None), ("a\"b\\c\u{1}", Some("commentary")), ("", Some("final_answer")), ("\n\t{}:,", None)] {
        let signature = encode_text_signature_v1(id, phase);
        assert_eq!(
            parse_text_signature(Some(&signature), &parse),
            Some((id.to_string(), phase.map(|p| p.to_string())))
        );
    }
    assert_eq!(encode_text_signature_v1("m", Some("p")), "{\"v\":1,\"id\":\"m\",\"phase\":\"p\"}");
    assert_eq!(parse_text_signature(Some("{\"v\":1,\"id\":\"m\",\"phase\":\"odd\"}"), &parse), Some(("m".to_string(), None)));
    assert_eq!(parse_text_signature(Some("{\"v\":2,\"id\":\"m\"}"), &parse), Some(("{\"v\":2,\"id\":\"m\"}".to_string(), None)));
    assert_eq!(parse_text_signature(Some("plain"), &parse), Some(("plain".to_string(), None)));
    assert_eq!(parse_text_signature(None, &parse), None);
}

#[test]
fn parts_of_ids_fit() {
    assert_eq!(normalize_id_part("a b|c"), "a_b_c");
    assert_eq!(normalize_id_part("abc__"), "abc");
    assert_eq!(normalize_id_part(&"x".repeat(70)).len(), 64);
    assert_eq!(normalize_id_part("\u{e4}"), "");
}

#[test]
fn ids_of_items_name_function_calls() {
    let m = model();
    let allowed = vec!["openai".to_string()];
    let own = begin_message("openai-responses", "openai", "gpt-5", num(0.0));
    let foreign = begin_message("other", "openai", "gpt-5", num(0.0));
    assert_eq!(normalize_tool_call_id("call|item", &m, &own, &allowed), "call|fc_item");
    assert_eq!(normalize_tool_call_id("call|fc_1", &m, &own, &allowed), "call|fc_1");
    let hashed = normalize_tool_call_id("call|fc_1", &m, &foreign, &allowed);
    assert_eq!(hashed, format!("call|fc_{}", short_hash("fc_1")));
    assert_eq!(normalize_tool_call_id("call|item", &m, &own, &Vec::new()), "call_item");
    assert_eq!(normalize_tool_call_id("call", &m, &own, &allowed), "call");
}

#[test]
fn messages_become_items() {
    let m = model();
    let call = Content::ToolCall(ToolCall {
        id: "call_1|fc_1".to_string(),
        name: "read".to_string(),
        arguments: Value::Object(vec![]),
        thought_signature: None,
        namespace: None,
    });
    let signed = Content::Text(TextContent {
        text: "yes".to_string(),
        text_signature: Some(encode_text_signature_v1("msg_1", None)),
    });
    let messages = vec![
        user_text("go"),
        assistant_with(vec![signed, call], "openai", "gpt-5"),
        tool_result("call_1|fc_1", vec![text_block("done")], false),
    ];
    let context = Context { system_prompt: Some("sys".to_string()), messages: vec![], tools: None };
    let items = convert_responses_messages(&m, &context, &messages, None, &parse);
    assert_eq!(items[0], ResponseInputItem::Developer {
        role: "developer".to_string(),
        content: vec![ResponseInputText { text: "sys".to_string() }],
    });
    assert_eq!(items.len(), 5);
    assert!(matches!(&items[2], ResponseInputItem::AssistantMessage(message) if message.id == "msg_1"));
    assert!(matches!(&items[3], ResponseInputItem::FunctionCall { call_id, .. } if call_id == "call_1"));
    assert_eq!(items[4], ResponseInputItem::FunctionCallOutput {
        call_id: "call_1".to_string(),
        output: ResponseToolResultOutput::Text("done".to_string()),
    });
    let value = items[4].to_value();
    let expected = parse("{\"type\":\"function_call_output\",\"call_id\":\"call_1\",\"output\":\"done\"}");
    assert_eq!(Some(value), expected);
}

#[test]
fn tools_are_strict_where_it_is_asked() {
    let tools = convert_responses_tools(&vec![plain_tool("t")], None);
    assert!(matches!(&tools[0], OpenAITool::Function { name, .. } if name == "t"));
    let mut tool = plain_tool("g");
    tool.constrained_sampling = Some(ConstrainedSampling::Config(ConstrainedSamplingConfig::JsonSchema {
        strict: "require".to_string(),
    }));
    assert!(resolve_json_schema_strict_sampling(&tool, true).is_ok());
    assert!(resolve_json_schema_strict_sampling(&tool, false).is_err());
}

fn run(
    data: &[&str],
    options: Option<&OpenAIResponsesStreamOptions>,
) -> (AssistantMessage, Vec<AssistantMessageEvent>, Result<(), String>) {
    let mut list = Vec::new();
    for d in data {
        let value = parse(d).unwrap();
        assert!(event_is_complete(&value));
        if let Some(event) = parse_stream_event(d, &parse) {
            list.push(event);
        }
    }
    let mut output = begin_message("openai-responses", "openai", "gpt-5", num(0.0));
    let mut sent = Vec::new();
    let result = process_responses_stream(&list, &mut output, &mut sent, options, &parse, &read);
    (output, sent, result)
}

#[test]
fn streams_a_message() {
    let (output, sent, result) = run(
        &[
            "{\"type\":\"response.created\",\"response\":{\"id\":\"r1\"}}",
            "{\"type\":\"response.output_item.added\",\"output_index\":0,\"item\":{\"type\":\"reasoning\",\"id\":\"rs\",\"summary\":[]}}",
            "{\"type\":\"response.reasoning_summary_text.delta\",\"output_index\":0,\"delta\":\"hm\"}",
            "{\"type\":\"response.output_item.done\",\"output_index\":0,\"item\":{\"type\":\"reasoning\",\"id\":\"rs\",\"summary\":[{\"text\":\"hmm\"}]}}",
            "{\"type\":\"response.output_item.added\",\"output_index\":1,\"item\":{\"type\":\"message\",\"id\":\"m1\",\"content\":[]}}",
            "{\"type\":\"response.output_text.delta\",\"output_index\":1,\"delta\":\"Hel\"}",
            "{\"type\":\"response.output_text.delta\",\"output_index\":1,\"delta\":\"lo\"}",
            "{\"type\":\"response.output_item.done\",\"output_index\":1,\"item\":{\"type\":\"message\",\"id\":\"m1\",\"content\":[{\"type\":\"output_text\",\"text\":\"Hello\"}]}}",
            "{\"type\":\"response.completed\",\"response\":{\"id\":\"r1\",\"status\":\"completed\",\"usage\":{\"input_tokens\":10,\"output_tokens\":4,\"total_tokens\":14,\"input_tokens_details\":{\"cached_tokens\":3}}}}",
        ],
        None,
    );
    assert_eq!(result, Ok(()));
    assert_eq!(output.response_id.as_deref(), Some("r1"));
    assert_eq!(output.stop_reason, StopReason::Stop);
    assert_eq!(output.usage.input, num(7.0));
    assert_eq!(output.usage.cache_read, num(3.0));
    assert_eq!(output.content.len(), 2);
    assert!(matches!(&output.content[0], Content::Thinking(block) if block.thinking == "hmm"));
    match &output.content[1] {
        Content::Text(block) => {
            assert_eq!(block.text, "Hello");
            assert_eq!(block.text_signature, Some(encode_text_signature_v1("m1", None)));
        }
        other => panic!("expected a text, got {other:?}"),
    }
    assert!(matches!(sent.last(), Some(AssistantMessageEvent::TextEnd { content, content_index: 1, .. }) if content == "Hello"));
}

#[test]
fn streams_a_call() {
    let (output, sent, result) = run(
        &[
            "{\"type\":\"response.output_item.added\",\"output_index\":0,\"item\":{\"type\":\"function_call\",\"id\":\"fc_1\",\"call_id\":\"c1\",\"name\":\"read\",\"arguments\":\"\"}}",
            "{\"type\":\"response.function_call_arguments.delta\",\"output_index\":0,\"delta\":\"{\\\"a\\\":\"}",
            "{\"type\":\"response.function_call_arguments.done\",\"output_index\":0,\"arguments\":\"{\\\"a\\\":1}\"}",
            "{\"type\":\"response.output_item.done\",\"output_index\":0,\"item\":{\"type\":\"function_call\",\"id\":\"fc_1\",\"call_id\":\"c1\",\"name\":\"read\",\"arguments\":\"{\\\"a\\\":1}\"}}",
            "{\"type\":\"response.completed\",\"response\":{\"status\":\"completed\"}}",
        ],
        None,
    );
    assert_eq!(result, Ok(()));
    assert_eq!(output.stop_reason, StopReason::ToolUse);
    let deltas: Vec<&str> = sent
        .iter()
        .filter_map(|event| match event {
            AssistantMessageEvent::ToolCallDelta { delta, .. } => Some(delta.as_str()),
            _ => None,
        })
        .collect();
    assert_eq!(deltas, vec!["{\"a\":", "1}"]);
    match &output.content[0] {
        Content::ToolCall(call) => {
            assert_eq!(call.id, "c1|fc_1");
            assert_eq!(call.arguments, Value::Object(vec![("a".to_string(), Value::Number(num(1.0)))]));
        }
        other => panic!("expected a call, got {other:?}"),
    }
}

#[test]
fn streams_the_input_of_a_grammar_tool() {
    let options = OpenAIResponsesStreamOptions {
        grammar_tool_input_properties: Some(vec![("patch".to_string(), "input".to_string())]),
        ..OpenAIResponsesStreamOptions::default()
    };
    let (output, sent, result) = run(
        &[
            "{\"type\":\"response.output_item.added\",\"output_index\":0,\"item\":{\"type\":\"custom_tool_call\",\"id\":\"ct_1\",\"call_id\":\"c1\",\"name\":\"patch\",\"input\":\"\"}}",
            "{\"type\":\"response.custom_tool_call_input.delta\",\"output_index\":0,\"delta\":\"he\\\"\"}",
            "{\"type\":\"response.custom_tool_call_input.done\",\"output_index\":0,\"input\":\"he\\\"y\"}",
            "{\"type\":\"response.output_item.done\",\"output_index\":0,\"item\":{\"type\":\"custom_tool_call\",\"id\":\"ct_1\",\"call_id\":\"c1\",\"name\":\"patch\",\"input\":\"he\\\"y\"}}",
            "{\"type\":\"response.completed\",\"response\":{\"status\":\"completed\"}}",
        ],
        Some(&options),
    );
    assert_eq!(result, Ok(()));
    let text: String = sent
        .iter()
        .filter_map(|event| match event {
            AssistantMessageEvent::ToolCallDelta { delta, .. } => Some(delta.as_str()),
            _ => None,
        })
        .collect();
    assert_eq!(text, "{\"input\":\"he\\\"y\"}");
    assert!(matches!(&output.content[0], Content::ToolCall(call)
        if call.arguments == Value::Object(vec![("input".to_string(), s("he\"y"))])));
}

#[test]
fn streams_without_an_end_fail() {
    let (_, _, result) = run(&["{\"type\":\"response.created\",\"response\":{}}"], None);
    assert_eq!(result, Err("OpenAI Responses stream ended before a terminal response event".to_string()));
    let (_, _, result) = run(
        &["{\"type\":\"response.failed\",\"response\":{\"error\":{\"code\":\"c\",\"message\":\"m\"}}}"],
        None,
    );
    assert_eq!(result, Err("c: m".to_string()));
    let (_, _, result) = run(&["{\"type\":\"error\",\"code\":\"c\",\"message\":\"m\"}"], None);
    assert_eq!(result, Err("Error Code c: m".to_string()));
    let (output, _, _) = run(
        &["{\"type\":\"response.incomplete\",\"response\":{\"status\":\"incomplete\",\"incomplete_details\":{\"reason\":\"max_output_tokens\"}}}"],
        None,
    );
    assert_eq!(output.stop_reason, StopReason::Length);
}

#[test]
fn events_that_are_not_known_are_passed_over() {
    assert_eq!(parse_stream_event("{\"type\":\"something.else\"}", &parse), None);
    assert_eq!(parse_stream_event("not json", &parse), None);
    assert!(!event_is_complete(&parse("{\"type\":\"response.output_text.delta\"}").unwrap())
        || parse_stream_event("{\"type\":\"response.output_text.delta\"}", &parse).is_some());
}

#[test]
fn headers_are_overridden_by_name() {
    let mut headers = vec![("X-A".to_string(), "1".to_string())];
    override_headers(&mut headers, Some(&vec![
        ("X-A".to_string(), None),
        ("x-b".to_string(), Some("2".to_string())),
    ]));
    // A header without a value takes none away.
    assert_eq!(headers, vec![("X-A".to_string(), "1".to_string()), ("x-b".to_string(), "2".to_string())]);
    assert!(has_header(Some(&vec![("AUTHORIZATION".to_string(), Some("x".to_string()))]), "authorization"));
    assert_eq!(resolve_cache_retention(None, Some("long")), "long");
    assert_eq!(resolve_cache_retention(Some("none"), Some("long")), "none");
    assert_eq!(resolve_cache_retention(None, None), "short");
}

#[test]
fn hashes_stay_the_same() {
    assert_eq!(short_hash("a"), short_hash("a"));
    assert_ne!(short_hash("a"), short_hash("b"));
    assert!(short_hash("").chars().all(|c| c.is_ascii_alphanumeric()));
}

#[test]
fn replies_are_concluded() {
    let mut output = begin_message("a", "p", "m", num(0.0));
    let mut sent = Vec::new();
    output.content.push(text_block("kept"));
    conclude(&mut output, &mut sent, Err("boom".to_string()));
    assert_eq!(output.stop_reason, StopReason::Error);
    assert_eq!(output.error_message.as_deref(), Some("boom"));
    assert_eq!(output.content, vec![text_block("kept")]);
    assert!(matches!(&sent[0], AssistantMessageEvent::Error { reason, .. } if reason == "error"));
    let mut output = begin_message("a", "p", "m", num(0.0));
    output.stop_reason = StopReason::ToolUse;
    conclude(&mut output, &mut sent, Ok(()));
    assert!(matches!(&sent[1], AssistantMessageEvent::Done { reason, .. } if reason == "toolUse"));
}

#[test]
fn items_name_their_types() {
    let name = |text: &str| match parse_stream_event(text, &parse) {
        Some(ResponseStreamEvent::ResponseOutputItemAdded { item, .. }) => item.item_type(),
        other => panic!("expected an item, got {other:?}"),
    };
    for (sent, expected) in [
        ("reasoning", "reasoning"),
        ("message", "message"),
        ("function_call", "function_call"),
        ("custom_tool_call", "custom_tool_call"),
    ] {
        let text = format!("{{\"type\":\"response.output_item.added\",\"output_index\":0,\"item\":{{\"type\":\"{sent}\",\"id\":\"i\",\"call_id\":\"c\",\"name\":\"n\",\"arguments\":\"\",\"input\":\"\"}}}}");
        assert_eq!(name(&text), expected);
    }
}

#[test]
fn reasoning_is_backfilled() {
    let (output, _, result) = run(
        &[
            "{\"type\":\"response.output_item.done\",\"output_index\":0,\"item\":{\"type\":\"reasoning\",\"id\":\"r1\",\"summary\":[{\"text\":\"s\"}]}}",
            "{\"type\":\"response.completed\",\"response\":{\"status\":\"completed\",\"output\":[{\"type\":\"reasoning\",\"id\":\"r1\",\"encrypted_content\":\"E\"}]}}",
        ],
        None,
    );
    assert_eq!(result, Ok(()));
    match &output.content[0] {
        Content::Thinking(block) => {
            assert_eq!(block.thinking, "s");
            let signature = parse(block.thinking_signature.as_deref().unwrap()).unwrap();
            assert_eq!(get(&signature, "id"), Some(&s("r1")));
            assert_eq!(get(&signature, "encrypted_content"), Some(&s("E")));
        }
        other => panic!("expected thinking, got {other:?}"),
    }
}

#[test]
fn events_keep_their_types() {
    let read = |text: &str| parse_stream_event(text, &parse).unwrap();
    assert!(matches!(
        read("{\"type\":\"response.output_text.delta\",\"output_index\":0,\"delta\":\"a\"}"),
        ResponseStreamEvent::ResponseOutputTextDelta { .. }
    ));
    assert!(matches!(
        read("{\"type\":\"response.refusal.delta\",\"output_index\":0,\"delta\":\"a\"}"),
        ResponseStreamEvent::ResponseRefusalDelta { .. }
    ));
    assert!(matches!(
        read("{\"type\":\"response.incomplete\",\"response\":{}}"),
        ResponseStreamEvent::ResponseIncomplete { .. }
    ));
    assert!(matches!(
        read("{\"type\":\"response.completed\",\"response\":{}}"),
        ResponseStreamEvent::ResponseCompleted { .. }
    ));
}

#[test]
fn what_a_caller_sets_last_stands() {
    let mut entries = vec![("a".to_string(), s("0")), ("b".to_string(), s("0"))];
    set_entries(&mut entries, &vec![
        ("a".to_string(), s("1")),
        ("c".to_string(), s("1")),
        ("a".to_string(), s("2")),
    ]);
    assert_eq!(entries, vec![
        ("a".to_string(), s("2")),
        ("b".to_string(), s("0")),
        ("c".to_string(), s("1")),
    ]);
}

#[test]
fn numbers_keep_their_digits() {
    let value = parse("{\"a\":1e-12,\"b\":0.1234567890123,\"c\":0.5}").unwrap();
    assert_eq!(json_stringify(&value), "{\"a\":1e-12,\"b\":0.1234567890123,\"c\":0.5}");
    assert_eq!(get(&value, "a").unwrap().as_number(), Some(num(0.0)));
    assert_eq!(json_stringify(&value.clone()), json_stringify(&value));
}

#[test]
fn phases_that_are_not_known_are_dropped() {
    let signature = encode_text_signature_v1("m", Some("later"));
    assert_eq!(parse_text_signature(Some(&signature), &parse), Some(("m".to_string(), None)));
}

#[test]
fn items_can_be_copied() {
    let context = Context { system_prompt: Some("p".to_string()), messages: Vec::new(), tools: None };
    let items = convert_responses_messages(&model(), &context, &vec![user_text("hi")], None, &parse);
    assert_eq!(items.clone(), items);
}
