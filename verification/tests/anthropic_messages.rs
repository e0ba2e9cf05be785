//! Tests of the Anthropic interface.
use pi_ai::api::anthropic_messages::compat::{
    default_supports_tool_references, from_claude_code_name, to_claude_code_name, CacheControl,
};
use pi_ai::api::anthropic_messages::events::{parse_anthropic_stream_event, AnthropicStreamEvent};
use pi_ai::api::anthropic_messages::messages::{
    convert_content_blocks, convert_messages, convert_tools, normalize_tool_call_id, ConvertedContent,
};
use pi_ai::api::anthropic_messages::request::{build_params, is_oauth_token, prepare_request, AnthropicOptions};
use pi_ai::api::anthropic_messages::sse::AnthropicSseDecoder;
use pi_ai::api::anthropic_messages::stream::{
    check_reply, events_stop_knowingly, knows_stop_reason, map_stop_reason, process_anthropic_stream,
};
use pi_ai::types::{AnthropicMessagesCompat, ConstrainedSampling, ConstrainedSamplingConfig, PropertySchema};
use pi_ai::json::Value;
use pi_ai::number::{Cost, Number};
#[allow(unused_imports)]
use pi_ai::types::{
    begin_message, AssistantMessage, AssistantMessageEvent, Content, Context, ImageContent, JsonSchemaObject, Message,
    Model, ModelCompat, ModelCostRates, SeriesName, StopReason, StreamOptions, TextContent, ThinkingBudgets,
    ThinkingContent, Tool, ToolCall, ToolPlacement, ToolResultMessage, Usage, UsageCost,
    UserMessage, UserMessageContent,
};

// ---------------------------------------------------------------------------
// A JSON parser for the tests
// ---------------------------------------------------------------------------

struct Parser {
    chars: Vec<char>,
    at: usize,
    lenient: bool,
}

impl Parser {
    fn space(&mut self) {
        while self.at < self.chars.len() && self.chars[self.at].is_whitespace() {
            self.at += 1;
        }
    }

    fn peek(&self) -> Option<char> {
        self.chars.get(self.at).copied()
    }

    fn take(&mut self, c: char) -> bool {
        self.space();
        if self.peek() == Some(c) {
            self.at += 1;
            true
        } else {
            false
        }
    }

    fn word(&mut self, word: &str, value: Value) -> Option<Value> {
        for c in word.chars() {
            if self.peek() != Some(c) {
                return None;
            }
            self.at += 1;
        }
        Some(value)
    }

    fn text(&mut self) -> Option<String> {
        let mut out = String::new();
        loop {
            match self.peek() {
                None => return if self.lenient { Some(out) } else { None },
                Some('"') => {
                    self.at += 1;
                    return Some(out);
                }
                Some('\\') => {
                    self.at += 1;
                    let c = match self.peek() {
                        Some(c) => c,
                        None => return if self.lenient { Some(out) } else { None },
                    };
                    self.at += 1;
                    match c {
                        'n' => out.push('\n'),
                        'r' => out.push('\r'),
                        't' => out.push('\t'),
                        'b' => out.push('\u{8}'),
                        'f' => out.push('\u{c}'),
                        'u' => {
                            let mut code = 0;
                            for _ in 0..4 {
                                code = code * 16 + self.peek()?.to_digit(16)?;
                                self.at += 1;
                            }
                            out.push(char::from_u32(code)?);
                        }
                        other => out.push(other),
                    }
                }
                Some(c) => {
                    out.push(c);
                    self.at += 1;
                }
            }
        }
    }

    fn value(&mut self) -> Option<Value> {
        self.space();
        match self.peek()? {
            '{' => {
                self.at += 1;
                let mut entries = Vec::new();
                if self.take('}') {
                    return Some(Value::Object(entries));
                }
                loop {
                    if !self.take('"') {
                        return if self.lenient && self.peek().is_none() { Some(Value::Object(entries)) } else { None };
                    }
                    let key = self.text()?;
                    if !self.take(':') {
                        return if self.lenient { Some(Value::Object(entries)) } else { None };
                    }
                    match self.value() {
                        Some(value) => entries.push((key, value)),
                        None => return if self.lenient { Some(Value::Object(entries)) } else { None },
                    }
                    if self.take('}') {
                        return Some(Value::Object(entries));
                    }
                    if !self.take(',') {
                        return if self.lenient { Some(Value::Object(entries)) } else { None };
                    }
                }
            }
            '[' => {
                self.at += 1;
                let mut items = Vec::new();
                if self.take(']') {
                    return Some(Value::Array(items));
                }
                loop {
                    match self.value() {
                        Some(value) => items.push(value),
                        None => return if self.lenient { Some(Value::Array(items)) } else { None },
                    }
                    if self.take(']') {
                        return Some(Value::Array(items));
                    }
                    if !self.take(',') {
                        return if self.lenient { Some(Value::Array(items)) } else { None };
                    }
                }
            }
            '"' => {
                self.at += 1;
                Some(Value::Str(self.text()?))
            }
            't' => self.word("true", Value::Bool(true)),
            'f' => self.word("false", Value::Bool(false)),
            'n' => self.word("null", Value::Null),
            _ => {
                let start = self.at;
                while self.peek().is_some_and(|c| c.is_ascii_digit() || "+-.eE".contains(c)) {
                    self.at += 1;
                }
                let digits: String = self.chars[start..self.at].iter().collect();
                let nearest = num(digits.parse::<f64>().ok()?);
                let places = digits.split('.').nth(1).map_or(0, |fraction| fraction.len());
                if digits.contains("e-") || places > 9 {
                    return Some(Value::Precise { text: digits, nearest });
                }
                Some(Value::Number(nearest))
            }
        }
    }
}

fn num(n: f64) -> Number {
    Number { nanos: (n * 1e9).round() as i128 }
}

#[allow(dead_code)]
fn parse(text: &str) -> Option<Value> {
    let mut parser = Parser { chars: text.chars().collect(), at: 0, lenient: false };
    let value = parser.value()?;
    parser.space();
    if parser.at == parser.chars.len() { Some(value) } else { None }
}

#[allow(dead_code)]
fn check(text: &str) -> Result<Value, String> {
    parse(text).ok_or_else(|| "unreadable".to_string())
}

#[allow(dead_code)]
fn read(text: &str) -> Value {
    let mut parser = Parser { chars: text.chars().collect(), at: 0, lenient: true };
    parser.value().unwrap_or(Value::Object(Vec::new()))
}

#[allow(dead_code)]
fn get<'a>(value: &'a Value, key: &str) -> Option<&'a Value> {
    match value {
        Value::Object(entries) => entries.iter().find(|(k, _)| k == key).map(|(_, v)| v),
        _ => None,
    }
}

#[allow(dead_code)]
fn s(text: &str) -> Value {
    Value::Str(text.to_string())
}

#[allow(dead_code)]
fn money(n: f64) -> Cost {
    Cost { parts: num(n).nanos * 1_000_000_000_000_000 }
}

/// Prices nothing.
#[allow(dead_code)]
fn free(_usage: Usage) -> UsageCost {
    UsageCost { input: money(0.0), output: money(0.0), cache_read: money(0.0), cache_write: money(0.0), total: money(0.0) }
}

/// Prices the input at what it counts, and the rest at nothing.
#[allow(dead_code)]
fn price(usage: Usage) -> UsageCost {
    let input = Cost { parts: usage.input.nanos * 1_000_000_000_000_000 };
    UsageCost { input, total: input, ..free(usage) }
}

#[allow(dead_code)]
fn make_model(id: &str, api: &str, provider: &str, base_url: &str, reasoning: bool) -> Model {
    Model {
        id: id.to_string(),
        name: id.to_string(),
        api: api.to_string(),
        provider: provider.to_string(),
        base_url: base_url.to_string(),
        reasoning,
        thinking_level_map: None,
        input: vec!["text".to_string()],
        cost: ModelCostRates { input: num(3.0), output: num(15.0), cache_read: num(0.3), cache_write: num(3.0) },
        context_window: num(200_000.0),
        max_tokens: num(8192.0),
        headers: None,
        compat: None,
        anthropic_series: SeriesName { id: "nova".to_string(), title: "Nova".to_string() },
    }
}

#[allow(dead_code)]
fn user_text(text: &str) -> Message {
    Message::User(UserMessage { content: UserMessageContent::Text(text.to_string()), timestamp: num(1.0) })
}

#[allow(dead_code)]
fn assistant_with(content: Vec<Content>, provider: &str, model: &str) -> Message {
    let mut message = begin_message("test", provider, model, num(2.0));
    message.content = content;
    message.stop_reason = StopReason::Stop;
    Message::Assistant(message)
}

#[allow(dead_code)]
fn text_block(text: &str) -> Content {
    Content::Text(TextContent { text: text.to_string(), text_signature: None })
}

#[allow(dead_code)]
fn tool_result(id: &str, content: Vec<Content>, is_error: bool) -> Message {
    Message::ToolResult(ToolResultMessage {
        tool_call_id: id.to_string(),
        tool_name: "read".to_string(),
        content,
        added_tool_names: None,
        is_error,
        timestamp: num(3.0),
    })
}

#[allow(dead_code)]
fn plain_tool(name: &str) -> Tool {
    Tool {
        name: name.to_string(),
        description: "d".to_string(),
        parameters: JsonSchemaObject::default(),
        constrained_sampling: None,
    }
}

#[allow(dead_code)]
fn no_placement() -> ToolPlacement {
    ToolPlacement { immediate: Vec::new(), deferred: Vec::new() }
}

fn model(provider: &str, id: &str, reasoning: bool) -> Model {
    make_model(id, "anthropic-messages", provider, "https://api.anthropic.com", reasoning)
}

#[test]
fn normalizes_tool_call_ids() {
    assert_eq!(normalize_tool_call_id("call_1"), "call_1");
    assert_eq!(normalize_tool_call_id("weird|id!"), "weird_id_");
    let long = "x".repeat(100);
    assert_eq!(normalize_tool_call_id(&long).chars().count(), 64);
}

#[test]
fn anthropic_messages_maps_stop_reasons() {
    assert_eq!(map_stop_reason("end_turn", None).0, StopReason::Stop);
    assert_eq!(map_stop_reason("max_tokens", None).0, StopReason::Length);
    assert_eq!(map_stop_reason("tool_use", None).0, StopReason::ToolUse);
    assert_eq!(map_stop_reason("pause_turn", None).0, StopReason::Stop);
    assert_eq!(map_stop_reason("stop_sequence", None).0, StopReason::Stop);
    let refusal = map_stop_reason("refusal", None);
    assert_eq!(refusal.0, StopReason::Error);
    assert!(refusal.1.unwrap().contains("refused"));
    let refusal = map_stop_reason("refusal", Some("because"));
    assert_eq!(refusal.1.unwrap(), "because");
    let sensitive = map_stop_reason("sensitive", None);
    assert_eq!(sensitive.0, StopReason::Error);
    assert_eq!(sensitive.1.unwrap(), "Provider stopped with: sensitive");
}

#[test]
fn stop_reasons_that_are_not_known_are_told_apart() {
    assert!(knows_stop_reason("refusal"));
    assert!(!knows_stop_reason("something_new"));
}

#[test]
fn converts_claude_code_tool_names() {
    assert_eq!(to_claude_code_name("bash"), "Bash");
    assert_eq!(to_claude_code_name("Bash"), "Bash");
    assert_eq!(to_claude_code_name("custom_tool"), "custom_tool");
    let tools = vec![Tool { name: "MyTool".to_string(), ..plain_tool("MyTool") }];
    assert_eq!(from_claude_code_name("mytool", Some(&tools)), "MyTool");
    assert_eq!(from_claude_code_name("read", Some(&tools)), "read");
}

#[test]
fn names_come_back_through_the_casing() {
    let tools = vec![plain_tool("bash"), plain_tool("own_tool")];
    for name in ["bash", "own_tool"] {
        assert_eq!(from_claude_code_name(&to_claude_code_name(name), Some(&tools)), name);
    }
}

#[test]
fn detects_oauth_tokens() {
    assert!(is_oauth_token(Some("sk-ant-oat123")));
    assert!(!is_oauth_token(Some("sk-ant-api03-abc")));
    assert!(!is_oauth_token(None));
}

#[test]
fn defaults_tool_references() {
    let m = |id: &str| model("anthropic", id, false);
    assert!(default_supports_tool_references(&m("nova-opus-4-5")));
    assert!(!default_supports_tool_references(&m("nova-opus-4-1")));
    assert!(!default_supports_tool_references(&m("nova-opus-4")));
    assert!(!default_supports_tool_references(&m("nova-3-5-sonnet")));
    assert!(!default_supports_tool_references(&m("nova-sonnet-4-5-haiku")));
    assert!(default_supports_tool_references(&m("nova-sonnet-4-5")));
    assert!(!default_supports_tool_references(&model("other", "nova-opus-4-5", false)));
    // An id without a version, and a sign before one, are no versions.
    assert!(!default_supports_tool_references(&m("nova-opus")));
    assert!(!default_supports_tool_references(&m("nova-opus-")));
    assert!(!default_supports_tool_references(&m("nova-opus-+5")));
    assert!(!default_supports_tool_references(&m("nova-opus-4-+5")));
    assert!(!default_supports_tool_references(&m("nova-opus-4-20250514")));
    assert!(default_supports_tool_references(&m("nova-opus-5")));
}

#[test]
fn converts_content_blocks() {
    let text_only = vec![text_block("hi")];
    match convert_content_blocks(&text_only) {
        ConvertedContent::Text(text) => assert_eq!(text, "hi"),
        _ => panic!("expected text"),
    }

    let with_image = vec![
        text_block("hi"),
        Content::Image(ImageContent { data: "abc".to_string(), mime_type: "image/png".to_string() }),
    ];
    match convert_content_blocks(&with_image) {
        ConvertedContent::Blocks(blocks) => {
            assert_eq!(blocks.len(), 2);
            assert!(matches!(&blocks[1], Value::Object(_)));
        }
        _ => panic!("expected blocks"),
    }

    let image_only =
        vec![Content::Image(ImageContent { data: "abc".to_string(), mime_type: "image/jpeg".to_string() })];
    match convert_content_blocks(&image_only) {
        ConvertedContent::Blocks(blocks) => {
            assert_eq!(blocks.len(), 2);
            assert_eq!(get(&blocks[0], "text"), Some(&s("(see attached image)")));
        }
        _ => panic!("expected blocks"),
    }
}

#[test]
fn converts_messages_with_tool_results_and_cache_control() {
    let messages = vec![
        user_text("hello"),
        assistant_with(vec![text_block("hi")], "anthropic", "nova-sonnet"),
        tool_result("call-1", vec![text_block("done")], false),
        user_text("  "),
    ];
    let cache_control = Some(CacheControl { ttl: None });
    let converted = convert_messages(&messages, false, cache_control.as_ref(), false, &Vec::new());
    assert_eq!(converted.len(), 3); // blank user skipped
    let last = converted.last().unwrap();
    assert!(matches!(last, Value::Object(_)));
    // cache_control on the final user message block (tool_result content).
    assert!(json_contains_cache_control(last), "last message should carry cache_control");
}

fn json_contains_cache_control(value: &Value) -> bool {
    match value {
        Value::Object(entries) => {
            if entries.iter().any(|(k, _)| k == "cache_control") {
                return true;
            }
            entries.iter().any(|(_, v)| json_contains_cache_control(v))
        }
        Value::Array(items) => items.iter().any(json_contains_cache_control),
        _ => false,
    }
}

fn schema(property: &str, kind: &str) -> JsonSchemaObject {
    let property_value = Value::Object(vec![("type".to_string(), s(kind))]);
    JsonSchemaObject {
        type_: Some(vec!["object".to_string()]),
        properties: Some(vec![(
            property.to_string(),
            PropertySchema { type_: Some(vec![kind.to_string()]), value: property_value.clone() },
        )]),
        required: Some(vec![property.to_string()]),
        value: Value::Object(vec![
            ("type".to_string(), s("object")),
            ("properties".to_string(), Value::Object(vec![(property.to_string(), property_value)])),
            ("required".to_string(), Value::Array(vec![s(property)])),
        ]),
    }
}

#[test]
fn converts_tools_with_strict_schemas() {
    let tools_with_strict = vec![Tool {
        name: "add".to_string(),
        description: "Adds".to_string(),
        parameters: schema("a", "number"),
        constrained_sampling: Some(ConstrainedSampling::Config(ConstrainedSamplingConfig::JsonSchema {
            strict: "require".to_string(),
        })),
    }];
    let converted = convert_tools(&tools_with_strict, false, true, true, None, false);
    assert_eq!(converted.len(), 1);
    let entries = match &converted[0] {
        Value::Object(entries) => entries,
        _ => panic!("expected an object"),
    };
    assert_eq!(get(&converted[0], "name"), Some(&s("add")));
    assert!(entries.iter().any(|(k, v)| k == "eager_input_streaming" && matches!(v, Value::Bool(true))));
    assert!(entries.iter().any(|(k, v)| k == "strict" && matches!(v, Value::Bool(true))));
    // input_schema keeps properties/required.
    let input_schema = entries.iter().find(|(k, _)| k == "input_schema").map(|(_, v)| v).unwrap();
    assert!(json_contains_key(input_schema, "properties"));
    assert!(json_contains_key(input_schema, "required"));
}

fn json_contains_key(value: &Value, key: &str) -> bool {
    match value {
        Value::Object(entries) => entries.iter().any(|(k, _)| k == key),
        Value::Array(items) => items.iter().any(|v| json_contains_key(v, key)),
        _ => false,
    }
}

fn bytes(text: &str) -> Vec<u8> {
    text.as_bytes().to_vec()
}

fn parse_all(wire: &str) -> Vec<AnthropicStreamEvent> {
    let mut decoder = AnthropicSseDecoder::new();
    let sse_events = decoder.push(&bytes(wire));
    sse_events.iter().filter_map(|sse| parse_anthropic_stream_event(sse, &check).unwrap()).collect()
}

fn process(wire: &str, model: &Model) -> (AssistantMessage, Vec<AssistantMessageEvent>) {
    let parsed = parse_all(wire);
    let mut output = begin_message(&model.api, &model.provider, &model.id, num(0.0));
    let mut sent = Vec::new();
    assert!(events_stop_knowingly(&parsed));
    process_anthropic_stream(&parsed, &mut output, &mut sent, false, None, &read, &price).unwrap();
    (output, sent)
}

#[test]
fn decodes_anthropic_sse_events() {
    let wire = [
        "event: message_start\n",
        "data: {\"type\":\"message_start\",\"message\":{\"id\":\"msg_1\",\"usage\":{\"input_tokens\":5}}}\n\n",
        "event: content_block_start\n",
        "data: {\"type\":\"content_block_start\",\"index\":0,\"content_block\":{\"type\":\"text\",\"text\":\"\"}}\n\n",
        "event: content_block_delta\n",
        "data: {\"type\":\"content_block_delta\",\"index\":0,\"delta\":{\"type\":\"text_delta\",\"text\":\"Hello\"}}\n\n",
        "event: message_stop\n",
        "data: {\"type\":\"message_stop\"}\n\n",
    ]
    .concat();
    let mut decoder = AnthropicSseDecoder::new();
    let events = decoder.push(&bytes(&wire));
    assert_eq!(events.len(), 4);
    assert_eq!(events[0].event.as_deref(), Some("message_start"));
    assert_eq!(events[3].event.as_deref(), Some("message_stop"));

    let parsed: Vec<_> =
        events.iter().filter_map(|sse| parse_anthropic_stream_event(sse, &check).unwrap()).collect();
    assert_eq!(parsed.len(), 4);
    assert!(matches!(parsed[0], AnthropicStreamEvent::MessageStart { .. }));
    assert!(matches!(parsed[1], AnthropicStreamEvent::ContentBlockStart { .. }));
    assert!(matches!(parsed[2], AnthropicStreamEvent::ContentBlockDelta { .. }));
    assert!(matches!(parsed[3], AnthropicStreamEvent::MessageStop));
}

#[test]
fn pieces_of_a_stream_make_the_same_events() {
    let wire = "event: a\ndata: one\ndata: two\n\n: note\ndata: \u{e4}\n\n";
    let whole = AnthropicSseDecoder::new().push(&bytes(wire));
    for cut in 0..wire.len() {
        let mut decoder = AnthropicSseDecoder::new();
        let mut events = decoder.push(&wire.as_bytes()[..cut].to_vec());
        events.extend(decoder.push(&wire.as_bytes()[cut..].to_vec()));
        assert_eq!(events, whole);
    }
    assert_eq!(whole.len(), 2);
    assert_eq!(whole[0].data, "one\ntwo");
    assert_eq!(whole[1].data, "\u{e4}");
}

#[test]
fn each_line_break_ends_a_line() {
    // The two characters of a pair end two lines, and the second one is empty.
    let events = AnthropicSseDecoder::new().push(&bytes("event: a\r\ndata: one\r\n"));
    assert_eq!(events.len(), 2);
    assert_eq!((events[0].event.as_deref(), events[0].data.as_str()), (Some("a"), ""));
    assert_eq!((events[1].event.as_deref(), events[1].data.as_str()), (None, "one"));
}

#[test]
fn an_open_event_ends_with_the_stream() {
    let mut decoder = AnthropicSseDecoder::new();
    assert!(decoder.push(&bytes("event: ping\ndata: {}\n")).is_empty());
    let last = decoder.end().unwrap();
    assert_eq!(last.event.as_deref(), Some("ping"));
    assert_eq!(last.data, "{}");
}

#[test]
fn rejects_parse_errors_with_raw() {
    let mut decoder = AnthropicSseDecoder::new();
    let events = decoder.push(&bytes("event: content_block_start\ndata: {bad json\n\n"));
    let sse = &events[0];
    let error = parse_anthropic_stream_event(sse, &check).unwrap_err();
    assert!(error.contains("Could not parse Anthropic SSE event"), "{error}");
    assert!(error.contains("data={bad json"), "{error}");
}

#[test]
fn processes_a_text_stream_end_to_end() {
    let wire = [
        "event: message_start\n",
        "data: {\"type\":\"message_start\",\"message\":{\"id\":\"msg_1\",\"usage\":{\"input_tokens\":5,\"output_tokens\":0}}}\n\n",
        "event: content_block_start\n",
        "data: {\"type\":\"content_block_start\",\"index\":0,\"content_block\":{\"type\":\"text\",\"text\":\"\"}}\n\n",
        "event: content_block_delta\n",
        "data: {\"type\":\"content_block_delta\",\"index\":0,\"delta\":{\"type\":\"text_delta\",\"text\":\"Hello\"}}\n\n",
        "event: content_block_delta\n",
        "data: {\"type\":\"content_block_delta\",\"index\":0,\"delta\":{\"type\":\"text_delta\",\"text\":\" world\"}}\n\n",
        "event: content_block_stop\n",
        "data: {\"type\":\"content_block_stop\",\"index\":0}\n\n",
        "event: message_delta\n",
        "data: {\"type\":\"message_delta\",\"delta\":{\"stop_reason\":\"end_turn\"},\"usage\":{\"output_tokens\":2}}\n\n",
        "event: message_stop\n",
        "data: {\"type\":\"message_stop\"}\n\n",
    ]
    .concat();
    let m = model("anthropic", "nova-sonnet-4-5", false);
    let (output, sent) = process(&wire, &m);

    assert_eq!(output.response_id.as_deref(), Some("msg_1"));
    assert_eq!(output.stop_reason, StopReason::Stop);
    assert_eq!(output.raw_stop_reason.as_deref(), Some("end_turn"));
    assert_eq!(output.content.len(), 1);
    match &output.content[0] {
        Content::Text(block) => assert_eq!(block.text, "Hello world"),
        other => panic!("expected text, got {other:?}"),
    }
    assert_eq!(output.usage.input, num(5.0));
    assert_eq!(output.usage.output, num(2.0));
    assert_eq!(output.usage.total_tokens, num(7.0));
    assert!(matches!(&sent[0], AssistantMessageEvent::TextStart { content_index: 0, .. }));
    assert!(matches!(sent.last(), Some(AssistantMessageEvent::TextEnd { content, .. }) if content == "Hello world"));
}

#[test]
fn processes_tool_call_with_thinking() {
    let wire = [
        "event: message_start\n",
        "data: {\"type\":\"message_start\",\"message\":{\"id\":\"msg_2\",\"usage\":{\"input_tokens\":5,\"output_tokens\":0}}}\n\n",
        "event: content_block_start\n",
        "data: {\"type\":\"content_block_start\",\"index\":0,\"content_block\":{\"type\":\"thinking\",\"thinking\":\"\",\"signature\":\"sig_1\"}}\n\n",
        "event: content_block_delta\n",
        "data: {\"type\":\"content_block_delta\",\"index\":0,\"delta\":{\"type\":\"thinking_delta\",\"thinking\":\"let me\"}}\n\n",
        "event: content_block_delta\n",
        "data: {\"type\":\"content_block_delta\",\"index\":0,\"delta\":{\"type\":\"thinking_delta\",\"thinking\":\" think\"}}\n\n",
        "event: content_block_stop\n",
        "data: {\"type\":\"content_block_stop\",\"index\":0}\n\n",
        "event: content_block_start\n",
        "data: {\"type\":\"content_block_start\",\"index\":1,\"content_block\":{\"type\":\"tool_use\",\"id\":\"toolu_1\",\"name\":\"read\",\"input\":{}}}\n\n",
        "event: content_block_delta\n",
        "data: {\"type\":\"content_block_delta\",\"index\":1,\"delta\":{\"type\":\"input_json_delta\",\"partial_json\":\"{\\\"path\\\":\\\"/tm\"}}\n\n",
        "event: content_block_delta\n",
        "data: {\"type\":\"content_block_delta\",\"index\":1,\"delta\":{\"type\":\"input_json_delta\",\"partial_json\":\"p/file\\\"}\"}}\n\n",
        "event: content_block_stop\n",
        "data: {\"type\":\"content_block_stop\",\"index\":1}\n\n",
        "event: message_delta\n",
        "data: {\"type\":\"message_delta\",\"delta\":{\"stop_reason\":\"tool_use\"}}\n\n",
        "event: message_stop\n",
        "data: {\"type\":\"message_stop\"}\n\n",
    ]
    .concat();
    let m = model("anthropic", "nova-sonnet-4-5", false);
    let (output, _) = process(&wire, &m);

    assert_eq!(output.stop_reason, StopReason::ToolUse);
    assert_eq!(output.content.len(), 2);
    match &output.content[0] {
        Content::Thinking(block) => {
            assert_eq!(block.thinking, "let me think");
            assert_eq!(block.thinking_signature.as_deref(), Some("sig_1"));
        }
        other => panic!("expected thinking, got {other:?}"),
    }
    match &output.content[1] {
        Content::ToolCall(tool_call) => {
            assert_eq!(tool_call.id, "toolu_1");
            assert_eq!(tool_call.name, "read");
            assert_eq!(tool_call.arguments, Value::Object(vec![("path".to_string(), s("/tmp/file"))]));
        }
        other => panic!("expected tool call, got {other:?}"),
    }
}

#[test]
fn build_params_includes_thinking_and_tools() {
    let mut m = model("anthropic", "nova-sonnet-4-5", true);
    m.compat = Some(ModelCompat::AnthropicMessages(AnthropicMessagesCompat {
        force_adaptive_thinking: Some(true),
        ..AnthropicMessagesCompat::default()
    }));
    let tools = || {
        vec![Tool {
            name: "read".to_string(),
            description: "Read a file".to_string(),
            parameters: schema("path", "string"),
            constrained_sampling: None,
        }]
    };
    let context = Context {
        system_prompt: Some("be brief".to_string()),
        messages: vec![user_text("hi")],
        tools: Some(tools()),
    };
    let options = AnthropicOptions {
        thinking_enabled: Some(true),
        effort: Some("high".to_string()),
        ..AnthropicOptions::default()
    };
    let placement = ToolPlacement { immediate: tools(), deferred: Vec::new() };
    let params = build_params(&m, &context, false, Some(&options), None, &context.messages, &placement);
    assert!(json_contains_key(&params, "system"));
    assert!(json_contains_key(&params, "tools"));
    let thinking = get(&params, "thinking").unwrap();
    assert!(json_contains_key(thinking, "display"));
    assert!(json_contains_key(&params, "output_config"));
}

#[test]
fn redacted_thinking_round_trips() {
    let wire = [
        "event: message_start\n",
        "data: {\"type\":\"message_start\",\"message\":{\"id\":\"m\",\"usage\":{\"input_tokens\":1,\"output_tokens\":0}}}\n\n",
        "event: content_block_start\n",
        "data: {\"type\":\"content_block_start\",\"index\":0,\"content_block\":{\"type\":\"redacted_thinking\",\"data\":\"encrypted_payload\"}}\n\n",
        "event: content_block_stop\n",
        "data: {\"type\":\"content_block_stop\",\"index\":0}\n\n",
        "event: message_delta\n",
        "data: {\"type\":\"message_delta\",\"delta\":{\"stop_reason\":\"end_turn\"}}\n\n",
        "event: message_stop\n",
        "data: {\"type\":\"message_stop\"}\n\n",
    ]
    .concat();
    let m = model("anthropic", "nova-sonnet-4-5", false);
    let (output, _) = process(&wire, &m);
    match &output.content[0] {
        Content::Thinking(block) => {
            assert_eq!(block.redacted, Some(true));
            assert_eq!(block.thinking, "[Reasoning redacted]");
            assert_eq!(block.thinking_signature.as_deref(), Some("encrypted_payload"));
        }
        other => panic!("expected thinking, got {other:?}"),
    }
}

#[test]
fn claude_code_name_obfuscation_on_oauth() {
    let m = model("anthropic", "nova-sonnet-4-5", false);
    let tools = || {
        vec![Tool {
            name: "Bash".to_string(),
            description: "Run a command".to_string(),
            parameters: JsonSchemaObject::default(),
            constrained_sampling: None,
        }]
    };
    let context = Context { messages: vec![user_text("hi")], tools: Some(tools()), ..Context::default() };
    let placement = ToolPlacement { immediate: tools(), deferred: Vec::new() };
    let params = build_params(&m, &context, true, None, None, &context.messages, &placement);
    // OAuth: tools are obfuscated to CC casing (Bash stays Bash), system
    // carries the Nova Code identity.
    assert!(json_contains_key(&params, "system"));
    let system = get(&params, "system").unwrap();
    let system_text = json_find_text(system, "You are Nova Code");
    assert!(system_text, "OAuth system prompt must include Nova Code identity");
}

fn json_find_text(value: &Value, needle: &str) -> bool {
    match value {
        Value::Object(entries) => entries.iter().any(|(k, v)| {
            if k == "text" {
                matches!(v, Value::Str(text) if text.contains(needle))
            } else {
                json_find_text(v, needle)
            }
        }),
        Value::Array(items) => items.iter().any(|v| json_find_text(v, needle)),
        _ => false,
    }
}

#[test]
fn a_request_without_any_key_is_refused() {
    let m = model("anthropic", "nova-sonnet-4-5", false);
    let context = Context { messages: vec![user_text("hi")], ..Context::default() };
    let refused = prepare_request(&m, &context, None, None, None, &context.messages, &no_placement());
    assert!(refused.unwrap_err().contains("anthropic"));
    let request =
        prepare_request(&m, &context, None, Some("sk-ant-api03-x"), None, &context.messages, &no_placement())
            .unwrap();
    assert_eq!(request.url, "https://api.anthropic.com/v1/messages");
    assert!(request.headers.iter().any(|(k, v)| k == "x-api-key" && v == "sk-ant-api03-x"));
}

#[test]
fn a_stream_without_its_last_event_is_an_error() {
    let wire = "event: message_start\ndata: {\"type\":\"message_start\",\"message\":{\"id\":\"m\"}}\n\n";
    let parsed = parse_all(wire);
    let mut output = begin_message("anthropic-messages", "anthropic", "nova", num(0.0));
    let mut sent = Vec::new();
    let result = process_anthropic_stream(&parsed, &mut output, &mut sent, false, None, &read, &price);
    assert!(result.unwrap_err().contains("ended before"));
}

#[test]
fn an_anthropic_reply_needs_a_reason() {
    let mut output = begin_message("anthropic-messages", "anthropic", "m", num(0.0));
    assert_eq!(check_reply(&output), Err("Anthropic stream ended without a stop reason".to_string()));
    output.stop_reason = StopReason::Error;
    assert_eq!(check_reply(&output), Err("An unknown error occurred".to_string()));
    output.stop_reason = StopReason::Stop;
    assert_eq!(check_reply(&output), Ok(()));
}

#[test]
fn a_subscription_goes_under_the_name_of_the_series() {
    let m = model("anthropic", "nova-sonnet-4-5", false);
    let context = Context::default();
    let request =
        prepare_request(&m, &context, None, Some("sk-ant-oat-1"), None, &Vec::new(), &no_placement()).unwrap();
    assert!(request.headers.contains(&("user-agent".to_string(), "nova-cli/2.1.75".to_string())));
    let features = request.headers.iter().find(|(name, _)| name == "anthropic-beta").unwrap();
    assert!(features.1.starts_with("nova-code-20250219,oauth-2025-04-20"));
    let expected = parse("[{\"type\":\"text\",\"text\":\"You are Nova Code, Anthropic's official CLI for Nova.\",\"cache_control\":{\"type\":\"ephemeral\"}}]");
    assert_eq!(get(&request.body, "system"), expected.as_ref());
}

#[test]
fn a_plain_message_is_marked_in_its_content() {
    let cache_control = Some(CacheControl { ttl: None });
    let converted = convert_messages(&vec![user_text("hello")], false, cache_control.as_ref(), false, &Vec::new());
    let expected = parse(
        "[{\"role\":\"user\",\"content\":[{\"type\":\"text\",\"text\":\"hello\",\"cache_control\":{\"type\":\"ephemeral\"}}]}]",
    );
    assert_eq!(Some(Value::Array(converted)), expected);
}

#[test]
fn what_is_sent_is_priced() {
    let wire = [
        "event: message_start\n",
        "data: {\"type\":\"message_start\",\"message\":{\"id\":\"msg_1\",\"usage\":{\"input_tokens\":5}}}\n\n",
        "event: content_block_start\n",
        "data: {\"type\":\"content_block_start\",\"index\":0,\"content_block\":{\"type\":\"text\",\"text\":\"\"}}\n\n",
        "event: message_stop\n",
        "data: {\"type\":\"message_stop\"}\n\n",
    ]
    .concat();
    let (output, sent) = process(&wire, &make_model("nova-sonnet", "anthropic-messages", "anthropic", "", true));
    assert_eq!(output.usage.cost.total, money(5.0));
    assert!(matches!(&sent[0], AssistantMessageEvent::TextStart { partial, .. } if partial.usage.cost.total == money(5.0)));
}

#[test]
fn names_of_the_client_stay() {
    for name in ["read", "READ", "Read", "rEaD"] {
        assert_eq!(to_claude_code_name(name), "Read");
    }
    assert_eq!(to_claude_code_name("webfetch"), "WebFetch");
    assert_eq!(to_claude_code_name(&to_claude_code_name("TODOWRITE")), "TodoWrite");
    assert_eq!(to_claude_code_name("my_tool"), "my_tool");
}

#[test]
fn names_of_a_request_come_back() {
    let tools = vec![plain_tool("READ"), plain_tool("my_Tool")];
    assert_eq!(from_claude_code_name("Read", Some(&tools)), "READ");
    assert_eq!(from_claude_code_name("MY_TOOL", Some(&tools)), "my_Tool");
    assert_eq!(from_claude_code_name("Write", Some(&tools)), "Write");
    assert_eq!(from_claude_code_name("Read", None), "Read");
}
