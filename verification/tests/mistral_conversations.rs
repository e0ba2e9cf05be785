//! Tests of the Mistral interface.
use pi_ai::api::mistral_conversations::events::{
    extract_cached_tokens, find_mistral_event_boundary, parse_mistral_event, parse_usage, MistralChoice,
    MistralCompletionEvent, MistralContentItems, MistralDelta, MistralEvent, MistralEventReader, MistralToolCallDelta,
    MistralUsage,
};
use pi_ai::api::mistral_conversations::ids::{
    derive_mistral_tool_call_id, MistralToolCallIdNormalizer, MISTRAL_TOOL_CALL_ID_LENGTH,
};
use pi_ai::api::mistral_conversations::messages::{build_tool_result_text, to_chat_messages, user_blocks_are_plain};
use pi_ai::api::mistral_conversations::request::{
    format_mistral_error, prepare_request, stream_simple, truncate_error_text,
};
use pi_ai::api::mistral_conversations::stream::{check_reply, consume_chat_stream, map_chat_stop_reason};
use pi_ai::json::Value;
use pi_ai::number::{Cost, Number};
#[allow(unused_imports)]
use pi_ai::types::{
    begin_message, AssistantMessage, AssistantMessageEvent, Content, Context, ImageContent, JsonSchemaObject, Message,
    Model, ModelCompat, ModelCostRates, SeriesName, StopReason, StreamOptions, TextContent, ThinkingBudgets,
    ThinkingContent, Tool, ToolCall, ToolPlacement, ToolResultMessage, Usage, UsageCost,
    UserMessage, UserMessageContent,
};

// ---------------------------------------------------------------------------
// A JSON parser for the tests
// ---------------------------------------------------------------------------

struct Parser {
    chars: Vec<char>,
    at: usize,
    lenient: bool,
}

impl Parser {
    fn space(&mut self) {
        while self.at < self.chars.len() && self.chars[self.at].is_whitespace() {
            self.at += 1;
        }
    }

    fn peek(&self) -> Option<char> {
        self.chars.get(self.at).copied()
    }

    fn take(&mut self, c: char) -> bool {
        self.space();
        if self.peek() == Some(c) {
            self.at += 1;
            true
        } else {
            false
        }
    }

    fn word(&mut self, word: &str, value: Value) -> Option<Value> {
        for c in word.chars() {
            if self.peek() != Some(c) {
                return None;
            }
            self.at += 1;
        }
        Some(value)
    }

    fn text(&mut self) -> Option<String> {
        let mut out = String::new();
        loop {
            match self.peek() {
                None => return if self.lenient { Some(out) } else { None },
                Some('"') => {
                    self.at += 1;
                    return Some(out);
                }
                Some('\\') => {
                    self.at += 1;
                    let c = match self.peek() {
                        Some(c) => c,
                        None => return if self.lenient { Some(out) } else { None },
                    };
                    self.at += 1;
                    match c {
                        'n' => out.push('\n'),
                        'r' => out.push('\r'),
                        't' => out.push('\t'),
                        'b' => out.push('\u{8}'),
                        'f' => out.push('\u{c}'),
                        'u' => {
                            let mut code = 0;
                            for _ in 0..4 {
                                code = code * 16 + self.peek()?.to_digit(16)?;
                                self.at += 1;
                            }
                            out.push(char::from_u32(code)?);
                        }
                        other => out.push(other),
                    }
                }
                Some(c) => {
                    out.push(c);
                    self.at += 1;
                }
            }
        }
    }

    fn value(&mut self) -> Option<Value> {
        self.space();
        match self.peek()? {
            '{' => {
                self.at += 1;
                let mut entries = Vec::new();
                if self.take('}') {
                    return Some(Value::Object(entries));
                }
                loop {
                    if !self.take('"') {
                        return if self.lenient && self.peek().is_none() { Some(Value::Object(entries)) } else { None };
                    }
                    let key = self.text()?;
                    if !self.take(':') {
                        return if self.lenient { Some(Value::Object(entries)) } else { None };
                    }
                    match self.value() {
                        Some(value) => entries.push((key, value)),
                        None => return if self.lenient { Some(Value::Object(entries)) } else { None },
                    }
                    if self.take('}') {
                        return Some(Value::Object(entries));
                    }
                    if !self.take(',') {
                        return if self.lenient { Some(Value::Object(entries)) } else { None };
                    }
                }
            }
            '[' => {
                self.at += 1;
                let mut items = Vec::new();
                if self.take(']') {
                    return Some(Value::Array(items));
                }
                loop {
                    match self.value() {
                        Some(value) => items.push(value),
                        None => return if self.lenient { Some(Value::Array(items)) } else { None },
                    }
                    if self.take(']') {
                        return Some(Value::Array(items));
                    }
                    if !self.take(',') {
                        return if self.lenient { Some(Value::Array(items)) } else { None };
                    }
                }
            }
            '"' => {
                self.at += 1;
                Some(Value::Str(self.text()?))
            }
            't' => self.word("true", Value::Bool(true)),
            'f' => self.word("false", Value::Bool(false)),
            'n' => self.word("null", Value::Null),
            _ => {
                let start = self.at;
                while self.peek().is_some_and(|c| c.is_ascii_digit() || "+-.eE".contains(c)) {
                    self.at += 1;
                }
                let digits: String = self.chars[start..self.at].iter().collect();
                let nearest = num(digits.parse::<f64>().ok()?);
                let places = digits.split('.').nth(1).map_or(0, |fraction| fraction.len());
                if digits.contains("e-") || places > 9 {
                    return Some(Value::Precise { text: digits, nearest });
                }
                Some(Value::Number(nearest))
            }
        }
    }
}

fn num(n: f64) -> Number {
    Number { nanos: (n * 1e9).round() as i128 }
}

#[allow(dead_code)]
fn parse(text: &str) -> Option<Value> {
    let mut parser = Parser { chars: text.chars().collect(), at: 0, lenient: false };
    let value = parser.value()?;
    parser.space();
    if parser.at == parser.chars.len() { Some(value) } else { None }
}

#[allow(dead_code)]
fn check(text: &str) -> Result<Value, String> {
    parse(text).ok_or_else(|| "unreadable".to_string())
}

#[allow(dead_code)]
fn read(text: &str) -> Value {
    let mut parser = Parser { chars: text.chars().collect(), at: 0, lenient: true };
    parser.value().unwrap_or(Value::Object(Vec::new()))
}

#[allow(dead_code)]
fn get<'a>(value: &'a Value, key: &str) -> Option<&'a Value> {
    match value {
        Value::Object(entries) => entries.iter().find(|(k, _)| k == key).map(|(_, v)| v),
        _ => None,
    }
}

#[allow(dead_code)]
fn s(text: &str) -> Value {
    Value::Str(text.to_string())
}

#[allow(dead_code)]
fn money(n: f64) -> Cost {
    Cost { parts: num(n).nanos * 1_000_000_000_000_000 }
}

/// Prices nothing.
#[allow(dead_code)]
fn free(_usage: Usage) -> UsageCost {
    UsageCost { input: money(0.0), output: money(0.0), cache_read: money(0.0), cache_write: money(0.0), total: money(0.0) }
}

/// Prices the input at what it counts, and the rest at nothing.
#[allow(dead_code)]
fn price(usage: Usage) -> UsageCost {
    let input = Cost { parts: usage.input.nanos * 1_000_000_000_000_000 };
    UsageCost { input, total: input, ..free(usage) }
}

#[allow(dead_code)]
fn make_model(id: &str, api: &str, provider: &str, base_url: &str, reasoning: bool) -> Model {
    Model {
        id: id.to_string(),
        name: id.to_string(),
        api: api.to_string(),
        provider: provider.to_string(),
        base_url: base_url.to_string(),
        reasoning,
        thinking_level_map: None,
        input: vec!["text".to_string()],
        cost: ModelCostRates { input: num(3.0), output: num(15.0), cache_read: num(0.3), cache_write: num(3.0) },
        context_window: num(200_000.0),
        max_tokens: num(8192.0),
        headers: None,
        compat: None,
        anthropic_series: SeriesName { id: "nova".to_string(), title: "Nova".to_string() },
    }
}

#[allow(dead_code)]
fn user_text(text: &str) -> Message {
    Message::User(UserMessage { content: UserMessageContent::Text(text.to_string()), timestamp: num(1.0) })
}

#[allow(dead_code)]
fn assistant_with(content: Vec<Content>, provider: &str, model: &str) -> Message {
    let mut message = begin_message("test", provider, model, num(2.0));
    message.content = content;
    message.stop_reason = StopReason::Stop;
    Message::Assistant(message)
}

#[allow(dead_code)]
fn text_block(text: &str) -> Content {
    Content::Text(TextContent { text: text.to_string(), text_signature: None })
}

#[allow(dead_code)]
fn tool_result(id: &str, content: Vec<Content>, is_error: bool) -> Message {
    Message::ToolResult(ToolResultMessage {
        tool_call_id: id.to_string(),
        tool_name: "read".to_string(),
        content,
        added_tool_names: None,
        is_error,
        timestamp: num(3.0),
    })
}

#[allow(dead_code)]
fn plain_tool(name: &str) -> Tool {
    Tool {
        name: name.to_string(),
        description: "d".to_string(),
        parameters: JsonSchemaObject::default(),
        constrained_sampling: None,
    }
}

#[allow(dead_code)]
fn no_placement() -> ToolPlacement {
    ToolPlacement { immediate: Vec::new(), deferred: Vec::new() }
}

fn test_model() -> Model {
    make_model("mistral-medium", "mistral-conversations", "mistral", "https://api.mistral.ai", true)
}

fn create_output(model: &Model) -> AssistantMessage {
    begin_message(&model.api, &model.provider, &model.id, num(0.0))
}

#[test]
fn parses_data_lines_and_done() {
    // [DONE] marker.
    let done = parse_mistral_event("data: [DONE]", &parse).unwrap();
    assert!(matches!(done, Some(MistralEvent::Done)));

    // No data -> None.
    assert!(matches!(parse_mistral_event("event: x", &parse).unwrap(), None));

    // Standard event with choices.
    let raw = "data: {\"id\":\"chunk-1\",\"choices\":[{\"finish_reason\":null,\"delta\":{\"content\":\"Hello\"}}]}";
    let parsed = parse_mistral_event(raw, &parse).unwrap();
    match parsed {
        Some(MistralEvent::Data(event)) => {
            assert_eq!(event.id.as_deref(), Some("chunk-1"));
            assert_eq!(event.choices.len(), 1);
            let choice = &event.choices[0];
            assert_eq!(choice.finish_reason, None);
            match &choice.delta.content {
                Some(MistralContentItems::Text(text)) => assert_eq!(text, "Hello"),
                _ => panic!("expected text content"),
            }
        }
        _ => panic!("expected data event"),
    }
}

#[test]
fn rejects_invalid_events() {
    // choices must be an array.
    let error = parse_mistral_event("data: {\"choices\": {}}", &parse).unwrap_err();
    assert_eq!(error, "Invalid Mistral streaming event");
    // Non-object payload.
    assert!(parse_mistral_event("data: 42", &parse).is_err());
}

#[test]
fn extracts_cached_tokens_from_all_field_shapes() {
    let cases: Vec<(Vec<(&str, f64)>, f64)> = vec![
        (vec![("prompt_tokens", 100.0)], 0.0),
        (vec![("prompt_tokens", 100.0), ("prompt_tokens_details", 0.0)], 0.0),
    ];
    for (fields, expected) in cases {
        let entries: Vec<(String, Value)> =
            fields.iter().map(|(k, v)| (k.to_string(), Value::Number(num(*v)))).collect();
        let cached = extract_cached_tokens(&entries);
        assert_eq!(cached, num(expected));
    }

    // Nested shapes.
    let entries = vec![
        ("prompt_tokens".to_string(), Value::Number(num(100.0))),
        (
            "prompt_tokens_details".to_string(),
            Value::Object(vec![("cached_tokens".to_string(), Value::Number(num(40.0)))]),
        ),
    ];
    assert_eq!(extract_cached_tokens(&entries), num(40.0));

    let entries = vec![(
        "promptTokensDetails".to_string(),
        Value::Object(vec![("cachedTokens".to_string(), Value::Number(num(25.0)))]),
    )];
    assert_eq!(extract_cached_tokens(&entries), num(25.0));

    let entries = vec![("num_cached_tokens".to_string(), Value::Number(num(30.0)))];
    assert_eq!(extract_cached_tokens(&entries), num(30.0));
}

#[test]
fn usage_is_clamped_to_prompt_tokens() {
    let entries = vec![
        ("prompt_tokens".to_string(), Value::Number(num(10.0))),
        (
            "prompt_tokens_details".to_string(),
            Value::Object(vec![("cached_tokens".to_string(), Value::Number(num(500.0)))]),
        ),
    ];
    let usage = parse_usage(&entries);
    assert_eq!(usage.cached_tokens, num(10.0), "cached clamps to prompt");
}

#[test]
fn finds_mistral_event_boundaries() {
    // Standard double newline.
    let buffer = b"data: x\n\ndata: y".to_vec();
    let (index, length) = find_mistral_event_boundary(&buffer).unwrap();
    assert_eq!(&buffer[index..index + length], b"\n\n");

    // CRLF variant.
    let buffer = b"data: x\r\n\r\ndata: y".to_vec();
    let (index, length) = find_mistral_event_boundary(&buffer).unwrap();
    assert_eq!(&buffer[index..index + length], b"\r\n\r\n");

    // No boundary yet.
    assert!(find_mistral_event_boundary(&b"data: partial".to_vec()).is_none());
}

#[test]
fn derives_9_char_tool_call_ids() {
    // Already normalized alphanumeric id of length 9 is kept.
    let id = derive_mistral_tool_call_id("abc123xyz", 0);
    assert_eq!(id, "abc123xyz");
    assert_eq!(id.chars().count(), MISTRAL_TOOL_CALL_ID_LENGTH);

    // Other ids are hashed to 9 alphanumeric chars.
    let hashed = derive_mistral_tool_call_id("call_1|with|specials", 0);
    assert_eq!(hashed.chars().count(), MISTRAL_TOOL_CALL_ID_LENGTH);
    assert!(hashed.chars().all(|c| c.is_ascii_alphanumeric()));

    // Different attempts produce different ids (collision escape).
    let a = derive_mistral_tool_call_id("same-seed", 0);
    let b = derive_mistral_tool_call_id("same-seed", 1);
    assert_ne!(a, b);
}

#[test]
fn normalizer_is_bijective() {
    let mut normalizer = MistralToolCallIdNormalizer::new();
    let a1 = normalizer.normalize("call-a");
    let a2 = normalizer.normalize("call-a");
    assert_eq!(a1, a2, "same input maps to same output");
    let b1 = normalizer.normalize("call-b");
    assert_ne!(a1, b1, "different inputs map to different outputs");
}

#[test]
fn an_id_that_is_taken_is_not_given_again() {
    let mut normalizer = MistralToolCallIdNormalizer::new();
    let hashed = normalizer.normalize("call-a");
    // The id that the hash stands for belongs to another call by now.
    let other = normalizer.normalize(&hashed);
    assert_ne!(other, hashed);
    assert_eq!(other.chars().count(), MISTRAL_TOOL_CALL_ID_LENGTH);
}

#[test]
fn mistral_conversations_maps_stop_reasons() {
    assert_eq!(map_chat_stop_reason("stop"), (StopReason::Stop, None));
    assert_eq!(map_chat_stop_reason("length"), (StopReason::Length, None));
    assert_eq!(map_chat_stop_reason("model_length"), (StopReason::Length, None));
    assert_eq!(map_chat_stop_reason("tool_calls"), (StopReason::ToolUse, None));
    assert_eq!(
        map_chat_stop_reason("error"),
        (StopReason::Error, Some("Provider stopped with: error".to_string()))
    );
    let (reason, message) = map_chat_stop_reason("weird");
    assert_eq!(reason, StopReason::Error);
    assert_eq!(message, Some("Provider stopped with: weird".to_string()));
}

#[test]
fn builds_tool_result_text() {
    assert_eq!(build_tool_result_text("done", false, false, false), "done");
    assert_eq!(build_tool_result_text("", false, false, true), "[tool error] (no tool output)");
    assert_eq!(
        build_tool_result_text("", true, false, false),
        "(image omitted: model does not support images)"
    );
    assert_eq!(build_tool_result_text("", true, true, false), "(see attached image)");
    assert_eq!(
        build_tool_result_text("text", true, false, true),
        "[tool error] text\n[tool image omitted: model does not support images]"
    );
}

fn said(text: Option<&str>, finish_reason: Option<&str>) -> MistralChoice {
    MistralChoice {
        finish_reason: finish_reason.map(|r| r.to_string()),
        delta: MistralDelta {
            content: text.map(|t| MistralContentItems::Text(t.to_string())),
            tool_calls: vec![],
        },
    }
}

#[test]
fn consumes_a_text_and_tool_call_stream() {
    // Simulate the events a Mistral stream would produce.
    let events = vec![
        MistralCompletionEvent {
            id: Some("resp-1".to_string()),
            usage: Some(MistralUsage {
                prompt_tokens: num(100.0),
                completion_tokens: num(5.0),
                total_tokens: num(105.0),
                cached_tokens: num(40.0),
            }),
            choices: vec![said(Some("Hello "), None)],
        },
        MistralCompletionEvent { id: None, usage: None, choices: vec![said(Some("world"), None)] },
        MistralCompletionEvent { id: None, usage: None, choices: vec![said(None, Some("stop"))] },
    ];

    let model = test_model();
    let mut output = create_output(&model);
    let mut sent = Vec::new();
    consume_chat_stream(&mut output, &mut sent, &events, &read, &price);

    assert_eq!(output.response_id.as_deref(), Some("resp-1"));
    assert_eq!(output.stop_reason, StopReason::Stop);
    assert_eq!(output.raw_stop_reason.as_deref(), Some("stop"));
    assert_eq!(output.usage.input, num(60.0));
    assert_eq!(output.usage.cache_read, num(40.0));
    assert_eq!(output.usage.cost.total, money(60.0));
    // What is sent is priced, too.
    assert!(matches!(&sent[0], AssistantMessageEvent::TextStart { partial, .. } if partial.usage.cost.total == money(60.0)));
    assert_eq!(output.usage.output, num(5.0));
    assert_eq!(output.content.len(), 1);
    match &output.content[0] {
        Content::Text(text) => assert_eq!(text.text, "Hello world"),
        other => panic!("expected text block, got {other:?}"),
    }
    assert!(matches!(sent.last(), Some(AssistantMessageEvent::TextEnd { content, .. }) if content == "Hello world"));
}

#[test]
fn consumes_a_tool_call_stream() {
    let events = vec![MistralCompletionEvent {
        id: None,
        usage: None,
        choices: vec![MistralChoice {
            finish_reason: None,
            delta: MistralDelta {
                content: None,
                tool_calls: vec![MistralToolCallDelta {
                    id: Some("call_123".to_string()),
                    index: Some(num(0.0)),
                    name: "read".to_string(),
                    arguments: "{\"path\":\"".to_string(),
                }],
            },
        }],
    }];

    let model = test_model();
    let mut output = create_output(&model);
    let mut sent = Vec::new();
    consume_chat_stream(&mut output, &mut sent, &events, &read, &price);

    assert_eq!(output.content.len(), 1);
    match &output.content[0] {
        Content::ToolCall(tool_call) => {
            assert_eq!(tool_call.id, "call_123");
            assert_eq!(tool_call.name, "read");
            assert_eq!(tool_call.arguments, Value::Object(vec![("path".to_string(), s(""))]));
        }
        other => panic!("expected tool call, got {other:?}"),
    }
}

#[test]
fn a_reader_takes_a_stream_in_pieces() {
    let wire = "data: {\"id\":\"r\",\"choices\":[]}\r\n\r\ndata: {\"choices\":[]}\n\ndata: [DONE]\n\ndata: {\"choices\":[]}";
    for cut in 0..wire.len() {
        let mut reader = MistralEventReader::new();
        reader.feed(&wire.as_bytes()[..cut].to_vec(), &parse);
        reader.feed(&wire.as_bytes()[cut..].to_vec(), &parse);
        reader.finish(&parse);
        let events = reader.into_events();
        assert_eq!(events.len(), 2);
        assert_eq!(events[0].id.as_deref(), Some("r"));
    }
}

#[test]
fn long_errors_are_cut() {
    assert_eq!(truncate_error_text("short", 10), "short");
    assert_eq!(truncate_error_text("0123456789", 4), "0123... [truncated 6 chars]");
    assert!(format_mistral_error(Some(500), "boom").contains("boom"));
}

#[test]
fn images_are_left_out_where_a_model_takes_none() {
    let image = Content::Image(ImageContent { data: "abc".to_string(), mime_type: "image/png".to_string() });
    let messages = vec![Message::User(UserMessage {
        content: UserMessageContent::Blocks(vec![text_block("look"), image]),
        timestamp: num(1.0),
    })];
    assert!(user_blocks_are_plain(&messages));
    let with = to_chat_messages(&messages, true);
    let without = to_chat_messages(&messages, false);
    assert_eq!(get(&with[0], "content"), Some(&Value::Array(vec![
        Value::Object(vec![("type".to_string(), s("text")), ("text".to_string(), s("look"))]),
        Value::Object(vec![
            ("type".to_string(), s("image_url")),
            ("image_url".to_string(), s("data:image/png;base64,abc")),
        ]),
    ])));
    assert_eq!(get(&without[0], "content"), Some(&Value::Array(vec![
        Value::Object(vec![("type".to_string(), s("text")), ("text".to_string(), s("look"))]),
    ])));
}

#[test]
fn a_mistral_request_needs_a_key() {
    let model = test_model();
    let context = Context { messages: vec![user_text("hi")], ..Context::default() };
    let refused = prepare_request(&model, &context, &context.messages, None, None).unwrap_err();
    assert_eq!(refused, "No API key for provider: mistral");
    let request = prepare_request(&model, &context, &context.messages, None, Some("key")).unwrap();
    assert_eq!(request.url, "https://api.mistral.ai/v1/chat/completions");
    assert_eq!(get(&request.body, "model"), Some(&s("mistral-medium")));
    assert!(stream_simple(&model, StreamOptions::default(), Some("high"), None).is_err());
    let options = stream_simple(&model, StreamOptions::default(), Some("high"), Some("key")).unwrap();
    assert_eq!(options.prompt_mode.as_deref(), Some("reasoning"));
}

#[test]
fn a_mistral_reply_needs_a_reason() {
    let mut output = create_output(&test_model());
    assert_eq!(check_reply(&output), Err("Mistral stream ended without a finish reason".to_string()));
    output.stop_reason = StopReason::Length;
    assert_eq!(check_reply(&output), Ok(()));
}

#[test]
fn the_first_id_that_is_not_empty_is_kept() {
    let event = |id: &str| MistralCompletionEvent { id: Some(id.to_string()), usage: None, choices: vec![] };
    let mut output = create_output(&test_model());
    let mut sent = Vec::new();
    consume_chat_stream(&mut output, &mut sent, &vec![event(""), event("r1"), event("r2")], &read, &free);
    assert_eq!(output.response_id.as_deref(), Some("r1"));
}
