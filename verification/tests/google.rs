//! Tests of what the Google interfaces share, and of the generative one.
use pi_ai::api::google_generative_ai::{
    get_disabled_thinking_config, get_google_budget, get_thinking_level, is_gemini3_flash_model, is_gemini3_pro_model,
    is_gemma4_model, parse_part, prepare_request, request_url, stream_simple,
};
use pi_ai::api::google_shared::messages::{
    convert_messages, convert_tools, normalize_tool_call_id, sanitize_for_openapi, GoogleContent, GooglePart,
};
use pi_ai::api::google_shared::stream::{finish_stream, process_data, GoogleInterface, GoogleStreamState};
use pi_ai::api::google_shared::{
    get_gemini_major_version, is_valid_thought_signature, map_stop_reason, map_stop_reason_string,
    requires_tool_call_id, resolve_google_function_calling_mode, resolve_thought_signature, retain_thought_signature,
};
use pi_ai::types::{ConstrainedSampling, ConstrainedSamplingConfig};
use pi_ai::json::Value;
use pi_ai::number::{Cost, Number};
#[allow(unused_imports)]
use pi_ai::types::{
    begin_message, AssistantMessage, AssistantMessageEvent, Content, Context, ImageContent, JsonSchemaObject, Message,
    Model, ModelCompat, ModelCostRates, SeriesName, StopReason, StreamOptions, TextContent, ThinkingBudgets,
    ThinkingContent, Tool, ToolCall, ToolPlacement, ToolResultMessage, Usage, UsageCost,
    UserMessage, UserMessageContent,
};

// ---------------------------------------------------------------------------
// A JSON parser for the tests
// ---------------------------------------------------------------------------

struct Parser {
    chars: Vec<char>,
    at: usize,
    lenient: bool,
}

impl Parser {
    fn space(&mut self) {
        while self.at < self.chars.len() && self.chars[self.at].is_whitespace() {
            self.at += 1;
        }
    }

    fn peek(&self) -> Option<char> {
        self.chars.get(self.at).copied()
    }

    fn take(&mut self, c: char) -> bool {
        self.space();
        if self.peek() == Some(c) {
            self.at += 1;
            true
        } else {
            false
        }
    }

    fn word(&mut self, word: &str, value: Value) -> Option<Value> {
        for c in word.chars() {
            if self.peek() != Some(c) {
                return None;
            }
            self.at += 1;
        }
        Some(value)
    }

    fn text(&mut self) -> Option<String> {
        let mut out = String::new();
        loop {
            match self.peek() {
                None => return if self.lenient { Some(out) } else { None },
                Some('"') => {
                    self.at += 1;
                    return Some(out);
                }
                Some('\\') => {
                    self.at += 1;
                    let c = match self.peek() {
                        Some(c) => c,
                        None => return if self.lenient { Some(out) } else { None },
                    };
                    self.at += 1;
                    match c {
                        'n' => out.push('\n'),
                        'r' => out.push('\r'),
                        't' => out.push('\t'),
                        'b' => out.push('\u{8}'),
                        'f' => out.push('\u{c}'),
                        'u' => {
                            let mut code = 0;
                            for _ in 0..4 {
                                code = code * 16 + self.peek()?.to_digit(16)?;
                                self.at += 1;
                            }
                            out.push(char::from_u32(code)?);
                        }
                        other => out.push(other),
                    }
                }
                Some(c) => {
                    out.push(c);
                    self.at += 1;
                }
            }
        }
    }

    fn value(&mut self) -> Option<Value> {
        self.space();
        match self.peek()? {
            '{' => {
                self.at += 1;
                let mut entries = Vec::new();
                if self.take('}') {
                    return Some(Value::Object(entries));
                }
                loop {
                    if !self.take('"') {
                        return if self.lenient && self.peek().is_none() { Some(Value::Object(entries)) } else { None };
                    }
                    let key = self.text()?;
                    if !self.take(':') {
                        return if self.lenient { Some(Value::Object(entries)) } else { None };
                    }
                    match self.value() {
                        Some(value) => entries.push((key, value)),
                        None => return if self.lenient { Some(Value::Object(entries)) } else { None },
                    }
                    if self.take('}') {
                        return Some(Value::Object(entries));
                    }
                    if !self.take(',') {
                        return if self.lenient { Some(Value::Object(entries)) } else { None };
                    }
                }
            }
            '[' => {
                self.at += 1;
                let mut items = Vec::new();
                if self.take(']') {
                    return Some(Value::Array(items));
                }
                loop {
                    match self.value() {
                        Some(value) => items.push(value),
                        None => return if self.lenient { Some(Value::Array(items)) } else { None },
                    }
                    if self.take(']') {
                        return Some(Value::Array(items));
                    }
                    if !self.take(',') {
                        return if self.lenient { Some(Value::Array(items)) } else { None };
                    }
                }
            }
            '"' => {
                self.at += 1;
                Some(Value::Str(self.text()?))
            }
            't' => self.word("true", Value::Bool(true)),
            'f' => self.word("false", Value::Bool(false)),
            'n' => self.word("null", Value::Null),
            _ => {
                let start = self.at;
                while self.peek().is_some_and(|c| c.is_ascii_digit() || "+-.eE".contains(c)) {
                    self.at += 1;
                }
                let digits: String = self.chars[start..self.at].iter().collect();
                let nearest = num(digits.parse::<f64>().ok()?);
                let places = digits.split('.').nth(1).map_or(0, |fraction| fraction.len());
                if digits.contains("e-") || places > 9 {
                    return Some(Value::Precise { text: digits, nearest });
                }
                Some(Value::Number(nearest))
            }
        }
    }
}

fn num(n: f64) -> Number {
    Number { nanos: (n * 1e9).round() as i128 }
}

#[allow(dead_code)]
fn parse(text: &str) -> Option<Value> {
    let mut parser = Parser { chars: text.chars().collect(), at: 0, lenient: false };
    let value = parser.value()?;
    parser.space();
    if parser.at == parser.chars.len() { Some(value) } else { None }
}

#[allow(dead_code)]
fn check(text: &str) -> Result<Value, String> {
    parse(text).ok_or_else(|| "unreadable".to_string())
}

#[allow(dead_code)]
fn read(text: &str) -> Value {
    let mut parser = Parser { chars: text.chars().collect(), at: 0, lenient: true };
    parser.value().unwrap_or(Value::Object(Vec::new()))
}

#[allow(dead_code)]
fn get<'a>(value: &'a Value, key: &str) -> Option<&'a Value> {
    match value {
        Value::Object(entries) => entries.iter().find(|(k, _)| k == key).map(|(_, v)| v),
        _ => None,
    }
}

#[allow(dead_code)]
fn s(text: &str) -> Value {
    Value::Str(text.to_string())
}

#[allow(dead_code)]
fn money(n: f64) -> Cost {
    Cost { parts: num(n).nanos * 1_000_000_000_000_000 }
}

/// Prices nothing.
#[allow(dead_code)]
fn free(_usage: Usage) -> UsageCost {
    UsageCost { input: money(0.0), output: money(0.0), cache_read: money(0.0), cache_write: money(0.0), total: money(0.0) }
}

/// Prices the input at what it counts, and the rest at nothing.
#[allow(dead_code)]
fn price(usage: Usage) -> UsageCost {
    let input = Cost { parts: usage.input.nanos * 1_000_000_000_000_000 };
    UsageCost { input, total: input, ..free(usage) }
}

#[allow(dead_code)]
fn make_model(id: &str, api: &str, provider: &str, base_url: &str, reasoning: bool) -> Model {
    Model {
        id: id.to_string(),
        name: id.to_string(),
        api: api.to_string(),
        provider: provider.to_string(),
        base_url: base_url.to_string(),
        reasoning,
        thinking_level_map: None,
        input: vec!["text".to_string()],
        cost: ModelCostRates { input: num(3.0), output: num(15.0), cache_read: num(0.3), cache_write: num(3.0) },
        context_window: num(200_000.0),
        max_tokens: num(8192.0),
        headers: None,
        compat: None,
        anthropic_series: SeriesName { id: "nova".to_string(), title: "Nova".to_string() },
    }
}

#[allow(dead_code)]
fn user_text(text: &str) -> Message {
    Message::User(UserMessage { content: UserMessageContent::Text(text.to_string()), timestamp: num(1.0) })
}

#[allow(dead_code)]
fn assistant_with(content: Vec<Content>, provider: &str, model: &str) -> Message {
    let mut message = begin_message("test", provider, model, num(2.0));
    message.content = content;
    message.stop_reason = StopReason::Stop;
    Message::Assistant(message)
}

#[allow(dead_code)]
fn text_block(text: &str) -> Content {
    Content::Text(TextContent { text: text.to_string(), text_signature: None })
}

#[allow(dead_code)]
fn tool_result(id: &str, content: Vec<Content>, is_error: bool) -> Message {
    Message::ToolResult(ToolResultMessage {
        tool_call_id: id.to_string(),
        tool_name: "read".to_string(),
        content,
        added_tool_names: None,
        is_error,
        timestamp: num(3.0),
    })
}

#[allow(dead_code)]
fn plain_tool(name: &str) -> Tool {
    Tool {
        name: name.to_string(),
        description: "d".to_string(),
        parameters: JsonSchemaObject::default(),
        constrained_sampling: None,
    }
}

#[allow(dead_code)]
fn no_placement() -> ToolPlacement {
    ToolPlacement { immediate: Vec::new(), deferred: Vec::new() }
}

fn model(id: &str) -> Model {
    make_model(id, "google-generative-ai", "google", "", true)
}

#[test]
fn detects_model_families() {
    assert!(is_gemini3_pro_model(&model("gemini-3-pro")));
    assert!(is_gemini3_pro_model(&model("gemini-3.1-pro")));
    assert!(!is_gemini3_pro_model(&model("gemini-2.5-pro")));
    assert!(is_gemini3_flash_model(&model("gemini-3-flash")));
    assert!(is_gemini3_flash_model(&model("gemini-flash-latest")));
    assert!(is_gemma4_model(&model("gemma-4-27b-it")));
    assert!(is_gemma4_model(&model("gemma4-9b")));
}

#[test]
fn families_are_found_whatever_the_case() {
    assert!(is_gemini3_pro_model(&model("models/GEMINI-3-PRO-preview")));
    assert!(is_gemini3_pro_model(&model("gemini-3.12-pro")));
    assert!(!is_gemini3_pro_model(&model("gemini-3.-pro")));
    assert!(!is_gemini3_pro_model(&model("gemini-3x1-pro")));
    assert!(is_gemini3_flash_model(&model("Gemini-Flash-Lite-Latest")));
    assert!(!is_gemini3_flash_model(&model("gemini-2.5-flash")));
}

#[test]
fn maps_thinking_levels() {
    assert_eq!(get_thinking_level("minimal", &model("gemini-2.5-pro")), "MINIMAL");
    assert_eq!(get_thinking_level("high", &model("gemini-2.5-pro")), "HIGH");
    assert_eq!(get_thinking_level("low", &model("gemini-3-pro")), "LOW");
    assert_eq!(get_thinking_level("medium", &model("gemini-3-pro")), "HIGH");
    assert_eq!(get_thinking_level("low", &model("gemma-4-9b")), "MINIMAL");
}

#[test]
fn computes_google_budgets() {
    assert_eq!(get_google_budget(&model("gemini-2.5-pro"), "high", None), num(32768.0));
    assert_eq!(get_google_budget(&model("gemini-2.5-flash"), "medium", None), num(8192.0));
    assert_eq!(get_google_budget(&model("gemini-2.5-flash-lite"), "low", None), num(2048.0));
    assert_eq!(get_google_budget(&model("other"), "high", None), num(-1.0));
    let custom = ThinkingBudgets { minimal: None, low: Some(num(100.0)), medium: None, high: None };
    assert_eq!(get_google_budget(&model("other"), "low", Some(&custom)), num(100.0));
}

#[test]
fn builds_disabled_thinking_configs() {
    let config = get_disabled_thinking_config(&model("gemini-3-pro"));
    assert_eq!(config.level.as_deref(), Some("LOW"));
    assert_eq!(config.budget_tokens, None);
    let config = get_disabled_thinking_config(&model("gemini-3-flash"));
    assert_eq!(config.level.as_deref(), Some("MINIMAL"));
    let config = get_disabled_thinking_config(&model("gemini-2.5-pro"));
    assert_eq!(config.budget_tokens, Some(num(0.0)));
    assert_eq!(config.level, None);
}

#[test]
fn parses_function_call_parts() {
    let part = Value::Object(vec![
        (
            "functionCall".to_string(),
            Value::Object(vec![
                ("name".to_string(), s("read")),
                ("args".to_string(), Value::Object(vec![("path".to_string(), s("/tmp"))])),
            ]),
        ),
        ("thoughtSignature".to_string(), s("sig")),
    ]);
    let parsed = parse_part(&part);
    let (name, args, id, signature) = parsed.function_call.unwrap();
    assert_eq!(name, "read");
    assert_eq!(id, None);
    assert_eq!(signature.as_deref(), Some("sig"));
    assert!(matches!(args, Value::Object(_)));
}

#[test]
fn builds_request_url() {
    assert_eq!(
        request_url(&model("gemini-2.5-pro")),
        "https://generativelanguage.googleapis.com/v1beta/models/gemini-2.5-pro:streamGenerateContent?alt=sse"
    );
    let mut custom = model("gemini-2.5-pro");
    custom.base_url = "https://gateway.example.com/v1beta".to_string();
    assert_eq!(
        request_url(&custom),
        "https://gateway.example.com/v1beta/models/gemini-2.5-pro:streamGenerateContent?alt=sse"
    );
}

#[test]
fn gemini_major_version_detection() {
    assert_eq!(get_gemini_major_version("gemini-2.5-pro"), Some(2));
    assert_eq!(get_gemini_major_version("gemini-3-pro-preview"), Some(3));
    assert_eq!(get_gemini_major_version("gemini-live-2.0"), Some(2));
    assert_eq!(get_gemini_major_version("nova-3-5"), None);
    assert_eq!(get_gemini_major_version("gemini-flash-latest"), None);
}

#[test]
fn tool_call_id_requirements() {
    assert!(requires_tool_call_id("gemini-3-pro-preview", "nova"));
    assert!(!requires_tool_call_id("gemini-2.5-pro", "nova"));
    assert!(requires_tool_call_id("nova-3-5-sonnet", "nova"));
    assert!(requires_tool_call_id("gpt-oss-120b", "nova"));
}

#[test]
fn call_ids_are_made_safe_where_they_are_needed() {
    assert_eq!(normalize_tool_call_id("gemini-2.5-pro", "nova", "a|b"), "a|b");
    assert_eq!(normalize_tool_call_id("gemini-3-pro", "nova", "a|b"), "a_b");
    assert_eq!(normalize_tool_call_id("gpt-oss-120b", "nova", &"x".repeat(100)).len(), 64);
}

#[test]
fn stop_reason_mapping() {
    assert_eq!(map_stop_reason("STOP"), StopReason::Stop);
    assert_eq!(map_stop_reason("MAX_TOKENS"), StopReason::Length);
    assert_eq!(map_stop_reason("SAFETY"), StopReason::Error);
    assert_eq!(map_stop_reason_string("STOP"), StopReason::Stop);
}

#[test]
fn thinking_signature_validation() {
    assert!(is_valid_thought_signature("aGVsbG8="));
    assert!(is_valid_thought_signature("YWJj"));
    assert!(!is_valid_thought_signature("abc"));
    assert!(!is_valid_thought_signature("a b="));
}

#[test]
fn signatures_are_padded_at_the_end_only() {
    assert_eq!(resolve_thought_signature(true, Some("ab=c")), None);
    assert_eq!(resolve_thought_signature(true, Some("a===")), None);
    assert_eq!(resolve_thought_signature(true, Some("====")), None);
    assert_eq!(resolve_thought_signature(true, Some("ab==")).as_deref(), Some("ab=="));
    assert_eq!(resolve_thought_signature(true, Some("abc=")).as_deref(), Some("abc="));
    assert_eq!(resolve_thought_signature(true, Some("ab+/abc=")).as_deref(), Some("ab+/abc="));
    assert_eq!(resolve_thought_signature(false, Some("abc=")), None);
}

#[test]
fn other_models_get_images_in_a_turn_of_the_user() {
    let mut m = model("nova-3-5-sonnet");
    m.input = vec!["text".to_string(), "image".to_string()];
    let image = Content::Image(ImageContent { data: "AA".to_string(), mime_type: "image/png".to_string() });
    let contents = convert_messages(&m, &vec![tool_result("c", vec![text_block("ok"), image], false)]);
    assert_eq!(contents.len(), 2);
    assert!(matches!(&contents[0].parts[0], GooglePart::FunctionResponse { parts, .. } if parts.is_empty()));
    assert_eq!(contents[1].role, "user");
    assert_eq!(contents[1].parts[1], GooglePart::InlineData {
        mime_type: "image/png".to_string(),
        data: "AA".to_string(),
    });
}

#[test]
fn the_last_signature_is_kept() {
    assert_eq!(retain_thought_signature(None, Some("a")), Some("a".to_string()));
    assert_eq!(retain_thought_signature(Some("a".to_string()), Some("")), Some("a".to_string()));
    assert_eq!(retain_thought_signature(Some("a".to_string()), Some("b")), Some("b".to_string()));
    assert_eq!(retain_thought_signature(Some("a".to_string()), None), Some("a".to_string()));
}

#[test]
fn thoughts_go_only_to_the_model_that_had_them() {
    let thought = || {
        vec![Content::Thinking(ThinkingContent {
            thinking: "hm".to_string(),
            thinking_signature: Some("YWJj".to_string()),
            redacted: None,
        })]
    };
    let m = model("gemini-2.5-pro");
    let own = convert_messages(&m, &vec![assistant_with(thought(), "google", "gemini-2.5-pro")]);
    assert_eq!(own[0].parts[0], GooglePart::Text {
        text: "hm".to_string(),
        thought: true,
        thought_signature: Some("YWJj".to_string()),
    });
    let foreign = convert_messages(&m, &vec![assistant_with(thought(), "google", "other")]);
    assert_eq!(foreign[0].parts[0], GooglePart::Text {
        text: "hm".to_string(),
        thought: false,
        thought_signature: None,
    });
}

#[test]
fn results_of_tools_stand_together() {
    let image = || Content::Image(ImageContent { data: "abc".to_string(), mime_type: "image/png".to_string() });
    let messages = || vec![
        user_text("go"),
        tool_result("call-1", vec![text_block("one")], false),
        tool_result("call-2", vec![image()], true),
        user_text("  and on"),
    ];
    let mut m = model("gemini-3-pro");
    m.input = vec!["text".to_string(), "image".to_string()];
    let contents = convert_messages(&m, &messages());
    assert_eq!(contents.len(), 3);
    assert_eq!(contents[1].parts.len(), 2);
    match &contents[1].parts[1] {
        GooglePart::FunctionResponse { response, parts, id, .. } => {
            assert_eq!(response, &Value::Object(vec![("error".to_string(), s("(see attached image)"))]));
            assert_eq!(parts.len(), 1);
            assert_eq!(id.as_deref(), Some("call-2"));
        }
        other => panic!("expected a response, got {other:?}"),
    }
    // An older model gets the image in a content of its own.
    m.id = "gemini-2.5-pro".to_string();
    let contents = convert_messages(&m, &messages());
    assert_eq!(contents.len(), 4);
    assert_eq!(contents[1].parts.len(), 2);
    assert_eq!(contents[2].role, "user");
    assert_eq!(contents[2].parts.len(), 2);
}

#[test]
fn contents_are_sent_as_json() {
    let content = GoogleContent {
        role: "user".to_string(),
        parts: vec![GooglePart::FunctionResponse {
            name: "read".to_string(),
            response: Value::Null,
            parts: vec![GooglePart::InlineData { mime_type: "image/png".to_string(), data: "abc".to_string() }],
            id: None,
        }],
    };
    let expected = parse(
        "{\"role\":\"user\",\"parts\":[{\"functionResponse\":{\"name\":\"read\",\"response\":null,\"parts\":[{\"inlineData\":{\"mimeType\":\"image/png\",\"data\":\"abc\"}}]}}]}",
    );
    assert_eq!(Some(content.to_value()), expected);
}

#[test]
fn schemas_are_stripped_of_meta_declarations() {
    let schema = parse("{\"$schema\":\"x\",\"type\":\"object\",\"items\":[{\"$id\":1,\"a\":2}],\"definitions\":{}}").unwrap();
    let plain = sanitize_for_openapi(&schema);
    assert_eq!(Some(&plain), parse("{\"type\":\"object\",\"items\":[{\"a\":2}]}").as_ref());
    assert_eq!(sanitize_for_openapi(&plain), plain);
    assert!(convert_tools(&Vec::new(), false).is_none());
    let mut tool = plain_tool("t");
    tool.parameters.value = schema;
    let tools = convert_tools(&vec![tool], true).unwrap();
    let expected = parse("[{\"functionDeclarations\":[{\"name\":\"t\",\"description\":\"d\",\"parameters\":{\"type\":\"object\",\"items\":[{\"a\":2}]}}]}]");
    assert_eq!(Some(tools), expected);
}

#[test]
fn the_choice_of_a_tool_sets_the_mode() {
    let tools = vec![plain_tool("t")];
    let mode = |choice: Option<&str>| resolve_google_function_calling_mode(&tools, choice, true);
    assert_eq!(mode(None), None);
    assert_eq!(mode(Some("none")).as_deref(), Some("NONE"));
    assert_eq!(mode(Some("any")).as_deref(), Some("ANY"));
    assert_eq!(mode(Some("auto")).as_deref(), Some("AUTO"));
    let mut strict = plain_tool("t");
    strict.constrained_sampling = Some(ConstrainedSampling::Config(ConstrainedSamplingConfig::JsonSchema {
        strict: "require".to_string(),
    }));
    let tools = vec![strict];
    assert_eq!(resolve_google_function_calling_mode(&tools, None, true).as_deref(), Some("VALIDATED"));
    assert_eq!(resolve_google_function_calling_mode(&tools, Some("any"), true).as_deref(), Some("ANY"));
}

#[test]
fn builds_a_generative_request() {
    let m = model("gemini-2.5-pro");
    let context = Context {
        system_prompt: Some("be brief".to_string()),
        messages: vec![user_text("hi")],
        tools: None,
    };
    let refused = prepare_request(&m, &context, &context.messages, None, None).unwrap_err();
    assert_eq!(refused, "No API key for provider: google");
    let options = stream_simple(&m, StreamOptions::default(), None, None);
    let request = prepare_request(&m, &context, &context.messages, Some(&options), Some("key")).unwrap();
    assert_eq!(request.headers, vec![("x-goog-api-key".to_string(), "key".to_string())]);
    let expected = parse(
        "{\"contents\":[{\"role\":\"user\",\"parts\":[{\"text\":\"hi\",\"thought\":false}]}],\"systemInstruction\":\"be brief\",\"thinkingConfig\":{\"thinkingBudget\":0}}",
    );
    assert_eq!(Some(request.body), expected);
    let options = stream_simple(&m, StreamOptions::default(), Some("off"), None);
    assert_eq!(options.thinking.unwrap().budget_tokens, Some(num(32768.0)));
    let options = stream_simple(&model("gemini-3-flash"), StreamOptions::default(), Some("medium"), None);
    assert_eq!(options.thinking.unwrap().level.as_deref(), Some("MEDIUM"));
}

fn stream_of(
    chunks: &[&str],
    interface: GoogleInterface,
) -> (AssistantMessage, Vec<AssistantMessageEvent>, Result<(), String>) {
    let mut output = begin_message("google", "google", "gemini", num(0.0));
    let mut sent = Vec::new();
    let mut state = GoogleStreamState::new();
    let mut made = 6;
    for data in chunks {
        process_data(&mut output, &mut sent, &mut state, &mut made, data, interface, 1700, &parse, &price);
    }
    let result = finish_stream(&output, &mut sent, &mut state, interface);
    (output, sent, result)
}

#[test]
fn streams_text_and_thoughts() {
    let (output, sent, result) = stream_of(
        &[
            "{\"responseId\":\"\"}",
            "not json",
            "{\"responseId\":\"r1\",\"candidates\":[{\"content\":{\"parts\":[{\"text\":\"hm\",\"thought\":true,\"thoughtSignature\":\"a\"}]}}]}",
            "{\"responseId\":\"r2\",\"candidates\":[{\"content\":{\"parts\":[{\"text\":\"Hel\"},{\"text\":\"lo\"}]},\"finishReason\":\"STOP\"}],\"usageMetadata\":{\"promptTokenCount\":10,\"cachedContentTokenCount\":4,\"candidatesTokenCount\":3,\"thoughtsTokenCount\":2,\"totalTokenCount\":15}}",
        ],
        GoogleInterface::GenerativeAi,
    );
    assert_eq!(result, Ok(()));
    assert_eq!(output.response_id.as_deref(), Some("r1"));
    assert_eq!(output.stop_reason, StopReason::Stop);
    assert_eq!(output.content, vec![
        Content::Thinking(ThinkingContent {
            thinking: "hm".to_string(),
            thinking_signature: Some("a".to_string()),
            redacted: None,
        }),
        text_block("Hello"),
    ]);
    assert_eq!(output.usage.input, num(6.0));
    assert_eq!(output.usage.cost.input, money(6.0));
    assert_eq!(output.usage.output, num(5.0));
    assert_eq!(output.usage.cache_read, num(4.0));
    assert_eq!(output.usage.total_tokens, num(15.0));
    assert_eq!(sent.len(), 7);
    assert!(matches!(&sent[2], AssistantMessageEvent::ThinkingEnd { content, content_index: 0, .. } if content == "hm"));
    assert!(matches!(&sent[6], AssistantMessageEvent::TextEnd { content, content_index: 1, .. } if content == "Hello"));
}

#[test]
fn calls_get_ids_of_their_own() {
    let chunk = "{\"candidates\":[{\"content\":{\"parts\":[{\"functionCall\":{\"name\":\"read\",\"id\":\"c1\",\"args\":{\"p\":1}}},{\"functionCall\":{\"name\":\"read\",\"id\":\"c1\"}},{\"functionCall\":{\"name\":\"read\"}}]},\"finishReason\":\"SAFETY\"}]}";
    for (interface, second, third) in [
        (GoogleInterface::GenerativeAi, "read_1700_7", "read_1700_8"),
        (GoogleInterface::Vertex, "read_1700_6", "read_1700_7"),
    ] {
        let (output, _, result) = stream_of(&[chunk], interface);
        let ids: Vec<&str> = output
            .content
            .iter()
            .map(|block| match block {
                Content::ToolCall(call) => call.id.as_str(),
                _ => panic!("expected calls only"),
            })
            .collect();
        assert_eq!(ids, vec!["c1", second, third]);
        // A reply that calls a tool asks for it, whatever the reason.
        assert_eq!(output.stop_reason, StopReason::ToolUse);
        assert_eq!(result, Ok(()));
    }
}

#[test]
fn streams_that_end_badly_say_why() {
    let (_, _, result) = stream_of(&["{}"], GoogleInterface::GenerativeAi);
    assert_eq!(result, Err("Google stream ended without a finish reason".to_string()));
    let (_, _, result) = stream_of(&["{}"], GoogleInterface::Vertex);
    assert_eq!(result, Err("Google Vertex stream ended without a finish reason".to_string()));
    let (_, _, result) = stream_of(&["{\"candidates\":[{\"finishReason\":\"SAFETY\"}]}"], GoogleInterface::Vertex);
    assert_eq!(result, Err("Provider stopped with: SAFETY".to_string()));
}

#[test]
fn the_interfaces_read_odd_chunks_in_their_own_ways() {
    let chunk = "{\"responseId\":\"\",\"candidates\":[{\"content\":{\"parts\":[{\"functionCall\":1}]}}],\"usageMetadata\":1}";
    let (generative, _, _) = stream_of(&[chunk], GoogleInterface::GenerativeAi);
    assert_eq!(generative.response_id, None);
    assert!(generative.content.is_empty());
    assert_eq!(generative.usage.reasoning, None);
    let (vertex, _, _) = stream_of(&[chunk], GoogleInterface::Vertex);
    assert_eq!(vertex.response_id, None);
    assert_eq!(vertex.content.len(), 1);
    assert_eq!(vertex.usage.reasoning, Some(num(0.0)));
}
