//! Tests of the image interface of OpenRouter.
use pi_ai::api::openrouter_images::{
    build_params, parse_image_data_url, parse_usage, prepare_images, read_images, ImagesContext, ImagesModel,
    ImagesOptions, ImagesStopReason,
};
use pi_ai::json::Value;
use pi_ai::number::{Cost, Number};
#[allow(unused_imports)]
use pi_ai::types::{
    begin_message, AssistantMessage, AssistantMessageEvent, Content, Context, ImageContent, JsonSchemaObject, Message,
    Model, ModelCompat, ModelCostRates, SeriesName, StopReason, StreamOptions, TextContent, ThinkingBudgets,
    ThinkingContent, Tool, ToolCall, ToolPlacement, ToolResultMessage, Usage, UsageCost,
    UserMessage, UserMessageContent,
};

// ---------------------------------------------------------------------------
// A JSON parser for the tests
// ---------------------------------------------------------------------------

struct Parser {
    chars: Vec<char>,
    at: usize,
    lenient: bool,
}

impl Parser {
    fn space(&mut self) {
        while self.at < self.chars.len() && self.chars[self.at].is_whitespace() {
            self.at += 1;
        }
    }

    fn peek(&self) -> Option<char> {
        self.chars.get(self.at).copied()
    }

    fn take(&mut self, c: char) -> bool {
        self.space();
        if self.peek() == Some(c) {
            self.at += 1;
            true
        } else {
            false
        }
    }

    fn word(&mut self, word: &str, value: Value) -> Option<Value> {
        for c in word.chars() {
            if self.peek() != Some(c) {
                return None;
            }
            self.at += 1;
        }
        Some(value)
    }

    fn text(&mut self) -> Option<String> {
        let mut out = String::new();
        loop {
            match self.peek() {
                None => return if self.lenient { Some(out) } else { None },
                Some('"') => {
                    self.at += 1;
                    return Some(out);
                }
                Some('\\') => {
                    self.at += 1;
                    let c = match self.peek() {
                        Some(c) => c,
                        None => return if self.lenient { Some(out) } else { None },
                    };
                    self.at += 1;
                    match c {
                        'n' => out.push('\n'),
                        'r' => out.push('\r'),
                        't' => out.push('\t'),
                        'b' => out.push('\u{8}'),
                        'f' => out.push('\u{c}'),
                        'u' => {
                            let mut code = 0;
                            for _ in 0..4 {
                                code = code * 16 + self.peek()?.to_digit(16)?;
                                self.at += 1;
                            }
                            out.push(char::from_u32(code)?);
                        }
                        other => out.push(other),
                    }
                }
                Some(c) => {
                    out.push(c);
                    self.at += 1;
                }
            }
        }
    }

    fn value(&mut self) -> Option<Value> {
        self.space();
        match self.peek()? {
            '{' => {
                self.at += 1;
                let mut entries = Vec::new();
                if self.take('}') {
                    return Some(Value::Object(entries));
                }
                loop {
                    if !self.take('"') {
                        return if self.lenient && self.peek().is_none() { Some(Value::Object(entries)) } else { None };
                    }
                    let key = self.text()?;
                    if !self.take(':') {
                        return if self.lenient { Some(Value::Object(entries)) } else { None };
                    }
                    match self.value() {
                        Some(value) => entries.push((key, value)),
                        None => return if self.lenient { Some(Value::Object(entries)) } else { None },
                    }
                    if self.take('}') {
                        return Some(Value::Object(entries));
                    }
                    if !self.take(',') {
                        return if self.lenient { Some(Value::Object(entries)) } else { None };
                    }
                }
            }
            '[' => {
                self.at += 1;
                let mut items = Vec::new();
                if self.take(']') {
                    return Some(Value::Array(items));
                }
                loop {
                    match self.value() {
                        Some(value) => items.push(value),
                        None => return if self.lenient { Some(Value::Array(items)) } else { None },
                    }
                    if self.take(']') {
                        return Some(Value::Array(items));
                    }
                    if !self.take(',') {
                        return if self.lenient { Some(Value::Array(items)) } else { None };
                    }
                }
            }
            '"' => {
                self.at += 1;
                Some(Value::Str(self.text()?))
            }
            't' => self.word("true", Value::Bool(true)),
            'f' => self.word("false", Value::Bool(false)),
            'n' => self.word("null", Value::Null),
            _ => {
                let start = self.at;
                while self.peek().is_some_and(|c| c.is_ascii_digit() || "+-.eE".contains(c)) {
                    self.at += 1;
                }
                let digits: String = self.chars[start..self.at].iter().collect();
                let nearest = num(digits.parse::<f64>().ok()?);
                let places = digits.split('.').nth(1).map_or(0, |fraction| fraction.len());
                if digits.contains("e-") || places > 9 {
                    return Some(Value::Precise { text: digits, nearest });
                }
                Some(Value::Number(nearest))
            }
        }
    }
}

fn num(n: f64) -> Number {
    Number { nanos: (n * 1e9).round() as i128 }
}

#[allow(dead_code)]
fn parse(text: &str) -> Option<Value> {
    let mut parser = Parser { chars: text.chars().collect(), at: 0, lenient: false };
    let value = parser.value()?;
    parser.space();
    if parser.at == parser.chars.len() { Some(value) } else { None }
}

#[allow(dead_code)]
fn check(text: &str) -> Result<Value, String> {
    parse(text).ok_or_else(|| "unreadable".to_string())
}

#[allow(dead_code)]
fn read(text: &str) -> Value {
    let mut parser = Parser { chars: text.chars().collect(), at: 0, lenient: true };
    parser.value().unwrap_or(Value::Object(Vec::new()))
}

#[allow(dead_code)]
fn get<'a>(value: &'a Value, key: &str) -> Option<&'a Value> {
    match value {
        Value::Object(entries) => entries.iter().find(|(k, _)| k == key).map(|(_, v)| v),
        _ => None,
    }
}

#[allow(dead_code)]
fn s(text: &str) -> Value {
    Value::Str(text.to_string())
}

#[allow(dead_code)]
fn money(n: f64) -> Cost {
    Cost { parts: num(n).nanos * 1_000_000_000_000_000 }
}

/// Prices nothing.
#[allow(dead_code)]
fn free(_usage: Usage) -> UsageCost {
    UsageCost { input: money(0.0), output: money(0.0), cache_read: money(0.0), cache_write: money(0.0), total: money(0.0) }
}

/// Prices the input at what it counts, and the rest at nothing.
#[allow(dead_code)]
fn price(usage: Usage) -> UsageCost {
    let input = Cost { parts: usage.input.nanos * 1_000_000_000_000_000 };
    UsageCost { input, total: input, ..free(usage) }
}

#[allow(dead_code)]
fn make_model(id: &str, api: &str, provider: &str, base_url: &str, reasoning: bool) -> Model {
    Model {
        id: id.to_string(),
        name: id.to_string(),
        api: api.to_string(),
        provider: provider.to_string(),
        base_url: base_url.to_string(),
        reasoning,
        thinking_level_map: None,
        input: vec!["text".to_string()],
        cost: ModelCostRates { input: num(3.0), output: num(15.0), cache_read: num(0.3), cache_write: num(3.0) },
        context_window: num(200_000.0),
        max_tokens: num(8192.0),
        headers: None,
        compat: None,
        anthropic_series: SeriesName { id: "nova".to_string(), title: "Nova".to_string() },
    }
}

#[allow(dead_code)]
fn user_text(text: &str) -> Message {
    Message::User(UserMessage { content: UserMessageContent::Text(text.to_string()), timestamp: num(1.0) })
}

#[allow(dead_code)]
fn assistant_with(content: Vec<Content>, provider: &str, model: &str) -> Message {
    let mut message = begin_message("test", provider, model, num(2.0));
    message.content = content;
    message.stop_reason = StopReason::Stop;
    Message::Assistant(message)
}

#[allow(dead_code)]
fn text_block(text: &str) -> Content {
    Content::Text(TextContent { text: text.to_string(), text_signature: None })
}

#[allow(dead_code)]
fn tool_result(id: &str, content: Vec<Content>, is_error: bool) -> Message {
    Message::ToolResult(ToolResultMessage {
        tool_call_id: id.to_string(),
        tool_name: "read".to_string(),
        content,
        added_tool_names: None,
        is_error,
        timestamp: num(3.0),
    })
}

#[allow(dead_code)]
fn plain_tool(name: &str) -> Tool {
    Tool {
        name: name.to_string(),
        description: "d".to_string(),
        parameters: JsonSchemaObject::default(),
        constrained_sampling: None,
    }
}

#[allow(dead_code)]
fn no_placement() -> ToolPlacement {
    ToolPlacement { immediate: Vec::new(), deferred: Vec::new() }
}

fn images_model() -> ImagesModel {
    let mut model = make_model("img", "openrouter-images", "openrouter", "https://openrouter.ai/api/v1", false);
    model.cost = ModelCostRates { input: num(1.0), output: num(1.0), cache_read: num(0.1), cache_write: num(1.0) };
    ImagesModel {
        model,
        api: "openrouter-images".to_string(),
        provider: "openrouter".to_string(),
        output: vec!["image".to_string(), "text".to_string()],
    }
}

#[test]
fn builds_params_with_text_and_image_modalities() {
    let model = images_model();
    let context = ImagesContext { input: vec![text_block("a cat")] };
    let params = build_params(&model, &context);
    assert_eq!(get(&params, "model"), Some(&s("img")));
    assert_eq!(get(&params, "stream"), Some(&Value::Bool(false)));
    match get(&params, "modalities") {
        Some(Value::Array(modalities)) => assert_eq!(modalities.len(), 2),
        other => panic!("expected modalities, got {other:?}"),
    }
}

#[test]
fn parses_usage_with_cache_split() {
    let raw = Value::Object(vec![
        ("prompt_tokens".to_string(), Value::Number(num(100.0))),
        ("completion_tokens".to_string(), Value::Number(num(10.0))),
        (
            "prompt_tokens_details".to_string(),
            Value::Object(vec![
                ("cached_tokens".to_string(), Value::Number(num(30.0))),
                ("cache_write_tokens".to_string(), Value::Number(num(10.0))),
            ]),
        ),
    ]);
    let usage = parse_usage(&raw, &images_model());
    // cacheRead = max(0, 30 - 10) = 20; input = 100 - 20 - 10 = 70.
    assert_eq!(usage.input, num(70.0));
    assert_eq!(usage.cache_read, num(20.0));
    assert_eq!(usage.cache_write, num(10.0));
    assert_eq!(usage.output, num(10.0));
    assert_eq!(usage.total_tokens, num(110.0));
    assert_eq!(usage.cost.input, money(0.00007));
}

#[test]
fn parses_image_data_urls() {
    let url = "data:image/png;base64,AAAA";
    assert_eq!(parse_image_data_url(url), Some(("image/png".to_string(), "AAAA".to_string())));
    assert_eq!(parse_image_data_url("https://x/y.png"), None);
    assert_eq!(
        parse_image_data_url("data:image/png;base64,"),
        Some(("image/png".to_string(), String::new()))
    );
}

#[test]
fn missing_api_key_returns_error_output() {
    let output =
        prepare_images(&images_model(), &ImagesContext { input: vec![] }, None, None, num(1.0)).unwrap_err();
    assert_eq!(output.stop_reason, ImagesStopReason::Error);
    assert!(output.error_message.as_deref().unwrap().contains("No API key"));
}

#[test]
fn an_image_request_has_its_headers_in_order() {
    let mut model = images_model();
    model.model.headers = Some(vec![("x-a".to_string(), "model".to_string())]);
    let mut options = ImagesOptions::default();
    options.request.headers = Some(vec![
        ("x-a".to_string(), Some("asked".to_string())),
        ("x-b".to_string(), None),
        ("x-c".to_string(), Some("asked".to_string())),
    ]);
    let context = ImagesContext {
        input: vec![Content::Image(ImageContent { data: "abc".to_string(), mime_type: "image/png".to_string() })],
    };
    let request = prepare_images(&model, &context, Some(&options), Some("key"), num(1.0)).unwrap();
    assert_eq!(request.url, "https://openrouter.ai/api/v1/chat/completions");
    assert_eq!(request.headers, vec![
        ("Authorization".to_string(), "Bearer key".to_string()),
        ("x-a".to_string(), "asked".to_string()),
        ("x-c".to_string(), "asked".to_string()),
    ]);
    let expected = parse("[{\"role\":\"user\",\"content\":[{\"type\":\"image_url\",\"image_url\":{\"url\":\"data:image/png;base64,abc\"}}]}]");
    assert_eq!(get(&request.body, "messages"), expected.as_ref());
}

#[test]
fn reads_the_images_of_a_reply() {
    let body = "{\"id\":\"gen-1\",\"usage\":{\"prompt_tokens\":1},\"choices\":[{\"message\":{\"content\":\"here\",\"images\":[{\"image_url\":\"data:image/png;base64,AA\"},{\"image_url\":{\"url\":\"data:image/jpeg;base64,BB\"}},{\"image_url\":\"https://x/y.png\"},7]}}]}";
    let output = read_images(&images_model(), num(1.0), body, &parse);
    assert_eq!(output.stop_reason, ImagesStopReason::Stop);
    assert_eq!(output.response_id.as_deref(), Some("gen-1"));
    assert_eq!(output.usage.unwrap().input, num(1.0));
    assert_eq!(output.output, vec![
        text_block("here"),
        Content::Image(ImageContent { data: "AA".to_string(), mime_type: "image/png".to_string() }),
        Content::Image(ImageContent { data: "BB".to_string(), mime_type: "image/jpeg".to_string() }),
    ]);
}

#[test]
fn replies_that_cannot_be_read_are_errors() {
    let output = read_images(&images_model(), num(1.0), "{bad", &parse);
    assert_eq!(output.error_message.as_deref(), Some("Failed to parse image generation response"));
    let output = read_images(&images_model(), num(1.0), "[]", &parse);
    assert_eq!(output.error_message.as_deref(), Some("Malformed image generation response"));
    assert_eq!(output.stop_reason, ImagesStopReason::Error);
}

#[test]
fn images_come_back_out_of_their_addresses() {
    let url = format!("data:{};base64,{}", "image/webp", "a;b,c");
    assert_eq!(parse_image_data_url(&url), Some(("image/webp".to_string(), "a;b,c".to_string())));
}

#[test]
fn prices_are_not_rounded() {
    let mut model = images_model();
    model.model.cost = ModelCostRates { input: num(0.0375), output: num(0.0), cache_read: num(0.0), cache_write: num(0.0) };
    let usage = parse_usage(&parse("{\"prompt_tokens\":1}").unwrap(), &model);
    // 37.5 billionths.
    assert_eq!(usage.cost.input, Cost { parts: 37_500_000_000_000_000 });
    assert_eq!(usage.cost.total, usage.cost.input);
    assert_eq!(usage.cost.input.in_halves(1), Cost { parts: 18_750_000_000_000_000 });
    assert_eq!(usage.cost.input.in_halves(5), Cost { parts: 93_750_000_000_000_000 });
}
