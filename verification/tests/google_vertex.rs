//! Tests of the Google Vertex interface.
use pi_ai::api::google_vertex::{
    base_url_includes_api_version, construct_url, get_disabled_thinking_config, get_gemini3_thinking_level,
    get_google_budget, prepare_request, resolve_api_key, resolve_custom_base_url, stream_simple, GoogleVertexOptions,
    VertexEnvironment,
};
use pi_ai::json::Value;
use pi_ai::number::{Cost, Number};
#[allow(unused_imports)]
use pi_ai::types::{
    begin_message, AssistantMessage, AssistantMessageEvent, Content, Context, ImageContent, JsonSchemaObject, Message,
    Model, ModelCompat, ModelCostRates, SeriesName, StopReason, StreamOptions, TextContent, ThinkingBudgets,
    ThinkingContent, Tool, ToolCall, ToolPlacement, ToolResultMessage, Usage, UsageCost,
    UserMessage, UserMessageContent,
};

// ---------------------------------------------------------------------------
// A JSON parser for the tests
// ---------------------------------------------------------------------------

struct Parser {
    chars: Vec<char>,
    at: usize,
    lenient: bool,
}

impl Parser {
    fn space(&mut self) {
        while self.at < self.chars.len() && self.chars[self.at].is_whitespace() {
            self.at += 1;
        }
    }

    fn peek(&self) -> Option<char> {
        self.chars.get(self.at).copied()
    }

    fn take(&mut self, c: char) -> bool {
        self.space();
        if self.peek() == Some(c) {
            self.at += 1;
            true
        } else {
            false
        }
    }

    fn word(&mut self, word: &str, value: Value) -> Option<Value> {
        for c in word.chars() {
            if self.peek() != Some(c) {
                return None;
            }
            self.at += 1;
        }
        Some(value)
    }

    fn text(&mut self) -> Option<String> {
        let mut out = String::new();
        loop {
            match self.peek() {
                None => return if self.lenient { Some(out) } else { None },
                Some('"') => {
                    self.at += 1;
                    return Some(out);
                }
                Some('\\') => {
                    self.at += 1;
                    let c = match self.peek() {
                        Some(c) => c,
                        None => return if self.lenient { Some(out) } else { None },
                    };
                    self.at += 1;
                    match c {
                        'n' => out.push('\n'),
                        'r' => out.push('\r'),
                        't' => out.push('\t'),
                        'b' => out.push('\u{8}'),
                        'f' => out.push('\u{c}'),
                        'u' => {
                            let mut code = 0;
                            for _ in 0..4 {
                                code = code * 16 + self.peek()?.to_digit(16)?;
                                self.at += 1;
                            }
                            out.push(char::from_u32(code)?);
                        }
                        other => out.push(other),
                    }
                }
                Some(c) => {
                    out.push(c);
                    self.at += 1;
                }
            }
        }
    }

    fn value(&mut self) -> Option<Value> {
        self.space();
        match self.peek()? {
            '{' => {
                self.at += 1;
                let mut entries = Vec::new();
                if self.take('}') {
                    return Some(Value::Object(entries));
                }
                loop {
                    if !self.take('"') {
                        return if self.lenient && self.peek().is_none() { Some(Value::Object(entries)) } else { None };
                    }
                    let key = self.text()?;
                    if !self.take(':') {
                        return if self.lenient { Some(Value::Object(entries)) } else { None };
                    }
                    match self.value() {
                        Some(value) => entries.push((key, value)),
                        None => return if self.lenient { Some(Value::Object(entries)) } else { None },
                    }
                    if self.take('}') {
                        return Some(Value::Object(entries));
                    }
                    if !self.take(',') {
                        return if self.lenient { Some(Value::Object(entries)) } else { None };
                    }
                }
            }
            '[' => {
                self.at += 1;
                let mut items = Vec::new();
                if self.take(']') {
                    return Some(Value::Array(items));
                }
                loop {
                    match self.value() {
                        Some(value) => items.push(value),
                        None => return if self.lenient { Some(Value::Array(items)) } else { None },
                    }
                    if self.take(']') {
                        return Some(Value::Array(items));
                    }
                    if !self.take(',') {
                        return if self.lenient { Some(Value::Array(items)) } else { None };
                    }
                }
            }
            '"' => {
                self.at += 1;
                Some(Value::Str(self.text()?))
            }
            't' => self.word("true", Value::Bool(true)),
            'f' => self.word("false", Value::Bool(false)),
            'n' => self.word("null", Value::Null),
            _ => {
                let start = self.at;
                while self.peek().is_some_and(|c| c.is_ascii_digit() || "+-.eE".contains(c)) {
                    self.at += 1;
                }
                let digits: String = self.chars[start..self.at].iter().collect();
                let nearest = num(digits.parse::<f64>().ok()?);
                let places = digits.split('.').nth(1).map_or(0, |fraction| fraction.len());
                if digits.contains("e-") || places > 9 {
                    return Some(Value::Precise { text: digits, nearest });
                }
                Some(Value::Number(nearest))
            }
        }
    }
}

fn num(n: f64) -> Number {
    Number { nanos: (n * 1e9).round() as i128 }
}

#[allow(dead_code)]
fn parse(text: &str) -> Option<Value> {
    let mut parser = Parser { chars: text.chars().collect(), at: 0, lenient: false };
    let value = parser.value()?;
    parser.space();
    if parser.at == parser.chars.len() { Some(value) } else { None }
}

#[allow(dead_code)]
fn check(text: &str) -> Result<Value, String> {
    parse(text).ok_or_else(|| "unreadable".to_string())
}

#[allow(dead_code)]
fn read(text: &str) -> Value {
    let mut parser = Parser { chars: text.chars().collect(), at: 0, lenient: true };
    parser.value().unwrap_or(Value::Object(Vec::new()))
}

#[allow(dead_code)]
fn get<'a>(value: &'a Value, key: &str) -> Option<&'a Value> {
    match value {
        Value::Object(entries) => entries.iter().find(|(k, _)| k == key).map(|(_, v)| v),
        _ => None,
    }
}

#[allow(dead_code)]
fn s(text: &str) -> Value {
    Value::Str(text.to_string())
}

#[allow(dead_code)]
fn money(n: f64) -> Cost {
    Cost { parts: num(n).nanos * 1_000_000_000_000_000 }
}

/// Prices nothing.
#[allow(dead_code)]
fn free(_usage: Usage) -> UsageCost {
    UsageCost { input: money(0.0), output: money(0.0), cache_read: money(0.0), cache_write: money(0.0), total: money(0.0) }
}

/// Prices the input at what it counts, and the rest at nothing.
#[allow(dead_code)]
fn price(usage: Usage) -> UsageCost {
    let input = Cost { parts: usage.input.nanos * 1_000_000_000_000_000 };
    UsageCost { input, total: input, ..free(usage) }
}

#[allow(dead_code)]
fn make_model(id: &str, api: &str, provider: &str, base_url: &str, reasoning: bool) -> Model {
    Model {
        id: id.to_string(),
        name: id.to_string(),
        api: api.to_string(),
        provider: provider.to_string(),
        base_url: base_url.to_string(),
        reasoning,
        thinking_level_map: None,
        input: vec!["text".to_string()],
        cost: ModelCostRates { input: num(3.0), output: num(15.0), cache_read: num(0.3), cache_write: num(3.0) },
        context_window: num(200_000.0),
        max_tokens: num(8192.0),
        headers: None,
        compat: None,
        anthropic_series: SeriesName { id: "nova".to_string(), title: "Nova".to_string() },
    }
}

#[allow(dead_code)]
fn user_text(text: &str) -> Message {
    Message::User(UserMessage { content: UserMessageContent::Text(text.to_string()), timestamp: num(1.0) })
}

#[allow(dead_code)]
fn assistant_with(content: Vec<Content>, provider: &str, model: &str) -> Message {
    let mut message = begin_message("test", provider, model, num(2.0));
    message.content = content;
    message.stop_reason = StopReason::Stop;
    Message::Assistant(message)
}

#[allow(dead_code)]
fn text_block(text: &str) -> Content {
    Content::Text(TextContent { text: text.to_string(), text_signature: None })
}

#[allow(dead_code)]
fn tool_result(id: &str, content: Vec<Content>, is_error: bool) -> Message {
    Message::ToolResult(ToolResultMessage {
        tool_call_id: id.to_string(),
        tool_name: "read".to_string(),
        content,
        added_tool_names: None,
        is_error,
        timestamp: num(3.0),
    })
}

#[allow(dead_code)]
fn plain_tool(name: &str) -> Tool {
    Tool {
        name: name.to_string(),
        description: "d".to_string(),
        parameters: JsonSchemaObject::default(),
        constrained_sampling: None,
    }
}

#[allow(dead_code)]
fn no_placement() -> ToolPlacement {
    ToolPlacement { immediate: Vec::new(), deferred: Vec::new() }
}

#[test]
fn custom_base_url_without_location_placeholder_is_kept() {
    assert_eq!(resolve_custom_base_url("https://example.com"), Some("https://example.com".to_string()));
    assert_eq!(resolve_custom_base_url(""), None);
    assert_eq!(resolve_custom_base_url("https://{location}-aiplatform.googleapis.com"), None);
}

#[test]
fn detects_api_version_in_base_url() {
    assert!(base_url_includes_api_version("https://example.com/v1"));
    assert!(base_url_includes_api_version("https://example.com/v1beta1"));
    assert!(base_url_includes_api_version("https://example.com/v1beta"));
    assert!(!base_url_includes_api_version("https://example.com/v"));
    assert!(!base_url_includes_api_version("https://example.com/abc"));
}

#[test]
fn only_the_path_of_an_address_has_a_version() {
    assert!(!base_url_includes_api_version("https://v1.example.com"));
    assert!(base_url_includes_api_version("gateway/v2/x"));
    assert!(!base_url_includes_api_version("https://example.com/v1alpha"));
    assert!(!base_url_includes_api_version("https://example.com/v1beta1x"));
}

#[test]
fn constructs_vertex_urls() {
    // API-key mode (no project/location): global endpoint.
    let url = construct_url("gemini-2.5-pro", None, None, true, None);
    assert_eq!(
        url,
        "https://aiplatform.googleapis.com/v1/publishers/google/models/gemini-2.5-pro:streamGenerateContent?alt=sse"
    );

    // Project/location mode.
    let url = construct_url("gemini-2.5-pro", Some("my-project"), Some("us-central1"), false, None);
    assert_eq!(
        url,
        "https://us-central1-aiplatform.googleapis.com/v1/projects/my-project/locations/us-central1/publishers/google/models/gemini-2.5-pro:streamGenerateContent?alt=sse"
    );

    // Multi-regional location.
    let url = construct_url("gemini-2.5-pro", Some("p"), Some("us"), false, None);
    assert_eq!(
        url,
        "https://aiplatform.us.rep.googleapis.com/v1/projects/p/locations/us/publishers/google/models/gemini-2.5-pro:streamGenerateContent?alt=sse"
    );

    // Custom base URL (collection scope): no project/location prefix.
    let url = construct_url("gemini-2.5-pro", None, None, false, Some("https://my-proxy.example.com"));
    assert_eq!(
        url,
        "https://my-proxy.example.com/v1/publishers/google/models/gemini-2.5-pro:streamGenerateContent?alt=sse"
    );

    // Custom base URL with version: no version segment appended.
    let url = construct_url("gemini-2.5-pro", None, None, false, Some("https://my-proxy.example.com/v1beta1"));
    assert_eq!(
        url,
        "https://my-proxy.example.com/v1beta1/publishers/google/models/gemini-2.5-pro:streamGenerateContent?alt=sse"
    );
}

#[test]
fn model_path_transformation() {
    assert_eq!(
        construct_url("publishers/openai/models/gpt-oss", None, None, true, None),
        "https://aiplatform.googleapis.com/v1/publishers/openai/models/gpt-oss:streamGenerateContent?alt=sse"
    );
    assert_eq!(
        construct_url("google/gemini-2.5-pro", None, None, true, None),
        "https://aiplatform.googleapis.com/v1/publishers/google/models/gemini-2.5-pro:streamGenerateContent?alt=sse"
    );
}

#[test]
fn thinking_level_mapping() {
    assert_eq!(get_gemini3_thinking_level("low", "gemini-3-pro-preview"), "LOW");
    assert_eq!(get_gemini3_thinking_level("high", "gemini-3-pro-preview"), "HIGH");
    assert_eq!(get_gemini3_thinking_level("minimal", "gemini-3-flash"), "MINIMAL");
    assert_eq!(get_gemini3_thinking_level("medium", "gemini-3-flash"), "MEDIUM");
}

#[test]
fn disabled_thinking_configs() {
    let config = get_disabled_thinking_config("gemini-3-pro-preview");
    assert_eq!(config, Value::Object(vec![("thinkingLevel".to_string(), s("LOW"))]));
    let config = get_disabled_thinking_config("gemini-3.1-pro");
    assert_eq!(config, Value::Object(vec![("thinkingLevel".to_string(), s("LOW"))]));
    let config = get_disabled_thinking_config("models/Gemini-3.12-Flash");
    assert_eq!(config, Value::Object(vec![("thinkingLevel".to_string(), s("MINIMAL"))]));
    let config = get_disabled_thinking_config("gemini-3.-pro");
    assert_eq!(config, Value::Object(vec![("thinkingBudget".to_string(), Value::Number(num(0.0)))]));
    let config = get_disabled_thinking_config("gemini-2.5-pro");
    assert_eq!(config, Value::Object(vec![("thinkingBudget".to_string(), Value::Number(num(0.0)))]));
}

#[test]
fn later_minor_versions_think_by_budget() {
    assert_eq!(get_gemini3_thinking_level("medium", "gemini-3-pro"), "HIGH");
    assert_eq!(get_gemini3_thinking_level("medium", "gemini-3.1-pro"), "MEDIUM");
    let mut m = make_model("gemini-3.1-pro", "google-vertex", "google-vertex", "", true);
    let thinking = stream_simple(&m, StreamOptions::default(), Some("low"), None).thinking.unwrap();
    assert_eq!(thinking.level, None);
    assert_eq!(thinking.budget_tokens, Some(num(-1.0)));
    m.id = "Gemini-3-Flash".to_string();
    let thinking = stream_simple(&m, StreamOptions::default(), Some("low"), None).thinking.unwrap();
    assert_eq!(thinking.level.as_deref(), Some("LOW"));
    assert_eq!(thinking.budget_tokens, None);
}

#[test]
fn google_budgets() {
    assert_eq!(get_google_budget("gemini-2.5-pro", "high", None), num(32768.0));
    assert_eq!(get_google_budget("gemini-2.5-flash", "high", None), num(24576.0));
    assert_eq!(get_google_budget("gemini-2.0", "high", None), num(-1.0));
    let custom = ThinkingBudgets { minimal: None, low: Some(num(500.0)), medium: None, high: None };
    assert_eq!(get_google_budget("gemini-2.5-pro", "low", Some(&custom)), num(500.0));
}

fn options_with_key(key: &str) -> GoogleVertexOptions {
    let mut options = GoogleVertexOptions::default();
    options.stream.request.api_key = Some(key.to_string());
    options
}

#[test]
fn keys_that_are_none_are_passed_over() {
    assert_eq!(resolve_api_key(Some(&options_with_key(" key "))), Some("key".to_string()));
    assert_eq!(resolve_api_key(Some(&options_with_key("  "))), None);
    assert_eq!(resolve_api_key(Some(&options_with_key("gcp-vertex-credentials"))), None);
    assert_eq!(resolve_api_key(Some(&options_with_key("<your key>"))), None);
    assert_eq!(resolve_api_key(None), None);
}

#[test]
fn a_vertex_request_needs_a_way_in() {
    let m = make_model("gemini-2.5-pro", "google-vertex", "google-vertex", "", true);
    let context = Context { system_prompt: Some("s".to_string()), messages: vec![user_text("hi")], tools: None };
    let send = |options: Option<&GoogleVertexOptions>, key: Option<&str>, environment: &VertexEnvironment| {
        prepare_request(&m, &context, &context.messages, options, key, environment)
    };
    let nothing = VertexEnvironment::default();
    assert!(send(None, None, &nothing).unwrap_err().contains("requires a project ID"));
    let mut known = VertexEnvironment { gcloud_project: Some("p".to_string()), ..VertexEnvironment::default() };
    assert!(send(None, None, &known).unwrap_err().contains("requires a location"));
    known.location = Some("us-central1".to_string());
    assert!(send(None, None, &known).unwrap_err().contains("requires an API key or an access token"));
    known.has_credentials = true;
    assert!(send(None, None, &known).unwrap_err().contains("GOOGLE_APPLICATION_CREDENTIALS"));
    known.access_token = Some("token".to_string());
    let request = send(None, None, &known).unwrap();
    assert_eq!(request.headers, vec![("Authorization".to_string(), "Bearer token".to_string())]);
    assert!(request.url.starts_with("https://us-central1-aiplatform.googleapis.com/v1/projects/p/"));
    let request = send(None, Some("key"), &nothing).unwrap();
    assert_eq!(request.headers, vec![("x-goog-api-key".to_string(), "key".to_string())]);
    assert_eq!(
        get(&request.body, "systemInstruction"),
        parse("{\"parts\":[{\"text\":\"s\"}]}").as_ref()
    );
    let options = stream_simple(&m, StreamOptions::default(), None, None);
    let request = send(Some(&options), Some("key"), &nothing).unwrap();
    assert_eq!(
        get(&request.body, "generationConfig"),
        parse("{\"thinkingConfig\":{\"thinkingBudget\":0}}").as_ref()
    );
}

#[test]
fn a_custom_address_does_not_get_the_key() {
    let m = make_model("gemini-2.5-pro", "google-vertex", "google-vertex", "https://proxy.example.com/", true);
    let context = Context { messages: vec![user_text("hi")], ..Context::default() };
    let environment = VertexEnvironment { location: Some("us".to_string()), ..VertexEnvironment::default() };
    let request =
        prepare_request(&m, &context, &context.messages, None, Some("key"), &environment).unwrap();
    assert!(request.headers.is_empty());
    assert!(request.url.starts_with("https://proxy.example.com/v1/publishers/google/"));
}
