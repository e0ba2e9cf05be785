//! Tests of the Responses interface of OpenAI Codex.
use pi_ai::api::openai_codex_responses::auth::{base64url_decode, extract_account_id};
use pi_ai::api::openai_codex_responses::events::{
    apply_service_tier_pricing, assert_successful_output, codex_events_are_complete, conclude_reply,
    get_service_tier_cost_multiplier, map_codex_events, normalize_codex_status, parse_codex_stream, parse_error_response, process_stream,
    resolve_codex_service_tier,
};
use pi_ai::api::openai_codex_responses::request::{
    build_request_body, build_request_body_for_test, build_sse_headers, prepare_request, resolve_codex_url, stream_simple,
    OpenAICodexResponsesOptions,
};
use pi_ai::api::openai_codex_responses::retry::{
    decide_retry, get_retry_after_delay_ms, is_retryable_error, is_terminal_rate_limit_error,
    validate_retry_delay_ms, RetryDecision,
};
use pi_ai::api::openai_responses_shared::calculate_usage_cost;
use pi_ai::api::openai_stream::{OpenAIResponsesStreamOptions, ResponseStreamEvent};
use pi_ai::json::Value;
use pi_ai::number::{Cost, Number};
#[allow(unused_imports)]
use pi_ai::types::{
    begin_message, AssistantMessage, AssistantMessageEvent, Content, Context, ImageContent, JsonSchemaObject, Message,
    Model, ModelCompat, ModelCostRates, SeriesName, StopReason, StreamOptions, TextContent, ThinkingBudgets,
    ThinkingContent, Tool, ToolCall, ToolPlacement, ToolResultMessage, Usage, UsageCost,
    UserMessage, UserMessageContent,
};

// ---------------------------------------------------------------------------
// A JSON parser for the tests
// ---------------------------------------------------------------------------

struct Parser {
    chars: Vec<char>,
    at: usize,
    lenient: bool,
}

impl Parser {
    fn space(&mut self) {
        while self.at < self.chars.len() && self.chars[self.at].is_whitespace() {
            self.at += 1;
        }
    }

    fn peek(&self) -> Option<char> {
        self.chars.get(self.at).copied()
    }

    fn take(&mut self, c: char) -> bool {
        self.space();
        if self.peek() == Some(c) {
            self.at += 1;
            true
        } else {
            false
        }
    }

    fn word(&mut self, word: &str, value: Value) -> Option<Value> {
        for c in word.chars() {
            if self.peek() != Some(c) {
                return None;
            }
            self.at += 1;
        }
        Some(value)
    }

    fn text(&mut self) -> Option<String> {
        let mut out = String::new();
        loop {
            match self.peek() {
                None => return if self.lenient { Some(out) } else { None },
                Some('"') => {
                    self.at += 1;
                    return Some(out);
                }
                Some('\\') => {
                    self.at += 1;
                    let c = match self.peek() {
                        Some(c) => c,
                        None => return if self.lenient { Some(out) } else { None },
                    };
                    self.at += 1;
                    match c {
                        'n' => out.push('\n'),
                        'r' => out.push('\r'),
                        't' => out.push('\t'),
                        'b' => out.push('\u{8}'),
                        'f' => out.push('\u{c}'),
                        'u' => {
                            let mut code = 0;
                            for _ in 0..4 {
                                code = code * 16 + self.peek()?.to_digit(16)?;
                                self.at += 1;
                            }
                            out.push(char::from_u32(code)?);
                        }
                        other => out.push(other),
                    }
                }
                Some(c) => {
                    out.push(c);
                    self.at += 1;
                }
            }
        }
    }

    fn value(&mut self) -> Option<Value> {
        self.space();
        match self.peek()? {
            '{' => {
                self.at += 1;
                let mut entries = Vec::new();
                if self.take('}') {
                    return Some(Value::Object(entries));
                }
                loop {
                    if !self.take('"') {
                        return if self.lenient && self.peek().is_none() { Some(Value::Object(entries)) } else { None };
                    }
                    let key = self.text()?;
                    if !self.take(':') {
                        return if self.lenient { Some(Value::Object(entries)) } else { None };
                    }
                    match self.value() {
                        Some(value) => entries.push((key, value)),
                        None => return if self.lenient { Some(Value::Object(entries)) } else { None },
                    }
                    if self.take('}') {
                        return Some(Value::Object(entries));
                    }
                    if !self.take(',') {
                        return if self.lenient { Some(Value::Object(entries)) } else { None };
                    }
                }
            }
            '[' => {
                self.at += 1;
                let mut items = Vec::new();
                if self.take(']') {
                    return Some(Value::Array(items));
                }
                loop {
                    match self.value() {
                        Some(value) => items.push(value),
                        None => return if self.lenient { Some(Value::Array(items)) } else { None },
                    }
                    if self.take(']') {
                        return Some(Value::Array(items));
                    }
                    if !self.take(',') {
                        return if self.lenient { Some(Value::Array(items)) } else { None };
                    }
                }
            }
            '"' => {
                self.at += 1;
                Some(Value::Str(self.text()?))
            }
            't' => self.word("true", Value::Bool(true)),
            'f' => self.word("false", Value::Bool(false)),
            'n' => self.word("null", Value::Null),
            _ => {
                let start = self.at;
                while self.peek().is_some_and(|c| c.is_ascii_digit() || "+-.eE".contains(c)) {
                    self.at += 1;
                }
                let digits: String = self.chars[start..self.at].iter().collect();
                let nearest = num(digits.parse::<f64>().ok()?);
                let places = digits.split('.').nth(1).map_or(0, |fraction| fraction.len());
                if digits.contains("e-") || places > 9 {
                    return Some(Value::Precise { text: digits, nearest });
                }
                Some(Value::Number(nearest))
            }
        }
    }
}

fn num(n: f64) -> Number {
    Number { nanos: (n * 1e9).round() as i128 }
}

#[allow(dead_code)]
fn parse(text: &str) -> Option<Value> {
    let mut parser = Parser { chars: text.chars().collect(), at: 0, lenient: false };
    let value = parser.value()?;
    parser.space();
    if parser.at == parser.chars.len() { Some(value) } else { None }
}

#[allow(dead_code)]
fn check(text: &str) -> Result<Value, String> {
    parse(text).ok_or_else(|| "unreadable".to_string())
}

#[allow(dead_code)]
fn read(text: &str) -> Value {
    let mut parser = Parser { chars: text.chars().collect(), at: 0, lenient: true };
    parser.value().unwrap_or(Value::Object(Vec::new()))
}

#[allow(dead_code)]
fn get<'a>(value: &'a Value, key: &str) -> Option<&'a Value> {
    match value {
        Value::Object(entries) => entries.iter().find(|(k, _)| k == key).map(|(_, v)| v),
        _ => None,
    }
}

#[allow(dead_code)]
fn s(text: &str) -> Value {
    Value::Str(text.to_string())
}

#[allow(dead_code)]
fn money(n: f64) -> Cost {
    Cost { parts: num(n).nanos * 1_000_000_000_000_000 }
}

/// Prices nothing.
#[allow(dead_code)]
fn free(_usage: Usage) -> UsageCost {
    UsageCost { input: money(0.0), output: money(0.0), cache_read: money(0.0), cache_write: money(0.0), total: money(0.0) }
}

/// Prices the input at what it counts, and the rest at nothing.
#[allow(dead_code)]
fn price(usage: Usage) -> UsageCost {
    let input = Cost { parts: usage.input.nanos * 1_000_000_000_000_000 };
    UsageCost { input, total: input, ..free(usage) }
}

#[allow(dead_code)]
fn make_model(id: &str, api: &str, provider: &str, base_url: &str, reasoning: bool) -> Model {
    Model {
        id: id.to_string(),
        name: id.to_string(),
        api: api.to_string(),
        provider: provider.to_string(),
        base_url: base_url.to_string(),
        reasoning,
        thinking_level_map: None,
        input: vec!["text".to_string()],
        cost: ModelCostRates { input: num(3.0), output: num(15.0), cache_read: num(0.3), cache_write: num(3.0) },
        context_window: num(200_000.0),
        max_tokens: num(8192.0),
        headers: None,
        compat: None,
        anthropic_series: SeriesName { id: "nova".to_string(), title: "Nova".to_string() },
    }
}

#[allow(dead_code)]
fn user_text(text: &str) -> Message {
    Message::User(UserMessage { content: UserMessageContent::Text(text.to_string()), timestamp: num(1.0) })
}

#[allow(dead_code)]
fn assistant_with(content: Vec<Content>, provider: &str, model: &str) -> Message {
    let mut message = begin_message("test", provider, model, num(2.0));
    message.content = content;
    message.stop_reason = StopReason::Stop;
    Message::Assistant(message)
}

#[allow(dead_code)]
fn text_block(text: &str) -> Content {
    Content::Text(TextContent { text: text.to_string(), text_signature: None })
}

#[allow(dead_code)]
fn tool_result(id: &str, content: Vec<Content>, is_error: bool) -> Message {
    Message::ToolResult(ToolResultMessage {
        tool_call_id: id.to_string(),
        tool_name: "read".to_string(),
        content,
        added_tool_names: None,
        is_error,
        timestamp: num(3.0),
    })
}

#[allow(dead_code)]
fn plain_tool(name: &str) -> Tool {
    Tool {
        name: name.to_string(),
        description: "d".to_string(),
        parameters: JsonSchemaObject::default(),
        constrained_sampling: None,
    }
}

#[allow(dead_code)]
fn no_placement() -> ToolPlacement {
    ToolPlacement { immediate: Vec::new(), deferred: Vec::new() }
}

fn model() -> Model {
    let mut m = make_model(
        "gpt-5-codex",
        "openai-codex-responses",
        "openai-codex",
        "https://chatgpt.com/backend-api",
        true,
    );
    m.thinking_level_map = Some(vec![
        ("off".to_string(), Some("none".to_string())),
        ("high".to_string(), Some("high".to_string())),
    ]);
    m
}

fn base64url(input: &str) -> String {
    const TABLE: &[u8; 64] = b"ABCDEFGHIJKLMNOPQRSTUVWXYZabcdefghijklmnopqrstuvwxyz0123456789+/";
    let bytes = input.as_bytes();
    let mut result = String::with_capacity(bytes.len().div_ceil(3) * 4);
    for chunk in bytes.chunks(3) {
        let b0 = chunk[0] as u32;
        let b1 = *chunk.get(1).unwrap_or(&0) as u32;
        let b2 = *chunk.get(2).unwrap_or(&0) as u32;
        let n = (b0 << 16) | (b1 << 8) | b2;
        result.push(TABLE[(n >> 18) as usize & 63] as char);
        result.push(TABLE[(n >> 12) as usize & 63] as char);
        if chunk.len() > 1 {
            result.push(TABLE[(n >> 6) as usize & 63] as char);
        } else {
            result.push('=');
        }
        if chunk.len() > 2 {
            result.push(TABLE[n as usize & 63] as char);
        } else {
            result.push('=');
        }
    }
    result.replace('+', "-").replace('/', "_").trim_end_matches('=').to_string()
}

#[test]
fn resolves_codex_urls() {
    assert_eq!(
        resolve_codex_url(Some("https://chatgpt.com/backend-api")),
        "https://chatgpt.com/backend-api/codex/responses"
    );
    assert_eq!(resolve_codex_url(Some("https://x.example/codex")), "https://x.example/codex/responses");
    assert_eq!(resolve_codex_url(Some("https://x.example/codex/responses/")), "https://x.example/codex/responses");
    assert_eq!(resolve_codex_url(None), "https://chatgpt.com/backend-api/codex/responses");
}

#[test]
fn a_resolved_address_stays_as_it_is() {
    for base in ["", "https://x.example", "https://x.example/codex//", "   "] {
        let url = resolve_codex_url(Some(base));
        assert_eq!(resolve_codex_url(Some(&url)), url);
    }
}

#[test]
fn extracts_account_id_from_jwt() {
    let header = base64url("{\"alg\":\"HS256\"}");
    let payload = base64url("{\"https://api.openai.com/auth\":{\"chatgpt_account_id\":\"acct_123\"}}");
    let token = format!("{header}.{payload}.sig");
    assert_eq!(extract_account_id(&token, &parse).unwrap(), "acct_123");
    assert!(extract_account_id("not-a-token", &parse).is_err());
    let bad_payload = base64url("{\"other\": 1}");
    assert!(extract_account_id(&format!("{header}.{bad_payload}.sig"), &parse).is_err());
}

#[test]
fn base64_reads_back() {
    for text in ["", "a", "ab", "abc", "\u{ff}\u{7fff}?>", "0123456789"] {
        let encoded = base64url(text);
        assert_eq!(base64url_decode(&encoded).unwrap(), text.as_bytes());
        assert_eq!(base64url_decode(&format!("{encoded}==")).unwrap(), text.as_bytes());
    }
    assert_eq!(base64url_decode("_-8"), Ok(vec![0xff, 0xef]));
    assert_eq!(base64url_decode("/+8="), Ok(vec![0xff, 0xef]));
    assert_eq!(base64url_decode("abcde"), Err("invalid base64 length".to_string()));
    assert_eq!(base64url_decode("ab!d"), Err("invalid base64 character".to_string()));
    assert_eq!(base64url_decode("ab\u{e4}d"), Err("invalid base64 length".to_string()));
}

#[test]
fn payloads_with_broken_text_are_still_read() {
    // The byte 0xff is no UTF-8; it stands as a replacement character.
    let name = base64url_decode("e_8").unwrap();
    assert_eq!(name, vec![0x7b, 0xff]);
    let token = "a.e_8.c";
    let seen = |text: &str| -> Option<Value> {
        assert_eq!(text, "{\u{fffd}");
        None
    };
    assert_eq!(
        extract_account_id(token, &seen),
        Err("Failed to extract accountId from token".to_string())
    );
}

#[test]
fn classifies_retryable_errors() {
    assert!(is_retryable_error(Some(429), "rate limit"));
    assert!(is_retryable_error(Some(500), "server error"));
    assert!(is_retryable_error(Some(503), ""));
    assert!(!is_retryable_error(Some(400), "bad request"));
    assert!(!is_retryable_error(Some(429), "GoUsageLimitError"));
    assert!(is_retryable_error(None, "connection refused"));
    assert!(is_terminal_rate_limit_error("insufficient_quota"));
    assert!(!is_terminal_rate_limit_error("rate limit"));
}

#[test]
fn at_most_one_character_stands_between_words() {
    assert!(is_retryable_error(None, "the rate_limit is hit"));
    assert!(is_retryable_error(None, "ratelimit"));
    assert!(!is_retryable_error(None, "rate  limit"));
    assert!(!is_retryable_error(None, "rate\nlimit"));
    assert!(!is_retryable_error(None, "Rate Limit"));
    assert!(is_retryable_error(Some(400), "server overloaded"));
}

#[test]
fn parses_error_responses() {
    let body = r#"{"error":{"code":"usage_limit_reached","message":"limit","plan_type":"plus","resets_at":0}}"#;
    let message = parse_error_response(body, Some(429), &parse, num(0.0));
    assert!(message.contains("usage limit"), "{message}");
    let body = r#"{"error":{"message":"boom"}}"#;
    assert_eq!(parse_error_response(body, Some(400), &parse, num(0.0)), "boom");
    assert_eq!(parse_error_response("plain text", Some(500), &parse, num(0.0)), "plain text");
}

#[test]
fn a_limit_says_when_it_is_lifted() {
    let body = r#"{"error":{"type":"usage_not_included","plan_type":"PLUS","resets_at":1000}}"#;
    assert_eq!(
        parse_error_response(body, Some(400), &parse, num(910_000.0)),
        "You have hit your ChatGPT usage limit (plus plan). Try again in ~2 min."
    );
    assert_eq!(
        parse_error_response(body, None, &parse, num(2_000_000.0)),
        "You have hit your ChatGPT usage limit (plus plan). Try again in ~0 min."
    );
    assert_eq!(
        parse_error_response(r#"{"error":{"message":"x"}}"#, Some(429), &parse, num(0.0)),
        "You have hit your ChatGPT usage limit."
    );
    assert_eq!(parse_error_response("", Some(500), &parse, num(0.0)), "Request failed");
}

fn read_number(text: &str) -> Option<Number> {
    text.parse::<f64>().ok().filter(|n| n.is_finite()).map(num)
}

fn read_date(text: &str) -> Option<Number> {
    if text == "a date" { Some(num(5_000.0)) } else { None }
}

fn headers(list: &[(&str, &str)]) -> Vec<(String, String)> {
    list.iter().map(|(k, v)| (k.to_string(), v.to_string())).collect()
}

#[test]
fn servers_ask_for_delays() {
    let delay = |list: &[(&str, &str)]| {
        get_retry_after_delay_ms(&headers(list), &read_number, &read_date, num(2_000.0))
    };
    assert_eq!(delay(&[]), None);
    assert_eq!(delay(&[("Retry-After", "2")]), Some(num(2_000.0)));
    assert_eq!(delay(&[("Retry-After", "2"), ("RETRY-AFTER-MS", "7")]), Some(num(7.0)));
    assert_eq!(delay(&[("retry-after-ms", "soon"), ("retry-after", "a date")]), Some(num(3_000.0)));
    assert_eq!(delay(&[("retry-after", "-2")]), Some(num(0.0)));
    assert_eq!(delay(&[("retry-after", "later")]), None);
}

#[test]
fn delays_are_limited() {
    assert_eq!(validate_retry_delay_ms(num(60_000.0), None), Ok(num(60_000.0)));
    assert_eq!(
        validate_retry_delay_ms(num(60_001.0), None),
        Err("Server requested 61s retry delay (max: 60s)".to_string())
    );
    let mut options = OpenAICodexResponsesOptions::default();
    options.stream.request.max_retry_delay_ms = Some(0);
    assert_eq!(validate_retry_delay_ms(num(1e9), Some(&options)), Ok(num(1e9)));
}

#[test]
fn decides_whether_to_try_again() {
    let mut options = OpenAICodexResponsesOptions::default();
    let decide = |attempt: u64, status: u16, message: &str, requested, options: &OpenAICodexResponsesOptions| {
        decide_retry(attempt, Some(status), message, requested, Some(options), &parse, num(0.0))
    };
    assert_eq!(
        decide(0, 500, "boom", None, &options),
        RetryDecision::Fail { message: "boom".to_string() }
    );
    options.stream.request.max_retries = Some(3);
    assert_eq!(decide(0, 500, "boom", None, &options), RetryDecision::Retry { delay_ms: 1000 });
    assert_eq!(decide(2, 500, "boom", None, &options), RetryDecision::Retry { delay_ms: 4000 });
    assert_eq!(decide(3, 500, "boom", None, &options), RetryDecision::Fail { message: "boom".to_string() });
    assert_eq!(decide(0, 500, "boom", Some(num(7.5)), &options), RetryDecision::Retry { delay_ms: 7 });
    assert_eq!(
        decide(0, 500, "boom", Some(num(90_000.0)), &options),
        RetryDecision::Fail { message: "Server requested 90s retry delay (max: 60s)".to_string() }
    );
    assert_eq!(
        decide(0, 400, "{\"error\":{\"message\":\"no\"}}", None, &options),
        RetryDecision::Fail { message: "no".to_string() }
    );
}

#[test]
fn builds_request_body_with_codex_fields() {
    let context = Context { system_prompt: Some("Be concise.".to_string()), ..Context::default() };
    let options = OpenAICodexResponsesOptions {
        text_verbosity: Some("high".to_string()),
        reasoning_effort: Some("high".to_string()),
        tool_choice: Some("required".to_string()),
        ..Default::default()
    };
    let body = build_request_body(
        &model(),
        &context,
        &context.messages,
        Some(&options),
        Some("session-1"),
        &Vec::new(),
        no_placement(),
        &parse,
    );
    assert!(matches!(body, Value::Object(_)), "expected map");
    let same = build_request_body_for_test(
        &model(),
        &context,
        &context.messages,
        Some(&options),
        Some("session-1"),
        &Vec::new(),
        no_placement(),
        &parse,
    );
    assert_eq!(same, body);
    let get = |key: &str| get(&body, key);
    assert_eq!(get("model"), Some(&s("gpt-5-codex")));
    assert_eq!(get("store"), Some(&Value::Bool(false)));
    assert_eq!(get("stream"), Some(&Value::Bool(true)));
    assert_eq!(get("instructions"), Some(&s("Be concise.")));
    assert_eq!(get("prompt_cache_key"), Some(&s("session-1")));
    assert_eq!(get("tool_choice"), Some(&s("required")));
    assert_eq!(get("parallel_tool_calls"), Some(&Value::Bool(true)));
    assert_eq!(get("text"), Some(&Value::Object(vec![("verbosity".to_string(), s("high"))])));
    if let Some(Value::Object(reasoning)) = get("reasoning") {
        assert_eq!(reasoning.iter().find(|(k, _)| k == "effort").map(|(_, v)| v), Some(&s("high")));
    } else {
        panic!("expected reasoning block");
    }
}

#[test]
fn headers_authorise_and_name_the_client() {
    let own = Some(headers(&[("X-A", "1"), ("x-b", "2")]));
    let asked = vec![
        ("x-a".to_string(), None),
        ("X-B".to_string(), Some("3".to_string())),
        ("x-c".to_string(), Some("4".to_string())),
    ];
    let list = build_sse_headers(&own, Some(&asked), "acct", "token", Some("session"), "linux", "x86_64");
    assert_eq!(
        list,
        headers(&[
            ("x-b", "3"),
            ("x-c", "4"),
            ("Authorization", "Bearer token"),
            ("chatgpt-account-id", "acct"),
            ("originator", "pi"),
            ("User-Agent", "pi (linux; x86_64)"),
            ("OpenAI-Beta", "responses=experimental"),
            ("accept", "text/event-stream"),
            ("content-type", "application/json"),
            ("session-id", "session"),
            ("x-client-request-id", "session"),
        ])
    );
}

#[test]
fn a_codex_request_needs_a_token_with_an_account() {
    let context = Context::default();
    let send = |key: Option<&str>, options: Option<&OpenAICodexResponsesOptions>| {
        prepare_request(
            &model(), &context, &context.messages, options, key, Some("session"), no_placement(), "os", "arch", &parse,
        )
    };
    assert_eq!(send(None, None).unwrap_err(), "No API key for provider: openai-codex");
    assert_eq!(send(Some("key"), None).unwrap_err(), "Failed to extract accountId from token");
    let payload = base64url("{\"https://api.openai.com/auth\":{\"chatgpt_account_id\":\"acct\"}}");
    let token = format!("a.{payload}.c");
    let request = send(Some(&token), None).unwrap();
    assert_eq!(request.url, "https://chatgpt.com/backend-api/codex/responses");
    assert_eq!(get(&request.body, "prompt_cache_key"), Some(&s("session")));
    let mut options = stream_simple(StreamOptions::default(), Some("off"));
    options.stream.cache_retention = Some("none".to_string());
    let request = send(Some(&token), Some(&options)).unwrap();
    assert_eq!(get(&request.body, "prompt_cache_key"), Some(&Value::Null));
    assert!(get(&request.body, "reasoning").is_none());
}

fn data(list: &[&str]) -> Vec<String> {
    list.iter().map(|d| d.to_string()).collect()
}

#[test]
fn maps_the_events_of_a_stream() {
    let mut output = begin_message("openai-codex-responses", "openai-codex", "gpt-5-codex", num(0.0));
    let mut sent = Vec::new();
    let list = data(&[
        "",
        "[DONE]",
        " {\"type\":\"response.created\",\"response\":{\"id\":\"resp_1\"}} ",
        "{\"type\":\"something.else\"}",
        "{\"type\":\"response.done\",\"response\":{\"id\":\"resp_1\",\"status\":\"completed\",\"end_turn\":true,\"usage\":{\"input_tokens\":3,\"output_tokens\":2,\"total_tokens\":5}}}",
        "{\"type\":\"error\",\"message\":\"behind the end\"}",
    ]);
    let options = OpenAIResponsesStreamOptions::default();
    let result = process_stream(&list, &mut output, &mut sent, &options, &check, &parse, &read);
    assert_eq!(result, Ok(()));
    assert_eq!(output.end_turn, Some(true));
    assert_eq!(output.response_id.as_deref(), Some("resp_1"));
    assert_eq!(output.stop_reason, StopReason::Stop);
    assert_eq!(output.usage.total_tokens, num(5.0));
    assert_eq!(assert_successful_output(&output), Ok(()));
}

#[test]
fn streams_fail_with_what_the_server_says() {
    let fail = |list: &[&str]| {
        let mut output = begin_message("a", "p", "m", num(0.0));
        parse_codex_stream(&data(list), &mut output, &check, &parse).unwrap_err()
    };
    assert_eq!(fail(&["{\"type\":\"error\",\"code\":\"c\"}"]), "Codex error: c");
    assert_eq!(
        fail(&["{\"type\":\"error\",\"code\":\"c\",\"error\":{\"message\":\"m\"}}"]),
        "Codex error: m"
    );
    assert_eq!(fail(&["{\"type\":\"error\"}"]), "Codex error: {\"type\":\"error\"}");
    assert_eq!(fail(&["{\"type\":\"response.failed\"}"]), "Codex response failed");
    assert_eq!(
        fail(&["{\"type\":\"response.failed\",\"response\":{\"error\":{\"message\":\"m\"}}}"]),
        "m"
    );
    assert_eq!(
        fail(&["{\"type\":\"response.failed\"}", "{bad"]),
        "Invalid Codex SSE JSON: unreadable"
    );
}

#[test]
fn a_status_that_is_not_known_is_left_out() {
    assert_eq!(normalize_codex_status(Some("queued")).as_deref(), Some("queued"));
    assert_eq!(normalize_codex_status(Some("odd")), None);
    assert_eq!(normalize_codex_status(None), None);
    let values = vec![parse("{\"type\":\"response.done\",\"response\":{\"status\":\"odd\"}}").unwrap()];
    assert!(codex_events_are_complete(&values, &parse));
    let mut output = begin_message("a", "p", "m", num(0.0));
    let events = map_codex_events(&values, &mut output, &parse).unwrap();
    match &events[0] {
        ResponseStreamEvent::ResponseCompleted { response } => assert_eq!(response.status, None),
        other => panic!("expected the end, got {other:?}"),
    }
    assert_eq!(output.end_turn, None);
}

#[test]
fn tiers_set_the_cost() {
    assert_eq!(resolve_codex_service_tier(Some("default"), Some("flex")).as_deref(), Some("flex"));
    assert_eq!(resolve_codex_service_tier(Some("default"), Some("auto")).as_deref(), Some("default"));
    assert_eq!(resolve_codex_service_tier(None, Some("auto")).as_deref(), Some("auto"));
    assert_eq!(get_service_tier_cost_multiplier("gpt-5", Some("flex")), 1);
    assert_eq!(get_service_tier_cost_multiplier("gpt-5", Some("priority")), 4);
    assert_eq!(get_service_tier_cost_multiplier("gpt-5.5", Some("priority")), 5);
    assert_eq!(get_service_tier_cost_multiplier("gpt-5", None), 2);
    let mut usage = begin_message("a", "p", "m", num(0.0)).usage;
    usage.cost.input = money(0.3);
    usage.cost.output = money(1.0);
    let plain = usage;
    apply_service_tier_pricing(&mut usage, None, "gpt-5");
    assert_eq!(usage, plain);
    apply_service_tier_pricing(&mut usage, Some("priority"), "gpt-5.5");
    assert_eq!(usage.cost.input, money(0.75));
    assert_eq!(usage.cost.output, money(2.5));
    assert_eq!(calculate_usage_cost(&usage), money(3.25));
    apply_service_tier_pricing(&mut usage, Some("flex"), "gpt-5.5");
    assert_eq!(usage.cost.input, money(0.375));
}

#[test]
fn an_aborted_reply_says_so() {
    let mut output = begin_message("a", "p", "m", num(0.0));
    let mut sent = Vec::new();
    conclude_reply(&mut output, &mut sent, Err("Request was aborted".to_string()), true);
    assert_eq!(output.stop_reason, StopReason::Aborted);
    assert!(matches!(&sent[0], AssistantMessageEvent::Error { reason, .. } if reason == "aborted"));
    let mut output = begin_message("a", "p", "m", num(0.0));
    output.stop_reason = StopReason::Stop;
    conclude_reply(&mut output, &mut sent, Ok(()), true);
    assert!(matches!(&sent[1], AssistantMessageEvent::Done { reason, .. } if reason == "stop"));
}
