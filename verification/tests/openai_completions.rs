//! Tests of the chat completions interface.
use pi_ai::api::openai_completions::compat::get_compat;
use pi_ai::api::openai_completions::messages::{
    convert_messages as completions_messages, get_deferred_tool_names, normalize_tool_call_id_for_completions,
    MAX_TOOL_CALL_ID,
};
use pi_ai::api::openai_completions::params::CompletionsInputs;
use pi_ai::api::openai_completions::request::{
    prepare_request as completions_request, stream_simple as completions_simple,
};
use pi_ai::api::openai_completions::stream::{
    finish_stream, map_stop_reason, parse_chunk_usage, process_data, CompletionsStreamState,
};
use pi_ai::types::OpenAICompletionsCompat;
use pi_ai::json::Value;
use pi_ai::number::{Cost, Number};
#[allow(unused_imports)]
use pi_ai::types::{
    begin_message, AssistantMessage, AssistantMessageEvent, Content, Context, ImageContent, JsonSchemaObject, Message,
    Model, ModelCompat, ModelCostRates, SeriesName, StopReason, StreamOptions, TextContent, ThinkingBudgets,
    ThinkingContent, Tool, ToolCall, ToolPlacement, ToolResultMessage, Usage, UsageCost,
    UserMessage, UserMessageContent,
};

// ---------------------------------------------------------------------------
// A JSON parser for the tests
// ---------------------------------------------------------------------------

struct Parser {
    chars: Vec<char>,
    at: usize,
    lenient: bool,
}

impl Parser {
    fn space(&mut self) {
        while self.at < self.chars.len() && self.chars[self.at].is_whitespace() {
            self.at += 1;
        }
    }

    fn peek(&self) -> Option<char> {
        self.chars.get(self.at).copied()
    }

    fn take(&mut self, c: char) -> bool {
        self.space();
        if self.peek() == Some(c) {
            self.at += 1;
            true
        } else {
            false
        }
    }

    fn word(&mut self, word: &str, value: Value) -> Option<Value> {
        for c in word.chars() {
            if self.peek() != Some(c) {
                return None;
            }
            self.at += 1;
        }
        Some(value)
    }

    fn text(&mut self) -> Option<String> {
        let mut out = String::new();
        loop {
            match self.peek() {
                None => return if self.lenient { Some(out) } else { None },
                Some('"') => {
                    self.at += 1;
                    return Some(out);
                }
                Some('\\') => {
                    self.at += 1;
                    let c = match self.peek() {
                        Some(c) => c,
                        None => return if self.lenient { Some(out) } else { None },
                    };
                    self.at += 1;
                    match c {
                        'n' => out.push('\n'),
                        'r' => out.push('\r'),
                        't' => out.push('\t'),
                        'b' => out.push('\u{8}'),
                        'f' => out.push('\u{c}'),
                        'u' => {
                            let mut code = 0;
                            for _ in 0..4 {
                                code = code * 16 + self.peek()?.to_digit(16)?;
                                self.at += 1;
                            }
                            out.push(char::from_u32(code)?);
                        }
                        other => out.push(other),
                    }
                }
                Some(c) => {
                    out.push(c);
                    self.at += 1;
                }
            }
        }
    }

    fn value(&mut self) -> Option<Value> {
        self.space();
        match self.peek()? {
            '{' => {
                self.at += 1;
                let mut entries = Vec::new();
                if self.take('}') {
                    return Some(Value::Object(entries));
                }
                loop {
                    if !self.take('"') {
                        return if self.lenient && self.peek().is_none() { Some(Value::Object(entries)) } else { None };
                    }
                    let key = self.text()?;
                    if !self.take(':') {
                        return if self.lenient { Some(Value::Object(entries)) } else { None };
                    }
                    match self.value() {
                        Some(value) => entries.push((key, value)),
                        None => return if self.lenient { Some(Value::Object(entries)) } else { None },
                    }
                    if self.take('}') {
                        return Some(Value::Object(entries));
                    }
                    if !self.take(',') {
                        return if self.lenient { Some(Value::Object(entries)) } else { None };
                    }
                }
            }
            '[' => {
                self.at += 1;
                let mut items = Vec::new();
                if self.take(']') {
                    return Some(Value::Array(items));
                }
                loop {
                    match self.value() {
                        Some(value) => items.push(value),
                        None => return if self.lenient { Some(Value::Array(items)) } else { None },
                    }
                    if self.take(']') {
                        return Some(Value::Array(items));
                    }
                    if !self.take(',') {
                        return if self.lenient { Some(Value::Array(items)) } else { None };
                    }
                }
            }
            '"' => {
                self.at += 1;
                Some(Value::Str(self.text()?))
            }
            't' => self.word("true", Value::Bool(true)),
            'f' => self.word("false", Value::Bool(false)),
            'n' => self.word("null", Value::Null),
            _ => {
                let start = self.at;
                while self.peek().is_some_and(|c| c.is_ascii_digit() || "+-.eE".contains(c)) {
                    self.at += 1;
                }
                let digits: String = self.chars[start..self.at].iter().collect();
                let nearest = num(digits.parse::<f64>().ok()?);
                let places = digits.split('.').nth(1).map_or(0, |fraction| fraction.len());
                if digits.contains("e-") || places > 9 {
                    return Some(Value::Precise { text: digits, nearest });
                }
                Some(Value::Number(nearest))
            }
        }
    }
}

fn num(n: f64) -> Number {
    Number { nanos: (n * 1e9).round() as i128 }
}

#[allow(dead_code)]
fn parse(text: &str) -> Option<Value> {
    let mut parser = Parser { chars: text.chars().collect(), at: 0, lenient: false };
    let value = parser.value()?;
    parser.space();
    if parser.at == parser.chars.len() { Some(value) } else { None }
}

#[allow(dead_code)]
fn check(text: &str) -> Result<Value, String> {
    parse(text).ok_or_else(|| "unreadable".to_string())
}

#[allow(dead_code)]
fn read(text: &str) -> Value {
    let mut parser = Parser { chars: text.chars().collect(), at: 0, lenient: true };
    parser.value().unwrap_or(Value::Object(Vec::new()))
}

#[allow(dead_code)]
fn get<'a>(value: &'a Value, key: &str) -> Option<&'a Value> {
    match value {
        Value::Object(entries) => entries.iter().find(|(k, _)| k == key).map(|(_, v)| v),
        _ => None,
    }
}

#[allow(dead_code)]
fn s(text: &str) -> Value {
    Value::Str(text.to_string())
}

#[allow(dead_code)]
fn money(n: f64) -> Cost {
    Cost { parts: num(n).nanos * 1_000_000_000_000_000 }
}

/// Prices nothing.
#[allow(dead_code)]
fn free(_usage: Usage) -> UsageCost {
    UsageCost { input: money(0.0), output: money(0.0), cache_read: money(0.0), cache_write: money(0.0), total: money(0.0) }
}

/// Prices the input at what it counts, and the rest at nothing.
#[allow(dead_code)]
fn price(usage: Usage) -> UsageCost {
    let input = Cost { parts: usage.input.nanos * 1_000_000_000_000_000 };
    UsageCost { input, total: input, ..free(usage) }
}

#[allow(dead_code)]
fn make_model(id: &str, api: &str, provider: &str, base_url: &str, reasoning: bool) -> Model {
    Model {
        id: id.to_string(),
        name: id.to_string(),
        api: api.to_string(),
        provider: provider.to_string(),
        base_url: base_url.to_string(),
        reasoning,
        thinking_level_map: None,
        input: vec!["text".to_string()],
        cost: ModelCostRates { input: num(3.0), output: num(15.0), cache_read: num(0.3), cache_write: num(3.0) },
        context_window: num(200_000.0),
        max_tokens: num(8192.0),
        headers: None,
        compat: None,
        anthropic_series: SeriesName { id: "nova".to_string(), title: "Nova".to_string() },
    }
}

#[allow(dead_code)]
fn user_text(text: &str) -> Message {
    Message::User(UserMessage { content: UserMessageContent::Text(text.to_string()), timestamp: num(1.0) })
}

#[allow(dead_code)]
fn assistant_with(content: Vec<Content>, provider: &str, model: &str) -> Message {
    let mut message = begin_message("test", provider, model, num(2.0));
    message.content = content;
    message.stop_reason = StopReason::Stop;
    Message::Assistant(message)
}

#[allow(dead_code)]
fn text_block(text: &str) -> Content {
    Content::Text(TextContent { text: text.to_string(), text_signature: None })
}

#[allow(dead_code)]
fn tool_result(id: &str, content: Vec<Content>, is_error: bool) -> Message {
    Message::ToolResult(ToolResultMessage {
        tool_call_id: id.to_string(),
        tool_name: "read".to_string(),
        content,
        added_tool_names: None,
        is_error,
        timestamp: num(3.0),
    })
}

#[allow(dead_code)]
fn plain_tool(name: &str) -> Tool {
    Tool {
        name: name.to_string(),
        description: "d".to_string(),
        parameters: JsonSchemaObject::default(),
        constrained_sampling: None,
    }
}

#[allow(dead_code)]
fn no_placement() -> ToolPlacement {
    ToolPlacement { immediate: Vec::new(), deferred: Vec::new() }
}

fn model() -> Model {
    make_model("gpt-5", "openai-completions", "openai", "https://api.openai.com/v1", true)
}

fn inputs(messages: Vec<Message>) -> CompletionsInputs {
    CompletionsInputs {
        messages,
        prompt_cache_key: None,
        budget_level: "high".to_string(),
        min_answer_tokens: num(1024.0),
    }
}

#[test]
fn completions_map_stop_reasons() {
    assert_eq!(map_stop_reason("stop"), (StopReason::Stop, None));
    assert_eq!(map_stop_reason("end"), (StopReason::Stop, None));
    assert_eq!(map_stop_reason("length"), (StopReason::Length, None));
    assert_eq!(map_stop_reason("function_call"), (StopReason::ToolUse, None));
    assert_eq!(map_stop_reason("tool_calls"), (StopReason::ToolUse, None));
    for reason in ["content_filter", "network_error", "odd"] {
        let (stop, message) = map_stop_reason(reason);
        assert_eq!(stop, StopReason::Error);
        assert_eq!(message, Some(format!("Provider finish_reason: {reason}")));
    }
}

#[test]
fn ids_of_calls_are_made_short() {
    let m = model();
    assert_eq!(normalize_tool_call_id_for_completions("call_1|fc 2", &m), "call_1_fc_2");
    assert_eq!(normalize_tool_call_id_for_completions("call_1|", &m), "call_1");
    let long = normalize_tool_call_id_for_completions(&format!("{}|{}", "c".repeat(50), "i".repeat(50)), &m);
    assert!(long.chars().count() <= MAX_TOOL_CALL_ID);
    assert!(long.starts_with(&"c".repeat(31)));
    assert_eq!(normalize_tool_call_id_for_completions(&"x".repeat(50), &m).len(), 40);
    let mut other = model();
    other.provider = "other".to_string();
    assert_eq!(normalize_tool_call_id_for_completions(&"x".repeat(50), &other).len(), 50);
}

#[test]
fn usage_splits_cached_tokens() {
    let read_usage = |text: &str| match parse(text) {
        Some(Value::Object(entries)) => parse_chunk_usage(&entries, &price),
        _ => panic!("expected an object"),
    };
    let usage = read_usage(
        "{\"prompt_tokens\":100,\"completion_tokens\":7,\"prompt_tokens_details\":{\"cached_tokens\":30,\"cache_write_tokens\":10},\"completion_tokens_details\":{\"reasoning_tokens\":3}}",
    );
    assert_eq!(usage.input, num(60.0));
    assert_eq!(usage.cost.total, money(60.0));
    assert_eq!(usage.cache_read, num(30.0));
    assert_eq!(usage.cache_write, num(10.0));
    assert_eq!(usage.output, num(7.0));
    assert_eq!(usage.reasoning, Some(num(3.0)));
    assert_eq!(usage.total_tokens, num(107.0));
    let usage = read_usage("{\"prompt_tokens\":5,\"prompt_cache_hit_tokens\":9}");
    assert_eq!(usage.input, num(0.0));
    assert_eq!(usage.cache_read, num(9.0));
}

#[test]
fn compat_is_detected_from_the_provider() {
    let compat = get_compat(&model());
    assert!(compat.supports_store && compat.supports_developer_role);
    assert_eq!(compat.max_tokens_field, "max_completion_tokens");
    let mut m = model();
    m.provider = "openrouter".to_string();
    m.base_url = "https://openrouter.ai/api/v1".to_string();
    assert_eq!(get_compat(&m).thinking_format, "openrouter");
    m.compat = Some(ModelCompat::OpenAiCompletions(OpenAICompletionsCompat {
        thinking_format: Some("openai".to_string()),
        ..OpenAICompletionsCompat::default()
    }));
    assert_eq!(get_compat(&m).thinking_format, "openai");
}

#[test]
fn a_completions_request_needs_a_key() {
    let m = model();
    let context = Context { system_prompt: Some("be brief".to_string()), messages: vec![], tools: None };
    let send = |key: Option<&str>| {
        completions_request(&m, &context, None, key, None, &inputs(vec![user_text("hi")]), &parse)
    };
    assert_eq!(send(None).unwrap_err(), "No API key for provider: openai");
    let request = send(Some("key")).unwrap();
    assert_eq!(request.url, "https://api.openai.com/v1/chat/completions");
    assert_eq!(request.headers[0], ("Authorization".to_string(), "Bearer key".to_string()));
    let expected = parse("[{\"role\":\"developer\",\"content\":\"be brief\"},{\"role\":\"user\",\"content\":\"hi\"}]");
    assert_eq!(get(&request.body, "messages"), expected.as_ref());
    assert_eq!(get(&request.body, "model"), Some(&s("gpt-5")));
    assert_eq!(get(&request.body, "stream"), Some(&Value::Bool(true)));
}

#[test]
fn what_is_asked_for_by_name_wins() {
    let m = model();
    let context = Context { system_prompt: None, messages: vec![], tools: Some(vec![plain_tool("read")]) };
    let mut options = completions_simple(StreamOptions::default(), None, Some("high"));
    options.stream.max_tokens = Some(num(100.0));
    options.stream.sampling_params = Some(vec![("top_p".to_string(), Value::Number(num(0.5)))]);
    let request =
        completions_request(&m, &context, Some(&options), Some("key"), None, &inputs(vec![user_text("hi")]), &parse)
            .unwrap();
    assert_eq!(get(&request.body, "max_completion_tokens"), Some(&Value::Number(num(100.0))));
    assert_eq!(get(&request.body, "reasoning_effort"), Some(&s("high")));
    assert_eq!(get(&request.body, "top_p"), Some(&Value::Number(num(0.5))));
    assert!(matches!(get(&request.body, "tools"), Some(Value::Array(tools)) if tools.len() == 1));
}

#[test]
fn calls_and_results_become_messages() {
    let m = model();
    let call = Content::ToolCall(ToolCall {
        id: "call_1".to_string(),
        name: "read".to_string(),
        arguments: Value::Object(vec![("path".to_string(), s("/tmp"))]),
        thought_signature: None,
        namespace: None,
    });
    let messages = vec![
        user_text("go"),
        assistant_with(vec![text_block("yes"), call], "openai", "gpt-5"),
        tool_result("call_1", vec![text_block("done")], false),
    ];
    let list = completions_messages(&m, &Context::default(), &messages, &get_compat(&m), None, &parse);
    assert_eq!(list.len(), 3);
    assert_eq!(get(&list[1], "role"), Some(&s("assistant")));
    let expected = parse("[{\"id\":\"call_1\",\"type\":\"function\",\"function\":{\"name\":\"read\",\"arguments\":\"{\\\"path\\\":\\\"/tmp\\\"}\"}}]");
    assert_eq!(get(&list[1], "tool_calls"), expected.as_ref());
    assert_eq!(get(&list[2], "role"), Some(&s("tool")));
    assert_eq!(get(&list[2], "content"), Some(&s("done")));
    assert_eq!(get(&list[2], "tool_call_id"), Some(&s("call_1")));
}

fn run(chunks: &[&str]) -> (AssistantMessage, Vec<AssistantMessageEvent>, Result<(), String>) {
    let m = model();
    let mut output = begin_message(&m.api, &m.provider, &m.id, num(0.0));
    let mut sent = Vec::new();
    let mut state = CompletionsStreamState::new();
    for data in chunks {
        process_data(data, &mut output, &mut sent, &m, &Vec::new(), &mut state, &parse, &read, &price);
    }
    let result = finish_stream(&mut output, &mut sent, &state, &get_compat(&m), &read);
    (output, sent, result)
}

#[test]
fn streams_text_of_completions() {
    let (output, sent, result) = run(&[
        "{\"id\":\"c1\",\"choices\":[{\"delta\":{\"content\":\"Hel\"}}]}",
        "not json",
        "{\"choices\":[{\"delta\":{\"content\":\"lo\"},\"finish_reason\":\"stop\"}]}",
        "{\"choices\":[],\"usage\":{\"prompt_tokens\":3,\"completion_tokens\":2}}",
    ]);
    assert_eq!(result, Ok(()));
    assert_eq!(output.response_id.as_deref(), Some("c1"));
    assert_eq!(output.stop_reason, StopReason::Stop);
    assert_eq!(output.usage.total_tokens, num(5.0));
    // The text is in what is sent; the block in the reply stays as it began.
    let text: String = sent
        .iter()
        .filter_map(|event| match event {
            AssistantMessageEvent::TextDelta { delta, .. } => Some(delta.as_str()),
            _ => None,
        })
        .collect();
    assert_eq!(text, "Hello");
    assert_eq!(output.content, vec![text_block("")]);
    assert!(matches!(sent.last(), Some(AssistantMessageEvent::TextEnd { content, .. }) if content.is_empty()));
}

#[test]
fn streams_calls_of_completions() {
    let (output, _, result) = run(&[
        "{\"choices\":[{\"delta\":{\"tool_calls\":[{\"index\":0,\"id\":\"call_1\",\"function\":{\"name\":\"read\",\"arguments\":\"{\\\"path\\\":\"}}]}}]}",
        "{\"choices\":[{\"delta\":{\"tool_calls\":[{\"index\":0,\"function\":{\"arguments\":\"\\\"/tmp\\\"}\"}}]},\"finish_reason\":\"tool_calls\"}]}",
    ]);
    assert_eq!(result, Ok(()));
    assert_eq!(output.stop_reason, StopReason::ToolUse);
    match &output.content[0] {
        Content::ToolCall(call) => {
            assert_eq!(call.id, "call_1");
            assert_eq!(call.name, "read");
            assert_eq!(call.arguments, Value::Object(vec![("path".to_string(), s("/tmp"))]));
        }
        other => panic!("expected a call, got {other:?}"),
    }
}

#[test]
fn a_stream_needs_a_finish_reason() {
    let (_, _, result) = run(&["{\"choices\":[{\"delta\":{\"content\":\"Hel\"}}]}"]);
    assert_eq!(result, Err("Stream ended without finish_reason".to_string()));
}

#[test]
fn tools_that_come_later_are_named_by_results() {
    let mut result = tool_result("call_1", vec![], false);
    if let Message::ToolResult(r) = &mut result {
        r.added_tool_names = Some(vec!["a".to_string(), "b".to_string(), "a".to_string()]);
    }
    assert_eq!(get_deferred_tool_names(&vec![user_text("x"), result]), vec!["a".to_string(), "b".to_string()]);
}
