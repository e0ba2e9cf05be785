//! Tests of the Responses interfaces of OpenAI and Azure, and of the choice of
//! an adapter.
use pi_ai::api::azure_openai_responses::{
    normalize_azure_base_url, parse_deployment_name_map, resolve_azure_config, resolve_deployment_name,
    AzureEnvironment, AzureOpenAIResponsesOptions,
};
use pi_ai::api::openai_responses::RequiredResponsesCompat;
use pi_ai::api::{azure_openai_responses, openai_responses};
use pi_ai::api::{dispatch_stream_simple, find_adapter, Adapter};
use pi_ai::types::OpenAIResponsesCompat;
use pi_ai::json::Value;
use pi_ai::number::{Cost, Number};
#[allow(unused_imports)]
use pi_ai::types::{
    begin_message, AssistantMessage, AssistantMessageEvent, Content, Context, ImageContent, JsonSchemaObject, Message,
    Model, ModelCompat, ModelCostRates, SeriesName, StopReason, StreamOptions, TextContent, ThinkingBudgets,
    ThinkingContent, Tool, ToolCall, ToolPlacement, ToolResultMessage, Usage, UsageCost,
    UserMessage, UserMessageContent,
};

// ---------------------------------------------------------------------------
// A JSON parser for the tests
// ---------------------------------------------------------------------------

struct Parser {
    chars: Vec<char>,
    at: usize,
    lenient: bool,
}

impl Parser {
    fn space(&mut self) {
        while self.at < self.chars.len() && self.chars[self.at].is_whitespace() {
            self.at += 1;
        }
    }

    fn peek(&self) -> Option<char> {
        self.chars.get(self.at).copied()
    }

    fn take(&mut self, c: char) -> bool {
        self.space();
        if self.peek() == Some(c) {
            self.at += 1;
            true
        } else {
            false
        }
    }

    fn word(&mut self, word: &str, value: Value) -> Option<Value> {
        for c in word.chars() {
            if self.peek() != Some(c) {
                return None;
            }
            self.at += 1;
        }
        Some(value)
    }

    fn text(&mut self) -> Option<String> {
        let mut out = String::new();
        loop {
            match self.peek() {
                None => return if self.lenient { Some(out) } else { None },
                Some('"') => {
                    self.at += 1;
                    return Some(out);
                }
                Some('\\') => {
                    self.at += 1;
                    let c = match self.peek() {
                        Some(c) => c,
                        None => return if self.lenient { Some(out) } else { None },
                    };
                    self.at += 1;
                    match c {
                        'n' => out.push('\n'),
                        'r' => out.push('\r'),
                        't' => out.push('\t'),
                        'b' => out.push('\u{8}'),
                        'f' => out.push('\u{c}'),
                        'u' => {
                            let mut code = 0;
                            for _ in 0..4 {
                                code = code * 16 + self.peek()?.to_digit(16)?;
                                self.at += 1;
                            }
                            out.push(char::from_u32(code)?);
                        }
                        other => out.push(other),
                    }
                }
                Some(c) => {
                    out.push(c);
                    self.at += 1;
                }
            }
        }
    }

    fn value(&mut self) -> Option<Value> {
        self.space();
        match self.peek()? {
            '{' => {
                self.at += 1;
                let mut entries = Vec::new();
                if self.take('}') {
                    return Some(Value::Object(entries));
                }
                loop {
                    if !self.take('"') {
                        return if self.lenient && self.peek().is_none() { Some(Value::Object(entries)) } else { None };
                    }
                    let key = self.text()?;
                    if !self.take(':') {
                        return if self.lenient { Some(Value::Object(entries)) } else { None };
                    }
                    match self.value() {
                        Some(value) => entries.push((key, value)),
                        None => return if self.lenient { Some(Value::Object(entries)) } else { None },
                    }
                    if self.take('}') {
                        return Some(Value::Object(entries));
                    }
                    if !self.take(',') {
                        return if self.lenient { Some(Value::Object(entries)) } else { None };
                    }
                }
            }
            '[' => {
                self.at += 1;
                let mut items = Vec::new();
                if self.take(']') {
                    return Some(Value::Array(items));
                }
                loop {
                    match self.value() {
                        Some(value) => items.push(value),
                        None => return if self.lenient { Some(Value::Array(items)) } else { None },
                    }
                    if self.take(']') {
                        return Some(Value::Array(items));
                    }
                    if !self.take(',') {
                        return if self.lenient { Some(Value::Array(items)) } else { None };
                    }
                }
            }
            '"' => {
                self.at += 1;
                Some(Value::Str(self.text()?))
            }
            't' => self.word("true", Value::Bool(true)),
            'f' => self.word("false", Value::Bool(false)),
            'n' => self.word("null", Value::Null),
            _ => {
                let start = self.at;
                while self.peek().is_some_and(|c| c.is_ascii_digit() || "+-.eE".contains(c)) {
                    self.at += 1;
                }
                let digits: String = self.chars[start..self.at].iter().collect();
                let nearest = num(digits.parse::<f64>().ok()?);
                let places = digits.split('.').nth(1).map_or(0, |fraction| fraction.len());
                if digits.contains("e-") || places > 9 {
                    return Some(Value::Precise { text: digits, nearest });
                }
                Some(Value::Number(nearest))
            }
        }
    }
}

fn num(n: f64) -> Number {
    Number { nanos: (n * 1e9).round() as i128 }
}

#[allow(dead_code)]
fn parse(text: &str) -> Option<Value> {
    let mut parser = Parser { chars: text.chars().collect(), at: 0, lenient: false };
    let value = parser.value()?;
    parser.space();
    if parser.at == parser.chars.len() { Some(value) } else { None }
}

#[allow(dead_code)]
fn check(text: &str) -> Result<Value, String> {
    parse(text).ok_or_else(|| "unreadable".to_string())
}

#[allow(dead_code)]
fn read(text: &str) -> Value {
    let mut parser = Parser { chars: text.chars().collect(), at: 0, lenient: true };
    parser.value().unwrap_or(Value::Object(Vec::new()))
}

#[allow(dead_code)]
fn get<'a>(value: &'a Value, key: &str) -> Option<&'a Value> {
    match value {
        Value::Object(entries) => entries.iter().find(|(k, _)| k == key).map(|(_, v)| v),
        _ => None,
    }
}

#[allow(dead_code)]
fn s(text: &str) -> Value {
    Value::Str(text.to_string())
}

#[allow(dead_code)]
fn money(n: f64) -> Cost {
    Cost { parts: num(n).nanos * 1_000_000_000_000_000 }
}

/// Prices nothing.
#[allow(dead_code)]
fn free(_usage: Usage) -> UsageCost {
    UsageCost { input: money(0.0), output: money(0.0), cache_read: money(0.0), cache_write: money(0.0), total: money(0.0) }
}

/// Prices the input at what it counts, and the rest at nothing.
#[allow(dead_code)]
fn price(usage: Usage) -> UsageCost {
    let input = Cost { parts: usage.input.nanos * 1_000_000_000_000_000 };
    UsageCost { input, total: input, ..free(usage) }
}

#[allow(dead_code)]
fn make_model(id: &str, api: &str, provider: &str, base_url: &str, reasoning: bool) -> Model {
    Model {
        id: id.to_string(),
        name: id.to_string(),
        api: api.to_string(),
        provider: provider.to_string(),
        base_url: base_url.to_string(),
        reasoning,
        thinking_level_map: None,
        input: vec!["text".to_string()],
        cost: ModelCostRates { input: num(3.0), output: num(15.0), cache_read: num(0.3), cache_write: num(3.0) },
        context_window: num(200_000.0),
        max_tokens: num(8192.0),
        headers: None,
        compat: None,
        anthropic_series: SeriesName { id: "nova".to_string(), title: "Nova".to_string() },
    }
}

#[allow(dead_code)]
fn user_text(text: &str) -> Message {
    Message::User(UserMessage { content: UserMessageContent::Text(text.to_string()), timestamp: num(1.0) })
}

#[allow(dead_code)]
fn assistant_with(content: Vec<Content>, provider: &str, model: &str) -> Message {
    let mut message = begin_message("test", provider, model, num(2.0));
    message.content = content;
    message.stop_reason = StopReason::Stop;
    Message::Assistant(message)
}

#[allow(dead_code)]
fn text_block(text: &str) -> Content {
    Content::Text(TextContent { text: text.to_string(), text_signature: None })
}

#[allow(dead_code)]
fn tool_result(id: &str, content: Vec<Content>, is_error: bool) -> Message {
    Message::ToolResult(ToolResultMessage {
        tool_call_id: id.to_string(),
        tool_name: "read".to_string(),
        content,
        added_tool_names: None,
        is_error,
        timestamp: num(3.0),
    })
}

#[allow(dead_code)]
fn plain_tool(name: &str) -> Tool {
    Tool {
        name: name.to_string(),
        description: "d".to_string(),
        parameters: JsonSchemaObject::default(),
        constrained_sampling: None,
    }
}

#[allow(dead_code)]
fn no_placement() -> ToolPlacement {
    ToolPlacement { immediate: Vec::new(), deferred: Vec::new() }
}

fn model(id: &str) -> Model {
    make_model(id, "azure-openai-responses", "azure-openai-responses", "", false)
}

fn context() -> Context {
    Context::default()
}

fn no_environment() -> AzureEnvironment {
    AzureEnvironment::default()
}

fn find<'a>(map: &'a [(String, String)], key: &str) -> Option<&'a String> {
    map.iter().find(|(k, _)| k == key).map(|(_, v)| v)
}

#[test]
fn parses_deployment_name_maps() {
    let map = parse_deployment_name_map(Some("gpt-4o=my-deploy, gpt-4.1=deploy2=extra ,badentry"));
    assert_eq!(find(&map, "gpt-4o"), Some(&"my-deploy".to_string()));
    assert_eq!(find(&map, "gpt-4.1"), Some(&"deploy2=extra".to_string()));
    assert_eq!(find(&map, "badentry"), None);
    assert!(parse_deployment_name_map(None).is_empty());
    assert!(parse_deployment_name_map(Some("  ")).is_empty());
}

#[test]
fn resolves_deployment_names() {
    // No option: falls back to the model id.
    let m = model("gpt-4o");
    assert_eq!(resolve_deployment_name(&m, None, &no_environment()), "gpt-4o");
    // Explicit option wins.
    let options = AzureOpenAIResponsesOptions {
        azure_deployment_name: Some("explicit".to_string()),
        ..AzureOpenAIResponsesOptions::default()
    };
    assert_eq!(resolve_deployment_name(&m, Some(&options), &no_environment()), "explicit");
}

#[test]
fn the_environment_maps_models_to_deployments() {
    let environment = AzureEnvironment {
        deployment_name_map: Some("gpt-4o=a,gpt-4o=b".to_string()),
        ..AzureEnvironment::default()
    };
    assert_eq!(resolve_deployment_name(&model("gpt-4o"), None, &environment), "b");
    assert_eq!(resolve_deployment_name(&model("other"), None, &environment), "other");
}

#[test]
fn normalizes_azure_base_urls() {
    // Azure host with empty path -> /openai/v1.
    assert_eq!(
        normalize_azure_base_url("https://res.openai.azure.com/").unwrap(),
        "https://res.openai.azure.com/openai/v1"
    );
    // Already correct path stays.
    assert_eq!(
        normalize_azure_base_url("https://res.openai.azure.com/openai/v1").unwrap(),
        "https://res.openai.azure.com/openai/v1"
    );
    // /openai and /openai/v1/responses normalize too.
    assert_eq!(
        normalize_azure_base_url("https://res.openai.azure.com/openai").unwrap(),
        "https://res.openai.azure.com/openai/v1"
    );
    assert_eq!(
        normalize_azure_base_url("https://res.openai.azure.com/openai/v1/responses").unwrap(),
        "https://res.openai.azure.com/openai/v1"
    );
    // Custom path passes through.
    assert_eq!(
        normalize_azure_base_url("https://res.openai.azure.com/custom/path/").unwrap(),
        "https://res.openai.azure.com/custom/path"
    );
    // Non-azure host passes through with query preserved.
    assert_eq!(
        normalize_azure_base_url("https://gateway.example.com/v1/").unwrap(),
        "https://gateway.example.com/v1"
    );
    // Invalid URL errors.
    assert!(normalize_azure_base_url("not a url").is_err());
}

#[test]
fn a_port_and_a_query_are_no_part_of_the_host() {
    assert_eq!(
        normalize_azure_base_url(" https://res.openai.azure.com:443/openai?x=1 ").unwrap(),
        "https://res.openai.azure.com:443/openai/v1"
    );
    assert_eq!(
        normalize_azure_base_url("https://gateway.example.com/v1?x=1").unwrap(),
        "https://gateway.example.com/v1?x=1"
    );
}

#[test]
fn resolves_azure_config_with_model_base_url() {
    let mut m = model("gpt-4o");
    m.base_url = "https://res.openai.azure.com/".to_string();
    let (base_url, api_version) = resolve_azure_config(&m, None, &no_environment()).unwrap();
    assert_eq!(base_url, "https://res.openai.azure.com/openai/v1");
    assert_eq!(api_version, "v1");
}

#[test]
fn resolves_azure_config_with_options() {
    let m = model("gpt-4o");
    let options = AzureOpenAIResponsesOptions {
        azure_base_url: Some("https://res.cognitiveservices.azure.com/".to_string()),
        azure_api_version: Some("2024-10-21".to_string()),
        ..AzureOpenAIResponsesOptions::default()
    };
    let (base_url, api_version) = resolve_azure_config(&m, Some(&options), &no_environment()).unwrap();
    assert_eq!(base_url, "https://res.cognitiveservices.azure.com/openai/v1");
    assert_eq!(api_version, "2024-10-21");
}

#[test]
fn azure_config_requires_a_base_url() {
    let m = model("gpt-4o");
    let error = resolve_azure_config(&m, None, &no_environment()).unwrap_err();
    assert!(error.contains("base URL is required"), "{error}");
}

#[test]
fn a_resource_name_makes_a_base_address() {
    let environment = AzureEnvironment {
        resource_name: Some("res".to_string()),
        base_url: Some("  ".to_string()),
        ..AzureEnvironment::default()
    };
    let (base_url, _) = resolve_azure_config(&model("gpt-4o"), None, &environment).unwrap();
    assert_eq!(base_url, "https://res.openai.azure.com/openai/v1");
}

fn params(m: &Model, ctx: &Context, options: Option<&AzureOpenAIResponsesOptions>) -> Value {
    azure_openai_responses::build_params(m, ctx, &ctx.messages, options, "deployment-1", &Vec::new(), None, &parse)
}

fn entries(value: &Value) -> &Vec<(String, Value)> {
    match value {
        Value::Object(entries) => entries,
        _ => panic!("object"),
    }
}

#[test]
fn build_params_sets_deployment_and_clamps_output_tokens() {
    let m = model("gpt-4o");
    let options = AzureOpenAIResponsesOptions {
        stream: StreamOptions { max_tokens: Some(num(5.0)), ..StreamOptions::default() },
        ..AzureOpenAIResponsesOptions::default()
    };
    let params = params(&m, &context(), Some(&options));
    assert_eq!(get(&params, "model"), Some(&s("deployment-1")));
    // max_output_tokens clamps to the 16-token floor.
    assert_eq!(get(&params, "max_output_tokens"), Some(&Value::Number(num(16.0))));
    // Non-reasoning model: no reasoning param.
    assert!(entries(&params).iter().all(|(k, _)| k != "reasoning"));
}

#[test]
fn build_params_reasoning_uses_thinking_level_map() {
    let mut m = model("gpt-4o");
    m.reasoning = true;
    m.thinking_level_map = Some(vec![("high".to_string(), Some("high".to_string()))]);
    let options = AzureOpenAIResponsesOptions {
        reasoning_effort: Some("high".to_string()),
        ..AzureOpenAIResponsesOptions::default()
    };
    let params = params(&m, &context(), Some(&options));
    let reasoning = entries(&params).iter().find(|(k, _)| k == "reasoning").expect("reasoning");
    assert_eq!(
        reasoning.1,
        Value::Object(vec![("effort".to_string(), s("high")), ("summary".to_string(), s("auto"))])
    );
    assert_eq!(
        get(&params, "include"),
        Some(&Value::Array(vec![s("reasoning.encrypted_content")]))
    );
}

#[test]
fn build_params_skips_reasoning_when_off_is_null() {
    let mut m = model("gpt-4o");
    m.reasoning = true;
    m.thinking_level_map = Some(vec![("off".to_string(), None)]);
    let params = params(&m, &context(), None);
    assert!(entries(&params).iter().all(|(k, _)| k != "reasoning"));
}

#[test]
fn build_params_defaults_reasoning_effort_to_none_when_off_missing() {
    let mut reasoning_model = model("gpt-4o");
    reasoning_model.reasoning = true;
    let params = params(&reasoning_model, &context(), None);
    assert_eq!(get(&params, "reasoning"), Some(&Value::Object(vec![("effort".to_string(), s("none"))])));
}

#[test]
fn build_params_uses_strict_mode_compat() {
    let mut m = model("gpt-4o");
    m.compat = Some(ModelCompat::OpenAiResponses(OpenAIResponsesCompat {
        supports_strict_mode: Some(true),
        ..OpenAIResponsesCompat::default()
    }));
    let mut ctx = context();
    ctx.tools = Some(vec![Tool {
        name: "add".to_string(),
        description: "Add".to_string(),
        parameters: JsonSchemaObject { type_: Some(vec!["object".to_string()]), ..JsonSchemaObject::default() },
        constrained_sampling: None,
    }]);
    let params = params(&m, &ctx, None);
    let tools_value = entries(&params).iter().find(|(k, _)| k == "tools").expect("tools");
    assert!(matches!(tools_value.1, Value::Array(_)));
}

#[test]
fn an_azure_request_goes_to_its_deployment() {
    let mut m = model("gpt-4o");
    m.base_url = "https://gateway.example.com/v1?x=1".to_string();
    let ctx = context();
    let refused = azure_openai_responses::prepare_request(
        &m, &ctx, &ctx.messages, None, None, &no_environment(), None, &parse,
    );
    assert_eq!(refused.unwrap_err(), "No API key for provider: azure-openai-responses");
    let request = azure_openai_responses::prepare_request(
        &m, &ctx, &ctx.messages, None, Some("key"), &no_environment(), Some("session"), &parse,
    )
    .unwrap();
    assert_eq!(request.url, "https://gateway.example.com/v1?x=1/openai/responses&api-version=v1");
    assert_eq!(request.headers, vec![("api-key".to_string(), "key".to_string())]);
    assert_eq!(get(&request.body, "prompt_cache_key"), Some(&s("session")));
    m.base_url = "nowhere".to_string();
    let refused = azure_openai_responses::prepare_request(
        &m, &ctx, &ctx.messages, None, Some("key"), &no_environment(), None, &parse,
    );
    assert_eq!(refused.unwrap_err(), "Invalid Azure OpenAI base URL: nowhere");
}

#[test]
fn compat_flags_have_defaults() {
    let mut m = make_model("gpt-5", "openai", "openai", "https://api.openai.com/v1", true);
    let compat = RequiredResponsesCompat::new(&m);
    assert!(compat.supports_developer_role && compat.supports_long_cache_retention);
    assert!(!compat.supports_strict_mode && !compat.supports_tool_search);
    assert_eq!(compat.session_affinity_format, "openai");
    m.base_url = "https://openrouter.ai/api/v1".to_string();
    assert_eq!(RequiredResponsesCompat::new(&m).session_affinity_format, "openrouter");
}

#[test]
fn builds_a_responses_request() {
    let mut m = make_model("gpt-5", "openai", "openai", "https://api.openai.com/v1/", true);
    m.thinking_level_map = Some(vec![("high".to_string(), Some("xhigh".to_string()))]);
    let ctx = Context { system_prompt: None, messages: vec![user_text("hi")], tools: None };
    let mut options = openai_responses::stream_simple(StreamOptions::default(), Some("high"));
    options.stream.sampling_params = Some(vec![("store".to_string(), Value::Bool(true))]);
    let send = |key: Option<&str>, environment: Option<&str>| {
        openai_responses::prepare_request(
            &m, &ctx, &ctx.messages, Some(&options), key, environment, Some("session"), no_placement(), &parse,
        )
    };
    assert_eq!(send(None, None).unwrap_err(), "No API key for provider: openai");
    let request = send(Some("key"), Some("long")).unwrap();
    assert_eq!(request.url, "https://api.openai.com/v1/responses");
    assert_eq!(request.headers[0], ("Authorization".to_string(), "Bearer key".to_string()));
    assert_eq!(get(&request.body, "prompt_cache_retention"), Some(&s("24h")));
    // The effort is mapped, and what the caller sets by name wins.
    assert_eq!(get(&request.body, "reasoning"), parse("{\"effort\":\"xhigh\",\"summary\":\"auto\"}").as_ref());
    assert_eq!(get(&request.body, "store"), Some(&Value::Bool(true)));
    let options: StreamOptions = options.into();
    assert_eq!(options.sampling_params.unwrap().len(), 1);
}

#[test]
fn a_level_that_is_off_asks_for_no_effort() {
    assert_eq!(openai_responses::stream_simple(StreamOptions::default(), Some("off")).reasoning_effort, None);
    assert_eq!(azure_openai_responses::stream_simple(StreamOptions::default(), None).reasoning_effort, None);
    assert_eq!(
        azure_openai_responses::stream_simple(StreamOptions::default(), Some("low")).reasoning_effort.as_deref(),
        Some("low")
    );
}

#[test]
fn replies_without_a_reason_are_errors() {
    let output = begin_message("openai", "openai", "gpt-5", num(0.0));
    assert_eq!(
        openai_responses::check_reply(&output),
        Err("OpenAI Responses stream ended without a stop reason".to_string())
    );
    assert_eq!(
        azure_openai_responses::check_reply(&output),
        Err("Azure OpenAI Responses stream ended without a stop reason".to_string())
    );
}

#[test]
fn adapters_are_chosen_by_interface() {
    let m = |api: &str| make_model("m", api, "p", "", false);
    assert_eq!(dispatch_stream_simple(&m("openai")), Adapter::OpenAiResponses);
    assert_eq!(dispatch_stream_simple(&m("openai-completions")), Adapter::OpenAiCompletions);
    assert_eq!(dispatch_stream_simple(&m("openai-codex")), Adapter::OpenAiCodex);
    assert_eq!(dispatch_stream_simple(&m("anthropic")), Adapter::Anthropic);
    assert_eq!(dispatch_stream_simple(&m("google")), Adapter::GoogleGenerativeAi);
    assert_eq!(dispatch_stream_simple(&m("azure-openai-responses")), Adapter::AzureOpenAiResponses);
    assert_eq!(find_adapter(&m("something else")), None);
}
