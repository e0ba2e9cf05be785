//! The OpenAI Responses interface.
use vstd::prelude::*;
use vstd::string::*;
use crate::api::constrained_sampling::{create_grammar_tool_input_properties, grammar_properties};
use crate::api::finish::{
    check_stopped, outcome, res_request, stop_error, ProviderRequest, Request,
};
use crate::api::github_copilot_headers::{
    any_holds_image, build_copilot_dynamic_headers, copilot_headers, has_copilot_vision_input,
    CopilotDynamicHeadersParams,
};
use crate::api::headers::{
    append_pairs, cache_retention, cache_session, cached_session, client_key, clone_opt_pairs,
    clone_pairs, get_client_api_key, new_pairs, opt_headers, opt_list, overridden,
    override_headers, push_pair, resolve_cache_retention, set_pairs, OptPairs, Pairs,
};
use crate::api::openai_completions::messages::opt_tools;
use crate::api::openai_completions::request::effort_of;
use crate::api::openai_responses_shared::convert::{
    convert_responses_messages, convert_responses_tools, converted_items, flag_or, named_tools,
    tool_list, Conversion, ConvertResponsesMessagesOptions, ConvertResponsesToolsOptions,
};
use crate::api::openai_responses_shared::items::{
    items_json, items_value, tool_items_json, tools_value,
};
use crate::json::{
    array, array1, entries, is_last_of_key, is_parser, items, lemma_with_entries, new_entries,
    no_entries, object, object1, one_entry,
    one_item, opt_json, opt_number_json, opt_str_json, parser_of, put, put_bool, put_opt_number,
    put_opt_str, put_opt_value, put_str, set_entries, string, with_entries, Entries, EntriesSpec,
    Json, Value,
};
use crate::number::{greater, whole, Number};
use crate::text::{
    borrow_opt, cat2, contains, contains_text, opt_is, opt_str, opt_text, own_opt, str_eq,
    trim_end_of, trimmed_end_of,
};
use crate::types::{
    mapped_level, pairs, AssistantMessage, Context, Message, Model, ModelCompat, ProviderHeaders,
    StreamOptions, Tool, ToolPlacement,
};

verus! {

/// The providers whose identifiers of tool calls the interface takes as they
/// are.
pub const OPENAI_TOOL_CALL_PROVIDERS: [&'static str; 3] = ["openai", "openai-codex", "opencode"];

/// The least number of output tokens that the interface takes.
pub const OPENAI_RESPONSES_MIN_OUTPUT_TOKENS: i64 = 16;

/// Options of the interface.
#[derive(Clone, Debug, Default, PartialEq, Eq)]
pub struct OpenAIResponsesOptions {
    pub stream: StreamOptions,
    pub reasoning_effort: Option<String>,
    pub reasoning_summary: Option<String>,
    pub service_tier: Option<String>,
    pub tool_choice: Option<Value>,
}

impl From<OpenAIResponsesOptions> for StreamOptions {
    fn from(options: OpenAIResponsesOptions) -> (r: StreamOptions) {
        options.stream
    }
}

impl vstd::std_specs::convert::FromSpecImpl<OpenAIResponsesOptions> for StreamOptions {
    open spec fn obeys_from_spec() -> bool {
        true
    }

    open spec fn from_spec(options: OpenAIResponsesOptions) -> StreamOptions {
        options.stream
    }
}

// ---------------------------------------------------------------------------
// What an endpoint supports
// ---------------------------------------------------------------------------

/// What an endpoint supports, with a value for everything.
#[derive(Clone, Debug)]
pub struct RequiredResponsesCompat {
    pub supports_developer_role: bool,
    pub session_affinity_format: String,
    pub supports_long_cache_retention: bool,
    pub supports_strict_mode: bool,
    pub supports_openai_grammar_tools: bool,
    pub supports_additional_tools: bool,
    pub supports_tool_search: bool,
    pub supports_explicit_prompt_cache_mode: bool,
}

/// What an endpoint supports.
pub struct Compat {
    pub supports_developer_role: bool,
    pub session_affinity_format: Seq<char>,
    pub supports_long_cache_retention: bool,
    pub supports_strict_mode: bool,
    pub supports_openai_grammar_tools: bool,
    pub supports_additional_tools: bool,
    pub supports_tool_search: bool,
    pub supports_explicit_prompt_cache_mode: bool,
}

impl View for RequiredResponsesCompat {
    type V = Compat;

    open spec fn view(&self) -> Compat {
        Compat {
            supports_developer_role: self.supports_developer_role,
            session_affinity_format: self.session_affinity_format@,
            supports_long_cache_retention: self.supports_long_cache_retention,
            supports_strict_mode: self.supports_strict_mode,
            supports_openai_grammar_tools: self.supports_openai_grammar_tools,
            supports_additional_tools: self.supports_additional_tools,
            supports_tool_search: self.supports_tool_search,
            supports_explicit_prompt_cache_mode: self.supports_explicit_prompt_cache_mode,
        }
    }
}

/// How an endpoint takes a session: in its own way on OpenRouter.
pub open spec fn affinity_format(model: Model) -> Seq<char> {
    if model.provider@ == "openrouter"@ || contains_text(model.base_url@, "openrouter.ai"@) {
        "openrouter"@
    } else {
        "openai"@
    }
}

pub fn detect_session_affinity_format(model: &Model) -> (r: &'static str)
    ensures
        r@ == affinity_format(*model),
{
    if str_eq(model.provider.as_str(), "openrouter") || contains(
        model.base_url.as_str(),
        "openrouter.ai",
    ) {
        "openrouter"
    } else {
        "openai"
    }
}

/// What a model says that its endpoint supports, completed.
pub open spec fn resolved(model: Model) -> Compat {
    match model.compat {
        Some(ModelCompat::OpenAiResponses(c)) => Compat {
            supports_developer_role: flag_or(c.supports_developer_role, true),
            session_affinity_format: match opt_text(c.session_affinity_format) {
                Some(format) => format,
                None => affinity_format(model),
            },
            supports_long_cache_retention: flag_or(c.supports_long_cache_retention, true),
            supports_strict_mode: flag_or(c.supports_strict_mode, false),
            supports_openai_grammar_tools: flag_or(c.supports_openai_grammar_tools, false),
            supports_additional_tools: flag_or(c.supports_additional_tools, false),
            supports_tool_search: flag_or(c.supports_tool_search, false),
            supports_explicit_prompt_cache_mode: flag_or(
                c.supports_explicit_prompt_cache_mode,
                false,
            ),
        },
        _ => Compat {
            supports_developer_role: true,
            session_affinity_format: affinity_format(model),
            supports_long_cache_retention: true,
            supports_strict_mode: false,
            supports_openai_grammar_tools: false,
            supports_additional_tools: false,
            supports_tool_search: false,
            supports_explicit_prompt_cache_mode: false,
        },
    }
}

/// A flag, or what stands for it where it is not set.
pub fn set_or(flag: Option<bool>, otherwise: bool) -> (r: bool)
    ensures
        r == flag_or(flag, otherwise),
{
    match flag {
        Some(flag) => flag,
        None => otherwise,
    }
}

impl RequiredResponsesCompat {
    pub fn new(model: &Model) -> (r: Self)
        ensures
            r@ == resolved(*model),
    {
        let detected = detect_session_affinity_format(model);
        match &model.compat {
            Some(ModelCompat::OpenAiResponses(c)) => RequiredResponsesCompat {
                supports_developer_role: set_or(c.supports_developer_role, true),
                session_affinity_format: match &c.session_affinity_format {
                    Some(format) => format.clone(),
                    None => detected.to_owned(),
                },
                supports_long_cache_retention: set_or(c.supports_long_cache_retention, true),
                supports_strict_mode: set_or(c.supports_strict_mode, false),
                supports_openai_grammar_tools: set_or(c.supports_openai_grammar_tools, false),
                supports_additional_tools: set_or(c.supports_additional_tools, false),
                supports_tool_search: set_or(c.supports_tool_search, false),
                supports_explicit_prompt_cache_mode: set_or(
                    c.supports_explicit_prompt_cache_mode,
                    false,
                ),
            },
            _ => RequiredResponsesCompat {
                supports_developer_role: true,
                session_affinity_format: detected.to_owned(),
                supports_long_cache_retention: true,
                supports_strict_mode: false,
                supports_openai_grammar_tools: false,
                supports_additional_tools: false,
                supports_tool_search: false,
                supports_explicit_prompt_cache_mode: false,
            },
        }
    }
}

/// How long a prompt is kept where it is kept long.
pub open spec fn prompt_retention(compat: Compat, retention: Seq<char>) -> Option<Seq<char>> {
    if retention == "long"@ && compat.supports_long_cache_retention {
        Some("24h"@)
    } else {
        None
    }
}

pub fn get_prompt_cache_retention(compat: &RequiredResponsesCompat, cache_retention: &str) -> (r:
    Option<String>)
    ensures
        opt_text(r) == prompt_retention(compat@, cache_retention@),
{
    if str_eq(cache_retention, "long") && compat.supports_long_cache_retention {
        Some("24h".to_owned())
    } else {
        None
    }
}

/// How tools are loaded that a request does not offer at once.
pub open spec fn deferred_mode(additional_tools: bool, tool_search: bool) -> Option<Seq<char>> {
    if additional_tools {
        Some("additional-tools"@)
    } else if tool_search {
        Some("tool-search"@)
    } else {
        None
    }
}

pub fn choose_deferred_mode(additional_tools: bool, tool_search: bool) -> (r: Option<String>)
    ensures
        opt_text(r) == deferred_mode(additional_tools, tool_search),
{
    if additional_tools {
        Some("additional-tools".to_owned())
    } else if tool_search {
        Some("tool-search".to_owned())
    } else {
        None
    }
}

// ---------------------------------------------------------------------------
// Headers
// ---------------------------------------------------------------------------

/// The headers that name a session, in the form that the endpoint takes.
pub open spec fn session_put(h: Pairs, format: Seq<char>, session: Option<Seq<char>>) -> Pairs {
    match session {
        Some(id) => if format == "openrouter"@ {
            h.push(("x-session-id"@, id))
        } else {
            let named = if format == "openai"@ {
                h.push(("session_id"@, id))
            } else {
                h
            };
            named.push(("x-client-request-id"@, id))
        },
        None => h,
    }
}

/// The headers of a client: those of the model, those that GitHub Copilot asks
/// for, those that name the session, and last those that are asked for.
pub open spec fn client_headers(
    model: Model,
    context: Context,
    overrides: OptPairs,
    session: Option<Seq<char>>,
) -> Pairs {
    let own = opt_list(model.headers);
    let copilot = if model.provider@ == "github-copilot"@ {
        with_entries(
            own,
            copilot_headers(context.messages@, any_holds_image(context.messages@)),
        )
    } else {
        own
    };
    overridden(session_put(copilot, resolved(model).session_affinity_format, session), overrides)
}

pub fn create_client_headers(
    model: &Model,
    context: &Context,
    options_headers: Option<&ProviderHeaders>,
    session_id: Option<&str>,
) -> (r: Vec<(String, String)>)
    ensures
        pairs(r@) == client_headers(
            *model,
            *context,
            opt_headers(options_headers),
            opt_str(session_id),
        ),
{
    let compat = RequiredResponsesCompat::new(model);
    let mut h = clone_opt_pairs(&model.headers);
    if str_eq(model.provider.as_str(), "github-copilot") {
        let has_images = has_copilot_vision_input(&context.messages);
        let copilot = build_copilot_dynamic_headers(
            CopilotDynamicHeadersParams { messages: &context.messages, has_images },
        );
        set_pairs(&mut h, &copilot);
    }
    if let Some(id) = session_id {
        if str_eq(compat.session_affinity_format.as_str(), "openrouter") {
            push_pair(&mut h, "x-session-id", id);
        } else {
            if str_eq(compat.session_affinity_format.as_str(), "openai") {
                push_pair(&mut h, "session_id", id);
            }
            push_pair(&mut h, "x-client-request-id", id);
        }
    }
    override_headers(&mut h, options_headers);
    h
}

// ---------------------------------------------------------------------------
// Request
// ---------------------------------------------------------------------------

/// A text, or nothing where there is none.
pub open spec fn str_or_null(s: Option<Seq<char>>) -> Json {
    match s {
        Some(s) => Json::Str(s),
        None => Json::Null,
    }
}

pub fn string_or_null(s: Option<&str>) -> (r: Value)
    ensures
        r@ == str_or_null(opt_str(s)),
{
    match s {
        Some(s) => string(s),
        None => Value::Null,
    }
}

/// What is asked for of the thoughts of a model: that they can be sent back.
pub open spec fn encrypted_content() -> Json {
    one_item(Json::Str("reasoning.encrypted_content"@))
}

pub fn make_encrypted_content() -> (r: Value)
    ensures
        r@ == encrypted_content(),
{
    array1(string("reasoning.encrypted_content"))
}

/// What a level is sent as: what the model maps it to, else as it is.
pub open spec fn sent_level(model: Model, level: Seq<char>) -> Seq<char> {
    match mapped_level(model, level) {
        Some(effort) => effort,
        None => level,
    }
}

pub fn send_level(model: &Model, level: &str) -> (r: String)
    ensures
        r@ == sent_level(*model, level@),
{
    match model.mapped_level(level) {
        Some(effort) => effort,
        None => level.to_owned(),
    }
}

/// A text, or what stands for it where there is none.
pub open spec fn text_or(s: Option<Seq<char>>, otherwise: Seq<char>) -> Seq<char> {
    match s {
        Some(s) => s,
        None => otherwise,
    }
}

/// How an effort and a summary are asked for.
pub open spec fn effort_json(effort: Seq<char>, summary: Seq<char>) -> Json {
    Json::Object(
        no_entries().put("effort"@, Json::Str(effort)).put("summary"@, Json::Str(summary)),
    )
}

pub fn make_effort(effort: &str, summary: Option<&str>) -> (r: Value)
    ensures
        r@ == effort_json(effort@, text_or(opt_str(summary), "auto"@)),
{
    let mut e = new_entries();
    put_str(&mut e, "effort", effort);
    match summary {
        Some(summary) => put_str(&mut e, "summary", summary),
        None => put_str(&mut e, "summary", "auto"),
    }
    object(e)
}

/// How a model is told to reason.
pub open spec fn reasoning_put(
    e: Entries,
    model: Model,
    effort: Option<Seq<char>>,
    summary: Option<Seq<char>>,
) -> Entries {
    if !model.reasoning {
        e
    } else {
        let told = match effort {
            Some(effort) => e.put(
                "reasoning"@,
                effort_json(sent_level(model, effort), text_or(summary, "auto"@)),
            ).put("include"@, encrypted_content()),
            None => match mapped_level(model, "off"@) {
                Some(off) => if model.provider@ != "github-copilot"@ {
                    e.put("reasoning"@, one_entry("effort"@, Json::Str(off)))
                } else {
                    e
                },
                None => e,
            },
        };
        if model.provider@ == "xai"@ {
            told.put("include"@, encrypted_content())
        } else {
            told
        }
    }
}

/// The number of output tokens that is asked for, but not less than the
/// interface takes.
pub open spec fn output_tokens(max_tokens: Option<Number>) -> Option<Number> {
    match max_tokens {
        Some(n) => Some(greater(n, whole(OPENAI_RESPONSES_MIN_OUTPUT_TOKENS as int))),
        None => None,
    }
}

pub fn limit_output_tokens(max_tokens: Option<Number>) -> (r: Option<Number>)
    ensures
        r == output_tokens(max_tokens),
{
    match max_tokens {
        Some(n) => Some(n.max(Number::from_int(OPENAI_RESPONSES_MIN_OUTPUT_TOKENS))),
        None => None,
    }
}

/// Tools as they are sent, where there are any.
pub open spec fn offered_tools(tools: Seq<Tool>, o: ConvertResponsesToolsOptions) -> Option<Json> {
    if tools.len() > 0 {
        Some(tool_items_json(tool_list(tools, Some(o))))
    } else {
        None
    }
}

pub fn offer_tools(tools: &Vec<Tool>, o: ConvertResponsesToolsOptions) -> (r: Option<Value>)
    ensures
        opt_json(r) == offered_tools(tools@, o),
{
    if tools.len() > 0 {
        let list = convert_responses_tools(tools, Some(o));
        Some(tools_value(&list))
    } else {
        None
    }
}

/// How tools are converted.
pub open spec fn tool_options(
    strict: Option<bool>,
    strict_mode: bool,
    grammar_tools: bool,
) -> ConvertResponsesToolsOptions {
    ConvertResponsesToolsOptions {
        strict,
        supports_strict_mode: Some(strict_mode),
        supports_openai_grammar_tools: Some(grammar_tools),
        defer_loading: None,
    }
}

/// The items of a request with deferred tools.
pub fn convert_input<P: Fn(&str) -> Option<Value>>(
    model: &Model,
    context: &Context,
    messages: &Vec<Message>,
    with_prompt: bool,
    grammar_tool_input_properties: &Vec<(String, String)>,
    deferred: Vec<(String, Tool)>,
    mode: Option<String>,
    tool_options: Option<ConvertResponsesToolsOptions>,
    parse: &P,
) -> (r: Value)
    requires
        is_parser(*parse),
    ensures
        r@ == Json::Array(
            items_json(
                converted_items(
                    *context,
                    messages@,
                    with_prompt,
                    (Conversion {
                        model: *model,
                        properties: pairs(grammar_tool_input_properties@),
                        deferred: named_tools(deferred@),
                        mode: opt_text(mode),
                        tool_options,
                        parse: parser_of(*parse),
                    }),
                ),
            ),
        ),
{
    let options = ConvertResponsesMessagesOptions {
        include_system_prompt: Some(with_prompt),
        grammar_tool_input_properties: Some(clone_pairs(grammar_tool_input_properties)),
        deferred_tools: Some(deferred),
        deferred_tools_mode: mode,
        tool_options,
    };
    let list = convert_responses_messages(model, context, messages, Some(&options), parse);
    array(items_value(&list))
}

pub open spec fn asked_max_tokens(o: Option<&OpenAIResponsesOptions>) -> Option<Number> {
    match o {
        Some(o) => o.stream.max_tokens,
        None => None,
    }
}

pub open spec fn asked_temperature(o: Option<&OpenAIResponsesOptions>) -> Option<Number> {
    match o {
        Some(o) => o.stream.temperature,
        None => None,
    }
}

pub open spec fn asked_tier(o: Option<&OpenAIResponsesOptions>) -> Option<Seq<char>> {
    match o {
        Some(o) => opt_text(o.service_tier),
        None => None,
    }
}

pub open spec fn asked_choice(o: Option<&OpenAIResponsesOptions>) -> Option<Json> {
    match o {
        Some(o) => opt_json(o.tool_choice),
        None => None,
    }
}

pub open spec fn asked_effort(o: Option<&OpenAIResponsesOptions>) -> Option<Seq<char>> {
    match o {
        Some(o) => opt_text(o.reasoning_effort),
        None => None,
    }
}

pub open spec fn asked_summary(o: Option<&OpenAIResponsesOptions>) -> Option<Seq<char>> {
    match o {
        Some(o) => opt_text(o.reasoning_summary),
        None => None,
    }
}

/// The fields that a caller sets by name.
pub open spec fn sampling_params(params: Option<Vec<(String, Value)>>) -> Entries {
    match params {
        Some(params) => entries(params@),
        None => no_entries(),
    }
}

pub open spec fn asked_params(o: Option<&OpenAIResponsesOptions>) -> Entries {
    match o {
        Some(o) => sampling_params(o.stream.sampling_params),
        None => no_entries(),
    }
}

/// Everything besides the conversation that a request is made of.
pub struct Parameters {
    pub compat: Compat,
    pub properties: Pairs,
    pub retention: Seq<char>,
    pub prompt_key: Option<Seq<char>>,
    pub immediate: Seq<Tool>,
    pub deferred: Seq<(Seq<char>, Tool)>,
    pub parse: spec_fn(Seq<char>) -> Option<Json>,
}

/// The fields of a request that the adapter sets.
pub open spec fn named_fields(
    model: Model,
    context: Context,
    messages: Seq<Message>,
    options: Option<&OpenAIResponsesOptions>,
    p: Parameters,
) -> Entries {
    let tools = tool_options(
        None,
        p.compat.supports_strict_mode,
        p.compat.supports_openai_grammar_tools,
    );
    let c = Conversion {
        model,
        properties: p.properties,
        deferred: p.deferred,
        mode: deferred_mode(p.compat.supports_additional_tools, p.compat.supports_tool_search),
        tool_options: Some(tools),
        parse: p.parse,
    };
    let first = no_entries().put("model"@, Json::Str(model.id@)).put(
        "input"@,
        Json::Array(items_json(converted_items(context, messages, true, c))),
    ).put("stream"@, Json::Bool(true)).put(
        "prompt_cache_key"@,
        str_or_null(cached_session(p.retention, p.prompt_key)),
    ).put("prompt_cache_retention"@, str_or_null(prompt_retention(p.compat, p.retention))).put(
        "prompt_cache_options"@,
        if p.retention == "none"@ && p.compat.supports_explicit_prompt_cache_mode {
            one_entry("mode"@, Json::Str("explicit"@))
        } else {
            Json::Null
        },
    ).put("store"@, Json::Bool(false)).put_opt(
        "max_output_tokens"@,
        opt_number_json(output_tokens(asked_max_tokens(options))),
    ).put_opt("temperature"@, opt_number_json(asked_temperature(options))).put_opt(
        "service_tier"@,
        opt_str_json(asked_tier(options)),
    ).put_opt("tools"@, offered_tools(p.immediate, tools)).put_opt(
        "tool_choice"@,
        asked_choice(options),
    );
    reasoning_put(first, model, asked_effort(options), asked_summary(options))
}

/// The body of a request. The fields that the caller sets come last and replace
/// those of the same name.
pub open spec fn request_body(
    model: Model,
    context: Context,
    messages: Seq<Message>,
    options: Option<&OpenAIResponsesOptions>,
    p: Parameters,
) -> Json {
    Json::Object(
        with_entries(
            named_fields(model, context, messages, options, p),
            asked_params(options),
        ),
    )
}

fn put_reasoning(
    e: &mut Vec<(String, Value)>,
    model: &Model,
    effort: Option<&str>,
    summary: Option<&str>,
)
    ensures
        entries(final(e)@) == reasoning_put(
            entries(old(e)@),
            *model,
            opt_str(effort),
            opt_str(summary),
        ),
{
    if !model.reasoning {
        return ;
    }
    match effort {
        Some(effort) => {
            let sent = send_level(model, effort);
            put(e, "reasoning", make_effort(sent.as_str(), summary));
            put(e, "include", make_encrypted_content());
        },
        None => {
            if !str_eq(model.provider.as_str(), "github-copilot") {
                if let Some(off) = model.mapped_level("off") {
                    put(e, "reasoning", object1("effort", Value::Str(off)));
                }
            }
        },
    }
    if str_eq(model.provider.as_str(), "xai") {
        put(e, "include", make_encrypted_content());
    }
}

/// Sets the fields that the caller sets by name.
pub fn set_sampling_params(e: &mut Vec<(String, Value)>, params: Option<&Vec<(String, Value)>>)
    ensures
        entries(final(e)@) == with_entries(
            entries(old(e)@),
            match params {
                Some(params) => entries(params@),
                None => no_entries(),
            },
        ),
{
    if let Some(params) = params {
        set_entries(e, params);
    }
}

/// The body of a request. `messages` are those of the conversation as the model
/// takes them, `placement` says which tools are offered at once, and
/// `prompt_key` is the session, cut to what may name a cached prompt.
pub fn build_params<P: Fn(&str) -> Option<Value>>(
    model: &Model,
    context: &Context,
    messages: &Vec<Message>,
    options: Option<&OpenAIResponsesOptions>,
    compat: &RequiredResponsesCompat,
    grammar_tool_input_properties: &Vec<(String, String)>,
    cache_retention: &str,
    prompt_key: Option<&str>,
    placement: ToolPlacement,
    parse: &P,
) -> (r: Value)
    requires
        is_parser(*parse),
    ensures
        r@ == request_body(
            *model,
            *context,
            messages@,
            options,
            (Parameters {
                compat: compat@,
                properties: pairs(grammar_tool_input_properties@),
                retention: cache_retention@,
                prompt_key: opt_str(prompt_key),
                immediate: placement.immediate@,
                deferred: named_tools(placement.deferred@),
                parse: parser_of(*parse),
            }),
        ),
{
    let tools = ConvertResponsesToolsOptions {
        strict: None,
        supports_strict_mode: Some(compat.supports_strict_mode),
        supports_openai_grammar_tools: Some(compat.supports_openai_grammar_tools),
        defer_loading: None,
    };
    let mode = choose_deferred_mode(compat.supports_additional_tools, compat.supports_tool_search);
    let ToolPlacement { immediate, deferred } = placement;
    let input = convert_input(
        model,
        context,
        messages,
        true,
        grammar_tool_input_properties,
        deferred,
        mode,
        Some(tools),
        parse,
    );
    let mut e = new_entries();
    put_str(&mut e, "model", model.id.as_str());
    put(&mut e, "input", input);
    put_bool(&mut e, "stream", true);
    put(&mut e, "prompt_cache_key", string_or_null(cache_session(cache_retention, prompt_key)));
    let kept = get_prompt_cache_retention(compat, cache_retention);
    put(&mut e, "prompt_cache_retention", string_or_null(borrow_opt(&kept)));
    if str_eq(cache_retention, "none") && compat.supports_explicit_prompt_cache_mode {
        put(&mut e, "prompt_cache_options", object1("mode", string("explicit")));
    } else {
        put(&mut e, "prompt_cache_options", Value::Null);
    }
    put_bool(&mut e, "store", false);
    let (max_tokens, temperature): (Option<Number>, Option<Number>) = match options {
        Some(o) => (o.stream.max_tokens, o.stream.temperature),
        None => (None, None),
    };
    put_opt_number(&mut e, "max_output_tokens", limit_output_tokens(max_tokens));
    put_opt_number(&mut e, "temperature", temperature);
    let (tier, effort, summary): (Option<&str>, Option<&str>, Option<&str>) = match options {
        Some(o) => (
            borrow_opt(&o.service_tier),
            borrow_opt(&o.reasoning_effort),
            borrow_opt(&o.reasoning_summary),
        ),
        None => (None, None, None),
    };
    put_opt_str(&mut e, "service_tier", tier);
    put_opt_value(&mut e, "tools", offer_tools(&immediate, tools));
    let choice = match options {
        Some(o) => crate::json::clone_opt_value(&o.tool_choice),
        None => None,
    };
    put_opt_value(&mut e, "tool_choice", choice);
    put_reasoning(&mut e, model, effort, summary);
    let params: Option<&Vec<(String, Value)>> = match options {
        Some(o) => match &o.stream.sampling_params {
            Some(params) => Some(params),
            None => None,
        },
        None => None,
    };
    set_sampling_params(&mut e, params);
    object(e)
}

pub open spec fn asked_headers(o: Option<&OpenAIResponsesOptions>) -> OptPairs {
    match o {
        Some(o) => match o.stream.request.headers {
            Some(h) => opt_headers(Some(&h)),
            None => opt_headers(None),
        },
        None => opt_headers(None),
    }
}

pub open spec fn asked_retention(o: Option<&OpenAIResponsesOptions>) -> Option<Seq<char>> {
    match o {
        Some(o) => opt_text(o.stream.cache_retention),
        None => None,
    }
}

pub open spec fn asked_session(o: Option<&OpenAIResponsesOptions>) -> Option<Seq<char>> {
    match o {
        Some(o) => opt_text(o.stream.session_id),
        None => None,
    }
}

/// The request that begins a stream, or that there is no key for it.
pub open spec fn request(
    model: Model,
    context: Context,
    messages: Seq<Message>,
    options: Option<&OpenAIResponsesOptions>,
    api_key: Option<Seq<char>>,
    environment: Option<Seq<char>>,
    prompt_key: Option<Seq<char>>,
    placement: ToolPlacement,
    parse: spec_fn(Seq<char>) -> Option<Json>,
) -> Result<Request, Seq<char>> {
    match client_key(model.provider@, api_key, asked_headers(options)) {
        Err(e) => Err(e),
        Ok(key) => {
            let compat = resolved(model);
            let retention = cache_retention(asked_retention(options), environment);
            let session = cached_session(retention, asked_session(options));
            Ok(
                Request {
                    url: trimmed_end_of(model.base_url@, '/') + "/responses"@,
                    headers: Pairs::empty().push(("Authorization"@, "Bearer "@ + key))
                        + client_headers(model, context, asked_headers(options), session),
                    body: request_body(
                        model,
                        context,
                        messages,
                        options,
                        Parameters {
                            compat,
                            properties: grammar_properties(
                                opt_tools(context.tools),
                                compat.supports_openai_grammar_tools,
                            ),
                            retention,
                            prompt_key,
                            immediate: placement.immediate@,
                            deferred: named_tools(placement.deferred@),
                            parse,
                        },
                    ),
                },
            )
        },
    }
}

/// Prepares the request that begins a stream. `environment` is the value of
/// `PI_CACHE_RETENTION`, and `prompt_key` is the session, cut to what may name a
/// cached prompt.
pub fn prepare_request<P: Fn(&str) -> Option<Value>>(
    model: &Model,
    context: &Context,
    messages: &Vec<Message>,
    options: Option<&OpenAIResponsesOptions>,
    api_key: Option<&str>,
    environment: Option<&str>,
    prompt_key: Option<&str>,
    placement: ToolPlacement,
    parse: &P,
) -> (r: Result<ProviderRequest, String>)
    requires
        is_parser(*parse),
    ensures
        res_request(r) == request(
            *model,
            *context,
            messages@,
            options,
            opt_str(api_key),
            opt_str(environment),
            opt_str(prompt_key),
            placement,
            parser_of(*parse),
        ),
{
    let asked: Option<&ProviderHeaders> = match options {
        Some(o) => match &o.stream.request.headers {
            Some(h) => Some(h),
            None => None,
        },
        None => None,
    };
    let key = match get_client_api_key(model.provider.as_str(), api_key, asked) {
        Ok(key) => key,
        Err(e) => {
            return Err(e);
        },
    };
    let (wanted, session_id): (Option<&str>, Option<&str>) = match options {
        Some(o) => (borrow_opt(&o.stream.cache_retention), borrow_opt(&o.stream.session_id)),
        None => (None, None),
    };
    let retention = resolve_cache_retention(wanted, environment);
    let session = cache_session(retention.as_str(), session_id);
    let compat = RequiredResponsesCompat::new(model);
    let properties = create_grammar_tool_input_properties(
        match &context.tools {
            Some(tools) => Some(tools),
            None => None,
        },
        compat.supports_openai_grammar_tools,
    );
    let client = create_client_headers(model, context, asked, session);
    let body = build_params(
        model,
        context,
        messages,
        options,
        &compat,
        &properties,
        retention.as_str(),
        prompt_key,
        placement,
        parse,
    );
    let mut headers = new_pairs();
    push_pair(&mut headers, "Authorization", cat2("Bearer ", key.as_str()).as_str());
    append_pairs(&mut headers, &client);
    let base = trim_end_of(model.base_url.as_str(), '/');
    Ok(ProviderRequest { url: cat2(base.as_str(), "/responses"), headers, body })
}

/// Whether a reply ended well once its stream is over.
pub fn check_reply(output: &AssistantMessage) -> (r: Result<(), String>)
    ensures
        outcome(r) == stop_error(
            output@,
            "OpenAI Responses stream ended without a stop reason"@,
        ),
{
    check_stopped(output, "OpenAI Responses stream ended without a stop reason")
}

/// The effort of a simple request.
pub fn simple_effort(level: Option<&str>) -> (r: Option<String>)
    ensures
        opt_text(r) == effort_of(opt_str(level)),
{
    if opt_is(level, "off") {
        None
    } else {
        own_opt(level)
    }
}

/// The options with which a simple request is streamed. `base` holds the
/// options that every interface has, and `level` is the level of thinking that
/// was asked for, clamped to what the model supports.
pub fn stream_simple(base: StreamOptions, level: Option<&str>) -> (r: OpenAIResponsesOptions)
    ensures
        r.stream == base,
        opt_text(r.reasoning_effort) == effort_of(opt_str(level)),
        r.reasoning_summary is None,
        r.service_tier is None,
        r.tool_choice is None,
{
    OpenAIResponsesOptions {
        stream: base,
        reasoning_effort: simple_effort(level),
        reasoning_summary: None,
        service_tier: None,
        tool_choice: None,
    }
}

/// What a caller sets by name wins over what the adapter sets: each name has the
/// last value that is given for it, and every other name keeps what the adapter
/// set.
pub proof fn law_named_params_win(e: Entries, params: Entries)
    ensures
        forall|i: int| #[trigger]
            is_last_of_key(params, i) ==> crate::json::get(with_entries(e, params), params[i].0)
                == Some(params[i].1),
        forall|key: Seq<char>|
            (forall|j: int| 0 <= j < params.len() ==> (#[trigger] params[j]).0 != key)
                ==> #[trigger] crate::json::get(with_entries(e, params), key) == crate::json::get(
                e,
                key,
            ),
{
    lemma_with_entries(e, params);
}

} // verus!
