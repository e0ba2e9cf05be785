//! The Responses interface of Azure OpenAI.
use vstd::prelude::*;
use vstd::string::*;
use crate::api::constrained_sampling::{create_grammar_tool_input_properties, grammar_properties};
use crate::api::finish::{
    check_stopped, outcome, res_request, stop_error, ProviderRequest, Request,
};
use crate::api::google_vertex::first_of;
use crate::api::headers::{
    append_pairs, clone_opt_pairs, new_pairs, no_key, opt_headers, opt_list, overridden,
    override_headers, push_pair, set_pair, OptPairs, Pairs,
};
use crate::api::openai_completions::messages::opt_tools;
use crate::api::openai_completions::request::effort_of;
use crate::api::openai_responses::{
    convert_input, effort_json, encrypted_content, limit_output_tokens, make_effort,
    make_encrypted_content, offer_tools, offered_tools, output_tokens, sampling_params, send_level,
    sent_level, set_or, set_sampling_params, simple_effort, str_or_null, string_or_null, text_or,
    tool_options,
};
use crate::api::openai_responses_shared::convert::{
    converted_items, flag_or, named_tools, Conversion, ConvertResponsesToolsOptions,
};
use crate::api::openai_responses_shared::items::items_json;
use crate::json::{
    entries, find_key, get, is_parser, lemma_key_index_is, new_entries, no_entries, object,
    object1, one_entry, opt_number_json, parser_of, put, put_bool, put_opt_number, put_opt_value,
    put_str, with_entries, with_entry, Entries, EntriesSpec, Json, Value,
};
use crate::number::Number;
use crate::text::{
    after_text, before_char, borrow_opt, cat2, cat3, cat4, cat5, contains, contains_text, ends_with,
    find_text, from_char, index_of, opt_str, opt_text, own_opt, split, split_on, split_once,
    split_pair, str_eq, take_chars, text_position, texts, trim, trim_end_of, trimmed,
    trimmed_end_of,
};
use crate::types::{
    level_is_null, mapped_level, pairs, AssistantMessage, Context, Message, Model, ModelCompat,
    ProviderHeaders, StreamOptions, Tool,
};

verus! {

/// The providers whose identifiers of tool calls the interface takes as they
/// are.
pub const AZURE_TOOL_CALL_PROVIDERS: [&'static str; 4] = [
    "openai",
    "openai-codex",
    "opencode",
    "azure-openai-responses",
];

/// Options of the interface.
#[derive(Clone, Debug, Default, PartialEq, Eq)]
pub struct AzureOpenAIResponsesOptions {
    pub stream: StreamOptions,
    pub reasoning_effort: Option<String>,
    pub reasoning_summary: Option<String>,
    pub azure_api_version: Option<String>,
    pub azure_resource_name: Option<String>,
    pub azure_base_url: Option<String>,
    pub azure_deployment_name: Option<String>,
}

/// What the environment of a request says: `AZURE_OPENAI_API_VERSION`,
/// `AZURE_OPENAI_BASE_URL`, `AZURE_OPENAI_RESOURCE_NAME` and
/// `AZURE_OPENAI_DEPLOYMENT_NAME_MAP`.
#[derive(Clone, Debug, Default, PartialEq, Eq)]
pub struct AzureEnvironment {
    pub api_version: Option<String>,
    pub base_url: Option<String>,
    pub resource_name: Option<String>,
    pub deployment_name_map: Option<String>,
}

// ---------------------------------------------------------------------------
// Deployments
// ---------------------------------------------------------------------------

/// The deployments of models with one more entry `model=deployment`. An entry
/// without an equals sign, or with nothing on one side of it, says nothing.
pub open spec fn with_deployment(map: Pairs, entry: Seq<char>) -> Pairs {
    match split_pair(trimmed(entry), '=') {
        Some((model, deployment)) => if model.len() == 0 || deployment.len() == 0 {
            map
        } else {
            with_entry(map, trimmed(model), trimmed(deployment))
        },
        None => map,
    }
}

pub open spec fn with_deployments(list: Seq<Seq<char>>) -> Pairs
    decreases list.len(),
{
    if list.len() == 0 {
        Seq::empty()
    } else {
        with_deployment(with_deployments(list.drop_last()), list.last())
    }
}

/// The deployments that a list with commas names; of two entries for a model
/// the last counts.
pub open spec fn deployments(value: Option<Seq<char>>) -> Pairs {
    match value {
        Some(value) => with_deployments(split_on(value, ',')),
        None => Seq::empty(),
    }
}

pub fn parse_deployment_name_map(value: Option<&str>) -> (r: Vec<(String, String)>)
    ensures
        pairs(r@) == deployments(opt_str(value)),
{
    let mut map = new_pairs();
    let value = match value {
        Some(value) => value,
        None => {
            return map;
        },
    };
    let list = split(value, ',');
    let ghost parts = texts(list@);
    let mut i: usize = 0;
    while i < list.len()
        invariant
            i <= list@.len(),
            parts == texts(list@),
            pairs(map@) == with_deployments(parts.take(i as int)),
        decreases list.len() - i,
    {
        proof {
            assert(parts.take(i + 1).drop_last() =~= parts.take(i as int));
            assert(parts.take(i + 1).last() == list@[i as int]@);
        }
        let entry = trim(list[i].as_str());
        if let Some((model, deployment)) = split_once(entry.as_str(), '=') {
            if !(model.as_str().is_empty() || deployment.as_str().is_empty()) {
                set_pair(&mut map, trim(model.as_str()).as_str(), trim(deployment.as_str()).as_str());
            }
        }
        i += 1;
    }
    proof {
        assert(parts.take(list@.len() as int) =~= parts);
    }
    map
}

pub open spec fn asked_deployment(o: Option<&AzureOpenAIResponsesOptions>) -> Option<Seq<char>> {
    match o {
        Some(o) => opt_text(o.azure_deployment_name),
        None => None,
    }
}

/// The deployment of a model: the one asked for, the one that the environment
/// maps the model to, else one of the model's own name.
pub open spec fn deployment_of(
    model: Model,
    options: Option<&AzureOpenAIResponsesOptions>,
    environment: AzureEnvironment,
) -> Seq<char> {
    match asked_deployment(options) {
        Some(name) => name,
        None => match get(deployments(opt_text(environment.deployment_name_map)), model.id@) {
            Some(name) => name,
            None => model.id@,
        },
    }
}

pub fn resolve_deployment_name(
    model: &Model,
    options: Option<&AzureOpenAIResponsesOptions>,
    environment: &AzureEnvironment,
) -> (r: String)
    ensures
        r@ == deployment_of(*model, options, *environment),
{
    if let Some(o) = options {
        if let Some(name) = &o.azure_deployment_name {
            return name.clone();
        }
    }
    let map = parse_deployment_name_map(borrow_opt(&environment.deployment_name_map));
    match find_key(&map, model.id.as_str()) {
        Some(i) => {
            proof {
                lemma_key_index_is(pairs(map@), model.id@, i as int);
            }
            map[i].1.clone()
        },
        None => {
            proof {
                lemma_key_index_is(pairs(map@), model.id@, map@.len() as int);
            }
            model.id.clone()
        },
    }
}

// ---------------------------------------------------------------------------
// Address
// ---------------------------------------------------------------------------

/// Whether a host is one of Azure.
pub open spec fn is_azure_host(host: Seq<char>) -> bool {
    ||| ".openai.azure.com"@.is_suffix_of(host)
    ||| ".cognitiveservices.azure.com"@.is_suffix_of(host)
    ||| ".ai.azure.com"@.is_suffix_of(host)
}

/// Whether a path leads to the interface, or is not there.
pub open spec fn is_partial_path(path: Seq<char>) -> bool {
    path.len() == 0 || path == "/openai"@ || path == "/openai/v1/responses"@
}

/// The part of an address behind its scheme up to the path.
pub open spec fn authority_of(rest: Seq<char>) -> Seq<char> {
    rest.take(index_of(rest, '/'))
}

/// The path of an address without slashes at its end.
pub open spec fn plain_path(rest: Seq<char>) -> Seq<char> {
    let tail = rest.skip(index_of(rest, '/'));
    trimmed_end_of(tail.take(index_of(tail, '?')), '/')
}

/// The base address that stands for another. On a host of Azure, a path that is
/// missing or partial is completed; any other address stays as it is, without
/// slashes at its end.
pub open spec fn normalized_base(base_url: Seq<char>) -> Result<Seq<char>, Seq<char>> {
    let base = trimmed_end_of(trimmed(base_url), '/');
    match text_position(base, "://"@) {
        None => Err("Invalid Azure OpenAI base URL: "@ + base_url),
        Some(i) => {
            let rest = base.skip(i + "://"@.len());
            let authority = authority_of(rest);
            if is_azure_host(authority.take(index_of(authority, ':'))) && is_partial_path(
                plain_path(rest),
            ) {
                Ok(base.take(i) + "://"@ + authority + "/openai/v1"@)
            } else {
                Ok(base)
            }
        },
    }
}

pub open spec fn res_base(r: Result<String, String>) -> Result<Seq<char>, Seq<char>> {
    match r {
        Ok(s) => Ok(s@),
        Err(e) => Err(e@),
    }
}

pub fn normalize_azure_base_url(base_url: &str) -> (r: Result<String, String>)
    ensures
        res_base(r) == normalized_base(base_url@),
{
    let base = trim_end_of(trim(base_url).as_str(), '/');
    let i: usize = match find_text(base.as_str(), "://") {
        Some(i) => i,
        None => {
            return Err(cat2("Invalid Azure OpenAI base URL: ", base_url));
        },
    };
    let scheme = take_chars(base.as_str(), i);
    proof {
        assert(scheme@ =~= base@.take(i as int));
    }
    let rest = match after_text(base.as_str(), "://") {
        Some(rest) => rest,
        None => String::new(),
    };
    let authority = before_char(rest.as_str(), '/');
    let tail = from_char(rest.as_str(), '/');
    let host = before_char(authority.as_str(), ':');
    let path = trim_end_of(before_char(tail.as_str(), '?').as_str(), '/');
    let azure = ends_with(host.as_str(), ".openai.azure.com") || ends_with(
        host.as_str(),
        ".cognitiveservices.azure.com",
    ) || ends_with(host.as_str(), ".ai.azure.com");
    if azure && (path.as_str().is_empty() || str_eq(path.as_str(), "/openai") || str_eq(
        path.as_str(),
        "/openai/v1/responses",
    )) {
        return Ok(cat4(scheme.as_str(), "://", authority.as_str(), "/openai/v1"));
    }
    Ok(base)
}

pub fn build_default_base_url(resource_name: &str) -> (r: String)
    ensures
        r@ == "https://"@ + resource_name@ + ".openai.azure.com/openai/v1"@,
{
    cat3("https://", resource_name, ".openai.azure.com/openai/v1")
}

/// A text without space around it, unless it is blank.
pub open spec fn filled(s: Option<Seq<char>>) -> Option<Seq<char>> {
    match s {
        Some(s) => if trimmed(s).len() > 0 {
            Some(trimmed(s))
        } else {
            None
        },
        None => None,
    }
}

fn trim_filled(s: Option<&str>) -> (r: Option<String>)
    ensures
        opt_text(r) == filled(opt_str(s)),
{
    match s {
        Some(s) => {
            let t = trim(s);
            if t.as_str().is_empty() {
                None
            } else {
                Some(t)
            }
        },
        None => None,
    }
}

pub open spec fn asked_base(o: Option<&AzureOpenAIResponsesOptions>) -> Option<Seq<char>> {
    match o {
        Some(o) => opt_text(o.azure_base_url),
        None => None,
    }
}

pub open spec fn asked_resource(o: Option<&AzureOpenAIResponsesOptions>) -> Option<Seq<char>> {
    match o {
        Some(o) => opt_text(o.azure_resource_name),
        None => None,
    }
}

pub open spec fn asked_version(o: Option<&AzureOpenAIResponsesOptions>) -> Option<Seq<char>> {
    match o {
        Some(o) => opt_text(o.azure_api_version),
        None => None,
    }
}

/// The base address as it is configured: asked for or in the environment, that
/// of a named resource, else that of the model.
pub open spec fn configured_base(
    model: Model,
    options: Option<&AzureOpenAIResponsesOptions>,
    environment: AzureEnvironment,
) -> Option<Seq<char>> {
    match first_of(filled(asked_base(options)), filled(opt_text(environment.base_url))) {
        Some(base) => Some(base),
        None => match first_of(asked_resource(options), opt_text(environment.resource_name)) {
            Some(name) => Some("https://"@ + name + ".openai.azure.com/openai/v1"@),
            None => if model.base_url@.len() > 0 {
                Some(model.base_url@)
            } else {
                None
            },
        },
    }
}

/// The base address and the version of the interface, or why there is no
/// address.
pub open spec fn azure_config(
    model: Model,
    options: Option<&AzureOpenAIResponsesOptions>,
    environment: AzureEnvironment,
) -> Result<(Seq<char>, Seq<char>), Seq<char>> {
    match configured_base(model, options, environment) {
        Some(base) => match normalized_base(base) {
            Ok(base) => Ok(
                (
                    base,
                    text_or(
                        first_of(asked_version(options), opt_text(environment.api_version)),
                        "v1"@,
                    ),
                ),
            ),
            Err(e) => Err(e),
        },
        None => Err(
            "Azure OpenAI base URL is required. Set AZURE_OPENAI_BASE_URL or AZURE_OPENAI_RESOURCE_NAME, or pass azureBaseUrl, azureResourceName, or model.baseUrl."@,
        ),
    }
}

pub open spec fn res_config(r: Result<(String, String), String>) -> Result<
    (Seq<char>, Seq<char>),
    Seq<char>,
> {
    match r {
        Ok((base, version)) => Ok((base@, version@)),
        Err(e) => Err(e@),
    }
}

fn first_text(a: Option<&str>, b: Option<&str>) -> (r: Option<String>)
    ensures
        opt_text(r) == first_of(opt_str(a), opt_str(b)),
{
    match a {
        Some(a) => Some(a.to_owned()),
        None => own_opt(b),
    }
}

pub fn resolve_azure_config(
    model: &Model,
    options: Option<&AzureOpenAIResponsesOptions>,
    environment: &AzureEnvironment,
) -> (r: Result<(String, String), String>)
    ensures
        res_config(r) == azure_config(*model, options, *environment),
{
    let (asked_version, asked_base, asked_resource): (
        Option<&str>,
        Option<&str>,
        Option<&str>,
    ) = match options {
        Some(o) => (
            borrow_opt(&o.azure_api_version),
            borrow_opt(&o.azure_base_url),
            borrow_opt(&o.azure_resource_name),
        ),
        None => (None, None, None),
    };
    let version = match first_text(asked_version, borrow_opt(&environment.api_version)) {
        Some(version) => version,
        None => "v1".to_owned(),
    };
    let own_base = trim_filled(asked_base);
    let known_base = trim_filled(borrow_opt(&environment.base_url));
    let base = match first_text(borrow_opt(&own_base), borrow_opt(&known_base)) {
        Some(base) => base,
        None => match first_text(asked_resource, borrow_opt(&environment.resource_name)) {
            Some(name) => build_default_base_url(name.as_str()),
            None => {
                if model.base_url.as_str().is_empty() {
                    return Err(
                        "Azure OpenAI base URL is required. Set AZURE_OPENAI_BASE_URL or AZURE_OPENAI_RESOURCE_NAME, or pass azureBaseUrl, azureResourceName, or model.baseUrl.".to_owned(),
                    );
                }
                model.base_url.clone()
            },
        },
    };
    match normalize_azure_base_url(base.as_str()) {
        Ok(base) => Ok((base, version)),
        Err(e) => Err(e),
    }
}

/// Where a request goes.
pub open spec fn responses_url(base: Seq<char>, version: Seq<char>) -> Seq<char> {
    base + "/openai/responses"@ + (if contains_text(base, "?"@) {
        "&"@
    } else {
        "?"@
    }) + "api-version="@ + version
}

// ---------------------------------------------------------------------------
// Request
// ---------------------------------------------------------------------------

/// Whether the endpoint samples tools strictly: it does unless the model says
/// otherwise.
pub open spec fn strict_mode(model: Model) -> bool {
    match model.compat {
        Some(ModelCompat::OpenAiResponses(c)) => flag_or(c.supports_strict_mode, true),
        _ => true,
    }
}

pub fn compat_supports_strict_mode(model: &Model) -> (r: bool)
    ensures
        r == strict_mode(*model),
{
    match &model.compat {
        Some(ModelCompat::OpenAiResponses(c)) => set_or(c.supports_strict_mode, true),
        _ => true,
    }
}

/// Whether the endpoint takes tools with a grammar.
pub open spec fn grammar_tools(model: Model) -> bool {
    match model.compat {
        Some(ModelCompat::OpenAiResponses(c)) => flag_or(c.supports_openai_grammar_tools, false),
        _ => false,
    }
}

pub fn compat_supports_openai_grammar_tools(model: &Model) -> (r: bool)
    ensures
        r == grammar_tools(*model),
{
    match &model.compat {
        Some(ModelCompat::OpenAiResponses(c)) => set_or(c.supports_openai_grammar_tools, false),
        _ => false,
    }
}

/// The headers of the model with those of the request over them.
pub fn create_client_headers(model: &Model, options_headers: Option<&ProviderHeaders>) -> (r: Vec<
    (String, String),
>)
    ensures
        pairs(r@) == overridden(opt_list(model.headers), opt_headers(options_headers)),
{
    let mut headers = clone_opt_pairs(&model.headers);
    override_headers(&mut headers, options_headers);
    headers
}

pub open spec fn asked_max_tokens(o: Option<&AzureOpenAIResponsesOptions>) -> Option<Number> {
    match o {
        Some(o) => o.stream.max_tokens,
        None => None,
    }
}

pub open spec fn asked_temperature(o: Option<&AzureOpenAIResponsesOptions>) -> Option<Number> {
    match o {
        Some(o) => o.stream.temperature,
        None => None,
    }
}

pub open spec fn asked_effort(o: Option<&AzureOpenAIResponsesOptions>) -> Option<Seq<char>> {
    match o {
        Some(o) => opt_text(o.reasoning_effort),
        None => None,
    }
}

pub open spec fn asked_summary(o: Option<&AzureOpenAIResponsesOptions>) -> Option<Seq<char>> {
    match o {
        Some(o) => opt_text(o.reasoning_summary),
        None => None,
    }
}

pub open spec fn asked_params(o: Option<&AzureOpenAIResponsesOptions>) -> Entries {
    match o {
        Some(o) => sampling_params(o.stream.sampling_params),
        None => no_entries(),
    }
}

pub open spec fn asked_headers(o: Option<&AzureOpenAIResponsesOptions>) -> OptPairs {
    match o {
        Some(o) => match o.stream.request.headers {
            Some(h) => opt_headers(Some(&h)),
            None => opt_headers(None),
        },
        None => opt_headers(None),
    }
}

/// Whether there is a text that is not empty.
pub open spec fn says_something(s: Option<Seq<char>>) -> bool {
    match s {
        Some(s) => s.len() > 0,
        None => false,
    }
}

fn speaks(s: Option<&str>) -> (r: bool)
    ensures
        r == says_something(opt_str(s)),
{
    match s {
        Some(s) => !s.is_empty(),
        None => false,
    }
}

/// How a model is told to reason. Where nothing is asked for, it is told not
/// to, unless it cannot be told so.
pub open spec fn reasoning_put(
    e: Entries,
    model: Model,
    effort: Option<Seq<char>>,
    summary: Option<Seq<char>>,
) -> Entries {
    if !model.reasoning {
        e
    } else if says_something(effort) || says_something(summary) {
        e.put(
            "reasoning"@,
            effort_json(
                match effort {
                    Some(effort) => sent_level(model, effort),
                    None => "medium"@,
                },
                text_or(summary, "auto"@),
            ),
        ).put("include"@, encrypted_content())
    } else if !level_is_null(model, "off"@) {
        e.put(
            "reasoning"@,
            one_entry("effort"@, Json::Str(text_or(mapped_level(model, "off"@), "none"@))),
        )
    } else {
        e
    }
}

fn put_reasoning(
    e: &mut Vec<(String, Value)>,
    model: &Model,
    effort: Option<&str>,
    summary: Option<&str>,
)
    ensures
        entries(final(e)@) == reasoning_put(
            entries(old(e)@),
            *model,
            opt_str(effort),
            opt_str(summary),
        ),
{
    if !model.reasoning {
        return ;
    }
    if speaks(effort) || speaks(summary) {
        let sent = match effort {
            Some(effort) => send_level(model, effort),
            None => "medium".to_owned(),
        };
        put(e, "reasoning", make_effort(sent.as_str(), summary));
        put(e, "include", make_encrypted_content());
    } else if !model.level_is_null("off") {
        let off = match model.mapped_level("off") {
            Some(off) => off,
            None => "none".to_owned(),
        };
        put(e, "reasoning", object1("effort", Value::Str(off)));
    }
}

/// The body of a request. The fields that the caller sets come last and replace
/// those of the same name.
pub open spec fn request_body(
    model: Model,
    context: Context,
    messages: Seq<Message>,
    options: Option<&AzureOpenAIResponsesOptions>,
    deployment: Seq<char>,
    properties: Pairs,
    prompt_key: Option<Seq<char>>,
    parse: spec_fn(Seq<char>) -> Option<Json>,
) -> Json {
    let c = Conversion {
        model,
        properties,
        deferred: Seq::empty(),
        mode: None,
        tool_options: None,
        parse,
    };
    let first = no_entries().put("model"@, Json::Str(deployment)).put(
        "input"@,
        Json::Array(items_json(converted_items(context, messages, true, c))),
    ).put("stream"@, Json::Bool(true)).put("prompt_cache_key"@, str_or_null(prompt_key)).put(
        "store"@,
        Json::Bool(false),
    ).put_opt(
        "max_output_tokens"@,
        opt_number_json(output_tokens(asked_max_tokens(options))),
    ).put_opt("temperature"@, opt_number_json(asked_temperature(options))).put_opt(
        "tools"@,
        offered_tools(
            opt_tools(context.tools),
            tool_options(None, strict_mode(model), grammar_tools(model)),
        ),
    );
    Json::Object(
        with_entries(
            reasoning_put(first, model, asked_effort(options), asked_summary(options)),
            asked_params(options),
        ),
    )
}

/// The body of a request. `messages` are those of the conversation as the model
/// takes them, and `prompt_key` is the session, cut to what may name a cached
/// prompt.
pub fn build_params<P: Fn(&str) -> Option<Value>>(
    model: &Model,
    context: &Context,
    messages: &Vec<Message>,
    options: Option<&AzureOpenAIResponsesOptions>,
    deployment_name: &str,
    grammar_tool_input_properties: &Vec<(String, String)>,
    prompt_key: Option<&str>,
    parse: &P,
) -> (r: Value)
    requires
        is_parser(*parse),
    ensures
        r@ == request_body(
            *model,
            *context,
            messages@,
            options,
            deployment_name@,
            pairs(grammar_tool_input_properties@),
            opt_str(prompt_key),
            parser_of(*parse),
        ),
{
    let none: Vec<(String, Tool)> = Vec::new();
    proof {
        assert(named_tools(none@) =~= Seq::<(Seq<char>, Tool)>::empty());
    }
    let input = convert_input(
        model,
        context,
        messages,
        true,
        grammar_tool_input_properties,
        none,
        None,
        None,
        parse,
    );
    let mut e = new_entries();
    put_str(&mut e, "model", deployment_name);
    put(&mut e, "input", input);
    put_bool(&mut e, "stream", true);
    put(&mut e, "prompt_cache_key", string_or_null(prompt_key));
    put_bool(&mut e, "store", false);
    let (max_tokens, temperature): (Option<Number>, Option<Number>) = match options {
        Some(o) => (o.stream.max_tokens, o.stream.temperature),
        None => (None, None),
    };
    put_opt_number(&mut e, "max_output_tokens", limit_output_tokens(max_tokens));
    put_opt_number(&mut e, "temperature", temperature);
    if let Some(tools) = &context.tools {
        let o = ConvertResponsesToolsOptions {
            strict: None,
            supports_strict_mode: Some(compat_supports_strict_mode(model)),
            supports_openai_grammar_tools: Some(compat_supports_openai_grammar_tools(model)),
            defer_loading: None,
        };
        put_opt_value(&mut e, "tools", offer_tools(tools, o));
    }
    let (effort, summary): (Option<&str>, Option<&str>) = match options {
        Some(o) => (borrow_opt(&o.reasoning_effort), borrow_opt(&o.reasoning_summary)),
        None => (None, None),
    };
    put_reasoning(&mut e, model, effort, summary);
    let params: Option<&Vec<(String, Value)>> = match options {
        Some(o) => match &o.stream.sampling_params {
            Some(params) => Some(params),
            None => None,
        },
        None => None,
    };
    set_sampling_params(&mut e, params);
    object(e)
}

/// The request that begins a stream, or why there is none: no key, or no
/// address.
pub open spec fn request(
    model: Model,
    context: Context,
    messages: Seq<Message>,
    options: Option<&AzureOpenAIResponsesOptions>,
    api_key: Option<Seq<char>>,
    environment: AzureEnvironment,
    prompt_key: Option<Seq<char>>,
    parse: spec_fn(Seq<char>) -> Option<Json>,
) -> Result<Request, Seq<char>> {
    match api_key {
        None => Err(no_key(model.provider@)),
        Some(key) => match azure_config(model, options, environment) {
            Err(e) => Err(e),
            Ok((base, version)) => Ok(
                Request {
                    url: responses_url(base, version),
                    headers: Pairs::empty().push(("api-key"@, key)) + overridden(
                        opt_list(model.headers),
                        asked_headers(options),
                    ),
                    body: request_body(
                        model,
                        context,
                        messages,
                        options,
                        deployment_of(model, options, environment),
                        grammar_properties(opt_tools(context.tools), grammar_tools(model)),
                        prompt_key,
                        parse,
                    ),
                },
            ),
        },
    }
}

/// Prepares the request that begins a stream. `prompt_key` is the session, cut
/// to what may name a cached prompt.
pub fn prepare_request<P: Fn(&str) -> Option<Value>>(
    model: &Model,
    context: &Context,
    messages: &Vec<Message>,
    options: Option<&AzureOpenAIResponsesOptions>,
    api_key: Option<&str>,
    environment: &AzureEnvironment,
    prompt_key: Option<&str>,
    parse: &P,
) -> (r: Result<ProviderRequest, String>)
    requires
        is_parser(*parse),
    ensures
        res_request(r) == request(
            *model,
            *context,
            messages@,
            options,
            opt_str(api_key),
            *environment,
            opt_str(prompt_key),
            parser_of(*parse),
        ),
{
    let key = match api_key {
        Some(key) => key,
        None => {
            return Err(cat2("No API key for provider: ", model.provider.as_str()));
        },
    };
    let deployment = resolve_deployment_name(model, options, environment);
    let properties = create_grammar_tool_input_properties(
        match &context.tools {
            Some(tools) => Some(tools),
            None => None,
        },
        compat_supports_openai_grammar_tools(model),
    );
    let asked: Option<&ProviderHeaders> = match options {
        Some(o) => match &o.stream.request.headers {
            Some(h) => Some(h),
            None => None,
        },
        None => None,
    };
    let client = create_client_headers(model, asked);
    let body = build_params(
        model,
        context,
        messages,
        options,
        deployment.as_str(),
        &properties,
        prompt_key,
        parse,
    );
    let (base, version) = match resolve_azure_config(model, options, environment) {
        Ok(config) => config,
        Err(e) => {
            return Err(e);
        },
    };
    let mut headers = new_pairs();
    push_pair(&mut headers, "api-key", key);
    append_pairs(&mut headers, &client);
    let separator = if contains(base.as_str(), "?") {
        "&"
    } else {
        "?"
    };
    let url = cat5(base.as_str(), "/openai/responses", separator, "api-version=", version.as_str());
    Ok(ProviderRequest { url, headers, body })
}

/// Whether a reply ended well once its stream is over.
pub fn check_reply(output: &AssistantMessage) -> (r: Result<(), String>)
    ensures
        outcome(r) == stop_error(
            output@,
            "Azure OpenAI Responses stream ended without a stop reason"@,
        ),
{
    check_stopped(output, "Azure OpenAI Responses stream ended without a stop reason")
}

/// The options with which a simple request is streamed. `base` holds the
/// options that every interface has, and `level` is the level of thinking that
/// was asked for, clamped to what the model supports.
pub fn stream_simple(base: StreamOptions, level: Option<&str>) -> (r: AzureOpenAIResponsesOptions)
    ensures
        r.stream == base,
        opt_text(r.reasoning_effort) == effort_of(opt_str(level)),
        r.reasoning_summary is None,
        r.azure_api_version is None,
        r.azure_resource_name is None,
        r.azure_base_url is None,
        r.azure_deployment_name is None,
{
    AzureOpenAIResponsesOptions {
        stream: base,
        reasoning_effort: simple_effort(level),
        reasoning_summary: None,
        azure_api_version: None,
        azure_resource_name: None,
        azure_base_url: None,
        azure_deployment_name: None,
    }
}

} // verus!
