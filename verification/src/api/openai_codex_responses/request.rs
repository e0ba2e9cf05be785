//! The request that begins a stream.
use vstd::prelude::*;
use vstd::string::*;
use super::auth::{account_of, extract_account_id};
use crate::api::azure_openai_responses::{
    compat_supports_openai_grammar_tools, compat_supports_strict_mode, grammar_tools, strict_mode,
};
use crate::api::constrained_sampling::{create_grammar_tool_input_properties, grammar_properties};
use crate::api::finish::{res_request, ProviderRequest, Request};
use crate::api::headers::{
    cache_session, cached_session, clone_opt_pairs, new_pairs, no_key, opt_headers, opt_list,
    push_pair, same_name, set_header, with_header, OptPairs, Pairs,
};
use crate::api::openai_completions::messages::opt_tools;
use crate::api::openai_completions::request::effort_of;
use crate::api::openai_responses::{
    choose_deferred_mode, convert_input, deferred_mode, effort_json, encrypted_content,
    make_effort, make_encrypted_content, offer_tools, offered_tools, resolved, send_level,
    sent_level, simple_effort, str_or_null, string_or_null, text_or, tool_options,
    RequiredResponsesCompat,
};
use crate::api::openai_responses_shared::convert::{
    converted_items, named_tools, Conversion, ConvertResponsesToolsOptions,
};
use crate::api::openai_responses_shared::items::items_json;
use crate::json::{
    entries, is_parser, new_entries, no_entries, object, one_entry, opt_number_json, opt_str_json,
    parser_of, put, put_bool, put_opt_number, put_opt_str, put_opt_value, put_str, string,
    EntriesSpec, Json, Value,
};
use crate::number::Number;
use crate::text::{
    blank, borrow_opt, cat2, cat5, ends_with, eq_ignore_ascii_case, is_blank, opt_str, opt_text,
    str_eq, trim_end_of, trimmed_end_of,
};
use crate::types::{
    mapped_level, opt_pairs, pairs, Context, Message, Model, ProviderHeaders, StreamOptions, Tool,
    ToolPlacement,
};

verus! {

/// The providers whose identifiers of tool calls the interface takes as they
/// are.
pub const CODEX_TOOL_CALL_PROVIDERS: [&'static str; 3] = ["openai", "openai-codex", "opencode"];

/// Options of the interface.
#[derive(Clone, Debug, Default, PartialEq, Eq)]
pub struct OpenAICodexResponsesOptions {
    pub stream: StreamOptions,
    pub reasoning_effort: Option<String>,
    pub reasoning_summary: Option<String>,
    pub service_tier: Option<String>,
    pub text_verbosity: Option<String>,
    pub tool_choice: Option<String>,
}

// ---------------------------------------------------------------------------
// Address
// ---------------------------------------------------------------------------

/// Where a request goes: to the interface below a base address, or below the
/// public one where there is none.
pub open spec fn codex_url(base_url: Option<Seq<char>>) -> Seq<char> {
    let raw = match base_url {
        Some(base) => if is_blank(base) {
            "https://chatgpt.com/backend-api"@
        } else {
            base
        },
        None => "https://chatgpt.com/backend-api"@,
    };
    let base = trimmed_end_of(raw, '/');
    if "/codex/responses"@.is_suffix_of(base) {
        base
    } else if "/codex"@.is_suffix_of(base) {
        base + "/responses"@
    } else {
        base + "/codex/responses"@
    }
}

pub fn resolve_codex_url(base_url: Option<&str>) -> (r: String)
    ensures
        r@ == codex_url(opt_str(base_url)),
{
    let raw: &str = match base_url {
        Some(base) => if blank(base) {
            "https://chatgpt.com/backend-api"
        } else {
            base
        },
        None => "https://chatgpt.com/backend-api",
    };
    let base = trim_end_of(raw, '/');
    if ends_with(base.as_str(), "/codex/responses") {
        base
    } else if ends_with(base.as_str(), "/codex") {
        cat2(base.as_str(), "/responses")
    } else {
        cat2(base.as_str(), "/codex/responses")
    }
}

// ---------------------------------------------------------------------------
// Headers
// ---------------------------------------------------------------------------

/// The headers without those of a name, whatever its case.
pub open spec fn without_name(m: Pairs, name: Seq<char>) -> Pairs
    decreases m.len(),
{
    if m.len() == 0 {
        Seq::empty()
    } else {
        let before = without_name(m.drop_last(), name);
        if same_name(m.last().0, name) {
            before
        } else {
            before.push(m.last())
        }
    }
}

fn remove_name(m: &Vec<(String, String)>, name: &str) -> (r: Vec<(String, String)>)
    ensures
        pairs(r@) == without_name(pairs(m@), name@),
{
    let mut r = new_pairs();
    let ghost list = pairs(m@);
    let mut i: usize = 0;
    while i < m.len()
        invariant
            i <= m@.len(),
            list == pairs(m@),
            pairs(r@) == without_name(list.take(i as int), name@),
        decreases m.len() - i,
    {
        proof {
            assert(list.take(i + 1).drop_last() =~= list.take(i as int));
            assert(list.take(i + 1).last() == (m@[i as int].0@, m@[i as int].1@));
        }
        if !eq_ignore_ascii_case(m[i].0.as_str(), name) {
            push_pair(&mut r, m[i].0.as_str(), m[i].1.as_str());
        }
        i += 1;
    }
    proof {
        assert(list.take(m@.len() as int) =~= list);
    }
    r
}

/// The headers with those of a request over them: a header without a value is
/// taken out, any other is set.
pub open spec fn adjusted(m: Pairs, additional: OptPairs) -> Pairs
    decreases additional.len(),
{
    if additional.len() == 0 {
        m
    } else {
        let before = adjusted(m, additional.drop_last());
        match additional.last().1 {
            Some(value) => with_header(before, additional.last().0, value),
            None => without_name(before, additional.last().0),
        }
    }
}

fn adjust_headers(m: Vec<(String, String)>, additional: Option<&ProviderHeaders>) -> (r: Vec<
    (String, String),
>)
    ensures
        pairs(r@) == adjusted(pairs(m@), opt_headers(additional)),
{
    let ghost start = pairs(m@);
    let mut m = m;
    if let Some(additional) = additional {
        let ghost list = opt_pairs(additional@);
        let mut i: usize = 0;
        while i < additional.len()
            invariant
                i <= additional@.len(),
                list == opt_pairs(additional@),
                pairs(m@) == adjusted(start, list.take(i as int)),
            decreases additional.len() - i,
        {
            proof {
                assert(list.take(i + 1).drop_last() =~= list.take(i as int));
            }
            match &additional[i].1 {
                Some(value) => set_header(&mut m, additional[i].0.as_str(), value.as_str()),
                None => {
                    m = remove_name(&m, additional[i].0.as_str());
                },
            }
            i += 1;
        }
        proof {
            assert(list.take(additional@.len() as int) =~= list);
        }
    }
    m
}

/// What names the client: the system and the processor that it runs on.
pub open spec fn user_agent(os: Seq<char>, arch: Seq<char>) -> Seq<char> {
    "pi ("@ + os + "; "@ + arch + ")"@
}

/// The headers of every request: those of the model with those of the request
/// over them, and those that authorise it and name the client.
pub open spec fn base_headers(
    own: Pairs,
    additional: OptPairs,
    account_id: Seq<char>,
    token: Seq<char>,
    os: Seq<char>,
    arch: Seq<char>,
) -> Pairs {
    adjusted(own, additional).push(("Authorization"@, "Bearer "@ + token)).push(
        ("chatgpt-account-id"@, account_id),
    ).push(("originator"@, "pi"@)).push(("User-Agent"@, user_agent(os, arch)))
}

/// The headers of a request. `os` and `arch` name the system and the processor
/// that the client runs on.
pub fn build_base_codex_headers(
    init_headers: &Option<Vec<(String, String)>>,
    additional_headers: Option<&ProviderHeaders>,
    account_id: &str,
    token: &str,
    os: &str,
    arch: &str,
) -> (r: Vec<(String, String)>)
    ensures
        pairs(r@) == base_headers(
            opt_list(*init_headers),
            opt_headers(additional_headers),
            account_id@,
            token@,
            os@,
            arch@,
        ),
{
    let mut headers = adjust_headers(clone_opt_pairs(init_headers), additional_headers);
    push_pair(&mut headers, "Authorization", cat2("Bearer ", token).as_str());
    push_pair(&mut headers, "chatgpt-account-id", account_id);
    push_pair(&mut headers, "originator", "pi");
    push_pair(&mut headers, "User-Agent", cat5("pi (", os, "; ", arch, ")").as_str());
    headers
}

/// The headers of a request whose reply is streamed.
pub open spec fn sse_headers(base: Pairs, session: Option<Seq<char>>) -> Pairs {
    let streamed = base.push(("OpenAI-Beta"@, "responses=experimental"@)).push(
        ("accept"@, "text/event-stream"@),
    ).push(("content-type"@, "application/json"@));
    match session {
        Some(id) => streamed.push(("session-id"@, id)).push(("x-client-request-id"@, id)),
        None => streamed,
    }
}

pub fn build_sse_headers(
    init_headers: &Option<Vec<(String, String)>>,
    additional_headers: Option<&ProviderHeaders>,
    account_id: &str,
    token: &str,
    session_id: Option<&str>,
    os: &str,
    arch: &str,
) -> (r: Vec<(String, String)>)
    ensures
        pairs(r@) == sse_headers(
            base_headers(
                opt_list(*init_headers),
                opt_headers(additional_headers),
                account_id@,
                token@,
                os@,
                arch@,
            ),
            opt_str(session_id),
        ),
{
    let mut headers = build_base_codex_headers(
        init_headers,
        additional_headers,
        account_id,
        token,
        os,
        arch,
    );
    push_pair(&mut headers, "OpenAI-Beta", "responses=experimental");
    push_pair(&mut headers, "accept", "text/event-stream");
    push_pair(&mut headers, "content-type", "application/json");
    if let Some(id) = session_id {
        push_pair(&mut headers, "session-id", id);
        push_pair(&mut headers, "x-client-request-id", id);
    }
    headers
}

// ---------------------------------------------------------------------------
// Body
// ---------------------------------------------------------------------------

/// How long a prompt is to be kept in a cache: a short time where nothing else
/// is asked for.
pub fn resolve_cache_retention(cache_retention: Option<&str>) -> (r: String)
    ensures
        r@ == text_or(opt_str(cache_retention), "short"@),
{
    match cache_retention {
        Some(retention) => retention.to_owned(),
        None => "short".to_owned(),
    }
}

pub open spec fn asked_temperature(o: Option<&OpenAICodexResponsesOptions>) -> Option<Number> {
    match o {
        Some(o) => o.stream.temperature,
        None => None,
    }
}

pub open spec fn asked_verbosity(o: Option<&OpenAICodexResponsesOptions>) -> Option<Seq<char>> {
    match o {
        Some(o) => opt_text(o.text_verbosity),
        None => None,
    }
}

pub open spec fn asked_choice(o: Option<&OpenAICodexResponsesOptions>) -> Option<Seq<char>> {
    match o {
        Some(o) => opt_text(o.tool_choice),
        None => None,
    }
}

pub open spec fn asked_tier(o: Option<&OpenAICodexResponsesOptions>) -> Option<Seq<char>> {
    match o {
        Some(o) => opt_text(o.service_tier),
        None => None,
    }
}

pub open spec fn asked_effort(o: Option<&OpenAICodexResponsesOptions>) -> Option<Seq<char>> {
    match o {
        Some(o) => opt_text(o.reasoning_effort),
        None => None,
    }
}

pub open spec fn asked_summary(o: Option<&OpenAICodexResponsesOptions>) -> Option<Seq<char>> {
    match o {
        Some(o) => opt_text(o.reasoning_summary),
        None => None,
    }
}

/// What an effort is sent as. No effort stands for the level that is off.
pub open spec fn codex_effort(model: Model, effort: Seq<char>) -> Seq<char> {
    if effort == "none"@ {
        text_or(mapped_level(model, "off"@), "none"@)
    } else {
        sent_level(model, effort)
    }
}

/// How a model is told to reason.
pub open spec fn reasoning_json(
    model: Model,
    effort: Option<Seq<char>>,
    summary: Option<Seq<char>>,
) -> Option<Json> {
    match effort {
        Some(effort) => Some(effort_json(codex_effort(model, effort), text_or(summary, "auto"@))),
        None => None,
    }
}

fn make_reasoning(model: &Model, effort: Option<&str>, summary: Option<&str>) -> (r: Option<Value>)
    ensures
        crate::json::opt_json(r) == reasoning_json(*model, opt_str(effort), opt_str(summary)),
{
    match effort {
        Some(effort) => {
            let sent = if str_eq(effort, "none") {
                match model.mapped_level("off") {
                    Some(off) => off,
                    None => "none".to_owned(),
                }
            } else {
                send_level(model, effort)
            };
            Some(make_effort(sent.as_str(), summary))
        },
        None => None,
    }
}

/// Everything besides the conversation that a request is made of.
pub struct Parameters {
    pub session: Option<Seq<char>>,
    pub properties: Pairs,
    pub immediate: Seq<Tool>,
    pub deferred: Seq<(Seq<char>, Tool)>,
    pub parse: spec_fn(Seq<char>) -> Option<Json>,
}

/// The body of a request.
pub open spec fn request_body(
    model: Model,
    context: Context,
    messages: Seq<Message>,
    options: Option<&OpenAICodexResponsesOptions>,
    p: Parameters,
) -> Json {
    let tools = tool_options(Some(false), strict_mode(model), grammar_tools(model));
    let compat = resolved(model);
    let c = Conversion {
        model,
        properties: p.properties,
        deferred: p.deferred,
        mode: deferred_mode(compat.supports_additional_tools, compat.supports_tool_search),
        tool_options: Some(tools),
        parse: p.parse,
    };
    Json::Object(
        no_entries().put("model"@, Json::Str(model.id@)).put("store"@, Json::Bool(false)).put(
            "stream"@,
            Json::Bool(true),
        ).put(
            "instructions"@,
            Json::Str(text_or(opt_text(context.system_prompt), "You are a helpful assistant."@)),
        ).put(
            "input"@,
            Json::Array(items_json(converted_items(context, messages, false, c))),
        ).put(
            "text"@,
            one_entry("verbosity"@, Json::Str(text_or(asked_verbosity(options), "low"@))),
        ).put("include"@, encrypted_content()).put("prompt_cache_key"@, str_or_null(p.session)).put(
            "tool_choice"@,
            Json::Str(text_or(asked_choice(options), "auto"@)),
        ).put("parallel_tool_calls"@, Json::Bool(true)).put_opt(
            "temperature"@,
            opt_number_json(asked_temperature(options)),
        ).put_opt("service_tier"@, opt_str_json(asked_tier(options))).put_opt(
            "tools"@,
            offered_tools(p.immediate, tools),
        ).put_opt(
            "reasoning"@,
            reasoning_json(model, asked_effort(options), asked_summary(options)),
        ),
    )
}

fn put_text_or(e: &mut Vec<(String, Value)>, key: &str, value: Option<&str>, otherwise: &str)
    ensures
        entries(final(e)@) == entries(old(e)@).put(
            key@,
            Json::Str(text_or(opt_str(value), otherwise@)),
        ),
{
    match value {
        Some(value) => put_str(e, key, value),
        None => put_str(e, key, otherwise),
    }
}

/// The body of a request. `messages` are those of the conversation as the model
/// takes them, `placement` says which tools are offered at once, and
/// `cache_session_id` is the session, cut to what may name a cached prompt.
pub fn build_request_body<P: Fn(&str) -> Option<Value>>(
    model: &Model,
    context: &Context,
    messages: &Vec<Message>,
    options: Option<&OpenAICodexResponsesOptions>,
    cache_session_id: Option<&str>,
    grammar_tool_input_properties: &Vec<(String, String)>,
    placement: ToolPlacement,
    parse: &P,
) -> (r: Value)
    requires
        is_parser(*parse),
    ensures
        r@ == request_body(
            *model,
            *context,
            messages@,
            options,
            (Parameters {
                session: opt_str(cache_session_id),
                properties: pairs(grammar_tool_input_properties@),
                immediate: placement.immediate@,
                deferred: named_tools(placement.deferred@),
                parse: parser_of(*parse),
            }),
        ),
{
    let tools = ConvertResponsesToolsOptions {
        strict: Some(false),
        supports_strict_mode: Some(compat_supports_strict_mode(model)),
        supports_openai_grammar_tools: Some(compat_supports_openai_grammar_tools(model)),
        defer_loading: None,
    };
    let compat = RequiredResponsesCompat::new(model);
    let mode = choose_deferred_mode(compat.supports_additional_tools, compat.supports_tool_search);
    let ToolPlacement { immediate, deferred } = placement;
    let input = convert_input(
        model,
        context,
        messages,
        false,
        grammar_tool_input_properties,
        deferred,
        mode,
        Some(tools),
        parse,
    );
    let (verbosity, choice, tier): (Option<&str>, Option<&str>, Option<&str>) = match options {
        Some(o) => (
            borrow_opt(&o.text_verbosity),
            borrow_opt(&o.tool_choice),
            borrow_opt(&o.service_tier),
        ),
        None => (None, None, None),
    };
    let (effort, summary): (Option<&str>, Option<&str>) = match options {
        Some(o) => (borrow_opt(&o.reasoning_effort), borrow_opt(&o.reasoning_summary)),
        None => (None, None),
    };
    let temperature: Option<Number> = match options {
        Some(o) => o.stream.temperature,
        None => None,
    };
    let mut e = new_entries();
    put_str(&mut e, "model", model.id.as_str());
    put_bool(&mut e, "store", false);
    put_bool(&mut e, "stream", true);
    put_text_or(
        &mut e,
        "instructions",
        borrow_opt(&context.system_prompt),
        "You are a helpful assistant.",
    );
    put(&mut e, "input", input);
    let mut text = new_entries();
    put_text_or(&mut text, "verbosity", verbosity, "low");
    put(&mut e, "text", object(text));
    put(&mut e, "include", make_encrypted_content());
    put(&mut e, "prompt_cache_key", string_or_null(cache_session_id));
    put_text_or(&mut e, "tool_choice", choice, "auto");
    put_bool(&mut e, "parallel_tool_calls", true);
    put_opt_number(&mut e, "temperature", temperature);
    put_opt_str(&mut e, "service_tier", tier);
    put_opt_value(&mut e, "tools", offer_tools(&immediate, tools));
    put_opt_value(&mut e, "reasoning", make_reasoning(model, effort, summary));
    object(e)
}

/// The body of a request, for callers that look at it by itself.
pub fn build_request_body_for_test<P: Fn(&str) -> Option<Value>>(
    model: &Model,
    context: &Context,
    messages: &Vec<Message>,
    options: Option<&OpenAICodexResponsesOptions>,
    cache_session_id: Option<&str>,
    grammar_tool_input_properties: &Vec<(String, String)>,
    placement: ToolPlacement,
    parse: &P,
) -> (r: Value)
    requires
        is_parser(*parse),
    ensures
        r@ == request_body(
            *model,
            *context,
            messages@,
            options,
            (Parameters {
                session: opt_str(cache_session_id),
                properties: pairs(grammar_tool_input_properties@),
                immediate: placement.immediate@,
                deferred: named_tools(placement.deferred@),
                parse: parser_of(*parse),
            }),
        ),
{
    build_request_body(
        model,
        context,
        messages,
        options,
        cache_session_id,
        grammar_tool_input_properties,
        placement,
        parse,
    )
}

pub open spec fn asked_headers(o: Option<&OpenAICodexResponsesOptions>) -> OptPairs {
    match o {
        Some(o) => match o.stream.request.headers {
            Some(h) => opt_headers(Some(&h)),
            None => opt_headers(None),
        },
        None => opt_headers(None),
    }
}

pub open spec fn asked_retention(o: Option<&OpenAICodexResponsesOptions>) -> Seq<char> {
    match o {
        Some(o) => text_or(opt_text(o.stream.cache_retention), "short"@),
        None => "short"@,
    }
}

/// The request that begins a stream, or why there is none: no key, or a key
/// that names no account.
pub open spec fn request(
    model: Model,
    context: Context,
    messages: Seq<Message>,
    options: Option<&OpenAICodexResponsesOptions>,
    api_key: Option<Seq<char>>,
    prompt_key: Option<Seq<char>>,
    placement: ToolPlacement,
    platform: (Seq<char>, Seq<char>),
    parse: spec_fn(Seq<char>) -> Option<Json>,
) -> Result<Request, Seq<char>> {
    match api_key {
        None => Err(no_key(model.provider@)),
        Some(key) => match account_of(key, parse) {
            Err(e) => Err(e),
            Ok(account) => {
                let session = cached_session(asked_retention(options), prompt_key);
                Ok(
                    Request {
                        url: codex_url(Some(model.base_url@)),
                        headers: sse_headers(
                            base_headers(
                                opt_list(model.headers),
                                asked_headers(options),
                                account,
                                key,
                                platform.0,
                                platform.1,
                            ),
                            session,
                        ),
                        body: request_body(
                            model,
                            context,
                            messages,
                            options,
                            Parameters {
                                session,
                                properties: grammar_properties(
                                    opt_tools(context.tools),
                                    grammar_tools(model),
                                ),
                                immediate: placement.immediate@,
                                deferred: named_tools(placement.deferred@),
                                parse,
                            },
                        ),
                    },
                )
            },
        },
    }
}

/// Prepares the request that begins a stream. `prompt_key` is the session, cut
/// to what may name a cached prompt; `os` and `arch` name the system and the
/// processor that the client runs on.
pub fn prepare_request<P: Fn(&str) -> Option<Value>>(
    model: &Model,
    context: &Context,
    messages: &Vec<Message>,
    options: Option<&OpenAICodexResponsesOptions>,
    api_key: Option<&str>,
    prompt_key: Option<&str>,
    placement: ToolPlacement,
    os: &str,
    arch: &str,
    parse: &P,
) -> (r: Result<ProviderRequest, String>)
    requires
        is_parser(*parse),
    ensures
        res_request(r) == request(
            *model,
            *context,
            messages@,
            options,
            opt_str(api_key),
            opt_str(prompt_key),
            placement,
            (os@, arch@),
            parser_of(*parse),
        ),
{
    let key = match api_key {
        Some(key) => key,
        None => {
            return Err(cat2("No API key for provider: ", model.provider.as_str()));
        },
    };
    let account = match extract_account_id(key, parse) {
        Ok(account) => account,
        Err(e) => {
            return Err(e);
        },
    };
    let properties = create_grammar_tool_input_properties(
        match &context.tools {
            Some(tools) => Some(tools),
            None => None,
        },
        compat_supports_openai_grammar_tools(model),
    );
    let wanted: Option<&str> = match options {
        Some(o) => borrow_opt(&o.stream.cache_retention),
        None => None,
    };
    let retention = resolve_cache_retention(wanted);
    let session = cache_session(retention.as_str(), prompt_key);
    let asked: Option<&ProviderHeaders> = match options {
        Some(o) => match &o.stream.request.headers {
            Some(h) => Some(h),
            None => None,
        },
        None => None,
    };
    let headers = build_sse_headers(
        &model.headers,
        asked,
        account.as_str(),
        key,
        session,
        os,
        arch,
    );
    let body = build_request_body(
        model,
        context,
        messages,
        options,
        session,
        &properties,
        placement,
        parse,
    );
    Ok(ProviderRequest { url: resolve_codex_url(Some(model.base_url.as_str())), headers, body })
}

/// The options with which a simple request is streamed. `base` holds the
/// options that every interface has, and `level` is the level of thinking that
/// was asked for, clamped to what the model supports.
pub fn stream_simple(base: StreamOptions, level: Option<&str>) -> (r: OpenAICodexResponsesOptions)
    ensures
        r.stream == base,
        opt_text(r.reasoning_effort) == effort_of(opt_str(level)),
        r.reasoning_summary is None,
        r.service_tier is None,
        r.text_verbosity is None,
        r.tool_choice is None,
{
    OpenAICodexResponsesOptions {
        stream: base,
        reasoning_effort: simple_effort(level),
        reasoning_summary: None,
        service_tier: None,
        text_verbosity: None,
        tool_choice: None,
    }
}

// ---------------------------------------------------------------------------
// Laws
// ---------------------------------------------------------------------------

proof fn lemma_url_kept(base: Seq<char>)
    requires
        "/codex/responses"@.is_suffix_of(base),
    ensures
        trimmed_end_of(base, '/') == base,
        !is_blank(base),
{
    reveal_strlit("/codex/responses");
    let tail = "/codex/responses"@;
    assert(base.subrange(base.len() - tail.len(), base.len() as int) == tail);
    assert(base.last() == tail.last());
    assert(base.last() == 's');
    let at = base.len() - tail.len() + 1;
    assert(base[at] == tail[1]);
    assert(base[at] == 'c');
    crate::text::lemma_not_blank(base, at);
}

/// An address that has been resolved stays as it is when it is resolved again.
pub proof fn law_resolved_url_stays(base_url: Option<Seq<char>>)
    ensures
        codex_url(Some(codex_url(base_url))) == codex_url(base_url),
{
    let url = codex_url(base_url);
    let raw = match base_url {
        Some(base) => if is_blank(base) {
            "https://chatgpt.com/backend-api"@
        } else {
            base
        },
        None => "https://chatgpt.com/backend-api"@,
    };
    let base = trimmed_end_of(raw, '/');
    let tail = "/codex/responses"@;
    assert(tail.is_suffix_of(url)) by {
        reveal_strlit("/codex/responses");
        reveal_strlit("/codex");
        reveal_strlit("/responses");
        if tail.is_suffix_of(base) {
        } else if "/codex"@.is_suffix_of(base) {
            assert(base.subrange(base.len() - 6, base.len() as int) == "/codex"@);
            assert(url.subrange(url.len() - tail.len(), url.len() as int) =~= tail) by {
                assert forall|i: int| 0 <= i < tail.len() implies url[url.len() - tail.len() + i]
                    == tail[i] by {
                    if i < 6 {
                        assert(base[base.len() - 6 + i] == "/codex"@[i]);
                    }
                }
            }
        } else {
            assert(url.subrange(url.len() - tail.len(), url.len() as int) =~= tail);
        }
    }
    lemma_url_kept(url);
}

} // verus!
