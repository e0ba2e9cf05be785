//! The request that begins a stream.
use vstd::prelude::*;
use vstd::string::*;
use super::compat::{get_compat, resolved, Compat, ResolvedOpenAICompletionsCompat};
use super::messages::opt_tools;
use super::params::{build_params, request_body, CompletionsInputs, OpenAICompletionsOptions};
use crate::api::constrained_sampling::{create_grammar_tool_input_properties, grammar_properties};
use crate::api::finish::{res_request, ProviderRequest, Request};
use crate::api::github_copilot_headers::{
    any_holds_image, build_copilot_dynamic_headers, copilot_headers, has_copilot_vision_input,
    CopilotDynamicHeadersParams,
};
use crate::api::headers::{
    append_pairs, cache_retention, cache_session, cached_session, client_key, clone_opt_pairs,
    get_client_api_key, new_pairs, opt_headers, opt_list, overridden, override_headers, push_pair,
    resolve_cache_retention, set_pairs, OptPairs, Pairs,
};
use crate::json::{is_parser, parser_of, with_entries, Json, Value};
use crate::text::{
    borrow_opt, cat2, opt_is, opt_str, opt_text, own_opt, str_eq, trim_end_of, trimmed_end_of,
};
use crate::types::{
    pairs, Context, Model, ProviderHeaders, SimpleStreamOptions, StreamOptions, ThinkingBudgets,
};

verus! {

/// The headers that name a session, in the form that the endpoint takes.
pub open spec fn session_put(h: Pairs, compat: Compat, session: Option<Seq<char>>) -> Pairs {
    match session {
        Some(id) => if !compat.send_session_affinity_headers {
            h
        } else if compat.session_affinity_format == "openrouter"@ {
            h.push(("x-session-id"@, id))
        } else {
            let named = if compat.session_affinity_format == "openai"@ {
                h.push(("session_id"@, id))
            } else {
                h
            };
            named.push(("x-client-request-id"@, id)).push(("x-session-affinity"@, id))
        },
        None => h,
    }
}

/// The headers of a client: those of the model, those that GitHub Copilot asks
/// for, those that name the session, and last those that are asked for.
pub open spec fn client_headers(
    model: Model,
    context: Context,
    compat: Compat,
    session: Option<Seq<char>>,
    overrides: OptPairs,
) -> Pairs {
    let own = opt_list(model.headers);
    let copilot = if model.provider@ == "github-copilot"@ {
        with_entries(
            own,
            copilot_headers(context.messages@, any_holds_image(context.messages@)),
        )
    } else {
        own
    };
    overridden(session_put(copilot, compat, session), overrides)
}

pub open spec fn asked_headers(o: Option<&OpenAICompletionsOptions>) -> OptPairs {
    match o {
        Some(o) => match o.stream.request.headers {
            Some(h) => opt_headers(Some(&h)),
            None => opt_headers(None),
        },
        None => opt_headers(None),
    }
}

pub open spec fn asked_retention(o: Option<&OpenAICompletionsOptions>) -> Option<Seq<char>> {
    match o {
        Some(o) => opt_text(o.stream.cache_retention),
        None => None,
    }
}

pub open spec fn asked_session(o: Option<&OpenAICompletionsOptions>) -> Option<Seq<char>> {
    match o {
        Some(o) => opt_text(o.stream.session_id),
        None => None,
    }
}

/// The grammar properties of the tools of a request.
pub open spec fn tool_properties(context: Context, model: Model) -> Pairs {
    grammar_properties(opt_tools(context.tools), resolved(model).supports_openai_grammar_tools)
}

/// The request that begins a stream, or that there is no key for it.
pub open spec fn request(
    model: Model,
    context: Context,
    options: Option<&OpenAICompletionsOptions>,
    api_key: Option<Seq<char>>,
    environment: Option<Seq<char>>,
    inputs: CompletionsInputs,
    parse: spec_fn(Seq<char>) -> Option<Json>,
) -> Result<Request, Seq<char>> {
    match client_key(model.provider@, api_key, asked_headers(options)) {
        Err(e) => Err(e),
        Ok(key) => {
            let compat = resolved(model);
            let retention = cache_retention(asked_retention(options), environment);
            let session = cached_session(retention, asked_session(options));
            Ok(
                Request {
                    url: trimmed_end_of(model.base_url@, '/') + "/chat/completions"@,
                    headers: Pairs::empty().push(("Authorization"@, "Bearer "@ + key))
                        + client_headers(model, context, compat, session, asked_headers(options)),
                    body: request_body(
                        model,
                        context,
                        options,
                        compat,
                        retention,
                        tool_properties(context, model),
                        inputs,
                        parse,
                    ),
                },
            )
        },
    }
}

fn put_session(
    h: &mut Vec<(String, String)>,
    compat: &ResolvedOpenAICompletionsCompat,
    session: Option<&str>,
)
    ensures
        pairs(final(h)@) == session_put(pairs(old(h)@), compat@, opt_str(session)),
{
    if let Some(id) = session {
        if compat.send_session_affinity_headers {
            if str_eq(compat.session_affinity_format.as_str(), "openrouter") {
                push_pair(h, "x-session-id", id);
            } else {
                if str_eq(compat.session_affinity_format.as_str(), "openai") {
                    push_pair(h, "session_id", id);
                }
                push_pair(h, "x-client-request-id", id);
                push_pair(h, "x-session-affinity", id);
            }
        }
    }
}

fn make_client_headers(
    model: &Model,
    context: &Context,
    compat: &ResolvedOpenAICompletionsCompat,
    session: Option<&str>,
    overrides: Option<&ProviderHeaders>,
) -> (r: Vec<(String, String)>)
    ensures
        pairs(r@) == client_headers(
            *model,
            *context,
            compat@,
            opt_str(session),
            opt_headers(overrides),
        ),
{
    let mut h = clone_opt_pairs(&model.headers);
    if str_eq(model.provider.as_str(), "github-copilot") {
        let has_images = has_copilot_vision_input(&context.messages);
        let copilot = build_copilot_dynamic_headers(
            CopilotDynamicHeadersParams { messages: &context.messages, has_images },
        );
        set_pairs(&mut h, &copilot);
    }
    put_session(&mut h, compat, session);
    override_headers(&mut h, overrides);
    h
}

/// Prepares the request that begins a stream. `environment` is the value of
/// `PI_CACHE_RETENTION`.
pub fn prepare_request<P: Fn(&str) -> Option<Value>>(
    model: &Model,
    context: &Context,
    options: Option<&OpenAICompletionsOptions>,
    api_key: Option<&str>,
    environment: Option<&str>,
    inputs: &CompletionsInputs,
    parse: &P,
) -> (r: Result<ProviderRequest, String>)
    requires
        is_parser(*parse),
    ensures
        res_request(r) == request(
            *model,
            *context,
            options,
            opt_str(api_key),
            opt_str(environment),
            *inputs,
            parser_of(*parse),
        ),
{
    let asked: Option<&ProviderHeaders> = match options {
        Some(o) => match &o.stream.request.headers {
            Some(h) => Some(h),
            None => None,
        },
        None => None,
    };
    let key = match get_client_api_key(model.provider.as_str(), api_key, asked) {
        Ok(key) => key,
        Err(e) => {
            return Err(e);
        },
    };
    let compat = get_compat(model);
    let tools = match &context.tools {
        Some(tools) => Some(tools),
        None => None,
    };
    let properties = create_grammar_tool_input_properties(
        tools,
        compat.supports_openai_grammar_tools,
    );
    let (wanted, session_id) = match options {
        Some(o) => (borrow_opt(&o.stream.cache_retention), borrow_opt(&o.stream.session_id)),
        None => (None, None),
    };
    let retention = resolve_cache_retention(wanted, environment);
    let session = cache_session(retention.as_str(), session_id);
    let body = build_params(
        model,
        context,
        options,
        &compat,
        retention.as_str(),
        &properties,
        inputs,
        parse,
    );
    let mut headers = new_pairs();
    push_pair(&mut headers, "Authorization", cat2("Bearer ", key.as_str()).as_str());
    let client = make_client_headers(model, context, &compat, session, asked);
    append_pairs(&mut headers, &client);
    let base = trim_end_of(model.base_url.as_str(), '/');
    Ok(ProviderRequest { url: cat2(base.as_str(), "/chat/completions"), headers, body })
}

/// The effort that a clamped level of thinking asks for.
pub open spec fn effort_of(level: Option<Seq<char>>) -> Option<Seq<char>> {
    if level == Some("off"@) {
        None
    } else {
        level
    }
}

pub open spec fn simple_budgets(o: Option<&SimpleStreamOptions>) -> Option<ThinkingBudgets> {
    match o {
        Some(o) => o.thinking_budgets,
        None => None,
    }
}

/// The options with which a simple request is streamed. `base` holds the
/// options that every interface has, and `level` is the level of thinking that
/// was asked for, clamped to what the model supports.
pub fn stream_simple(
    base: StreamOptions,
    options: Option<&SimpleStreamOptions>,
    level: Option<&str>,
) -> (r: OpenAICompletionsOptions)
    ensures
        r.stream == base,
        r.tool_choice is None,
        opt_text(r.reasoning_effort) == effort_of(opt_str(level)),
        r.thinking_budgets == simple_budgets(options),
{
    let reasoning_effort = if opt_is(level, "off") {
        None
    } else {
        own_opt(level)
    };
    let thinking_budgets = match options {
        Some(o) => o.thinking_budgets,
        None => None,
    };
    OpenAICompletionsOptions { stream: base, tool_choice: None, reasoning_effort, thinking_budgets }
}

} // verus!
