//! The request that begins a stream.
use vstd::prelude::*;
use vstd::string::*;
use super::messages::{
    messages_json, role_message, to_chat_messages, to_function_tools, tools_json, users_say_plainly,
};
use crate::api::finish::{res_request, ProviderRequest, Request};
use crate::api::headers::{
    find_name, has_name, name_index, new_pairs, opt_headers, opt_list, push_pair, set_header,
    with_header, OptPairs, Pairs,
};
use crate::api::openai_completions::messages::{opt_tools, takes_images};
use crate::api::openai_completions::request::effort_of;
use crate::json::{
    append_items, new_entries, new_items, no_entries, object, object1, one_entry, opt_number_json,
    opt_str_json, push_item, put, put_array, put_bool, put_opt_number, put_opt_str, put_str, string,
    Entries, EntriesSpec, Json, Value,
};
use crate::text::{
    borrow_opt, cat2, cat4, char_count, contains_string, decimal, decimal_text, opt_is, opt_str,
    opt_text, str_eq, take_chars, trim, trim_end_of, trimmed, trimmed_end_of, eq_ignore_ascii_case,
};
use crate::types::{
    mapped_level, opt_pairs, pairs, Context, Message, Model, ProviderHeaders, StreamOptions, Tool,
};

verus! {

// ---------------------------------------------------------------------------
// Options
// ---------------------------------------------------------------------------

#[derive(Clone, Debug, PartialEq, Eq)]
pub enum MistralToolChoice {
    Auto,
    NoTool,
    Any,
    Required,
    Function { name: String },
}

/// Options of a Mistral stream.
#[derive(Clone, Debug, Default)]
pub struct MistralOptions {
    pub stream: StreamOptions,
    pub tool_choice: Option<MistralToolChoice>,
    pub prompt_mode: Option<String>,
    pub reasoning_effort: Option<String>,
}

pub open spec fn choice_json(choice: MistralToolChoice) -> Json {
    match choice {
        MistralToolChoice::Auto => Json::Str("auto"@),
        MistralToolChoice::NoTool => Json::Str("none"@),
        MistralToolChoice::Any => Json::Str("any"@),
        MistralToolChoice::Required => Json::Str("required"@),
        MistralToolChoice::Function { name } => Json::Object(
            no_entries().put("type"@, Json::Str("function"@)).put(
                "function"@,
                one_entry("name"@, Json::Str(name@)),
            ),
        ),
    }
}

impl MistralToolChoice {
    pub fn to_value(&self) -> (r: Value)
        ensures
            r@ == choice_json(*self),
    {
        match self {
            MistralToolChoice::Auto => string("auto"),
            MistralToolChoice::NoTool => string("none"),
            MistralToolChoice::Any => string("any"),
            MistralToolChoice::Required => string("required"),
            MistralToolChoice::Function { name } => {
                let mut e = new_entries();
                put_str(&mut e, "type", "function");
                put(&mut e, "function", object1("name", string(name.as_str())));
                object(e)
            },
        }
    }
}

/// Whether the prompt is to be cached: there is a session, and caching is not
/// refused.
pub open spec fn caches_prompt(options: Option<&MistralOptions>) -> bool {
    match options {
        Some(o) => opt_text(o.stream.cache_retention) != Some("none"@) && o.stream.session_id
            is Some,
        None => false,
    }
}

fn should_use_prompt_caching(options: Option<&MistralOptions>) -> (r: bool)
    ensures
        r == caches_prompt(options),
{
    match options {
        Some(o) => !opt_is(borrow_opt(&o.stream.cache_retention), "none")
            && o.stream.session_id.is_some(),
        None => false,
    }
}

// ---------------------------------------------------------------------------
// Headers
// ---------------------------------------------------------------------------

/// The list with every header of a second list set in turn.
pub open spec fn merged(h: Pairs, overrides: Pairs) -> Pairs
    decreases overrides.len(),
{
    if overrides.len() == 0 {
        h
    } else {
        with_header(merged(h, overrides.drop_last()), overrides.last().0, overrides.last().1)
    }
}

/// The list without the first header of a name.
pub open spec fn without_header(h: Pairs, name: Seq<char>) -> Pairs {
    if has_name(h, name) {
        h.remove(name_index(h, name))
    } else {
        h
    }
}

/// The list with every header of a second list set in turn, where one without a
/// value takes the header away.
pub open spec fn merged_or_removed(h: Pairs, overrides: OptPairs) -> Pairs
    decreases overrides.len(),
{
    if overrides.len() == 0 {
        h
    } else {
        let before = merged_or_removed(h, overrides.drop_last());
        match overrides.last().1 {
            Some(value) => with_header(before, overrides.last().0, value),
            None => without_header(before, overrides.last().0),
        }
    }
}

fn apply_header_merge_simple(
    headers: &mut Vec<(String, String)>,
    overrides: Option<&Vec<(String, String)>>,
)
    ensures
        pairs(final(headers)@) == merged(
            pairs(old(headers)@),
            match overrides {
                Some(list) => pairs(list@),
                None => Seq::empty(),
            },
        ),
{
    if let Some(list) = overrides {
        let mut i: usize = 0;
        while i < list.len()
            invariant
                i <= list@.len(),
                pairs(headers@) == merged(pairs(old(headers)@), pairs(list@).take(i as int)),
            decreases list.len() - i,
        {
            proof {
                assert(pairs(list@).take(i + 1).drop_last() =~= pairs(list@).take(i as int));
            }
            set_header(headers, list[i].0.as_str(), list[i].1.as_str());
            i += 1;
        }
        proof {
            assert(pairs(list@).take(list@.len() as int) =~= pairs(list@));
        }
    }
}

fn apply_header_merge(headers: &mut Vec<(String, String)>, overrides: Option<&ProviderHeaders>)
    ensures
        pairs(final(headers)@) == merged_or_removed(pairs(old(headers)@), opt_headers(overrides)),
{
    if let Some(list) = overrides {
        let mut i: usize = 0;
        while i < list.len()
            invariant
                i <= list@.len(),
                pairs(headers@) == merged_or_removed(
                    pairs(old(headers)@),
                    opt_pairs(list@).take(i as int),
                ),
            decreases list.len() - i,
        {
            let ghost before = pairs(headers@);
            proof {
                assert(opt_pairs(list@).take(i + 1).drop_last() =~= opt_pairs(list@).take(
                    i as int,
                ));
            }
            match &list[i].1 {
                Some(value) => set_header(headers, list[i].0.as_str(), value.as_str()),
                None => {
                    if let Some(at) = find_name(headers, list[i].0.as_str()) {
                        headers.remove(at);
                        proof {
                            assert(pairs(headers@) =~= before.remove(at as int));
                        }
                    }
                },
            }
            i += 1;
        }
        proof {
            assert(opt_pairs(list@).take(list@.len() as int) =~= opt_pairs(list@));
        }
    }
}

/// Whether a list names a header, with a value or without.
pub open spec fn names_header(h: OptPairs, name: Seq<char>) -> bool {
    exists|i: int| 0 <= i < h.len() && crate::api::headers::same_name((#[trigger] h[i]).0, name)
}

fn has_header_override(headers: Option<&ProviderHeaders>, target: &str) -> (r: bool)
    ensures
        r == names_header(opt_headers(headers), target@),
{
    let list = match headers {
        Some(list) => list,
        None => {
            return false;
        },
    };
    let mut i: usize = 0;
    while i < list.len()
        invariant
            i <= list@.len(),
            headers == Some(list),
            forall|j: int|
                0 <= j < i ==> !crate::api::headers::same_name(
                    (#[trigger] opt_pairs(list@)[j]).0,
                    target@,
                ),
        decreases list.len() - i,
    {
        if eq_ignore_ascii_case(list[i].0.as_str(), target) {
            proof {
                let h = opt_pairs(list@)[i as int];
                assert(crate::api::headers::same_name(h.0, target@));
            }
            return true;
        }
        i += 1;
    }
    false
}

pub open spec fn asked_headers(options: Option<&MistralOptions>) -> OptPairs {
    match options {
        Some(o) => match o.stream.request.headers {
            Some(h) => opt_headers(Some(&h)),
            None => opt_headers(None),
        },
        None => opt_headers(None),
    }
}

pub open spec fn asked_session(options: Option<&MistralOptions>) -> Option<Seq<char>> {
    match options {
        Some(o) => opt_text(o.stream.session_id),
        None => None,
    }
}

/// The headers of a request. A session keeps to one machine by `x-affinity`,
/// unless that header is set or taken away already.
pub open spec fn request_headers(
    model: Model,
    api_key: Seq<char>,
    options: Option<&MistralOptions>,
    session: Option<Seq<char>>,
) -> Pairs {
    let first = Pairs::empty().push(("accept"@, "text/event-stream"@)).push(
        ("authorization"@, "Bearer "@ + api_key),
    ).push(("content-type"@, "application/json"@));
    let all = merged_or_removed(merged(first, opt_list(model.headers)), asked_headers(options));
    let explicit = has_name(opt_list(model.headers), "x-affinity"@) || names_header(
        asked_headers(options),
        "x-affinity"@,
    );
    if caches_prompt(options) && !explicit && session is Some {
        with_header(all, "x-affinity"@, session->0)
    } else {
        all
    }
}

pub fn build_mistral_headers(
    model: &Model,
    api_key: &str,
    options: Option<&MistralOptions>,
    session_id: Option<&str>,
) -> (r: Vec<(String, String)>)
    ensures
        pairs(r@) == request_headers(*model, api_key@, options, opt_str(session_id)),
{
    let mut headers = new_pairs();
    push_pair(&mut headers, "accept", "text/event-stream");
    push_pair(&mut headers, "authorization", cat2("Bearer ", api_key).as_str());
    push_pair(&mut headers, "content-type", "application/json");
    let own: Option<&Vec<(String, String)>> = match &model.headers {
        Some(list) => Some(list),
        None => None,
    };
    apply_header_merge_simple(&mut headers, own);
    let asked: Option<&ProviderHeaders> = match options {
        Some(o) => match &o.stream.request.headers {
            Some(h) => Some(h),
            None => None,
        },
        None => None,
    };
    apply_header_merge(&mut headers, asked);
    let in_model = match own {
        Some(list) => find_name(list, "x-affinity").is_some(),
        None => false,
    };
    let explicit = in_model || has_header_override(asked, "x-affinity");
    if should_use_prompt_caching(options) && !explicit {
        if let Some(session_id) = session_id {
            set_header(&mut headers, "x-affinity", session_id);
        }
    }
    headers
}

// ---------------------------------------------------------------------------
// Body
// ---------------------------------------------------------------------------

pub open spec fn prompt_json(prompt: Option<Seq<char>>) -> Seq<Json> {
    match prompt {
        Some(prompt) => Seq::<Json>::empty().push(role_message("system"@, Json::Str(prompt))),
        None => Seq::empty(),
    }
}

pub open spec fn tools_put(e: Entries, tools: Seq<Tool>) -> Entries {
    if tools.len() > 0 {
        e.put("tools"@, Json::Array(tools_json(tools)))
    } else {
        e
    }
}

pub open spec fn options_put(e: Entries, options: Option<&MistralOptions>) -> Entries {
    match options {
        None => e,
        Some(o) => {
            let asked = e.put_opt("temperature"@, opt_number_json(o.stream.temperature)).put_opt(
                "max_tokens"@,
                opt_number_json(o.stream.max_tokens),
            ).put_opt(
                "tool_choice"@,
                match o.tool_choice {
                    Some(choice) => Some(choice_json(choice)),
                    None => None,
                },
            ).put_opt("prompt_mode"@, opt_str_json(opt_text(o.prompt_mode))).put_opt(
                "reasoning_effort"@,
                opt_str_json(opt_text(o.reasoning_effort)),
            );
            if caches_prompt(options) {
                asked.put_opt("prompt_cache_key"@, opt_str_json(opt_text(o.stream.session_id)))
            } else {
                asked
            }
        },
    }
}

/// The body of a request.
pub open spec fn request_body(
    model: Model,
    context: Context,
    messages: Seq<Message>,
    options: Option<&MistralOptions>,
) -> Json {
    let e = no_entries().put("model"@, Json::Str(model.id@)).put("stream"@, Json::Bool(true)).put(
        "messages"@,
        Json::Array(
            prompt_json(opt_text(context.system_prompt)) + messages_json(
                messages,
                takes_images(model),
            ),
        ),
    );
    Json::Object(options_put(tools_put(e, opt_tools(context.tools)), options))
}

/// Builds the body of a request of messages that were prepared for the model.
pub fn build_chat_payload(
    model: &Model,
    context: &Context,
    messages: &Vec<Message>,
    options: Option<&MistralOptions>,
) -> (r: Value)
    requires
        takes_images(*model) ==> users_say_plainly(messages@),
    ensures
        r@ == request_body(*model, *context, messages@, options),
{
    let supports_images = contains_string(&model.input, "image");
    let chat = to_chat_messages(messages, supports_images);
    let mut all = new_items();
    if let Some(prompt) = &context.system_prompt {
        let mut e = new_entries();
        put_str(&mut e, "role", "system");
        put_str(&mut e, "content", prompt.as_str());
        push_item(&mut all, object(e));
    }
    append_items(&mut all, chat);
    let mut e = new_entries();
    put_str(&mut e, "model", model.id.as_str());
    put_bool(&mut e, "stream", true);
    put_array(&mut e, "messages", all);
    if let Some(tools) = &context.tools {
        if tools.len() > 0 {
            put_array(&mut e, "tools", to_function_tools(tools));
        }
    }
    if let Some(o) = options {
        put_opt_number(&mut e, "temperature", o.stream.temperature);
        put_opt_number(&mut e, "max_tokens", o.stream.max_tokens);
        if let Some(choice) = &o.tool_choice {
            put(&mut e, "tool_choice", choice.to_value());
        }
        put_opt_str(&mut e, "prompt_mode", borrow_opt(&o.prompt_mode));
        put_opt_str(&mut e, "reasoning_effort", borrow_opt(&o.reasoning_effort));
        if should_use_prompt_caching(options) {
            put_opt_str(&mut e, "prompt_cache_key", borrow_opt(&o.stream.session_id));
        }
    }
    object(e)
}

/// How long a request may take where nothing is asked for.
pub const DEFAULT_MISTRAL_TIMEOUT_MS: u64 = 60_000;

pub open spec fn timeout_of(options: Option<&MistralOptions>) -> u64 {
    match options {
        Some(o) => match o.stream.request.timeout_ms {
            Some(timeout) => timeout,
            None => DEFAULT_MISTRAL_TIMEOUT_MS,
        },
        None => DEFAULT_MISTRAL_TIMEOUT_MS,
    }
}

pub fn request_timeout_ms(options: Option<&MistralOptions>) -> (r: u64)
    ensures
        r == timeout_of(options),
{
    match options {
        Some(o) => match o.stream.request.timeout_ms {
            Some(timeout) => timeout,
            None => DEFAULT_MISTRAL_TIMEOUT_MS,
        },
        None => DEFAULT_MISTRAL_TIMEOUT_MS,
    }
}

/// The request that begins a stream, or that there is no key for it.
pub open spec fn request(
    model: Model,
    context: Context,
    messages: Seq<Message>,
    options: Option<&MistralOptions>,
    api_key: Option<Seq<char>>,
) -> Result<Request, Seq<char>> {
    match api_key {
        None => Err(crate::api::headers::no_key(model.provider@)),
        Some(key) => Ok(
            Request {
                url: trimmed_end_of(model.base_url@, '/') + "/v1/chat/completions"@,
                headers: request_headers(model, key, options, asked_session(options)),
                body: request_body(model, context, messages, options),
            },
        ),
    }
}

pub fn prepare_request(
    model: &Model,
    context: &Context,
    messages: &Vec<Message>,
    options: Option<&MistralOptions>,
    api_key: Option<&str>,
) -> (r: Result<ProviderRequest, String>)
    requires
        takes_images(*model) ==> users_say_plainly(messages@),
    ensures
        res_request(r) == request(*model, *context, messages@, options, opt_str(api_key)),
{
    let key = match api_key {
        Some(key) => key,
        None => {
            return Err(cat2("No API key for provider: ", model.provider.as_str()));
        },
    };
    let body = build_chat_payload(model, context, messages, options);
    let session: Option<&str> = match options {
        Some(o) => borrow_opt(&o.stream.session_id),
        None => None,
    };
    let headers = build_mistral_headers(model, key, options, session);
    let base = trim_end_of(model.base_url.as_str(), '/');
    Ok(ProviderRequest { url: cat2(base.as_str(), "/v1/chat/completions"), headers, body })
}

// ---------------------------------------------------------------------------
// Errors
// ---------------------------------------------------------------------------

/// The most characters of an error that are kept.
pub const MAX_MISTRAL_ERROR_BODY_CHARS: usize = 4000;

pub open spec fn truncated(text: Seq<char>, max_chars: nat) -> Seq<char> {
    if text.len() <= max_chars {
        text
    } else {
        text.take(max_chars as int) + "... [truncated "@ + decimal((text.len() - max_chars) as nat)
            + " chars]"@
    }
}

pub fn truncate_error_text(text: &str, max_chars: usize) -> (r: String)
    ensures
        r@ == truncated(text@, max_chars as nat),
{
    let n: usize = char_count(text);
    if n <= max_chars {
        return text.to_owned();
    }
    let kept = take_chars(text, max_chars);
    cat4(
        kept.as_str(),
        "... [truncated ",
        decimal_text((n - max_chars) as u128).as_str(),
        " chars]",
    )
}

/// What is said of an error that the provider answered with.
pub open spec fn error_text(status: Option<u64>, message: Seq<char>) -> Seq<char> {
    match status {
        Some(status) => "Mistral API error ("@ + decimal(status as nat) + "): "@ + if trimmed(
            message,
        ).len() > 0 {
            truncated(trimmed(message), MAX_MISTRAL_ERROR_BODY_CHARS as nat)
        } else {
            message
        },
        None => message,
    }
}

pub fn format_mistral_error(status: Option<u64>, message: &str) -> (r: String)
    ensures
        r@ == error_text(status, message@),
{
    match status {
        Some(status) => {
            let words = trim(message);
            let body = if words.as_str().is_empty() {
                message.to_owned()
            } else {
                truncate_error_text(words.as_str(), MAX_MISTRAL_ERROR_BODY_CHARS)
            };
            cat4(
                "Mistral API error (",
                decimal_text(status as u128).as_str(),
                "): ",
                body.as_str(),
            )
        },
        None => message.to_owned(),
    }
}

// ---------------------------------------------------------------------------
// Simple requests
// ---------------------------------------------------------------------------

/// Whether a model takes an effort rather than a prompt mode.
pub open spec fn takes_effort(model: Model) -> bool {
    model.id@ == "mistral-small-2603"@ || model.id@ == "mistral-small-latest"@ || model.id@
        == "mistral-medium-3.5"@
}

fn uses_reasoning_effort(model: &Model) -> (r: bool)
    ensures
        r == takes_effort(*model),
{
    str_eq(model.id.as_str(), "mistral-small-2603") || str_eq(
        model.id.as_str(),
        "mistral-small-latest",
    ) || str_eq(model.id.as_str(), "mistral-medium-3.5")
}

/// The effort of a level: what the model maps the level to, else a high one.
pub open spec fn effort_for(model: Model, level: Seq<char>) -> Seq<char> {
    match mapped_level(model, level) {
        Some(effort) => effort,
        None => "high"@,
    }
}

/// The options with which a simple request is streamed, or that there is no key.
/// `base` holds the options that every interface has, and `level` is the level
/// of thinking that was asked for, clamped to what the model supports.
pub fn stream_simple(
    model: &Model,
    base: StreamOptions,
    level: Option<&str>,
    api_key: Option<&str>,
) -> (r: Result<MistralOptions, String>)
    ensures
        match r {
            Ok(o) => api_key is Some && o.stream == base && o.tool_choice is None && ({
                let reasoning = effort_of(opt_str(level));
                let reasons = model.reasoning && reasoning is Some;
                &&& opt_text(o.prompt_mode) == if reasons && !takes_effort(*model) {
                    Some("reasoning"@)
                } else {
                    None
                }
                &&& opt_text(o.reasoning_effort) == if reasons && takes_effort(*model) {
                    Some(effort_for(*model, reasoning->0))
                } else {
                    None
                }
            }),
            Err(e) => api_key is None && e@ == crate::api::headers::no_key(model.provider@),
        },
{
    if api_key.is_none() {
        return Err(cat2("No API key for provider: ", model.provider.as_str()));
    }
    let reasoning: Option<&str> = if opt_is(level, "off") {
        None
    } else {
        level
    };
    let mut prompt_mode: Option<String> = None;
    let mut reasoning_effort: Option<String> = None;
    if let Some(wanted) = reasoning {
        if model.reasoning {
            if uses_reasoning_effort(model) {
                reasoning_effort = match model.mapped_level(wanted) {
                    Some(effort) => Some(effort),
                    None => Some("high".to_owned()),
                };
            } else {
                prompt_mode = Some("reasoning".to_owned());
            }
        }
    }
    Ok(MistralOptions { stream: base, tool_choice: None, prompt_mode, reasoning_effort })
}

} // verus!
