//! The request that begins a stream.
use vstd::prelude::*;
use vstd::string::*;
use super::compat::{
    cache_ttl, compat_of, control_json, get_cache_control, is_adaptive, make_sent_name,
    marker_of, sent_name, thinks_adaptively, CacheControl, RequiredAnthropicCompat,
};
use super::messages::{convert_messages, convert_tools, messages_json, tools_json, Setting};
use crate::api::finish::{outcome, res_request, ProviderRequest, Request};
use crate::api::github_copilot_headers::{
    any_holds_image, build_copilot_dynamic_headers, copilot_headers, has_copilot_vision_input,
    CopilotDynamicHeadersParams,
};
use crate::api::headers::{
    cache_retention, cache_session, cached_session, clone_opt_pairs, gives_header, has_header,
    new_pairs, no_key, opt_headers, opt_list, overridden, override_headers, push_pair,
    resolve_cache_retention, set_pairs, OptPairs, Pairs,
};
use crate::api::openai_completions::messages::opt_tools;
use crate::api::openai_responses_shared::convert::flag_or;
use crate::json::{
    append_items, entries, get_str, items, new_entries, new_items, no_entries, object, object1,
    one_entry, opt_number_json, push_item, put, put_array, put_bool, put_object, put_opt_number,
    put_str, str_at, string, with_entries, Entries, EntriesSpec, Json, Value,
};
use crate::number::{difference, greater, lesser, whole, Number};
use crate::text::{
    borrow_opt, cat2, cat3, contains, contains_text, join, joined, lemma_texts_empty, opt_str,
    opt_text, push_text, str_eq, texts, trim_end_of, trimmed_end_of,
};
use crate::types::{
    level_is_null, mapped_level, pairs, Context, Message, Model, ProviderHeaders, SeriesName, StreamOptions,
    Tool, ToolPlacement,
};

verus! {

// ---------------------------------------------------------------------------
// Options
// ---------------------------------------------------------------------------

pub type AnthropicEffort = String;

pub type AnthropicThinkingDisplay = String;

#[derive(Clone, Debug, PartialEq, Eq)]
pub enum AnthropicToolChoice {
    Auto,
    Any,
    NoTool,
    Tool { name: String },
}

/// Options of an Anthropic stream.
#[derive(Clone, Debug, Default)]
pub struct AnthropicOptions {
    pub stream: StreamOptions,
    /// Whether the model thinks before it answers; nothing is sent where this is
    /// not said.
    pub thinking_enabled: Option<bool>,
    /// The tokens that a model may think for; 1024 where this is not said.
    pub thinking_budget_tokens: Option<Number>,
    /// The effort of a model that decides for itself how much to think.
    pub effort: Option<AnthropicEffort>,
    /// How thoughts are shown; summarized where this is not said.
    pub thinking_display: Option<AnthropicThinkingDisplay>,
    /// Whether a model that thinks to a budget may think between tool calls; it
    /// may where this is not said.
    pub interleaved_thinking: Option<bool>,
    pub tool_choice: Option<AnthropicToolChoice>,
}

pub open spec fn choice_json(choice: AnthropicToolChoice) -> Json {
    match choice {
        AnthropicToolChoice::Auto => one_entry("type"@, Json::Str("auto"@)),
        AnthropicToolChoice::Any => one_entry("type"@, Json::Str("any"@)),
        AnthropicToolChoice::NoTool => one_entry("type"@, Json::Str("none"@)),
        AnthropicToolChoice::Tool { name } => Json::Object(
            no_entries().put("type"@, Json::Str("tool"@)).put("name"@, Json::Str(name@)),
        ),
    }
}

impl AnthropicToolChoice {
    pub fn to_value(&self) -> (r: Value)
        ensures
            r@ == choice_json(*self),
    {
        match self {
            AnthropicToolChoice::Auto => object1("type", string("auto")),
            AnthropicToolChoice::Any => object1("type", string("any")),
            AnthropicToolChoice::NoTool => object1("type", string("none")),
            AnthropicToolChoice::Tool { name } => {
                let mut e = new_entries();
                put_str(&mut e, "type", "tool");
                put_str(&mut e, "name", name.as_str());
                object(e)
            },
        }
    }
}

// ---------------------------------------------------------------------------
// Keys
// ---------------------------------------------------------------------------

/// Whether a request is authorised, by a key or by a header.
pub open spec fn is_authorised(api_key: Option<Seq<char>>, headers: OptPairs) -> bool {
    (api_key matches Some(key) && key.len() > 0) || gives_header(headers, "authorization"@)
        || gives_header(headers, "x-api-key"@) || gives_header(headers, "cf-aig-authorization"@)
}

pub fn assert_request_auth(
    provider: &str,
    api_key: Option<&str>,
    headers: Option<&ProviderHeaders>,
) -> (r: Result<(), String>)
    ensures
        outcome(r) == if is_authorised(opt_str(api_key), opt_headers(headers)) {
            None
        } else {
            Some(no_key(provider@))
        },
{
    if let Some(key) = api_key {
        if !key.is_empty() {
            return Ok(());
        }
    }
    if has_header(headers, "authorization") || has_header(headers, "x-api-key") || has_header(
        headers,
        "cf-aig-authorization",
    ) {
        return Ok(());
    }
    Err(cat2("No API key for provider: ", provider))
}

/// Whether a key is a token of a subscription.
pub open spec fn is_oauth(api_key: Option<Seq<char>>) -> bool {
    api_key matches Some(key) && contains_text(key, "sk-ant-oat"@)
}

pub fn is_oauth_token(api_key: Option<&str>) -> (r: bool)
    ensures
        r == is_oauth(opt_str(api_key)),
{
    match api_key {
        Some(key) => contains(key, "sk-ant-oat"),
        None => false,
    }
}

// ---------------------------------------------------------------------------
// Headers
// ---------------------------------------------------------------------------

pub open spec fn key_or_empty(api_key: Option<Seq<char>>) -> Seq<char> {
    match api_key {
        Some(key) => key,
        None => ""@,
    }
}

pub open spec fn key_put(h: Pairs, api_key: Option<Seq<char>>) -> Pairs {
    match api_key {
        Some(key) => h.push(("x-api-key"@, key)),
        None => h,
    }
}

/// The headers that authorise a request.
pub open spec fn authority_put(
    h: Pairs,
    series: SeriesName,
    api_key: Option<Seq<char>>,
    oauth: bool,
    copilot: bool,
    features: Seq<Seq<char>>,
) -> Pairs {
    let bearer = ("Authorization"@, "Bearer "@ + key_or_empty(api_key));
    if copilot {
        h.push(bearer)
    } else if oauth {
        let all = Seq::<Seq<char>>::empty().push(
            series.id@ + "-code-20250219"@,
        ).push("oauth-2025-04-20"@) + features;
        h.push(bearer).push(("anthropic-beta"@, joined(all, ","@))).push(
            ("user-agent"@, series.id@ + "-cli/2.1.75"@),
        ).push(("x-app"@, "cli"@))
    } else if features.len() > 0 {
        key_put(h.push(("anthropic-beta"@, joined(features, ","@))), api_key)
    } else {
        key_put(h, api_key)
    }
}

/// The headers of a request. Those of the model come over the first ones, those
/// that are made for the request over these, and those that are asked for over
/// all.
pub open spec fn request_headers(
    model: Model,
    api_key: Option<Seq<char>>,
    oauth: bool,
    copilot: bool,
    features: Seq<Seq<char>>,
    dynamic: Pairs,
    asked: OptPairs,
    session: Option<Seq<char>>,
) -> Pairs {
    let first = Pairs::empty().push(("accept"@, "application/json"@)).push(
        ("anthropic-dangerous-direct-browser-access"@, "true"@),
    ).push(("anthropic-version"@, "2023-06-01"@));
    let authorised = authority_put(first, model.anthropic_series, api_key, oauth, copilot, features);
    let affine = if !oauth && !copilot && session is Some && compat_of(
        model,
    ).send_session_affinity_headers {
        authorised.push(("x-session-affinity"@, session->0))
    } else {
        authorised
    };
    overridden(with_entries(with_entries(affine, opt_list(model.headers)), dynamic), asked)
}

fn put_key(h: &mut Vec<(String, String)>, api_key: Option<&str>)
    ensures
        pairs(final(h)@) == key_put(pairs(old(h)@), opt_str(api_key)),
{
    if let Some(key) = api_key {
        push_pair(h, "x-api-key", key);
    }
}

fn put_authority(
    h: &mut Vec<(String, String)>,
    series: &SeriesName,
    api_key: Option<&str>,
    is_oauth: bool,
    is_copilot: bool,
    beta_features: &Vec<String>,
)
    ensures
        pairs(final(h)@) == authority_put(
            pairs(old(h)@),
            *series,
            opt_str(api_key),
            is_oauth,
            is_copilot,
            texts(beta_features@),
        ),
{
    let key = match api_key {
        Some(key) => key,
        None => "",
    };
    proof {
        assert(texts(beta_features@).len() == beta_features@.len());
    }
    if is_copilot {
        push_pair(h, "Authorization", cat2("Bearer ", key).as_str());
    } else if is_oauth {
        push_pair(h, "Authorization", cat2("Bearer ", key).as_str());
        let mut all: Vec<String> = Vec::new();
        proof {
            lemma_texts_empty();
            assert(texts(all@) =~= Seq::<Seq<char>>::empty());
        }
        push_text(&mut all, cat2(series.id.as_str(), "-code-20250219"));
        push_text(&mut all, "oauth-2025-04-20".to_owned());
        let ghost two = texts(all@);
        let mut i: usize = 0;
        proof {
            assert(two + texts(beta_features@).take(0) =~= two);
        }
        while i < beta_features.len()
            invariant
                i <= beta_features@.len(),
                texts(all@) == two + texts(beta_features@).take(i as int),
            decreases beta_features.len() - i,
        {
            push_text(&mut all, beta_features[i].clone());
            proof {
                assert(two + texts(beta_features@).take(i + 1) =~= (two + texts(
                    beta_features@,
                ).take(i as int)).push(beta_features@[i as int]@));
            }
            i += 1;
        }
        proof {
            assert(texts(beta_features@).take(beta_features@.len() as int) =~= texts(
                beta_features@,
            ));
        }
        push_pair(h, "anthropic-beta", join(&all, ",").as_str());
        push_pair(h, "user-agent", cat2(series.id.as_str(), "-cli/2.1.75").as_str());
        push_pair(h, "x-app", "cli");
    } else if beta_features.len() > 0 {
        push_pair(h, "anthropic-beta", join(beta_features, ",").as_str());
        put_key(h, api_key);
    } else {
        put_key(h, api_key);
    }
}

pub fn build_anthropic_headers(
    model: &Model,
    api_key: Option<&str>,
    is_oauth: bool,
    is_copilot: bool,
    beta_features: &Vec<String>,
    dynamic_headers: &Vec<(String, String)>,
    options_headers: Option<&ProviderHeaders>,
    session_id: Option<&str>,
) -> (r: Vec<(String, String)>)
    ensures
        pairs(r@) == request_headers(
            *model,
            opt_str(api_key),
            is_oauth,
            is_copilot,
            texts(beta_features@),
            pairs(dynamic_headers@),
            opt_headers(options_headers),
            opt_str(session_id),
        ),
{
    let mut h = new_pairs();
    push_pair(&mut h, "accept", "application/json");
    push_pair(&mut h, "anthropic-dangerous-direct-browser-access", "true");
    push_pair(&mut h, "anthropic-version", "2023-06-01");
    put_authority(&mut h, &model.anthropic_series, api_key, is_oauth, is_copilot, beta_features);
    if !is_oauth && !is_copilot {
        if let Some(session_id) = session_id {
            if RequiredAnthropicCompat::new(model).send_session_affinity_headers {
                push_pair(&mut h, "x-session-affinity", session_id);
            }
        }
    }
    let own = clone_opt_pairs(&model.headers);
    set_pairs(&mut h, &own);
    set_pairs(&mut h, dynamic_headers);
    override_headers(&mut h, options_headers);
    h
}

/// The features that a request asks for by name.
pub open spec fn features_of(model: Model, context: Context, interleaved: Option<bool>) -> Seq<
    Seq<char>,
> {
    let fine = if opt_tools(context.tools).len() > 0 && !compat_of(
        model,
    ).supports_eager_tool_input_streaming {
        Seq::<Seq<char>>::empty().push("fine-grained-tool-streaming-2025-05-14"@)
    } else {
        Seq::<Seq<char>>::empty()
    };
    if flag_or(interleaved, true) && model.compat is Some && !is_adaptive(model) {
        fine.push("interleaved-thinking-2025-05-14"@)
    } else {
        fine
    }
}

fn list_features(model: &Model, context: &Context, interleaved: Option<bool>) -> (r: Vec<String>)
    ensures
        texts(r@) == features_of(*model, *context, interleaved),
{
    let mut r: Vec<String> = Vec::new();
    proof {
        lemma_texts_empty();
        assert(texts(r@) =~= Seq::<Seq<char>>::empty());
    }
    let has_tools = match &context.tools {
        Some(tools) => tools.len() > 0,
        None => false,
    };
    if has_tools && !RequiredAnthropicCompat::new(model).supports_eager_tool_input_streaming {
        push_text(&mut r, "fine-grained-tool-streaming-2025-05-14".to_owned());
    }
    let wanted = match interleaved {
        Some(wanted) => wanted,
        None => true,
    };
    if wanted && model.compat.is_some() && !thinks_adaptively(model) {
        push_text(&mut r, "interleaved-thinking-2025-05-14".to_owned());
    }
    r
}

// ---------------------------------------------------------------------------
// Body
// ---------------------------------------------------------------------------

pub open spec fn tools_of(list: Seq<(String, Tool)>) -> Seq<Tool> {
    Seq::new(list.len(), |i: int| list[i].1)
}

/// The tools that are offered at once. Where there would be none, all are.
pub open spec fn first_tools(p: ToolPlacement) -> Seq<Tool> {
    if p.immediate@.len() == 0 {
        tools_of(p.deferred@)
    } else {
        p.immediate@
    }
}

/// The tools that are loaded later.
pub open spec fn later_tools(p: ToolPlacement) -> Seq<Tool> {
    if p.immediate@.len() == 0 {
        Seq::empty()
    } else {
        tools_of(p.deferred@)
    }
}

pub open spec fn sent_names(tools: Seq<Tool>, oauth: bool) -> Seq<Seq<char>> {
    Seq::new(tools.len(), |i: int| sent_name(tools[i].name@, oauth))
}

pub open spec fn system_block(text: Seq<char>, marker: Option<Json>) -> Json {
    Json::Object(
        no_entries().put("type"@, Json::Str("text"@)).put("text"@, Json::Str(text)).put_opt(
            "cache_control"@,
            marker,
        ),
    )
}

/// How Anthropic's own client introduces itself.
pub open spec fn identity(series: SeriesName) -> Seq<char> {
    "You are "@ + series.title@ + " Code, Anthropic's official CLI for "@ + series.title@ + "."@
}

/// The system prompt, after the identity that a subscription asks for.
pub open spec fn system_blocks(
    series: SeriesName,
    prompt: Option<Seq<char>>,
    oauth: bool,
    marker: Option<Json>,
) -> Seq<Json> {
    let first = if oauth {
        Seq::<Json>::empty().push(system_block(identity(series), marker))
    } else {
        Seq::<Json>::empty()
    };
    match prompt {
        Some(prompt) => first.push(system_block(prompt, marker)),
        None => first,
    }
}

pub open spec fn tools_put(
    e: Entries,
    p: ToolPlacement,
    oauth: bool,
    c: RequiredAnthropicCompat,
    marker: Option<Json>,
) -> Entries {
    if first_tools(p).len() == 0 && later_tools(p).len() == 0 {
        e
    } else {
        e.put(
            "tools"@,
            Json::Array(
                tools_json(
                    first_tools(p),
                    oauth,
                    c.supports_eager_tool_input_streaming,
                    c.supports_strict_tools,
                    if c.supports_cache_control_on_tools {
                        marker
                    } else {
                        None
                    },
                    false,
                ) + tools_json(
                    later_tools(p),
                    oauth,
                    c.supports_eager_tool_input_streaming,
                    c.supports_strict_tools,
                    None,
                    true,
                ),
            ),
        )
    }
}

pub open spec fn display_of(o: AnthropicOptions) -> Seq<char> {
    match opt_text(o.thinking_display) {
        Some(display) => display,
        None => "summarized"@,
    }
}

/// How a model is told to think.
pub open spec fn thinking_put(e: Entries, model: Model, options: Option<&AnthropicOptions>) ->
    Entries {
    match options {
        None => e,
        Some(o) => if !model.reasoning || o.thinking_enabled is None {
            e
        } else if o.thinking_enabled == Some(false) {
            if level_is_null(model, "off"@) {
                e
            } else {
                e.put("thinking"@, one_entry("type"@, Json::Str("disabled"@)))
            }
        } else if is_adaptive(model) {
            e.put(
                "thinking"@,
                Json::Object(
                    no_entries().put("type"@, Json::Str("adaptive"@)).put(
                        "display"@,
                        Json::Str(display_of(*o)),
                    ),
                ),
            ).put_opt(
                "output_config"@,
                match opt_text(o.effort) {
                    Some(effort) => Some(one_entry("effort"@, Json::Str(effort))),
                    None => None,
                },
            )
        } else {
            e.put(
                "thinking"@,
                Json::Object(
                    no_entries().put("type"@, Json::Str("enabled"@)).put(
                        "budget_tokens"@,
                        Json::Number(
                            match o.thinking_budget_tokens {
                                Some(budget) => budget,
                                None => whole(1024),
                            },
                        ),
                    ).put("display"@, Json::Str(display_of(*o))),
                ),
            )
        },
    }
}

pub open spec fn rest_put(e: Entries, options: Option<&AnthropicOptions>) -> Entries {
    match options {
        None => e,
        Some(o) => e.put_opt(
            "metadata"@,
            match o.stream.metadata {
                Some(metadata) => match str_at(entries(metadata@), "user_id"@) {
                    Some(user) => Some(one_entry("user_id"@, Json::Str(user))),
                    None => None,
                },
                None => None,
            },
        ).put_opt(
            "tool_choice"@,
            match o.tool_choice {
                Some(choice) => Some(choice_json(choice)),
                None => None,
            },
        ),
    }
}

pub open spec fn asked_retention(o: Option<&AnthropicOptions>) -> Option<Seq<char>> {
    match o {
        Some(o) => opt_text(o.stream.cache_retention),
        None => None,
    }
}

pub open spec fn max_tokens_of(model: Model, o: Option<&AnthropicOptions>) -> Number {
    match o {
        Some(o) => match o.stream.max_tokens {
            Some(n) => n,
            None => model.max_tokens,
        },
        None => model.max_tokens,
    }
}

/// The temperature that is sent: none while the model thinks, and none where it
/// takes none.
pub open spec fn temperature_of(model: Model, o: Option<&AnthropicOptions>) -> Option<Number> {
    match o {
        Some(o) => if o.thinking_enabled != Some(true) && compat_of(model).supports_temperature {
            o.stream.temperature
        } else {
            None
        },
        None => None,
    }
}

pub open spec fn marker_for(model: Model, o: Option<&AnthropicOptions>, environment: Option<
    Seq<char>,
>) -> Option<Json> {
    match cache_ttl(model, cache_retention(asked_retention(o), environment)) {
        Some(ttl) => Some(control_json(ttl)),
        None => None,
    }
}

/// The body of a request.
pub open spec fn request_body(
    model: Model,
    context: Context,
    oauth: bool,
    options: Option<&AnthropicOptions>,
    environment: Option<Seq<char>>,
    messages: Seq<Message>,
    placement: ToolPlacement,
) -> Json {
    let marker = marker_for(model, options, environment);
    let c = compat_of(model);
    let head = no_entries().put("model"@, Json::Str(model.id@)).put(
        "messages"@,
        Json::Array(
            messages_json(
                messages,
                Setting {
                    oauth,
                    allow_empty_signature: c.allow_empty_signature,
                    deferred: sent_names(later_tools(placement), oauth),
                },
                marker,
            ),
        ),
    ).put("max_tokens"@, Json::Number(max_tokens_of(model, options))).put(
        "stream"@,
        Json::Bool(true),
    );
    let system = system_blocks(
        model.anthropic_series,
        opt_text(context.system_prompt),
        oauth,
        marker,
    );
    let prompted = head.put_if(system.len() > 0, "system"@, Json::Array(system)).put_opt(
        "temperature"@,
        opt_number_json(temperature_of(model, options)),
    );
    Json::Object(
        rest_put(
            thinking_put(tools_put(prompted, placement, oauth, c, marker), model, options),
            options,
        ),
    )
}

fn convert_deferred(
    list: &Vec<(String, Tool)>,
    is_oauth_token: bool,
    c: &RequiredAnthropicCompat,
    control: Option<&CacheControl>,
    defer_loading: bool,
) -> (r: Vec<Value>)
    ensures
        items(r@) == tools_json(
            tools_of(list@),
            is_oauth_token,
            c.supports_eager_tool_input_streaming,
            c.supports_strict_tools,
            marker_of(control),
            defer_loading,
        ),
{
    let ghost all = tools_json(
        tools_of(list@),
        is_oauth_token,
        c.supports_eager_tool_input_streaming,
        c.supports_strict_tools,
        marker_of(control),
        defer_loading,
    );
    let mut r = new_items();
    let mut i: usize = 0;
    while i < list.len()
        invariant
            i <= list@.len(),
            all == tools_json(
                tools_of(list@),
                is_oauth_token,
                c.supports_eager_tool_input_streaming,
                c.supports_strict_tools,
                marker_of(control),
                defer_loading,
            ),
            items(r@) == all.take(i as int),
        decreases list.len() - i,
    {
        let own = if i == list.len() - 1 {
            control
        } else {
            None
        };
        let tool = super::messages::convert_tool(
            &list[i].1,
            is_oauth_token,
            c.supports_eager_tool_input_streaming,
            c.supports_strict_tools,
            own,
            defer_loading,
        );
        proof {
            assert(all[i as int] == tool@);
            assert(all.take(i + 1) =~= all.take(i as int).push(all[i as int]));
        }
        push_item(&mut r, tool);
        i += 1;
    }
    proof {
        assert(all.take(list@.len() as int) =~= all);
    }
    r
}

fn list_later_names(placement: &ToolPlacement, is_oauth_token: bool) -> (r: Vec<String>)
    ensures
        texts(r@) == sent_names(later_tools(*placement), is_oauth_token),
{
    let mut r: Vec<String> = Vec::new();
    let ghost all = sent_names(tools_of(placement.deferred@), is_oauth_token);
    proof {
        lemma_texts_empty();
        assert(texts(r@) =~= Seq::<Seq<char>>::empty());
        assert(sent_names(Seq::empty(), is_oauth_token) =~= Seq::<Seq<char>>::empty());
    }
    if placement.immediate.len() == 0 {
        return r;
    }
    let mut i: usize = 0;
    while i < placement.deferred.len()
        invariant
            i <= placement.deferred@.len(),
            all == sent_names(tools_of(placement.deferred@), is_oauth_token),
            texts(r@) == all.take(i as int),
        decreases placement.deferred.len() - i,
    {
        let name = make_sent_name(placement.deferred[i].1.name.as_str(), is_oauth_token);
        proof {
            assert(all[i as int] == name@);
            assert(all.take(i + 1) =~= all.take(i as int).push(all[i as int]));
        }
        push_text(&mut r, name);
        i += 1;
    }
    proof {
        assert(all.take(placement.deferred@.len() as int) =~= all);
    }
    r
}

fn put_tools(
    e: &mut Vec<(String, Value)>,
    placement: &ToolPlacement,
    is_oauth_token: bool,
    c: &RequiredAnthropicCompat,
    control: Option<&CacheControl>,
)
    ensures
        entries(final(e)@) == tools_put(
            entries(old(e)@),
            *placement,
            is_oauth_token,
            *c,
            marker_of(control),
        ),
{
    proof {
        assert(tools_of(placement.deferred@).len() == placement.deferred@.len());
    }
    if placement.immediate.len() == 0 && placement.deferred.len() == 0 {
        return ;
    }
    let on_tools = if c.supports_cache_control_on_tools {
        control
    } else {
        None
    };
    let mut tools = if placement.immediate.len() == 0 {
        convert_deferred(&placement.deferred, is_oauth_token, c, on_tools, false)
    } else {
        convert_tools(
            &placement.immediate,
            is_oauth_token,
            c.supports_eager_tool_input_streaming,
            c.supports_strict_tools,
            on_tools,
            false,
        )
    };
    let ghost first = items(tools@);
    if placement.immediate.len() > 0 {
        let later = convert_deferred(&placement.deferred, is_oauth_token, c, None, true);
        append_items(&mut tools, later);
    } else {
        proof {
            let none = tools_json(
                Seq::empty(),
                is_oauth_token,
                c.supports_eager_tool_input_streaming,
                c.supports_strict_tools,
                None,
                true,
            );
            assert(none =~= Seq::<Json>::empty());
            assert(first + none =~= first);
        }
    }
    put_array(e, "tools", tools);
}

fn make_identity(series: &SeriesName) -> (r: String)
    ensures
        r@ == identity(*series),
{
    let title = series.title.as_str();
    let start = cat3("You are ", title, " Code, Anthropic's official CLI for ");
    cat3(start.as_str(), title, ".")
}

fn make_system_block(text: &str, control: Option<&CacheControl>) -> (r: Value)
    ensures
        r@ == system_block(text@, marker_of(control)),
{
    let mut e = new_entries();
    put_str(&mut e, "type", "text");
    put_str(&mut e, "text", text);
    if let Some(control) = control {
        put(&mut e, "cache_control", control.to_value());
    }
    object(e)
}

fn put_thinking(e: &mut Vec<(String, Value)>, model: &Model, options: Option<&AnthropicOptions>)
    ensures
        entries(final(e)@) == thinking_put(entries(old(e)@), *model, options),
{
    let o = match options {
        Some(o) => o,
        None => {
            return ;
        },
    };
    let enabled = match o.thinking_enabled {
        Some(enabled) => enabled,
        None => {
            return ;
        },
    };
    if !model.reasoning {
        return ;
    }
    if !enabled {
        if !model.level_is_null("off") {
            put(e, "thinking", object1("type", string("disabled")));
        }
        return ;
    }
    let display = match &o.thinking_display {
        Some(display) => display.clone(),
        None => "summarized".to_owned(),
    };
    let mut thinking = new_entries();
    if thinks_adaptively(model) {
        put_str(&mut thinking, "type", "adaptive");
        put_str(&mut thinking, "display", display.as_str());
        put_object(e, "thinking", thinking);
        if let Some(effort) = &o.effort {
            put(e, "output_config", object1("effort", string(effort.as_str())));
        }
    } else {
        let budget = match o.thinking_budget_tokens {
            Some(budget) => budget,
            None => Number::from_int(1024),
        };
        put_str(&mut thinking, "type", "enabled");
        put(&mut thinking, "budget_tokens", Value::Number(budget));
        put_str(&mut thinking, "display", display.as_str());
        put_object(e, "thinking", thinking);
    }
}

fn put_rest(e: &mut Vec<(String, Value)>, options: Option<&AnthropicOptions>)
    ensures
        entries(final(e)@) == rest_put(entries(old(e)@), options),
{
    if let Some(o) = options {
        if let Some(metadata) = &o.stream.metadata {
            if let Some(user) = get_str(metadata, "user_id") {
                put(e, "metadata", object1("user_id", string(user.as_str())));
            }
        }
        if let Some(choice) = &o.tool_choice {
            put(e, "tool_choice", choice.to_value());
        }
    }
}

/// Builds the body of a request of messages that were prepared for the model and
/// of tools that were placed. `environment` is the value of
/// `PI_CACHE_RETENTION`.
#[verifier::rlimit(30)]
pub fn build_params(
    model: &Model,
    context: &Context,
    is_oauth_token: bool,
    options: Option<&AnthropicOptions>,
    environment: Option<&str>,
    messages: &Vec<Message>,
    placement: &ToolPlacement,
) -> (r: Value)
    ensures
        r@ == request_body(
            *model,
            *context,
            is_oauth_token,
            options,
            opt_str(environment),
            messages@,
            *placement,
        ),
{
    let asked: Option<&str> = match options {
        Some(o) => borrow_opt(&o.stream.cache_retention),
        None => None,
    };
    let (_retention, cache_control) = get_cache_control(model, asked, environment);
    let control: Option<&CacheControl> = match &cache_control {
        Some(control) => Some(control),
        None => None,
    };
    proof {
        assert(marker_of(control) == marker_for(*model, options, opt_str(environment)));
    }
    let c = RequiredAnthropicCompat::new(model);
    let names = list_later_names(placement, is_oauth_token);
    let list = convert_messages(messages, is_oauth_token, control, c.allow_empty_signature, &names);
    let (max_tokens, temperature) = match options {
        Some(o) => (
            match o.stream.max_tokens {
                Some(n) => n,
                None => model.max_tokens,
            },
            match o.thinking_enabled {
                Some(true) => None,
                _ => if c.supports_temperature {
                    o.stream.temperature
                } else {
                    None
                },
            },
        ),
        None => (model.max_tokens, None),
    };
    let mut e = new_entries();
    put_str(&mut e, "model", model.id.as_str());
    put_array(&mut e, "messages", list);
    put(&mut e, "max_tokens", Value::Number(max_tokens));
    put_bool(&mut e, "stream", true);
    let mut system = new_items();
    if is_oauth_token {
        let text = make_identity(&model.anthropic_series);
        push_item(&mut system, make_system_block(text.as_str(), control));
    }
    if let Some(prompt) = &context.system_prompt {
        push_item(&mut system, make_system_block(prompt.as_str(), control));
    }
    proof {
        assert(items(system@).len() == system@.len());
    }
    if system.len() > 0 {
        put_array(&mut e, "system", system);
    }
    put_opt_number(&mut e, "temperature", temperature);
    put_tools(&mut e, placement, is_oauth_token, &c, control);
    put_thinking(&mut e, model, options);
    put_rest(&mut e, options);
    object(e)
}

// ---------------------------------------------------------------------------
// Requests
// ---------------------------------------------------------------------------

pub open spec fn asked_headers(o: Option<&AnthropicOptions>) -> OptPairs {
    match o {
        Some(o) => match o.stream.request.headers {
            Some(h) => opt_headers(Some(&h)),
            None => opt_headers(None),
        },
        None => opt_headers(None),
    }
}

pub open spec fn asked_session(o: Option<&AnthropicOptions>) -> Option<Seq<char>> {
    match o {
        Some(o) => opt_text(o.stream.session_id),
        None => None,
    }
}

pub open spec fn asked_interleaving(o: Option<&AnthropicOptions>) -> Option<bool> {
    match o {
        Some(o) => o.interleaved_thinking,
        None => None,
    }
}

/// The headers that are made for a request.
pub open spec fn dynamic_headers(model: Model, context: Context) -> Pairs {
    if model.provider@ == "github-copilot"@ {
        copilot_headers(context.messages@, any_holds_image(context.messages@))
    } else {
        Seq::empty()
    }
}

/// The request that begins a stream, or that there is no key for it.
pub open spec fn request(
    model: Model,
    context: Context,
    options: Option<&AnthropicOptions>,
    api_key: Option<Seq<char>>,
    environment: Option<Seq<char>>,
    messages: Seq<Message>,
    placement: ToolPlacement,
) -> Result<Request, Seq<char>> {
    if !is_authorised(api_key, asked_headers(options)) {
        Err(no_key(model.provider@))
    } else {
        let retention = cache_retention(asked_retention(options), environment);
        Ok(
            Request {
                url: trimmed_end_of(model.base_url@, '/') + "/v1/messages"@,
                headers: request_headers(
                    model,
                    api_key,
                    is_oauth(api_key),
                    model.provider@ == "github-copilot"@,
                    features_of(model, context, asked_interleaving(options)),
                    dynamic_headers(model, context),
                    asked_headers(options),
                    cached_session(retention, asked_session(options)),
                ),
                body: request_body(
                    model,
                    context,
                    is_oauth(api_key),
                    options,
                    environment,
                    messages,
                    placement,
                ),
            },
        )
    }
}

/// Prepares the request that begins a stream. `environment` is the value of
/// `PI_CACHE_RETENTION`.
pub fn prepare_request(
    model: &Model,
    context: &Context,
    options: Option<&AnthropicOptions>,
    api_key: Option<&str>,
    environment: Option<&str>,
    messages: &Vec<Message>,
    placement: &ToolPlacement,
) -> (r: Result<ProviderRequest, String>)
    ensures
        res_request(r) == request(
            *model,
            *context,
            options,
            opt_str(api_key),
            opt_str(environment),
            messages@,
            *placement,
        ),
{
    let asked: Option<&ProviderHeaders> = match options {
        Some(o) => match &o.stream.request.headers {
            Some(h) => Some(h),
            None => None,
        },
        None => None,
    };
    if let Err(e) = assert_request_auth(model.provider.as_str(), api_key, asked) {
        return Err(e);
    }
    let oauth = is_oauth_token(api_key);
    let copilot = str_eq(model.provider.as_str(), "github-copilot");
    let dynamic = if copilot {
        let has_images = has_copilot_vision_input(&context.messages);
        build_copilot_dynamic_headers(
            CopilotDynamicHeadersParams { messages: &context.messages, has_images },
        )
    } else {
        new_pairs()
    };
    let (wanted, session_id, interleaved) = match options {
        Some(o) => (
            borrow_opt(&o.stream.cache_retention),
            borrow_opt(&o.stream.session_id),
            o.interleaved_thinking,
        ),
        None => (None, None, None),
    };
    let retention = resolve_cache_retention(wanted, environment);
    let session = cache_session(retention.as_str(), session_id);
    let features = list_features(model, context, interleaved);
    let headers = build_anthropic_headers(
        model,
        api_key,
        oauth,
        copilot,
        &features,
        &dynamic,
        asked,
        session,
    );
    let body = build_params(model, context, oauth, options, environment, messages, placement);
    let base = trim_end_of(model.base_url.as_str(), '/');
    Ok(ProviderRequest { url: cat2(base.as_str(), "/v1/messages"), headers, body })
}

// ---------------------------------------------------------------------------
// Simple requests
// ---------------------------------------------------------------------------

/// The effort of a level: what the model maps the level to, else one that is
/// close to it.
pub open spec fn effort_of(model: Model, level: Option<Seq<char>>) -> Seq<char> {
    match level {
        Some(level) => match mapped_level(model, level) {
            Some(effort) => effort,
            None => if level == "minimal"@ || level == "low"@ {
                "low"@
            } else if level == "medium"@ {
                "medium"@
            } else {
                "high"@
            },
        },
        None => "high"@,
    }
}

pub fn map_thinking_level_to_effort(model: &Model, level: Option<&str>) -> (r: String)
    ensures
        r@ == effort_of(*model, opt_str(level)),
{
    match level {
        Some(level) => match model.mapped_level(level) {
            Some(effort) => effort,
            None => if str_eq(level, "minimal") || str_eq(level, "low") {
                "low".to_owned()
            } else if str_eq(level, "medium") {
                "medium".to_owned()
            } else {
                "high".to_owned()
            },
        },
        None => "high".to_owned(),
    }
}

/// The tokens that a model may think for: those that its budget gives, and 1024
/// less than an answer may have at most.
pub open spec fn budget_within(budget: Number, max_tokens: Number) -> Number {
    lesser(budget, greater(difference(max_tokens, whole(1024)), whole(0)))
}

/// The options with which a simple request is streamed. `base` holds the
/// options that every interface has; `max_tokens` and `budget` are the tokens
/// of an answer and of the thinking that a level asks for, clamped to the model.
pub fn stream_simple(
    model: &Model,
    base: StreamOptions,
    reasoning: Option<&str>,
    max_tokens: Number,
    budget: Number,
) -> (r: AnthropicOptions)
    ensures
        r.thinking_enabled == Some(reasoning is Some),
        r.stream == if reasoning is Some && !is_adaptive(*model) {
            StreamOptions { max_tokens: Some(max_tokens), ..base }
        } else {
            base
        },
        opt_text(r.effort) == if reasoning is Some && is_adaptive(*model) {
            Some(effort_of(*model, opt_str(reasoning)))
        } else {
            None
        },
        r.thinking_budget_tokens == if reasoning is Some && !is_adaptive(*model) {
            Some(budget_within(budget, max_tokens))
        } else {
            None
        },
        r.thinking_display is None,
        r.interleaved_thinking is None,
        r.tool_choice is None,
{
    let mut stream = base;
    let mut effort: Option<String> = None;
    let mut thinking_budget_tokens: Option<Number> = None;
    if reasoning.is_some() {
        if thinks_adaptively(model) {
            effort = Some(map_thinking_level_to_effort(model, reasoning));
        } else {
            let room = max_tokens.minus(Number::from_int(1024)).max(Number::zero());
            thinking_budget_tokens = Some(budget.min(room));
            stream.max_tokens = Some(max_tokens);
        }
    }
    AnthropicOptions {
        stream,
        thinking_enabled: Some(reasoning.is_some()),
        thinking_budget_tokens,
        effort,
        thinking_display: None,
        interleaved_thinking: None,
        tool_choice: None,
    }
}

} // verus!
