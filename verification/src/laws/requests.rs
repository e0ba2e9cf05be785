//! What each request says: the model that is asked, what it may use, and who asks.
use vstd::prelude::*;
use crate::api::anthropic_messages::compat::{compat_of, is_adaptive, sent_name};
use crate::api::anthropic_messages::request::{
    authority_put, is_authorised, AnthropicOptions, AnthropicToolChoice,
};
use crate::api::google_generative_ai::{GoogleOptions, ModelFamilies};
use crate::api::google_vertex::GoogleVertexOptions;
use crate::api::headers::Pairs;
use crate::api::mistral_conversations::request::{MistralOptions, MistralToolChoice};
use crate::api::openai_completions::compat::Compat;
use crate::api::openai_completions::params::{CompletionsInputs, OpenAICompletionsOptions};
use crate::json::{entries, no_entries, str_at, EntriesSpec, Entries, Json};
use crate::laws::wire::{group_wire, says};
use crate::number::{whole, Number};
use crate::text::{joined, opt_text, trimmed_end_of};
use crate::types::{level_is_null, mapped_level, Context, Message, Model, Tool, ToolPlacement};

verus! {

broadcast use group_wire;

// ---------------------------------------------------------------------------
// The Messages interface
// ---------------------------------------------------------------------------

/// A request for a message names its model, asks for a stream, and bounds the
/// answer by what was asked or else by the limit of the model.
pub proof fn law_messages_request_names_its_model(
    model: Model,
    context: Context,
    oauth: bool,
    options: Option<&AnthropicOptions>,
    environment: Option<Seq<char>>,
    messages: Seq<Message>,
    placement: ToolPlacement,
)
    ensures
        ({
            let body = crate::api::anthropic_messages::request::request_body(
                model,
                context,
                oauth,
                options,
                environment,
                messages,
                placement,
            );
            &&& says(body, "model"@, Json::Str(model.id@))
            &&& says(body, "stream"@, Json::Bool(true))
            &&& options is None ==> says(body, "max_tokens"@, Json::Number(model.max_tokens))
            &&& options matches Some(o) ==> {
                &&& o.stream.max_tokens is Some ==> says(
                    body,
                    "max_tokens"@,
                    Json::Number(o.stream.max_tokens->0),
                )
                &&& o.stream.max_tokens is None ==> says(
                    body,
                    "max_tokens"@,
                    Json::Number(model.max_tokens),
                )
                &&& o.thinking_enabled != Some(true) && compat_of(model).supports_temperature
                    && o.stream.temperature is Some ==> says(
                    body,
                    "temperature"@,
                    Json::Number(o.stream.temperature->0),
                )
            }
        }),
{
}

/// The prompt of a conversation is sent as a system block, after the identity of
/// the client where a client token asks.
pub proof fn law_messages_request_holds_the_prompt(
    model: Model,
    context: Context,
    oauth: bool,
    options: Option<&AnthropicOptions>,
    environment: Option<Seq<char>>,
    messages: Seq<Message>,
    placement: ToolPlacement,
)
    requires
        context.system_prompt is Some,
    ensures
        ({
            let body = crate::api::anthropic_messages::request::request_body(
                model,
                context,
                oauth,
                options,
                environment,
                messages,
                placement,
            );
            exists|list: Seq<Json>|
                #![trigger says(body, "system"@, Json::Array(list))]
                {
                    &&& says(body, "system"@, Json::Array(list))
                    &&& list.len() == if oauth {
                        2nat
                    } else {
                        1nat
                    }
                    &&& says(list.last(), "type"@, Json::Str("text"@))
                    &&& says(list.last(), "text"@, Json::Str(context.system_prompt->0@))
                }
        }),
{
    let marker = crate::api::anthropic_messages::request::marker_for(model, options, environment);
    let list = crate::api::anthropic_messages::request::system_blocks(
        model.anthropic_series,
        opt_text(context.system_prompt),
        oauth,
        marker,
    );
    let body = crate::api::anthropic_messages::request::request_body(
        model,
        context,
        oauth,
        options,
        environment,
        messages,
        placement,
    );
    assert(says(body, "system"@, Json::Array(list)));
    assert(says(list.last(), "type"@, Json::Str("text"@)));
    assert(says(list.last(), "text"@, Json::Str(context.system_prompt->0@)));
}

/// The tools that are ready are offered in order, each under its name as it is
/// sent, with its description.
pub proof fn law_messages_request_offers_tools(
    model: Model,
    context: Context,
    oauth: bool,
    options: Option<&AnthropicOptions>,
    environment: Option<Seq<char>>,
    messages: Seq<Message>,
    placement: ToolPlacement,
)
    requires
        placement.immediate@.len() > 0,
    ensures
        ({
            let body = crate::api::anthropic_messages::request::request_body(
                model,
                context,
                oauth,
                options,
                environment,
                messages,
                placement,
            );
            exists|list: Seq<Json>|
                #![trigger says(body, "tools"@, Json::Array(list))]
                {
                    &&& says(body, "tools"@, Json::Array(list))
                    &&& list.len() == placement.immediate@.len() + placement.deferred@.len()
                    &&& forall|i: int|
                        0 <= i < placement.immediate@.len() ==> says(
                            #[trigger] list[i],
                            "name"@,
                            Json::Str(sent_name(placement.immediate@[i].name@, oauth)),
                        ) && says(
                            list[i],
                            "description"@,
                            Json::Str(placement.immediate@[i].description@),
                        )
                    &&& forall|i: int|
                        0 <= i < placement.deferred@.len() ==> says(
                            #[trigger] list[placement.immediate@.len() + i],
                            "name"@,
                            Json::Str(sent_name(placement.deferred@[i].1.name@, oauth)),
                        ) && says(
                            list[placement.immediate@.len() + i],
                            "defer_loading"@,
                            Json::Bool(true),
                        )
                }
        }),
{
    let marker = crate::api::anthropic_messages::request::marker_for(model, options, environment);
    let c = compat_of(model);
    let first = crate::api::anthropic_messages::messages::tools_json(
        placement.immediate@,
        oauth,
        c.supports_eager_tool_input_streaming,
        c.supports_strict_tools,
        if c.supports_cache_control_on_tools {
            marker
        } else {
            None
        },
        false,
    );
    let later = crate::api::anthropic_messages::messages::tools_json(
        crate::api::anthropic_messages::request::tools_of(placement.deferred@),
        oauth,
        c.supports_eager_tool_input_streaming,
        c.supports_strict_tools,
        None,
        true,
    );
    let list = first + later;
    let body = crate::api::anthropic_messages::request::request_body(
        model,
        context,
        oauth,
        options,
        environment,
        messages,
        placement,
    );
    assert(says(body, "tools"@, Json::Array(list)));
    assert forall|i: int| 0 <= i < placement.immediate@.len() implies says(
        #[trigger] list[i],
        "name"@,
        Json::Str(sent_name(placement.immediate@[i].name@, oauth)),
    ) && says(list[i], "description"@, Json::Str(placement.immediate@[i].description@)) by {
        assert(list[i] == first[i]);
    }
    assert forall|i: int| 0 <= i < placement.deferred@.len() implies says(
        #[trigger] list[placement.immediate@.len() + i],
        "name"@,
        Json::Str(sent_name(placement.deferred@[i].1.name@, oauth)),
    ) && says(list[placement.immediate@.len() + i], "defer_loading"@, Json::Bool(true)) by {
        assert(list[placement.immediate@.len() + i] == later[i]);
    }
}

/// A model that reasons is told how to think: not at all, for itself with an
/// effort, or within a budget; and which tool it has to choose.
pub proof fn law_messages_request_says_how_to_think(
    model: Model,
    context: Context,
    oauth: bool,
    o: &AnthropicOptions,
    environment: Option<Seq<char>>,
    messages: Seq<Message>,
    placement: ToolPlacement,
)
    requires
        model.reasoning,
    ensures
        ({
            let body = crate::api::anthropic_messages::request::request_body(
                model,
                context,
                oauth,
                Some(o),
                environment,
                messages,
                placement,
            );
            &&& o.thinking_enabled == Some(false) && !level_is_null(model, "off"@)
                ==> exists|inner: Json| #[trigger]
                says(body, "thinking"@, inner) && says(inner, "type"@, Json::Str("disabled"@))
            &&& o.thinking_enabled == Some(true) && is_adaptive(model) ==> exists|inner: Json|
             #[trigger]
                says(body, "thinking"@, inner) && says(inner, "type"@, Json::Str("adaptive"@))
            &&& o.thinking_enabled == Some(true) && is_adaptive(model) && o.effort is Some
                ==> exists|inner: Json| #[trigger]
                says(body, "output_config"@, inner) && says(
                    inner,
                    "effort"@,
                    Json::Str(o.effort->0@),
                )
            &&& o.thinking_enabled == Some(true) && !is_adaptive(model) ==> exists|inner: Json|
             #[trigger]
                says(body, "thinking"@, inner) && says(
                    inner,
                    "type"@,
                    Json::Str("enabled"@),
                ) && (o.thinking_budget_tokens is Some ==> says(
                    inner,
                    "budget_tokens"@,
                    Json::Number(o.thinking_budget_tokens->0),
                )) && (o.thinking_budget_tokens is None ==> says(
                    inner,
                    "budget_tokens"@,
                    Json::Number(whole(1024)),
                )) && (o.thinking_display is None ==> says(
                    inner,
                    "display"@,
                    Json::Str("summarized"@),
                ))
            &&& o.tool_choice matches Some(choice) ==> exists|inner: Json| #[trigger]
                says(body, "tool_choice"@, inner) && (choice is Auto ==> says(
                    inner,
                    "type"@,
                    Json::Str("auto"@),
                )) && (choice is Any ==> says(inner, "type"@, Json::Str("any"@))) && (choice
                    is NoTool ==> says(inner, "type"@, Json::Str("none"@))) && (choice matches
                    AnthropicToolChoice::Tool { name } ==> says(
                    inner,
                    "type"@,
                    Json::Str("tool"@),
                ) && says(inner, "name"@, Json::Str(name@)))
            &&& o.stream.metadata matches Some(metadata) ==> (str_at(
                entries(metadata@),
                "user_id"@,
            ) matches Some(user) ==> exists|inner: Json| #[trigger]
                says(body, "metadata"@, inner) && says(inner, "user_id"@, Json::Str(user)))
        }),
{
    let body = crate::api::anthropic_messages::request::request_body(
        model,
        context,
        oauth,
        Some(o),
        environment,
        messages,
        placement,
    );
    if o.thinking_enabled == Some(false) && !level_is_null(model, "off"@) {
        let inner = crate::json::one_entry("type"@, Json::Str("disabled"@));
        assert(says(body, "thinking"@, inner));
    }
    if o.thinking_enabled == Some(true) && is_adaptive(model) {
        let inner = Json::Object(
            no_entries().put("type"@, Json::Str("adaptive"@)).put(
                "display"@,
                Json::Str(crate::api::anthropic_messages::request::display_of(*o)),
            ),
        );
        assert(says(body, "thinking"@, inner));
        if let Some(effort) = opt_text(o.effort) {
            let config = crate::json::one_entry("effort"@, Json::Str(effort));
            assert(says(body, "output_config"@, config));
        }
    }
    if o.thinking_enabled == Some(true) && !is_adaptive(model) {
        let inner = Json::Object(
            no_entries().put("type"@, Json::Str("enabled"@)).put(
                "budget_tokens"@,
                Json::Number(
                    match o.thinking_budget_tokens {
                        Some(budget) => budget,
                        None => whole(1024),
                    },
                ),
            ).put("display"@, Json::Str(crate::api::anthropic_messages::request::display_of(*o))),
        );
        assert(says(body, "thinking"@, inner));
    }
    if let Some(choice) = o.tool_choice {
        let inner = crate::api::anthropic_messages::request::choice_json(choice);
        assert(says(body, "tool_choice"@, inner));
    }
    if let Some(metadata) = o.stream.metadata {
        if let Some(user) = str_at(entries(metadata@), "user_id"@) {
            let inner = crate::json::one_entry("user_id"@, Json::Str(user));
            assert(says(body, "metadata"@, inner));
        }
    }
}

/// A key goes into its own header, a client token and Copilot into a bearer, and
/// nothing is asked without one or the other.
pub proof fn law_messages_request_is_authorised(
    h: Pairs,
    model: Model,
    key: Seq<char>,
    features: Seq<Seq<char>>,
)
    ensures
        authority_put(h, model.anthropic_series, Some(key), false, false, features).last() == (
            "x-api-key"@,
            key,
        ),
        authority_put(h, model.anthropic_series, Some(key), false, true, features) == h.push(
            ("Authorization"@, "Bearer "@ + key),
        ),
        authority_put(h, model.anthropic_series, Some(key), true, false, features)[h.len() as int]
            == ("Authorization"@, "Bearer "@ + key),
        features.len() > 0 ==> authority_put(
            h,
            model.anthropic_series,
            Some(key),
            false,
            false,
            features,
        )[h.len() as int] == ("anthropic-beta"@, joined(features, ","@)),
        features.len() == 0 ==> authority_put(
            h,
            model.anthropic_series,
            None,
            false,
            false,
            features,
        ) == h,
        key.len() > 0 ==> is_authorised(Some(key), Seq::empty()),
        !is_authorised(None, Seq::empty()),
{
}

// ---------------------------------------------------------------------------
// Chat completions
// ---------------------------------------------------------------------------

/// A request for a completion names its model, asks for a stream, and says what was
/// asked; what is asked besides takes the place of what has its name.
pub proof fn law_completions_request_names_its_model(
    model: Model,
    context: Context,
    options: Option<&OpenAICompletionsOptions>,
    compat: Compat,
    retention: Seq<char>,
    properties: Pairs,
    inputs: CompletionsInputs,
    parse: spec_fn(Seq<char>) -> Option<Json>,
)
    requires
        options matches Some(o) ==> o.stream.sampling_params is None,
    ensures
        ({
            let body = crate::api::openai_completions::params::request_body(
                model,
                context,
                options,
                compat,
                retention,
                properties,
                inputs,
                parse,
            );
            &&& says(body, "model"@, Json::Str(model.id@))
            &&& says(body, "stream"@, Json::Bool(true))
            &&& compat.supports_usage_in_streaming ==> exists|inner: Json| #[trigger]
                says(body, "stream_options"@, inner) && says(
                    inner,
                    "include_usage"@,
                    Json::Bool(true),
                )
            &&& compat.supports_store ==> says(body, "store"@, Json::Bool(false))
            &&& options matches Some(o) ==> {
                &&& o.stream.temperature is Some ==> says(
                    body,
                    "temperature"@,
                    Json::Number(o.stream.temperature->0),
                )
                &&& o.stream.max_tokens is Some && compat.max_tokens_field == "max_tokens"@ ==> says(
                    body,
                    "max_tokens"@,
                    Json::Number(o.stream.max_tokens->0),
                )
                &&& o.stream.max_tokens is Some && compat.max_tokens_field != "max_tokens"@ ==> says(
                    body,
                    "max_completion_tokens"@,
                    Json::Number(o.stream.max_tokens->0),
                )
            }
        }),
{
    let messages = crate::api::openai_completions::messages::converted(
        opt_text(context.system_prompt),
        inputs.messages@,
        crate::api::openai_completions::messages::Setting {
            model,
            compat,
            tools: crate::api::openai_completions::messages::opt_tools(context.tools),
            properties,
            parse,
        },
    );
    let head = crate::api::openai_completions::params::body_head(
        model,
        messages,
        compat,
        retention,
        opt_text(inputs.prompt_cache_key),
        options,
    );
    let usage = crate::json::one_entry("include_usage"@, Json::Bool(true));
    let body = crate::api::openai_completions::params::request_body(
        model,
        context,
        options,
        compat,
        retention,
        properties,
        inputs,
        parse,
    );
    assert forall|x: (Seq<char>, Json)| head.contains(x) implies #[trigger] says(
        body,
        x.0,
        x.1,
    ) by {
        lemma_head_is_kept(
            model,
            context,
            options,
            compat,
            retention,
            properties,
            inputs,
            parse,
            head,
            x,
        );
    }
    assert(head.contains(("model"@, Json::Str(model.id@))));
    assert(says(body, ("model"@, Json::Str(model.id@)).0, ("model"@, Json::Str(model.id@)).1));
    assert(head.contains(("stream"@, Json::Bool(true))));
    assert(says(body, ("stream"@, Json::Bool(true)).0, ("stream"@, Json::Bool(true)).1));
    if compat.supports_usage_in_streaming {
        assert(head.contains(("stream_options"@, usage)));
        assert(says(body, ("stream_options"@, usage).0, ("stream_options"@, usage).1));
    }
    if compat.supports_store {
        let x = ("store"@, Json::Bool(false));
        assert(head.contains(x));
        assert(says(body, x.0, x.1));
    }
    if let Some(o) = options {
        if let Some(t) = o.stream.temperature {
            let x = ("temperature"@, Json::Number(t));
            assert(head.contains(x));
            assert(says(body, x.0, x.1));
        }
        if let Some(n) = o.stream.max_tokens {
            let x = (
                if compat.max_tokens_field == "max_tokens"@ {
                    "max_tokens"@
                } else {
                    "max_completion_tokens"@
                },
                Json::Number(n),
            );
            assert(head.contains(x));
            assert(says(body, x.0, x.1));
        }
    }
}

proof fn lemma_thinking_is_kept(
    p: Entries,
    model: Model,
    compat: Compat,
    effort: Option<Seq<char>>,
    x: (Seq<char>, Json),
)
    requires
        p.contains(x),
    ensures
        crate::api::openai_completions::params::thinking_put(p, model, compat, effort).contains(x),
{
}

proof fn lemma_rest_is_kept(
    p: Entries,
    model: Model,
    compat: Compat,
    options: Option<&OpenAICompletionsOptions>,
    level: Seq<char>,
    answer: Number,
    x: (Seq<char>, Json),
)
    requires
        p.contains(x),
    ensures
        crate::api::openai_completions::params::routing_put(
            crate::api::openai_completions::params::budget_put(
                p,
                model,
                compat,
                options,
                level,
                answer,
            ),
            compat,
        ).contains(x),
{
}

proof fn lemma_head_is_kept(
    model: Model,
    context: Context,
    options: Option<&OpenAICompletionsOptions>,
    compat: Compat,
    retention: Seq<char>,
    properties: Pairs,
    inputs: CompletionsInputs,
    parse: spec_fn(Seq<char>) -> Option<Json>,
    head: Entries,
    x: (Seq<char>, Json),
)
    requires
        options matches Some(o) ==> o.stream.sampling_params is None,
        head == crate::api::openai_completions::params::body_head(
            model,
            crate::api::openai_completions::messages::converted(
                opt_text(context.system_prompt),
                inputs.messages@,
                crate::api::openai_completions::messages::Setting {
                    model,
                    compat,
                    tools: crate::api::openai_completions::messages::opt_tools(context.tools),
                    properties,
                    parse,
                },
            ),
            compat,
            retention,
            opt_text(inputs.prompt_cache_key),
            options,
        ),
        head.contains(x),
    ensures
        says(
            crate::api::openai_completions::params::request_body(
                model,
                context,
                options,
                compat,
                retention,
                properties,
                inputs,
                parse,
            ),
            x.0,
            x.1,
        ),
{
    let tooled = crate::api::openai_completions::params::tools_put(
        head,
        crate::api::openai_completions::messages::opt_tools(context.tools),
        context.messages@,
        compat,
        retention,
    );
    assert(tooled.contains(x));
    let chosen = tooled.put_opt(
        "tool_choice"@,
        crate::api::openai_completions::params::asked_choice(options),
    );
    assert(chosen.contains(x));
    let effort = crate::api::openai_completions::params::asked_effort(options);
    lemma_thinking_is_kept(chosen, model, compat, effort, x);
    let thinking = crate::api::openai_completions::params::thinking_put(
        chosen,
        model,
        compat,
        effort,
    );
    lemma_rest_is_kept(
        thinking,
        model,
        compat,
        options,
        inputs.budget_level@,
        inputs.min_answer_tokens,
        x,
    );
    assert(crate::api::openai_completions::params::asked_sampling(options) =~= no_entries());
    assert(x == (x.0, x.1));
}

/// The tools of a completion that are not deferred are offered under `tools`.
pub proof fn law_completions_request_offers_tools(
    p: Entries,
    tools: Seq<Tool>,
    messages: Seq<Message>,
    compat: Compat,
    retention: Seq<char>,
)
    requires
        compat.deferred_tools_mode is None,
        compat.cache_control_format is None,
        tools.len() > 0,
    ensures
        says(
            Json::Object(
                crate::api::openai_completions::params::tools_put(
                    p,
                    tools,
                    messages,
                    compat,
                    retention,
                ),
            ),
            "tools"@,
            Json::Array(crate::api::openai_completions::messages::tools_json(tools, compat)),
        ),
{
    lemma_all_active(tools);
}

proof fn lemma_all_active(tools: Seq<Tool>)
    ensures
        crate::api::openai_completions::params::active_tools(tools, Seq::empty()) == tools,
    decreases tools.len(),
{
    if tools.len() > 0 {
        lemma_all_active(tools.drop_last());
        assert(tools.drop_last().push(tools.last()) =~= tools);
    }
}

/// How a completion is told to think, for each way of saying it.
pub proof fn law_completions_request_says_how_to_think(
    p: Entries,
    model: Model,
    compat: Compat,
    effort: Seq<char>,
    format: Seq<char>,
)
    requires
        model.reasoning,
        mapped_level(model, effort) is None,
        compat.thinking_format == format,
    ensures
        ({
            let on = Json::Object(
                crate::api::openai_completions::params::thinking_put(
                    p,
                    model,
                    compat,
                    Some(effort),
                ),
            );
            let off = Json::Object(
                crate::api::openai_completions::params::thinking_put(p, model, compat, None),
            );
            &&& format == "openai"@ && compat.supports_reasoning_effort ==> says(
                on,
                "reasoning_effort"@,
                Json::Str(effort),
            )
            &&& format == "zai"@ ==> (exists|inner: Json| #[trigger]
                says(on, "thinking"@, inner) && says(
                    inner,
                    "type"@,
                    Json::Str("enabled"@),
                )) && exists|inner: Json| #[trigger]
                says(off, "thinking"@, inner) && says(inner, "type"@, Json::Str("disabled"@))
            &&& format == "qwen"@ ==> says(on, "enable_thinking"@, Json::Bool(true)) && says(
                off,
                "enable_thinking"@,
                Json::Bool(false),
            )
            &&& format == "deepseek"@ ==> exists|inner: Json| #[trigger]
                says(on, "thinking"@, inner) && says(inner, "type"@, Json::Str("enabled"@))
            &&& format == "openrouter"@ ==> exists|inner: Json| #[trigger]
                says(on, "reasoning"@, inner) && says(inner, "effort"@, Json::Str(effort))
            &&& format == "together"@ ==> (exists|inner: Json| #[trigger]
                says(on, "reasoning"@, inner) && says(
                    inner,
                    "enabled"@,
                    Json::Bool(true),
                )) && exists|inner: Json| #[trigger]
                says(off, "reasoning"@, inner) && says(inner, "enabled"@, Json::Bool(false))
            &&& format == "string-thinking"@ ==> says(on, "thinking"@, Json::Str(effort))
        }),
{
    lemma_formats();
    let on = Json::Object(
        crate::api::openai_completions::params::thinking_put(p, model, compat, Some(effort)),
    );
    let off = Json::Object(
        crate::api::openai_completions::params::thinking_put(p, model, compat, None),
    );
    let enabled = crate::json::one_entry("type"@, Json::Str("enabled"@));
    let disabled = crate::json::one_entry("type"@, Json::Str("disabled"@));
    let told = crate::json::one_entry("effort"@, Json::Str(effort));
    if format == "zai"@ {
        assert(says(on, "thinking"@, enabled));
        assert(says(off, "thinking"@, disabled));
    }
    if format == "deepseek"@ {
        assert(says(on, "thinking"@, enabled));
    }
    if format == "openrouter"@ {
        assert(says(on, "reasoning"@, told));
    }
    if format == "together"@ {
        assert(says(on, "reasoning"@, crate::json::one_entry("enabled"@, Json::Bool(true))));
        assert(says(off, "reasoning"@, crate::json::one_entry("enabled"@, Json::Bool(false))));
    }
}

proof fn lemma_formats()
    ensures
        "openai"@ != "zai"@ && "openai"@ != "qwen"@ && "openai"@ != "qwen-chat-template"@,
        "openai"@ != "chat-template"@ && "openai"@ != "baseten"@ && "openai"@ != "deepseek"@,
        "openai"@ != "openrouter"@ && "openai"@ != "ant-ling"@ && "openai"@ != "together"@,
        "openai"@ != "string-thinking"@,
        "qwen"@ != "zai"@ && "deepseek"@ != "zai"@ && "openrouter"@ != "zai"@,
        "together"@ != "zai"@ && "string-thinking"@ != "zai"@,
        "deepseek"@ != "qwen"@ && "openrouter"@ != "qwen"@ && "together"@ != "qwen"@,
        "string-thinking"@ != "qwen"@,
        "deepseek"@ != "qwen-chat-template"@ && "openrouter"@ != "qwen-chat-template"@,
        "together"@ != "qwen-chat-template"@ && "string-thinking"@ != "qwen-chat-template"@,
        "deepseek"@ != "chat-template"@ && "openrouter"@ != "chat-template"@,
        "together"@ != "chat-template"@ && "string-thinking"@ != "chat-template"@,
        "deepseek"@ != "baseten"@ && "openrouter"@ != "baseten"@ && "together"@ != "baseten"@,
        "string-thinking"@ != "baseten"@,
        "openrouter"@ != "deepseek"@ && "together"@ != "deepseek"@,
        "string-thinking"@ != "deepseek"@,
        "together"@ != "openrouter"@ && "string-thinking"@ != "openrouter"@,
        "together"@ != "ant-ling"@ && "string-thinking"@ != "ant-ling"@,
        "string-thinking"@ != "together"@,
{
    reveal_strlit("openai");
    reveal_strlit("zai");
    reveal_strlit("qwen");
    reveal_strlit("qwen-chat-template");
    reveal_strlit("chat-template");
    reveal_strlit("baseten");
    reveal_strlit("deepseek");
    reveal_strlit("openrouter");
    reveal_strlit("ant-ling");
    reveal_strlit("together");
    reveal_strlit("string-thinking");
    assert("openai"@.len() == 6 && "zai"@.len() == 3 && "qwen"@.len() == 4);
    assert("qwen-chat-template"@.len() == 18 && "chat-template"@.len() == 13);
    assert("baseten"@.len() == 7 && "deepseek"@.len() == 8 && "openrouter"@.len() == 10);
    assert("ant-ling"@.len() == 8 && "together"@.len() == 8 && "string-thinking"@.len() == 15);
    assert("deepseek"@[0] == 'd' && "ant-ling"@[0] == 'a' && "together"@[0] == 't');
}

// ---------------------------------------------------------------------------
// The Gemini interfaces
// ---------------------------------------------------------------------------

/// A Gemini request holds the conversation, the prompt, and what was asked of the
/// sampling; it goes to the model by its id.
pub proof fn law_gemini_request(
    model: Model,
    context: Context,
    messages: Seq<Message>,
    options: Option<&GoogleOptions>,
    key: Seq<char>,
    f: ModelFamilies,
)
    ensures
        crate::api::google_generative_ai::request(model, context, messages, options, None, f)
            == Err::<crate::api::finish::Request, Seq<char>>(
            "No API key for provider: "@ + model.provider@,
        ),
        crate::api::google_generative_ai::request(
            model,
            context,
            messages,
            options,
            Some(key),
            f,
        ) matches Ok(r) && {
            &&& r.headers.len() > 0 && r.headers[0] == ("x-goog-api-key"@, key)
            &&& model.base_url@.len() > 0 ==> r.url == trimmed_end_of(model.base_url@, '/')
                + "/models/"@ + model.id@ + ":streamGenerateContent?alt=sse"@
            &&& model.base_url@.len() == 0 ==> r.url
                == "https://generativelanguage.googleapis.com/v1beta"@ + "/models/"@ + model.id@
                + ":streamGenerateContent?alt=sse"@
            &&& says(
                r.body,
                "contents"@,
                Json::Array(
                    crate::api::google_shared::messages::turns_json(
                        crate::api::google_shared::messages::contents_of(messages, model),
                    ),
                ),
            )
            &&& context.system_prompt is Some ==> says(
                r.body,
                "systemInstruction"@,
                Json::Str(context.system_prompt->0@),
            )
            &&& options matches Some(o) ==> {
                &&& o.stream.temperature is Some ==> exists|inner: Json| #[trigger]
                    says(r.body, "generationConfig"@, inner) && says(
                        inner,
                        "temperature"@,
                        Json::Number(o.stream.temperature->0),
                    )
                &&& o.stream.max_tokens is Some ==> exists|inner: Json| #[trigger]
                    says(r.body, "generationConfig"@, inner) && says(
                        inner,
                        "maxOutputTokens"@,
                        Json::Number(o.stream.max_tokens->0),
                    )
            }
            &&& context.tools matches Some(tools) ==> (tools@.len() > 0 ==> says(
                r.body,
                "tools"@,
                crate::api::google_shared::messages::tools_json(tools@, false)->0,
            ))
        },
{
    let body = crate::api::google_generative_ai::request_body(model, context, messages, options, f);
    if let Some(o) = options {
        let e = crate::api::google_generative_ai::sampling(
            o.stream.temperature,
            o.stream.max_tokens,
        );
        if o.stream.temperature is Some || o.stream.max_tokens is Some {
            assert(e.len() > 0);
            assert(says(body, "generationConfig"@, Json::Object(e)));
        }
    }
}

/// A Vertex request body holds the conversation, the prompt as a part, and what was
/// asked of the sampling.
pub proof fn law_vertex_body(
    model: Model,
    context: Context,
    messages: Seq<Message>,
    options: Option<&GoogleVertexOptions>,
)
    ensures
        ({
            let body = crate::api::google_vertex::request_body(model, context, messages, options);
            &&& says(
                body,
                "contents"@,
                Json::Array(
                    crate::api::google_shared::messages::turns_json(
                        crate::api::google_shared::messages::contents_of(messages, model),
                    ),
                ),
            )
            &&& context.system_prompt is Some ==> exists|inner: Json, list: Seq<Json>|
                #![trigger says(body, "systemInstruction"@, inner), says(inner, "parts"@, Json::Array(list))]
                says(body, "systemInstruction"@, inner) && says(
                    inner,
                    "parts"@,
                    Json::Array(list),
                ) && list.len() == 1 && says(
                    list[0],
                    "text"@,
                    Json::Str(context.system_prompt->0@),
                )
            &&& options matches Some(o) ==> {
                &&& o.stream.temperature is Some ==> exists|inner: Json| #[trigger]
                    says(body, "generationConfig"@, inner) && says(
                        inner,
                        "temperature"@,
                        Json::Number(o.stream.temperature->0),
                    )
                &&& o.stream.max_tokens is Some ==> exists|inner: Json| #[trigger]
                    says(body, "generationConfig"@, inner) && says(
                        inner,
                        "maxOutputTokens"@,
                        Json::Number(o.stream.max_tokens->0),
                    )
            }
        }),
{
    let body = crate::api::google_vertex::request_body(model, context, messages, options);
    if let Some(prompt) = opt_text(context.system_prompt) {
        let list = Seq::<Json>::empty().push(crate::json::one_entry("text"@, Json::Str(prompt)));
        let inner = crate::json::one_entry("parts"@, Json::Array(list));
        assert(says(body, "systemInstruction"@, inner));
        assert(says(inner, "parts"@, Json::Array(list)));
    }
    if let Some(o) = options {
        let e = crate::api::google_generative_ai::sampling(
            o.stream.temperature,
            o.stream.max_tokens,
        ).put_opt(
            "thinkingConfig"@,
            crate::api::google_vertex::thinking_json(
                model,
                crate::api::google_vertex::asked_thinking(options),
            ),
        );
        if o.stream.temperature is Some || o.stream.max_tokens is Some {
            assert(e.len() > 0);
            assert(says(body, "generationConfig"@, Json::Object(e)));
        }
    }
}

// ---------------------------------------------------------------------------
// Mistral
// ---------------------------------------------------------------------------

/// A Mistral request names its model, asks for a stream, begins with the prompt,
/// says what was asked, and goes out with the key as a bearer.
pub proof fn law_mistral_request(
    model: Model,
    context: Context,
    messages: Seq<Message>,
    options: Option<&MistralOptions>,
    key: Seq<char>,
)
    ensures
        crate::api::mistral_conversations::request::request(
            model,
            context,
            messages,
            options,
            None,
        ) == Err::<crate::api::finish::Request, Seq<char>>(
            "No API key for provider: "@ + model.provider@,
        ),
        crate::api::mistral_conversations::request::request(
            model,
            context,
            messages,
            options,
            Some(key),
        ) matches Ok(r) && {
            &&& r.url == trimmed_end_of(model.base_url@, '/') + "/v1/chat/completions"@
            &&& says(r.body, "model"@, Json::Str(model.id@))
            &&& says(r.body, "stream"@, Json::Bool(true))
            &&& exists|list: Seq<Json>|
                #![trigger says(r.body, "messages"@, Json::Array(list))]
                says(r.body, "messages"@, Json::Array(list)) && (context.system_prompt is Some
                    ==> list.len() > 0 && says(list[0], "role"@, Json::Str("system"@)) && says(
                    list[0],
                    "content"@,
                    Json::Str(context.system_prompt->0@),
                ) && list.skip(1) == crate::api::mistral_conversations::messages::messages_json(
                    messages,
                    crate::api::openai_completions::messages::takes_images(model),
                )) && (context.system_prompt is None ==> list
                    == crate::api::mistral_conversations::messages::messages_json(
                    messages,
                    crate::api::openai_completions::messages::takes_images(model),
                ))
            &&& options matches Some(o) ==> {
                &&& o.stream.temperature is Some ==> says(
                    r.body,
                    "temperature"@,
                    Json::Number(o.stream.temperature->0),
                )
                &&& o.stream.max_tokens is Some ==> says(
                    r.body,
                    "max_tokens"@,
                    Json::Number(o.stream.max_tokens->0),
                )
                &&& o.prompt_mode is Some ==> says(
                    r.body,
                    "prompt_mode"@,
                    Json::Str(o.prompt_mode->0@),
                )
                &&& o.reasoning_effort is Some ==> says(
                    r.body,
                    "reasoning_effort"@,
                    Json::Str(o.reasoning_effort->0@),
                )
                &&& o.tool_choice == Some(MistralToolChoice::Any) ==> says(
                    r.body,
                    "tool_choice"@,
                    Json::Str("any"@),
                )
                &&& o.tool_choice == Some(MistralToolChoice::Auto) ==> says(
                    r.body,
                    "tool_choice"@,
                    Json::Str("auto"@),
                )
                &&& o.tool_choice == Some(MistralToolChoice::NoTool) ==> says(
                    r.body,
                    "tool_choice"@,
                    Json::Str("none"@),
                )
                &&& o.tool_choice == Some(MistralToolChoice::Required) ==> says(
                    r.body,
                    "tool_choice"@,
                    Json::Str("required"@),
                )
            }
            &&& context.tools matches Some(tools) ==> (tools@.len() > 0 ==> says(
                r.body,
                "tools"@,
                Json::Array(crate::api::mistral_conversations::messages::tools_json(tools@)),
            ))
        },
{
    let body = crate::api::mistral_conversations::request::request_body(
        model,
        context,
        messages,
        options,
    );
    let list = crate::api::mistral_conversations::request::prompt_json(
        opt_text(context.system_prompt),
    ) + crate::api::mistral_conversations::messages::messages_json(
        messages,
        crate::api::openai_completions::messages::takes_images(model),
    );
    assert(says(body, "messages"@, Json::Array(list)));
    let own = crate::api::mistral_conversations::messages::messages_json(
        messages,
        crate::api::openai_completions::messages::takes_images(model),
    );
    if context.system_prompt is None {
        assert(list =~= own);
    }
    if context.system_prompt is Some {
        assert(list.skip(1) =~= own);
        let e = list[0]->Object_0;
        assert(e[0] == ("role"@, Json::Str("system"@)));
        assert(e[1] == ("content"@, Json::Str(context.system_prompt->0@)));
    }
}

} // verus!
