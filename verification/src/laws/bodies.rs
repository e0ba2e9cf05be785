//! That every request holds its conversation.
use vstd::prelude::*;
use crate::api::anthropic_messages::compat::compat_of;
use crate::api::anthropic_messages::messages::{messages_json, Setting};
use crate::api::anthropic_messages::request::{is_oauth, marker_for, AnthropicOptions};
use crate::api::headers::Pairs;
use crate::api::openai_codex_responses::request::OpenAICodexResponsesOptions;
use crate::api::azure_openai_responses::AzureOpenAIResponsesOptions;
use crate::api::openai_responses::{
    named_fields, offered_tools, reasoning_put, OpenAIResponsesOptions,
};
use crate::api::openai_responses_shared::convert::{converted_items, Conversion};
use crate::api::openai_responses_shared::items::items_json;
use crate::json::{no_entries, Entries, EntriesSpec, Json};
use crate::laws::wire::{group_wire, says};
use crate::types::{Context, Message, Model, ToolPlacement};

verus! {

broadcast use group_wire;

/// Whether a request holds some items: those of its conversation as a model takes
/// them.
pub open spec fn holds_items(
    body: Json,
    context: Context,
    messages: Seq<Message>,
    with_prompt: bool,
    c: Conversion,
) -> bool {
    says(
        body,
        "input"@,
        Json::Array(items_json(converted_items(context, messages, with_prompt, c))),
    )
}

/// A Messages request holds its conversation, converted for the one who asks, and
/// marked for the cache where it is cached.
pub proof fn law_messages_request_holds_the_conversation(
    model: Model,
    context: Context,
    options: Option<&AnthropicOptions>,
    key: Seq<char>,
    environment: Option<Seq<char>>,
    messages: Seq<Message>,
    placement: ToolPlacement,
)
    requires
        key.len() > 0,
    ensures
        crate::api::anthropic_messages::request::request(
            model,
            context,
            options,
            Some(key),
            environment,
            messages,
            placement,
        ) matches Ok(r) && says(r.body, "model"@, Json::Str(model.id@)) && exists|s: Setting|
            #![trigger messages_json(messages, s, marker_for(model, options, environment))]
            says(
                r.body,
                "messages"@,
                Json::Array(
                    messages_json(messages, s, marker_for(model, options, environment)),
                ),
            ) && s.oauth == is_oauth(Some(key)) && s.allow_empty_signature == compat_of(
                model,
            ).allow_empty_signature,
{
    let s = Setting {
        oauth: is_oauth(Some(key)),
        allow_empty_signature: compat_of(model).allow_empty_signature,
        deferred: crate::api::anthropic_messages::request::sent_names(
            crate::api::anthropic_messages::request::later_tools(placement),
            is_oauth(Some(key)),
        ),
    };
    let body = crate::api::anthropic_messages::request::request_body(
        model,
        context,
        is_oauth(Some(key)),
        options,
        environment,
        messages,
        placement,
    );
    let own = messages_json(messages, s, marker_for(model, options, environment));
    assert(says(body, "messages"@, Json::Array(own)));
}

proof fn lemma_kept(
    e: Entries,
    model: Model,
    effort: Option<Seq<char>>,
    summary: Option<Seq<char>>,
    x: (Seq<char>, Json),
)
    requires
        e.contains(x),
    ensures
        reasoning_put(e, model, effort, summary).contains(x),
        crate::api::azure_openai_responses::reasoning_put(e, model, effort, summary).contains(x),
{
}

/// A Responses request holds the prompt and the conversation, the tools that are
/// offered at once, and the key of its cache, where it is cached.
pub proof fn law_responses_request_holds_the_conversation(
    model: Model,
    context: Context,
    messages: Seq<Message>,
    options: Option<&OpenAIResponsesOptions>,
    p: crate::api::openai_responses::Parameters,
    key: Seq<char>,
)
    requires
        p.prompt_key == Some(key),
    ensures
        ({
            let body = Json::Object(named_fields(model, context, messages, options, p));
            let tools = crate::api::openai_responses::tool_options(
                None,
                p.compat.supports_strict_mode,
                p.compat.supports_openai_grammar_tools,
            );
            let c = Conversion {
                model,
                properties: p.properties,
                deferred: p.deferred,
                mode: if p.compat.supports_additional_tools {
                    Some("additional-tools"@)
                } else if p.compat.supports_tool_search {
                    Some("tool-search"@)
                } else {
                    None
                },
                tool_options: Some(tools),
                parse: p.parse,
            };
            &&& holds_items(body, context, messages, true, c)
            &&& p.immediate.len() > 0 ==> says(
                body,
                "tools"@,
                offered_tools(p.immediate, tools)->0,
            )
            &&& p.retention != "none"@ ==> says(body, "prompt_cache_key"@, Json::Str(key))
            &&& p.retention == "none"@ ==> says(body, "prompt_cache_key"@, Json::Null)
            &&& p.retention == "long"@ && p.compat.supports_long_cache_retention ==> says(
                body,
                "prompt_cache_retention"@,
                Json::Str("24h"@),
            )
            &&& p.retention != "long"@ ==> says(body, "prompt_cache_retention"@, Json::Null)
        }),
{
    let tools = crate::api::openai_responses::tool_options(
        None,
        p.compat.supports_strict_mode,
        p.compat.supports_openai_grammar_tools,
    );
    let c = Conversion {
        model,
        properties: p.properties,
        deferred: p.deferred,
        mode: crate::api::openai_responses::deferred_mode(
            p.compat.supports_additional_tools,
            p.compat.supports_tool_search,
        ),
        tool_options: Some(tools),
        parse: p.parse,
    };
    let effort = crate::api::openai_responses::asked_effort(options);
    let summary = crate::api::openai_responses::asked_summary(options);
    let items = Json::Array(items_json(converted_items(context, messages, true, c)));
    let cached = crate::api::openai_responses::str_or_null(
        crate::api::headers::cached_session(p.retention, p.prompt_key),
    );
    let kept = crate::api::openai_responses::str_or_null(
        crate::api::openai_responses::prompt_retention(p.compat, p.retention),
    );
    let first = no_entries().put("model"@, Json::Str(model.id@)).put("input"@, items).put(
        "stream"@,
        Json::Bool(true),
    ).put("prompt_cache_key"@, cached).put("prompt_cache_retention"@, kept).put(
        "prompt_cache_options"@,
        if p.retention == "none"@ && p.compat.supports_explicit_prompt_cache_mode {
            crate::json::one_entry("mode"@, Json::Str("explicit"@))
        } else {
            Json::Null
        },
    ).put("store"@, Json::Bool(false)).put_opt(
        "max_output_tokens"@,
        crate::json::opt_number_json(
            crate::api::openai_responses::output_tokens(
                crate::api::openai_responses::asked_max_tokens(options),
            ),
        ),
    ).put_opt(
        "temperature"@,
        crate::json::opt_number_json(crate::api::openai_responses::asked_temperature(options)),
    ).put_opt(
        "service_tier"@,
        crate::json::opt_str_json(crate::api::openai_responses::asked_tier(options)),
    ).put_opt("tools"@, offered_tools(p.immediate, tools)).put_opt(
        "tool_choice"@,
        crate::api::openai_responses::asked_choice(options),
    );
    assert(named_fields(model, context, messages, options, p) == reasoning_put(
        first,
        model,
        effort,
        summary,
    ));
    lemma_kept(first, model, effort, summary, ("input"@, items));
    lemma_kept(first, model, effort, summary, ("prompt_cache_key"@, cached));
    lemma_kept(first, model, effort, summary, ("prompt_cache_retention"@, kept));
    if p.immediate.len() > 0 {
        lemma_kept(
            first,
            model,
            effort,
            summary,
            ("tools"@, offered_tools(p.immediate, tools)->0),
        );
    }
}

/// An Azure request holds the prompt and the conversation.
pub proof fn law_azure_request_holds_the_conversation(
    model: Model,
    context: Context,
    messages: Seq<Message>,
    options: Option<&AzureOpenAIResponsesOptions>,
    deployment: Seq<char>,
    properties: Pairs,
    prompt_key: Option<Seq<char>>,
    parse: spec_fn(Seq<char>) -> Option<Json>,
)
    requires
        options matches Some(o) ==> o.stream.sampling_params is None,
    ensures
        holds_items(
            crate::api::azure_openai_responses::request_body(
                model,
                context,
                messages,
                options,
                deployment,
                properties,
                prompt_key,
                parse,
            ),
            context,
            messages,
            true,
            Conversion {
                model,
                properties,
                deferred: Seq::empty(),
                mode: None,
                tool_options: None,
                parse,
            },
        ),
{
    let c = Conversion {
        model,
        properties,
        deferred: Seq::empty(),
        mode: None,
        tool_options: None,
        parse,
    };
    let items = Json::Array(items_json(converted_items(context, messages, true, c)));
    let first = no_entries().put("model"@, Json::Str(deployment)).put("input"@, items).put(
        "stream"@,
        Json::Bool(true),
    ).put("prompt_cache_key"@, crate::api::openai_responses::str_or_null(prompt_key)).put(
        "store"@,
        Json::Bool(false),
    ).put_opt(
        "max_output_tokens"@,
        crate::json::opt_number_json(
            crate::api::openai_responses::output_tokens(
                crate::api::azure_openai_responses::asked_max_tokens(options),
            ),
        ),
    ).put_opt(
        "temperature"@,
        crate::json::opt_number_json(
            crate::api::azure_openai_responses::asked_temperature(options),
        ),
    ).put_opt(
        "tools"@,
        offered_tools(
            crate::api::openai_completions::messages::opt_tools(context.tools),
            crate::api::openai_responses::tool_options(
                None,
                crate::api::azure_openai_responses::strict_mode(model),
                crate::api::azure_openai_responses::grammar_tools(model),
            ),
        ),
    );
    let effort = crate::api::azure_openai_responses::asked_effort(options);
    let summary = crate::api::azure_openai_responses::asked_summary(options);
    lemma_kept(first, model, effort, summary, ("input"@, items));
    assert(crate::api::azure_openai_responses::asked_params(options) =~= no_entries());
}

/// A Codex request holds the conversation without the prompt, which stands in its
/// instructions, and asks to have reasoning back.
pub proof fn law_codex_request_holds_the_conversation(
    model: Model,
    context: Context,
    messages: Seq<Message>,
    options: Option<&OpenAICodexResponsesOptions>,
    p: crate::api::openai_codex_responses::request::Parameters,
)
    ensures
        ({
            let body = crate::api::openai_codex_responses::request::request_body(
                model,
                context,
                messages,
                options,
                p,
            );
            &&& exists|c: Conversion| #[trigger]
                holds_items(body, context, messages, false, c) && c.model == model && c.properties
                    == p.properties && c.deferred == p.deferred
            &&& context.system_prompt matches Some(prompt) ==> says(
                body,
                "instructions"@,
                Json::Str(prompt@),
            )
            &&& context.system_prompt is None ==> says(
                body,
                "instructions"@,
                Json::Str("You are a helpful assistant."@),
            )
            &&& says(body, "parallel_tool_calls"@, Json::Bool(true))
            &&& p.session matches Some(id) ==> says(body, "prompt_cache_key"@, Json::Str(id))
            &&& says(
                body,
                "include"@,
                Json::Array(seq![Json::Str("reasoning.encrypted_content"@)]),
            )
        }),
{
    let compat = crate::api::openai_responses::resolved(model);
    let c = Conversion {
        model,
        properties: p.properties,
        deferred: p.deferred,
        mode: crate::api::openai_responses::deferred_mode(
            compat.supports_additional_tools,
            compat.supports_tool_search,
        ),
        tool_options: Some(
            crate::api::openai_responses::tool_options(
                Some(false),
                crate::api::azure_openai_responses::strict_mode(model),
                crate::api::azure_openai_responses::grammar_tools(model),
            ),
        ),
        parse: p.parse,
    };
    let body = crate::api::openai_codex_responses::request::request_body(
        model,
        context,
        messages,
        options,
        p,
    );
    assert(Seq::<Json>::empty().push(Json::Str("reasoning.encrypted_content"@)) =~= seq![
        Json::Str("reasoning.encrypted_content"@),
    ]);
    assert(holds_items(body, context, messages, false, c));
}

} // verus!
