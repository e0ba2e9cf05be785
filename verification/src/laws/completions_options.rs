//! What a request for a chat completion says besides its messages: what is cached,
//! who is to answer, how long it may think, and who asks.
use vstd::prelude::*;
use crate::api::headers::Pairs;
use crate::api::openai_completions::compat::{Compat, GatewayRouting, Routing, TemplateValue};
use crate::api::openai_completions::messages::{converted, opt_tools, Setting};
use crate::api::openai_completions::params::{
    active_tools, asked_choice, asked_effort, asked_sampling, body_head, budget_put, cache_marker,
    effort_or_off, gateway_json, last_marked, last_text_part, last_tool_marked, level_budget,
    marked_content, marked_message, request_body, routing_json, routing_put, sent_level,
    template_entries, template_value, thinking_budget, thinking_put, tool_history, tools_put,
    CompletionsInputs, OpenAICompletionsOptions,
};
use crate::api::openai_completions::request::{effort_of, session_put};
use crate::json::{
    get, lemma_with_entries, lemma_with_entry, no_entries, str_at, str_items, with_entries,
    with_entry, Entries, EntriesSpec, Json,
};
use crate::laws::wire::{group_wire, lacks, says};
use crate::number::{whole, Number};
use crate::text::opt_text;
use crate::types::{mapped_level, Context, Message, Model, ThinkingBudgets, Tool};

verus! {

broadcast use group_wire;

/// The head of a request holds its messages as they are where nothing is cached,
/// and says that it is cached where it is, and not where it is not.
pub proof fn law_head_says_what_is_asked(
    model: Model,
    messages: Seq<Json>,
    compat: Compat,
    retention: Seq<char>,
    key: Seq<char>,
    options: Option<&OpenAICompletionsOptions>,
)
    ensures
        ({
            let head = Json::Object(
                body_head(model, messages, compat, retention, Some(key), options),
            );
            let long = retention == "long"@ && compat.supports_long_cache_retention;
            &&& compat.cache_control_format is None || retention == "none"@ ==> says(
                head,
                "messages"@,
                Json::Array(messages),
            )
            &&& long ==> says(head, "prompt_cache_retention"@, Json::Str("24h"@)) && says(
                head,
                "prompt_cache_key"@,
                Json::Str(key),
            )
            &&& !long ==> lacks(head, "prompt_cache_retention"@)
            &&& retention == "none"@ ==> lacks(head, "prompt_cache_key"@)
            &&& crate::text::contains_text(model.base_url@, "api.openai.com"@) && retention
                != "none"@ ==> says(head, "prompt_cache_key"@, Json::Str(key))
            &&& !compat.supports_store ==> lacks(head, "store"@)
            &&& !compat.supports_usage_in_streaming ==> lacks(head, "stream_options"@)
            &&& options is None ==> lacks(head, "temperature"@) && lacks(head, "max_tokens"@)
                && lacks(head, "max_completion_tokens"@)
        }),
{
    reveal_strlit("long");
    reveal_strlit("none");
    assert("long"@[0] == 'l' && "none"@[0] == 'n');
    lemma_head_keys();
}

proof fn lemma_head_keys()
    ensures
        "model"@.len() == 5,
        "messages"@.len() == 8,
        "stream"@.len() == 6,
        "prompt_cache_key"@.len() == 16,
        "prompt_cache_retention"@.len() == 22,
        "stream_options"@.len() == 14,
        "store"@.len() == 5 && "store"@[0] == 's' && "model"@[0] == 'm',
        "max_tokens"@.len() == 10,
        "max_completion_tokens"@.len() == 21,
        "temperature"@.len() == 11,
{
    reveal_strlit("model");
    reveal_strlit("messages");
    reveal_strlit("stream");
    reveal_strlit("prompt_cache_key");
    reveal_strlit("prompt_cache_retention");
    reveal_strlit("stream_options");
    reveal_strlit("store");
    reveal_strlit("max_tokens");
    reveal_strlit("max_completion_tokens");
    reveal_strlit("temperature");
}

proof fn lemma_thinking_kept(
    p: Entries,
    model: Model,
    compat: Compat,
    effort: Option<Seq<char>>,
    x: (Seq<char>, Json),
)
    requires
        p.contains(x),
    ensures
        thinking_put(p, model, compat, effort).contains(x),
{
}

proof fn lemma_bounds_kept(
    p: Entries,
    model: Model,
    compat: Compat,
    options: Option<&OpenAICompletionsOptions>,
    level: Seq<char>,
    answer: Number,
    x: (Seq<char>, Json),
)
    requires
        p.contains(x),
    ensures
        routing_put(budget_put(p, model, compat, options, level, answer), compat).contains(x),
{
}

/// Each part of a request reaches its body: the head, the tools, the tool that is
/// chosen, the thinking, its budget and the routing. What is sampled by wins over
/// all of them.
pub proof fn law_parts_reach_the_body(
    model: Model,
    context: Context,
    options: Option<&OpenAICompletionsOptions>,
    compat: Compat,
    retention: Seq<char>,
    properties: Pairs,
    inputs: CompletionsInputs,
    parse: spec_fn(Seq<char>) -> Option<Json>,
    x: (Seq<char>, Json),
)
    requires
        options matches Some(o) ==> o.stream.sampling_params is None,
    ensures
        ({
            let messages = converted(
                opt_text(context.system_prompt),
                inputs.messages@,
                Setting { model, compat, tools: opt_tools(context.tools), properties, parse },
            );
            let head = body_head(
                model,
                messages,
                compat,
                retention,
                opt_text(inputs.prompt_cache_key),
                options,
            );
            let tools = tools_put(
                no_entries(),
                opt_tools(context.tools),
                context.messages@,
                compat,
                retention,
            );
            let body = request_body(
                model,
                context,
                options,
                compat,
                retention,
                properties,
                inputs,
                parse,
            );
            &&& head.contains(x) ==> says(body, x.0, x.1)
            &&& tools.contains(x) ==> says(body, x.0, x.1)
            &&& options matches Some(o) ==> (o.tool_choice matches Some(choice) ==> says(
                body,
                "tool_choice"@,
                choice@,
            ))
            &&& routing_put(no_entries(), compat).contains(x) ==> says(body, x.0, x.1)
        }),
{
    let messages = converted(
        opt_text(context.system_prompt),
        inputs.messages@,
        Setting { model, compat, tools: opt_tools(context.tools), properties, parse },
    );
    let head = body_head(
        model,
        messages,
        compat,
        retention,
        opt_text(inputs.prompt_cache_key),
        options,
    );
    let all = opt_tools(context.tools);
    let tooled = tools_put(head, all, context.messages@, compat, retention);
    let alone = tools_put(no_entries(), all, context.messages@, compat, retention);
    assert(head.contains(x) ==> tooled.contains(x));
    assert(alone.contains(x) ==> tooled.contains(x));
    let chosen = tooled.put_opt("tool_choice"@, asked_choice(options));
    let effort = asked_effort(options);
    let thinking = thinking_put(chosen, model, compat, effort);
    let bounded = budget_put(
        thinking,
        model,
        compat,
        options,
        inputs.budget_level@,
        inputs.min_answer_tokens,
    );
    assert(asked_sampling(options) =~= no_entries());
    assert(x == (x.0, x.1));
    if chosen.contains(x) {
        lemma_thinking_kept(chosen, model, compat, effort, x);
        lemma_bounds_kept(
            thinking,
            model,
            compat,
            options,
            inputs.budget_level@,
            inputs.min_answer_tokens,
            x,
        );
    }
    if let Some(choice) = asked_choice(options) {
        let y = ("tool_choice"@, choice);
        assert(chosen.contains(y));
        lemma_thinking_kept(chosen, model, compat, effort, y);
        lemma_bounds_kept(
            thinking,
            model,
            compat,
            options,
            inputs.budget_level@,
            inputs.min_answer_tokens,
            y,
        );
    }
    assert(routing_put(no_entries(), compat).contains(x) ==> routing_put(bounded, compat).contains(
        x,
    ));
}

/// What the caller samples by wins over what the request says by itself.
pub proof fn law_sampling_wins(
    model: Model,
    context: Context,
    o: &OpenAICompletionsOptions,
    compat: Compat,
    retention: Seq<char>,
    properties: Pairs,
    inputs: CompletionsInputs,
    parse: spec_fn(Seq<char>) -> Option<Json>,
    i: int,
)
    requires
        o.stream.sampling_params is Some,
        0 <= i < o.stream.sampling_params->0@.len(),
        forall|j: int|
            i < j < o.stream.sampling_params->0@.len() ==> (
            #[trigger] o.stream.sampling_params->0@[j]).0@ != o.stream.sampling_params->0@[i].0@,
    ensures
        ({
            let asked = o.stream.sampling_params->0@[i];
            let body = request_body(
                model,
                context,
                Some(o),
                compat,
                retention,
                properties,
                inputs,
                parse,
            );
            body matches Json::Object(e) && get(e, asked.0@) == Some(asked.1@)
        }),
{
    let list = crate::json::entries(o.stream.sampling_params->0@);
    let raw = o.stream.sampling_params->0@;
    let body = request_body(
        model,
        context,
        Some(o),
        compat,
        retention,
        properties,
        inputs,
        parse,
    );
    assert(asked_sampling(Some(o)) == list);
    assert(list[i] == (raw[i].0@, raw[i].1@));
    assert forall|j: int| i < j < list.len() implies (#[trigger] list[j]).0 != list[i].0 by {
        assert(list[j].0 == raw[j].0@);
    }
    let messages = converted(
        opt_text(context.system_prompt),
        inputs.messages@,
        Setting { model, compat, tools: opt_tools(context.tools), properties, parse },
    );
    let head = body_head(
        model,
        messages,
        compat,
        retention,
        opt_text(inputs.prompt_cache_key),
        Some(o),
    );
    let tooled = tools_put(head, opt_tools(context.tools), context.messages@, compat, retention);
    let chosen = tooled.put_opt("tool_choice"@, asked_choice(Some(o)));
    let thinking = thinking_put(chosen, model, compat, asked_effort(Some(o)));
    let bounded = budget_put(
        thinking,
        model,
        compat,
        Some(o),
        inputs.budget_level@,
        inputs.min_answer_tokens,
    );
    lemma_with_entries(routing_put(bounded, compat), list);
    assert(crate::json::is_last_of_key(list, i));
    assert(body == Json::Object(with_entries(routing_put(bounded, compat), list)));
}

/// Each preference for a provider is sent under its name, and none that is not
/// stated.
pub proof fn law_routing_is_sent(r: Routing, g: GatewayRouting)
    ensures
        ({
            let j = routing_json(r);
            &&& r.allow_fallbacks matches Some(b) ==> says(j, "allow_fallbacks"@, Json::Bool(b))
            &&& r.require_parameters matches Some(b) ==> says(
                j,
                "require_parameters"@,
                Json::Bool(b),
            )
            &&& r.data_collection matches Some(s) ==> says(j, "data_collection"@, Json::Str(s))
            &&& r.zdr matches Some(b) ==> says(j, "zdr"@, Json::Bool(b))
            &&& r.enforce_distillable_text matches Some(b) ==> says(
                j,
                "enforce_distillable_text"@,
                Json::Bool(b),
            )
            &&& r.order matches Some(list) ==> says(j, "order"@, Json::Array(str_items(list)))
            &&& r.only matches Some(list) ==> says(j, "only"@, Json::Array(str_items(list)))
            &&& r.ignore matches Some(list) ==> says(j, "ignore"@, Json::Array(str_items(list)))
            &&& r.quantizations matches Some(list) ==> says(
                j,
                "quantizations"@,
                Json::Array(str_items(list)),
            )
        }),
        exists|inner: Json| #[trigger]
            says(gateway_json(g), "gateway"@, inner) && (g.only matches Some(list) ==> says(
                inner,
                "only"@,
                Json::Array(str_items(list)),
            )) && (g.order matches Some(list) ==> says(
                inner,
                "order"@,
                Json::Array(str_items(list)),
            )),
{
    let inner = Json::Object(
        no_entries().put_opt(
            "only"@,
            crate::api::openai_completions::params::opt_list_json(g.only),
        ).put_opt("order"@, crate::api::openai_completions::params::opt_list_json(g.order)),
    );
    assert(says(gateway_json(g), "gateway"@, inner));
}

/// The preferences for a provider stand where its router looks for them.
pub proof fn law_routing_finds_its_place(p: Entries, compat: Compat)
    ensures
        ({
            let body = Json::Object(routing_put(p, compat));
            &&& compat.open_router_routing matches Some(r) ==> says(
                body,
                "provider"@,
                routing_json(r),
            )
            &&& compat.vercel_gateway_routing matches Some(g) ==> g.only is Some || g.order is Some
                ==> says(body, "providerOptions"@, gateway_json(g))
        }),
        compat.open_router_routing is None && compat.vercel_gateway_routing is None ==> routing_put(
            p,
            compat,
        ) == p,
{
}

proof fn lemma_levels()
    ensures
        "minimal"@ != "low"@ && "minimal"@ != "medium"@ && "minimal"@ != "high"@ && "low"@
            != "medium"@ && "low"@ != "high"@ && "medium"@ != "high"@,
{
    reveal_strlit("minimal");
    reveal_strlit("low");
    reveal_strlit("medium");
    reveal_strlit("high");
    assert("minimal"@.len() == 7 && "low"@.len() == 3 && "medium"@.len() == 6 && "high"@.len()
        == 4);
}

/// The budget of a level is what is stated for it, else what is usual for it.
pub proof fn law_level_budgets(custom: ThinkingBudgets)
    ensures
        level_budget("minimal"@, None) == whole(1024),
        level_budget("low"@, None) == whole(2048),
        level_budget("medium"@, None) == whole(8192),
        level_budget("high"@, None) == whole(16384),
        custom.minimal matches Some(n) ==> level_budget("minimal"@, Some(custom)) == n,
        custom.low matches Some(n) ==> level_budget("low"@, Some(custom)) == n,
        custom.medium matches Some(n) ==> level_budget("medium"@, Some(custom)) == n,
        custom.high matches Some(n) ==> level_budget("high"@, Some(custom)) == n,
        custom.low is None ==> level_budget("low"@, Some(custom)) == whole(2048),
{
    lemma_levels();
}

/// A budget for thinking leaves room for the answer, is no more than its level may
/// take, and is only sent where it is more than nothing.
pub proof fn law_budget_leaves_room(
    level: Seq<char>,
    custom: Option<ThinkingBudgets>,
    ceiling: Number,
    answer: Number,
)
    requires
        0 <= answer.nanos,
        0 <= ceiling.nanos,
    ensures
        thinking_budget(level, custom, ceiling, answer) matches Some(budget) ==> 0 < budget.nanos
            && budget.nanos + answer.nanos <= ceiling.nanos && budget.nanos <= level_budget(
            level,
            custom,
        ).nanos && (budget == level_budget(level, custom) || budget.nanos + answer.nanos
            == ceiling.nanos),
        thinking_budget(level, custom, ceiling, answer) is None <==> ceiling.nanos <= answer.nanos
            || level_budget(level, custom).nanos <= 0,
{
}

/// A budget is sent only where the endpoint takes one and thinking is asked for.
pub proof fn law_budget_is_sent(
    p: Entries,
    model: Model,
    compat: Compat,
    o: &OpenAICompletionsOptions,
    level: Seq<char>,
    answer: Number,
)
    ensures
        ({
            let body = Json::Object(budget_put(p, model, compat, Some(o), level, answer));
            let ceiling = match o.stream.max_tokens {
                Some(n) => n,
                None => model.max_tokens,
            };
            let sent = compat.supports_thinking_token_budget && o.reasoning_effort is Some
                && model.reasoning;
            &&& sent ==> (thinking_budget(level, o.thinking_budgets, ceiling, answer) matches Some(
                budget,
            ) ==> says(body, "thinking_token_budget"@, Json::Number(budget)))
            &&& !sent ==> body == Json::Object(p)
        }),
{
}

/// A marker for the cache is made only where the endpoint takes one and caching is
/// not switched off; it lasts an hour where a long time is asked and can be had.
pub proof fn law_cache_marker(compat: Compat, retention: Seq<char>)
    ensures
        cache_marker(compat, "none"@) is None,
        compat.cache_control_format is None ==> cache_marker(compat, retention) is None,
        compat.cache_control_format == Some("anthropic"@) && retention != "none"@ ==> (cache_marker(
            compat,
            retention,
        ) matches Some(marker) && says(marker, "type"@, Json::Str("ephemeral"@)) && (retention
            == "long"@ && compat.supports_long_cache_retention ==> says(
            marker,
            "ttl"@,
            Json::Str("1h"@),
        )) && (!(retention == "long"@ && compat.supports_long_cache_retention) ==> lacks(
            marker,
            "ttl"@,
        ))),
{
    reveal_strlit("ttl");
    reveal_strlit("type");
    assert("ttl"@.len() == 3 && "type"@.len() == 4);
}

proof fn lemma_last_text_part(parts: Seq<Json>)
    ensures
        ({
            let i = last_text_part(parts);
            &&& -1 <= i < parts.len()
            &&& i >= 0 ==> crate::api::openai_completions::params::is_text_part(parts[i])
            &&& forall|j: int|
                i < j < parts.len() ==> !crate::api::openai_completions::params::is_text_part(
                    #[trigger] parts[j],
                )
        }),
    decreases parts.len(),
{
    if parts.len() > 0 && !crate::api::openai_completions::params::is_text_part(parts.last()) {
        lemma_last_text_part(parts.drop_last());
        let i = last_text_part(parts);
        assert forall|j: int|
            i < j < parts.len() implies !crate::api::openai_completions::params::is_text_part(
            #[trigger] parts[j],
        ) by {
            if j < parts.len() - 1 {
                assert(parts.drop_last()[j] == parts[j]);
            }
        }
    }
}

/// A marker is put on the last text of a message: a plain text becomes one part that
/// says the same, and in a list only the last text changes, by the marker alone.
pub proof fn law_last_text_is_marked(text: Seq<char>, parts: Seq<Json>, marker: Json, e: Entries)
    requires
        text.len() > 0,
        str_at(e, "type"@) == Some("text"@),
    ensures
        marked_content(Json::Str(text), marker) matches Some(Json::Array(list)) && list.len() == 1
            && says(list[0], "type"@, Json::Str("text"@)) && says(list[0], "text"@, Json::Str(text))
            && says(list[0], "cache_control"@, marker),
        marked_content(Json::Str(Seq::empty()), marker) is None,
        marked_content(Json::Array(parts.push(Json::Object(e))), marker) matches Some(
            Json::Array(list),
        ) && list.drop_last() =~= parts && (list.last() matches Json::Object(now) && get(
            now,
            "cache_control"@,
        ) == Some(marker) && forall|key: Seq<char>|
            key != "cache_control"@ ==> #[trigger] get(now, key) == get(e, key)),
        (forall|i: int|
            0 <= i < parts.len() ==> !((#[trigger] parts[i]) matches Json::Object(p) && str_at(
                p,
                "type"@,
            ) == Some("text"@))) ==> marked_content(Json::Array(parts), marker) is None,
{
    lemma_last_text_part(parts.push(Json::Object(e)));
    lemma_last_text_part(parts);
    let all = parts.push(Json::Object(e));
    assert(last_text_part(all) == parts.len());
    let now = with_entry(e, "cache_control"@, marker);
    assert forall|key: Seq<char>| key != "cache_control"@ implies #[trigger] get(now, key) == get(
        e,
        key,
    ) by {
        lemma_with_entry(e, "cache_control"@, marker, key);
    }
    lemma_with_entry(e, "cache_control"@, marker, "cache_control"@);
    if last_text_part(parts) >= 0 {
        assert(crate::api::openai_completions::params::is_text_part(
            parts[last_text_part(parts)],
        ));
    }
}

/// Only the last message of a conversation that can carry a marker is marked.
pub proof fn law_last_message_is_marked(messages: Seq<Json>, message: Json, marker: Json)
    ensures
        last_marked(messages, marker).len() == messages.len(),
        marked_message(message, marker) matches Some(marked) ==> last_marked(
            messages.push(message),
            marker,
        ) == messages.push(marked),
        marked_message(message, marker) is None ==> last_marked(messages.push(message), marker)
            == last_marked(messages, marker).push(message),
        (message matches Json::Object(e) && (str_at(e, "role"@) == Some("system"@) || str_at(
            e,
            "role"@,
        ) == Some("developer"@))) ==> marked_message(message, marker) is None,
    decreases messages.len(),
{
    assert(messages.push(message).drop_last() =~= messages);
    reveal_strlit("system");
    reveal_strlit("developer");
    reveal_strlit("user");
    reveal_strlit("assistant");
    reveal_strlit("tool");
    assert("system"@.len() == 6 && "developer"@.len() == 9 && "user"@.len() == 4
        && "assistant"@.len() == 9 && "tool"@.len() == 4);
    assert("developer"@[0] == 'd' && "assistant"@[0] == 'a');
    if messages.len() > 0 {
        law_last_message_is_marked(messages.drop_last(), message, marker);
    }
}

/// Only the last tool is marked, by the marker alone.
pub proof fn law_last_tool_is_marked(tools: Seq<Json>, e: Entries, marker: Json)
    ensures
        last_tool_marked(tools.push(Json::Object(e)), marker) == tools.push(
            Json::Object(e.push(("cache_control"@, marker))),
        ),
        last_tool_marked(Seq::empty(), marker).len() == 0,
{
    assert(tools.push(Json::Object(e)).drop_last() =~= tools);
}

/// A level of thinking is sent as what the model maps it to, else as it is; where
/// none is asked for, what the model maps `off` to is sent.
pub proof fn law_levels_are_mapped(model: Model, level: Seq<char>, mapped: Seq<char>)
    ensures
        mapped_level(model, level) == Some(mapped) ==> sent_level(model, level) == mapped
            && effort_or_off(model, Some(level)) == Some(mapped),
        mapped_level(model, level) is None ==> sent_level(model, level) == level && effort_or_off(
            model,
            Some(level),
        ) == Some(level),
        effort_or_off(model, None) == mapped_level(model, "off"@),
        model.thinking_level_map is None ==> sent_level(model, level) == level,
        effort_of(Some("off"@)) is None,
        level != "off"@ ==> effort_of(Some(level)) == Some(level),
        effort_of(None) is None,
{
}

/// The values of a chat template are sent under their names, in order; a variable
/// says whether or how hard to think.
pub proof fn law_template_values(
    model: Model,
    effort: Option<Seq<char>>,
    values: Seq<(Seq<char>, TemplateValue)>,
    name: Seq<char>,
    text: Seq<char>,
    n: Number,
    b: bool,
)
    ensures
        template_entries(model, effort, Seq::empty()).len() == 0,
        template_entries(model, effort, values.push((name, TemplateValue::Str(text))))
            == template_entries(model, effort, values).push((name, Json::Str(text))),
        template_entries(model, effort, values.push((name, TemplateValue::Number(n))))
            == template_entries(model, effort, values).push((name, Json::Number(n))),
        template_entries(model, effort, values.push((name, TemplateValue::Bool(b))))
            == template_entries(model, effort, values).push((name, Json::Bool(b))),
        template_entries(model, effort, values.push((name, TemplateValue::Null)))
            == template_entries(model, effort, values).push((name, Json::Null)),
        template_value(
            model,
            effort,
            TemplateValue::Var { var: "thinking.enabled"@, omit_when_off: None },
        ) == Some(Json::Bool(effort is Some)),
        template_value(
            model,
            None,
            TemplateValue::Var { var: text, omit_when_off: Some(true) },
        ) is None,
        text != "thinking.enabled"@ ==> (effort matches Some(level) ==> (mapped_level(model, level)
            is None ==> template_value(
            model,
            effort,
            TemplateValue::Var { var: text, omit_when_off: Some(b) },
        ) == Some(Json::Str(level)))),
{
    assert(values.push((name, TemplateValue::Str(text))).drop_last() =~= values);
    assert(values.push((name, TemplateValue::Number(n))).drop_last() =~= values);
    assert(values.push((name, TemplateValue::Bool(b))).drop_last() =~= values);
    assert(values.push((name, TemplateValue::Null)).drop_last() =~= values);
}

/// The tools that are offered at once are those that are not deferred, in order.
pub proof fn law_deferred_tools_wait(tools: Seq<Tool>, tool: Tool, deferred: Seq<Seq<char>>)
    ensures
        deferred.contains(tool.name@) ==> active_tools(tools.push(tool), deferred) == active_tools(
            tools,
            deferred,
        ),
        !deferred.contains(tool.name@) ==> active_tools(tools.push(tool), deferred) == active_tools(
            tools,
            deferred,
        ).push(tool),
        active_tools(Seq::empty(), deferred).len() == 0,
{
    assert(tools.push(tool).drop_last() =~= tools);
}

/// A conversation that has used tools says so even where it offers none.
pub proof fn law_used_tools_are_told(
    p: Entries,
    messages: Seq<Message>,
    compat: Compat,
    retention: Seq<char>,
    i: int,
)
    requires
        0 <= i < messages.len(),
        messages[i] is ToolResult,
    ensures
        tool_history(messages),
        says(
            Json::Object(tools_put(p, Seq::empty(), messages, compat, retention)),
            "tools"@,
            Json::Array(Seq::empty()),
        ),
        !tool_history(Seq::empty()),
        tools_put(p, Seq::empty(), Seq::empty(), compat, retention) == p,
{
    assert(crate::api::openai_completions::params::calls_or_results(messages[i]));
}

/// A session is told to the endpoints that want to know it, in their own way.
pub proof fn law_session_headers(h: Pairs, compat: Compat, id: Seq<char>)
    ensures
        session_put(h, compat, None) == h,
        !compat.send_session_affinity_headers ==> session_put(h, compat, Some(id)) == h,
        compat.send_session_affinity_headers && compat.session_affinity_format == "openrouter"@
            ==> session_put(h, compat, Some(id)) == h.push(("x-session-id"@, id)),
        compat.send_session_affinity_headers && compat.session_affinity_format == "openai"@
            ==> session_put(h, compat, Some(id)) =~= h + seq![
            ("session_id"@, id),
            ("x-client-request-id"@, id),
            ("x-session-affinity"@, id),
        ],
        compat.send_session_affinity_headers && compat.session_affinity_format != "openai"@
            && compat.session_affinity_format != "openrouter"@ ==> session_put(h, compat, Some(id))
            =~= h + seq![("x-client-request-id"@, id), ("x-session-affinity"@, id)],
{
    reveal_strlit("openai");
    reveal_strlit("openrouter");
    assert("openai"@.len() == 6 && "openrouter"@.len() == 10);
}

proof fn lemma_formats()
    ensures
        "zai"@.len() == 3,
        "qwen"@.len() == 4,
        "qwen-chat-template"@.len() == 18,
        "chat-template"@.len() == 13,
        "baseten"@.len() == 7,
        "deepseek"@.len() == 8 && "deepseek"@[0] == 'd',
        "openrouter"@.len() == 10,
        "ant-ling"@.len() == 8 && "ant-ling"@[0] == 'a',
        "together"@.len() == 8 && "together"@[0] == 't',
        "string-thinking"@.len() == 15,
        "openai"@.len() == 6,
{
    reveal_strlit("zai");
    reveal_strlit("qwen");
    reveal_strlit("qwen-chat-template");
    reveal_strlit("chat-template");
    reveal_strlit("baseten");
    reveal_strlit("deepseek");
    reveal_strlit("openrouter");
    reveal_strlit("ant-ling");
    reveal_strlit("together");
    reveal_strlit("string-thinking");
    reveal_strlit("openai");
}

/// How each way of asking for thinking says a level that the model maps to a word of
/// its own, and how it says that none is asked.
pub proof fn law_mapped_levels_are_sent(
    p: Entries,
    model: Model,
    compat: Compat,
    effort: Seq<char>,
    word: Seq<char>,
    off_word: Seq<char>,
)
    requires
        model.reasoning,
        mapped_level(model, effort) == Some(word),
        mapped_level(model, "off"@) == Some(off_word),
        compat.supports_reasoning_effort,
    ensures
        ({
            let format = compat.thinking_format;
            let on = Json::Object(thinking_put(p, model, compat, Some(effort)));
            let off = Json::Object(thinking_put(p, model, compat, None));
            let plain = Json::Str(word);
            &&& format == "openai"@ || format == "zai"@ || format == "qwen"@ || format
                == "deepseek"@ || format == "together"@ || format == "baseten"@ ==> says(
                on,
                "reasoning_effort"@,
                plain,
            )
            &&& format == "openai"@ || format == "baseten"@ ==> says(
                off,
                "reasoning_effort"@,
                Json::Str(off_word),
            )
            &&& format == "openrouter"@ || format == "ant-ling"@ ==> exists|inner: Json|
             #[trigger]
                says(on, "reasoning"@, inner) && says(inner, "effort"@, plain)
            &&& format == "openrouter"@ ==> exists|inner: Json| #[trigger]
                says(off, "reasoning"@, inner) && says(inner, "effort"@, Json::Str(off_word))
            &&& format == "ant-ling"@ ==> off == Json::Object(p)
            &&& format == "string-thinking"@ ==> says(on, "thinking"@, plain) && says(
                off,
                "thinking"@,
                Json::Str(off_word),
            )
            &&& format == "deepseek"@ ==> exists|inner: Json| #[trigger]
                says(off, "thinking"@, inner) && says(inner, "type"@, Json::Str("disabled"@))
            &&& format == "qwen-chat-template"@ ==> exists|inner: Json| #[trigger]
                says(on, "chat_template_kwargs"@, inner) && says(
                    inner,
                    "enable_thinking"@,
                    Json::Bool(true),
                ) && says(inner, "preserve_thinking"@, Json::Bool(true))
            &&& format == "qwen-chat-template"@ ==> exists|inner: Json| #[trigger]
                says(off, "chat_template_kwargs"@, inner) && says(
                    inner,
                    "enable_thinking"@,
                    Json::Bool(false),
                )
        }),
{
    lemma_formats();
    let format = compat.thinking_format;
    let on = Json::Object(thinking_put(p, model, compat, Some(effort)));
    let off = Json::Object(thinking_put(p, model, compat, None));
    let told = crate::json::one_entry("effort"@, Json::Str(word));
    let told_off = crate::json::one_entry("effort"@, Json::Str(off_word));
    if format == "openrouter"@ || format == "ant-ling"@ {
        assert(says(on, "reasoning"@, told));
    }
    if format == "openrouter"@ {
        assert(says(off, "reasoning"@, told_off));
    }
    if format == "deepseek"@ {
        assert(says(
            off,
            "thinking"@,
            crate::json::one_entry("type"@, Json::Str("disabled"@)),
        ));
    }
    if format == "qwen-chat-template"@ {
        let yes = Json::Object(
            no_entries().put("enable_thinking"@, Json::Bool(true)).put(
                "preserve_thinking"@,
                Json::Bool(true),
            ),
        );
        let no = Json::Object(
            no_entries().put("enable_thinking"@, Json::Bool(false)).put(
                "preserve_thinking"@,
                Json::Bool(true),
            ),
        );
        assert(says(on, "chat_template_kwargs"@, yes));
        assert(says(off, "chat_template_kwargs"@, no));
    }
}

/// The values of a chat template are sent where the endpoint looks for them, and not
/// at all where there are none; a model that does not think is told nothing.
pub proof fn law_templates_are_sent(
    p: Entries,
    model: Model,
    compat: Compat,
    effort: Option<Seq<char>>,
    name: Seq<char>,
    value: Seq<char>,
)
    ensures
        !model.reasoning ==> thinking_put(p, model, compat, effort) == p,
        model.reasoning && compat.thinking_format == "chat-template"@
            && compat.chat_template_kwargs == Some(seq![(name, TemplateValue::Str(value))])
            ==> exists|inner: Json| #[trigger]
            says(
                Json::Object(thinking_put(p, model, compat, effort)),
                "chat_template_kwargs"@,
                inner,
            ) && says(inner, name, Json::Str(value)),
        model.reasoning && compat.thinking_format == "chat-template"@
            && compat.chat_template_kwargs is None ==> thinking_put(p, model, compat, effort) == p,
        model.reasoning && compat.thinking_format == "baseten"@ && compat.chat_template_args
            == Some(seq![(name, TemplateValue::Str(value))]) ==> exists|inner: Json| #[trigger]
            says(
                Json::Object(thinking_put(p, model, compat, effort)),
                "chat_template_args"@,
                inner,
            ) && says(inner, name, Json::Str(value)),
{
    lemma_formats();
    let one = seq![(name, TemplateValue::Str(value))];
    reveal_with_fuel(template_entries, 2);
    assert(one.drop_last() =~= Seq::<(Seq<char>, TemplateValue)>::empty());
    let e = template_entries(model, effort, one);
    assert(e == no_entries().put(name, Json::Str(value)));
    let inner = Json::Object(e);
    let body = Json::Object(thinking_put(p, model, compat, effort));
    if model.reasoning && compat.thinking_format == "chat-template"@
        && compat.chat_template_kwargs == Some(one) {
        assert(says(body, "chat_template_kwargs"@, inner));
    }
    if model.reasoning && compat.thinking_format == "baseten"@ && compat.chat_template_args
        == Some(one) {
        assert(says(body, "chat_template_args"@, inner));
    }
}

} // verus!
