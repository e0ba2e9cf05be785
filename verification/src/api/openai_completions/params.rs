//! The body of a request.
use vstd::prelude::*;
use vstd::string::*;
use super::compat::{
    opt_template_values, template_values, Compat, GatewayRouting, ResolvedOpenAICompletionsCompat,
    Routing, TemplateValue,
};
use super::messages::{
    convert_messages, convert_tool, converted, deferred_names, get_deferred_tool_names, opt_tools,
    tool_json, tools_json, ConvertCompletionsMessagesOptions, Setting,
};
use crate::api::headers::{clone_pairs, Pairs};
use crate::json::{
    array, as_object, clone_entries, clone_items, entries, get, get_str, get_value, is_last_of_key,
    is_parser, items, lemma_with_entries, new_entries, new_items, no_entries, object, object1,
    one_entry, opt_bool_json, opt_json, opt_number_json, opt_str_json, parser_of, push_item, put,
    put_array, put_bool, put_object, put_opt_bool, put_opt_number, put_opt_str, put_str,
    set_entries, set_entry, str_at, str_items, string, string_array, with_entries, with_entry,
    Entries, EntriesSpec, Json, Value,
};
use crate::number::{difference, greater, lesser, whole, Number};
use crate::text::{
    borrow_opt, contains, contains_string, contains_text, opt_is, opt_str, opt_text, str_eq, texts,
};
use crate::types::{
    mapped_level, pairs, ChatTemplateKwargValue, Context, Message, Model, OpenRouterRouting,
    StreamOptions, ThinkingBudgets, Tool, VercelGatewayRouting,
};

verus! {

/// Options of a Chat Completions stream.
#[derive(Clone, Debug, Default)]
pub struct OpenAICompletionsOptions {
    pub stream: StreamOptions,
    pub tool_choice: Option<Value>,
    pub reasoning_effort: Option<String>,
    /// Token budgets for the levels of thinking, for endpoints that take one.
    pub thinking_budgets: Option<ThinkingBudgets>,
}

impl From<OpenAICompletionsOptions> for StreamOptions {
    fn from(options: OpenAICompletionsOptions) -> (r: StreamOptions) {
        options.stream
    }
}

impl vstd::std_specs::convert::FromSpecImpl<OpenAICompletionsOptions> for StreamOptions {
    open spec fn obeys_from_spec() -> bool {
        true
    }

    open spec fn from_spec(options: OpenAICompletionsOptions) -> StreamOptions {
        options.stream
    }
}

/// What is settled before a body is built: the messages as prepared for the
/// model, the key of the prompt cache, the level that a thinking budget is
/// looked up by, and the tokens that an answer needs at least.
#[derive(Clone, Debug)]
pub struct CompletionsInputs {
    pub messages: Vec<Message>,
    pub prompt_cache_key: Option<String>,
    pub budget_level: String,
    pub min_answer_tokens: Number,
}

// ---------------------------------------------------------------------------
// Cache markers
// ---------------------------------------------------------------------------

#[derive(Clone, Debug, PartialEq, Eq)]
pub struct OpenAICompatCacheControl {
    pub type_: String,
    pub ttl: Option<String>,
}

/// The cache marker for an endpoint, as JSON, where it takes one.
pub open spec fn cache_marker(compat: Compat, retention: Seq<char>) -> Option<Json> {
    if compat.cache_control_format != Some("anthropic"@) || retention == "none"@ {
        None
    } else {
        let ttl = if retention == "long"@ && compat.supports_long_cache_retention {
            Some("1h"@)
        } else {
            None
        };
        Some(
            Json::Object(
                no_entries().put("type"@, Json::Str("ephemeral"@)).put_opt("ttl"@, opt_str_json(ttl)),
            ),
        )
    }
}

pub open spec fn marker_json(m: OpenAICompatCacheControl) -> Json {
    Json::Object(
        no_entries().put("type"@, Json::Str(m.type_@)).put_opt(
            "ttl"@,
            opt_str_json(opt_text(m.ttl)),
        ),
    )
}

fn get_compat_cache_control(
    compat: &ResolvedOpenAICompletionsCompat,
    cache_retention: &str,
) -> (r: Option<OpenAICompatCacheControl>)
    ensures
        match r {
            Some(m) => cache_marker(compat@, cache_retention@) == Some(marker_json(m)),
            None => cache_marker(compat@, cache_retention@) is None,
        },
{
    if !opt_is(borrow_opt(&compat.cache_control_format), "anthropic") || str_eq(
        cache_retention,
        "none",
    ) {
        return None;
    }
    let ttl = if str_eq(cache_retention, "long") && compat.supports_long_cache_retention {
        Some("1h".to_owned())
    } else {
        None
    };
    Some(OpenAICompatCacheControl { type_: "ephemeral".to_owned(), ttl })
}

fn cache_control_to_value(m: &OpenAICompatCacheControl) -> (r: Value)
    ensures
        r@ == marker_json(*m),
{
    let mut e = new_entries();
    put_str(&mut e, "type", m.type_.as_str());
    put_opt_str(&mut e, "ttl", borrow_opt(&m.ttl));
    object(e)
}

/// Whether a part of a message is a text part.
pub open spec fn is_text_part(part: Json) -> bool {
    match part {
        Json::Object(e) => str_at(e, "type"@) == Some("text"@),
        _ => false,
    }
}

/// The position of the last text part, or -1.
pub open spec fn last_text_part(parts: Seq<Json>) -> int
    decreases parts.len(),
{
    if parts.len() == 0 {
        -1
    } else if is_text_part(parts.last()) {
        parts.len() - 1
    } else {
        last_text_part(parts.drop_last())
    }
}

/// The content of a message with a marker on its last text, where it has one.
pub open spec fn marked_content(content: Json, marker: Json) -> Option<Json> {
    match content {
        Json::Str(text) => if text.len() == 0 {
            None
        } else {
            Some(
                Json::Array(
                    Seq::<Json>::empty().push(
                        Json::Object(
                            no_entries().put("type"@, Json::Str("text"@)).put(
                                "text"@,
                                Json::Str(text),
                            ).put("cache_control"@, marker),
                        ),
                    ),
                ),
            )
        },
        Json::Array(parts) => {
            let i = last_text_part(parts);
            if 0 <= i < parts.len() {
                Some(
                    Json::Array(
                        parts.update(
                            i,
                            Json::Object(
                                with_entry(parts[i]->Object_0, "cache_control"@, marker),
                            ),
                        ),
                    ),
                )
            } else {
                None
            }
        },
        _ => None,
    }
}

pub open spec fn role_of(message: Json) -> Option<Seq<char>> {
    match message {
        Json::Object(e) => str_at(e, "role"@),
        _ => None,
    }
}

pub open spec fn is_conversation(role: Option<Seq<char>>) -> bool {
    role == Some("user"@) || role == Some("assistant"@) || role == Some("tool"@)
}

/// A message of the conversation with a marker on its last text, where it has
/// one.
pub open spec fn marked_message(message: Json, marker: Json) -> Option<Json> {
    if !is_conversation(role_of(message)) {
        None
    } else {
        let e = message->Object_0;
        match get(e, "content"@) {
            Some(content) => match marked_content(content, marker) {
                Some(content) => Some(Json::Object(with_entry(e, "content"@, content))),
                None => None,
            },
            None => None,
        }
    }
}

/// The messages with a marker on the last one of the conversation that can
/// carry it.
pub open spec fn last_marked(messages: Seq<Json>, marker: Json) -> Seq<Json>
    decreases messages.len(),
{
    if messages.len() == 0 {
        messages
    } else {
        match marked_message(messages.last(), marker) {
            Some(message) => messages.drop_last().push(message),
            None => last_marked(messages.drop_last(), marker).push(messages.last()),
        }
    }
}

/// The tools with a marker on the last one.
pub open spec fn last_tool_marked(tools: Seq<Json>, marker: Json) -> Seq<Json> {
    if tools.len() == 0 {
        tools
    } else {
        match tools.last() {
            Json::Object(e) => tools.drop_last().push(
                Json::Object(e.put("cache_control"@, marker)),
            ),
            _ => tools,
        }
    }
}

fn is_text(part: &Value) -> (r: bool)
    ensures
        r == is_text_part(part@),
{
    match part.as_object() {
        Some(e) => opt_is(borrow_opt(&get_str(e, "type")), "text"),
        None => false,
    }
}

proof fn lemma_last_text_part(parts: Seq<Json>)
    ensures
        -1 <= last_text_part(parts) < parts.len(),
        last_text_part(parts) >= 0 ==> is_text_part(parts[last_text_part(parts)]),
    decreases parts.len(),
{
    if parts.len() > 0 && !is_text_part(parts.last()) {
        lemma_last_text_part(parts.drop_last());
    }
}

/// Puts a marker on the last text of a message's content.
fn add_cache_control_to_text_content(
    content: &Value,
    marker: &OpenAICompatCacheControl,
) -> (r: Option<Value>)
    ensures
        opt_json(r) == marked_content(content@, marker_json(*marker)),
{
    match content {
        Value::Str(text) => {
            if text.as_str().is_empty() {
                return None;
            }
            let mut e = new_entries();
            put_str(&mut e, "type", "text");
            put_str(&mut e, "text", text.as_str());
            put(&mut e, "cache_control", cache_control_to_value(marker));
            let mut list = new_items();
            push_item(&mut list, object(e));
            Some(array(list))
        },
        Value::Array(parts) => {
            let mut n: usize = parts.len();
            let ghost all = items(parts@);
            proof {
                assert(content@->Array_0 =~= all);
                assert(all.take(n as int) =~= all);
            }
            while n > 0
                invariant
                    n <= parts@.len(),
                    all == items(parts@),
                    content@ == Json::Array(all),
                    last_text_part(all) == last_text_part(all.take(n as int)),
                decreases n,
            {
                if is_text(&parts[n - 1]) {
                    let mut list = clone_items(parts);
                    match parts[n - 1].as_object() {
                        Some(e) => {
                            let mut e = clone_entries(e);
                            set_entry(&mut e, "cache_control", cache_control_to_value(marker));
                            let part = object(e);
                            list.set(n - 1, part);
                            proof {
                                assert(items(list@) =~= all.update(n - 1, part@));
                                assert(all.take(n as int).last() == all[n - 1]);
                            }
                            return Some(array(list));
                        },
                        None => {},
                    }
                }
                proof {
                    assert(all.take(n as int).drop_last() =~= all.take(n - 1));
                }
                n -= 1;
            }
            None
        },
        _ => None,
    }
}

fn message_role(message: &Value) -> (r: Option<String>)
    ensures
        opt_text(r) == role_of(message@),
{
    match message.as_object() {
        Some(e) => get_str(e, "role"),
        None => None,
    }
}

fn add_cache_control_to_message(message: &Value, marker: &OpenAICompatCacheControl) -> (r: Option<
    Value,
>)
    ensures
        opt_json(r) == marked_message(message@, marker_json(*marker)),
{
    let role = message_role(message);
    let role = borrow_opt(&role);
    if !(opt_is(role, "user") || opt_is(role, "assistant") || opt_is(role, "tool")) {
        return None;
    }
    match message.as_object() {
        Some(e) => match get_value(e, "content") {
            Some(content) => match add_cache_control_to_text_content(content, marker) {
                Some(content) => {
                    let mut e = clone_entries(e);
                    set_entry(&mut e, "content", content);
                    Some(object(e))
                },
                None => None,
            },
            None => None,
        },
        None => None,
    }
}

fn add_cache_control_to_last_conversation_message(
    messages: &mut Vec<Value>,
    marker: &OpenAICompatCacheControl,
)
    ensures
        items(final(messages)@) == last_marked(items(old(messages)@), marker_json(*marker)),
{
    let ghost all = items(messages@);
    let ghost m = marker_json(*marker);
    let mut n: usize = messages.len();
    proof {
        assert(all.take(n as int) =~= all);
        assert(last_marked(all, m) =~= last_marked(all.take(n as int), m) + all.skip(n as int));
    }
    while n > 0
        invariant
            n <= messages@.len(),
            all == items(messages@),
            all == items(old(messages)@),
            m == marker_json(*marker),
            last_marked(all, m) == last_marked(all.take(n as int), m) + all.skip(n as int),
        decreases n,
    {
        let ghost head = all.take(n as int);
        proof {
            assert(head.drop_last() =~= all.take(n - 1));
            assert(head.last() == messages@[n - 1]@);
        }
        if let Some(message) = add_cache_control_to_message(&messages[n - 1], marker) {
            messages.set(n - 1, message);
            proof {
                assert(items(messages@) =~= all.take(n - 1).push(message@) + all.skip(n as int));
            }
            return ;
        }
        proof {
            assert(last_marked(all.take(n - 1), m).push(head.last()) + all.skip(n as int)
                =~= last_marked(all.take(n - 1), m) + all.skip(n - 1));
        }
        n -= 1;
    }
    proof {
        assert(all.skip(0) =~= all);
        assert(last_marked(all.take(0), m) + all =~= all);
    }
}

fn add_cache_control_to_last_tool(tools: &mut Vec<Value>, marker: &OpenAICompatCacheControl)
    ensures
        items(final(tools)@) == last_tool_marked(items(old(tools)@), marker_json(*marker)),
{
    let n: usize = tools.len();
    if n > 0 {
        let marked = match tools[n - 1].as_object() {
            Some(e) => {
                let mut e = clone_entries(e);
                put(&mut e, "cache_control", cache_control_to_value(marker));
                object(e)
            },
            None => {
                return ;
            },
        };
        tools.set(n - 1, marked);
        proof {
            assert(items(tools@) =~= items(old(tools)@).drop_last().push(marked@));
        }
    }
}

// ---------------------------------------------------------------------------
// Values of a chat template
// ---------------------------------------------------------------------------

/// What is sent for a level of thinking: what the model maps it to, or itself.
pub open spec fn sent_level(model: Model, level: Seq<char>) -> Seq<char> {
    match mapped_level(model, level) {
        Some(mapped) => mapped,
        None => level,
    }
}

fn level_to_send(model: &Model, level: &str) -> (r: String)
    ensures
        r@ == sent_level(*model, level@),
{
    match model.mapped_level(level) {
        Some(mapped) => mapped,
        None => level.to_owned(),
    }
}

/// What is sent for the level of thinking that is asked for, or for none.
pub open spec fn effort_or_off(model: Model, effort: Option<Seq<char>>) -> Option<Seq<char>> {
    match effort {
        Some(effort) => Some(sent_level(model, effort)),
        None => mapped_level(model, "off"@),
    }
}

fn level_or_off(model: &Model, effort: Option<&str>) -> (r: Option<String>)
    ensures
        opt_text(r) == effort_or_off(*model, opt_str(effort)),
{
    match effort {
        Some(effort) => Some(level_to_send(model, effort)),
        None => model.mapped_level("off"),
    }
}

pub open spec fn template_value(
    model: Model,
    effort: Option<Seq<char>>,
    value: TemplateValue,
) -> Option<Json> {
    match value {
        TemplateValue::Str(s) => Some(Json::Str(s)),
        TemplateValue::Number(n) => Some(Json::Number(n)),
        TemplateValue::Bool(b) => Some(Json::Bool(b)),
        TemplateValue::Null => Some(Json::Null),
        TemplateValue::Var { var, omit_when_off } => if effort is None && omit_when_off == Some(
            true,
        ) {
            None
        } else if var == "thinking.enabled"@ {
            Some(Json::Bool(effort is Some))
        } else {
            opt_str_json(effort_or_off(model, effort))
        },
    }
}

/// The values of a chat template that are sent.
pub open spec fn template_entries(
    model: Model,
    effort: Option<Seq<char>>,
    values: Seq<(Seq<char>, TemplateValue)>,
) -> Entries
    decreases values.len(),
{
    if values.len() == 0 {
        no_entries()
    } else {
        template_entries(model, effort, values.drop_last()).put_opt(
            values.last().0,
            template_value(model, effort, values.last().1),
        )
    }
}

/// The values of a chat template as an entry, where any is sent.
pub open spec fn template_json(
    model: Model,
    effort: Option<Seq<char>>,
    values: Option<Seq<(Seq<char>, TemplateValue)>>,
) -> Option<Json> {
    match values {
        Some(values) => {
            let e = template_entries(model, effort, values);
            if e.len() == 0 {
                None
            } else {
                Some(Json::Object(e))
            }
        },
        None => None,
    }
}

fn resolve_chat_template_kwarg_value(
    model: &Model,
    effort: Option<&str>,
    value: &ChatTemplateKwargValue,
) -> (r: Option<Value>)
    ensures
        opt_json(r) == template_value(*model, opt_str(effort), value@),
{
    match value {
        ChatTemplateKwargValue::Str(s) => Some(string(s.as_str())),
        ChatTemplateKwargValue::Number(n) => Some(Value::Number(*n)),
        ChatTemplateKwargValue::Bool(b) => Some(Value::Bool(*b)),
        ChatTemplateKwargValue::Null => Some(Value::Null),
        ChatTemplateKwargValue::Var { var, omit_when_off } => {
            let omit = match omit_when_off {
                Some(omit) => *omit,
                None => false,
            };
            if effort.is_none() && omit {
                return None;
            }
            if str_eq(var.as_str(), "thinking.enabled") {
                return Some(Value::Bool(effort.is_some()));
            }
            match level_or_off(model, effort) {
                Some(level) => Some(string(level.as_str())),
                None => None,
            }
        },
    }
}

fn build_chat_template_values(
    model: &Model,
    effort: Option<&str>,
    values: &Option<Vec<(String, ChatTemplateKwargValue)>>,
) -> (r: Option<Value>)
    ensures
        opt_json(r) == template_json(*model, opt_str(effort), opt_template_values(*values)),
{
    let list = match values {
        Some(list) => list,
        None => {
            return None;
        },
    };
    let mut e = new_entries();
    let mut i: usize = 0;
    while i < list.len()
        invariant
            i <= list@.len(),
            entries(e@) == template_entries(
                *model,
                opt_str(effort),
                template_values(list@).take(i as int),
            ),
        decreases list.len() - i,
    {
        proof {
            assert(template_values(list@).take(i + 1).drop_last() =~= template_values(list@).take(
                i as int,
            ));
        }
        if let Some(value) = resolve_chat_template_kwarg_value(model, effort, &list[i].1) {
            put(&mut e, list[i].0.as_str(), value);
        }
        i += 1;
    }
    proof {
        assert(template_values(list@).take(list@.len() as int) =~= template_values(list@));
        assert(entries(e@).len() == e@.len());
    }
    if e.len() == 0 {
        None
    } else {
        Some(object(e))
    }
}

// ---------------------------------------------------------------------------
// Routing
// ---------------------------------------------------------------------------

/// An optional list of texts as a value.
pub open spec fn opt_list_json(list: Option<Seq<Seq<char>>>) -> Option<Json> {
    match list {
        Some(list) => Some(Json::Array(str_items(list))),
        None => None,
    }
}

pub open spec fn routing_json(routing: Routing) -> Json {
    Json::Object(
        no_entries().put_opt("allow_fallbacks"@, opt_bool_json(routing.allow_fallbacks)).put_opt(
            "require_parameters"@,
            opt_bool_json(routing.require_parameters),
        ).put_opt("data_collection"@, opt_str_json(routing.data_collection)).put_opt(
            "zdr"@,
            opt_bool_json(routing.zdr),
        ).put_opt(
            "enforce_distillable_text"@,
            opt_bool_json(routing.enforce_distillable_text),
        ).put_opt("order"@, opt_list_json(routing.order)).put_opt(
            "only"@,
            opt_list_json(routing.only),
        ).put_opt("ignore"@, opt_list_json(routing.ignore)).put_opt(
            "quantizations"@,
            opt_list_json(routing.quantizations),
        ),
    )
}

pub open spec fn gateway_json(routing: GatewayRouting) -> Json {
    one_entry(
        "gateway"@,
        Json::Object(
            no_entries().put_opt("only"@, opt_list_json(routing.only)).put_opt(
                "order"@,
                opt_list_json(routing.order),
            ),
        ),
    )
}

fn put_list(e: &mut Vec<(String, Value)>, key: &str, list: &Option<Vec<String>>)
    ensures
        entries(final(e)@) == entries(old(e)@).put_opt(
            key@,
            opt_list_json(super::compat::opt_texts(*list)),
        ),
{
    if let Some(list) = list {
        put(e, key, string_array(list));
    }
}

fn routing_to_value(routing: &OpenRouterRouting) -> (r: Value)
    ensures
        r@ == routing_json(routing@),
{
    let mut e = new_entries();
    put_opt_bool(&mut e, "allow_fallbacks", routing.allow_fallbacks);
    put_opt_bool(&mut e, "require_parameters", routing.require_parameters);
    put_opt_str(&mut e, "data_collection", borrow_opt(&routing.data_collection));
    put_opt_bool(&mut e, "zdr", routing.zdr);
    put_opt_bool(&mut e, "enforce_distillable_text", routing.enforce_distillable_text);
    put_list(&mut e, "order", &routing.order);
    put_list(&mut e, "only", &routing.only);
    put_list(&mut e, "ignore", &routing.ignore);
    put_list(&mut e, "quantizations", &routing.quantizations);
    object(e)
}

fn vercel_gateway_routing_to_value(routing: &VercelGatewayRouting) -> (r: Value)
    ensures
        r@ == gateway_json(routing@),
{
    let mut e = new_entries();
    put_list(&mut e, "only", &routing.only);
    put_list(&mut e, "order", &routing.order);
    object1("gateway", object(e))
}

// ---------------------------------------------------------------------------
// Thinking
// ---------------------------------------------------------------------------

pub open spec fn effort_json(effort: Option<Seq<char>>, model: Model) -> Option<Json> {
    match effort {
        Some(effort) => Some(Json::Str(sent_level(model, effort))),
        None => None,
    }
}

/// The entries that ask for thinking, in the form that the endpoint takes.
pub open spec fn thinking_put(
    p: Entries,
    model: Model,
    compat: Compat,
    effort: Option<Seq<char>>,
) -> Entries {
    let format = compat.thinking_format;
    let on = effort is Some;
    let if_supported = if compat.supports_reasoning_effort {
        effort_json(effort, model)
    } else {
        None
    };
    if !model.reasoning {
        p
    } else if format == "zai"@ {
        p.put(
            "thinking"@,
            one_entry(
                "type"@,
                Json::Str(
                    if on {
                        "enabled"@
                    } else {
                        "disabled"@
                    },
                ),
            ),
        ).put_opt("reasoning_effort"@, if_supported)
    } else if format == "qwen"@ {
        p.put("enable_thinking"@, Json::Bool(on)).put_opt("reasoning_effort"@, if_supported)
    } else if format == "qwen-chat-template"@ {
        p.put(
            "chat_template_kwargs"@,
            Json::Object(
                no_entries().put("enable_thinking"@, Json::Bool(on)).put(
                    "preserve_thinking"@,
                    Json::Bool(true),
                ),
            ),
        )
    } else if format == "chat-template"@ {
        p.put_opt(
            "chat_template_kwargs"@,
            template_json(model, effort, compat.chat_template_kwargs),
        )
    } else if format == "baseten"@ {
        p.put_opt(
            "chat_template_args"@,
            template_json(model, effort, compat.chat_template_args),
        ).put_opt(
            "reasoning_effort"@,
            if compat.supports_reasoning_effort {
                opt_str_json(effort_or_off(model, effort))
            } else {
                None
            },
        )
    } else if format == "deepseek"@ {
        p.put_opt(
            "thinking"@,
            if on {
                Some(one_entry("type"@, Json::Str("enabled"@)))
            } else if mapped_level(model, "off"@) is Some {
                Some(one_entry("type"@, Json::Str("disabled"@)))
            } else {
                None
            },
        ).put_opt("reasoning_effort"@, if_supported)
    } else if format == "openrouter"@ {
        p.put_opt(
            "reasoning"@,
            match effort_or_off(model, effort) {
                Some(level) => Some(one_entry("effort"@, Json::Str(level))),
                None => None,
            },
        )
    } else if format == "ant-ling"@ {
        p.put_opt(
            "reasoning"@,
            match effort {
                Some(effort) => match mapped_level(model, effort) {
                    Some(level) => Some(one_entry("effort"@, Json::Str(level))),
                    None => None,
                },
                None => None,
            },
        )
    } else if format == "together"@ {
        p.put("reasoning"@, one_entry("enabled"@, Json::Bool(on))).put_opt(
            "reasoning_effort"@,
            if_supported,
        )
    } else if format == "string-thinking"@ {
        p.put_opt("thinking"@, opt_str_json(effort_or_off(model, effort)))
    } else {
        p.put_opt(
            "reasoning_effort"@,
            if compat.supports_reasoning_effort {
                opt_str_json(effort_or_off(model, effort))
            } else {
                None
            },
        )
    }
}

fn put_effort(
    e: &mut Vec<(String, Value)>,
    model: &Model,
    compat: &ResolvedOpenAICompletionsCompat,
    effort: Option<&str>,
)
    ensures
        entries(final(e)@) == entries(old(e)@).put_opt(
            "reasoning_effort"@,
            if compat.supports_reasoning_effort {
                effort_json(opt_str(effort), *model)
            } else {
                None
            },
        ),
{
    if compat.supports_reasoning_effort {
        if let Some(effort) = effort {
            put_str(e, "reasoning_effort", level_to_send(model, effort).as_str());
        }
    }
}

fn put_level(
    e: &mut Vec<(String, Value)>,
    key: &str,
    model: &Model,
    effort: Option<&str>,
)
    ensures
        entries(final(e)@) == entries(old(e)@).put_opt(
            key@,
            opt_str_json(effort_or_off(*model, opt_str(effort))),
        ),
{
    if let Some(level) = level_or_off(model, effort) {
        put_str(e, key, level.as_str());
    }
}

#[verifier::rlimit(40)]
fn put_thinking(
    e: &mut Vec<(String, Value)>,
    model: &Model,
    compat: &ResolvedOpenAICompletionsCompat,
    effort: Option<&str>,
)
    ensures
        entries(final(e)@) == thinking_put(entries(old(e)@), *model, compat@, opt_str(effort)),
{
    let format = compat.thinking_format.as_str();
    let on = effort.is_some();
    if !model.reasoning {
        return ;
    }
    if str_eq(format, "zai") {
        put(
            e,
            "thinking",
            object1(
                "type",
                string(
                    if on {
                        "enabled"
                    } else {
                        "disabled"
                    },
                ),
            ),
        );
        put_effort(e, model, compat, effort);
    } else if str_eq(format, "qwen") {
        put_bool(e, "enable_thinking", on);
        put_effort(e, model, compat, effort);
    } else if str_eq(format, "qwen-chat-template") {
        let mut kwargs = new_entries();
        put_bool(&mut kwargs, "enable_thinking", on);
        put_bool(&mut kwargs, "preserve_thinking", true);
        put_object(e, "chat_template_kwargs", kwargs);
    } else if str_eq(format, "chat-template") {
        if let Some(values) = build_chat_template_values(
            model,
            effort,
            &compat.chat_template_kwargs,
        ) {
            put(e, "chat_template_kwargs", values);
        }
    } else if str_eq(format, "baseten") {
        if let Some(values) = build_chat_template_values(model, effort, &compat.chat_template_args) {
            put(e, "chat_template_args", values);
        }
        if compat.supports_reasoning_effort {
            put_level(e, "reasoning_effort", model, effort);
        }
    } else if str_eq(format, "deepseek") {
        if on {
            put(e, "thinking", object1("type", string("enabled")));
        } else if model.mapped_level("off").is_some() {
            put(e, "thinking", object1("type", string("disabled")));
        }
        put_effort(e, model, compat, effort);
    } else if str_eq(format, "openrouter") {
        if let Some(level) = level_or_off(model, effort) {
            put(e, "reasoning", object1("effort", string(level.as_str())));
        }
    } else if str_eq(format, "ant-ling") {
        if let Some(effort) = effort {
            if let Some(level) = model.mapped_level(effort) {
                put(e, "reasoning", object1("effort", string(level.as_str())));
            }
        }
    } else if str_eq(format, "together") {
        put(e, "reasoning", object1("enabled", Value::Bool(on)));
        put_effort(e, model, compat, effort);
    } else if str_eq(format, "string-thinking") {
        put_level(e, "thinking", model, effort);
    } else if compat.supports_reasoning_effort {
        put_level(e, "reasoning_effort", model, effort);
    }
}

// ---------------------------------------------------------------------------
// Thinking budget
// ---------------------------------------------------------------------------

pub open spec fn budget_or(custom: Option<Number>, tokens: int) -> Number {
    match custom {
        Some(custom) => custom,
        None => whole(tokens),
    }
}

/// The tokens that a level of thinking may take.
pub open spec fn level_budget(level: Seq<char>, custom: Option<ThinkingBudgets>) -> Number {
    let minimal = match custom {
        Some(b) => b.minimal,
        None => None,
    };
    let low = match custom {
        Some(b) => b.low,
        None => None,
    };
    let medium = match custom {
        Some(b) => b.medium,
        None => None,
    };
    let high = match custom {
        Some(b) => b.high,
        None => None,
    };
    if level == "minimal"@ {
        budget_or(minimal, 1024)
    } else if level == "low"@ {
        budget_or(low, 2048)
    } else if level == "medium"@ {
        budget_or(medium, 8192)
    } else {
        budget_or(high, 16384)
    }
}

/// The budget for thinking that leaves room for the answer, where one is sent.
pub open spec fn thinking_budget(
    level: Seq<char>,
    custom: Option<ThinkingBudgets>,
    ceiling: Number,
    answer: Number,
) -> Option<Number> {
    let budget = lesser(
        level_budget(level, custom),
        greater(difference(ceiling, answer), whole(0)),
    );
    if budget.nanos > 0 {
        Some(budget)
    } else {
        None
    }
}

fn choose_budget(custom: Option<Number>, tokens: i64) -> (r: Number)
    ensures
        r == budget_or(custom, tokens as int),
{
    match custom {
        Some(custom) => custom,
        None => Number::from_int(tokens),
    }
}

fn compute_thinking_budget(
    level: &str,
    custom: &Option<ThinkingBudgets>,
    ceiling: Number,
    answer: Number,
) -> (r: Option<Number>)
    ensures
        r == thinking_budget(level@, *custom, ceiling, answer),
{
    let (minimal, low, medium, high) = match custom {
        Some(b) => (b.minimal, b.low, b.medium, b.high),
        None => (None, None, None, None),
    };
    let wanted = if str_eq(level, "minimal") {
        choose_budget(minimal, 1024)
    } else if str_eq(level, "low") {
        choose_budget(low, 2048)
    } else if str_eq(level, "medium") {
        choose_budget(medium, 8192)
    } else {
        choose_budget(high, 16384)
    };
    let budget = wanted.min(ceiling.minus(answer).max(Number::zero()));
    if budget.nanos > 0 {
        Some(budget)
    } else {
        None
    }
}

// ---------------------------------------------------------------------------
// The body
// ---------------------------------------------------------------------------

/// Whether a conversation has called a tool.
pub open spec fn calls_or_results(message: Message) -> bool {
    match message {
        Message::ToolResult(_) => true,
        Message::Assistant(assistant) => exists|i: int|
            0 <= i < assistant.content@.len() && (#[trigger] assistant.content@[i]) is ToolCall,
        _ => false,
    }
}

pub open spec fn tool_history(messages: Seq<Message>) -> bool {
    exists|i: int| 0 <= i < messages.len() && calls_or_results(#[trigger] messages[i])
}

fn has_tool_history(messages: &Vec<Message>) -> (r: bool)
    ensures
        r == tool_history(messages@),
{
    let mut i: usize = 0;
    while i < messages.len()
        invariant
            i <= messages@.len(),
            forall|j: int| 0 <= j < i ==> !calls_or_results(messages@[j]),
        decreases messages.len() - i,
    {
        match &messages[i] {
            Message::ToolResult(_) => {
                return true;
            },
            Message::Assistant(assistant) => {
                if assistant.has_tool_call() {
                    proof {
                        let k = choose|k: int|
                            0 <= k < assistant@.content.len() && (
                            #[trigger] assistant@.content[k]) is ToolCall;
                        assert(assistant.content@[k] is ToolCall);
                    }
                    return true;
                }
                proof {
                    assert forall|k: int| 0 <= k < assistant.content@.len() implies !((
                    #[trigger] assistant.content@[k]) is ToolCall) by {
                        assert(assistant@.content[k] == assistant.content@[k]@);
                    }
                }
            },
            _ => {},
        }
        i += 1;
    }
    false
}

/// The tools that are offered at once: those that are not loaded later.
pub open spec fn active_tools(tools: Seq<Tool>, deferred: Seq<Seq<char>>) -> Seq<Tool>
    decreases tools.len(),
{
    if tools.len() == 0 {
        Seq::empty()
    } else {
        let before = active_tools(tools.drop_last(), deferred);
        if deferred.contains(tools.last().name@) {
            before
        } else {
            before.push(tools.last())
        }
    }
}

pub open spec fn deferred_by(compat: Compat, messages: Seq<Message>) -> Seq<Seq<char>> {
    if compat.deferred_tools_mode == Some("kimi"@) {
        deferred_names(messages)
    } else {
        Seq::empty()
    }
}

fn convert_active_tools(
    tools: &Option<Vec<Tool>>,
    deferred: &Vec<String>,
    compat: &ResolvedOpenAICompletionsCompat,
) -> (r: Vec<Value>)
    ensures
        items(r@) == tools_json(active_tools(opt_tools(*tools), texts(deferred@)), compat@),
{
    let mut r = new_items();
    proof {
        assert(tools_json(Seq::empty(), compat@) =~= Seq::<Json>::empty());
    }
    if let Some(tools) = tools {
        let mut i: usize = 0;
        while i < tools.len()
            invariant
                i <= tools@.len(),
                items(r@) == tools_json(
                    active_tools(tools@.take(i as int), texts(deferred@)),
                    compat@,
                ),
            decreases tools.len() - i,
        {
            let ghost before = active_tools(tools@.take(i as int), texts(deferred@));
            proof {
                assert(tools@.take(i + 1).drop_last() =~= tools@.take(i as int));
            }
            if !contains_string(deferred, tools[i].name.as_str()) {
                push_item(&mut r, convert_tool(&tools[i], compat));
                proof {
                    assert(tools_json(before.push(tools@[i as int]), compat@) =~= tools_json(
                        before,
                        compat@,
                    ).push(tool_json(tools@[i as int], compat@)));
                }
            }
            i += 1;
        }
        proof {
            assert(tools@.take(tools@.len() as int) =~= tools@);
        }
    }
    r
}

pub open spec fn asked_effort(o: Option<&OpenAICompletionsOptions>) -> Option<Seq<char>> {
    match o {
        Some(o) => opt_text(o.reasoning_effort),
        None => None,
    }
}

pub open spec fn asked_budgets(o: Option<&OpenAICompletionsOptions>) -> Option<ThinkingBudgets> {
    match o {
        Some(o) => o.thinking_budgets,
        None => None,
    }
}

pub open spec fn asked_max_tokens(o: Option<&OpenAICompletionsOptions>) -> Option<Number> {
    match o {
        Some(o) => o.stream.max_tokens,
        None => None,
    }
}

pub open spec fn asked_temperature(o: Option<&OpenAICompletionsOptions>) -> Option<Number> {
    match o {
        Some(o) => o.stream.temperature,
        None => None,
    }
}

pub open spec fn asked_choice(o: Option<&OpenAICompletionsOptions>) -> Option<Json> {
    match o {
        Some(o) => opt_json(o.tool_choice),
        None => None,
    }
}

pub open spec fn asked_sampling(o: Option<&OpenAICompletionsOptions>) -> Entries {
    match o {
        Some(o) => match o.stream.sampling_params {
            Some(params) => entries(params@),
            None => no_entries(),
        },
        None => no_entries(),
    }
}

/// The messages and tools of a request, marked for the cache.
pub open spec fn marked_messages(messages: Seq<Json>, marker: Option<Json>) -> Seq<Json> {
    match marker {
        Some(marker) => last_marked(messages, marker),
        None => messages,
    }
}

pub open spec fn marked_tools(tools: Seq<Json>, marker: Option<Json>) -> Seq<Json> {
    match marker {
        Some(marker) => last_tool_marked(tools, marker),
        None => tools,
    }
}

/// The part of a body that says what is asked and how it is cached.
pub open spec fn body_head(
    model: Model,
    messages: Seq<Json>,
    compat: Compat,
    retention: Seq<char>,
    cache_key: Option<Seq<char>>,
    options: Option<&OpenAICompletionsOptions>,
) -> Entries {
    let long = retention == "long"@ && compat.supports_long_cache_retention;
    let keyed = (contains_text(model.base_url@, "api.openai.com"@) && retention != "none"@) || long;
    no_entries().put("model"@, Json::Str(model.id@)).put(
        "messages"@,
        Json::Array(marked_messages(messages, cache_marker(compat, retention))),
    ).put("stream"@, Json::Bool(true)).put_opt(
        "prompt_cache_key"@,
        if keyed {
            opt_str_json(cache_key)
        } else {
            None
        },
    ).put_if(long, "prompt_cache_retention"@, Json::Str("24h"@)).put_if(
        compat.supports_usage_in_streaming,
        "stream_options"@,
        one_entry("include_usage"@, Json::Bool(true)),
    ).put_if(compat.supports_store, "store"@, Json::Bool(false)).put_opt(
        if compat.max_tokens_field == "max_tokens"@ {
            "max_tokens"@
        } else {
            "max_completion_tokens"@
        },
        opt_number_json(asked_max_tokens(options)),
    ).put_opt("temperature"@, opt_number_json(asked_temperature(options)))
}

/// The part of a body that offers tools.
pub open spec fn tools_put(
    p: Entries,
    tools: Seq<Tool>,
    messages: Seq<Message>,
    compat: Compat,
    retention: Seq<char>,
) -> Entries {
    let active = active_tools(tools, deferred_by(compat, messages));
    if active.len() > 0 {
        p.put(
            "tools"@,
            Json::Array(marked_tools(tools_json(active, compat), cache_marker(compat, retention))),
        ).put_if(compat.zai_tool_stream, "tool_stream"@, Json::Bool(true))
    } else if tool_history(messages) {
        p.put("tools"@, Json::Array(Seq::empty()))
    } else {
        p
    }
}

/// The part of a body that bounds the thinking.
pub open spec fn budget_put(
    p: Entries,
    model: Model,
    compat: Compat,
    options: Option<&OpenAICompletionsOptions>,
    level: Seq<char>,
    answer: Number,
) -> Entries {
    let ceiling = match asked_max_tokens(options) {
        Some(n) => n,
        None => model.max_tokens,
    };
    if compat.supports_thinking_token_budget && asked_effort(options) is Some && model.reasoning {
        p.put_opt(
            "thinking_token_budget"@,
            opt_number_json(thinking_budget(level, asked_budgets(options), ceiling, answer)),
        )
    } else {
        p
    }
}

/// The part of a body that says which providers are to answer.
pub open spec fn routing_put(p: Entries, compat: Compat) -> Entries {
    p.put_opt(
        "provider"@,
        match compat.open_router_routing {
            Some(routing) => Some(routing_json(routing)),
            None => None,
        },
    ).put_opt(
        "providerOptions"@,
        match compat.vercel_gateway_routing {
            Some(routing) => if routing.only is Some || routing.order is Some {
                Some(gateway_json(routing))
            } else {
                None
            },
            None => None,
        },
    )
}

/// The body of a request. What the caller samples by overrides every field.
pub open spec fn request_body(
    model: Model,
    context: Context,
    options: Option<&OpenAICompletionsOptions>,
    compat: Compat,
    retention: Seq<char>,
    properties: Pairs,
    inputs: CompletionsInputs,
    parse: spec_fn(Seq<char>) -> Option<Json>,
) -> Json {
    let messages = converted(
        opt_text(context.system_prompt),
        inputs.messages@,
        Setting { model, compat, tools: opt_tools(context.tools), properties, parse },
    );
    let head = body_head(
        model,
        messages,
        compat,
        retention,
        opt_text(inputs.prompt_cache_key),
        options,
    );
    let tooled = tools_put(head, opt_tools(context.tools), context.messages@, compat, retention);
    let chosen = tooled.put_opt("tool_choice"@, asked_choice(options));
    let thinking = thinking_put(chosen, model, compat, asked_effort(options));
    let bounded = budget_put(
        thinking,
        model,
        compat,
        options,
        inputs.budget_level@,
        inputs.min_answer_tokens,
    );
    Json::Object(with_entries(routing_put(bounded, compat), asked_sampling(options)))
}

fn put_head(
    model: &Model,
    messages: Vec<Value>,
    compat: &ResolvedOpenAICompletionsCompat,
    retention: &str,
    cache_key: Option<&str>,
    options: Option<&OpenAICompletionsOptions>,
    marker: &Option<OpenAICompatCacheControl>,
) -> (r: Vec<(String, Value)>)
    requires
        match *marker {
            Some(m) => cache_marker(compat@, retention@) == Some(marker_json(m)),
            None => cache_marker(compat@, retention@) is None,
        },
    ensures
        entries(r@) == body_head(
            *model,
            items(messages@),
            compat@,
            retention@,
            opt_str(cache_key),
            options,
        ),
{
    let mut messages = messages;
    if let Some(marker) = marker {
        add_cache_control_to_last_conversation_message(&mut messages, marker);
    }
    let long = str_eq(retention, "long") && compat.supports_long_cache_retention;
    let keyed = (contains(model.base_url.as_str(), "api.openai.com") && !str_eq(retention, "none"))
        || long;
    let mut e = new_entries();
    put_str(&mut e, "model", model.id.as_str());
    put_array(&mut e, "messages", messages);
    put_bool(&mut e, "stream", true);
    if keyed {
        put_opt_str(&mut e, "prompt_cache_key", cache_key);
    }
    if long {
        put_str(&mut e, "prompt_cache_retention", "24h");
    }
    if compat.supports_usage_in_streaming {
        put(&mut e, "stream_options", object1("include_usage", Value::Bool(true)));
    }
    if compat.supports_store {
        put_bool(&mut e, "store", false);
    }
    let (max_tokens, temperature) = match options {
        Some(o) => (o.stream.max_tokens, o.stream.temperature),
        None => (None, None),
    };
    if str_eq(compat.max_tokens_field.as_str(), "max_tokens") {
        put_opt_number(&mut e, "max_tokens", max_tokens);
    } else {
        put_opt_number(&mut e, "max_completion_tokens", max_tokens);
    }
    put_opt_number(&mut e, "temperature", temperature);
    e
}

fn put_tools(
    e: &mut Vec<(String, Value)>,
    context: &Context,
    compat: &ResolvedOpenAICompletionsCompat,
    marker: &Option<OpenAICompatCacheControl>,
    Ghost(retention): Ghost<Seq<char>>,
)
    requires
        match *marker {
            Some(m) => cache_marker(compat@, retention) == Some(marker_json(m)),
            None => cache_marker(compat@, retention) is None,
        },
    ensures
        entries(final(e)@) == tools_put(
            entries(old(e)@),
            opt_tools(context.tools),
            context.messages@,
            compat@,
            retention,
        ),
{
    let deferred = if opt_is(borrow_opt(&compat.deferred_tools_mode), "kimi") {
        get_deferred_tool_names(&context.messages)
    } else {
        proof {
            crate::text::lemma_texts_empty();
        }
        Vec::new()
    };
    let mut tools = convert_active_tools(&context.tools, &deferred, compat);
    proof {
        assert(items(tools@).len() == tools@.len());
    }
    if tools.len() > 0 {
        if let Some(marker) = marker {
            add_cache_control_to_last_tool(&mut tools, marker);
        }
        put_array(e, "tools", tools);
        if compat.zai_tool_stream {
            put_bool(e, "tool_stream", true);
        }
    } else if has_tool_history(&context.messages) {
        put_array(e, "tools", new_items());
    }
}

/// Builds the body of a request.
#[verifier::rlimit(40)]
pub fn build_params<P: Fn(&str) -> Option<Value>>(
    model: &Model,
    context: &Context,
    options: Option<&OpenAICompletionsOptions>,
    compat: &ResolvedOpenAICompletionsCompat,
    cache_retention: &str,
    grammar_tool_input_properties: &Vec<(String, String)>,
    inputs: &CompletionsInputs,
    parse: &P,
) -> (r: Value)
    requires
        is_parser(*parse),
    ensures
        r@ == request_body(
            *model,
            *context,
            options,
            compat@,
            cache_retention@,
            pairs(grammar_tool_input_properties@),
            *inputs,
            parser_of(*parse),
        ),
{
    let conversion = ConvertCompletionsMessagesOptions {
        grammar_tool_input_properties: Some(clone_pairs(grammar_tool_input_properties)),
    };
    let messages = convert_messages(
        model,
        context,
        &inputs.messages,
        compat,
        Some(&conversion),
        parse,
    );
    let marker = get_compat_cache_control(compat, cache_retention);
    let mut e = put_head(
        model,
        messages,
        compat,
        cache_retention,
        borrow_opt(&inputs.prompt_cache_key),
        options,
        &marker,
    );
    put_tools(&mut e, context, compat, &marker, Ghost(cache_retention@));
    let effort: Option<&str> = match options {
        Some(o) => borrow_opt(&o.reasoning_effort),
        None => None,
    };
    if let Some(o) = options {
        if let Some(choice) = &o.tool_choice {
            put(&mut e, "tool_choice", choice.clone());
        }
    }
    put_thinking(&mut e, model, compat, effort);
    if compat.supports_thinking_token_budget && effort.is_some() && model.reasoning {
        let (ceiling, budgets) = match options {
            Some(o) => (
                match o.stream.max_tokens {
                    Some(n) => n,
                    None => model.max_tokens,
                },
                o.thinking_budgets,
            ),
            None => (model.max_tokens, None),
        };
        put_opt_number(
            &mut e,
            "thinking_token_budget",
            compute_thinking_budget(
                inputs.budget_level.as_str(),
                &budgets,
                ceiling,
                inputs.min_answer_tokens,
            ),
        );
    }
    if let Some(routing) = &compat.open_router_routing {
        put(&mut e, "provider", routing_to_value(routing));
    }
    if let Some(routing) = &compat.vercel_gateway_routing {
        if routing.only.is_some() || routing.order.is_some() {
            put(&mut e, "providerOptions", vercel_gateway_routing_to_value(routing));
        }
    }
    if let Some(o) = options {
        if let Some(params) = &o.stream.sampling_params {
            set_entries(&mut e, params);
        }
    }
    object(e)
}

/// Whatever the caller samples by stands in the body as the caller gave it: each
/// key has the last value that is given for it, and every other key of the body
/// stays as it was.
pub proof fn law_sampling_overrides(body: Entries, sampling: Entries)
    ensures
        forall|i: int| #[trigger]
            is_last_of_key(sampling, i) ==> get(with_entries(body, sampling), sampling[i].0)
                == Some(sampling[i].1),
        forall|key: Seq<char>|
            (forall|j: int| 0 <= j < sampling.len() ==> (#[trigger] sampling[j]).0 != key)
                ==> #[trigger] get(with_entries(body, sampling), key) == get(body, key),
{
    lemma_with_entries(body, sampling);
}

} // verus!
