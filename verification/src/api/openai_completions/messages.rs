//! How messages and tools become the messages and tools of a request.
use vstd::prelude::*;
use vstd::string::*;
use super::compat::{Compat, ResolvedOpenAICompletionsCompat};
use crate::api::blocks::{
    data_url, make_data_url, make_safe_id, make_text_part, safe_id, text_part,
};
use crate::api::constrained_sampling::{
    find_property, get_grammar_tool_input, grammar_or_none, grammar_sampling_or_none,
    grammar_tool_input, strict_or_none, strict_sampling_or_none,
};
use crate::api::github_copilot_headers::{has_image, holds_image};
use crate::api::headers::Pairs;
use crate::hash::{hash_of, short_hash};
use crate::json::{
    append_items, array, entries, get, get_value, has_entry, has_key, is_parser, items,
    json_stringify, json_text, new_entries, new_items, no_entries, object, object1, one_entry,
    parse_with, parser_of, push_item, put, put_array, put_bool, put_object, put_str, set_entry,
    string, with_entry, Entries, EntriesSpec, Json, Value,
};
use crate::text::{
    blank, cat3, char_count, clone_opt, contains_string, first_chars, is_blank, join, joined,
    opt_is, opt_text, push_text, split_once, split_pair, str_eq, take_chars, texts, borrow_opt,
};
use crate::types::{
    pairs, Content, Context, Message, Model, Tool, ToolCall, ToolResultMessage, UserMessage,
    UserMessageContent,
};

verus! {

// ---------------------------------------------------------------------------
// Identifiers of tool calls
// ---------------------------------------------------------------------------

/// The most characters that the id of a tool call may have.
pub const MAX_TOOL_CALL_ID: usize = 40;

/// The id of a tool call as it is sent. An id made of two parts becomes one
/// word; where that is too long, the second part gives way to a hash.
pub open spec fn normalized_id(id: Seq<char>, provider: Seq<char>) -> Seq<char> {
    match split_pair(id, '|') {
        Some((call_id, item_id)) => {
            let call = safe_id(call_id);
            let item = safe_id(item_id);
            let combined = if item.len() > 0 {
                call + "_"@ + item
            } else {
                call
            };
            if combined.len() <= MAX_TOOL_CALL_ID {
                combined
            } else {
                let hash = first_chars(hash_of(id), 8);
                first_chars(call, prefix_len(hash.len())) + "_"@ + hash
            }
        },
        None => if provider == "openai"@ {
            first_chars(id, MAX_TOOL_CALL_ID as int)
        } else {
            id
        },
    }
}

/// The room that a hash leaves for what stands before it.
pub open spec fn prefix_len(hash_len: nat) -> int {
    if hash_len + 1 >= MAX_TOOL_CALL_ID - 1 {
        1
    } else {
        MAX_TOOL_CALL_ID - (hash_len + 1)
    }
}

pub fn normalize_tool_call_id_for_completions(id: &str, model: &Model) -> (r: String)
    ensures
        r@ == normalized_id(id@, model.provider@),
{
    if let Some((call_id, item_id)) = split_once(id, '|') {
        let call = make_safe_id(call_id.as_str());
        let item = make_safe_id(item_id.as_str());
        let combined = if item.as_str().is_empty() {
            call.clone()
        } else {
            cat3(call.as_str(), "_", item.as_str())
        };
        if char_count(combined.as_str()) <= MAX_TOOL_CALL_ID {
            return combined;
        }
        let hash = take_chars(short_hash(id).as_str(), 8);
        let used: usize = char_count(hash.as_str());
        let room: usize = if used >= MAX_TOOL_CALL_ID - 2 {
            1
        } else {
            MAX_TOOL_CALL_ID - (used + 1)
        };
        let prefix = take_chars(call.as_str(), room);
        return cat3(prefix.as_str(), "_", hash.as_str());
    }
    if str_eq(model.provider.as_str(), "openai") {
        return take_chars(id, MAX_TOOL_CALL_ID);
    }
    id.to_owned()
}

/// An id of two parts, and every id sent to OpenAI, is no longer than is
/// allowed.
pub proof fn law_normalized_id_fits(id: Seq<char>, provider: Seq<char>)
    requires
        id.contains('|') || provider == "openai"@,
    ensures
        normalized_id(id, provider).len() <= MAX_TOOL_CALL_ID,
{
    reveal_strlit("_");
}

// ---------------------------------------------------------------------------
// Tools
// ---------------------------------------------------------------------------

/// A tool as it is offered.
pub open spec fn tool_json(tool: Tool, compat: Compat) -> Json {
    match grammar_or_none(tool, compat.supports_openai_grammar_tools) {
        Some(grammar) => Json::Object(
            no_entries().put("type"@, Json::Str("custom"@)).put(
                "custom"@,
                Json::Object(
                    no_entries().put("name"@, Json::Str(tool.name@)).put(
                        "description"@,
                        Json::Str(tool.description@),
                    ).put(
                        "format"@,
                        Json::Object(
                            no_entries().put("type"@, Json::Str("grammar"@)).put(
                                "grammar"@,
                                Json::Object(
                                    no_entries().put("syntax"@, Json::Str(grammar.format)).put(
                                        "definition"@,
                                        Json::Str(grammar.definition),
                                    ),
                                ),
                            ),
                        ),
                    ),
                ),
            ),
        ),
        None => {
            let strict = strict_or_none(tool, compat.supports_strict_mode) == Some(true);
            Json::Object(
                no_entries().put("type"@, Json::Str("function"@)).put(
                    "function"@,
                    Json::Object(
                        no_entries().put("name"@, Json::Str(tool.name@)).put(
                            "description"@,
                            Json::Str(tool.description@),
                        ).put("parameters"@, tool.parameters.value@).put_if(
                            compat.supports_strict_mode,
                            "strict"@,
                            Json::Bool(strict),
                        ),
                    ),
                ),
            )
        },
    }
}

pub open spec fn tools_json(tools: Seq<Tool>, compat: Compat) -> Seq<Json> {
    Seq::new(tools.len(), |i: int| tool_json(tools[i], compat))
}

pub fn convert_tool(tool: &Tool, compat: &ResolvedOpenAICompletionsCompat) -> (r: Value)
    ensures
        r@ == tool_json(*tool, compat@),
{
    if let Some(grammar) = grammar_sampling_or_none(tool, compat.supports_openai_grammar_tools) {
        let mut definition = new_entries();
        put_str(&mut definition, "syntax", grammar.format.as_str());
        put_str(&mut definition, "definition", grammar.definition.as_str());
        let mut format = new_entries();
        put_str(&mut format, "type", "grammar");
        put_object(&mut format, "grammar", definition);
        let mut custom = new_entries();
        put_str(&mut custom, "name", tool.name.as_str());
        put_str(&mut custom, "description", tool.description.as_str());
        put_object(&mut custom, "format", format);
        let mut e = new_entries();
        put_str(&mut e, "type", "custom");
        put_object(&mut e, "custom", custom);
        return object(e);
    }
    let strict = strict_sampling_or_none(tool, compat.supports_strict_mode);
    let mut function = new_entries();
    put_str(&mut function, "name", tool.name.as_str());
    put_str(&mut function, "description", tool.description.as_str());
    put(&mut function, "parameters", tool.parameters.to_value());
    if compat.supports_strict_mode {
        put_bool(
            &mut function,
            "strict",
            match strict {
                Some(strict) => strict,
                None => false,
            },
        );
    }
    let mut e = new_entries();
    put_str(&mut e, "type", "function");
    put_object(&mut e, "function", function);
    object(e)
}

pub fn convert_tools(tools: &Vec<Tool>, compat: &ResolvedOpenAICompletionsCompat) -> (r: Vec<Value>)
    ensures
        items(r@) == tools_json(tools@, compat@),
{
    let mut r = new_items();
    let mut i: usize = 0;
    while i < tools.len()
        invariant
            i <= tools@.len(),
            items(r@) == tools_json(tools@, compat@).take(i as int),
        decreases tools.len() - i,
    {
        push_item(&mut r, convert_tool(&tools[i], compat));
        proof {
            assert(tools_json(tools@, compat@).take(i + 1) =~= tools_json(tools@, compat@).take(
                i as int,
            ).push(tool_json(tools@[i as int], compat@)));
        }
        i += 1;
    }
    proof {
        assert(tools_json(tools@, compat@).take(tools@.len() as int) =~= tools_json(
            tools@,
            compat@,
        ));
    }
    r
}

/// The names of a list, each at the place where it comes first.
pub open spec fn names_added(names: Seq<Seq<char>>, more: Seq<Seq<char>>) -> Seq<Seq<char>>
    decreases more.len(),
{
    if more.len() == 0 {
        names
    } else {
        let before = names_added(names, more.drop_last());
        if before.contains(more.last()) {
            before
        } else {
            before.push(more.last())
        }
    }
}

/// The names of the tools that a tool result adds.
pub open spec fn added_names(result: ToolResultMessage) -> Seq<Seq<char>> {
    match result.added_tool_names {
        Some(names) => texts(names@),
        None => Seq::empty(),
    }
}

/// The names of the tools that are loaded in the course of a conversation.
pub open spec fn deferred_names(messages: Seq<Message>) -> Seq<Seq<char>>
    decreases messages.len(),
{
    if messages.len() == 0 {
        Seq::empty()
    } else {
        let before = deferred_names(messages.drop_last());
        match messages.last() {
            Message::ToolResult(result) => names_added(before, added_names(result)),
            _ => before,
        }
    }
}

pub fn add_names(names: &mut Vec<String>, more: &Option<Vec<String>>)
    ensures
        texts(final(names)@) == names_added(
            texts(old(names)@),
            match *more {
                Some(more) => texts(more@),
                None => Seq::empty(),
            },
        ),
{
    if let Some(more) = more {
        let mut i: usize = 0;
        while i < more.len()
            invariant
                i <= more@.len(),
                texts(names@) == names_added(texts(old(names)@), texts(more@).take(i as int)),
            decreases more.len() - i,
        {
            proof {
                assert(texts(more@).take(i + 1).drop_last() =~= texts(more@).take(i as int));
            }
            if !contains_string(names, more[i].as_str()) {
                push_text(names, more[i].clone());
            }
            i += 1;
        }
        proof {
            assert(texts(more@).take(more@.len() as int) =~= texts(more@));
        }
    }
}

pub fn get_deferred_tool_names(messages: &Vec<Message>) -> (r: Vec<String>)
    ensures
        texts(r@) == deferred_names(messages@),
{
    let mut names: Vec<String> = Vec::new();
    let mut i: usize = 0;
    proof {
        crate::text::lemma_texts_empty();
    }
    while i < messages.len()
        invariant
            i <= messages@.len(),
            texts(names@) == deferred_names(messages@.take(i as int)),
        decreases messages.len() - i,
    {
        proof {
            assert(messages@.take(i + 1).drop_last() =~= messages@.take(i as int));
        }
        if let Message::ToolResult(result) = &messages[i] {
            add_names(&mut names, &result.added_tool_names);
        }
        i += 1;
    }
    proof {
        assert(messages@.take(messages@.len() as int) =~= messages@);
    }
    names
}

/// The position of the first tool of a name, or the length where there is none.
pub open spec fn tool_index(tools: Seq<Tool>, name: Seq<char>) -> int
    decreases tools.len(),
{
    if tools.len() == 0 || tools[0].name@ == name {
        0
    } else {
        1 + tool_index(tools.drop_first(), name)
    }
}

/// The first tool of each name that there is a tool for.
pub open spec fn named_tools(tools: Seq<Tool>, names: Seq<Seq<char>>) -> Seq<Tool>
    decreases names.len(),
{
    if names.len() == 0 {
        Seq::empty()
    } else {
        let before = named_tools(tools, names.drop_last());
        let i = tool_index(tools, names.last());
        if 0 <= i < tools.len() {
            before.push(tools[i])
        } else {
            before
        }
    }
}

proof fn lemma_tool_index_is(tools: Seq<Tool>, name: Seq<char>, i: int)
    requires
        0 <= i <= tools.len(),
        forall|j: int| 0 <= j < i ==> (#[trigger] tools[j]).name@ != name,
        i < tools.len() ==> tools[i].name@ == name,
    ensures
        tool_index(tools, name) == i,
    decreases tools.len(),
{
    if i > 0 {
        assert(tools[0].name@ != name);
        let rest = tools.drop_first();
        assert forall|j: int| 0 <= j < i - 1 implies (#[trigger] rest[j]).name@ != name by {
            assert(rest[j] == tools[j + 1]);
        }
        lemma_tool_index_is(rest, name, i - 1);
    }
}

pub fn find_tool(tools: &Vec<Tool>, name: &str) -> (r: Option<usize>)
    ensures
        match r {
            Some(i) => i < tools@.len() && i == tool_index(tools@, name@),
            None => tool_index(tools@, name@) == tools@.len(),
        },
{
    let mut i: usize = 0;
    while i < tools.len()
        invariant
            i <= tools@.len(),
            forall|j: int| 0 <= j < i ==> (#[trigger] tools@[j]).name@ != name@,
        decreases tools.len() - i,
    {
        if str_eq(tools[i].name.as_str(), name) {
            proof {
                lemma_tool_index_is(tools@, name@, i as int);
            }
            return Some(i);
        }
        i += 1;
    }
    proof {
        lemma_tool_index_is(tools@, name@, tools@.len() as int);
    }
    None
}

/// The tools of an optional list.
pub open spec fn opt_tools(tools: Option<Vec<Tool>>) -> Seq<Tool> {
    match tools {
        Some(tools) => tools@,
        None => Seq::empty(),
    }
}

/// Converts the first tool of each name.
fn convert_named_tools(
    tools: &Option<Vec<Tool>>,
    names: &Vec<String>,
    compat: &ResolvedOpenAICompletionsCompat,
) -> (r: Vec<Value>)
    ensures
        items(r@) == tools_json(
            named_tools(opt_tools(*tools), texts(names@)),
            compat@,
        ),
{
    let mut r = new_items();
    let ghost all = opt_tools(*tools);
    let mut i: usize = 0;
    proof {
        assert(tools_json(Seq::empty(), compat@) =~= Seq::<Json>::empty());
    }
    while i < names.len()
        invariant
            i <= names@.len(),
            all == opt_tools(*tools),
            items(r@) == tools_json(named_tools(all, texts(names@).take(i as int)), compat@),
        decreases names.len() - i,
    {
        let ghost before = named_tools(all, texts(names@).take(i as int));
        proof {
            assert(texts(names@).take(i + 1).drop_last() =~= texts(names@).take(i as int));
        }
        if let Some(tools) = tools {
            if let Some(k) = find_tool(tools, names[i].as_str()) {
                push_item(&mut r, convert_tool(&tools[k], compat));
                proof {
                    assert(tools_json(before.push(tools@[k as int]), compat@) =~= tools_json(
                        before,
                        compat@,
                    ).push(tool_json(tools@[k as int], compat@)));
                }
            }
        }
        i += 1;
    }
    proof {
        assert(texts(names@).take(names@.len() as int) =~= texts(names@));
    }
    r
}

// ---------------------------------------------------------------------------
// Messages of the user
// ---------------------------------------------------------------------------

pub open spec fn role_message(role: Seq<char>, content: Json) -> Json {
    Json::Object(no_entries().put("role"@, Json::Str(role)).put("content"@, content))
}

fn message_value(role: &str, content: Value) -> (r: Value)
    ensures
        r@ == role_message(role@, content@),
{
    let mut e = new_entries();
    put_str(&mut e, "role", role);
    put(&mut e, "content", content);
    object(e)
}

pub open spec fn image_part(mime_type: Seq<char>, data: Seq<char>) -> Json {
    Json::Object(
        no_entries().put("type"@, Json::Str("image_url"@)).put(
            "image_url"@,
            one_entry("url"@, Json::Str(data_url(mime_type, data))),
        ),
    )
}

pub fn make_image_part(mime_type: &str, data: &str) -> (r: Value)
    ensures
        r@ == image_part(mime_type@, data@),
{
    let url = make_data_url(mime_type, data);
    let mut e = new_entries();
    put_str(&mut e, "type", "image_url");
    put(&mut e, "image_url", object1("url", string(url.as_str())));
    object(e)
}

/// The texts and images of a list of blocks as parts of a message.
pub open spec fn user_parts(content: Seq<Content>) -> Seq<Json>
    decreases content.len(),
{
    if content.len() == 0 {
        Seq::empty()
    } else {
        let before = user_parts(content.drop_last());
        match content.last() {
            Content::Text(text) => before.push(text_part(text.text@)),
            Content::Image(image) => before.push(image_part(image.mime_type@, image.data@)),
            _ => before,
        }
    }
}

/// The images of a list of blocks as parts of a message.
pub open spec fn image_parts(content: Seq<Content>) -> Seq<Json>
    decreases content.len(),
{
    if content.len() == 0 {
        Seq::empty()
    } else {
        let before = image_parts(content.drop_last());
        match content.last() {
            Content::Image(image) => before.push(image_part(image.mime_type@, image.data@)),
            _ => before,
        }
    }
}

fn convert_user_parts(content: &Vec<Content>) -> (r: Vec<Value>)
    ensures
        items(r@) == user_parts(content@),
{
    let mut r = new_items();
    let mut i: usize = 0;
    while i < content.len()
        invariant
            i <= content@.len(),
            items(r@) == user_parts(content@.take(i as int)),
        decreases content.len() - i,
    {
        proof {
            assert(content@.take(i + 1).drop_last() =~= content@.take(i as int));
        }
        match &content[i] {
            Content::Text(text) => push_item(&mut r, make_text_part(text.text.as_str())),
            Content::Image(image) => push_item(
                &mut r,
                make_image_part(image.mime_type.as_str(), image.data.as_str()),
            ),
            _ => {},
        }
        i += 1;
    }
    proof {
        assert(content@.take(content@.len() as int) =~= content@);
    }
    r
}

fn convert_image_parts(content: &Vec<Content>) -> (r: Vec<Value>)
    ensures
        items(r@) == image_parts(content@),
{
    let mut r = new_items();
    let mut i: usize = 0;
    while i < content.len()
        invariant
            i <= content@.len(),
            items(r@) == image_parts(content@.take(i as int)),
        decreases content.len() - i,
    {
        proof {
            assert(content@.take(i + 1).drop_last() =~= content@.take(i as int));
        }
        if let Content::Image(image) = &content[i] {
            push_item(&mut r, make_image_part(image.mime_type.as_str(), image.data.as_str()));
        }
        i += 1;
    }
    proof {
        assert(content@.take(content@.len() as int) =~= content@);
    }
    r
}

/// A message of the user, unless it holds nothing that can be sent.
pub open spec fn user_message(user: UserMessage) -> Option<Json> {
    match user.content {
        UserMessageContent::Text(text) => Some(role_message("user"@, Json::Str(text@))),
        UserMessageContent::Blocks(blocks) => if user_parts(blocks@).len() == 0 {
            None
        } else {
            Some(role_message("user"@, Json::Array(user_parts(blocks@))))
        },
    }
}

fn convert_user_message(user: &UserMessage) -> (r: Option<Value>)
    ensures
        crate::json::opt_json(r) == user_message(*user),
{
    match &user.content {
        UserMessageContent::Text(text) => Some(message_value("user", string(text.as_str()))),
        UserMessageContent::Blocks(blocks) => {
            let parts = convert_user_parts(blocks);
            proof {
                assert(items(parts@).len() == parts@.len());
            }
            if parts.len() == 0 {
                None
            } else {
                Some(message_value("user", array(parts)))
            }
        },
    }
}

// ---------------------------------------------------------------------------
// Messages of the assistant
// ---------------------------------------------------------------------------

/// The texts of a list of blocks that are not blank.
pub open spec fn spoken(content: Seq<Content>) -> Seq<Seq<char>>
    decreases content.len(),
{
    if content.len() == 0 {
        Seq::empty()
    } else {
        let before = spoken(content.drop_last());
        match content.last() {
            Content::Text(text) => if is_blank(text.text@) {
                before
            } else {
                before.push(text.text@)
            },
            _ => before,
        }
    }
}

/// The thinking of a list of blocks that is not blank, with its signatures.
pub open spec fn thoughts(content: Seq<Content>) -> Seq<(Seq<char>, Option<Seq<char>>)>
    decreases content.len(),
{
    if content.len() == 0 {
        Seq::empty()
    } else {
        let before = thoughts(content.drop_last());
        match content.last() {
            Content::Thinking(thinking) => if is_blank(thinking.thinking@) {
                before
            } else {
                before.push((thinking.thinking@, opt_text(thinking.thinking_signature)))
            },
            _ => before,
        }
    }
}

pub open spec fn thought_texts(thoughts: Seq<(Seq<char>, Option<Seq<char>>)>) -> Seq<Seq<char>> {
    Seq::new(thoughts.len(), |i: int| thoughts[i].0)
}

pub open spec fn text_parts(list: Seq<Seq<char>>) -> Seq<Json> {
    Seq::new(list.len(), |i: int| text_part(list[i]))
}

/// A tool call as it is sent back: with the input of a grammar tool as it is,
/// with any other arguments as JSON text.
pub open spec fn call_json(call: ToolCall, properties: Pairs) -> Json {
    match get(properties, call.name@) {
        Some(property) => {
            let input = match grammar_tool_input(call.name@, call.arguments@, property) {
                Ok(input) => input,
                Err(_) => Seq::empty(),
            };
            Json::Object(
                no_entries().put("id"@, Json::Str(call.id@)).put("type"@, Json::Str("custom"@)).put(
                    "custom"@,
                    Json::Object(
                        no_entries().put("name"@, Json::Str(call.name@)).put(
                            "input"@,
                            Json::Str(input),
                        ),
                    ),
                ),
            )
        },
        None => Json::Object(
            no_entries().put("id"@, Json::Str(call.id@)).put("type"@, Json::Str("function"@)).put(
                "function"@,
                Json::Object(
                    no_entries().put("name"@, Json::Str(call.name@)).put(
                        "arguments"@,
                        Json::Str(json_text(call.arguments@)),
                    ),
                ),
            ),
        ),
    }
}

/// The tool calls of a list of blocks.
pub open spec fn calls_json(content: Seq<Content>, properties: Pairs) -> Seq<Json>
    decreases content.len(),
{
    if content.len() == 0 {
        Seq::empty()
    } else {
        let before = calls_json(content.drop_last(), properties);
        match content.last() {
            Content::ToolCall(call) => before.push(call_json(call, properties)),
            _ => before,
        }
    }
}

/// What can be parsed of the signatures of the tool calls.
pub open spec fn reasoning_details(
    content: Seq<Content>,
    parse: spec_fn(Seq<char>) -> Option<Json>,
) -> Seq<Json>
    decreases content.len(),
{
    if content.len() == 0 {
        Seq::empty()
    } else {
        let before = reasoning_details(content.drop_last(), parse);
        match content.last() {
            Content::ToolCall(call) => match call.thought_signature {
                Some(signature) => match parse(signature@) {
                    Some(detail) => before.push(detail),
                    None => before,
                },
                None => before,
            },
            _ => before,
        }
    }
}

/// The field that carries the thinking of a reply.
pub open spec fn thinking_field(provider: Seq<char>, signature: Option<Seq<char>>) -> Option<
    Seq<char>,
> {
    if provider == "opencode-go"@ && signature == Some("reasoning"@) {
        Some("reasoning_content"@)
    } else {
        signature
    }
}

/// The entries of an assistant message up to its tool calls.
pub open spec fn said(model: Model, content: Seq<Content>, compat: Compat) -> Entries {
    let begin = no_entries().put("role"@, Json::Str("assistant"@)).put(
        "content"@,
        if compat.requires_assistant_after_tool_result {
            Json::Str(Seq::empty())
        } else {
            Json::Null
        },
    );
    let text = joined(spoken(content), Seq::empty());
    let thinking = thoughts(content);
    let with_text = if text.len() > 0 {
        with_entry(begin, "content"@, Json::Str(text))
    } else {
        begin
    };
    if thinking.len() == 0 {
        with_text
    } else if compat.requires_thinking_as_text {
        with_entry(
            begin,
            "content"@,
            Json::Array(
                Seq::<Json>::empty().push(
                    text_part(joined(thought_texts(thinking), "\n\n"@)),
                ) + text_parts(spoken(content)),
            ),
        )
    } else {
        match thinking_field(model.provider@, thinking[0].1) {
            Some(field) => if field.len() > 0 {
                with_entry(with_text, field, Json::Str(joined(thought_texts(thinking), "\n"@)))
            } else {
                with_text
            },
            None => with_text,
        }
    }
}

/// The entries of an assistant message.
pub open spec fn assistant_entries(
    model: Model,
    content: Seq<Content>,
    compat: Compat,
    properties: Pairs,
    parse: spec_fn(Seq<char>) -> Option<Json>,
) -> Entries {
    let said = said(model, content, compat);
    let calls = calls_json(content, properties);
    let details = reasoning_details(content, parse);
    let called = if calls.len() == 0 {
        said
    } else if details.len() == 0 {
        with_entry(said, "tool_calls"@, Json::Array(calls))
    } else {
        with_entry(
            with_entry(said, "tool_calls"@, Json::Array(calls)),
            "reasoning_details"@,
            Json::Array(details),
        )
    };
    if compat.requires_reasoning_content_on_assistant_messages && model.reasoning && !has_key(
        called,
        "reasoning_content"@,
    ) {
        with_entry(called, "reasoning_content"@, Json::Str(Seq::empty()))
    } else {
        called
    }
}

/// Whether an assistant message says or calls anything.
pub open spec fn says_anything(e: Entries) -> bool {
    (match get(e, "content"@) {
        Some(Json::Str(text)) => text.len() > 0,
        Some(Json::Array(list)) => list.len() > 0,
        _ => false,
    }) || has_key(e, "tool_calls"@)
}

pub open spec fn assistant_message(
    model: Model,
    content: Seq<Content>,
    compat: Compat,
    properties: Pairs,
    parse: spec_fn(Seq<char>) -> Option<Json>,
) -> Option<Json> {
    let e = assistant_entries(model, content, compat, properties, parse);
    if says_anything(e) {
        Some(Json::Object(e))
    } else {
        None
    }
}

fn collect_spoken(content: &Vec<Content>) -> (r: Vec<String>)
    ensures
        texts(r@) == spoken(content@),
{
    let mut r: Vec<String> = Vec::new();
    let mut i: usize = 0;
    proof {
        crate::text::lemma_texts_empty();
    }
    while i < content.len()
        invariant
            i <= content@.len(),
            texts(r@) == spoken(content@.take(i as int)),
        decreases content.len() - i,
    {
        proof {
            assert(content@.take(i + 1).drop_last() =~= content@.take(i as int));
        }
        if let Content::Text(text) = &content[i] {
            if !blank(text.text.as_str()) {
                push_text(&mut r, text.text.clone());
            }
        }
        i += 1;
    }
    proof {
        assert(content@.take(content@.len() as int) =~= content@);
    }
    r
}

/// The thinking that is not blank, and the signature of the first.
fn collect_thoughts(content: &Vec<Content>) -> (r: (Vec<String>, Option<String>))
    ensures
        texts(r.0@) == thought_texts(thoughts(content@)),
        r.0@.len() == thoughts(content@).len(),
        thoughts(content@).len() > 0 ==> opt_text(r.1) == thoughts(content@)[0].1,
{
    let mut r: Vec<String> = Vec::new();
    let mut signature: Option<String> = None;
    let mut i: usize = 0;
    proof {
        assert(texts(r@) =~= thought_texts(thoughts(content@.take(0))));
    }
    while i < content.len()
        invariant
            i <= content@.len(),
            texts(r@) == thought_texts(thoughts(content@.take(i as int))),
            r@.len() == thoughts(content@.take(i as int)).len(),
            r@.len() > 0 ==> opt_text(signature) == thoughts(content@.take(i as int))[0].1,
        decreases content.len() - i,
    {
        let ghost before = thoughts(content@.take(i as int));
        proof {
            assert(content@.take(i + 1).drop_last() =~= content@.take(i as int));
        }
        if let Content::Thinking(thinking) = &content[i] {
            if !blank(thinking.thinking.as_str()) {
                if r.len() == 0 {
                    signature = clone_opt(&thinking.thinking_signature);
                }
                push_text(&mut r, thinking.thinking.clone());
                proof {
                    let one = (thinking.thinking@, opt_text(thinking.thinking_signature));
                    assert(thought_texts(before.push(one)) =~= thought_texts(before).push(one.0));
                }
            }
        }
        i += 1;
    }
    proof {
        assert(content@.take(content@.len() as int) =~= content@);
    }
    (r, signature)
}

fn make_text_parts(list: &Vec<String>) -> (r: Vec<Value>)
    ensures
        items(r@) == text_parts(texts(list@)),
{
    let mut r = new_items();
    let mut i: usize = 0;
    while i < list.len()
        invariant
            i <= list@.len(),
            items(r@) == text_parts(texts(list@)).take(i as int),
        decreases list.len() - i,
    {
        push_item(&mut r, make_text_part(list[i].as_str()));
        proof {
            assert(text_parts(texts(list@)).take(i + 1) =~= text_parts(texts(list@)).take(
                i as int,
            ).push(text_part(list@[i as int]@)));
        }
        i += 1;
    }
    proof {
        assert(text_parts(texts(list@)).take(list@.len() as int) =~= text_parts(texts(list@)));
    }
    r
}

fn convert_call(call: &ToolCall, properties: &Vec<(String, String)>) -> (r: Value)
    ensures
        r@ == call_json(*call, pairs(properties@)),
{
    let mut e = new_entries();
    put_str(&mut e, "id", call.id.as_str());
    match find_property(properties, call.name.as_str()) {
        Some(property) => {
            let input = match get_grammar_tool_input(
                call.name.as_str(),
                &call.arguments,
                property.as_str(),
            ) {
                Ok(input) => input,
                Err(_) => String::new(),
            };
            let mut custom = new_entries();
            put_str(&mut custom, "name", call.name.as_str());
            put_str(&mut custom, "input", input.as_str());
            put_str(&mut e, "type", "custom");
            put_object(&mut e, "custom", custom);
        },
        None => {
            let mut function = new_entries();
            put_str(&mut function, "name", call.name.as_str());
            put_str(&mut function, "arguments", json_stringify(&call.arguments).as_str());
            put_str(&mut e, "type", "function");
            put_object(&mut e, "function", function);
        },
    }
    object(e)
}

fn convert_calls(content: &Vec<Content>, properties: &Vec<(String, String)>) -> (r: Vec<Value>)
    ensures
        items(r@) == calls_json(content@, pairs(properties@)),
{
    let mut r = new_items();
    let mut i: usize = 0;
    while i < content.len()
        invariant
            i <= content@.len(),
            items(r@) == calls_json(content@.take(i as int), pairs(properties@)),
        decreases content.len() - i,
    {
        proof {
            assert(content@.take(i + 1).drop_last() =~= content@.take(i as int));
        }
        if let Content::ToolCall(call) = &content[i] {
            push_item(&mut r, convert_call(call, properties));
        }
        i += 1;
    }
    proof {
        assert(content@.take(content@.len() as int) =~= content@);
    }
    r
}

fn collect_details<P: Fn(&str) -> Option<Value>>(content: &Vec<Content>, parse: &P) -> (r: Vec<
    Value,
>)
    requires
        is_parser(*parse),
    ensures
        items(r@) == reasoning_details(content@, parser_of(*parse)),
{
    let mut r = new_items();
    let mut i: usize = 0;
    while i < content.len()
        invariant
            i <= content@.len(),
            is_parser(*parse),
            items(r@) == reasoning_details(content@.take(i as int), parser_of(*parse)),
        decreases content.len() - i,
    {
        proof {
            assert(content@.take(i + 1).drop_last() =~= content@.take(i as int));
        }
        if let Content::ToolCall(call) = &content[i] {
            if let Some(signature) = &call.thought_signature {
                if let Some(detail) = parse_with(parse, signature.as_str()) {
                    push_item(&mut r, detail);
                }
            }
        }
        i += 1;
    }
    proof {
        assert(content@.take(content@.len() as int) =~= content@);
    }
    r
}

fn say(
    model: &Model,
    content: &Vec<Content>,
    compat: &ResolvedOpenAICompletionsCompat,
) -> (r: Vec<(String, Value)>)
    ensures
        entries(r@) == said(*model, content@, compat@),
{
    let mut e = new_entries();
    put_str(&mut e, "role", "assistant");
    put(
        &mut e,
        "content",
        if compat.requires_assistant_after_tool_result {
            Value::Str(String::new())
        } else {
            Value::Null
        },
    );
    let parts = collect_spoken(content);
    let text = join(&parts, "");
    proof {
        reveal_strlit("");
        assert(""@ =~= Seq::<char>::empty());
    }
    let (thinking, signature) = collect_thoughts(content);
    if thinking.len() == 0 {
        if !text.as_str().is_empty() {
            set_entry(&mut e, "content", string(text.as_str()));
        }
        return e;
    }
    if compat.requires_thinking_as_text {
        let mut list = new_items();
        push_item(&mut list, make_text_part(join(&thinking, "\n\n").as_str()));
        append_items(&mut list, make_text_parts(&parts));
        set_entry(&mut e, "content", array(list));
        return e;
    }
    if !text.as_str().is_empty() {
        set_entry(&mut e, "content", string(text.as_str()));
    }
    let field = if str_eq(model.provider.as_str(), "opencode-go") && opt_is(
        borrow_opt(&signature),
        "reasoning",
    ) {
        Some("reasoning_content".to_owned())
    } else {
        signature
    };
    if let Some(field) = field {
        if !field.as_str().is_empty() {
            set_entry(&mut e, field.as_str(), string(join(&thinking, "\n").as_str()));
        }
    }
    e
}

fn convert_assistant_message<P: Fn(&str) -> Option<Value>>(
    model: &Model,
    content: &Vec<Content>,
    compat: &ResolvedOpenAICompletionsCompat,
    properties: &Vec<(String, String)>,
    parse: &P,
) -> (r: Option<Value>)
    requires
        is_parser(*parse),
    ensures
        crate::json::opt_json(r) == assistant_message(
            *model,
            content@,
            compat@,
            pairs(properties@),
            parser_of(*parse),
        ),
{
    let mut e = say(model, content, compat);
    let calls = convert_calls(content, properties);
    proof {
        assert(items(calls@).len() == calls@.len());
    }
    if calls.len() > 0 {
        set_entry(&mut e, "tool_calls", array(calls));
        let details = collect_details(content, parse);
        proof {
            assert(items(details@).len() == details@.len());
        }
        if details.len() > 0 {
            set_entry(&mut e, "reasoning_details", array(details));
        }
    }
    if compat.requires_reasoning_content_on_assistant_messages && model.reasoning && !has_entry(
        &e,
        "reasoning_content",
    ) {
        set_entry(&mut e, "reasoning_content", Value::Str(String::new()));
    }
    let has_content = match get_value(&e, "content") {
        Some(value) => match value {
            Value::Str(text) => !text.as_str().is_empty(),
            Value::Array(list) => {
                proof {
                    assert(value@->Array_0.len() == list@.len());
                }
                list.len() > 0
            },
            _ => false,
        },
        None => false,
    };
    if has_content || has_entry(&e, "tool_calls") {
        Some(object(e))
    } else {
        None
    }
}

// ---------------------------------------------------------------------------
// Tool results
// ---------------------------------------------------------------------------

/// The texts of a list of blocks.
pub open spec fn block_texts(content: Seq<Content>) -> Seq<Seq<char>>
    decreases content.len(),
{
    if content.len() == 0 {
        Seq::empty()
    } else {
        let before = block_texts(content.drop_last());
        match content.last() {
            Content::Text(text) => before.push(text.text@),
            _ => before,
        }
    }
}

pub open spec fn any_filled(list: Seq<Seq<char>>) -> bool {
    exists|i: int| 0 <= i < list.len() && (#[trigger] list[i]).len() > 0
}

/// The text of a tool result.
pub open spec fn result_text(content: Seq<Content>) -> Seq<char> {
    if any_filled(block_texts(content)) {
        joined(block_texts(content), "\n"@)
    } else if holds_image(content) {
        "(see attached image)"@
    } else {
        "(no tool output)"@
    }
}

pub open spec fn tool_message(result: ToolResultMessage, compat: Compat) -> Json {
    Json::Object(
        no_entries().put("role"@, Json::Str("tool"@)).put(
            "content"@,
            Json::Str(result_text(result.content@)),
        ).put("tool_call_id"@, Json::Str(result.tool_call_id@)).put_if(
            compat.requires_tool_result_name && result.tool_name@.len() > 0,
            "name"@,
            Json::Str(result.tool_name@),
        ),
    )
}

pub fn collect_block_texts(content: &Vec<Content>) -> (r: Vec<String>)
    ensures
        texts(r@) == block_texts(content@),
{
    let mut r: Vec<String> = Vec::new();
    let mut i: usize = 0;
    proof {
        crate::text::lemma_texts_empty();
    }
    while i < content.len()
        invariant
            i <= content@.len(),
            texts(r@) == block_texts(content@.take(i as int)),
        decreases content.len() - i,
    {
        proof {
            assert(content@.take(i + 1).drop_last() =~= content@.take(i as int));
        }
        if let Content::Text(text) = &content[i] {
            push_text(&mut r, text.text.clone());
        }
        i += 1;
    }
    proof {
        assert(content@.take(content@.len() as int) =~= content@);
    }
    r
}

fn has_filled(list: &Vec<String>) -> (r: bool)
    ensures
        r == any_filled(texts(list@)),
{
    let mut i: usize = 0;
    while i < list.len()
        invariant
            i <= list@.len(),
            forall|j: int| 0 <= j < i ==> (#[trigger] texts(list@)[j]).len() == 0,
        decreases list.len() - i,
    {
        if !list[i].as_str().is_empty() {
            proof {
                assert(texts(list@)[i as int].len() > 0);
            }
            return true;
        }
        i += 1;
    }
    false
}

fn convert_tool_result(
    result: &ToolResultMessage,
    compat: &ResolvedOpenAICompletionsCompat,
) -> (r: Value)
    ensures
        r@ == tool_message(*result, compat@),
{
    let list = collect_block_texts(&result.content);
    let text = if has_filled(&list) {
        join(&list, "\n")
    } else if has_image(&result.content) {
        "(see attached image)".to_owned()
    } else {
        "(no tool output)".to_owned()
    };
    let mut e = new_entries();
    put_str(&mut e, "role", "tool");
    put_str(&mut e, "content", text.as_str());
    put_str(&mut e, "tool_call_id", result.tool_call_id.as_str());
    if compat.requires_tool_result_name && !result.tool_name.as_str().is_empty() {
        put_str(&mut e, "name", result.tool_name.as_str());
    }
    object(e)
}

/// The tool results of a run of messages.
pub open spec fn run_results(run: Seq<Message>, compat: Compat) -> Seq<Json>
    decreases run.len(),
{
    if run.len() == 0 {
        Seq::empty()
    } else {
        let before = run_results(run.drop_last(), compat);
        match run.last() {
            Message::ToolResult(result) => before.push(tool_message(result, compat)),
            _ => before,
        }
    }
}

/// The images of the tool results of a run of messages.
pub open spec fn run_images(run: Seq<Message>) -> Seq<Json>
    decreases run.len(),
{
    if run.len() == 0 {
        Seq::empty()
    } else {
        let before = run_images(run.drop_last());
        match run.last() {
            Message::ToolResult(result) => before + image_parts(result.content@),
            _ => before,
        }
    }
}

/// Whether a model takes images.
pub open spec fn takes_images(model: Model) -> bool {
    texts(model.input@).contains("image"@)
}

/// What does not change while messages are converted.
pub struct Setting {
    pub model: Model,
    pub compat: Compat,
    pub tools: Seq<Tool>,
    pub properties: Pairs,
    pub parse: spec_fn(Seq<char>) -> Option<Json>,
}

pub open spec fn bridge() -> Json {
    role_message("assistant"@, Json::Str("I have processed the tool results."@))
}

/// The images that follow a run of tool results.
pub open spec fn attached_images(run: Seq<Message>, s: Setting) -> Seq<Json> {
    if takes_images(s.model) {
        run_images(run)
    } else {
        Seq::empty()
    }
}

pub open spec fn images_message(images: Seq<Json>) -> Json {
    role_message(
        "user"@,
        Json::Array(
            Seq::<Json>::empty().push(text_part("Attached image(s) from tool result:"@)) + images,
        ),
    )
}

/// The tools that a run of tool results loads.
pub open spec fn loaded_tools(run: Seq<Message>, s: Setting) -> Seq<Tool> {
    if s.compat.deferred_tools_mode == Some("kimi"@) {
        named_tools(s.tools, deferred_names(run))
    } else {
        Seq::empty()
    }
}

pub open spec fn tools_message(tools: Seq<Tool>, compat: Compat) -> Json {
    Json::Object(
        no_entries().put("role"@, Json::Str("system"@)).put(
            "tools"@,
            Json::Array(tools_json(tools, compat)),
        ),
    )
}

/// What a run of tool results becomes.
pub open spec fn run_messages(run: Seq<Message>, s: Setting) -> Seq<Json> {
    let results = run_results(run, s.compat);
    let images = attached_images(run, s);
    let shown = if images.len() == 0 {
        results
    } else if s.compat.requires_assistant_after_tool_result {
        results.push(bridge()).push(images_message(images))
    } else {
        results.push(images_message(images))
    };
    let tools = loaded_tools(run, s);
    if tools.len() == 0 {
        shown
    } else {
        shown.push(tools_message(tools, s.compat))
    }
}

/// Where the run of tool results that includes position `i` ends.
pub open spec fn run_end(messages: Seq<Message>, i: int) -> int
    decreases messages.len() - i,
{
    if 0 <= i < messages.len() && messages[i] is ToolResult {
        run_end(messages, i + 1)
    } else {
        i
    }
}

pub proof fn lemma_run_end(messages: Seq<Message>, i: int)
    requires
        0 <= i <= messages.len(),
    ensures
        i <= run_end(messages, i) <= messages.len(),
        i < messages.len() && messages[i] is ToolResult ==> i < run_end(messages, i),
    decreases messages.len() - i,
{
    if i < messages.len() && messages[i] is ToolResult {
        lemma_run_end(messages, i + 1);
    }
}

/// What the messages from position `i` on become. `after_tool` says whether the
/// last message that counts was a tool result.
pub open spec fn converted_from(
    messages: Seq<Message>,
    i: int,
    after_tool: bool,
    s: Setting,
) -> Seq<Json>
    decreases messages.len() - i,
{
    if i < 0 || i >= messages.len() {
        Seq::empty()
    } else {
        match messages[i] {
            Message::User(user) => {
                let bridged = if s.compat.requires_assistant_after_tool_result && after_tool {
                    Seq::<Json>::empty().push(bridge())
                } else {
                    Seq::<Json>::empty()
                };
                match user_message(user) {
                    Some(m) => bridged.push(m) + converted_from(messages, i + 1, false, s),
                    None => bridged + converted_from(messages, i + 1, after_tool, s),
                }
            },
            Message::Assistant(assistant) => {
                match assistant_message(
                    s.model,
                    assistant.content@,
                    s.compat,
                    s.properties,
                    s.parse,
                ) {
                    Some(m) => Seq::<Json>::empty().push(m) + converted_from(
                        messages,
                        i + 1,
                        false,
                        s,
                    ),
                    None => converted_from(messages, i + 1, after_tool, s),
                }
            },
            Message::ToolResult(_) => {
                let end = run_end(messages, i);
                let run = messages.subrange(i, end);
                proof {
                    lemma_run_end(messages, i);
                }
                run_messages(run, s) + converted_from(
                    messages,
                    end,
                    attached_images(run, s).len() == 0,
                    s,
                )
            },
        }
    }
}

/// The system prompt as a message, where there is one.
pub open spec fn prompt_messages(system_prompt: Option<Seq<char>>, s: Setting) -> Seq<Json> {
    match system_prompt {
        Some(prompt) => Seq::<Json>::empty().push(
            role_message(
                if s.model.reasoning && s.compat.supports_developer_role {
                    "developer"@
                } else {
                    "system"@
                },
                Json::Str(prompt),
            ),
        ),
        None => Seq::empty(),
    }
}

/// All messages of a request.
pub open spec fn converted(
    system_prompt: Option<Seq<char>>,
    messages: Seq<Message>,
    s: Setting,
) -> Seq<Json> {
    prompt_messages(system_prompt, s) + converted_from(messages, 0, false, s)
}

pub struct ConvertCompletionsMessagesOptions {
    pub grammar_tool_input_properties: Option<Vec<(String, String)>>,
}

pub open spec fn conversion_properties(options: Option<&ConvertCompletionsMessagesOptions>) -> Pairs {
    match options {
        Some(options) => match options.grammar_tool_input_properties {
            Some(properties) => pairs(properties@),
            None => Seq::empty(),
        },
        None => Seq::empty(),
    }
}

/// Converts the run of tool results that begins at `start`; gives the position
/// after it and whether images follow it.
fn convert_run(
    params: &mut Vec<Value>,
    model: &Model,
    tools: &Option<Vec<Tool>>,
    messages: &Vec<Message>,
    start: usize,
    compat: &ResolvedOpenAICompletionsCompat,
    Ghost(s): Ghost<Setting>,
) -> (r: (usize, bool))
    requires
        start < messages@.len(),
        messages@[start as int] is ToolResult,
        s.model == *model,
        s.compat == compat@,
        s.tools == opt_tools(*tools),
    ensures
        r.0 == run_end(messages@, start as int),
        start < r.0 <= messages@.len(),
        items(final(params)@) == items(old(params)@) + run_messages(
            messages@.subrange(start as int, r.0 as int),
            s,
        ),
        r.1 == (attached_images(messages@.subrange(start as int, r.0 as int), s).len() > 0),
{
    let with_images = contains_string(&model.input, "image");
    let with_tools = opt_is(borrow_opt(&compat.deferred_tools_mode), "kimi");
    let mut results = new_items();
    let mut images = new_items();
    let mut names: Vec<String> = Vec::new();
    let mut j: usize = start;
    proof {
        crate::text::lemma_texts_empty();
        lemma_run_end(messages@, start as int);
    }
    while j < messages.len() && matches!(messages[j], Message::ToolResult(_))
        invariant
            start <= j <= messages@.len(),
            run_end(messages@, start as int) == run_end(messages@, j as int),
            with_images == takes_images(*model),
            s.model == *model,
            s.compat == compat@,
            items(results@) == run_results(messages@.subrange(start as int, j as int), compat@),
            items(images@) == attached_images(messages@.subrange(start as int, j as int), s),
            texts(names@) == deferred_names(messages@.subrange(start as int, j as int)),
        decreases messages.len() - j,
    {
        proof {
            assert(messages@.subrange(start as int, j + 1).drop_last() =~= messages@.subrange(
                start as int,
                j as int,
            ));
        }
        if let Message::ToolResult(result) = &messages[j] {
            push_item(&mut results, convert_tool_result(result, compat));
            add_names(&mut names, &result.added_tool_names);
            if with_images {
                append_items(&mut images, convert_image_parts(&result.content));
            }
        }
        j += 1;
    }
    proof {
        assert(items(images@).len() == images@.len());
    }
    let ghost run = messages@.subrange(start as int, j as int);
    let shown = images.len() > 0;
    let ghost base = items(params@);
    let ghost listed = items(results@);
    append_items(params, results);
    if shown {
        if compat.requires_assistant_after_tool_result {
            push_item(
                params,
                message_value("assistant", string("I have processed the tool results.")),
            );
        }
        let mut content = new_items();
        push_item(&mut content, make_text_part("Attached image(s) from tool result:"));
        append_items(&mut content, images);
        push_item(params, message_value("user", array(content)));
    }
    if with_tools {
        let loaded = convert_named_tools(tools, &names, compat);
        proof {
            assert(items(loaded@).len() == loaded@.len());
        }
        if loaded.len() > 0 {
            let mut e = new_entries();
            put_str(&mut e, "role", "system");
            put_array(&mut e, "tools", loaded);
            push_item(params, object(e));
        }
    }
    proof {
        assert(items(params@) =~= base + run_messages(run, s));
    }
    (j, shown)
}

/// Converts the messages of a conversation, which have been prepared for the
/// model, into those of a request.
pub fn convert_messages<P: Fn(&str) -> Option<Value>>(
    model: &Model,
    context: &Context,
    messages: &Vec<Message>,
    compat: &ResolvedOpenAICompletionsCompat,
    options: Option<&ConvertCompletionsMessagesOptions>,
    parse: &P,
) -> (r: Vec<Value>)
    requires
        is_parser(*parse),
    ensures
        items(r@) == converted(
            opt_text(context.system_prompt),
            messages@,
            Setting {
                model: *model,
                compat: compat@,
                tools: opt_tools(context.tools),
                properties: conversion_properties(options),
                parse: parser_of(*parse),
            },
        ),
{
    let none: Vec<(String, String)> = Vec::new();
    let properties: &Vec<(String, String)> = match options {
        Some(options) => match &options.grammar_tool_input_properties {
            Some(properties) => properties,
            None => &none,
        },
        None => &none,
    };
    proof {
        assert(pairs(none@) =~= Pairs::empty());
        assert(pairs(properties@) == conversion_properties(options));
    }
    let ghost s = Setting {
        model: *model,
        compat: compat@,
        tools: opt_tools(context.tools),
        properties: conversion_properties(options),
        parse: parser_of(*parse),
    };
    let mut params = new_items();
    if let Some(system_prompt) = &context.system_prompt {
        let role = if model.reasoning && compat.supports_developer_role {
            "developer"
        } else {
            "system"
        };
        push_item(&mut params, message_value(role, string(system_prompt.as_str())));
    }
    let ghost whole = converted(opt_text(context.system_prompt), messages@, s);
    let mut after_tool = false;
    let mut i: usize = 0;
    while i < messages.len()
        invariant
            i <= messages@.len(),
            is_parser(*parse),
            pairs(properties@) == s.properties,
            s == (Setting {
                model: *model,
                compat: compat@,
                tools: opt_tools(context.tools),
                properties: conversion_properties(options),
                parse: parser_of(*parse),
            }),
            whole == items(params@) + converted_from(messages@, i as int, after_tool, s),
        decreases messages.len() - i,
    {
        let ghost base = items(params@);
        match &messages[i] {
            Message::User(user) => {
                if compat.requires_assistant_after_tool_result && after_tool {
                    push_item(
                        &mut params,
                        message_value("assistant", string("I have processed the tool results.")),
                    );
                }
                match convert_user_message(user) {
                    Some(m) => {
                        let ghost rest = converted_from(messages@, i + 1, false, s);
                        push_item(&mut params, m);
                        after_tool = false;
                        i += 1;
                        proof {
                            assert(whole =~= items(params@) + rest);
                        }
                    },
                    None => {
                        let ghost rest = converted_from(messages@, i + 1, after_tool, s);
                        i += 1;
                        proof {
                            assert(whole =~= items(params@) + rest);
                        }
                    },
                }
            },
            Message::Assistant(assistant) => {
                match convert_assistant_message(
                    model,
                    &assistant.content,
                    compat,
                    properties,
                    parse,
                ) {
                    Some(m) => {
                        let ghost rest = converted_from(messages@, i + 1, false, s);
                        push_item(&mut params, m);
                        after_tool = false;
                        i += 1;
                        proof {
                            assert(whole =~= items(params@) + rest);
                        }
                    },
                    None => {
                        i += 1;
                    },
                }
            },
            Message::ToolResult(_) => {
                let ghost start = i as int;
                let (end, shown) = convert_run(
                    &mut params,
                    model,
                    &context.tools,
                    messages,
                    i,
                    compat,
                    Ghost(s),
                );
                i = end;
                after_tool = !shown;
                proof {
                    let run = messages@.subrange(start, end as int);
                    let rest = converted_from(messages@, end as int, after_tool, s);
                    assert(whole =~= base + (run_messages(run, s) + rest));
                    assert(whole =~= items(params@) + rest);
                }
            },
        }
    }
    proof {
        assert(whole =~= items(params@));
    }
    params
}

} // verus!
