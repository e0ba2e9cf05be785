//! How messages and tools become the messages and tools of a request.
use vstd::prelude::*;
use vstd::string::*;
use crate::api::blocks::{data_url, make_data_url, make_text_part, text_part};
use crate::api::constrained_sampling::{strict_or_none, strict_sampling_or_none};
use crate::api::github_copilot_headers::{has_image, holds_image};
use crate::api::openai_completions::messages::{block_texts, collect_block_texts};
use crate::json::{
    array1, entries, items, json_stringify, json_text, new_entries, new_items, no_entries, object,
    one_item, push_item, put, put_array, put_bool, put_object, put_str, string, EntriesSpec, Json,
    Value,
};
use crate::number::{whole, Number};
use crate::text::{blank, cat2, cat3, is_blank, join, joined, trim, trimmed};
use crate::types::{
    AssistantMessage, Content, Message, Tool, ToolCall, ToolResultMessage, UserMessage,
    UserMessageContent,
};

verus! {

// ---------------------------------------------------------------------------
// Tool results
// ---------------------------------------------------------------------------

/// The text of a tool result, with what is said in place of an image that is
/// not sent.
pub open spec fn tool_result_text(
    text: Seq<char>,
    has_images: bool,
    supports_images: bool,
    is_error: bool,
) -> Seq<char> {
    let prefix = if is_error {
        "[tool error] "@
    } else {
        ""@
    };
    if trimmed(text).len() > 0 {
        let suffix = if has_images && !supports_images {
            "\n[tool image omitted: model does not support images]"@
        } else {
            ""@
        };
        prefix + trimmed(text) + suffix
    } else if has_images {
        if supports_images {
            prefix + "(see attached image)"@
        } else {
            prefix + "(image omitted: model does not support images)"@
        }
    } else {
        prefix + "(no tool output)"@
    }
}

pub fn build_tool_result_text(
    text: &str,
    has_images: bool,
    supports_images: bool,
    is_error: bool,
) -> (r: String)
    ensures
        r@ == tool_result_text(text@, has_images, supports_images, is_error),
{
    let words = trim(text);
    let prefix = if is_error {
        "[tool error] "
    } else {
        ""
    };
    if !words.as_str().is_empty() {
        let suffix = if has_images && !supports_images {
            "\n[tool image omitted: model does not support images]"
        } else {
            ""
        };
        return cat3(prefix, words.as_str(), suffix);
    }
    if has_images {
        if supports_images {
            cat2(prefix, "(see attached image)")
        } else {
            cat2(prefix, "(image omitted: model does not support images)")
        }
    } else {
        cat2(prefix, "(no tool output)")
    }
}

// ---------------------------------------------------------------------------
// Parts
// ---------------------------------------------------------------------------

pub open spec fn image_part(mime_type: Seq<char>, data: Seq<char>) -> Json {
    Json::Object(
        no_entries().put("type"@, Json::Str("image_url"@)).put(
            "image_url"@,
            Json::Str(data_url(mime_type, data)),
        ),
    )
}

fn make_image_part(mime_type: &str, data: &str) -> (r: Value)
    ensures
        r@ == image_part(mime_type@, data@),
{
    let mut e = new_entries();
    put_str(&mut e, "type", "image_url");
    put_str(&mut e, "image_url", make_data_url(mime_type, data).as_str());
    object(e)
}

/// The parts of what a user says. Images are left out where the model takes
/// none.
pub open spec fn user_parts(content: Seq<Content>, supports_images: bool) -> Seq<Json>
    decreases content.len(),
{
    if content.len() == 0 {
        Seq::empty()
    } else {
        let before = user_parts(content.drop_last(), supports_images);
        match content.last() {
            Content::Text(text) => before.push(text_part(text.text@)),
            Content::Image(image) => if supports_images {
                before.push(image_part(image.mime_type@, image.data@))
            } else {
                before
            },
            _ => before,
        }
    }
}

pub open spec fn image_parts(content: Seq<Content>) -> Seq<Json>
    decreases content.len(),
{
    if content.len() == 0 {
        Seq::empty()
    } else {
        let before = image_parts(content.drop_last());
        match content.last() {
            Content::Image(image) => before.push(image_part(image.mime_type@, image.data@)),
            _ => before,
        }
    }
}

pub open spec fn thinking_part(text: Seq<char>) -> Json {
    Json::Object(
        no_entries().put("type"@, Json::Str("thinking"@)).put(
            "thinking"@,
            one_item(text_part(text)),
        ),
    )
}

/// What an assistant said and thought, without what is blank.
pub open spec fn assistant_parts(content: Seq<Content>) -> Seq<Json>
    decreases content.len(),
{
    if content.len() == 0 {
        Seq::empty()
    } else {
        let before = assistant_parts(content.drop_last());
        match content.last() {
            Content::Text(text) => if is_blank(text.text@) {
                before
            } else {
                before.push(text_part(text.text@))
            },
            Content::Thinking(thinking) => if is_blank(thinking.thinking@) {
                before
            } else {
                before.push(thinking_part(thinking.thinking@))
            },
            _ => before,
        }
    }
}

pub open spec fn call_json(call: ToolCall) -> Json {
    Json::Object(
        no_entries().put("id"@, Json::Str(call.id@)).put("type"@, Json::Str("function"@)).put(
            "function"@,
            Json::Object(
                no_entries().put("name"@, Json::Str(call.name@)).put(
                    "arguments"@,
                    Json::Str(json_text(call.arguments@)),
                ),
            ),
        ).put("index"@, Json::Number(whole(0))),
    )
}

pub open spec fn calls_json(content: Seq<Content>) -> Seq<Json>
    decreases content.len(),
{
    if content.len() == 0 {
        Seq::empty()
    } else {
        let before = calls_json(content.drop_last());
        match content.last() {
            Content::ToolCall(call) => before.push(call_json(call)),
            _ => before,
        }
    }
}

fn collect_user_parts(content: &Vec<Content>, supports_images: bool) -> (r: Vec<Value>)
    ensures
        items(r@) == user_parts(content@, supports_images),
{
    let mut r = new_items();
    let mut i: usize = 0;
    while i < content.len()
        invariant
            i <= content@.len(),
            items(r@) == user_parts(content@.take(i as int), supports_images),
        decreases content.len() - i,
    {
        proof {
            assert(content@.take(i + 1).drop_last() =~= content@.take(i as int));
        }
        match &content[i] {
            Content::Text(text) => push_item(&mut r, make_text_part(text.text.as_str())),
            Content::Image(image) => if supports_images {
                push_item(
                    &mut r,
                    make_image_part(image.mime_type.as_str(), image.data.as_str()),
                );
            },
            _ => {},
        }
        i += 1;
    }
    proof {
        assert(content@.take(content@.len() as int) =~= content@);
    }
    r
}

fn push_images(r: &mut Vec<Value>, content: &Vec<Content>)
    ensures
        items(final(r)@) == items(old(r)@) + image_parts(content@),
{
    let mut i: usize = 0;
    proof {
        assert(items(r@) + Seq::<Json>::empty() =~= items(r@));
    }
    while i < content.len()
        invariant
            i <= content@.len(),
            items(r@) == items(old(r)@) + image_parts(content@.take(i as int)),
        decreases content.len() - i,
    {
        let ghost before = image_parts(content@.take(i as int));
        proof {
            assert(content@.take(i + 1).drop_last() =~= content@.take(i as int));
        }
        if let Content::Image(image) = &content[i] {
            push_item(r, make_image_part(image.mime_type.as_str(), image.data.as_str()));
            proof {
                assert(items(r@) =~= items(old(r)@) + before.push(
                    image_part(image.mime_type@, image.data@),
                ));
            }
        }
        i += 1;
    }
    proof {
        assert(content@.take(content@.len() as int) =~= content@);
    }
}

fn make_call(call: &ToolCall) -> (r: Value)
    ensures
        r@ == call_json(*call),
{
    let mut function = new_entries();
    put_str(&mut function, "name", call.name.as_str());
    put_str(&mut function, "arguments", json_stringify(&call.arguments).as_str());
    let mut e = new_entries();
    put_str(&mut e, "id", call.id.as_str());
    put_str(&mut e, "type", "function");
    put_object(&mut e, "function", function);
    put(&mut e, "index", Value::Number(Number::zero()));
    object(e)
}

fn make_thinking_part(text: &str) -> (r: Value)
    ensures
        r@ == thinking_part(text@),
{
    let mut e = new_entries();
    put_str(&mut e, "type", "thinking");
    put(&mut e, "thinking", array1(make_text_part(text)));
    object(e)
}

fn collect_assistant(content: &Vec<Content>) -> (r: (Vec<Value>, Vec<Value>))
    ensures
        items(r.0@) == assistant_parts(content@),
        items(r.1@) == calls_json(content@),
{
    let mut parts = new_items();
    let mut calls = new_items();
    let mut i: usize = 0;
    while i < content.len()
        invariant
            i <= content@.len(),
            items(parts@) == assistant_parts(content@.take(i as int)),
            items(calls@) == calls_json(content@.take(i as int)),
        decreases content.len() - i,
    {
        proof {
            assert(content@.take(i + 1).drop_last() =~= content@.take(i as int));
        }
        match &content[i] {
            Content::Text(text) => if !blank(text.text.as_str()) {
                push_item(&mut parts, make_text_part(text.text.as_str()));
            },
            Content::Thinking(thinking) => if !blank(thinking.thinking.as_str()) {
                push_item(&mut parts, make_thinking_part(thinking.thinking.as_str()));
            },
            Content::ToolCall(call) => push_item(&mut calls, make_call(call)),
            Content::Image(_) => {},
        }
        i += 1;
    }
    proof {
        assert(content@.take(content@.len() as int) =~= content@);
    }
    (parts, calls)
}

// ---------------------------------------------------------------------------
// Messages
// ---------------------------------------------------------------------------

pub open spec fn role_message(role: Seq<char>, content: Json) -> Json {
    Json::Object(no_entries().put("role"@, Json::Str(role)).put("content"@, content))
}

pub open spec fn user_message(user: UserMessage, supports_images: bool) -> Option<Json> {
    match user.content {
        UserMessageContent::Text(text) => Some(role_message("user"@, Json::Str(text@))),
        UserMessageContent::Blocks(blocks) => {
            let parts = user_parts(blocks@, supports_images);
            if parts.len() > 0 {
                Some(role_message("user"@, Json::Array(parts)))
            } else if holds_image(blocks@) && !supports_images {
                Some(
                    role_message(
                        "user"@,
                        Json::Str("(image omitted: model does not support images)"@),
                    ),
                )
            } else {
                None
            }
        },
    }
}

/// The list as an array, unless it is empty.
pub open spec fn filled_array(list: Seq<Json>) -> Option<Json> {
    if list.len() > 0 {
        Some(Json::Array(list))
    } else {
        None
    }
}

pub open spec fn assistant_message(a: AssistantMessage) -> Option<Json> {
    let parts = assistant_parts(a.content@);
    let calls = calls_json(a.content@);
    if parts.len() > 0 || calls.len() > 0 {
        Some(
            Json::Object(
                no_entries().put("role"@, Json::Str("assistant"@)).put(
                    "prefix"@,
                    Json::Bool(false),
                ).put_opt("content"@, filled_array(parts)).put_opt(
                    "tool_calls"@,
                    filled_array(calls),
                ),
            ),
        )
    } else {
        None
    }
}

pub open spec fn tool_message(result: ToolResultMessage, supports_images: bool) -> Json {
    let text = tool_result_text(
        joined(block_texts(result.content@), "\n"@),
        holds_image(result.content@),
        supports_images,
        result.is_error,
    );
    let said = Seq::<Json>::empty().push(text_part(text));
    Json::Object(
        no_entries().put("role"@, Json::Str("tool"@)).put(
            "tool_call_id"@,
            Json::Str(result.tool_call_id@),
        ).put("name"@, Json::Str(result.tool_name@)).put(
            "content"@,
            Json::Array(
                if supports_images {
                    said + image_parts(result.content@)
                } else {
                    said
                },
            ),
        ),
    )
}

pub open spec fn message_json(message: Message, supports_images: bool) -> Option<Json> {
    match message {
        Message::User(user) => user_message(user, supports_images),
        Message::Assistant(a) => assistant_message(a),
        Message::ToolResult(result) => Some(tool_message(result, supports_images)),
    }
}

/// The messages of a request.
pub open spec fn messages_json(messages: Seq<Message>, supports_images: bool) -> Seq<Json>
    decreases messages.len(),
{
    if messages.len() == 0 {
        Seq::empty()
    } else {
        let before = messages_json(messages.drop_last(), supports_images);
        match message_json(messages.last(), supports_images) {
            Some(message) => before.push(message),
            None => before,
        }
    }
}

pub open spec fn is_plain(block: Content) -> bool {
    block is Text || block is Image
}

pub open spec fn says_plainly(message: Message) -> bool {
    match message {
        Message::User(user) => match user.content {
            UserMessageContent::Blocks(blocks) => forall|i: int|
                0 <= i < blocks@.len() ==> is_plain(#[trigger] blocks@[i]),
            _ => true,
        },
        _ => true,
    }
}

/// Whether users say nothing but text and images.
pub open spec fn users_say_plainly(messages: Seq<Message>) -> bool {
    forall|i: int| 0 <= i < messages.len() ==> says_plainly(#[trigger] messages[i])
}

fn blocks_are_plain(content: &Vec<Content>) -> (r: bool)
    ensures
        r == (forall|i: int| 0 <= i < content@.len() ==> is_plain(#[trigger] content@[i])),
{
    let mut i: usize = 0;
    while i < content.len()
        invariant
            i <= content@.len(),
            forall|j: int| 0 <= j < i ==> is_plain(#[trigger] content@[j]),
        decreases content.len() - i,
    {
        match &content[i] {
            Content::Text(_) | Content::Image(_) => {},
            _ => {
                proof {
                    assert(!is_plain(content@[i as int]));
                }
                return false;
            },
        }
        i += 1;
    }
    true
}

/// Whether users say nothing but text and images.
pub fn user_blocks_are_plain(messages: &Vec<Message>) -> (r: bool)
    ensures
        r == users_say_plainly(messages@),
{
    let mut i: usize = 0;
    while i < messages.len()
        invariant
            i <= messages@.len(),
            forall|j: int| 0 <= j < i ==> says_plainly(#[trigger] messages@[j]),
        decreases messages.len() - i,
    {
        let plain = match &messages[i] {
            Message::User(user) => match &user.content {
                UserMessageContent::Blocks(blocks) => blocks_are_plain(blocks),
                _ => true,
            },
            _ => true,
        };
        if !plain {
            proof {
                assert(!says_plainly(messages@[i as int]));
            }
            return false;
        }
        i += 1;
    }
    true
}

fn make_role_message(role: &str, content: Value) -> (r: Value)
    ensures
        r@ == role_message(role@, content@),
{
    let mut e = new_entries();
    put_str(&mut e, "role", role);
    put(&mut e, "content", content);
    object(e)
}

fn convert_user(user: &UserMessage, supports_images: bool) -> (r: Option<Value>)
    ensures
        match r {
            Some(message) => user_message(*user, supports_images) == Some(message@),
            None => user_message(*user, supports_images) is None,
        },
{
    match &user.content {
        UserMessageContent::Text(text) => Some(make_role_message("user", string(text.as_str()))),
        UserMessageContent::Blocks(blocks) => {
            let parts = collect_user_parts(blocks, supports_images);
            proof {
                assert(items(parts@).len() == parts@.len());
            }
            if parts.len() > 0 {
                Some(make_role_message("user", crate::json::array(parts)))
            } else if has_image(blocks) && !supports_images {
                Some(
                    make_role_message(
                        "user",
                        string("(image omitted: model does not support images)"),
                    ),
                )
            } else {
                None
            }
        },
    }
}

fn put_filled(e: &mut Vec<(String, Value)>, key: &str, list: Vec<Value>)
    ensures
        entries(final(e)@) == entries(old(e)@).put_opt(key@, filled_array(items(list@))),
{
    proof {
        assert(items(list@).len() == list@.len());
    }
    if list.len() > 0 {
        put_array(e, key, list);
    }
}

fn convert_assistant(a: &AssistantMessage) -> (r: Option<Value>)
    ensures
        match r {
            Some(message) => assistant_message(*a) == Some(message@),
            None => assistant_message(*a) is None,
        },
{
    let (parts, calls) = collect_assistant(&a.content);
    proof {
        assert(items(parts@).len() == parts@.len());
        assert(items(calls@).len() == calls@.len());
    }
    if parts.len() == 0 && calls.len() == 0 {
        return None;
    }
    let mut e = new_entries();
    put_str(&mut e, "role", "assistant");
    put_bool(&mut e, "prefix", false);
    put_filled(&mut e, "content", parts);
    put_filled(&mut e, "tool_calls", calls);
    Some(object(e))
}

fn convert_result(result: &ToolResultMessage, supports_images: bool) -> (r: Value)
    ensures
        r@ == tool_message(*result, supports_images),
{
    let words = join(&collect_block_texts(&result.content), "\n");
    let text = build_tool_result_text(
        words.as_str(),
        has_image(&result.content),
        supports_images,
        result.is_error,
    );
    let mut content = new_items();
    push_item(&mut content, make_text_part(text.as_str()));
    if supports_images {
        push_images(&mut content, &result.content);
    }
    let mut e = new_entries();
    put_str(&mut e, "role", "tool");
    put_str(&mut e, "tool_call_id", result.tool_call_id.as_str());
    put_str(&mut e, "name", result.tool_name.as_str());
    put_array(&mut e, "content", content);
    object(e)
}

/// Converts messages. Where images are sent, a user says nothing but text and
/// images.
pub fn to_chat_messages(messages: &Vec<Message>, supports_images: bool) -> (r: Vec<Value>)
    requires
        supports_images ==> users_say_plainly(messages@),
    ensures
        items(r@) == messages_json(messages@, supports_images),
{
    let mut r = new_items();
    let mut i: usize = 0;
    while i < messages.len()
        invariant
            i <= messages@.len(),
            items(r@) == messages_json(messages@.take(i as int), supports_images),
        decreases messages.len() - i,
    {
        proof {
            assert(messages@.take(i + 1).drop_last() =~= messages@.take(i as int));
        }
        match &messages[i] {
            Message::User(user) => if let Some(message) = convert_user(user, supports_images) {
                push_item(&mut r, message);
            },
            Message::Assistant(a) => if let Some(message) = convert_assistant(a) {
                push_item(&mut r, message);
            },
            Message::ToolResult(result) => push_item(
                &mut r,
                convert_result(result, supports_images),
            ),
        }
        i += 1;
    }
    proof {
        assert(messages@.take(messages@.len() as int) =~= messages@);
    }
    r
}

/// Whether a part is the text of a block.
pub open spec fn is_text_of(content: Seq<Content>, part: Json) -> bool {
    exists|j: int|
        0 <= j < content.len() && (#[trigger] content[j]) is Text && part == text_part(
            content[j]->Text_0.text@,
        )
}

/// Where a model takes no images, nothing of an image reaches the request: every
/// part of what a user says is the text of a block.
pub proof fn law_images_are_left_out(content: Seq<Content>)
    ensures
        forall|i: int|
            0 <= i < user_parts(content, false).len() ==> is_text_of(
                content,
                #[trigger] user_parts(content, false)[i],
            ),
    decreases content.len(),
{
    if content.len() > 0 {
        let rest = content.drop_last();
        law_images_are_left_out(rest);
        let parts = user_parts(content, false);
        let before = user_parts(rest, false);
        assert forall|i: int| 0 <= i < parts.len() implies is_text_of(
            content,
            #[trigger] parts[i],
        ) by {
            if i < before.len() {
                assert(parts[i] == before[i]);
                let j = choose|j: int|
                    0 <= j < rest.len() && (#[trigger] rest[j]) is Text && before[i] == text_part(
                        rest[j]->Text_0.text@,
                    );
                assert(content[j] == rest[j]);
            } else {
                assert(content[content.len() - 1] is Text);
            }
        }
    }
}

// ---------------------------------------------------------------------------
// Tools
// ---------------------------------------------------------------------------

pub open spec fn tool_json(tool: Tool) -> Json {
    Json::Object(
        no_entries().put("type"@, Json::Str("function"@)).put(
            "function"@,
            Json::Object(
                no_entries().put("name"@, Json::Str(tool.name@)).put(
                    "description"@,
                    Json::Str(tool.description@),
                ).put("parameters"@, tool.parameters.value@).put(
                    "strict"@,
                    Json::Bool(strict_or_none(tool, true) == Some(true)),
                ),
            ),
        ),
    )
}

pub open spec fn tools_json(tools: Seq<Tool>) -> Seq<Json> {
    Seq::new(tools.len(), |i: int| tool_json(tools[i]))
}

fn convert_tool(tool: &Tool) -> (r: Value)
    ensures
        r@ == tool_json(*tool),
{
    let strict = match strict_sampling_or_none(tool, true) {
        Some(strict) => strict,
        None => false,
    };
    let mut function = new_entries();
    put_str(&mut function, "name", tool.name.as_str());
    put_str(&mut function, "description", tool.description.as_str());
    put(&mut function, "parameters", tool.parameters.to_value());
    put_bool(&mut function, "strict", strict);
    let mut e = new_entries();
    put_str(&mut e, "type", "function");
    put_object(&mut e, "function", function);
    object(e)
}

pub fn to_function_tools(tools: &Vec<Tool>) -> (r: Vec<Value>)
    ensures
        items(r@) == tools_json(tools@),
{
    let mut r = new_items();
    let mut i: usize = 0;
    while i < tools.len()
        invariant
            i <= tools@.len(),
            items(r@).len() == i,
            forall|j: int| 0 <= j < i ==> (#[trigger] items(r@)[j]) == tool_json(tools@[j]),
        decreases tools.len() - i,
    {
        push_item(&mut r, convert_tool(&tools[i]));
        i += 1;
    }
    proof {
        assert(items(r@) =~= tools_json(tools@));
    }
    r
}

} // verus!
