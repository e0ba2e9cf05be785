//! How messages and tools become the messages and tools of a request.
use vstd::prelude::*;
use vstd::string::*;
use super::compat::{control_json, make_sent_name, marker_of, sent_name, CacheControl};
use crate::api::blocks::{make_safe_id, make_text_part, safe_id, text_part};
use crate::api::constrained_sampling::{strict_or_none, strict_sampling_or_none};
use crate::api::github_copilot_headers::{has_image, holds_image};
use crate::api::openai_completions::messages::{added_names, block_texts, collect_block_texts};
use crate::json::{
    append_items, array, array1, as_object, clone_entries, clone_items, entries, get, get_str,
    get_value, items, new_entries, new_items, no_entries, object, one_item, opt_json, push_item, put,
    put_array, put_bool, put_object, put_str, set_entries, set_entry, str_at, str_items, string,
    string_array, with_entries, with_entry, Entries, EntriesSpec, Json, Value,
};
use crate::text::{
    blank, borrow_opt, contains_string, first_chars, is_blank, join, joined, opt_is, opt_text,
    push_text, take_chars, texts,
};
use crate::types::{
    AssistantMessage, Content, JsonSchemaObject, Message, PropertySchema, ThinkingContent, Tool,
    ToolCall, ToolResultMessage, UserMessage, UserMessageContent,
};

verus! {

// ---------------------------------------------------------------------------
// Identifiers
// ---------------------------------------------------------------------------

/// The most characters that the id of a tool call may have.
pub const MAX_TOOL_CALL_ID: usize = 64;

pub open spec fn normalized_id(id: Seq<char>) -> Seq<char> {
    first_chars(safe_id(id), MAX_TOOL_CALL_ID as int)
}

pub fn normalize_tool_call_id(id: &str) -> (r: String)
    ensures
        r@ == normalized_id(id@),
{
    take_chars(make_safe_id(id).as_str(), MAX_TOOL_CALL_ID)
}

/// The id of a tool call has at most 64 characters, each of them a letter, a
/// digit, a hyphen or an underscore, and normalizing it again changes nothing.
pub proof fn law_normalized_id_fits(id: Seq<char>)
    ensures
        normalized_id(id).len() <= MAX_TOOL_CALL_ID,
        normalized_id(normalized_id(id)) == normalized_id(id),
{
    let n = normalized_id(id);
    assert forall|i: int| 0 <= i < n.len() implies crate::api::blocks::safe_char(#[trigger] n[i])
        == n[i] by {
        assert(n[i] == safe_id(id)[i]);
        assert(safe_id(id)[i] == crate::api::blocks::safe_char(id[i]));
    }
    assert(safe_id(n) =~= n);
    assert(first_chars(n, MAX_TOOL_CALL_ID as int) =~= n);
}

// ---------------------------------------------------------------------------
// Content
// ---------------------------------------------------------------------------

pub open spec fn image_block(mime_type: Seq<char>, data: Seq<char>) -> Json {
    Json::Object(
        no_entries().put("type"@, Json::Str("image"@)).put(
            "source"@,
            Json::Object(
                no_entries().put("type"@, Json::Str("base64"@)).put(
                    "media_type"@,
                    Json::Str(mime_type),
                ).put("data"@, Json::Str(data)),
            ),
        ),
    )
}

fn make_image_block(mime_type: &str, data: &str) -> (r: Value)
    ensures
        r@ == image_block(mime_type@, data@),
{
    let mut source = new_entries();
    put_str(&mut source, "type", "base64");
    put_str(&mut source, "media_type", mime_type);
    put_str(&mut source, "data", data);
    let mut e = new_entries();
    put_str(&mut e, "type", "image");
    put_object(&mut e, "source", source);
    object(e)
}

pub enum ConvertedContent {
    Text(String),
    Blocks(Vec<Value>),
}

pub enum Converted {
    Text(Seq<char>),
    Blocks(Seq<Json>),
}

impl View for ConvertedContent {
    type V = Converted;

    open spec fn view(&self) -> Converted {
        match *self {
            ConvertedContent::Text(text) => Converted::Text(text@),
            ConvertedContent::Blocks(blocks) => Converted::Blocks(items(blocks@)),
        }
    }
}

pub open spec fn block_json(block: Content) -> Json {
    match block {
        Content::Text(text) => text_part(text.text@),
        Content::Image(image) => image_block(image.mime_type@, image.data@),
        _ => Json::Object(no_entries()),
    }
}

pub open spec fn blocks_json(content: Seq<Content>) -> Seq<Json> {
    Seq::new(content.len(), |i: int| block_json(content[i]))
}

pub open spec fn holds_text(content: Seq<Content>) -> bool {
    exists|i: int| 0 <= i < content.len() && (#[trigger] content[i]) is Text
}

/// Content as it is sent: its text, or its blocks where one is an image. Blocks
/// without a text get one.
pub open spec fn converted(content: Seq<Content>) -> Converted {
    if !holds_image(content) {
        Converted::Text(joined(block_texts(content), "\n"@))
    } else if holds_text(content) {
        Converted::Blocks(blocks_json(content))
    } else {
        Converted::Blocks(
            Seq::<Json>::empty().push(text_part("(see attached image)"@)) + blocks_json(content),
        )
    }
}

fn convert_block(block: &Content) -> (r: Value)
    ensures
        r@ == block_json(*block),
{
    match block {
        Content::Text(text) => make_text_part(text.text.as_str()),
        Content::Image(image) => make_image_block(image.mime_type.as_str(), image.data.as_str()),
        _ => object(new_entries()),
    }
}

pub fn convert_content_blocks(content: &Vec<Content>) -> (r: ConvertedContent)
    ensures
        r@ == converted(content@),
{
    if !has_image(content) {
        return ConvertedContent::Text(join(&collect_block_texts(content), "\n"));
    }
    let mut blocks = new_items();
    let mut has_text = false;
    let mut i: usize = 0;
    while i < content.len()
        invariant
            i <= content@.len(),
            items(blocks@).len() == i,
            forall|j: int| 0 <= j < i ==> (#[trigger] items(blocks@)[j]) == block_json(content@[j]),
            has_text == exists|j: int| 0 <= j < i && (#[trigger] content@[j]) is Text,
        decreases content.len() - i,
    {
        let ghost known = has_text;
        if let Content::Text(_) = &content[i] {
            has_text = true;
            proof {
                assert(content@[i as int] is Text);
            }
        }
        push_item(&mut blocks, convert_block(&content[i]));
        proof {
            if known {
                let j = choose|j: int| 0 <= j < i && (#[trigger] content@[j]) is Text;
                assert(content@[j] is Text);
            }
        }
        i += 1;
    }
    proof {
        assert(items(blocks@) =~= blocks_json(content@));
    }
    if has_text {
        return ConvertedContent::Blocks(blocks);
    }
    let mut all = new_items();
    push_item(&mut all, make_text_part("(see attached image)"));
    append_items(&mut all, blocks);
    ConvertedContent::Blocks(all)
}

// ---------------------------------------------------------------------------
// Tool results
// ---------------------------------------------------------------------------

/// What does not change while messages are converted.
pub struct Setting {
    pub oauth: bool,
    pub allow_empty_signature: bool,
    pub deferred: Seq<Seq<char>>,
}

pub open spec fn reference_json(name: Seq<char>, oauth: bool) -> Json {
    Json::Object(
        no_entries().put("type"@, Json::Str("tool_reference"@)).put(
            "tool_name"@,
            Json::Str(sent_name(name, oauth)),
        ),
    )
}

/// The references that a list of names gives, each once, and the names that are
/// loaded then.
pub open spec fn references(names: Seq<Seq<char>>, s: Setting, loaded: Seq<Seq<char>>) -> (
    Seq<Json>,
    Seq<Seq<char>>,
)
    decreases names.len(),
{
    if names.len() == 0 {
        (Seq::empty(), loaded)
    } else {
        let (list, known) = references(names.drop_last(), s, loaded);
        let name = sent_name(names.last(), s.oauth);
        if !s.deferred.contains(name) || known.contains(name) {
            (list, known)
        } else {
            (list.push(reference_json(names.last(), s.oauth)), known.push(name))
        }
    }
}

pub open spec fn content_value(content: Converted) -> Json {
    match content {
        Converted::Text(text) => Json::Str(text),
        Converted::Blocks(blocks) => Json::Array(blocks),
    }
}

pub open spec fn content_blocks(content: Converted) -> Seq<Json> {
    match content {
        Converted::Text(text) => Seq::<Json>::empty().push(text_part(text)),
        Converted::Blocks(blocks) => blocks,
    }
}

/// A tool result as it is sent. References take the place of its content, which
/// then follows all results.
pub open spec fn result_json(result: ToolResultMessage, list: Seq<Json>) -> Json {
    Json::Object(
        no_entries().put("type"@, Json::Str("tool_result"@)).put(
            "tool_use_id"@,
            Json::Str(result.tool_call_id@),
        ).put(
            "content"@,
            if list.len() > 0 {
                Json::Array(list)
            } else {
                content_value(converted(result.content@))
            },
        ).put("is_error"@, Json::Bool(result.is_error)),
    )
}

pub open spec fn sibling_blocks(result: ToolResultMessage, list: Seq<Json>) -> Seq<Json> {
    if list.len() > 0 {
        content_blocks(converted(result.content@))
    } else {
        Seq::empty()
    }
}

fn find_references(
    added: &Option<Vec<String>>,
    is_oauth_token: bool,
    deferred: &Vec<String>,
    loaded: &mut Vec<String>,
    Ghost(s): Ghost<Setting>,
) -> (r: Vec<Value>)
    requires
        s.oauth == is_oauth_token,
        s.deferred == texts(deferred@),
    ensures
        (items(r@), texts(final(loaded)@)) == references(
            match *added {
                Some(names) => texts(names@),
                None => Seq::empty(),
            },
            s,
            texts(old(loaded)@),
        ),
{
    let mut r = new_items();
    if let Some(names) = added {
        let mut i: usize = 0;
        while i < names.len()
            invariant
                i <= names@.len(),
                s.oauth == is_oauth_token,
                s.deferred == texts(deferred@),
                (items(r@), texts(loaded@)) == references(
                    texts(names@).take(i as int),
                    s,
                    texts(old(loaded)@),
                ),
            decreases names.len() - i,
        {
            proof {
                assert(texts(names@).take(i + 1).drop_last() =~= texts(names@).take(i as int));
                assert(texts(names@).take(i + 1).last() == names@[i as int]@);
            }
            let name = make_sent_name(names[i].as_str(), is_oauth_token);
            if contains_string(deferred, name.as_str()) && !contains_string(
                loaded,
                name.as_str(),
            ) {
                let mut e = new_entries();
                put_str(&mut e, "type", "tool_reference");
                put_str(&mut e, "tool_name", name.as_str());
                push_item(&mut r, object(e));
                push_text(loaded, name);
            }
            i += 1;
        }
        proof {
            assert(texts(names@).take(names@.len() as int) =~= texts(names@));
        }
    }
    r
}

fn convert_tool_result(
    msg: &ToolResultMessage,
    is_oauth_token: bool,
    deferred: &Vec<String>,
    loaded: &mut Vec<String>,
    Ghost(s): Ghost<Setting>,
) -> (r: (Value, Vec<Value>))
    requires
        s.oauth == is_oauth_token,
        s.deferred == texts(deferred@),
    ensures
        ({
            let (list, known) = references(added_names(*msg), s, texts(old(loaded)@));
            &&& r.0@ == result_json(*msg, list)
            &&& items(r.1@) == sibling_blocks(*msg, list)
            &&& texts(final(loaded)@) == known
        }),
{
    let list = find_references(&msg.added_tool_names, is_oauth_token, deferred, loaded, Ghost(s));
    proof {
        assert(items(list@).len() == list@.len());
    }
    let has_references = list.len() > 0;
    let content = convert_content_blocks(&msg.content);
    let mut e = new_entries();
    put_str(&mut e, "type", "tool_result");
    put_str(&mut e, "tool_use_id", msg.tool_call_id.as_str());
    let mut siblings = new_items();
    if has_references {
        put_array(&mut e, "content", list);
        siblings = match content {
            ConvertedContent::Text(text) => {
                let mut only = new_items();
                push_item(&mut only, make_text_part(text.as_str()));
                only
            },
            ConvertedContent::Blocks(blocks) => blocks,
        };
    } else {
        put(
            &mut e,
            "content",
            match content {
                ConvertedContent::Text(text) => string(text.as_str()),
                ConvertedContent::Blocks(blocks) => array(blocks),
            },
        );
    }
    put_bool(&mut e, "is_error", msg.is_error);
    (object(e), siblings)
}

// ---------------------------------------------------------------------------
// Messages of users and assistants
// ---------------------------------------------------------------------------

pub open spec fn role_message(role: Seq<char>, content: Json) -> Json {
    Json::Object(no_entries().put("role"@, Json::Str(role)).put("content"@, content))
}

/// The blocks of what a user says, without texts that are blank.
pub open spec fn user_blocks(content: Seq<Content>) -> Seq<Json>
    decreases content.len(),
{
    if content.len() == 0 {
        Seq::empty()
    } else {
        let before = user_blocks(content.drop_last());
        match content.last() {
            Content::Text(text) => if is_blank(text.text@) {
                before
            } else {
                before.push(text_part(text.text@))
            },
            Content::Image(image) => before.push(image_block(image.mime_type@, image.data@)),
            _ => before,
        }
    }
}

pub open spec fn user_message(user: UserMessage) -> Option<Json> {
    match user.content {
        UserMessageContent::Text(text) => if is_blank(text@) {
            None
        } else {
            Some(role_message("user"@, Json::Str(text@)))
        },
        UserMessageContent::Blocks(blocks) => if user_blocks(blocks@).len() == 0 {
            None
        } else {
            Some(role_message("user"@, Json::Array(user_blocks(blocks@))))
        },
    }
}

pub open spec fn thinking_json(thinking: Seq<char>, signature: Seq<char>) -> Json {
    Json::Object(
        no_entries().put("type"@, Json::Str("thinking"@)).put("thinking"@, Json::Str(thinking)).put(
            "signature"@,
            Json::Str(signature),
        ),
    )
}

pub open spec fn redacted_json(data: Seq<char>) -> Json {
    Json::Object(
        no_entries().put("type"@, Json::Str("redacted_thinking"@)).put("data"@, Json::Str(data)),
    )
}

pub open spec fn signature_or_empty(thinking: ThinkingContent) -> Seq<char> {
    match opt_text(thinking.thinking_signature) {
        Some(signature) => signature,
        None => Seq::empty(),
    }
}

/// A thought as it is sent. One without a signature becomes a text, unless the
/// model takes signatures that are empty; one that is blank as well is left out.
pub open spec fn thought_json(thinking: ThinkingContent, allow_empty_signature: bool) -> Option<
    Json,
> {
    let signature = signature_or_empty(thinking);
    if thinking.redacted == Some(true) {
        Some(redacted_json(signature))
    } else if !is_blank(signature) {
        Some(thinking_json(thinking.thinking@, signature))
    } else if is_blank(thinking.thinking@) {
        None
    } else if allow_empty_signature {
        Some(thinking_json(thinking.thinking@, Seq::empty()))
    } else {
        Some(text_part(thinking.thinking@))
    }
}

pub open spec fn call_json(call: ToolCall, oauth: bool) -> Json {
    Json::Object(
        no_entries().put("type"@, Json::Str("tool_use"@)).put("id"@, Json::Str(call.id@)).put(
            "name"@,
            Json::Str(sent_name(call.name@, oauth)),
        ).put("input"@, call.arguments@),
    )
}

pub open spec fn assistant_blocks(content: Seq<Content>, s: Setting) -> Seq<Json>
    decreases content.len(),
{
    if content.len() == 0 {
        Seq::empty()
    } else {
        let before = assistant_blocks(content.drop_last(), s);
        match content.last() {
            Content::Text(text) => if is_blank(text.text@) {
                before
            } else {
                before.push(text_part(text.text@))
            },
            Content::Thinking(thinking) => match thought_json(thinking, s.allow_empty_signature) {
                Some(block) => before.push(block),
                None => before,
            },
            Content::ToolCall(call) => before.push(call_json(call, s.oauth)),
            Content::Image(_) => before,
        }
    }
}

pub open spec fn assistant_message(a: AssistantMessage, s: Setting) -> Option<Json> {
    if assistant_blocks(a.content@, s).len() == 0 {
        None
    } else {
        Some(role_message("assistant"@, Json::Array(assistant_blocks(a.content@, s))))
    }
}

fn make_role_message(role: &str, content: Value) -> (r: Value)
    ensures
        r@ == role_message(role@, content@),
{
    let mut e = new_entries();
    put_str(&mut e, "role", role);
    put(&mut e, "content", content);
    object(e)
}

fn convert_user_blocks(content: &Vec<Content>) -> (r: Vec<Value>)
    ensures
        items(r@) == user_blocks(content@),
{
    let mut r = new_items();
    let mut i: usize = 0;
    while i < content.len()
        invariant
            i <= content@.len(),
            items(r@) == user_blocks(content@.take(i as int)),
        decreases content.len() - i,
    {
        proof {
            assert(content@.take(i + 1).drop_last() =~= content@.take(i as int));
        }
        match &content[i] {
            Content::Text(text) => if !blank(text.text.as_str()) {
                push_item(&mut r, make_text_part(text.text.as_str()));
            },
            Content::Image(image) => push_item(
                &mut r,
                make_image_block(image.mime_type.as_str(), image.data.as_str()),
            ),
            _ => {},
        }
        i += 1;
    }
    proof {
        assert(content@.take(content@.len() as int) =~= content@);
    }
    r
}

fn convert_user(user: &UserMessage) -> (r: Option<Value>)
    ensures
        opt_json(r) == user_message(*user),
{
    match &user.content {
        UserMessageContent::Text(text) => if blank(text.as_str()) {
            None
        } else {
            Some(make_role_message("user", string(text.as_str())))
        },
        UserMessageContent::Blocks(blocks) => {
            let list = convert_user_blocks(blocks);
            proof {
                assert(items(list@).len() == list@.len());
            }
            if list.len() == 0 {
                None
            } else {
                Some(make_role_message("user", array(list)))
            }
        },
    }
}

fn make_thinking(thinking: &str, signature: &str) -> (r: Value)
    ensures
        r@ == thinking_json(thinking@, signature@),
{
    let mut e = new_entries();
    put_str(&mut e, "type", "thinking");
    put_str(&mut e, "thinking", thinking);
    put_str(&mut e, "signature", signature);
    object(e)
}

fn convert_thought(thinking: &ThinkingContent, allow_empty_signature: bool) -> (r: Option<Value>)
    ensures
        opt_json(r) == thought_json(*thinking, allow_empty_signature),
{
    let signature = match &thinking.thinking_signature {
        Some(signature) => signature.clone(),
        None => String::new(),
    };
    let redacted = match thinking.redacted {
        Some(redacted) => redacted,
        None => false,
    };
    if redacted {
        let mut e = new_entries();
        put_str(&mut e, "type", "redacted_thinking");
        put_str(&mut e, "data", signature.as_str());
        return Some(object(e));
    }
    if !blank(signature.as_str()) {
        return Some(make_thinking(thinking.thinking.as_str(), signature.as_str()));
    }
    if blank(thinking.thinking.as_str()) {
        return None;
    }
    if allow_empty_signature {
        let empty = String::new();
        Some(make_thinking(thinking.thinking.as_str(), empty.as_str()))
    } else {
        Some(make_text_part(thinking.thinking.as_str()))
    }
}

fn convert_call(call: &ToolCall, is_oauth_token: bool) -> (r: Value)
    ensures
        r@ == call_json(*call, is_oauth_token),
{
    let mut e = new_entries();
    put_str(&mut e, "type", "tool_use");
    put_str(&mut e, "id", call.id.as_str());
    put_str(&mut e, "name", make_sent_name(call.name.as_str(), is_oauth_token).as_str());
    put(&mut e, "input", call.arguments.clone());
    object(e)
}

fn convert_assistant(
    a: &AssistantMessage,
    is_oauth_token: bool,
    allow_empty_signature: bool,
    Ghost(s): Ghost<Setting>,
) -> (r: Option<Value>)
    requires
        s.oauth == is_oauth_token,
        s.allow_empty_signature == allow_empty_signature,
    ensures
        opt_json(r) == assistant_message(*a, s),
{
    let mut list = new_items();
    let mut i: usize = 0;
    while i < a.content.len()
        invariant
            i <= a.content@.len(),
            s.oauth == is_oauth_token,
            s.allow_empty_signature == allow_empty_signature,
            items(list@) == assistant_blocks(a.content@.take(i as int), s),
        decreases a.content.len() - i,
    {
        proof {
            assert(a.content@.take(i + 1).drop_last() =~= a.content@.take(i as int));
        }
        match &a.content[i] {
            Content::Text(text) => if !blank(text.text.as_str()) {
                push_item(&mut list, make_text_part(text.text.as_str()));
            },
            Content::Thinking(thinking) => if let Some(block) = convert_thought(
                thinking,
                allow_empty_signature,
            ) {
                push_item(&mut list, block);
            },
            Content::ToolCall(call) => push_item(&mut list, convert_call(call, is_oauth_token)),
            Content::Image(_) => {},
        }
        i += 1;
    }
    proof {
        assert(a.content@.take(a.content@.len() as int) =~= a.content@);
        assert(items(list@).len() == list@.len());
    }
    if list.len() == 0 {
        None
    } else {
        Some(make_role_message("assistant", array(list)))
    }
}

// ---------------------------------------------------------------------------
// Messages
// ---------------------------------------------------------------------------

/// How far a conversion has come: the messages, the tool results that stand in a
/// row with what is displaced by references, and the names of the tools that are
/// loaded.
pub struct Run {
    pub messages: Seq<Json>,
    pub results: Seq<Json>,
    pub siblings: Seq<Json>,
    pub loaded: Seq<Seq<char>>,
}

/// Ends a row of tool results: all of them make one message.
pub open spec fn run_ended(r: Run) -> Run {
    if r.results.len() == 0 {
        r
    } else {
        Run {
            messages: r.messages.push(role_message("user"@, Json::Array(r.results + r.siblings))),
            results: Seq::empty(),
            siblings: Seq::empty(),
            ..r
        }
    }
}

pub open spec fn message_put(r: Run, message: Option<Json>) -> Run {
    let ended = run_ended(r);
    match message {
        Some(message) => Run { messages: ended.messages.push(message), ..ended },
        None => ended,
    }
}

pub open spec fn message_taken(r: Run, message: Message, s: Setting) -> Run {
    match message {
        Message::User(user) => message_put(r, user_message(user)),
        Message::Assistant(a) => message_put(r, assistant_message(a, s)),
        Message::ToolResult(result) => {
            let (list, loaded) = references(added_names(result), s, r.loaded);
            Run {
                results: r.results.push(result_json(result, list)),
                siblings: r.siblings + sibling_blocks(result, list),
                loaded,
                ..r
            }
        },
    }
}

pub open spec fn messages_taken(messages: Seq<Message>, s: Setting) -> Run
    decreases messages.len(),
{
    if messages.len() == 0 {
        Run {
            messages: Seq::empty(),
            results: Seq::empty(),
            siblings: Seq::empty(),
            loaded: Seq::empty(),
        }
    } else {
        message_taken(messages_taken(messages.drop_last(), s), messages.last(), s)
    }
}

pub open spec fn takes_marker(block: Entries) -> bool {
    str_at(block, "type"@) == Some("text"@) || str_at(block, "type"@) == Some("image"@) || str_at(
        block,
        "type"@,
    ) == Some("tool_result"@)
}

/// A message of the user with a marker on its last block. A text becomes a block
/// with the marker.
pub open spec fn marked_message(message: Json, marker: Json) -> Json {
    match message {
        Json::Object(e) => if str_at(e, "role"@) != Some("user"@) {
            message
        } else {
            match get(e, "content"@) {
                Some(Json::Array(list)) => if list.len() == 0 {
                    message
                } else {
                    match list.last() {
                        Json::Object(block) => if takes_marker(block) {
                            Json::Object(
                                with_entry(
                                    e,
                                    "content"@,
                                    Json::Array(
                                        list.drop_last().push(
                                            Json::Object(block.put("cache_control"@, marker)),
                                        ),
                                    ),
                                ),
                            )
                        } else {
                            message
                        },
                        _ => message,
                    }
                },
                Some(Json::Str(text)) => Json::Object(
                    with_entry(
                        e,
                        "content"@,
                        one_item(
                            Json::Object(
                                no_entries().put("type"@, Json::Str("text"@)).put(
                                    "text"@,
                                    Json::Str(text),
                                ).put("cache_control"@, marker),
                            ),
                        ),
                    ),
                ),
                _ => message,
            }
        },
        _ => message,
    }
}

/// The messages with a marker on the last one.
pub open spec fn last_marked(messages: Seq<Json>, marker: Option<Json>) -> Seq<Json> {
    match marker {
        Some(marker) => if messages.len() == 0 {
            messages
        } else {
            messages.drop_last().push(marked_message(messages.last(), marker))
        },
        None => messages,
    }
}

/// The messages of a request.
pub open spec fn messages_json(messages: Seq<Message>, s: Setting, marker: Option<Json>) -> Seq<
    Json,
> {
    last_marked(run_ended(messages_taken(messages, s)).messages, marker)
}

fn mark_message(message: &Value, control: &CacheControl) -> (r: Value)
    ensures
        r@ == marked_message(message@, control_json(opt_text(control.ttl))),
{
    let e = match message.as_object() {
        Some(e) => e,
        None => {
            return message.clone();
        },
    };
    if !opt_is(borrow_opt(&get_str(e, "role")), "user") {
        return message.clone();
    }
    let content = match get_value(e, "content") {
        Some(content) => content,
        None => {
            return message.clone();
        },
    };
    if let Some(list) = content.as_array() {
        proof {
            assert(items(list@).len() == list@.len());
        }
        let n: usize = list.len();
        if n == 0 {
            return message.clone();
        }
        let block = match list[n - 1].as_object() {
            Some(block) => block,
            None => {
                return message.clone();
            },
        };
        let kind = get_str(block, "type");
        let kind = borrow_opt(&kind);
        if !(opt_is(kind, "text") || opt_is(kind, "image") || opt_is(kind, "tool_result")) {
            return message.clone();
        }
        let mut marked = clone_entries(block);
        put(&mut marked, "cache_control", control.to_value());
        let value = object(marked);
        let mut all = clone_items(list);
        all.set(n - 1, value);
        proof {
            assert(items(all@) =~= items(list@).drop_last().push(value@));
        }
        let mut whole = clone_entries(e);
        set_entry(&mut whole, "content", array(all));
        return object(whole);
    }
    if let Some(text) = content.as_str() {
        let mut block = new_entries();
        put_str(&mut block, "type", "text");
        put_str(&mut block, "text", text);
        put(&mut block, "cache_control", control.to_value());
        let mut whole = clone_entries(e);
        set_entry(&mut whole, "content", array1(object(block)));
        return object(whole);
    }
    message.clone()
}

fn mark_last(messages: &mut Vec<Value>, control: Option<&CacheControl>)
    ensures
        items(final(messages)@) == last_marked(items(old(messages)@), marker_of(control)),
{
    if let Some(control) = control {
        let n: usize = messages.len();
        if n > 0 {
            let marked = mark_message(&messages[n - 1], control);
            messages.set(n - 1, marked);
            proof {
                assert(items(messages@) =~= items(old(messages)@).drop_last().push(marked@));
            }
        }
    }
}

fn end_run(messages: &mut Vec<Value>, results: &mut Vec<Value>, siblings: &mut Vec<Value>)
    ensures
        ({
            let ended = run_ended(
                Run {
                    messages: items(old(messages)@),
                    results: items(old(results)@),
                    siblings: items(old(siblings)@),
                    loaded: Seq::empty(),
                },
            );
            &&& items(final(messages)@) == ended.messages
            &&& items(final(results)@) == ended.results
            &&& items(final(siblings)@) == ended.siblings
        }),
{
    proof {
        assert(items(results@).len() == results@.len());
    }
    if results.len() > 0 {
        let mut content = clone_items(results);
        append_items(&mut content, clone_items(siblings));
        push_item(messages, make_role_message("user", array(content)));
        *results = new_items();
        *siblings = new_items();
    }
}

/// Converts messages that were prepared for the model. Tool results that stand
/// in a row make one message. `deferred_tool_names` are the names, as they are
/// sent, of the tools that are loaded later.
pub fn convert_messages(
    messages: &Vec<Message>,
    is_oauth_token: bool,
    cache_control: Option<&CacheControl>,
    allow_empty_signature: bool,
    deferred_tool_names: &Vec<String>,
) -> (r: Vec<Value>)
    ensures
        items(r@) == messages_json(
            messages@,
            Setting {
                oauth: is_oauth_token,
                allow_empty_signature,
                deferred: texts(deferred_tool_names@),
            },
            marker_of(cache_control),
        ),
{
    let ghost s = Setting {
        oauth: is_oauth_token,
        allow_empty_signature,
        deferred: texts(deferred_tool_names@),
    };
    let mut list = new_items();
    let mut results = new_items();
    let mut siblings = new_items();
    let mut loaded: Vec<String> = Vec::new();
    proof {
        crate::text::lemma_texts_empty();
        assert(texts(loaded@) =~= Seq::<Seq<char>>::empty());
    }
    let mut i: usize = 0;
    while i < messages.len()
        invariant
            i <= messages@.len(),
            s == (Setting {
                oauth: is_oauth_token,
                allow_empty_signature,
                deferred: texts(deferred_tool_names@),
            }),
            (Run {
                messages: items(list@),
                results: items(results@),
                siblings: items(siblings@),
                loaded: texts(loaded@),
            }) == messages_taken(messages@.take(i as int), s),
        decreases messages.len() - i,
    {
        proof {
            assert(messages@.take(i + 1).drop_last() =~= messages@.take(i as int));
            assert(messages@.take(i + 1).last() == messages@[i as int]);
        }
        match &messages[i] {
            Message::User(user) => {
                end_run(&mut list, &mut results, &mut siblings);
                if let Some(message) = convert_user(user) {
                    push_item(&mut list, message);
                }
            },
            Message::Assistant(a) => {
                end_run(&mut list, &mut results, &mut siblings);
                if let Some(message) = convert_assistant(
                    a,
                    is_oauth_token,
                    allow_empty_signature,
                    Ghost(s),
                ) {
                    push_item(&mut list, message);
                }
            },
            Message::ToolResult(result) => {
                let (block, more) = convert_tool_result(
                    result,
                    is_oauth_token,
                    deferred_tool_names,
                    &mut loaded,
                    Ghost(s),
                );
                push_item(&mut results, block);
                append_items(&mut siblings, more);
            },
        }
        i += 1;
    }
    proof {
        assert(messages@.take(messages@.len() as int) =~= messages@);
    }
    end_run(&mut list, &mut results, &mut siblings);
    mark_last(&mut list, cache_control);
    list
}

// ---------------------------------------------------------------------------
// Tools
// ---------------------------------------------------------------------------

pub open spec fn property_entries(s: Seq<(String, PropertySchema)>) -> Entries {
    Seq::new(s.len(), |i: int| (s[i].0@, s[i].1.value@))
}

/// The schema of an input in its plain form.
pub open spec fn plain_schema(schema: JsonSchemaObject) -> Entries {
    no_entries().put("type"@, Json::Str("object"@)).put(
        "properties"@,
        Json::Object(
            match schema.properties {
                Some(properties) => property_entries(properties@),
                None => no_entries(),
            },
        ),
    ).put(
        "required"@,
        Json::Array(
            match schema.required {
                Some(required) => str_items(texts(required@)),
                None => Seq::empty(),
            },
        ),
    )
}

/// The schema of an input: the plain form, over the whole schema where it is
/// strict.
pub open spec fn input_schema(strict: bool, schema: JsonSchemaObject) -> Json {
    if strict {
        Json::Object(
            with_entries(
                match schema.value@ {
                    Json::Object(e) => e,
                    _ => no_entries(),
                },
                plain_schema(schema),
            ),
        )
    } else {
        Json::Object(plain_schema(schema))
    }
}

pub open spec fn tool_json(
    tool: Tool,
    oauth: bool,
    eager: bool,
    supports_strict: bool,
    marker: Option<Json>,
    defer_loading: bool,
) -> Json {
    let strict = strict_or_none(tool, supports_strict) == Some(true);
    Json::Object(
        no_entries().put("name"@, Json::Str(sent_name(tool.name@, oauth))).put(
            "description"@,
            Json::Str(tool.description@),
        ).put("input_schema"@, input_schema(strict, tool.parameters)).put_if(
            eager,
            "eager_input_streaming"@,
            Json::Bool(true),
        ).put_if(strict, "strict"@, Json::Bool(true)).put_if(
            defer_loading,
            "defer_loading"@,
            Json::Bool(true),
        ).put_opt("cache_control"@, marker),
    )
}

/// The tools of a request; the last one carries the marker.
pub open spec fn tools_json(
    tools: Seq<Tool>,
    oauth: bool,
    eager: bool,
    supports_strict: bool,
    marker: Option<Json>,
    defer_loading: bool,
) -> Seq<Json> {
    Seq::new(
        tools.len(),
        |i: int|
            tool_json(
                tools[i],
                oauth,
                eager,
                supports_strict,
                if i == tools.len() - 1 {
                    marker
                } else {
                    None
                },
                defer_loading,
            ),
    )
}

fn make_plain_schema(schema: &JsonSchemaObject) -> (r: Vec<(String, Value)>)
    ensures
        entries(r@) == plain_schema(*schema),
{
    let mut properties = new_entries();
    if let Some(list) = &schema.properties {
        let mut i: usize = 0;
        while i < list.len()
            invariant
                i <= list@.len(),
                entries(properties@) == property_entries(list@).take(i as int),
            decreases list.len() - i,
        {
            put(&mut properties, list[i].0.as_str(), list[i].1.value.clone());
            proof {
                assert(property_entries(list@).take(i + 1) =~= property_entries(list@).take(
                    i as int,
                ).push((list@[i as int].0@, list@[i as int].1.value@)));
            }
            i += 1;
        }
        proof {
            assert(property_entries(list@).take(list@.len() as int) =~= property_entries(list@));
        }
    }
    let required = match &schema.required {
        Some(names) => string_array(names),
        None => array(new_items()),
    };
    let mut e = new_entries();
    put_str(&mut e, "type", "object");
    put_object(&mut e, "properties", properties);
    put(&mut e, "required", required);
    e
}

fn input_schema_for_tool(strict: bool, schema: &JsonSchemaObject) -> (r: Value)
    ensures
        r@ == input_schema(strict, *schema),
{
    let plain = make_plain_schema(schema);
    if !strict {
        return object(plain);
    }
    let mut e = match schema.value.as_object() {
        Some(e) => clone_entries(e),
        None => new_entries(),
    };
    set_entries(&mut e, &plain);
    object(e)
}

pub fn convert_tool(
    tool: &Tool,
    is_oauth_token: bool,
    eager: bool,
    supports_strict_tools: bool,
    control: Option<&CacheControl>,
    defer_loading: bool,
) -> (r: Value)
    ensures
        r@ == tool_json(
            *tool,
            is_oauth_token,
            eager,
            supports_strict_tools,
            marker_of(control),
            defer_loading,
        ),
{
    let strict = match strict_sampling_or_none(tool, supports_strict_tools) {
        Some(strict) => strict,
        None => false,
    };
    let mut e = new_entries();
    put_str(&mut e, "name", make_sent_name(tool.name.as_str(), is_oauth_token).as_str());
    put_str(&mut e, "description", tool.description.as_str());
    put(&mut e, "input_schema", input_schema_for_tool(strict, &tool.parameters));
    if eager {
        put_bool(&mut e, "eager_input_streaming", true);
    }
    if strict {
        put_bool(&mut e, "strict", true);
    }
    if defer_loading {
        put_bool(&mut e, "defer_loading", true);
    }
    if let Some(control) = control {
        put(&mut e, "cache_control", control.to_value());
    }
    object(e)
}

pub fn convert_tools(
    tools: &Vec<Tool>,
    is_oauth_token: bool,
    supports_eager_tool_input_streaming: bool,
    supports_strict_tools: bool,
    cache_control: Option<&CacheControl>,
    defer_loading: bool,
) -> (r: Vec<Value>)
    ensures
        items(r@) == tools_json(
            tools@,
            is_oauth_token,
            supports_eager_tool_input_streaming,
            supports_strict_tools,
            marker_of(cache_control),
            defer_loading,
        ),
{
    let ghost all = tools_json(
        tools@,
        is_oauth_token,
        supports_eager_tool_input_streaming,
        supports_strict_tools,
        marker_of(cache_control),
        defer_loading,
    );
    let mut r = new_items();
    let mut i: usize = 0;
    while i < tools.len()
        invariant
            i <= tools@.len(),
            all == tools_json(
                tools@,
                is_oauth_token,
                supports_eager_tool_input_streaming,
                supports_strict_tools,
                marker_of(cache_control),
                defer_loading,
            ),
            items(r@) == all.take(i as int),
        decreases tools.len() - i,
    {
        let control = if i == tools.len() - 1 {
            cache_control
        } else {
            None
        };
        let tool = convert_tool(
            &tools[i],
            is_oauth_token,
            supports_eager_tool_input_streaming,
            supports_strict_tools,
            control,
            defer_loading,
        );
        proof {
            assert(all[i as int] == tool@);
            assert(all.take(i + 1) =~= all.take(i as int).push(all[i as int]));
        }
        push_item(&mut r, tool);
        i += 1;
    }
    proof {
        assert(all.take(tools@.len() as int) =~= all);
    }
    r
}

} // verus!
