//! What a chat completion is told of a conversation.
use vstd::prelude::*;
use crate::api::constrained_sampling::{grammar_or_none, strict_or_none};
use crate::api::github_copilot_headers::holds_image;
use crate::api::headers::Pairs;
use crate::api::openai_completions::compat::Compat;
use crate::api::openai_completions::messages::{
    assistant_entries, assistant_message, block_texts, calls_json, converted, converted_from,
    image_parts, run_images, run_messages, run_results, said, spoken, thought_texts, thoughts,
    tool_message, tools_json, user_message, user_parts, Setting,
};
use crate::json::{get, json_text, lemma_with_entry, with_entry, Json};
use crate::laws::wire::{group_wire, lemma_with_entry_contains, says};
use crate::text::{is_blank, joined, opt_text};
use crate::types::{
    Content, ImageContent, Message, Model, TextContent, ThinkingContent, Tool, ToolCall,
    ToolResultMessage, UserMessage, UserMessageContent,
};

verus! {

broadcast use group_wire;

/// Content in two pieces: what each piece says, shows, thinks and calls follows
/// what the piece before it does.
pub proof fn law_content_stays_in_order(a: Seq<Content>, b: Seq<Content>, properties: Pairs)
    ensures
        user_parts(a + b) == user_parts(a) + user_parts(b),
        image_parts(a + b) == image_parts(a) + image_parts(b),
        calls_json(a + b, properties) == calls_json(a, properties) + calls_json(b, properties),
        spoken(a + b) == spoken(a) + spoken(b),
        thoughts(a + b) == thoughts(a) + thoughts(b),
        block_texts(a + b) == block_texts(a) + block_texts(b),
    decreases b.len(),
{
    if b.len() == 0 {
        assert(a + b =~= a);
        assert(user_parts(a) + user_parts(b) =~= user_parts(a));
        assert(image_parts(a) + image_parts(b) =~= image_parts(a));
        assert(calls_json(a, properties) + calls_json(b, properties) =~= calls_json(a, properties));
        assert(spoken(a) + spoken(b) =~= spoken(a));
        assert(thoughts(a) + thoughts(b) =~= thoughts(a));
        assert(block_texts(a) + block_texts(b) =~= block_texts(a));
    } else {
        law_content_stays_in_order(a, b.drop_last(), properties);
        assert((a + b).drop_last() =~= a + b.drop_last());
        assert(user_parts(a + b) =~= user_parts(a) + user_parts(b));
        assert(image_parts(a + b) =~= image_parts(a) + image_parts(b));
        assert(calls_json(a + b, properties) =~= calls_json(a, properties) + calls_json(
            b,
            properties,
        ));
        assert(spoken(a + b) =~= spoken(a) + spoken(b));
        assert(thoughts(a + b) =~= thoughts(a) + thoughts(b));
        assert(block_texts(a + b) =~= block_texts(a) + block_texts(b));
    }
}

/// A text is one part of a message of a user and, where it is not blank, one piece
/// of what an assistant says; it is no image, no thought and no call.
pub proof fn law_text_counts_as_text(text: TextContent, properties: Pairs)
    ensures
        ({
            let content = seq![Content::Text(text)];
            &&& user_parts(content).len() == 1 && says(
                user_parts(content)[0],
                "type"@,
                Json::Str("text"@),
            ) && says(user_parts(content)[0], "text"@, Json::Str(text.text@))
            &&& !is_blank(text.text@) ==> spoken(content) == seq![text.text@]
            &&& is_blank(text.text@) ==> spoken(content).len() == 0
            &&& block_texts(content) == seq![text.text@]
            &&& image_parts(content).len() == 0 && thoughts(content).len() == 0 && calls_json(
                content,
                properties,
            ).len() == 0
        }),
{
    let content = seq![Content::Text(text)];
    assert(content.drop_last() =~= Seq::<Content>::empty());
    assert(content.last() == Content::Text(text));
    reveal_with_fuel(user_parts, 2);
    reveal_with_fuel(image_parts, 2);
    reveal_with_fuel(spoken, 2);
    reveal_with_fuel(thoughts, 2);
    reveal_with_fuel(block_texts, 2);
    reveal_with_fuel(calls_json, 2);
    assert(block_texts(content) =~= seq![text.text@]);
    if !is_blank(text.text@) {
        assert(spoken(content) =~= seq![text.text@]);
    }
}

/// An image is one part of a message, carried in its own address.
pub proof fn law_image_counts_as_image(image: ImageContent, properties: Pairs)
    ensures
        ({
            let content = seq![Content::Image(image)];
            let shown = user_parts(content);
            &&& shown.len() == 1 && image_parts(content) == shown
            &&& says(shown[0], "type"@, Json::Str("image_url"@))
            &&& exists|inner: Json| #[trigger]
                says(shown[0], "image_url"@, inner) && says(
                    inner,
                    "url"@,
                    Json::Str("data:"@ + image.mime_type@ + ";base64,"@ + image.data@),
                )
            &&& spoken(content).len() == 0 && thoughts(content).len() == 0 && block_texts(
                content,
            ).len() == 0 && calls_json(content, properties).len() == 0
        }),
{
    let content = seq![Content::Image(image)];
    assert(content.drop_last() =~= Seq::<Content>::empty());
    assert(content.last() == Content::Image(image));
    reveal_with_fuel(user_parts, 2);
    reveal_with_fuel(image_parts, 2);
    reveal_with_fuel(spoken, 2);
    reveal_with_fuel(thoughts, 2);
    reveal_with_fuel(block_texts, 2);
    reveal_with_fuel(calls_json, 2);
    assert(image_parts(content) =~= user_parts(content));
    let e = user_parts(content)[0]->Object_0;
    assert(says(user_parts(content)[0], "image_url"@, e[1].1));
}

/// A thought counts as one where it is not blank, with the signature that it has.
pub proof fn law_thought_counts_as_thought(thinking: ThinkingContent, properties: Pairs)
    ensures
        ({
            let content = seq![Content::Thinking(thinking)];
            &&& !is_blank(thinking.thinking@) ==> thoughts(content) == seq![
                (thinking.thinking@, opt_text(thinking.thinking_signature)),
            ]
            &&& is_blank(thinking.thinking@) ==> thoughts(content).len() == 0
            &&& spoken(content).len() == 0 && calls_json(content, properties).len() == 0
        }),
{
    let content = seq![Content::Thinking(thinking)];
    assert(content.drop_last() =~= Seq::<Content>::empty());
    assert(content.last() == Content::Thinking(thinking));
    reveal_with_fuel(spoken, 2);
    reveal_with_fuel(thoughts, 2);
    reveal_with_fuel(calls_json, 2);
    if !is_blank(thinking.thinking@) {
        assert(thoughts(content) =~= seq![
            (thinking.thinking@, opt_text(thinking.thinking_signature)),
        ]);
    }
}

/// A tool call is sent with its id and its name: as a function with its arguments
/// as JSON text, or, where the tool takes a grammar, as a custom call with its
/// input.
pub proof fn law_call_is_sent(call: ToolCall, properties: Pairs)
    ensures
        ({
            let sent = calls_json(seq![Content::ToolCall(call)], properties);
            &&& sent.len() == 1
            &&& says(sent[0], "id"@, Json::Str(call.id@))
            &&& get(properties, call.name@) is None ==> says(
                sent[0],
                "type"@,
                Json::Str("function"@),
            ) && exists|inner: Json| #[trigger]
                says(sent[0], "function"@, inner) && says(
                    inner,
                    "name"@,
                    Json::Str(call.name@),
                ) && says(inner, "arguments"@, Json::Str(json_text(call.arguments@)))
            &&& get(properties, call.name@) matches Some(property) ==> says(
                sent[0],
                "type"@,
                Json::Str("custom"@),
            ) && exists|inner: Json| #[trigger]
                says(sent[0], "custom"@, inner) && says(inner, "name"@, Json::Str(call.name@)) && (
                call.arguments@ matches Json::Object(e) ==> (get(e, property) matches Some(
                    Json::Str(input),
                ) ==> says(inner, "input"@, Json::Str(input))))
        }),
{
    let content = seq![Content::ToolCall(call)];
    assert(content.drop_last() =~= Seq::<Content>::empty());
    assert(content.last() == Content::ToolCall(call));
    reveal_with_fuel(calls_json, 2);
    let e = calls_json(content, properties)[0]->Object_0;
    assert(says(calls_json(content, properties)[0], e[2].0, e[2].1));
}

proof fn lemma_keys()
    ensures
        "role"@ != "content"@,
        "tool_calls"@ != "reasoning_details"@,
        "tool_calls"@ != "reasoning_content"@,
        "reasoning_details"@ != "reasoning_content"@,
        "content"@ != "tool_calls"@,
        "content"@ != "reasoning_details"@,
        "content"@ != "reasoning_content"@,
        "role"@ != "tool_calls"@,
        "role"@ != "reasoning_details"@,
        "role"@ != "reasoning_content"@,
{
    reveal_strlit("role");
    reveal_strlit("content");
    reveal_strlit("tool_calls");
    reveal_strlit("reasoning_details");
    reveal_strlit("reasoning_content");
    assert("role"@.len() != "content"@.len());
    assert("tool_calls"@.len() != "reasoning_details"@.len());
    assert("reasoning_details"@[10] == 'd' && "reasoning_content"@[10] == 'c');
    assert("content"@.len() != "tool_calls"@.len());
}

/// The calls of an assistant stand in its message, in order, under `tool_calls`.
pub proof fn law_assistant_calls_are_sent(
    model: Model,
    content: Seq<Content>,
    compat: Compat,
    properties: Pairs,
    parse: spec_fn(Seq<char>) -> Option<Json>,
)
    requires
        calls_json(content, properties).len() > 0,
    ensures
        assistant_message(model, content, compat, properties, parse) matches Some(message) && says(
            message,
            "tool_calls"@,
            Json::Array(calls_json(content, properties)),
        ),
{
    lemma_keys();
    let first = said(model, content, compat);
    let calls = Json::Array(calls_json(content, properties));
    let x = ("tool_calls"@, calls);
    let one = with_entry(first, "tool_calls"@, calls);
    lemma_with_entry_contains(first, "tool_calls"@, calls, x);
    lemma_with_entry(first, "tool_calls"@, calls, "tool_calls"@);
    let details = Json::Array(
        crate::api::openai_completions::messages::reasoning_details(content, parse),
    );
    let two = with_entry(one, "reasoning_details"@, details);
    lemma_with_entry_contains(one, "reasoning_details"@, details, x);
    lemma_with_entry(one, "reasoning_details"@, details, "tool_calls"@);
    let empty = Json::Str(Seq::empty());
    lemma_with_entry_contains(one, "reasoning_content"@, empty, x);
    lemma_with_entry_contains(two, "reasoning_content"@, empty, x);
    lemma_with_entry(one, "reasoning_content"@, empty, "tool_calls"@);
    lemma_with_entry(two, "reasoning_content"@, empty, "tool_calls"@);
}

/// What an assistant that thought nothing said is sent as its role and one text.
pub proof fn law_assistant_text_is_sent(
    model: Model,
    content: Seq<Content>,
    compat: Compat,
    properties: Pairs,
    parse: spec_fn(Seq<char>) -> Option<Json>,
)
    requires
        thoughts(content).len() == 0,
        joined(spoken(content), Seq::empty()).len() > 0,
        calls_json(content, properties).len() == 0,
        !compat.requires_reasoning_content_on_assistant_messages,
    ensures
        assistant_message(model, content, compat, properties, parse) matches Some(message) && says(
            message,
            "role"@,
            Json::Str("assistant"@),
        ) && says(message, "content"@, Json::Str(joined(spoken(content), Seq::empty()))),
{
    lemma_keys();
    let text = Json::Str(joined(spoken(content), Seq::empty()));
    let e = assistant_entries(model, content, compat, properties, parse);
    let first = said(model, content, compat);
    assert(e == first);
    let base = lemma_begin(compat);
    lemma_with_entry_contains(base, "content"@, text, ("role"@, Json::Str("assistant"@)));
    lemma_with_entry(base, "content"@, text, "content"@);
}

proof fn lemma_begin(compat: Compat) -> (e: crate::json::Entries)
    ensures
        e == begin_of(compat),
        e.contains(("role"@, Json::Str("assistant"@))),
{
    begin_of(compat)
}

spec fn begin_of(compat: Compat) -> crate::json::Entries {
    use_put(
        use_put(crate::json::no_entries(), "role"@, Json::Str("assistant"@)),
        "content"@,
        if compat.requires_assistant_after_tool_result {
            Json::Str(Seq::empty())
        } else {
            Json::Null
        },
    )
}

spec fn use_put(e: crate::json::Entries, key: Seq<char>, value: Json) -> crate::json::Entries {
    crate::json::EntriesSpec::put(e, key, value)
}

/// What an assistant thought goes back in the field that it came in, one thought
/// per line, where thinking need not be sent as text.
pub proof fn law_thoughts_go_back_in_their_field(
    model: Model,
    content: Seq<Content>,
    compat: Compat,
    field: Seq<char>,
)
    requires
        thoughts(content).len() > 0,
        thoughts(content)[0].1 == Some(field),
        field.len() > 0,
        model.provider@ != "opencode-go"@,
        !compat.requires_thinking_as_text,
    ensures
        get(said(model, content, compat), field) == Some(
            Json::Str(joined(thought_texts(thoughts(content)), "\n"@)),
        ),
{
    let begin = begin_of(compat);
    let text = joined(spoken(content), Seq::empty());
    let with_text = if text.len() > 0 {
        with_entry(begin, "content"@, Json::Str(text))
    } else {
        begin
    };
    lemma_with_entry(
        with_text,
        field,
        Json::Str(joined(thought_texts(thoughts(content)), "\n"@)),
        field,
    );
}

/// A tool result goes back as a message of the tool, under the id of its call, with
/// its texts one per line, or with a note where it has none.
pub proof fn law_result_goes_back(result: ToolResultMessage, compat: Compat)
    ensures
        ({
            let sent = tool_message(result, compat);
            let texts = block_texts(result.content@);
            &&& says(sent, "role"@, Json::Str("tool"@))
            &&& says(sent, "tool_call_id"@, Json::Str(result.tool_call_id@))
            &&& (exists|i: int| 0 <= i < texts.len() && (#[trigger] texts[i]).len() > 0) ==> says(
                sent,
                "content"@,
                Json::Str(joined(texts, "\n"@)),
            )
            &&& texts.len() == 0 && holds_image(result.content@) ==> says(
                sent,
                "content"@,
                Json::Str("(see attached image)"@),
            )
            &&& texts.len() == 0 && !holds_image(result.content@) ==> says(
                sent,
                "content"@,
                Json::Str("(no tool output)"@),
            )
            &&& compat.requires_tool_result_name && result.tool_name@.len() > 0 ==> says(
                sent,
                "name"@,
                Json::Str(result.tool_name@),
            )
        }),
{
}

/// Results that follow each other are sent one by one, in order, with all their
/// images in order behind them.
pub proof fn law_results_stay_in_order(a: Seq<Message>, b: Seq<Message>, compat: Compat)
    ensures
        run_results(a + b, compat) == run_results(a, compat) + run_results(b, compat),
        run_images(a + b) == run_images(a) + run_images(b),
    decreases b.len(),
{
    if b.len() == 0 {
        assert(a + b =~= a);
        assert(run_results(a, compat) + run_results(b, compat) =~= run_results(a, compat));
        assert(run_images(a) + run_images(b) =~= run_images(a));
    } else {
        law_results_stay_in_order(a, b.drop_last(), compat);
        assert((a + b).drop_last() =~= a + b.drop_last());
        assert(run_results(a + b, compat) =~= run_results(a, compat) + run_results(b, compat));
        assert(run_images(a + b) =~= run_images(a) + run_images(b));
    }
}

/// One result is one message of the tool.
pub proof fn law_one_result_is_one_message(result: ToolResultMessage, compat: Compat)
    ensures
        run_results(seq![Message::ToolResult(result)], compat) == seq![
            tool_message(result, compat),
        ],
        run_images(seq![Message::ToolResult(result)]) == image_parts(result.content@),
{
    let run = seq![Message::ToolResult(result)];
    assert(run.drop_last() =~= Seq::<Message>::empty());
    assert(run.last() == Message::ToolResult(result));
    reveal_with_fuel(run_results, 2);
    reveal_with_fuel(run_images, 2);
    assert(run_results(run, compat) =~= seq![tool_message(result, compat)]);
    assert(run_images(run) =~= image_parts(result.content@));
}

/// What a user says is sent as a message of the user: a text as it is, blocks as
/// their parts, and nothing where there are none.
pub proof fn law_user_message_is_sent(user: UserMessage)
    ensures
        match user.content {
            UserMessageContent::Text(text) => user_message(user) matches Some(m) && says(
                m,
                "role"@,
                Json::Str("user"@),
            ) && says(m, "content"@, Json::Str(text@)),
            UserMessageContent::Blocks(blocks) => {
                &&& user_parts(blocks@).len() == 0 ==> user_message(user) is None
                &&& user_parts(blocks@).len() > 0 ==> (user_message(user) matches Some(m) && says(
                    m,
                    "role"@,
                    Json::Str("user"@),
                ) && says(m, "content"@, Json::Array(user_parts(blocks@))))
            },
        },
{
}

/// A conversation is sent from its first message to its last: a prompt comes first,
/// in the role that the model knows, and the messages follow in their order.
pub proof fn law_prompt_comes_first(prompt: Seq<char>, messages: Seq<Message>, s: Setting)
    ensures
        ({
            let sent = converted(Some(prompt), messages, s);
            &&& sent.len() > 0
            &&& sent.drop_first() == converted(None, messages, s)
            &&& says(sent[0], "content"@, Json::Str(prompt))
            &&& s.model.reasoning && s.compat.supports_developer_role ==> says(
                sent[0],
                "role"@,
                Json::Str("developer"@),
            )
            &&& !(s.model.reasoning && s.compat.supports_developer_role) ==> says(
                sent[0],
                "role"@,
                Json::Str("system"@),
            )
        }),
{
    let sent = converted(Some(prompt), messages, s);
    assert(sent.drop_first() =~= converted(None, messages, s));
}

/// Each message is sent before those that follow it. An assistant has to speak
/// between a tool result and a user where the provider asks for it.
pub proof fn law_messages_follow_each_other(
    messages: Seq<Message>,
    i: int,
    after_tool: bool,
    s: Setting,
)
    requires
        0 <= i < messages.len(),
        messages[i] !is ToolResult,
    ensures
        ({
            let sent = converted_from(messages, i, after_tool, s);
            let own = match messages[i] {
                Message::User(user) => user_message(user),
                Message::Assistant(a) => assistant_message(
                    s.model,
                    a.content@,
                    s.compat,
                    s.properties,
                    s.parse,
                ),
                _ => None,
            };
            let bridged = messages[i] is User && after_tool
                && s.compat.requires_assistant_after_tool_result;
            let at = if bridged {
                1int
            } else {
                0int
            };
            &&& bridged ==> sent.len() > 0 && says(sent[0], "role"@, Json::Str("assistant"@))
            &&& own matches Some(m) ==> sent.len() > at && sent[at] == m && sent.skip(at + 1)
                == converted_from(messages, i + 1, false, s)
            &&& own is None ==> sent.skip(at) == converted_from(messages, i + 1, after_tool, s)
        }),
{
    let sent = converted_from(messages, i, after_tool, s);
    assert(sent.skip(0) =~= sent);
    let bridged = messages[i] is User && after_tool
        && s.compat.requires_assistant_after_tool_result;
    let after = converted_from(messages, i + 1, false, s);
    let still = converted_from(messages, i + 1, after_tool, s);
    match messages[i] {
        Message::User(user) => {
            if user_message(user) is Some {
                if bridged {
                    assert(sent.skip(2) =~= after);
                } else {
                    assert(sent.skip(1) =~= after);
                }
            } else {
                if bridged {
                    assert(sent.skip(1) =~= still);
                } else {
                    assert(sent =~= still);
                }
            }
        },
        Message::Assistant(a) => {
            if assistant_message(s.model, a.content@, s.compat, s.properties, s.parse) is Some {
                assert(sent.skip(1) =~= after);
            }
        },
        _ => {},
    }
}

/// A run of tool results begins with one message for each result.
pub proof fn law_run_begins_with_its_results(run: Seq<Message>, s: Setting)
    ensures
        run_results(run, s.compat).is_prefix_of(run_messages(run, s)),
{
    let results = run_results(run, s.compat);
    let sent = run_messages(run, s);
    assert(sent.take(results.len() as int) =~= results);
    assert(results.is_prefix_of(sent));
}

/// A tool is offered under its name, with its description and its schema, or with
/// its grammar.
pub proof fn law_tool_is_offered(tools: Seq<Tool>, compat: Compat, i: int)
    requires
        0 <= i < tools.len(),
    ensures
        tools_json(tools, compat).len() == tools.len(),
        ({
            let sent = tools_json(tools, compat)[i];
            let grammar = grammar_or_none(tools[i], compat.supports_openai_grammar_tools);
            &&& grammar is None ==> says(sent, "type"@, Json::Str("function"@))
                && exists|inner: Json| #[trigger]
                says(sent, "function"@, inner) && says(
                    inner,
                    "name"@,
                    Json::Str(tools[i].name@),
                ) && says(inner, "description"@, Json::Str(tools[i].description@)) && says(
                    inner,
                    "parameters"@,
                    tools[i].parameters.value@,
                ) && (compat.supports_strict_mode ==> says(
                    inner,
                    "strict"@,
                    Json::Bool(strict_or_none(tools[i], true) == Some(true)),
                ))
            &&& grammar is Some ==> says(sent, "type"@, Json::Str("custom"@)) && exists|inner: Json|
             #[trigger]
                says(sent, "custom"@, inner) && says(
                    inner,
                    "name"@,
                    Json::Str(tools[i].name@),
                ) && says(inner, "description"@, Json::Str(tools[i].description@))
        }),
{
    let e = tools_json(tools, compat)[i]->Object_0;
    assert(says(tools_json(tools, compat)[i], e[1].0, e[1].1));
}

} // verus!
