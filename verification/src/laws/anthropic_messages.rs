//! What the Messages interface is told of a conversation.
use vstd::prelude::*;
use crate::api::anthropic_messages::compat::sent_name;
use crate::api::anthropic_messages::messages::{
    assistant_blocks, messages_taken, references, result_json, run_ended, sibling_blocks, tool_json,
    user_blocks, Setting,
};
use crate::api::github_copilot_headers::holds_image;
use crate::api::openai_completions::messages::{added_names, block_texts};
use crate::json::Json;
use crate::laws::wire::{group_wire, says};
use crate::text::{is_blank, joined, opt_text};
use crate::types::{
    Content, ImageContent, Message, TextContent, ThinkingContent, Tool, ToolCall, ToolResultMessage,
    UserMessageContent,
};

verus! {

broadcast use group_wire;

/// Nothing of what an assistant said is moved or merged: the blocks of a message
/// in two pieces are those of the first followed by those of the second.
pub proof fn law_assistant_blocks_stay_in_order(a: Seq<Content>, b: Seq<Content>, s: Setting)
    ensures
        assistant_blocks(a + b, s) == assistant_blocks(a, s) + assistant_blocks(b, s),
    decreases b.len(),
{
    if b.len() == 0 {
        assert(a + b =~= a);
        assert(assistant_blocks(a, s) + assistant_blocks(b, s) =~= assistant_blocks(a, s));
    } else {
        law_assistant_blocks_stay_in_order(a, b.drop_last(), s);
        assert((a + b).drop_last() =~= a + b.drop_last());
        assert(assistant_blocks(a + b, s) =~= assistant_blocks(a, s) + assistant_blocks(b, s));
    }
}

/// A tool call is sent as one `tool_use` block with the id of the call, its name
/// as it is sent, and its arguments.
pub proof fn law_call_is_sent(call: ToolCall, s: Setting)
    ensures
        ({
            let sent = assistant_blocks(seq![Content::ToolCall(call)], s);
            &&& sent.len() == 1
            &&& says(sent[0], "type"@, Json::Str("tool_use"@))
            &&& says(sent[0], "id"@, Json::Str(call.id@))
            &&& says(sent[0], "name"@, Json::Str(sent_name(call.name@, s.oauth)))
            &&& says(sent[0], "input"@, call.arguments@)
            &&& !s.oauth ==> says(sent[0], "name"@, Json::Str(call.name@))
        }),
{
    let content = seq![Content::ToolCall(call)];
    assert(content.drop_last() =~= Seq::<Content>::empty());
    assert(content.last() == Content::ToolCall(call));
    reveal_with_fuel(assistant_blocks, 2);
}

/// A text of an assistant is sent as it is, and one that is blank is not sent.
pub proof fn law_assistant_text_is_sent(text: TextContent, s: Setting)
    ensures
        ({
            let sent = assistant_blocks(seq![Content::Text(text)], s);
            &&& sent.len() == if is_blank(text.text@) {
                0nat
            } else {
                1nat
            }
            &&& !is_blank(text.text@) ==> says(sent[0], "type"@, Json::Str("text"@)) && says(
                sent[0],
                "text"@,
                Json::Str(text.text@),
            )
        }),
{
    let content = seq![Content::Text(text)];
    assert(content.drop_last() =~= Seq::<Content>::empty());
    assert(content.last() == Content::Text(text));
    reveal_with_fuel(assistant_blocks, 2);
}

/// A thought goes back with the signature that it came with; a redacted one goes
/// back as its data; one without a signature goes back as a text, or with an empty
/// signature where that is allowed; and one that says nothing is not sent.
pub proof fn law_thought_goes_back(thinking: ThinkingContent, s: Setting)
    ensures
        ({
            let sent = assistant_blocks(seq![Content::Thinking(thinking)], s);
            let signature = opt_text(thinking.thinking_signature);
            let signed = signature is Some && !is_blank(signature->0);
            &&& thinking.redacted == Some(true) ==> sent.len() == 1 && says(
                sent[0],
                "type"@,
                Json::Str("redacted_thinking"@),
            ) && (signature is Some ==> says(sent[0], "data"@, Json::Str(signature->0)))
            &&& thinking.redacted != Some(true) && signed ==> sent.len() == 1 && says(
                sent[0],
                "type"@,
                Json::Str("thinking"@),
            ) && says(sent[0], "thinking"@, Json::Str(thinking.thinking@)) && says(
                sent[0],
                "signature"@,
                Json::Str(signature->0),
            )
            &&& thinking.redacted != Some(true) && !signed && !is_blank(thinking.thinking@)
                && !s.allow_empty_signature ==> sent.len() == 1 && says(
                sent[0],
                "type"@,
                Json::Str("text"@),
            ) && says(sent[0], "text"@, Json::Str(thinking.thinking@))
            &&& thinking.redacted != Some(true) && !signed && !is_blank(thinking.thinking@)
                && s.allow_empty_signature ==> sent.len() == 1 && says(
                sent[0],
                "type"@,
                Json::Str("thinking"@),
            ) && says(sent[0], "thinking"@, Json::Str(thinking.thinking@)) && says(
                sent[0],
                "signature"@,
                Json::Str(Seq::empty()),
            )
            &&& thinking.redacted != Some(true) && !signed && is_blank(thinking.thinking@)
                ==> sent.len() == 0
        }),
{
    let content = seq![Content::Thinking(thinking)];
    assert(content.drop_last() =~= Seq::<Content>::empty());
    assert(content.last() == Content::Thinking(thinking));
    reveal_with_fuel(assistant_blocks, 2);
    assert(is_blank(Seq::<char>::empty()));
}

/// What a user says in two pieces is sent as the first followed by the second.
pub proof fn law_user_blocks_stay_in_order(a: Seq<Content>, b: Seq<Content>)
    ensures
        user_blocks(a + b) == user_blocks(a) + user_blocks(b),
    decreases b.len(),
{
    if b.len() == 0 {
        assert(a + b =~= a);
        assert(user_blocks(a) + user_blocks(b) =~= user_blocks(a));
    } else {
        law_user_blocks_stay_in_order(a, b.drop_last());
        assert((a + b).drop_last() =~= a + b.drop_last());
        assert(user_blocks(a + b) =~= user_blocks(a) + user_blocks(b));
    }
}

/// Each text of a user that is not blank is sent as it is, and each image with its
/// media type and its data.
pub proof fn law_user_content_is_sent(text: TextContent, image: ImageContent)
    ensures
        ({
            let said = user_blocks(seq![Content::Text(text)]);
            let shown = user_blocks(seq![Content::Image(image)]);
            &&& is_blank(text.text@) ==> said.len() == 0
            &&& !is_blank(text.text@) ==> said.len() == 1 && says(
                said[0],
                "type"@,
                Json::Str("text"@),
            ) && says(said[0], "text"@, Json::Str(text.text@))
            &&& shown.len() == 1 && says(shown[0], "type"@, Json::Str("image"@))
            &&& exists|source: Json| #[trigger]
                says(shown[0], "source"@, source) && says(
                    source,
                    "type"@,
                    Json::Str("base64"@),
                ) && says(source, "media_type"@, Json::Str(image.mime_type@)) && says(
                    source,
                    "data"@,
                    Json::Str(image.data@),
                )
        }),
{
    let a = seq![Content::Text(text)];
    let b = seq![Content::Image(image)];
    assert(a.drop_last() =~= Seq::<Content>::empty());
    assert(b.drop_last() =~= Seq::<Content>::empty());
    assert(a.last() == Content::Text(text));
    assert(b.last() == Content::Image(image));
    reveal_with_fuel(user_blocks, 2);
    let e = user_blocks(b)[0]->Object_0;
    assert(says(user_blocks(b)[0], "source"@, e[1].1));
}

/// A tool result goes back under the id of its call, with its error flag, and,
/// where it holds no image and brings no tools, with its texts one per line.
pub proof fn law_result_goes_back(result: ToolResultMessage)
    ensures
        ({
            let sent = result_json(result, Seq::empty());
            &&& says(sent, "type"@, Json::Str("tool_result"@))
            &&& says(sent, "tool_use_id"@, Json::Str(result.tool_call_id@))
            &&& says(sent, "is_error"@, Json::Bool(result.is_error))
            &&& !holds_image(result.content@) ==> says(
                sent,
                "content"@,
                Json::Str(joined(block_texts(result.content@), "\n"@)),
            )
        }),
{
}

/// A tool result that brings tools refers to them in its content, and says what it
/// says beside it.
pub proof fn law_result_refers_to_its_tools(result: ToolResultMessage, list: Seq<Json>)
    requires
        list.len() > 0,
    ensures
        says(result_json(result, list), "content"@, Json::Array(list)),
        says(result_json(result, list), "tool_use_id"@, Json::Str(result.tool_call_id@)),
        !holds_image(result.content@) ==> ({
            let beside = sibling_blocks(result, list);
            &&& beside.len() == 1
            &&& says(beside[0], "type"@, Json::Str("text"@))
            &&& says(
                beside[0],
                "text"@,
                Json::Str(joined(block_texts(result.content@), "\n"@)),
            )
        }),
{
}

/// What a user or an assistant says becomes one message of that role, after all
/// that was said before; what has nothing to say becomes none.
pub proof fn law_messages_follow_each_other(messages: Seq<Message>, message: Message, s: Setting)
    requires
        message !is ToolResult,
    ensures
        ({
            let before = run_ended(messages_taken(messages, s)).messages;
            let after = run_ended(messages_taken(messages.push(message), s)).messages;
            &&& before.len() <= after.len() <= before.len() + 1
            &&& after.take(before.len() as int) == before
            &&& message matches Message::User(user) ==> {
                match user.content {
                    UserMessageContent::Text(text) => if is_blank(text@) {
                        after.len() == before.len()
                    } else {
                        after.len() > before.len() && says(
                            after.last(),
                            "role"@,
                            Json::Str("user"@),
                        ) && says(after.last(), "content"@, Json::Str(text@))
                    },
                    UserMessageContent::Blocks(blocks) => if user_blocks(blocks@).len() == 0 {
                        after.len() == before.len()
                    } else {
                        after.len() > before.len() && says(
                            after.last(),
                            "role"@,
                            Json::Str("user"@),
                        ) && says(after.last(), "content"@, Json::Array(user_blocks(blocks@)))
                    },
                }
            }
            &&& message matches Message::Assistant(a) ==> {
                if assistant_blocks(a.content@, s).len() == 0 {
                    after.len() == before.len()
                } else {
                    after.len() > before.len() && says(
                        after.last(),
                        "role"@,
                        Json::Str("assistant"@),
                    ) && says(after.last(), "content"@, Json::Array(assistant_blocks(a.content@, s)))
                }
            }
        }),
{
    assert(messages.push(message).drop_last() =~= messages);
    let before = run_ended(messages_taken(messages, s)).messages;
    let after = run_ended(messages_taken(messages.push(message), s)).messages;
    assert(after.take(before.len() as int) =~= before);
}

proof fn lemma_results_taken(messages: Seq<Message>, results: Seq<ToolResultMessage>, s: Setting)
    requires
        forall|i: int|
            0 <= i < results.len() ==> added_names(#[trigger] results[i]).len() == 0,
    ensures
        ({
            let all = messages + Seq::new(results.len(), |i: int| Message::ToolResult(results[i]));
            let before = messages_taken(messages, s);
            let after = messages_taken(all, s);
            &&& after.messages == before.messages
            &&& after.siblings == before.siblings
            &&& after.results == before.results + Seq::new(
                results.len(),
                |i: int| result_json(results[i], Seq::empty()),
            )
        }),
    decreases results.len(),
{
    let told = Seq::new(results.len(), |i: int| Message::ToolResult(results[i]));
    let all = messages + told;
    let before = messages_taken(messages, s);
    let after = messages_taken(all, s);
    if results.len() == 0 {
        assert(all =~= messages);
        assert(after.results =~= before.results + Seq::new(
            results.len(),
            |i: int| result_json(results[i], Seq::empty()),
        ));
    } else {
        let rest = results.drop_last();
        lemma_results_taken(messages, rest, s);
        assert(all.drop_last() =~= messages + Seq::new(
            rest.len(),
            |i: int| Message::ToolResult(rest[i]),
        ));
        assert(all.last() == Message::ToolResult(results.last()));
        assert(added_names(results[results.len() - 1]).len() == 0);
        let inner = messages_taken(all.drop_last(), s);
        assert(references(added_names(results.last()), s, inner.loaded).0 =~= Seq::<Json>::empty());
        assert(after.results =~= before.results + Seq::new(
            results.len(),
            |i: int| result_json(results[i], Seq::empty()),
        ));
        assert(after.siblings =~= before.siblings);
    }
}

/// Tool results that follow each other stand together in one message of the user,
/// each under the id of its call, in their order.
pub proof fn law_results_stand_together(
    messages: Seq<Message>,
    results: Seq<ToolResultMessage>,
    s: Setting,
)
    requires
        messages.len() == 0 || messages.last() !is ToolResult,
        results.len() > 0,
        forall|i: int|
            0 <= i < results.len() ==> added_names(#[trigger] results[i]).len() == 0,
    ensures
        ({
            let all = messages + Seq::new(results.len(), |i: int| Message::ToolResult(results[i]));
            let before = run_ended(messages_taken(messages, s)).messages;
            let after = run_ended(messages_taken(all, s)).messages;
            &&& after.len() == before.len() + 1
            &&& after.drop_last() == before
            &&& says(after.last(), "role"@, Json::Str("user"@))
            &&& after.last()->Object_0[1].0 == "content"@
            &&& after.last()->Object_0[1].1 matches Json::Array(blocks) && blocks.len()
                == results.len() && forall|i: int|
                0 <= i < blocks.len() ==> says(
                    #[trigger] blocks[i],
                    "tool_use_id"@,
                    Json::Str(results[i].tool_call_id@),
                ) && says(blocks[i], "type"@, Json::Str("tool_result"@)) && says(
                    blocks[i],
                    "is_error"@,
                    Json::Bool(results[i].is_error),
                )
        }),
{
    let all = messages + Seq::new(results.len(), |i: int| Message::ToolResult(results[i]));
    lemma_results_taken(messages, results, s);
    let r = messages_taken(messages, s);
    assert(r.results.len() == 0 && r.siblings.len() == 0) by {
        lemma_run_is_over(messages, s);
    }
    let after = run_ended(messages_taken(all, s)).messages;
    assert(after.drop_last() =~= run_ended(r).messages);
    let sent = Seq::new(results.len(), |i: int| result_json(results[i], Seq::empty()));
    assert(r.results + sent + r.siblings =~= sent);
    assert forall|i: int| 0 <= i < sent.len() implies says(
        #[trigger] sent[i],
        "tool_use_id"@,
        Json::Str(results[i].tool_call_id@),
    ) && says(sent[i], "type"@, Json::Str("tool_result"@)) && says(
        sent[i],
        "is_error"@,
        Json::Bool(results[i].is_error),
    ) by {
        law_result_goes_back(results[i]);
    }
}

proof fn lemma_run_is_over(messages: Seq<Message>, s: Setting)
    requires
        messages.len() == 0 || messages.last() !is ToolResult,
    ensures
        messages_taken(messages, s).results.len() == 0,
        messages_taken(messages, s).siblings.len() == 0,
{
    if messages.len() > 0 {
        lemma_no_stray_siblings(messages.drop_last(), s);
    }
}

proof fn lemma_no_stray_siblings(messages: Seq<Message>, s: Setting)
    ensures
        messages_taken(messages, s).results.len() == 0 ==> messages_taken(
            messages,
            s,
        ).siblings.len() == 0,
    decreases messages.len(),
{
    if messages.len() > 0 {
        lemma_no_stray_siblings(messages.drop_last(), s);
    }
}

/// A tool is offered under its name as it is sent, with its description, and with
/// a schema of an object that has the properties and the required names of the
/// tool.
pub proof fn law_tool_is_offered(
    tool: Tool,
    oauth: bool,
    eager: bool,
    supports_strict: bool,
    marker: Option<Json>,
    defer_loading: bool,
)
    ensures
        ({
            let sent = tool_json(tool, oauth, eager, supports_strict, marker, defer_loading);
            &&& says(sent, "name"@, Json::Str(sent_name(tool.name@, oauth)))
            &&& !oauth ==> says(sent, "name"@, Json::Str(tool.name@))
            &&& says(sent, "description"@, Json::Str(tool.description@))
            &&& eager ==> says(sent, "eager_input_streaming"@, Json::Bool(true))
            &&& defer_loading ==> says(sent, "defer_loading"@, Json::Bool(true))
            &&& marker is Some ==> says(sent, "cache_control"@, marker->0)
        }),
{
}

} // verus!
