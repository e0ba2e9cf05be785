//! What a Mistral conversation is told, and what its stream puts into the reply.
use vstd::prelude::*;
use crate::api::github_copilot_headers::holds_image;
use crate::api::mistral_conversations::events::{
    parsed_call, parsed_chunk, parsed_content, CallDelta, Chunk, Completion, Said,
};
use crate::api::mistral_conversations::messages::{
    assistant_message, assistant_parts, calls_json, image_parts, messages_json, tool_message,
    tools_json, user_message, user_parts,
};
use crate::api::mistral_conversations::stream::{
    call_key, calls_streamed, chunk_streamed, completion_taken, progress_wf, text_streamed, Current,
    Progress,
};
use crate::api::openai_completions::messages::block_texts;
use crate::json::{
    get, json_text, key_index, lemma_key_index, lemma_key_index_is, lemma_with_entry, number_at,
    object_at, str_at, text_or_empty, Entries, Json,
};
use crate::laws::sent::{lemma_parts_sent_push, parts_sent, Sort};
use crate::laws::wire::{group_wire, says};
use crate::text::{is_blank, joined, trimmed};
use crate::types::{
    AssistantMessage, Block, Content, Event, ImageContent, Message, Pricing, TextContent,
    ThinkingContent, Tool, ToolCall, ToolResultMessage, UserMessage, UserMessageContent,
};

verus! {

broadcast use group_wire;

/// Content in two pieces: what each piece says, shows and calls follows what the
/// piece before it does.
pub proof fn law_content_stays_in_order(a: Seq<Content>, b: Seq<Content>, supports_images: bool)
    ensures
        user_parts(a + b, supports_images) == user_parts(a, supports_images) + user_parts(
            b,
            supports_images,
        ),
        image_parts(a + b) == image_parts(a) + image_parts(b),
        assistant_parts(a + b) == assistant_parts(a) + assistant_parts(b),
        calls_json(a + b) == calls_json(a) + calls_json(b),
    decreases b.len(),
{
    let users = user_parts(a, supports_images) + user_parts(b, supports_images);
    if b.len() == 0 {
        assert(a + b =~= a);
        assert(users =~= user_parts(a, supports_images));
        assert(image_parts(a) + image_parts(b) =~= image_parts(a));
        assert(assistant_parts(a) + assistant_parts(b) =~= assistant_parts(a));
        assert(calls_json(a) + calls_json(b) =~= calls_json(a));
    } else {
        law_content_stays_in_order(a, b.drop_last(), supports_images);
        assert((a + b).drop_last() =~= a + b.drop_last());
        assert(user_parts(a + b, supports_images) =~= users);
        assert(image_parts(a + b) =~= image_parts(a) + image_parts(b));
        assert(assistant_parts(a + b) =~= assistant_parts(a) + assistant_parts(b));
        assert(calls_json(a + b) =~= calls_json(a) + calls_json(b));
    }
}

/// A text is sent as it is, and one of an assistant that is blank is not sent.
pub proof fn law_text_is_sent(text: TextContent, supports_images: bool)
    ensures
        ({
            let content = seq![Content::Text(text)];
            let said = user_parts(content, supports_images);
            &&& said.len() == 1 && says(said[0], "type"@, Json::Str("text"@)) && says(
                said[0],
                "text"@,
                Json::Str(text.text@),
            )
            &&& !is_blank(text.text@) ==> assistant_parts(content) == said
            &&& is_blank(text.text@) ==> assistant_parts(content).len() == 0
            &&& calls_json(content).len() == 0 && image_parts(content).len() == 0
        }),
{
    let content = seq![Content::Text(text)];
    assert(content.drop_last() =~= Seq::<Content>::empty());
    assert(content.last() == Content::Text(text));
    reveal_with_fuel(user_parts, 2);
    reveal_with_fuel(assistant_parts, 2);
    reveal_with_fuel(calls_json, 2);
    reveal_with_fuel(image_parts, 2);
    if !is_blank(text.text@) {
        assert(assistant_parts(content) =~= user_parts(content, supports_images));
    }
}

/// An image is sent in its own address to a model that takes images, and not at
/// all to another.
pub proof fn law_image_is_sent(image: ImageContent)
    ensures
        ({
            let content = seq![Content::Image(image)];
            let shown = user_parts(content, true);
            &&& shown.len() == 1 && says(shown[0], "type"@, Json::Str("image_url"@)) && says(
                shown[0],
                "image_url"@,
                Json::Str("data:"@ + image.mime_type@ + ";base64,"@ + image.data@),
            )
            &&& image_parts(content) == shown
            &&& user_parts(content, false).len() == 0
            &&& assistant_parts(content).len() == 0 && calls_json(content).len() == 0
        }),
{
    let content = seq![Content::Image(image)];
    assert(content.drop_last() =~= Seq::<Content>::empty());
    assert(content.last() == Content::Image(image));
    reveal_with_fuel(user_parts, 2);
    reveal_with_fuel(assistant_parts, 2);
    reveal_with_fuel(calls_json, 2);
    reveal_with_fuel(image_parts, 2);
    assert(image_parts(content) =~= user_parts(content, true));
}

/// A thought that is not blank is sent as one part that thinks it.
pub proof fn law_thought_is_sent(thinking: ThinkingContent)
    ensures
        ({
            let thought = assistant_parts(seq![Content::Thinking(thinking)]);
            &&& is_blank(thinking.thinking@) ==> thought.len() == 0
            &&& !is_blank(thinking.thinking@) ==> thought.len() == 1 && says(
                thought[0],
                "type"@,
                Json::Str("thinking"@),
            ) && exists|list: Seq<Json>|
                #![trigger says(thought[0], "thinking"@, Json::Array(list))]
                says(thought[0], "thinking"@, Json::Array(list)) && list.len() == 1 && says(
                    list[0],
                    "type"@,
                    Json::Str("text"@),
                ) && says(list[0], "text"@, Json::Str(thinking.thinking@))
        }),
{
    let content = seq![Content::Thinking(thinking)];
    assert(content.drop_last() =~= Seq::<Content>::empty());
    assert(content.last() == Content::Thinking(thinking));
    reveal_with_fuel(assistant_parts, 2);
    if !is_blank(thinking.thinking@) {
        let e = assistant_parts(content)[0]->Object_0;
        assert(says(assistant_parts(content)[0], "thinking"@, Json::Array(e[1].1->Array_0)));
    }
}

/// A tool call is sent as a function with its id, its name and its arguments as
/// JSON text.
pub proof fn law_call_is_sent(call: ToolCall)
    ensures
        ({
            let sent = calls_json(seq![Content::ToolCall(call)]);
            &&& sent.len() == 1
            &&& says(sent[0], "id"@, Json::Str(call.id@))
            &&& says(sent[0], "type"@, Json::Str("function"@))
            &&& exists|inner: Json| #[trigger]
                says(sent[0], "function"@, inner) && says(
                    inner,
                    "name"@,
                    Json::Str(call.name@),
                ) && says(inner, "arguments"@, Json::Str(json_text(call.arguments@)))
            &&& assistant_parts(seq![Content::ToolCall(call)]).len() == 0
        }),
{
    let content = seq![Content::ToolCall(call)];
    assert(content.drop_last() =~= Seq::<Content>::empty());
    assert(content.last() == Content::ToolCall(call));
    reveal_with_fuel(calls_json, 2);
    reveal_with_fuel(assistant_parts, 2);
    let e = calls_json(content)[0]->Object_0;
    assert(says(calls_json(content)[0], "function"@, e[2].1));
}

/// An assistant sends what it said and what it called, each where there is some.
pub proof fn law_assistant_is_sent(a: AssistantMessage)
    ensures
        ({
            let parts = assistant_parts(a.content@);
            let calls = calls_json(a.content@);
            &&& parts.len() == 0 && calls.len() == 0 ==> assistant_message(a) is None
            &&& parts.len() > 0 || calls.len() > 0 ==> (assistant_message(a) matches Some(m)
                && says(m, "role"@, Json::Str("assistant"@)) && (parts.len() > 0 ==> says(
                m,
                "content"@,
                Json::Array(parts),
            )) && (calls.len() > 0 ==> says(m, "tool_calls"@, Json::Array(calls))))
        }),
{
}

/// A user sends a text as it is, and blocks as their parts.
pub proof fn law_user_is_sent(user: UserMessage, supports_images: bool)
    ensures
        match user.content {
            UserMessageContent::Text(text) => user_message(user, supports_images) matches Some(m)
                && says(m, "role"@, Json::Str("user"@)) && says(m, "content"@, Json::Str(text@)),
            UserMessageContent::Blocks(blocks) => {
                let parts = user_parts(blocks@, supports_images);
                &&& parts.len() > 0 ==> (user_message(user, supports_images) matches Some(m)
                    && says(m, "role"@, Json::Str("user"@)) && says(
                    m,
                    "content"@,
                    Json::Array(parts),
                ))
                &&& parts.len() == 0 && !holds_image(blocks@) ==> user_message(
                    user,
                    supports_images,
                ) is None
            },
        },
{
}

/// A tool result goes back under the id of its call and the name of its tool. It
/// says its texts, trimmed, with a mark in front where it is an error, and shows its
/// images to a model that takes them.
pub proof fn law_result_goes_back(result: ToolResultMessage, supports_images: bool)
    ensures
        ({
            let sent = tool_message(result, supports_images);
            let said = trimmed(joined(block_texts(result.content@), "\n"@));
            &&& says(sent, "role"@, Json::Str("tool"@))
            &&& says(sent, "tool_call_id"@, Json::Str(result.tool_call_id@))
            &&& says(sent, "name"@, Json::Str(result.tool_name@))
            &&& exists|list: Seq<Json>|
                #![trigger says(sent, "content"@, Json::Array(list))]
                says(sent, "content"@, Json::Array(list)) && list.len() > 0 && says(
                    list[0],
                    "type"@,
                    Json::Str("text"@),
                ) && (supports_images ==> list.skip(1) == image_parts(result.content@)) && (
                !supports_images ==> list.len() == 1) && (said.len() > 0 && (supports_images
                    || !holds_image(result.content@)) && !result.is_error ==> says(
                    list[0],
                    "text"@,
                    Json::Str(said),
                )) && (said.len() > 0 && (supports_images || !holds_image(result.content@))
                    && result.is_error ==> says(
                    list[0],
                    "text"@,
                    Json::Str("[tool error] "@ + said),
                ))
        }),
{
    reveal_strlit("");
    let sent = tool_message(result, supports_images);
    let e = sent->Object_0;
    let list = e[3].1->Array_0;
    assert(says(sent, "content"@, Json::Array(list)));
    let said = trimmed(joined(block_texts(result.content@), "\n"@));
    assert(list[0]->Object_0[0] == ("type"@, Json::Str("text"@)));
    assert(list.skip(1) =~= if supports_images {
        image_parts(result.content@)
    } else {
        Seq::empty()
    });
    let told = list[0]->Object_0[1];
    assert(list[0]->Object_0.contains(told));
    if said.len() > 0 && (supports_images || !holds_image(result.content@)) {
        if result.is_error {
            assert("[tool error] "@ + said + ""@ =~= "[tool error] "@ + said);
        } else {
            assert(""@ + said + ""@ =~= said);
        }
    }
}

/// Each message is sent behind those before it, and those that have nothing to say
/// are not sent.
pub proof fn law_messages_follow_each_other(
    messages: Seq<Message>,
    message: Message,
    supports_images: bool,
)
    ensures
        ({
            let before = messages_json(messages, supports_images);
            let after = messages_json(messages.push(message), supports_images);
            let own = match message {
                Message::User(user) => user_message(user, supports_images),
                Message::Assistant(a) => assistant_message(a),
                Message::ToolResult(result) => Some(tool_message(result, supports_images)),
            };
            &&& own is None ==> after == before
            &&& own is Some ==> after == before.push(own->0)
        }),
{
    assert(messages.push(message).drop_last() =~= messages);
}

/// A tool is offered under its name, with its description and its schema.
pub proof fn law_tool_is_offered(tools: Seq<Tool>, i: int)
    requires
        0 <= i < tools.len(),
    ensures
        tools_json(tools).len() == tools.len(),
        says(tools_json(tools)[i], "type"@, Json::Str("function"@)),
        exists|inner: Json| #[trigger]
            says(tools_json(tools)[i], "function"@, inner) && says(
                inner,
                "name"@,
                Json::Str(tools[i].name@),
            ) && says(inner, "description"@, Json::Str(tools[i].description@)) && says(
                inner,
                "parameters"@,
                tools[i].parameters.value@,
            ),
{
    let e = tools_json(tools)[i]->Object_0;
    assert(says(tools_json(tools)[i], "function"@, e[1].1));
}

proof fn lemma_text_sent(p: Progress, delta: Seq<char>)
    requires
        progress_wf(p),
    ensures
        parts_sent(text_streamed(p, delta).sent, Sort::Text) == parts_sent(
            p.sent,
            Sort::Text,
        ).push(delta),
        parts_sent(text_streamed(p, delta).sent, Sort::Thinking) == parts_sent(
            p.sent,
            Sort::Thinking,
        ),
{
    let after = text_streamed(p, delta).sent;
    let begun = crate::api::mistral_conversations::stream::text_begun(p).sent;
    let ended = crate::api::mistral_conversations::stream::current_finished(p).sent;
    assert(after =~= begun.push(after.last()));
    lemma_parts_sent_push(begun, after.last(), Sort::Text);
    lemma_parts_sent_push(begun, after.last(), Sort::Thinking);
    if begun.len() > p.sent.len() {
        assert(begun =~= ended.push(begun.last()));
        lemma_parts_sent_push(ended, begun.last(), Sort::Text);
        lemma_parts_sent_push(ended, begun.last(), Sort::Thinking);
        if ended.len() > p.sent.len() {
            assert(ended =~= p.sent.push(ended.last()));
            lemma_parts_sent_push(p.sent, ended.last(), Sort::Text);
            lemma_parts_sent_push(p.sent, ended.last(), Sort::Thinking);
        }
    }
}

proof fn lemma_thinking_sent(p: Progress, delta: Seq<char>)
    requires
        progress_wf(p),
    ensures
        ({
            let after = crate::api::mistral_conversations::stream::thinking_streamed(p, delta).sent;
            &&& parts_sent(after, Sort::Thinking) == parts_sent(p.sent, Sort::Thinking).push(delta)
            &&& parts_sent(after, Sort::Text) == parts_sent(p.sent, Sort::Text)
        }),
{
    let after = crate::api::mistral_conversations::stream::thinking_streamed(p, delta).sent;
    let begun = crate::api::mistral_conversations::stream::thinking_begun(p).sent;
    let ended = crate::api::mistral_conversations::stream::current_finished(p).sent;
    assert(after =~= begun.push(after.last()));
    lemma_parts_sent_push(begun, after.last(), Sort::Text);
    lemma_parts_sent_push(begun, after.last(), Sort::Thinking);
    if begun.len() > p.sent.len() {
        assert(begun =~= ended.push(begun.last()));
        lemma_parts_sent_push(ended, begun.last(), Sort::Text);
        lemma_parts_sent_push(ended, begun.last(), Sort::Thinking);
        if ended.len() > p.sent.len() {
            assert(ended =~= p.sent.push(ended.last()));
            lemma_parts_sent_push(p.sent, ended.last(), Sort::Text);
            lemma_parts_sent_push(p.sent, ended.last(), Sort::Thinking);
        }
    }
}

/// A chunk is sent on once and as it is: a text as a part of the text, and all that
/// a thought holds as one part of the thinking. It is also what the last block of
/// the reply ends with.
pub proof fn law_chunk_is_sent_on(p: Progress, text: Seq<char>, thought: Seq<Seq<char>>)
    requires
        progress_wf(p),
    ensures
        ({
            let after = chunk_streamed(p, Chunk::Text(text));
            let grown = p.current matches Some(Current::Text(_));
            let n = after.reply.content.len() - 1;
            &&& parts_sent(after.sent, Sort::Text) == parts_sent(p.sent, Sort::Text).push(text)
            &&& parts_sent(after.sent, Sort::Thinking) == parts_sent(p.sent, Sort::Thinking)
            &&& after.reply.content[n] matches Block::Text(block) && (grown ==> block.text
                == p.reply.content[n]->Text_0.text + text) && (!grown ==> block.text == text)
            &&& after.reply.content.len() == p.reply.content.len() + if grown {
                0int
            } else {
                1int
            }
        }),
        ({
            let after = chunk_streamed(p, Chunk::Thinking(thought));
            let all = joined(thought, ""@);
            let grown = p.current matches Some(Current::Thinking(_));
            let n = after.reply.content.len() - 1;
            &&& all.len() == 0 ==> after == p
            &&& all.len() > 0 ==> parts_sent(after.sent, Sort::Thinking) == parts_sent(
                p.sent,
                Sort::Thinking,
            ).push(all)
            &&& all.len() > 0 ==> (after.reply.content[n] matches Block::Thinking(block) && (grown
                ==> block.thinking == p.reply.content[n]->Thinking_0.thinking + all) && (!grown
                ==> block.thinking == all))
            &&& parts_sent(after.sent, Sort::Text) == parts_sent(p.sent, Sort::Text)
        }),
{
    lemma_text_sent(p, text);
    let all = joined(thought, ""@);
    assert(Seq::<char>::empty() + text =~= text);
    assert(Seq::<char>::empty() + all =~= all);
    if all.len() > 0 {
        lemma_thinking_sent(p, all);
    }
}

/// A call that a stream begins takes the id and the name that it was given, its
/// arguments are read from the part that came with it, and that part is sent on.
/// A further part of the same call is put behind the parts before it.
pub proof fn law_call_is_streamed(p: Progress, d: CallDelta, read: spec_fn(Seq<char>) -> Json)
    requires
        progress_wf(p),
        get(p.positions, call_key(d)) is None,
        get(p.partial, call_key(d)) is None,
    ensures
        ({
            let after = calls_streamed(p, seq![d], read);
            let n = p.reply.content.len() as int;
            &&& after.reply.content.len() == n + 1
            &&& after.reply.content.drop_last() == p.reply.content
            &&& after.reply.content[n] matches Block::ToolCall(call) && {
                &&& call.name == d.name
                &&& call.arguments == read(d.arguments)
                &&& d.id matches Some(id) ==> (id != "null"@ ==> call.id == id)
                &&& call.thought_signature is None && call.namespace is None
            }
            &&& after.sent.last() == Event::ToolCallDelta {
                content_index: n,
                delta: d.arguments,
                partial: after.reply,
            }
            &&& get(after.positions, call_key(d)) == Some(n)
            &&& get(after.partial, call_key(d)) == Some(d.arguments)
        }),
{
    let list = seq![d];
    assert(list.drop_last() =~= Seq::<CallDelta>::empty());
    assert(list.last() == d);
    reveal_with_fuel(calls_streamed, 2);
    let after = calls_streamed(p, list, read);
    let n = p.reply.content.len() as int;
    lemma_key_index(p.positions, call_key(d));
    lemma_key_index_is(
        p.positions.push((call_key(d), n)),
        call_key(d),
        p.positions.len() as int,
    );
    lemma_with_entry(p.partial, call_key(d), d.arguments, call_key(d));
    assert(Seq::<char>::empty() + d.arguments =~= d.arguments);
    assert(after.reply.content.drop_last() =~= p.reply.content);
}

/// A further part of a call that was begun is put behind the parts before it.
pub proof fn law_call_goes_on(
    p: Progress,
    d: CallDelta,
    n: int,
    so_far: Seq<char>,
    read: spec_fn(Seq<char>) -> Json,
)
    requires
        progress_wf(p),
        get(p.positions, call_key(d)) == Some(n),
        get(p.partial, call_key(d)) == Some(so_far),
    ensures
        ({
            let after = calls_streamed(p, seq![d], read);
            &&& 0 <= n < p.reply.content.len() && p.reply.content[n] is ToolCall
            &&& after.reply.content.len() == p.reply.content.len()
            &&& after.reply.content[n] matches Block::ToolCall(call) && call.arguments == read(
                so_far + d.arguments,
            ) && call.name == p.reply.content[n]->ToolCall_0.name && call.id
                == p.reply.content[n]->ToolCall_0.id
            &&& forall|i: int|
                0 <= i < p.reply.content.len() && i != n ==> #[trigger] after.reply.content[i]
                    == p.reply.content[i]
            &&& after.sent.last() == Event::ToolCallDelta {
                content_index: n,
                delta: d.arguments,
                partial: after.reply,
            }
            &&& get(after.partial, call_key(d)) == Some(so_far + d.arguments)
        }),
{
    let list = seq![d];
    assert(list.drop_last() =~= Seq::<CallDelta>::empty());
    assert(list.last() == d);
    reveal_with_fuel(calls_streamed, 2);
    lemma_key_index(p.positions, call_key(d));
    assert(p.positions[key_index(p.positions, call_key(d))].1 == n);
    lemma_with_entry(p.partial, call_key(d), so_far + d.arguments, call_key(d));
}

/// A completion gives the reply its id where it has none yet and streams what its
/// first choice says.
pub proof fn law_completion_is_taken(
    p: Progress,
    c: Completion,
    text: Seq<char>,
    read: spec_fn(Seq<char>) -> Json,
    price: Pricing,
)
    requires
        progress_wf(p),
        c.choices.len() > 0,
        c.choices[0].content == Some(Said::Text(text)),
        c.choices[0].tool_calls.len() == 0,
    ensures
        ({
            let after = completion_taken(p, c, read, price);
            &&& parts_sent(after.sent, Sort::Text) == parts_sent(p.sent, Sort::Text).push(text)
            &&& p.reply.response_id is Some ==> after.reply.response_id == p.reply.response_id
            &&& p.reply.response_id is None && c.id is Some && c.id != Some(""@)
                ==> after.reply.response_id == c.id
            &&& c.choices[0].finish_reason is Some ==> after.reply.raw_stop_reason
                == c.choices[0].finish_reason
            &&& c.usage is None ==> after.reply.usage == p.reply.usage
        }),
{
    reveal(completion_taken);
    let headed = Progress {
        reply: crate::api::mistral_conversations::stream::head_taken(p.reply, c, price),
        ..p
    };
    let ended = Progress {
        reply: crate::api::mistral_conversations::stream::end_taken(
            headed.reply,
            c.choices[0].finish_reason,
        ),
        ..headed
    };
    assert(progress_wf(ended)) by {
        assert(ended.reply.content == p.reply.content);
        assert forall|i: int| 0 <= i < ended.positions.len() implies
            crate::api::mistral_conversations::stream::is_call_at(
            ended.reply,
            (#[trigger] ended.positions[i]).1,
        ) by {
            assert(crate::api::mistral_conversations::stream::is_call_at(
                p.reply,
                p.positions[i].1,
            ));
        }
    }
    lemma_text_sent(ended, text);
    assert(calls_streamed(text_streamed(ended, text), c.choices[0].tool_calls, read)
        == text_streamed(ended, text));
}

/// A call that a completion tells of is read from its fields.
pub proof fn law_call_is_read(e: Entries, function: Entries)
    requires
        object_at(e, "function"@) == Some(function),
    ensures
        parsed_call(e) matches Some(d) && d.id == str_at(e, "id"@) && d.index == number_at(
            e,
            "index"@,
        ) && d.name == text_or_empty(str_at(function, "name"@)) && (str_at(
            function,
            "arguments"@,
        ) is Some ==> d.arguments == str_at(function, "arguments"@)->0) && (object_at(
            function,
            "arguments"@,
        ) matches Some(args) ==> d.arguments == json_text(Json::Object(args))),
{
}

/// A chunk is read from its fields by its type, and a content that is a text is
/// that text.
pub proof fn law_chunk_is_read(e: Entries, delta: Entries)
    ensures
        str_at(e, "type"@) == Some("text"@) ==> parsed_chunk(e) == Some(
            Chunk::Text(text_or_empty(str_at(e, "text"@))),
        ),
        str_at(e, "type"@) == Some("image_url"@) ==> parsed_chunk(e) == Some(
            Chunk::Image(text_or_empty(str_at(e, "image_url"@))),
        ),
        str_at(e, "type"@) is None ==> parsed_chunk(e) is None,
        str_at(e, "type"@) == Some("thinking"@) ==> (parsed_chunk(e) matches Some(
            Chunk::Thinking(_),
        )),
        str_at(delta, "content"@) matches Some(text) ==> parsed_content(delta) == Some(
            Said::Text(text),
        ),
{
    reveal_strlit("thinking");
    reveal_strlit("text");
    reveal_strlit("image_url");
    assert("thinking"@.len() != "text"@.len() && "thinking"@.len() != "image_url"@.len());
    assert("text"@.len() != "image_url"@.len());
}

} // verus!
