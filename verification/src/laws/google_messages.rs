//! What the Gemini interfaces are told of a conversation.
use vstd::prelude::*;
use crate::api::google_shared::messages::{
    assistant_parts, contents_of, declarations, image_parts, part_json, parts_json, response_part,
    same_model, tools_json, turn_json, user_parts, Part, Turn,
};
use crate::api::google_shared::{is_base64, needs_call_id, takes_images_in_results};
use crate::api::openai_completions::messages::block_texts;
use crate::json::Json;
use crate::laws::wire::{group_wire, says};
use crate::text::{is_alnum, is_blank, joined, opt_text, texts};
use crate::types::{
    Content, ImageContent, Message, Model, TextContent, ThinkingContent, Tool, ToolCall,
    ToolResultMessage, UserMessageContent,
};

verus! {

broadcast use group_wire;

/// Nothing of what an assistant said is moved or merged: the parts of a message in
/// two pieces are those of the first followed by those of the second.
pub proof fn law_assistant_parts_stay_in_order(
    a: Seq<Content>,
    b: Seq<Content>,
    same_model: bool,
    with_ids: bool,
)
    ensures
        assistant_parts(a + b, same_model, with_ids) == assistant_parts(a, same_model, with_ids)
            + assistant_parts(b, same_model, with_ids),
    decreases b.len(),
{
    let parts = assistant_parts(a, same_model, with_ids) + assistant_parts(b, same_model, with_ids);
    if b.len() == 0 {
        assert(a + b =~= a);
        assert(parts =~= assistant_parts(a, same_model, with_ids));
    } else {
        law_assistant_parts_stay_in_order(a, b.drop_last(), same_model, with_ids);
        assert((a + b).drop_last() =~= a + b.drop_last());
        assert(assistant_parts(a + b, same_model, with_ids) =~= parts);
    }
}

/// Each tool call of an assistant becomes one part that calls the function, with
/// the name of the call and its arguments unchanged, with the id of the call where
/// ids are sent, and with no signature of another model.
pub proof fn law_call_is_sent(call: ToolCall, same_model: bool, with_ids: bool)
    ensures
        ({
            let sent = assistant_parts(seq![Content::ToolCall(call)], same_model, with_ids);
            &&& sent.len() == 1
            &&& sent[0] matches Part::FunctionCall { name, args, id, thought_signature } && {
                &&& name == call.name@
                &&& args == call.arguments@
                &&& with_ids ==> id == Some(call.id@)
                &&& !with_ids ==> id is None
                &&& !same_model ==> thought_signature is None
                &&& thought_signature is Some ==> thought_signature == opt_text(
                    call.thought_signature,
                )
                &&& same_model && call.thought_signature is Some && is_base64(
                    call.thought_signature->0@,
                ) ==> thought_signature is Some
            }
        }),
{
    let content = seq![Content::ToolCall(call)];
    assert(content.drop_last() =~= Seq::<Content>::empty());
    assert(content.last() == Content::ToolCall(call));
    reveal_with_fuel(assistant_parts, 2);
}

/// The calls of an assistant message, in order.
pub open spec fn calls_in(content: Seq<Content>) -> Seq<(Seq<char>, Json)>
    decreases content.len(),
{
    if content.len() == 0 {
        Seq::empty()
    } else {
        match content.last() {
            Content::ToolCall(call) => calls_in(content.drop_last()).push(
                (call.name@, call.arguments@),
            ),
            _ => calls_in(content.drop_last()),
        }
    }
}

/// The function calls among parts, in order.
pub open spec fn calls_sent(parts: Seq<Part>) -> Seq<(Seq<char>, Json)>
    decreases parts.len(),
{
    if parts.len() == 0 {
        Seq::empty()
    } else {
        match parts.last() {
            Part::FunctionCall { name, args, .. } => calls_sent(parts.drop_last()).push(
                (name, args),
            ),
            _ => calls_sent(parts.drop_last()),
        }
    }
}

/// The function calls that are sent of an assistant message are exactly its tool
/// calls, in their order, with their names and arguments.
pub proof fn law_calls_are_sent_in_order(content: Seq<Content>, same_model: bool, with_ids: bool)
    ensures
        calls_sent(assistant_parts(content, same_model, with_ids)) == calls_in(content),
    decreases content.len(),
{
    if content.len() > 0 {
        law_calls_are_sent_in_order(content.drop_last(), same_model, with_ids);
        let before = assistant_parts(content.drop_last(), same_model, with_ids);
        let after = assistant_parts(content, same_model, with_ids);
        if after.len() > before.len() {
            assert(after.drop_last() =~= before);
        }
    }
}

/// A text of an assistant is sent as a text that is no thought, a thought as a
/// thought where the same model gets it back and as a text where another does; one
/// that is blank and has no signature is not sent.
pub proof fn law_assistant_text_is_sent(
    text: TextContent,
    thinking: ThinkingContent,
    same_model: bool,
    with_ids: bool,
)
    ensures
        ({
            let said = assistant_parts(seq![Content::Text(text)], same_model, with_ids);
            let thought = assistant_parts(seq![Content::Thinking(thinking)], same_model, with_ids);
            &&& !is_blank(text.text@) ==> said.len() == 1
            &&& said.len() <= 1 && thought.len() <= 1
            &&& said.len() == 1 ==> (said[0] matches Part::Text { text: t, thought: th, thought_signature } && t == text.text@ && !th && (
            thought_signature is Some ==> same_model && thought_signature == opt_text(
                text.text_signature,
            )) && (same_model && text.text_signature is Some && is_base64(text.text_signature->0@)
                ==> thought_signature is Some))
            &&& is_blank(text.text@) && (!same_model || text.text_signature is None) ==> said.len()
                == 0
            &&& !is_blank(thinking.thinking@) ==> thought.len() == 1
            &&& thought.len() == 1 ==> (thought[0] matches Part::Text { text: t, thought: th, thought_signature } && t == thinking.thinking@ && th == same_model && (
            thought_signature is Some ==> same_model && thought_signature == opt_text(
                thinking.thinking_signature,
            )) && (same_model && thinking.thinking_signature is Some && is_base64(
                thinking.thinking_signature->0@,
            ) ==> thought_signature is Some))
            &&& is_blank(thinking.thinking@) && (!same_model || thinking.thinking_signature is None)
                ==> thought.len() == 0
        }),
{
    let a = seq![Content::Text(text)];
    let b = seq![Content::Thinking(thinking)];
    assert(a.drop_last() =~= Seq::<Content>::empty());
    assert(b.drop_last() =~= Seq::<Content>::empty());
    assert(a.last() == Content::Text(text));
    assert(b.last() == Content::Thinking(thinking));
    reveal_with_fuel(assistant_parts, 2);
}

/// What a user says in two pieces is sent as the first followed by the second.
pub proof fn law_user_parts_stay_in_order(a: Seq<Content>, b: Seq<Content>)
    ensures
        user_parts(a + b) == user_parts(a) + user_parts(b),
        image_parts(a + b) == image_parts(a) + image_parts(b),
    decreases b.len(),
{
    if b.len() == 0 {
        assert(a + b =~= a);
        assert(user_parts(a) + user_parts(b) =~= user_parts(a));
        assert(image_parts(a) + image_parts(b) =~= image_parts(a));
    } else {
        law_user_parts_stay_in_order(a, b.drop_last());
        assert((a + b).drop_last() =~= a + b.drop_last());
        assert(user_parts(a + b) =~= user_parts(a) + user_parts(b));
        assert(image_parts(a + b) =~= image_parts(a) + image_parts(b));
    }
}

/// Each text of a user is sent as it is, and each image with its type and data.
pub proof fn law_user_content_is_sent(text: TextContent, image: ImageContent)
    ensures
        user_parts(seq![Content::Text(text)]) == seq![
            Part::Text { text: text.text@, thought: false, thought_signature: None },
        ],
        user_parts(seq![Content::Image(image)]) == seq![
            Part::InlineData { mime_type: image.mime_type@, data: image.data@ },
        ],
        image_parts(seq![Content::Image(image)]) == seq![
            Part::InlineData { mime_type: image.mime_type@, data: image.data@ },
        ],
        image_parts(seq![Content::Text(text)]).len() == 0,
{
    let a = seq![Content::Text(text)];
    let b = seq![Content::Image(image)];
    assert(a.drop_last() =~= Seq::<Content>::empty());
    assert(b.drop_last() =~= Seq::<Content>::empty());
    assert(a.last() == Content::Text(text));
    assert(b.last() == Content::Image(image));
    reveal_with_fuel(user_parts, 2);
    reveal_with_fuel(image_parts, 2);
    assert(user_parts(a) =~= seq![
        Part::Text { text: text.text@, thought: false, thought_signature: None },
    ]);
    assert(user_parts(b) =~= seq![
        Part::InlineData { mime_type: image.mime_type@, data: image.data@ },
    ]);
    assert(image_parts(b) =~= seq![
        Part::InlineData { mime_type: image.mime_type@, data: image.data@ },
    ]);
}

/// What a user or an assistant says becomes one turn of that side after all turns
/// before it, and none where there is nothing to say.
pub proof fn law_turns_follow_each_other(messages: Seq<Message>, message: Message, model: Model)
    requires
        message !is ToolResult,
    ensures
        ({
            let before = contents_of(messages, model);
            let after = contents_of(messages.push(message), model);
            let parts = match message {
                Message::User(user) => match user.content {
                    UserMessageContent::Text(text) => seq![
                        Part::Text { text: text@, thought: false, thought_signature: None },
                    ],
                    UserMessageContent::Blocks(blocks) => user_parts(blocks@),
                },
                Message::Assistant(a) => assistant_parts(
                    a.content@,
                    a.provider@ == model.provider@ && a.model@ == model.id@,
                    needs_call_id(model.id@, model.anthropic_series.id@),
                ),
                _ => Seq::empty(),
            };
            &&& parts.len() == 0 ==> after == before
            &&& parts.len() > 0 ==> after.len() == before.len() + 1 && after.drop_last() == before
                && after.last().parts == parts
            &&& parts.len() > 0 && message is User ==> after.last().role == "user"@
            &&& parts.len() > 0 && message is Assistant ==> after.last().role == "model"@
        }),
{
    assert(messages.push(message).drop_last() =~= messages);
    let before = contents_of(messages, model);
    let after = contents_of(messages.push(message), model);
    if after.len() > before.len() {
        assert(after.drop_last() =~= before);
    }
    if let Message::User(user) = message {
        if let UserMessageContent::Text(text) = user.content {
            assert(after.last().parts =~= seq![
                Part::Text { text: text@, thought: false, thought_signature: None },
            ]);
        }
    }
}

/// A tool result answers its tool by name: its texts stand one per line under
/// `output`, or under `error` where it is one, with the id of the call where ids are
/// sent.
pub proof fn law_result_goes_back(result: ToolResultMessage, model: Model)
    ensures
        response_part(result, model) matches Part::FunctionResponse { name, response, parts, id } && {
            let said = block_texts(result.content@);
            &&& name == result.tool_name@
            &&& needs_call_id(model.id@, model.anthropic_series.id@) ==> id == Some(
                result.tool_call_id@,
            )
            &&& !needs_call_id(model.id@, model.anthropic_series.id@) ==> id is None
            &&& said.len() > 0 && !result.is_error ==> says(
                response,
                "output"@,
                Json::Str(joined(said, "\n"@)),
            )
            &&& said.len() > 0 && result.is_error ==> says(
                response,
                "error"@,
                Json::Str(joined(said, "\n"@)),
            )
            &&& texts(model.input@).contains("image"@) && takes_images_in_results(model.id@)
                ==> parts == image_parts(result.content@)
            &&& !texts(model.input@).contains("image"@) ==> parts.len() == 0
            &&& !takes_images_in_results(model.id@) ==> parts.len() == 0
        },
{
}

/// A tool result is sent: the last of its turns that answers it holds its answer
/// last, and where its images may not stand in the answer they follow in a turn of
/// the user.
pub proof fn law_result_is_sent(messages: Seq<Message>, result: ToolResultMessage, model: Model)
    ensures
        ({
            let before = contents_of(messages, model);
            let after = contents_of(messages.push(Message::ToolResult(result)), model);
            let shown = texts(model.input@).contains("image"@) && image_parts(
                result.content@,
            ).len() > 0 && !takes_images_in_results(model.id@);
            let at = after.len() - 1 - if shown {
                1int
            } else {
                0int
            };
            &&& 0 <= at < after.len() && before.len() <= at + 1 <= before.len() + 1
            &&& after[at].role == "user"@
            &&& after[at].parts.len() > 0 && after[at].parts.last() == response_part(result, model)
            &&& shown ==> after.last().role == "user"@ && after.last().parts.skip(1) == image_parts(
                result.content@,
            )
        }),
{
    let all = messages.push(Message::ToolResult(result));
    assert(all.drop_last() =~= messages);
    let after = contents_of(all, model);
    if after.len() > 0 {
        let images = image_parts(result.content@);
        if texts(model.input@).contains("image"@) && images.len() > 0 && !takes_images_in_results(
            model.id@,
        ) {
            assert(after.last().parts.skip(1) =~= images);
        }
    }
}

/// A part says on the wire what it holds.
pub proof fn law_part_on_the_wire(p: Part)
    ensures
        match p {
            Part::Text { text, thought, thought_signature } => {
                &&& says(part_json(p), "text"@, Json::Str(text))
                &&& says(part_json(p), "thought"@, Json::Bool(thought))
                &&& thought_signature is Some ==> says(
                    part_json(p),
                    "thoughtSignature"@,
                    Json::Str(thought_signature->0),
                )
            },
            Part::InlineData { mime_type, data } => exists|inner: Json| #[trigger]
                says(part_json(p), "inlineData"@, inner) && says(
                    inner,
                    "mimeType"@,
                    Json::Str(mime_type),
                ) && says(inner, "data"@, Json::Str(data)),
            Part::FunctionCall { name, args, id, thought_signature } => {
                &&& exists|inner: Json| #[trigger]
                    says(part_json(p), "functionCall"@, inner) && says(
                        inner,
                        "name"@,
                        Json::Str(name),
                    ) && says(inner, "args"@, args) && (id is Some ==> says(
                        inner,
                        "id"@,
                        Json::Str(id->0),
                    ))
                &&& thought_signature is Some ==> says(
                    part_json(p),
                    "thoughtSignature"@,
                    Json::Str(thought_signature->0),
                )
            },
            Part::FunctionResponse { name, response, parts, id } => exists|inner: Json| #[trigger]
                says(part_json(p), "functionResponse"@, inner) && says(
                    inner,
                    "name"@,
                    Json::Str(name),
                ) && says(inner, "response"@, response) && (id is Some ==> says(
                    inner,
                    "id"@,
                    Json::Str(id->0),
                )) && (parts.len() > 0 ==> says(inner, "parts"@, Json::Array(parts_json(parts)))),
        },
{
    reveal_with_fuel(part_json, 2);
    match p {
        Part::Text { .. } => {},
        _ => {
            let e = part_json(p)->Object_0;
            assert(says(part_json(p), e[0].0, e[0].1));
        },
    }
}

/// A turn names its side and holds its parts, each in its place.
pub proof fn law_turn_on_the_wire(turn: Turn)
    ensures
        says(turn_json(turn), "role"@, Json::Str(turn.role)),
        says(turn_json(turn), "parts"@, Json::Array(parts_json(turn.parts))),
        parts_json(turn.parts).len() == turn.parts.len(),
        forall|i: int|
            0 <= i < turn.parts.len() ==> #[trigger] parts_json(turn.parts)[i] == part_json(
                turn.parts[i],
            ),
{
    lemma_parts_json(turn.parts);
}

proof fn lemma_parts_json(parts: Seq<Part>)
    ensures
        parts_json(parts).len() == parts.len(),
        forall|i: int|
            0 <= i < parts.len() ==> #[trigger] parts_json(parts)[i] == part_json(parts[i]),
    decreases parts.len(),
{
    if parts.len() > 0 {
        lemma_parts_json(parts.drop_last());
        assert forall|i: int| 0 <= i < parts.len() implies #[trigger] parts_json(parts)[i]
            == part_json(parts[i]) by {
            if i < parts.len() - 1 {
                assert(parts_json(parts)[i] == parts_json(parts.drop_last())[i]);
            }
        }
    }
}

/// A tool is declared under its name, with its description and its schema.
pub proof fn law_tool_is_declared(tools: Seq<Tool>, use_parameters: bool, i: int)
    requires
        0 <= i < tools.len(),
    ensures
        declarations(tools, use_parameters).len() == tools.len(),
        ({
            let sent = declarations(tools, use_parameters)[i];
            &&& says(sent, "name"@, Json::Str(tools[i].name@))
            &&& says(sent, "description"@, Json::Str(tools[i].description@))
            &&& !use_parameters ==> says(
                sent,
                "parametersJsonSchema"@,
                tools[i].parameters.value@,
            )
        }),
        tools_json(tools, use_parameters) matches Some(Json::Array(list)) && list.len() == 1
            && says(
            list[0],
            "functionDeclarations"@,
            Json::Array(declarations(tools, use_parameters)),
        ),
{
}

/// A signature that may go back is base64: letters, digits, plus signs and slashes
/// in groups of four characters, where the last group may end in one or two equals
/// signs. So a text of letters and digits is one if and only if it is not empty and
/// made of whole groups, and an equals sign further in spoils it.
pub proof fn law_signatures_are_base64(s: Seq<char>)
    ensures
        is_base64(s) ==> s.len() % 4 == 0 && s.len() > 0,
        (forall|i: int| 0 <= i < s.len() ==> is_alnum(#[trigger] s[i])) ==> (is_base64(s)
            <==> s.len() > 0 && s.len() % 4 == 0),
        forall|i: int| 0 <= i < s.len() - 2 && #[trigger] s[i] == '=' ==> !is_base64(s),
        is_base64(s) && s[s.len() - 2] == '=' ==> s[s.len() - 1] == '=',
{
}

} // verus!
