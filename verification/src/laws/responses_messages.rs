//! What the Responses interfaces are told of a conversation.
use vstd::prelude::*;
use crate::api::openai_completions::messages::{added_names, block_texts, takes_images};
use crate::api::openai_responses_shared::convert::{
    assistant_items, call_item, converted_items, image_parts, message_converted, messages_converted,
    result_item, tool_list, tool_output, user_parts, Conversion, Converted,
    ConvertResponsesToolsOptions,
};
use crate::api::openai_responses_shared::items::{
    item_json, output_json, part_json, parts_json, tool_item_json, Item, Part, ToolItem, ToolOutput,
};
use crate::api::openai_responses_shared::parsed_signature;
use crate::json::{get, has_key, json_text, Json};
use crate::laws::texts::law_pair_comes_apart;
use crate::laws::wire::{group_wire, says};
use crate::text::{joined, opt_text};
use crate::types::{
    AssistantMessage, Content, Context, ImageContent, Message, TextContent, ThinkingContent, Tool,
    ToolCall, ToolResultMessage, UserMessageContent,
};

verus! {

broadcast use group_wire;

/// A call that came as `call|item` goes back as the call id `call`, with the item id
/// `item` where that is one of a function call, under its name and with its
/// arguments as JSON text; a call of a grammar tool goes back with its input.
pub proof fn law_call_goes_back(
    content: Seq<Content>,
    call: ToolCall,
    call_id: Seq<char>,
    item_id: Seq<char>,
    a: AssistantMessage,
    message: nat,
    c: Conversion,
)
    requires
        !call_id.contains('|'),
        call.id@ == call_id.push('|') + item_id,
    ensures
        ({
            let before = assistant_items(content, a, message, c);
            let after = assistant_items(content.push(Content::ToolCall(call)), a, message, c);
            let same_place = a.provider@ == c.model.provider@ && a.api@ == c.model.api@;
            &&& after.len() == before.len() + 1
            &&& after.drop_last() == before
            &&& !has_key(c.properties, call.name@) ==> (after.last() matches Item::FunctionCall {
                id,
                call_id: told,
                name,
                arguments,
                namespace,
            } && told == call_id && name == call.name@ && arguments == json_text(call.arguments@)
                && ("fc_"@.is_prefix_of(item_id) && !(same_place && a.model@ != c.model.id@)
                ==> id == Some(item_id)) && (!"fc_"@.is_prefix_of(item_id) ==> id is None) && (
            same_place && a.model@ == c.model.id@ ==> namespace == opt_text(call.namespace)))
            &&& get(c.properties, call.name@) matches Some(property) ==> (after.last() matches
                Item::CustomToolCall { id, call_id: told, name, input, namespace } && told
                == call_id && name == call.name@ && (call.arguments@ matches Json::Object(e) ==> (
            get(e, property) matches Some(Json::Str(said)) ==> input == said)))
        }),
{
    law_pair_comes_apart(call_id, '|', item_id);
    let all = content.push(Content::ToolCall(call));
    assert(all.drop_last() =~= content);
    assert(assistant_items(all, a, message, c).drop_last() =~= assistant_items(
        content,
        a,
        message,
        c,
    ));
}

/// The result of a call goes back under the call id that the call goes back under.
pub proof fn law_result_finds_its_call(
    call: ToolCall,
    result: ToolResultMessage,
    a: AssistantMessage,
    c: Conversion,
)
    requires
        result.tool_call_id@ == call.id@,
        result.tool_name@ == call.name@,
    ensures
        call_item(call, a, c) matches Item::FunctionCall { call_id, .. } ==> (result_item(
            result,
            c,
        ) matches Item::FunctionCallOutput { call_id: told, output } && told == call_id && output
            == tool_output(c.model, result.content@)),
        call_item(call, a, c) matches Item::CustomToolCall { call_id, .. } ==> (result_item(
            result,
            c,
        ) matches Item::CustomToolCallOutput { call_id: told, output } && told == call_id && output
            == tool_output(c.model, result.content@)),
        !call.id@.contains('|') ==> (call_item(call, a, c) matches Item::FunctionCall {
            call_id,
            ..
        } ==> call_id == call.id@),
{
}

/// A tool result says its texts one per line, or a note where it has none, and
/// shows its images behind them where the model takes images.
pub proof fn law_result_says_its_output(result: ToolResultMessage, c: Conversion)
    ensures
        ({
            let texts = block_texts(result.content@);
            let images = image_parts(result.content@);
            let output = tool_output(c.model, result.content@);
            &&& images.len() == 0 && texts.len() > 0 ==> output == ToolOutput::Text(
                joined(texts, "\n"@),
            )
            &&& images.len() == 0 && texts.len() == 0 ==> output == ToolOutput::Text(
                "(no tool output)"@,
            )
            &&& images.len() > 0 && !takes_images(c.model) && texts.len() > 0 ==> output
                == ToolOutput::Text(joined(texts, "\n"@))
            &&& images.len() > 0 && !takes_images(c.model) && texts.len() == 0 ==> output
                == ToolOutput::Text("(see attached image)"@)
            &&& images.len() > 0 && takes_images(c.model) && texts.len() > 0 ==> (output matches
                ToolOutput::Blocks(list) && list.len() == images.len() + 1 && list[0] == Part::Text(
                joined(texts, "\n"@),
            ) && list.skip(1) == images)
            &&& images.len() > 0 && takes_images(c.model) && texts.len() == 0 ==> output
                == ToolOutput::Blocks(images)
        }),
{
    let texts = block_texts(result.content@);
    let images = image_parts(result.content@);
    let list = Seq::<Part>::empty().push(Part::Text(joined(texts, "\n"@))) + images;
    assert(list.skip(1) =~= images);
}

/// A text of an assistant goes back as a message that says it, under the id and in
/// the phase that its signature holds.
pub proof fn law_text_goes_back(
    content: Seq<Content>,
    text: TextContent,
    a: AssistantMessage,
    message: nat,
    c: Conversion,
)
    ensures
        ({
            let before = assistant_items(content, a, message, c);
            let after = assistant_items(content.push(Content::Text(text)), a, message, c);
            let signature = parsed_signature(opt_text(text.text_signature), c.parse);
            &&& after.len() == before.len() + 1
            &&& after.drop_last() == before
            &&& after.last() matches Item::AssistantMessage { id, content: said, phase } && {
                &&& said == seq![text.text@]
                &&& signature matches Some((own, told)) ==> phase == told && (0 < own.len() <= 64
                    ==> id == own)
                &&& signature is None ==> phase is None && "msg_pi_"@.is_prefix_of(id)
            }
        }),
{
    let all = content.push(Content::Text(text));
    assert(all.drop_last() =~= content);
    let after = assistant_items(all, a, message, c);
    assert(after.drop_last() =~= assistant_items(content, a, message, c));
    let said = Seq::<Seq<char>>::empty().push(text.text@);
    assert(said =~= seq![text.text@]);
}

/// Reasoning goes back as the item that its signature holds, and not at all where
/// it has no signature that can be read.
pub proof fn law_reasoning_goes_back(
    content: Seq<Content>,
    thinking: ThinkingContent,
    a: AssistantMessage,
    message: nat,
    c: Conversion,
)
    ensures
        ({
            let before = assistant_items(content, a, message, c);
            let after = assistant_items(content.push(Content::Thinking(thinking)), a, message, c);
            &&& thinking.thinking_signature is None ==> after == before
            &&& thinking.thinking_signature matches Some(signature) ==> {
                &&& (c.parse)(signature@) is None ==> after == before
                &&& (c.parse)(signature@) matches Some(item) ==> after == before.push(
                    Item::Reasoning(item),
                )
            }
        }),
{
    assert(content.push(Content::Thinking(thinking)).drop_last() =~= content);
}

/// What a user says and shows stays in order; a text is sent as it is, and an image
/// in its own address.
pub proof fn law_user_content_is_sent(content: Seq<Content>, text: TextContent, image: ImageContent)
    ensures
        user_parts(content.push(Content::Text(text))) == user_parts(content).push(
            Part::Text(text.text@),
        ),
        user_parts(content.push(Content::Image(image))) == user_parts(content).push(
            Part::Image {
                detail: "auto"@,
                image_url: "data:"@ + image.mime_type@ + ";base64,"@ + image.data@,
            },
        ),
        image_parts(content.push(Content::Image(image))) == image_parts(content).push(
            Part::Image {
                detail: "auto"@,
                image_url: "data:"@ + image.mime_type@ + ";base64,"@ + image.data@,
            },
        ),
        image_parts(content.push(Content::Text(text))) == image_parts(content),
        user_parts(Seq::empty()).len() == 0,
        image_parts(Seq::empty()).len() == 0,
{
    assert(content.push(Content::Text(text)).drop_last() =~= content);
    assert(content.push(Content::Image(image)).drop_last() =~= content);
}

/// Each message adds its items behind those before it: a user one item with what
/// it says, an assistant its items, a tool its result.
pub proof fn law_items_follow_each_other(s: Converted, message: Message, c: Conversion)
    ensures
        ({
            let after = message_converted(s, message, c).items;
            &&& s.items.is_prefix_of(after)
            &&& message matches Message::User(user) ==> {
                match user.content {
                    UserMessageContent::Text(text) => after.len() == s.items.len() + 1
                        && after.last() == (Item::User { content: seq![Part::Text(text@)] }),
                    UserMessageContent::Blocks(blocks) => if user_parts(blocks@).len() == 0 {
                        after == s.items
                    } else {
                        after == s.items.push(Item::User { content: user_parts(blocks@) })
                    },
                }
            }
            &&& message matches Message::Assistant(a) ==> after == s.items + assistant_items(
                a.content@,
                a,
                s.message,
                c,
            )
            &&& message matches Message::ToolResult(result) ==> after.len() > s.items.len()
                && after[s.items.len() as int] == result_item(result, c) && (added_names(
                result,
            ).len() == 0 ==> after.len() == s.items.len() + 1)
        }),
{
    let after = message_converted(s, message, c).items;
    assert(after.take(s.items.len() as int) =~= s.items);
    assert(s.items.is_prefix_of(after));
    match message {
        Message::User(user) => {
            if let UserMessageContent::Text(text) = user.content {
                assert(Seq::<Part>::empty().push(Part::Text(text@)) =~= seq![Part::Text(text@)]);
            }
        },
        Message::Assistant(a) => {
            let items = assistant_items(a.content@, a, s.message, c);
            if items.len() == 0 {
                assert(s.items + items =~= s.items);
            }
        },
        _ => {},
    }
}

/// A prompt is sent first where it is to be sent, in the role that the model
/// knows.
pub proof fn law_prompt_comes_first(context: Context, messages: Seq<Message>, c: Conversion)
    requires
        context.system_prompt is Some,
    ensures
        ({
            let sent = converted_items(context, messages, true, c);
            &&& sent.len() > 0
            &&& sent[0] matches Item::Developer { role, content } && content == seq![
                context.system_prompt->0@,
            ] && (!c.model.reasoning ==> role == "system"@) && (role == "system"@ || role
                == "developer"@)
            &&& converted_items(context, Seq::empty(), false, c).len() == 0
        }),
{
    let start = Converted {
        items: crate::api::openai_responses_shared::convert::prompt_items(c.model, context, true),
        message: 0,
        loaded: Seq::empty(),
    };
    lemma_items_grow(start, messages, c);
    let sent = converted_items(context, messages, true, c);
    assert(start.items.len() == 1);
    assert(sent[0] == start.items[0]);
    let said = Seq::<Seq<char>>::empty().push(context.system_prompt->0@);
    assert(said =~= seq![context.system_prompt->0@]);
}

proof fn lemma_items_grow(s: Converted, messages: Seq<Message>, c: Conversion)
    ensures
        s.items.len() <= messages_converted(s, messages, c).items.len(),
        forall|i: int|
            0 <= i < s.items.len() ==> #[trigger] messages_converted(s, messages, c).items[i]
                == s.items[i],
    decreases messages.len(),
{
    if messages.len() > 0 {
        lemma_items_grow(s, messages.drop_last(), c);
        let before = messages_converted(s, messages.drop_last(), c);
        law_items_follow_each_other(before, messages.last(), c);
    }
}

/// An item says on the wire what it holds.
pub proof fn law_item_on_the_wire(item: Item)
    ensures
        match item {
            Item::Developer { role, content } => says(item_json(item), "role"@, Json::Str(role)),
            Item::User { content } => says(item_json(item), "role"@, Json::Str("user"@)) && says(
                item_json(item),
                "content"@,
                parts_json(content),
            ),
            Item::AssistantMessage { id, content, phase } => {
                &&& says(item_json(item), "type"@, Json::Str("message"@))
                &&& says(item_json(item), "role"@, Json::Str("assistant"@))
                &&& says(item_json(item), "id"@, Json::Str(id))
                &&& phase is Some ==> says(item_json(item), "phase"@, Json::Str(phase->0))
                &&& exists|list: Seq<Json>|
                    #![trigger says(item_json(item), "content"@, Json::Array(list))]
                    says(item_json(item), "content"@, Json::Array(list)) && list.len()
                        == content.len() && forall|i: int|
                        0 <= i < list.len() ==> says(
                            #[trigger] list[i],
                            "text"@,
                            Json::Str(content[i]),
                        ) && says(list[i], "type"@, Json::Str("output_text"@))
            },
            Item::Reasoning(raw) => item_json(item) == raw,
            Item::FunctionCall { id, call_id, name, arguments, namespace } => {
                &&& says(item_json(item), "type"@, Json::Str("function_call"@))
                &&& says(item_json(item), "call_id"@, Json::Str(call_id))
                &&& says(item_json(item), "name"@, Json::Str(name))
                &&& says(item_json(item), "arguments"@, Json::Str(arguments))
                &&& id is Some ==> says(item_json(item), "id"@, Json::Str(id->0))
                &&& namespace is Some ==> says(
                    item_json(item),
                    "namespace"@,
                    Json::Str(namespace->0),
                )
            },
            Item::CustomToolCall { id, call_id, name, input, namespace } => {
                &&& says(item_json(item), "type"@, Json::Str("custom_tool_call"@))
                &&& says(item_json(item), "call_id"@, Json::Str(call_id))
                &&& says(item_json(item), "name"@, Json::Str(name))
                &&& says(item_json(item), "input"@, Json::Str(input))
                &&& id is Some ==> says(item_json(item), "id"@, Json::Str(id->0))
                &&& namespace is Some ==> says(
                    item_json(item),
                    "namespace"@,
                    Json::Str(namespace->0),
                )
            },
            Item::FunctionCallOutput { call_id, output } => {
                &&& says(item_json(item), "type"@, Json::Str("function_call_output"@))
                &&& says(item_json(item), "call_id"@, Json::Str(call_id))
                &&& says(item_json(item), "output"@, output_json(output))
            },
            Item::CustomToolCallOutput { call_id, output } => {
                &&& says(item_json(item), "type"@, Json::Str("custom_tool_call_output"@))
                &&& says(item_json(item), "call_id"@, Json::Str(call_id))
                &&& says(item_json(item), "output"@, output_json(output))
            },
            Item::AdditionalTools { tools } => {
                &&& says(item_json(item), "type"@, Json::Str("additional_tools"@))
                &&& says(item_json(item), "role"@, Json::Str("developer"@))
            },
            Item::ToolSearchCall { call_id, arguments } => {
                &&& says(item_json(item), "type"@, Json::Str("tool_search_call"@))
                &&& says(item_json(item), "call_id"@, Json::Str(call_id))
                &&& says(item_json(item), "arguments"@, arguments)
                &&& says(item_json(item), "execution"@, Json::Str("client"@))
                &&& says(item_json(item), "status"@, Json::Str("completed"@))
            },
            Item::ToolSearchOutput { call_id, tools } => {
                &&& says(item_json(item), "type"@, Json::Str("tool_search_output"@))
                &&& says(item_json(item), "call_id"@, Json::Str(call_id))
            },
        },
{
    if let Item::AssistantMessage { content, .. } = item {
        let e = item_json(item)->Object_0;
        let list = e[2].1->Array_0;
        assert(says(item_json(item), "content"@, Json::Array(list)));
        assert forall|i: int| 0 <= i < list.len() implies says(
            #[trigger] list[i],
            "text"@,
            Json::Str(content[i]),
        ) && says(list[i], "type"@, Json::Str("output_text"@)) by {
            let b = list[i]->Object_0;
            assert(b[0] == ("type"@, Json::Str("output_text"@)));
            assert(b[1] == ("text"@, Json::Str(content[i])));
        }
    }
}

/// A part of a message says on the wire what it holds, and an output that is a text
/// is that text.
pub proof fn law_part_on_the_wire(part: Part, text: Seq<char>, list: Seq<Part>, i: int)
    requires
        0 <= i < list.len(),
    ensures
        part matches Part::Text(said) ==> says(part_json(part), "type"@, Json::Str("input_text"@))
            && says(part_json(part), "text"@, Json::Str(said)),
        part matches Part::Image { detail, image_url } ==> says(
            part_json(part),
            "type"@,
            Json::Str("input_image"@),
        ) && says(part_json(part), "image_url"@, Json::Str(image_url)) && says(
            part_json(part),
            "detail"@,
            Json::Str(detail),
        ),
        output_json(ToolOutput::Text(text)) == Json::Str(text),
        output_json(ToolOutput::Blocks(list)) matches Json::Array(sent) && sent.len() == list.len()
            && sent[i] == part_json(list[i]),
        parts_json(list) matches Json::Array(sent) && sent.len() == list.len() && sent[i]
            == part_json(list[i]),
{
}

/// A tool is offered under its name, with its description and its schema, or with
/// its grammar.
pub proof fn law_tool_is_offered(
    tools: Seq<Tool>,
    o: Option<ConvertResponsesToolsOptions>,
    i: int,
)
    requires
        0 <= i < tools.len(),
    ensures
        tool_list(tools, o).len() == tools.len(),
        match tool_list(tools, o)[i] {
            ToolItem::Function { name, description, parameters, .. } => name == tools[i].name@
                && description == tools[i].description@ && parameters
                == tools[i].parameters.value@,
            ToolItem::Custom { name, description, .. } => name == tools[i].name@ && description
                == tools[i].description@,
        },
        says(tool_item_json(tool_list(tools, o)[i]), "name"@, Json::Str(tools[i].name@)),
        says(
            tool_item_json(tool_list(tools, o)[i]),
            "description"@,
            Json::Str(tools[i].description@),
        ),
        tool_list(tools, o)[i] is Function ==> says(
            tool_item_json(tool_list(tools, o)[i]),
            "parameters"@,
            tools[i].parameters.value@,
        ) && says(tool_item_json(tool_list(tools, o)[i]), "type"@, Json::Str("function"@)),
        tool_list(tools, o)[i] is Custom ==> says(
            tool_item_json(tool_list(tools, o)[i]),
            "type"@,
            Json::Str("custom"@),
        ),
{
}

} // verus!
