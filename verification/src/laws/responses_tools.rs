//! The ids of the calls of a Responses conversation, the tools that it loads, and
//! what it shows of images.
use vstd::prelude::*;
use crate::api::blocks::safe_id;
use crate::api::openai_completions::messages::block_texts;
use crate::api::openai_responses_shared::convert::{
    call_id_of, fallback_id, id_part, image_parts, loading_items, message_id, tool_item, tool_list,
    tools_loaded, Conversion, ConvertResponsesToolsOptions,
};
use crate::api::openai_responses_shared::items::{Item, Part, ToolItem};
use crate::json::{get, Json};
use crate::laws::texts::law_pair_comes_apart;
use crate::laws::wire::{group_wire, says};
use crate::number::whole;
use crate::text::{decimal, is_alnum, joined};
use crate::types::{AssistantMessage, Content, ImageContent, Model, TextContent, Tool};

verus! {

broadcast use group_wire;

/// Whether a text can be sent as a part of an id as it is.
pub open spec fn is_plain(s: Seq<char>) -> bool {
    &&& 0 < s.len() <= 64
    &&& s.last() != '_'
    &&& forall|i: int| 0 <= i < s.len() ==> is_alnum(#[trigger] s[i]) || s[i] == '_' || s[i] == '-'
}

/// An id that can be sent as it is, is: the id of a call that another call of the
/// same place made stays what it was, and so does one that has no second part.
pub proof fn law_plain_ids_stay(
    call_id: Seq<char>,
    item_id: Seq<char>,
    model: Model,
    source: AssistantMessage,
    allowed: Seq<Seq<char>>,
)
    requires
        is_plain(call_id),
        is_plain(item_id),
        "fc_"@.is_prefix_of(item_id),
    ensures
        id_part(call_id) == call_id,
        allowed.contains(model.provider@) && source.provider@ == model.provider@ && source.api@
            == model.api@ ==> call_id_of(
            call_id.push('|') + item_id,
            model,
            source,
            allowed,
        ) == call_id.push('|') + item_id,
        call_id_of(call_id, model, source, allowed) == call_id,
        allowed.contains(model.provider@) && (source.provider@ != model.provider@ || source.api@
            != model.api@) ==> (call_id + "|"@).is_prefix_of(
            call_id_of(call_id.push('|') + item_id, model, source, allowed),
        ),
{
    reveal_strlit("|");
    lemma_plain(call_id);
    lemma_plain(item_id);
    lemma_no_bar(call_id);
    law_pair_comes_apart(call_id, '|', item_id);
    law_pair_comes_apart(call_id, '|', Seq::empty());
    assert(call_id + "|"@ =~= call_id.push('|'));
    assert(call_id + "|"@ + item_id =~= call_id.push('|') + item_id);
    let foreign = crate::api::openai_responses_shared::convert::item_id_of(item_id, true);
    assert((call_id + "|"@ + foreign).take((call_id + "|"@).len() as int) =~= call_id + "|"@);
    assert((call_id + "|"@).is_prefix_of(call_id + "|"@ + foreign));
}

proof fn lemma_plain(s: Seq<char>)
    requires
        is_plain(s),
    ensures
        id_part(s) == s,
{
    assert(safe_id(s) =~= s);
}

proof fn lemma_no_bar(s: Seq<char>)
    requires
        is_plain(s),
    ensures
        !s.contains('|'),
{
    if s.contains('|') {
        let i = choose|i: int| 0 <= i < s.len() && s[i] == '|';
        assert(is_alnum(s[i]) || s[i] == '_' || s[i] == '-');
    }
}

/// A message goes back under the id that it came with, unless that is empty or too
/// long; without one it gets a number of its own.
pub proof fn law_message_ids(id: Seq<char>, phase: Option<Seq<char>>, fallback: Seq<char>, n: nat)
    ensures
        0 < id.len() <= 64 ==> message_id(Some((id, phase)), fallback) == id,
        message_id(Some((Seq::empty(), phase)), fallback) == fallback,
        message_id(None, fallback) == fallback,
        id.len() > 64 ==> "msg_"@.is_prefix_of(message_id(Some((id, phase)), fallback)),
        fallback_id(n, 0) == "msg_pi_"@ + decimal(n),
        fallback_id(n, 1) == "msg_pi_"@ + decimal(n) + "_"@ + decimal(1),
{
    let made = "msg_"@ + crate::hash::hash_of(id);
    assert(made.take("msg_"@.len() as int) =~= "msg_"@);
    assert("msg_"@.is_prefix_of(made));
}

/// The texts and the images of a message are those of its blocks, in order.
pub proof fn law_blocks_are_sorted(content: Seq<Content>, text: TextContent, image: ImageContent)
    ensures
        block_texts(Seq::empty()).len() == 0,
        image_parts(Seq::empty()).len() == 0,
        block_texts(content.push(Content::Text(text))) == block_texts(content).push(text.text@),
        block_texts(content.push(Content::Image(image))) == block_texts(content),
        image_parts(content.push(Content::Text(text))) == image_parts(content),
        image_parts(content.push(Content::Image(image))) == image_parts(content).push(
            Part::Image {
                detail: "auto"@,
                image_url: "data:"@ + image.mime_type@ + ";base64,"@ + image.data@,
            },
        ),
{
    assert(content.push(Content::Text(text)).drop_last() =~= content);
    assert(content.push(Content::Image(image)).drop_last() =~= content);
}

/// The names that a result adds load the tools that are deferred under them, each
/// once and in order; a name that is known already, or stands for no tool, loads
/// nothing.
pub proof fn law_tools_are_loaded_once(
    names: Seq<Seq<char>>,
    name: Seq<char>,
    deferred: Seq<(Seq<char>, Tool)>,
    loaded: Seq<Seq<char>>,
)
    ensures
        tools_loaded(Seq::empty(), deferred, loaded) == (Seq::<Tool>::empty(), loaded),
        ({
            let (tools, known) = tools_loaded(names, deferred, loaded);
            let (more, after) = tools_loaded(names.push(name), deferred, loaded);
            &&& get(deferred, name) is None ==> more == tools && after == known
            &&& known.contains(name) ==> more == tools && after == known
            &&& get(deferred, name) matches Some(tool) ==> !known.contains(name) ==> more
                == tools.push(tool) && after == known.push(name)
        }),
{
    assert(names.push(name).drop_last() =~= names);
}

/// Tools are loaded in the way that the endpoint takes: as further tools, or as the
/// answer to a search that names them; an endpoint that takes neither is sent
/// nothing.
pub proof fn law_loading(tools: Seq<Tool>, id: Seq<char>, c: Conversion)
    ensures
        loading_items(Seq::empty(), id, c).len() == 0,
        c.mode is None ==> loading_items(tools, id, c).len() == 0,
        tools.len() > 0 && c.mode == Some("additional-tools"@) ==> loading_items(tools, id, c)
            =~= seq![Item::AdditionalTools { tools: tool_list(tools, c.tool_options) }],
        tools.len() > 0 && c.mode == Some("tool-search"@) ==> {
            let sent = loading_items(tools, id, c);
            &&& sent.len() == 2
            &&& sent[0] matches Item::ToolSearchCall { call_id: asked, arguments } && says(
                arguments,
                "query"@,
                Json::Str(
                    joined(Seq::new(tools.len(), |i: int| tools[i].name@), " "@),
                ),
            ) && says(arguments, "limit"@, Json::Number(whole(tools.len() as int))) && (
            sent[1] matches Item::ToolSearchOutput { call_id: answered, tools: list } && answered
                == asked && list.len() == tools.len())
        },
{
    reveal_strlit("additional-tools");
    reveal_strlit("tool-search");
    assert("additional-tools"@.len() == 16 && "tool-search"@.len() == 11);
    assert(crate::api::openai_responses_shared::convert::tool_names(tools) =~= Seq::new(
        tools.len(),
        |i: int| tools[i].name@,
    ));
}

/// A tool is offered under its name, with its description and its parameters, and
/// as a custom tool only where a grammar constrains it.
pub proof fn law_tool_items(tool: Tool, o: ConvertResponsesToolsOptions)
    ensures
        o.supports_openai_grammar_tools is None ==> (tool_item(tool, o) matches ToolItem::Function {
            name,
            description,
            parameters,
            strict,
            defer_loading,
        } && name == tool.name@ && description == tool.description@ && parameters
            == tool.parameters.value@ && defer_loading == o.defer_loading && (
        o.supports_strict_mode == Some(false) ==> strict is None) && (o.supports_strict_mode
            is None && tool.constrained_sampling is None ==> strict == Some(
            o.strict == Some(true),
        ))),
        tool_item(tool, o) matches ToolItem::Custom { name, description, defer_loading, .. }
            ==> name == tool.name@ && description == tool.description@ && defer_loading
            == o.defer_loading,
{
}

} // verus!
