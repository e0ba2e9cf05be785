//! How the events of a Responses stream are read, and what the input of a custom
//! tool becomes.
use vstd::prelude::*;
use crate::api::openai_stream::{
    parsed_event, parsed_item, parsed_items, parsed_response, reasoning_backfilled, step,
    summary_parts, text_parts, CustomInput, OutputItem, Progress, ReasoningItem, Slot, WireEvent,
};
use crate::api::constrained_sampling::{append_step, JsonBuffer};
use crate::json::{
    array_at, get, has_key, json_text, lemma_with_entry, object_at, one_entry, str_at, Entries,
    Json,
};
use crate::laws::anthropic_events::count;
use crate::laws::completions_stream::field;
use crate::number::{index_value, Number};
use crate::types::{Block, Event, Reply, ToolCallBlock};

verus! {

proof fn lemma_kinds()
    ensures
        "response.created"@.len() == 16,
        "response.output_item.added"@.len() == 26 && "response.output_item.added"@[16] == 'i',
        "response.reasoning_summary_text.delta"@.len() == 37
            && "response.reasoning_summary_text.delta"@[9] == 'r',
        "response.reasoning_summary_part.done"@.len() == 36
            && "response.reasoning_summary_part.done"@[9] == 'r',
        "response.reasoning_text.delta"@.len() == 29,
        "response.output_text.delta"@.len() == 26 && "response.output_text.delta"@[16] == 't',
        "response.refusal.delta"@.len() == 22,
        "response.function_call_arguments.delta"@.len() == 38,
        "response.function_call_arguments.done"@.len() == 37
            && "response.function_call_arguments.done"@[9] == 'f',
        "response.custom_tool_call_input.delta"@.len() == 37
            && "response.custom_tool_call_input.delta"@[9] == 'c',
        "response.custom_tool_call_input.done"@.len() == 36
            && "response.custom_tool_call_input.done"@[9] == 'c',
        "response.output_item.done"@.len() == 25,
        "response.completed"@.len() == 18,
        "response.incomplete"@.len() == 19,
        "response.failed"@.len() == 15,
        "error"@.len() == 5,
{
    reveal_strlit("response.created");
    reveal_strlit("response.output_item.added");
    reveal_strlit("response.reasoning_summary_text.delta");
    reveal_strlit("response.reasoning_summary_part.done");
    reveal_strlit("response.reasoning_text.delta");
    reveal_strlit("response.output_text.delta");
    reveal_strlit("response.refusal.delta");
    reveal_strlit("response.function_call_arguments.delta");
    reveal_strlit("response.function_call_arguments.done");
    reveal_strlit("response.custom_tool_call_input.delta");
    reveal_strlit("response.custom_tool_call_input.done");
    reveal_strlit("response.output_item.done");
    reveal_strlit("response.completed");
    reveal_strlit("response.incomplete");
    reveal_strlit("response.failed");
    reveal_strlit("error");
}

/// The events that carry a part of an item are read with the index of the item and
/// with the part as it is.
pub proof fn law_parts_are_read(e: Entries)
    ensures
        ({
            let kind = str_at(e, "type"@);
            let read = parsed_event(Json::Object(e));
            let at = count(e, "output_index"@);
            let delta = field(e, "delta"@);
            &&& kind == Some("response.reasoning_summary_text.delta"@) ==> read == Some(
                WireEvent::SummaryDelta(at, delta),
            )
            &&& kind == Some("response.reasoning_summary_part.done"@) ==> read == Some(
                WireEvent::SummaryPartDone(at),
            )
            &&& kind == Some("response.reasoning_text.delta"@) ==> read == Some(
                WireEvent::ReasoningDelta(at, delta),
            )
            &&& kind == Some("response.output_text.delta"@) ==> read == Some(
                WireEvent::TextDelta(at, delta),
            )
            &&& kind == Some("response.refusal.delta"@) ==> read == Some(
                WireEvent::RefusalDelta(at, delta),
            )
            &&& kind == Some("response.function_call_arguments.delta"@) ==> read == Some(
                WireEvent::ArgumentsDelta(at, delta),
            )
            &&& kind == Some("response.function_call_arguments.done"@) ==> read == Some(
                WireEvent::ArgumentsDone(at, field(e, "arguments"@)),
            )
            &&& kind == Some("response.custom_tool_call_input.delta"@) ==> read == Some(
                WireEvent::InputDelta(at, delta),
            )
            &&& kind == Some("response.custom_tool_call_input.done"@) ==> read == Some(
                WireEvent::InputDone(at, field(e, "input"@)),
            )
            &&& kind is None ==> read is None
        }),
{
    lemma_kinds();
}

/// The events that carry an item or a response are read with it.
pub proof fn law_items_and_responses_are_read(
    e: Entries,
    item: Entries,
    parsed: OutputItem,
    response: Entries,
)
    requires
        object_at(e, "item"@) == Some(item),
        parsed_item(item) == Some(parsed),
        object_at(e, "response"@) == Some(response),
    ensures
        ({
            let kind = str_at(e, "type"@);
            let read = parsed_event(Json::Object(e));
            let at = count(e, "output_index"@);
            let told = parsed_response(response);
            &&& kind == Some("response.output_item.added"@) ==> read == Some(
                WireEvent::ItemAdded(at, parsed),
            )
            &&& kind == Some("response.output_item.done"@) ==> read == Some(
                WireEvent::ItemDone(at, parsed),
            )
            &&& kind == Some("response.created"@) ==> read == Some(WireEvent::Created(told))
            &&& kind == Some("response.completed"@) ==> read == Some(WireEvent::Completed(told))
            &&& kind == Some("response.incomplete"@) ==> read == Some(WireEvent::Incomplete(told))
            &&& kind == Some("response.failed"@) ==> read == Some(WireEvent::Failed(told))
            &&& kind == Some("error"@) ==> read == Some(
                WireEvent::Broken(str_at(e, "code"@), str_at(e, "message"@)),
            )
        }),
{
    lemma_kinds();
}

/// An item is read with what it says: its id, its texts, and for a call the id, the
/// name and the input of the call.
pub proof fn law_items_are_read(e: Entries)
    ensures
        ({
            let kind = str_at(e, "type"@);
            let read = parsed_item(e);
            &&& kind == Some("reasoning"@) ==> (read matches Some(OutputItem::Reasoning(item))
                && item.id == str_at(e, "id"@) && item.encrypted_content == str_at(
                e,
                "encrypted_content"@,
            ) && item.raw == Json::Object(e) && (array_at(e, "summary"@) matches Some(list)
                ==> item.summary == summary_parts(list)) && (array_at(e, "content"@) matches Some(
                list,
            ) ==> item.content == summary_parts(list)) && (array_at(e, "summary"@) is None
                ==> item.summary.len() == 0) && (array_at(e, "content"@) is None
                ==> item.content.len() == 0))
            &&& kind == Some("message"@) ==> (read matches Some(OutputItem::Message(item))
                && item.id == str_at(e, "id"@) && item.phase == str_at(e, "phase"@) && (array_at(
                e,
                "content"@,
            ) matches Some(list) ==> item.content == text_parts(list)) && (array_at(
                e,
                "content"@,
            ) is None ==> item.content.len() == 0))
            &&& kind == Some("function_call"@) ==> (read matches Some(
                OutputItem::FunctionCall(call),
            ) && call.id == str_at(e, "id"@) && call.call_id == field(e, "call_id"@) && call.name
                == field(e, "name"@) && call.input == field(e, "arguments"@) && call.namespace
                == str_at(e, "namespace"@))
            &&& kind == Some("custom_tool_call"@) ==> (read matches Some(
                OutputItem::CustomToolCall(call),
            ) && call.id == str_at(e, "id"@) && call.call_id == field(e, "call_id"@) && call.name
                == field(e, "name"@) && call.input == field(e, "input"@) && call.namespace
                == str_at(e, "namespace"@))
            &&& kind is None ==> read is None
        }),
{
    reveal_strlit("reasoning");
    reveal_strlit("message");
    reveal_strlit("function_call");
    reveal_strlit("custom_tool_call");
    assert("reasoning"@.len() == 9 && "message"@.len() == 7 && "function_call"@.len() == 13
        && "custom_tool_call"@.len() == 16);
}

/// A response is read with what it says.
pub proof fn law_responses_are_read(e: Entries)
    ensures
        ({
            let r = parsed_response(e);
            &&& r.id == str_at(e, "id"@)
            &&& r.status == str_at(e, "status"@)
            &&& r.service_tier == str_at(e, "service_tier"@)
            &&& r.usage is Some <==> object_at(e, "usage"@) is Some
            &&& array_at(e, "output"@) matches Some(list) ==> r.output == parsed_items(list)
            &&& array_at(e, "output"@) is None ==> r.output.len() == 0
            &&& r.error is Some <==> object_at(e, "error"@) is Some
            &&& object_at(e, "error"@) matches Some(error) ==> r.error == Some(
                (field(error, "code"@), field(error, "message"@)),
            )
            &&& object_at(e, "incomplete_details"@) matches Some(details) ==> {
                &&& field(details, "reason"@).len() > 0 ==> r.incomplete_reason == Some(
                    field(details, "reason"@),
                )
                &&& field(details, "reason"@).len() == 0 ==> r.incomplete_reason is None
            }
            &&& object_at(e, "incomplete_details"@) is None ==> r.incomplete_reason is None
        }),
{
}

/// Lists of parts and of items are read in order: a list is read as its two halves
/// are, one after the other, and one part is read with what it says.
pub proof fn law_lists_are_read_in_order(a: Seq<Json>, b: Seq<Json>, e: Entries)
    ensures
        text_parts(a + b) == text_parts(a) + text_parts(b),
        summary_parts(a + b) == summary_parts(a) + summary_parts(b),
        parsed_items(a + b) == parsed_items(a) + parsed_items(b),
        text_parts(seq![Json::Object(e)]) == if field(e, "text"@).len() > 0 || field(
            e,
            "refusal"@,
        ).len() > 0 {
            seq![(field(e, "text"@), field(e, "refusal"@))]
        } else {
            Seq::empty()
        },
        str_at(e, "text"@) matches Some(text) ==> summary_parts(seq![Json::Object(e)])
            == seq![text],
        str_at(e, "text"@) is None ==> summary_parts(seq![Json::Object(e)]).len() == 0,
        parsed_item(e) matches Some(item) ==> parsed_items(seq![Json::Object(e)]) == seq![item],
        parsed_item(e) is None ==> parsed_items(seq![Json::Object(e)]).len() == 0,
    decreases b.len(),
{
    reveal_with_fuel(text_parts, 2);
    reveal_with_fuel(summary_parts, 2);
    reveal_with_fuel(parsed_items, 2);
    assert(seq![Json::Object(e)].drop_last() =~= Seq::<Json>::empty());
    if b.len() == 0 {
        assert(a + b =~= a);
        assert(text_parts(a) + text_parts(b) =~= text_parts(a));
        assert(summary_parts(a) + summary_parts(b) =~= summary_parts(a));
        assert(parsed_items(a) + parsed_items(b) =~= parsed_items(a));
    } else {
        law_lists_are_read_in_order(a, b.drop_last(), e);
        assert((a + b).drop_last() =~= a + b.drop_last());
        assert((a + b).last() == b.last());
        assert(text_parts(a + b) =~= text_parts(a) + text_parts(b));
        assert(summary_parts(a + b) =~= summary_parts(a) + summary_parts(b));
        assert(parsed_items(a + b) =~= parsed_items(a) + parsed_items(b));
    }
}

/// The whole arguments of a function call replace what was streamed; what had not
/// been streamed of them is sent on, and nothing else.
pub proof fn law_whole_arguments_are_taken(
    p: Progress,
    index: Number,
    at: int,
    before: Seq<char>,
    more: Seq<char>,
    properties: Seq<(Seq<char>, Seq<char>)>,
    parse: spec_fn(Seq<char>) -> Option<Json>,
    read: spec_fn(Seq<char>) -> Json,
)
    requires
        get(p.slots, index_value(index)) == Some(Slot::ToolCall(at, Some(before), None)),
        0 <= at < p.reply.content.len(),
        p.reply.content[at] is ToolCall,
    ensures
        ({
            let whole = before + more;
            let (after, error) = step(
                p,
                WireEvent::ArgumentsDone(index, whole),
                properties,
                parse,
                read,
            );
            let was = p.reply.content[at]->ToolCall_0;
            &&& error is None
            &&& after.reply.content == p.reply.content.update(
                at,
                Block::ToolCall(ToolCallBlock { arguments: read(whole), ..was }),
            )
            &&& get(after.slots, index_value(index)) == Some(Slot::ToolCall(at, Some(whole), None))
            &&& more.len() == 0 ==> after.sent == p.sent
            &&& more.len() > 0 ==> after.sent == p.sent.push(
                Event::ToolCallDelta { content_index: at, delta: more, partial: after.reply },
            )
        }),
{
    reveal(step);
    let whole = before + more;
    assert(whole.skip(before.len() as int) =~= more);
    assert(whole.take(before.len() as int) =~= before);
    assert(before.is_prefix_of(whole));
    lemma_with_entry(
        p.slots,
        index_value(index),
        Slot::ToolCall(at, Some(whole), None),
        index_value(index),
    );
}

/// A part of the input of a custom tool is put at the end of the input, which
/// stands under the property of the tool; what is sent on is what the JSON of the
/// arguments grows by.
pub proof fn law_custom_input_is_streamed(
    p: Progress,
    index: Number,
    at: int,
    property: Seq<char>,
    before: Seq<char>,
    more: Seq<char>,
    started: bool,
    properties: Seq<(Seq<char>, Seq<char>)>,
    parse: spec_fn(Seq<char>) -> Option<Json>,
    read: spec_fn(Seq<char>) -> Json,
)
    requires
        0 <= at < p.reply.content.len(),
        more.len() > 0,
        get(p.slots, index_value(index)) == Some(
            Slot::ToolCall(
                at,
                None,
                Some(
                    CustomInput {
                        property,
                        buffer: JsonBuffer { input: before, started, closed: false },
                    },
                ),
            ),
        ),
        p.reply.content[at] is ToolCall,
        p.reply.content[at]->ToolCall_0.arguments == one_entry(property, Json::Str(before)),
    ensures
        ({
            let whole = before + more;
            let (after, error) = step(p, WireEvent::InputDelta(index, more), properties, parse, read);
            let was = p.reply.content[at]->ToolCall_0;
            &&& error is None
            &&& after.reply.content == p.reply.content.update(
                at,
                Block::ToolCall(
                    ToolCallBlock { arguments: one_entry(property, Json::Str(whole)), ..was },
                ),
            )
            &&& after.sent.drop_last() == p.sent
            &&& after.sent.last() matches Event::ToolCallDelta { content_index, delta, partial }
                && content_index == at && partial == after.reply && delta == append_step(
                JsonBuffer { input: before, started, closed: false },
                property,
                whole,
                false,
            ).1->Ok_0->0
        }),
        ({
            let whole = before + more;
            let (after, error) = step(p, WireEvent::InputDone(index, whole), properties, parse, read);
            let was = p.reply.content[at]->ToolCall_0;
            &&& error is None
            &&& after.reply.content == p.reply.content.update(
                at,
                Block::ToolCall(
                    ToolCallBlock { arguments: one_entry(property, Json::Str(whole)), ..was },
                ),
            )
            &&& after.sent.drop_last() == p.sent
            &&& after.sent.last() matches Event::ToolCallDelta { content_index, partial, .. }
                && content_index == at && partial == after.reply
        }),
{
    reveal(step);
    let whole = before + more;
    assert(whole.take(before.len() as int) =~= before);
    assert(before.is_prefix_of(whole));
    let e = seq![(property, Json::Str(before))];
    crate::json::lemma_key_index_is(e, property, 0);
}

/// Encrypted reasoning that only the whole response carries is put into the
/// signature of the block of its item, unless the signature has some; no other
/// block changes, and neither does what was thought.
pub proof fn law_encrypted_content_is_kept(
    m: Reply,
    reasoning: Seq<(Seq<char>, int)>,
    item: ReasoningItem,
    id: Seq<char>,
    encrypted: Seq<char>,
    at: int,
    signature: Seq<char>,
    stored: Entries,
    parse: spec_fn(Seq<char>) -> Option<Json>,
)
    requires
        item.id == Some(id),
        item.encrypted_content == Some(encrypted),
        get(reasoning, id) == Some(at),
        0 <= at < m.content.len(),
        m.content[at] is Thinking,
        m.content[at]->Thinking_0.thinking_signature == Some(signature),
        parse(signature) == Some(Json::Object(stored)),
    ensures
        ({
            let after = reasoning_backfilled(m, reasoning, OutputItem::Reasoning(item), parse);
            let was = m.content[at]->Thinking_0;
            &&& has_key(stored, "encrypted_content"@) ==> after == m
            &&& !has_key(stored, "encrypted_content"@) ==> {
                &&& after.content.len() == m.content.len()
                &&& forall|j: int|
                    0 <= j < m.content.len() && j != at ==> (#[trigger] after.content[j])
                        == m.content[j]
                &&& after.content[at] matches Block::Thinking(now) && now.thinking == was.thinking
                    && now.redacted == was.redacted && now.thinking_signature == Some(
                    json_text(
                        Json::Object(stored.push(("encrypted_content"@, Json::Str(encrypted)))),
                    ),
                )
            }
        }),
{
}

} // verus!
