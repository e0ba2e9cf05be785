//! What a Responses stream puts into the reply that it builds.
use vstd::prelude::*;
use crate::api::openai_stream::{
    all_backfilled, all_below, input_property, item_finished, law_step_keeps_blocks, parsed_event,
    parsed_item, progress_wf, run, slot_block, slot_created, step, CallItem, CustomInput,
    OutputItem, Progress, ReasoningItem, Slot, WireEvent,
};
use crate::api::constrained_sampling::empty_buffer;
use crate::json::{
    get, key_index, lemma_key_index, lemma_with_entry, number_at, number_or_zero, object_at, str_at,
    text_or_empty, Entries, Json,
};
use crate::number::index_value;
use crate::types::Block;

verus! {

/// Whether a block is the same one further on: it stays of its sort, and a tool
/// call keeps its id, its name and its thought signature.
pub open spec fn continues(before: Block, after: Block) -> bool {
    match before {
        Block::Text(_) => after is Text,
        Block::Thinking(block) => after matches Block::Thinking(later) && later.redacted
            == block.redacted,
        Block::ToolCall(call) => after matches Block::ToolCall(later) && later.id == call.id
            && later.name == call.name && later.thought_signature == call.thought_signature,
        Block::Image { .. } => after == before,
    }
}

proof fn lemma_backfilling_continues(
    p: Progress,
    output: Seq<OutputItem>,
    parse: spec_fn(Seq<char>) -> Option<Json>,
    i: int,
)
    requires
        all_below(p.reasoning, p.reply.content.len() as int),
        0 <= i < p.reply.content.len(),
    ensures
        ({
            let after = all_backfilled(p.reply, p.reasoning, output, parse);
            &&& after.content.len() == p.reply.content.len()
            &&& continues(p.reply.content[i], after.content[i])
            &&& p.reply.content[i] !is Thinking ==> after.content[i] == p.reply.content[i]
            &&& p.reply.content[i] is Thinking ==> after.content[i]->Thinking_0.thinking
                == p.reply.content[i]->Thinking_0.thinking
        }),
    decreases output.len(),
{
    if output.len() > 0 {
        lemma_backfilling_continues(p, output.drop_last(), parse, i);
        if let OutputItem::Reasoning(ReasoningItem { id: Some(id), .. }) = output.last() {
            lemma_key_index(p.reasoning, id);
        }
    }
}

proof fn lemma_finishing_continues(
    p: Progress,
    at: u64,
    item: OutputItem,
    properties: Seq<(Seq<char>, Seq<char>)>,
    read: spec_fn(Seq<char>) -> Json,
    i: int,
)
    requires
        progress_wf(p),
        0 <= i < p.reply.content.len(),
    ensures
        continues(
            p.reply.content[i],
            item_finished(p, at, item, properties, read).reply.content[i],
        ),
{
    lemma_key_index(p.slots, at);
    if get(p.slots, at) is None {
        lemma_slot_is_found(p, at, item, properties);
    } else {
        assert(0 <= slot_block(p.slots[key_index(p.slots, at)].1) < p.reply.content.len());
    }
}

/// The slot of a new item is found under its index and stands for the new block.
proof fn lemma_slot_is_found(
    p: Progress,
    at: u64,
    item: OutputItem,
    properties: Seq<(Seq<char>, Seq<char>)>,
)
    ensures
        ({
            let begun = slot_created(p, at, item, properties);
            &&& get(begun.slots, at) matches Some(slot) && slot_block(slot) == p.reply.content.len()
            &&& item is Reasoning ==> get(begun.slots, at)->0 is Thinking
            &&& item is Message ==> get(begun.slots, at)->0 is Text
            &&& item is FunctionCall || item is CustomToolCall ==> get(begun.slots, at)->0
                is ToolCall
        }),
{
    let n = p.reply.content.len() as int;
    match item {
        OutputItem::Reasoning(_) => {
            lemma_with_entry(p.slots, at, Slot::Thinking(n), at);
        },
        OutputItem::Message(_) => {
            lemma_with_entry(p.slots, at, Slot::Text(n), at);
        },
        OutputItem::FunctionCall(call) => {
            lemma_with_entry(p.slots, at, Slot::ToolCall(n, Some(call.input), None), at);
        },
        OutputItem::CustomToolCall(call) => {
            let property = input_property(properties, call.name);
            lemma_with_entry(
                p.slots,
                at,
                Slot::ToolCall(n, None, Some(CustomInput { property, buffer: empty_buffer() })),
                at,
            );
        },
    }
}

/// An event never turns a block into another one: whatever an event does, each
/// block that was there is still there, and a tool call keeps its id and name.
pub proof fn law_step_continues_blocks(
    p: Progress,
    e: WireEvent,
    properties: Seq<(Seq<char>, Seq<char>)>,
    parse: spec_fn(Seq<char>) -> Option<Json>,
    read: spec_fn(Seq<char>) -> Json,
    i: int,
)
    requires
        progress_wf(p),
        0 <= i < p.reply.content.len(),
    ensures
        continues(p.reply.content[i], step(p, e, properties, parse, read).0.reply.content[i]),
{
    reveal(step);
    match e {
        WireEvent::Completed(response) | WireEvent::Incomplete(response) => {
            lemma_backfilling_continues(p, response.output, parse, i);
        },
        WireEvent::SummaryDelta(index, _)
        | WireEvent::SummaryPartDone(index)
        | WireEvent::ReasoningDelta(index, _)
        | WireEvent::TextDelta(index, _)
        | WireEvent::RefusalDelta(index, _)
        | WireEvent::ArgumentsDelta(index, _)
        | WireEvent::ArgumentsDone(index, _)
        | WireEvent::InputDelta(index, _)
        | WireEvent::InputDone(index, _) => {
            let at = index_value(index);
            lemma_key_index(p.slots, at);
            if get(p.slots, at) is Some {
                assert(0 <= slot_block(p.slots[key_index(p.slots, at)].1) < p.reply.content.len());
            }
        },
        WireEvent::ItemDone(index, item) => {
            lemma_finishing_continues(p, index_value(index), item, properties, read, i);
        },
        _ => {},
    }
}

/// A whole stream keeps each block that was there, and each tool call its id and
/// name.
pub proof fn law_run_continues_blocks(
    p: Progress,
    list: Seq<WireEvent>,
    properties: Seq<(Seq<char>, Seq<char>)>,
    parse: spec_fn(Seq<char>) -> Option<Json>,
    read: spec_fn(Seq<char>) -> Json,
    i: int,
)
    requires
        progress_wf(p),
        0 <= i < p.reply.content.len(),
    ensures
        run(p, list, properties, parse, read).0.reply.content.len() >= p.reply.content.len(),
        continues(p.reply.content[i], run(p, list, properties, parse, read).0.reply.content[i]),
    decreases list.len(),
{
    if list.len() > 0 {
        let next = step(p, list[0], properties, parse, read).0;
        law_step_keeps_blocks(p, list[0], properties, parse, read);
        law_step_continues_blocks(p, list[0], properties, parse, read, i);
        if step(p, list[0], properties, parse, read).1 is None {
            law_run_continues_blocks(next, list.drop_first(), properties, parse, read, i);
        }
    }
}

proof fn lemma_added_event(e: Entries, item: Entries)
    requires
        object_at(e, "item"@) == Some(item),
        str_at(e, "type"@) == Some("response.output_item.added"@),
    ensures
        parsed_event(Json::Object(e)) == Some(
            WireEvent::ItemAdded(
                number_or_zero(number_at(e, "output_index"@)),
                parsed_item(item)->0,
            ),
        ),
{
    reveal_strlit("response.created");
    reveal_strlit("response.output_item.added");
    assert("response.created"@.len() != "response.output_item.added"@.len());
}

proof fn lemma_done_event(e: Entries, item: Entries)
    requires
        object_at(e, "item"@) == Some(item),
        str_at(e, "type"@) == Some("response.output_item.done"@),
    ensures
        parsed_event(Json::Object(e)) == Some(
            WireEvent::ItemDone(number_or_zero(number_at(e, "output_index"@)), parsed_item(item)->0),
        ),
{
    let done = "response.output_item.done"@;
    reveal_strlit("response.created");
    reveal_strlit("response.output_item.added");
    reveal_strlit("response.reasoning_summary_text.delta");
    reveal_strlit("response.reasoning_summary_part.done");
    reveal_strlit("response.reasoning_text.delta");
    reveal_strlit("response.output_text.delta");
    reveal_strlit("response.refusal.delta");
    reveal_strlit("response.function_call_arguments.delta");
    reveal_strlit("response.function_call_arguments.done");
    reveal_strlit("response.custom_tool_call_input.delta");
    reveal_strlit("response.custom_tool_call_input.done");
    reveal_strlit("response.output_item.done");
    assert("response.created"@.len() != done.len());
    assert("response.output_item.added"@.len() != done.len());
    assert("response.reasoning_summary_text.delta"@.len() != done.len());
    assert("response.reasoning_summary_part.done"@.len() != done.len());
    assert("response.reasoning_text.delta"@.len() != done.len());
    assert("response.output_text.delta"@.len() != done.len());
    assert("response.refusal.delta"@.len() != done.len());
    assert("response.function_call_arguments.delta"@.len() != done.len());
    assert("response.function_call_arguments.done"@.len() != done.len());
    assert("response.custom_tool_call_input.delta"@.len() != done.len());
    assert("response.custom_tool_call_input.done"@.len() != done.len());
}

proof fn lemma_call_item(item: Entries)
    requires
        str_at(item, "type"@) == Some("function_call"@) || str_at(item, "type"@) == Some(
            "custom_tool_call"@,
        ),
    ensures
        ({
            let call = match parsed_item(item) {
                Some(OutputItem::FunctionCall(call)) => Some(call),
                Some(OutputItem::CustomToolCall(call)) => Some(call),
                _ => None,
            };
            &&& call is Some
            &&& call->0.name == text_or_empty(str_at(item, "name"@))
            &&& call->0.call_id == text_or_empty(str_at(item, "call_id"@))
            &&& call->0.id == str_at(item, "id"@)
            &&& call->0.namespace == str_at(item, "namespace"@)
            &&& str_at(item, "type"@) == Some("function_call"@) ==> parsed_item(item)->0
                is FunctionCall && call->0.input == text_or_empty(str_at(item, "arguments"@))
            &&& str_at(item, "type"@) == Some("custom_tool_call"@) ==> parsed_item(item)->0
                is CustomToolCall && call->0.input == text_or_empty(str_at(item, "input"@))
        }),
{
    reveal_strlit("reasoning");
    reveal_strlit("message");
    reveal_strlit("function_call");
    reveal_strlit("custom_tool_call");
    assert("reasoning"@.len() != "function_call"@.len());
    assert("message"@.len() != "function_call"@.len());
    assert("reasoning"@.len() != "custom_tool_call"@.len());
    assert("message"@.len() != "custom_tool_call"@.len());
    assert("function_call"@.len() != "custom_tool_call"@.len());
}

/// What the first event of a call makes of it.
proof fn lemma_call_begins(
    p: Progress,
    event: WireEvent,
    item: CallItem,
    properties: Seq<(Seq<char>, Seq<char>)>,
    parse: spec_fn(Seq<char>) -> Option<Json>,
    read: spec_fn(Seq<char>) -> Json,
)
    requires
        progress_wf(p),
        match event {
            WireEvent::ItemAdded(_, OutputItem::FunctionCall(call)) => call == item,
            WireEvent::ItemAdded(_, OutputItem::CustomToolCall(call)) => call == item,
            WireEvent::ItemDone(index, OutputItem::FunctionCall(call)) => call == item && get(
                p.slots,
                index_value(index),
            ) is None,
            WireEvent::ItemDone(index, OutputItem::CustomToolCall(call)) => call == item && get(
                p.slots,
                index_value(index),
            ) is None,
            _ => false,
        },
    ensures
        ({
            let next = step(p, event, properties, parse, read).0.reply;
            let n = p.reply.content.len() as int;
            &&& step(p, event, properties, parse, read).1 is None
            &&& next.content.len() == n + 1
            &&& next.content[n] matches Block::ToolCall(call) && call.name == item.name && call.id
                == item.call_id + "|"@ + text_or_empty(item.id) && call.namespace == item.namespace
        }),
{
    reveal(step);
    match event {
        WireEvent::ItemDone(index, it) => {
            lemma_slot_is_found(p, index_value(index), it, properties);
        },
        _ => {},
    }
}

/// A call that a stream tells of keeps what it is called: the event that adds a
/// function call or a custom call, or the one that finishes a call that was never
/// added, makes a new block with the text under `name` as its name and the texts
/// under `call_id` and `id` as its id, and whatever else is streamed, the reply
/// still has them at that position in the end.
pub proof fn law_call_keeps_its_name(
    p: Progress,
    e: Entries,
    item: Entries,
    rest: Seq<WireEvent>,
    properties: Seq<(Seq<char>, Seq<char>)>,
    parse: spec_fn(Seq<char>) -> Option<Json>,
    read: spec_fn(Seq<char>) -> Json,
)
    requires
        progress_wf(p),
        object_at(e, "item"@) == Some(item),
        str_at(item, "type"@) == Some("function_call"@) || str_at(item, "type"@) == Some(
            "custom_tool_call"@,
        ),
        str_at(e, "type"@) == Some("response.output_item.added"@) || (str_at(e, "type"@) == Some(
            "response.output_item.done"@,
        ) && get(p.slots, index_value(number_or_zero(number_at(e, "output_index"@)))) is None),
    ensures
        parsed_event(Json::Object(e)) matches Some(event) && {
            let end = run(p, seq![event] + rest, properties, parse, read).0.reply;
            &&& end.content.len() > p.reply.content.len()
            &&& end.content[p.reply.content.len() as int] matches Block::ToolCall(call) && {
                &&& call.name == text_or_empty(str_at(item, "name"@))
                &&& call.id == text_or_empty(str_at(item, "call_id"@)) + "|"@ + text_or_empty(
                    str_at(item, "id"@),
                )
            }
        },
{
    lemma_call_item(item);
    if str_at(e, "type"@) == Some("response.output_item.added"@) {
        lemma_added_event(e, item);
    } else {
        lemma_done_event(e, item);
    }
    let call = match parsed_item(item)->0 {
        OutputItem::FunctionCall(call) => call,
        OutputItem::CustomToolCall(call) => call,
        _ => arbitrary(),
    };
    let event = parsed_event(Json::Object(e))->0;
    let list = seq![event] + rest;
    assert(list[0] == event);
    law_step_keeps_blocks(p, event, properties, parse, read);
    lemma_call_begins(p, event, call, properties, parse, read);
    law_run_continues_blocks(
        step(p, event, properties, parse, read).0,
        list.drop_first(),
        properties,
        parse,
        read,
        p.reply.content.len() as int,
    );
}

} // verus!
