//! How the parts of a Responses stream add up to the blocks of the reply.
use vstd::prelude::*;
use crate::api::openai_responses_shared::text_signature;
use crate::api::openai_stream::{
    message_text, progress_wf, run, step, CallItem, MessageItem, OutputItem, Progress,
    ReasoningItem, Slot, WireEvent,
};
use crate::json::{get, json_text, lemma_with_entry, text_or_empty, Json};
use crate::number::{index_value, Number};
use crate::text::joined;
use crate::types::{Block, Event, StopReason, TextBlock, ThinkingBlock, ToolCallBlock};

verus! {

proof fn lemma_flatten_first(parts: Seq<Seq<char>>)
    requires
        parts.len() > 0,
    ensures
        parts.flatten() == parts[0] + parts.drop_first().flatten(),
{
}

proof fn lemma_run_once(
    p: Progress,
    event: WireEvent,
    rest: Seq<WireEvent>,
    properties: Seq<(Seq<char>, Seq<char>)>,
    parse: spec_fn(Seq<char>) -> Option<Json>,
    read: spec_fn(Seq<char>) -> Json,
)
    requires
        step(p, event, properties, parse, read).1 is None,
    ensures
        run(p, seq![event] + rest, properties, parse, read) == run(
            step(p, event, properties, parse, read).0,
            rest,
            properties,
            parse,
            read,
        ),
{
    let list = seq![event] + rest;
    assert(list[0] == event);
    assert(list.drop_first() =~= rest);
}

/// Parts of the arguments of a call, as events.
pub open spec fn argument_events(index: Number, deltas: Seq<Seq<char>>) -> Seq<WireEvent> {
    Seq::new(deltas.len(), |k: int| WireEvent::ArgumentsDelta(index, deltas[k]))
}

/// Streaming the parts of the arguments of a call whose slot is known.
proof fn lemma_arguments_stream(
    p: Progress,
    index: Number,
    deltas: Seq<Seq<char>>,
    rest: Seq<WireEvent>,
    i: int,
    partial: Seq<char>,
    call: ToolCallBlock,
    properties: Seq<(Seq<char>, Seq<char>)>,
    parse: spec_fn(Seq<char>) -> Option<Json>,
    read: spec_fn(Seq<char>) -> Json,
) -> (q: Progress)
    requires
        get(p.slots, index_value(index)) == Some(Slot::ToolCall(i, Some(partial), None)),
        0 <= i < p.reply.content.len(),
        p.reply.content[i] == Block::ToolCall(call),
    ensures
        run(p, argument_events(index, deltas) + rest, properties, parse, read) == run(
            q,
            rest,
            properties,
            parse,
            read,
        ),
        get(q.slots, index_value(index)) == Some(
            Slot::ToolCall(i, Some(partial + deltas.flatten()), None),
        ),
        q.reply.content == p.reply.content.update(
            i,
            Block::ToolCall(
                ToolCallBlock {
                    arguments: if deltas.len() == 0 {
                        call.arguments
                    } else {
                        read(partial + deltas.flatten())
                    },
                    ..call
                },
            ),
        ),
        q.sent.len() == p.sent.len() + deltas.len(),
        forall|k: int| 0 <= k < p.sent.len() ==> #[trigger] q.sent[k] == p.sent[k],
        forall|k: int|
            0 <= k < deltas.len() ==> {
                &&& #[trigger] q.sent[p.sent.len() + k] is ToolCallDelta
                &&& q.sent[p.sent.len() + k]->ToolCallDelta_content_index == i
                &&& q.sent[p.sent.len() + k]->ToolCallDelta_delta == deltas[k]
            },
    decreases deltas.len(),
{
    let at = index_value(index);
    if deltas.len() == 0 {
        assert(argument_events(index, deltas) + rest =~= rest);
        assert(partial + deltas.flatten() =~= partial);
        assert(p.reply.content.update(i, Block::ToolCall(call)) =~= p.reply.content);
        p
    } else {
        let tail = deltas.drop_first();
        let event = WireEvent::ArgumentsDelta(index, deltas[0]);
        assert(argument_events(index, deltas) + rest =~= seq![event] + (argument_events(
            index,
            tail,
        ) + rest));
        let now = partial + deltas[0];
        let next = step(p, event, properties, parse, read).0;
        let begun = ToolCallBlock { arguments: read(now), ..call };
        assert(step(p, event, properties, parse, read).1 is None && next.reply.content
            == p.reply.content.update(i, Block::ToolCall(begun)) && next.slots == with_entry_of(
            p,
            at,
            Slot::ToolCall(i, Some(now), None),
        ) && next.sent.len() == p.sent.len() + 1 && next.sent.last() is ToolCallDelta
            && next.sent.last()->ToolCallDelta_content_index == i
            && next.sent.last()->ToolCallDelta_delta == deltas[0] && next.sent.drop_last()
            == p.sent) by {
            reveal(step);
            let after = step(p, event, properties, parse, read).0;
            assert(after.sent.drop_last() =~= p.sent);
        }
        lemma_with_entry(p.slots, at, Slot::ToolCall(i, Some(now), None), at);
        lemma_run_once(p, event, argument_events(index, tail) + rest, properties, parse, read);
        let q = lemma_arguments_stream(
            next,
            index,
            tail,
            rest,
            i,
            now,
            begun,
            properties,
            parse,
            read,
        );
        lemma_flatten_first(deltas);
        assert(now + tail.flatten() =~= partial + deltas.flatten());
        if tail.len() == 0 {
            assert(tail.flatten() =~= Seq::<char>::empty());
            assert(partial + deltas.flatten() =~= now);
        }
        assert(q.reply.content =~= p.reply.content.update(
            i,
            Block::ToolCall(
                ToolCallBlock { arguments: read(partial + deltas.flatten()), ..call },
            ),
        ));
        assert forall|k: int| 0 <= k < p.sent.len() implies #[trigger] q.sent[k] == p.sent[k] by {
            assert(q.sent[k] == next.sent[k]);
            assert(next.sent.drop_last()[k] == p.sent[k]);
        }
        assert forall|k: int| 0 <= k < deltas.len() implies {
            &&& #[trigger] q.sent[p.sent.len() + k] is ToolCallDelta
            &&& q.sent[p.sent.len() + k]->ToolCallDelta_content_index == i
            &&& q.sent[p.sent.len() + k]->ToolCallDelta_delta == deltas[k]
        } by {
            if k == 0 {
                assert(q.sent[p.sent.len() as int] == next.sent[p.sent.len() as int]);
            } else {
                assert(q.sent[next.sent.len() + (k - 1)] is ToolCallDelta);
                assert(tail[k - 1] == deltas[k]);
            }
        }
        q
    }
}

spec fn with_entry_of(p: Progress, at: u64, slot: Slot) -> Seq<(u64, Slot)> {
    crate::json::with_entry(p.slots, at, slot)
}

/// A function call comes through a stream whole. Its arguments are what is read
/// from the arguments of the finished item or, where that has none, from those
/// that it began with followed by all the parts in order. Each part is sent on
/// with the position of the call, and the end of the call carries the very block
/// that the reply then holds.
#[verifier::rlimit(60)]
pub proof fn law_streamed_call_comes_whole(
    p: Progress,
    index: Number,
    item: CallItem,
    deltas: Seq<Seq<char>>,
    finished: CallItem,
    properties: Seq<(Seq<char>, Seq<char>)>,
    parse: spec_fn(Seq<char>) -> Option<Json>,
    read: spec_fn(Seq<char>) -> Json,
)
    requires
        progress_wf(p),
    ensures
        ({
            let list = seq![WireEvent::ItemAdded(index, OutputItem::FunctionCall(item))] + (
            argument_events(index, deltas) + seq![
                WireEvent::ItemDone(index, OutputItem::FunctionCall(finished)),
            ]);
            let (end, error) = run(p, list, properties, parse, read);
            let n = p.reply.content.len() as int;
            let call = ToolCallBlock {
                id: item.call_id + "|"@ + text_or_empty(item.id),
                name: item.name,
                arguments: read(
                    if finished.input.len() > 0 {
                        finished.input
                    } else {
                        item.input + deltas.flatten()
                    },
                ),
                thought_signature: None,
                namespace: if finished.namespace is Some {
                    finished.namespace
                } else {
                    item.namespace
                },
            };
            &&& error is None
            &&& end.reply.content == p.reply.content.push(Block::ToolCall(call))
            &&& end.sent.len() == p.sent.len() + deltas.len() + 2
            &&& end.sent[p.sent.len() as int] is ToolCallStart
            &&& end.sent[p.sent.len() as int]->ToolCallStart_content_index == n
            &&& forall|k: int|
                0 <= k < deltas.len() ==> {
                    &&& #[trigger] end.sent[p.sent.len() + 1 + k] is ToolCallDelta
                    &&& end.sent[p.sent.len() + 1 + k]->ToolCallDelta_content_index == n
                    &&& end.sent[p.sent.len() + 1 + k]->ToolCallDelta_delta == deltas[k]
                }
            &&& end.sent.last() == Event::ToolCallEnd {
                content_index: n,
                tool_call: call,
                partial: end.reply,
            }
        }),
{
    let at = index_value(index);
    let n = p.reply.content.len() as int;
    let first = WireEvent::ItemAdded(index, OutputItem::FunctionCall(item));
    let last = WireEvent::ItemDone(index, OutputItem::FunctionCall(finished));
    let next = step(p, first, properties, parse, read).0;
    let slot = Slot::ToolCall(n, Some(item.input), None);
    let begun = ToolCallBlock {
        id: item.call_id + "|"@ + text_or_empty(item.id),
        name: item.name,
        arguments: Json::Object(Seq::empty()),
        thought_signature: None,
        namespace: item.namespace,
    };
    assert(step(p, first, properties, parse, read).1 is None && next.reply.content
        == p.reply.content.push(Block::ToolCall(begun)) && next.slots == with_entry_of(p, at, slot)
        && next.sent.len() == p.sent.len() + 1 && next.sent.last() is ToolCallStart
        && next.sent.last()->ToolCallStart_content_index == n) by {
        reveal(step);
    }
    lemma_with_entry(p.slots, at, slot, at);
    let rest = argument_events(index, deltas) + seq![last];
    lemma_run_once(p, first, rest, properties, parse, read);
    let q = lemma_arguments_stream(
        next,
        index,
        deltas,
        seq![last],
        n,
        item.input,
        begun,
        properties,
        parse,
        read,
    );
    assert(seq![last] + Seq::<WireEvent>::empty() =~= seq![last]);
    let end = step(q, last, properties, parse, read).0;
    let streamed = item.input + deltas.flatten();
    let call = ToolCallBlock {
        id: item.call_id + "|"@ + text_or_empty(item.id),
        name: item.name,
        arguments: read(
            if finished.input.len() > 0 {
                finished.input
            } else {
                streamed
            },
        ),
        thought_signature: None,
        namespace: if finished.namespace is Some {
            finished.namespace
        } else {
            item.namespace
        },
    };
    assert(step(q, last, properties, parse, read).1 is None && end.reply.content
        == q.reply.content.update(n, Block::ToolCall(call)) && end.sent == q.sent.push(
        Event::ToolCallEnd { content_index: n, tool_call: call, partial: end.reply },
    )) by {
        reveal(step);
    }
    lemma_run_once(q, last, Seq::empty(), properties, parse, read);
    assert(end.reply.content =~= p.reply.content.push(Block::ToolCall(call)));
    assert(run(end, Seq::<WireEvent>::empty(), properties, parse, read) == (
        end,
        None::<Seq<char>>,
    ));
    assert forall|k: int| 0 <= k < deltas.len() implies {
        &&& #[trigger] end.sent[p.sent.len() + 1 + k] is ToolCallDelta
        &&& end.sent[p.sent.len() + 1 + k]->ToolCallDelta_content_index == n
        &&& end.sent[p.sent.len() + 1 + k]->ToolCallDelta_delta == deltas[k]
    } by {
        assert(q.sent[next.sent.len() + k] is ToolCallDelta);
    }
}

/// Whether an event carries a part of the text of an item, and which.
pub open spec fn carries_text(event: WireEvent, index: Number, delta: Seq<char>) -> bool {
    event == WireEvent::TextDelta(index, delta) || event == WireEvent::RefusalDelta(index, delta)
}

/// Streaming the parts of a text whose slot is known.
proof fn lemma_text_stream(
    p: Progress,
    index: Number,
    list: Seq<WireEvent>,
    deltas: Seq<Seq<char>>,
    rest: Seq<WireEvent>,
    i: int,
    block: TextBlock,
    properties: Seq<(Seq<char>, Seq<char>)>,
    parse: spec_fn(Seq<char>) -> Option<Json>,
    read: spec_fn(Seq<char>) -> Json,
) -> (q: Progress)
    requires
        get(p.slots, index_value(index)) == Some(Slot::Text(i)),
        0 <= i < p.reply.content.len(),
        p.reply.content[i] == Block::Text(block),
        list.len() == deltas.len(),
        forall|k: int| 0 <= k < list.len() ==> carries_text(#[trigger] list[k], index, deltas[k]),
    ensures
        run(p, list + rest, properties, parse, read) == run(q, rest, properties, parse, read),
        q.slots == p.slots,
        q.reply.stop_reason == p.reply.stop_reason,
        q.reply.content == p.reply.content.update(
            i,
            Block::Text(TextBlock { text: block.text + deltas.flatten(), ..block }),
        ),
        q.sent.len() == p.sent.len() + deltas.len(),
        forall|k: int| 0 <= k < p.sent.len() ==> #[trigger] q.sent[k] == p.sent[k],
        forall|k: int|
            0 <= k < deltas.len() ==> {
                &&& #[trigger] q.sent[p.sent.len() + k] is TextDelta
                &&& q.sent[p.sent.len() + k]->TextDelta_content_index == i
                &&& q.sent[p.sent.len() + k]->TextDelta_delta == deltas[k]
            },
    decreases deltas.len(),
{
    if deltas.len() == 0 {
        assert(list + rest =~= rest);
        assert(block.text + deltas.flatten() =~= block.text);
        assert(p.reply.content.update(i, Block::Text(block)) =~= p.reply.content);
        p
    } else {
        let tail = deltas.drop_first();
        let later = list.drop_first();
        let event = list[0];
        assert(carries_text(event, index, deltas[0]));
        assert(list + rest =~= seq![event] + (later + rest));
        let next = step(p, event, properties, parse, read).0;
        let begun = TextBlock { text: block.text + deltas[0], ..block };
        assert(step(p, event, properties, parse, read).1 is None && next.reply.content
            == p.reply.content.update(i, Block::Text(begun)) && next.slots == p.slots
            && next.reply.stop_reason == p.reply.stop_reason && next.sent.len() == p.sent.len() + 1
            && next.sent.last() is TextDelta && next.sent.last()->TextDelta_content_index == i
            && next.sent.last()->TextDelta_delta == deltas[0] && next.sent.drop_last() == p.sent)
            by {
            reveal(step);
            let after = step(p, event, properties, parse, read).0;
            assert(after.sent.drop_last() =~= p.sent);
        }
        lemma_run_once(p, event, later + rest, properties, parse, read);
        assert forall|k: int| 0 <= k < later.len() implies carries_text(
            #[trigger] later[k],
            index,
            tail[k],
        ) by {
            assert(later[k] == list[k + 1]);
        }
        let q = lemma_text_stream(
            next,
            index,
            later,
            tail,
            rest,
            i,
            begun,
            properties,
            parse,
            read,
        );
        lemma_flatten_first(deltas);
        assert(begun.text + tail.flatten() =~= block.text + deltas.flatten());
        assert(q.reply.content =~= p.reply.content.update(
            i,
            Block::Text(TextBlock { text: block.text + deltas.flatten(), ..block }),
        ));
        assert forall|k: int| 0 <= k < p.sent.len() implies #[trigger] q.sent[k] == p.sent[k] by {
            assert(q.sent[k] == next.sent[k]);
            assert(next.sent.drop_last()[k] == p.sent[k]);
        }
        assert forall|k: int| 0 <= k < deltas.len() implies {
            &&& #[trigger] q.sent[p.sent.len() + k] is TextDelta
            &&& q.sent[p.sent.len() + k]->TextDelta_content_index == i
            &&& q.sent[p.sent.len() + k]->TextDelta_delta == deltas[k]
        } by {
            if k == 0 {
                assert(q.sent[p.sent.len() as int] == next.sent[p.sent.len() as int]);
            } else {
                assert(q.sent[next.sent.len() + (k - 1)] is TextDelta);
                assert(tail[k - 1] == deltas[k]);
            }
        }
        q
    }
}

/// The text of each part of a message: what it says or, where it says nothing,
/// what it refuses with.
pub open spec fn part_texts(parts: Seq<(Seq<char>, Seq<char>)>) -> Seq<Seq<char>> {
    Seq::new(
        parts.len(),
        |k: int|
            if parts[k].0.len() > 0 {
                parts[k].0
            } else {
                parts[k].1
            },
    )
}

proof fn lemma_message_text(parts: Seq<(Seq<char>, Seq<char>)>)
    ensures
        message_text(parts) == part_texts(parts).flatten(),
    decreases parts.len(),
{
    let texts = part_texts(parts);
    texts.lemma_flatten_and_flatten_alt_are_equivalent();
    if parts.len() > 0 {
        lemma_message_text(parts.drop_last());
        part_texts(parts.drop_last()).lemma_flatten_and_flatten_alt_are_equivalent();
        assert(texts.drop_last() =~= part_texts(parts.drop_last()));
        assert(texts.flatten_alt() == texts.drop_last().flatten_alt() + texts.last());
    }
}

/// While a message is streamed, its new block holds all its parts in order, and
/// each part is sent on with the position of the block.
pub proof fn law_message_is_streamed(
    p: Progress,
    index: Number,
    item: MessageItem,
    list: Seq<WireEvent>,
    deltas: Seq<Seq<char>>,
    properties: Seq<(Seq<char>, Seq<char>)>,
    parse: spec_fn(Seq<char>) -> Option<Json>,
    read: spec_fn(Seq<char>) -> Json,
)
    requires
        progress_wf(p),
        list.len() == deltas.len(),
        forall|k: int| 0 <= k < list.len() ==> carries_text(#[trigger] list[k], index, deltas[k]),
    ensures
        ({
            let first = seq![WireEvent::ItemAdded(index, OutputItem::Message(item))];
            let (end, error) = run(p, first + list, properties, parse, read);
            let n = p.reply.content.len() as int;
            &&& error is None
            &&& end.reply.content == p.reply.content.push(
                Block::Text(TextBlock { text: deltas.flatten(), text_signature: None }),
            )
            &&& get(end.slots, index_value(index)) == Some(Slot::Text(n))
            &&& end.sent.len() == p.sent.len() + deltas.len() + 1
            &&& end.sent[p.sent.len() as int] is TextStart
            &&& end.sent[p.sent.len() as int]->TextStart_content_index == n
            &&& forall|k: int|
                0 <= k < deltas.len() ==> {
                    &&& #[trigger] end.sent[p.sent.len() + 1 + k] is TextDelta
                    &&& end.sent[p.sent.len() + 1 + k]->TextDelta_content_index == n
                    &&& end.sent[p.sent.len() + 1 + k]->TextDelta_delta == deltas[k]
                }
        }),
{
    let at = index_value(index);
    let n = p.reply.content.len() as int;
    let first = WireEvent::ItemAdded(index, OutputItem::Message(item));
    let next = step(p, first, properties, parse, read).0;
    let begun = TextBlock { text: Seq::empty(), text_signature: None };
    assert(step(p, first, properties, parse, read).1 is None && next.reply.content
        == p.reply.content.push(Block::Text(begun)) && next.slots == with_entry_of(
        p,
        at,
        Slot::Text(n),
    ) && next.sent.len() == p.sent.len() + 1 && next.sent.last() is TextStart
        && next.sent.last()->TextStart_content_index == n) by {
        reveal(step);
    }
    lemma_with_entry(p.slots, at, Slot::Text(n), at);
    let nothing = Seq::<WireEvent>::empty();
    lemma_run_once(p, first, list, properties, parse, read);
    let q = lemma_text_stream(
        next,
        index,
        list,
        deltas,
        nothing,
        n,
        begun,
        properties,
        parse,
        read,
    );
    assert(list + nothing =~= list);
    assert(run(q, nothing, properties, parse, read) == (q, None::<Seq<char>>));
    assert(begun.text + deltas.flatten() =~= deltas.flatten());
    assert(q.reply.content =~= p.reply.content.push(
        Block::Text(TextBlock { text: deltas.flatten(), text_signature: None }),
    ));
    assert forall|k: int| 0 <= k < deltas.len() implies {
        &&& #[trigger] q.sent[p.sent.len() + 1 + k] is TextDelta
        &&& q.sent[p.sent.len() + 1 + k]->TextDelta_content_index == n
        &&& q.sent[p.sent.len() + 1 + k]->TextDelta_delta == deltas[k]
    } by {
        assert(q.sent[next.sent.len() + k] is TextDelta);
    }
}

/// A message that has finished says what its finished item says: its block holds
/// the texts of the parts of the item in order, the end of the text carries the
/// same, no other block changes, and a final answer ends the turn.
pub proof fn law_finished_message_is_kept(
    p: Progress,
    index: Number,
    i: int,
    finished: MessageItem,
    properties: Seq<(Seq<char>, Seq<char>)>,
    parse: spec_fn(Seq<char>) -> Option<Json>,
    read: spec_fn(Seq<char>) -> Json,
)
    requires
        progress_wf(p),
        get(p.slots, index_value(index)) == Some(Slot::Text(i)),
        0 <= i < p.reply.content.len(),
        p.reply.content[i] is Text,
    ensures
        ({
            let (end, error) = step(
                p,
                WireEvent::ItemDone(index, OutputItem::Message(finished)),
                properties,
                parse,
                read,
            );
            let text = part_texts(finished.content).flatten();
            &&& error is None
            &&& end.reply.content == p.reply.content.update(
                i,
                Block::Text(
                    TextBlock {
                        text,
                        text_signature: Some(
                            text_signature(text_or_empty(finished.id), finished.phase),
                        ),
                    },
                ),
            )
            &&& end.sent == p.sent.push(
                Event::TextEnd { content_index: i, content: text, partial: end.reply },
            )
            &&& finished.phase == Some("final_answer"@) ==> end.reply.stop_reason
                == StopReason::Stop
            &&& finished.phase != Some("final_answer"@) ==> end.reply.stop_reason
                == p.reply.stop_reason
        }),
{
    reveal(step);
    lemma_message_text(finished.content);
}

/// What an event adds to the thinking of an item, where it adds something.
pub open spec fn carries_thinking(event: WireEvent, index: Number, delta: Seq<char>) -> bool {
    ||| event == WireEvent::SummaryDelta(index, delta)
    ||| event == WireEvent::ReasoningDelta(index, delta)
    ||| event == WireEvent::SummaryPartDone(index) && delta == "\n\n"@
}

/// A part of the thinking of an item is put at the end of its block and sent on
/// with the position of that block; a part of a summary that is done leaves a
/// blank line.
pub proof fn law_thinking_is_streamed(
    p: Progress,
    index: Number,
    event: WireEvent,
    delta: Seq<char>,
    i: int,
    block: ThinkingBlock,
    properties: Seq<(Seq<char>, Seq<char>)>,
    parse: spec_fn(Seq<char>) -> Option<Json>,
    read: spec_fn(Seq<char>) -> Json,
)
    requires
        progress_wf(p),
        get(p.slots, index_value(index)) == Some(Slot::Thinking(i)),
        0 <= i < p.reply.content.len(),
        p.reply.content[i] == Block::Thinking(block),
        carries_thinking(event, index, delta),
    ensures
        ({
            let (end, error) = step(p, event, properties, parse, read);
            &&& error is None
            &&& end.reply.content == p.reply.content.update(
                i,
                Block::Thinking(ThinkingBlock { thinking: block.thinking + delta, ..block }),
            )
            &&& end.sent == p.sent.push(
                Event::ThinkingDelta { content_index: i, delta, partial: end.reply },
            )
            &&& end.slots == p.slots
        }),
{
    reveal(step);
}

/// A reasoning item that has finished leaves its summary as the thinking of its
/// block, or else its content, or else what was streamed; its signature is the
/// item as it was sent, and the end of the thinking carries the same thinking.
pub proof fn law_finished_reasoning_is_kept(
    p: Progress,
    index: Number,
    i: int,
    block: ThinkingBlock,
    finished: ReasoningItem,
    properties: Seq<(Seq<char>, Seq<char>)>,
    parse: spec_fn(Seq<char>) -> Option<Json>,
    read: spec_fn(Seq<char>) -> Json,
)
    requires
        progress_wf(p),
        get(p.slots, index_value(index)) == Some(Slot::Thinking(i)),
        0 <= i < p.reply.content.len(),
        p.reply.content[i] == Block::Thinking(block),
    ensures
        ({
            let (end, error) = step(
                p,
                WireEvent::ItemDone(index, OutputItem::Reasoning(finished)),
                properties,
                parse,
                read,
            );
            &&& error is None
            &&& end.reply.content[i] matches Block::Thinking(kept) && {
                &&& end.reply.content == p.reply.content.update(i, Block::Thinking(kept))
                &&& kept.thinking_signature == Some(json_text(finished.raw))
                &&& kept.redacted == block.redacted
                &&& joined(finished.summary, "\n\n"@).len() > 0 ==> kept.thinking == joined(
                    finished.summary,
                    "\n\n"@,
                )
                &&& finished.summary.len() == 0 && joined(finished.content, "\n\n"@).len() > 0
                    ==> kept.thinking == joined(finished.content, "\n\n"@)
                &&& finished.summary.len() == 0 && finished.content.len() == 0 ==> kept.thinking
                    == block.thinking
                &&& end.sent == p.sent.push(
                    Event::ThinkingEnd {
                        content_index: i,
                        content: kept.thinking,
                        partial: end.reply,
                    },
                )
            }
        }),
{
    reveal(step);
    assert(finished.summary.len() == 0 ==> joined(finished.summary, "\n\n"@).len() == 0);
    assert(finished.content.len() == 0 ==> joined(finished.content, "\n\n"@).len() == 0);
}

/// A stream may come in pieces: the second goes on where the first ended, and
/// nothing follows an error.
pub proof fn law_pieces_of_a_stream_do_not_matter(
    p: Progress,
    list: Seq<WireEvent>,
    rest: Seq<WireEvent>,
    properties: Seq<(Seq<char>, Seq<char>)>,
    parse: spec_fn(Seq<char>) -> Option<Json>,
    read: spec_fn(Seq<char>) -> Json,
)
    ensures
        ({
            let (q, error) = run(p, list, properties, parse, read);
            error is None ==> run(p, list + rest, properties, parse, read) == run(
                q,
                rest,
                properties,
                parse,
                read,
            )
        }),
        ({
            let (q, error) = run(p, list, properties, parse, read);
            error is Some ==> run(p, list + rest, properties, parse, read) == (q, error)
        }),
    decreases list.len(),
{
    if list.len() == 0 {
        assert(list + rest =~= rest);
    } else {
        assert((list + rest)[0] == list[0]);
        assert((list + rest).drop_first() =~= list.drop_first() + rest);
        law_pieces_of_a_stream_do_not_matter(
            step(p, list[0], properties, parse, read).0,
            list.drop_first(),
            rest,
            properties,
            parse,
            read,
        );
    }
}

} // verus!
