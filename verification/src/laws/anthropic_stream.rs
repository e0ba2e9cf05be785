//! What a Messages stream puts into the reply that it builds.
use vstd::prelude::*;
use crate::api::anthropic_messages::events::{BlockDelta, BlockStart, StreamEvent};
use crate::api::anthropic_messages::stream::{
    arguments_so_far, event_taken, events_taken, law_event_keeps_blocks, progress_wf, Progress,
};
use crate::json::{
    get, key_index, lemma_key_index, lemma_key_index_is, lemma_with_entry, without_entry, Json,
};
use crate::number::Number;
use crate::types::{Block, Pricing, TextBlock, ThinkingBlock, ToolCallBlock};

verus! {

/// The part of a block that an event brings, where it brings one to that block.
pub open spec fn delta_for(event: StreamEvent, index: Number) -> Option<BlockDelta> {
    match event {
        StreamEvent::BlockDelta { index: at, delta } => if at == index {
            Some(delta)
        } else {
            None
        },
        _ => None,
    }
}

/// The sort of a part.
pub enum Sort {
    Text,
    Thinking,
    Signature,
    InputJson,
}

/// What a part says, where it is of a sort.
pub open spec fn said_by(delta: BlockDelta, sort: Sort) -> Option<Seq<char>> {
    match (sort, delta) {
        (Sort::Text, BlockDelta::Text(text)) => Some(text),
        (Sort::Thinking, BlockDelta::Thinking(text)) => Some(text),
        (Sort::Signature, BlockDelta::Signature(text)) => Some(text),
        (Sort::InputJson, BlockDelta::InputJson(text)) => Some(text),
        _ => None,
    }
}

/// All parts of one sort that a stream brings to a block, in order.
pub open spec fn parts_for(list: Seq<StreamEvent>, index: Number, sort: Sort) -> Seq<Seq<char>>
    decreases list.len(),
{
    if list.len() == 0 {
        Seq::empty()
    } else {
        let before = parts_for(list.drop_last(), index, sort);
        match delta_for(list.last(), index) {
            Some(delta) => match said_by(delta, sort) {
                Some(text) => before.push(text),
                None => before,
            },
            None => before,
        }
    }
}

proof fn lemma_flatten_push(parts: Seq<Seq<char>>, part: Seq<char>)
    ensures
        parts.push(part).flatten() == parts.flatten() + part,
{
    parts.push(part).lemma_flatten_and_flatten_alt_are_equivalent();
    parts.lemma_flatten_and_flatten_alt_are_equivalent();
    assert(parts.push(part).drop_last() =~= parts);
}

/// What a block that began in some way holds once a stream has brought more.
pub open spec fn block_holds(
    block: Block,
    start: BlockStart,
    list: Seq<StreamEvent>,
    index: Number,
    read: spec_fn(Seq<char>) -> Json,
) -> bool {
    match start {
        BlockStart::Text(text) => block matches Block::Text(now) && now.text == text + parts_for(
            list,
            index,
            Sort::Text,
        ).flatten(),
        BlockStart::Thinking { thinking, signature } => block matches Block::Thinking(now) && {
            &&& now.thinking == thinking + parts_for(list, index, Sort::Thinking).flatten()
            &&& now.thinking_signature == Some(
                signature + parts_for(list, index, Sort::Signature).flatten(),
            )
            &&& now.redacted is None
        },
        BlockStart::RedactedThinking(data) => block matches Block::Thinking(now) && {
            &&& now.thinking_signature == Some(
                data + parts_for(list, index, Sort::Signature).flatten(),
            )
            &&& now.redacted == Some(true)
        },
        BlockStart::ToolUse { id, name, input } => block matches Block::ToolCall(now) && {
            let parts = parts_for(list, index, Sort::InputJson);
            &&& now.id == id
            &&& now.arguments == if parts.len() == 0 {
                input
            } else {
                read(parts.flatten())
            }
        },
    }
}

/// The parts of a block add up. A block that begins and is then streamed holds
/// what it began with followed by the parts that came for it in order, whatever
/// else the stream brings in between: a text its texts, a thinking block its
/// thinking and its signature, a call the arguments that are read from all its
/// JSON. A call keeps its id, and its name where names are sent as they are.
pub proof fn law_blocks_add_up(
    p: Progress,
    index: Number,
    start: BlockStart,
    list: Seq<StreamEvent>,
    oauth: bool,
    names: Seq<Seq<char>>,
    read: spec_fn(Seq<char>) -> Json,
    price: Pricing,
)
    requires
        progress_wf(p),
        get(p.positions, index) is None,
        get(p.partial, p.reply.content.len() as u64) is None,
        p.reply.content.len() + list.len() < u64::MAX,
        forall|k: int| 0 <= k < list.len() ==> #[trigger] list[k] != (StreamEvent::BlockStop { index }),
    ensures
        ({
            let begun = event_taken(
                p,
                StreamEvent::BlockStart { index, block: start },
                oauth,
                names,
                read,
                price,
            );
            let end = events_taken(begun, list, oauth, names, read, price);
            let n = p.reply.content.len() as int;
            &&& progress_wf(end)
            &&& end.reply.content.len() > n
            &&& block_holds(end.reply.content[n], start, list, index, read)
            &&& !oauth ==> (start matches BlockStart::ToolUse { name, .. }
                ==> end.reply.content[n]->ToolCall_0.name == name)
        }),
{
    let begun = event_taken(
        p,
        StreamEvent::BlockStart { index, block: start },
        oauth,
        names,
        read,
        price,
    );
    law_event_keeps_blocks(
        p,
        StreamEvent::BlockStart { index, block: start },
        oauth,
        names,
        read,
        price,
    );
    let n = p.reply.content.len() as int;
    assert(begun.positions == p.positions.push((index, n)) && begun.partial == p.partial
        && begun.reply.content.len() == n + 1) by {
        reveal(event_taken);
    }
    lemma_key_index(p.positions, index);
    lemma_key_index_is(begun.positions, index, p.positions.len() as int);
    assert(parts_for(Seq::empty(), index, Sort::Text).flatten() =~= Seq::<char>::empty());
    assert(parts_for(Seq::empty(), index, Sort::Thinking).flatten() =~= Seq::<char>::empty());
    assert(parts_for(Seq::empty(), index, Sort::Signature).flatten() =~= Seq::<char>::empty());
    assert(parts_for(Seq::empty(), index, Sort::InputJson).flatten() =~= Seq::<char>::empty());
    assert(block_holds(begun.reply.content[n], start, Seq::empty(), index, read) && (!oauth ==> (
    start matches BlockStart::ToolUse { name, .. } ==> begun.reply.content[n]->ToolCall_0.name
        == name))) by {
        reveal(event_taken);
        match start {
            BlockStart::Text(text) => {
                assert(text + Seq::<char>::empty() =~= text);
            },
            BlockStart::Thinking { thinking, signature } => {
                assert(thinking + Seq::<char>::empty() =~= thinking);
                assert(signature + Seq::<char>::empty() =~= signature);
            },
            BlockStart::RedactedThinking(data) => {
                assert(data + Seq::<char>::empty() =~= data);
            },
            _ => {},
        }
    }
    lemma_blocks_add_up(begun, index, n, start, list, oauth, names, read, price);
}

/// Whether a block belongs to an index and no other block does.
spec fn belongs(p: Progress, index: Number, n: int) -> bool {
    &&& get(p.positions, index) == Some(n)
    &&& forall|k: int|
        0 <= k < p.positions.len() && (#[trigger] p.positions[k]).0 != index ==> p.positions[k].1
            != n
    &&& 0 <= n < p.reply.content.len()
}

proof fn lemma_blocks_add_up(
    p: Progress,
    index: Number,
    n: int,
    start: BlockStart,
    list: Seq<StreamEvent>,
    oauth: bool,
    names: Seq<Seq<char>>,
    read: spec_fn(Seq<char>) -> Json,
    price: Pricing,
)
    requires
        progress_wf(p),
        belongs(p, index, n),
        get(p.partial, n as u64) is None,
        p.reply.content.len() + list.len() <= u64::MAX,
        block_holds(p.reply.content[n], start, Seq::empty(), index, read),
        forall|k: int| 0 <= k < list.len() ==> #[trigger] list[k] != (StreamEvent::BlockStop { index }),
    ensures
        ({
            let end = events_taken(p, list, oauth, names, read, price);
            let parts = parts_for(list, index, Sort::InputJson);
            &&& progress_wf(end)
            &&& belongs(end, index, n)
            &&& p.reply.content.len() <= end.reply.content.len() <= p.reply.content.len() + list.len()
            &&& block_holds(end.reply.content[n], start, list, index, read)
            &&& start is ToolUse ==> arguments_so_far(end.partial, n) == parts.flatten()
            &&& start is ToolUse ==> end.reply.content[n]->ToolCall_0.name
                == p.reply.content[n]->ToolCall_0.name
        }),
    decreases list.len(),
{
    if list.len() == 0 {
        assert(list =~= Seq::<StreamEvent>::empty());
        assert(parts_for(list, index, Sort::InputJson).flatten() =~= Seq::<char>::empty());
    } else {
        let rest = list.drop_last();
        let event = list.last();
        lemma_blocks_add_up(p, index, n, start, rest, oauth, names, read, price);
        let before = events_taken(p, rest, oauth, names, read, price);
        let end = event_taken(before, event, oauth, names, read, price);
        law_event_keeps_blocks(before, event, oauth, names, read, price);
        lemma_step(before, index, n, event, oauth, names, read, price);
        let text = parts_for(rest, index, Sort::Text);
        let thinking = parts_for(rest, index, Sort::Thinking);
        let signature = parts_for(rest, index, Sort::Signature);
        let input = parts_for(rest, index, Sort::InputJson);
        match delta_for(event, index) {
            Some(BlockDelta::Text(part)) => {
                lemma_flatten_push(text, part);
                if let BlockStart::Text(first) = start {
                    assert((first + text.flatten()) + part =~= first + text.push(part).flatten());
                }
            },
            Some(BlockDelta::Thinking(part)) => {
                lemma_flatten_push(thinking, part);
                if let BlockStart::Thinking { thinking: first, .. } = start {
                    assert((first + thinking.flatten()) + part =~= first + thinking.push(
                        part,
                    ).flatten());
                }
            },
            Some(BlockDelta::Signature(part)) => {
                lemma_flatten_push(signature, part);
                if let BlockStart::Thinking { signature: first, .. } = start {
                    assert((first + signature.flatten()) + part =~= first + signature.push(
                        part,
                    ).flatten());
                }
                if let BlockStart::RedactedThinking(first) = start {
                    assert((first + signature.flatten()) + part =~= first + signature.push(
                        part,
                    ).flatten());
                }
            },
            Some(BlockDelta::InputJson(part)) => {
                lemma_flatten_push(input, part);
            },
            None => {},
        }
    }
}

/// What one event does to the block of an index.
proof fn lemma_step(
    p: Progress,
    index: Number,
    n: int,
    event: StreamEvent,
    oauth: bool,
    names: Seq<Seq<char>>,
    read: spec_fn(Seq<char>) -> Json,
    price: Pricing,
)
    requires
        progress_wf(p),
        belongs(p, index, n),
        p.reply.content.len() <= u64::MAX,
        event != (StreamEvent::BlockStop { index }),
    ensures
        ({
            let end = event_taken(p, event, oauth, names, read, price);
            let block = p.reply.content[n];
            &&& belongs(end, index, n)
            &&& end.reply.content[n] == match (delta_for(event, index), block) {
                (Some(BlockDelta::Text(part)), Block::Text(now)) => Block::Text(
                    TextBlock { text: now.text + part, ..now },
                ),
                (Some(BlockDelta::Thinking(part)), Block::Thinking(now)) => Block::Thinking(
                    ThinkingBlock { thinking: now.thinking + part, ..now },
                ),
                (Some(BlockDelta::Signature(part)), Block::Thinking(now)) => Block::Thinking(
                    ThinkingBlock {
                        thinking_signature: Some(
                            match now.thinking_signature {
                                Some(current) => current + part,
                                None => part,
                            },
                        ),
                        ..now
                    },
                ),
                (Some(BlockDelta::InputJson(part)), Block::ToolCall(now)) => Block::ToolCall(
                    ToolCallBlock { arguments: read(arguments_so_far(p.partial, n) + part), ..now },
                ),
                _ => block,
            }
            &&& arguments_so_far(end.partial, n) == match (delta_for(event, index), block) {
                (Some(BlockDelta::InputJson(part)), Block::ToolCall(_)) => arguments_so_far(
                    p.partial,
                    n,
                ) + part,
                _ => arguments_so_far(p.partial, n),
            }
        }),
{
    reveal(event_taken);
    lemma_key_index(p.positions, index);
    match event {
        StreamEvent::BlockStart { index: at, block } => {
            let end = event_taken(p, event, oauth, names, read, price);
            lemma_key_index_is(end.positions, index, key_index(p.positions, index));
        },
        StreamEvent::BlockDelta { index: at, delta } => {
            lemma_key_index(p.positions, at);
            if let Some(other) = get(p.positions, at) {
                assert(p.positions[key_index(p.positions, at)] == (at, other));
                if at != index {
                    assert(other != n);
                }
                assert(other as u64 == other && n as u64 == n);
                if let BlockDelta::InputJson(text) = delta {
                    lemma_with_entry(
                        p.partial,
                        other as u64,
                        arguments_so_far(p.partial, other) + text,
                        n as u64,
                    );
                }
            }
        },
        StreamEvent::BlockStop { index: at } => {
            lemma_key_index(p.positions, at);
            if let Some(other) = get(p.positions, at) {
                assert(p.positions[key_index(p.positions, at)] == (at, other));
                assert(other != n);
                assert(other as u64 == other && n as u64 == n);
                lemma_without_entry(p.partial, other as u64, n as u64);
            }
        },
        _ => {},
    }
}

proof fn lemma_without_entry<A>(m: Seq<(u64, A)>, key: u64, other: u64)
    requires
        other != key,
    ensures
        get(without_entry(m, key), other) == get(m, other),
{
    lemma_key_index(m, key);
    lemma_key_index(m, other);
    let after = without_entry(m, key);
    if key_index(m, key) < m.len() {
        let at = key_index(m, other);
        if at < m.len() {
            let now = if at < key_index(m, key) {
                at
            } else {
                at - 1
            };
            lemma_key_index_is(after, other, now);
        } else {
            assert forall|j: int| 0 <= j < after.len() implies after[j].0 != other by {
                if j < key_index(m, key) {
                    assert(after[j] == m[j]);
                } else {
                    assert(after[j] == m[j + 1]);
                }
            }
            lemma_key_index_is(after, other, after.len() as int);
        }
    }
}

} // verus!
