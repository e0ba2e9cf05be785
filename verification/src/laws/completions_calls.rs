//! How the tool calls of a chat completion are streamed and ended.
use vstd::prelude::*;
use crate::api::headers::Pairs;
use crate::api::openai_completions::stream::{
    block_finished, blocks_finished, call_delta, call_streamed, detail_kept, details_kept,
    endings_of, ends, head_taken, is_call, signature_field, text_streamed, thinking_streamed,
    Ending, Memory, Progress, Scratch,
};
use crate::json::{
    get, json_text, lemma_with_entry, number_at, object_at, one_entry, str_at, Entries, Json,
};
use crate::laws::completions_stream::field;
use crate::number::{index_value, Number};
use crate::types::{Block, Event, Model, Pricing, Reply, ToolCallBlock};

verus! {

/// A call that begins: the id, the name and the first arguments of an entry that
/// continues no call become a new call at the end of the reply, which is told by a
/// start and by the arguments as they are.
pub proof fn law_call_begins(
    p: Progress,
    e: Entries,
    function: Entries,
    arguments: Seq<char>,
    properties: Pairs,
    read: spec_fn(Seq<char>) -> Json,
)
    requires
        object_at(e, "function"@) == Some(function),
        str_at(function, "name"@) is Some,
        str_at(function, "arguments"@) == Some(arguments),
        number_at(e, "index"@) matches Some(n) ==> get(p.memory.by_index, index_value(n)) is None,
        str_at(e, "id"@) matches Some(id) ==> get(p.memory.by_id, id) is None,
    ensures
        ({
            let after = call_streamed(p, call_delta(e), properties, read);
            let at = p.reply.content.len() as int;
            let begun = after.reply.content[at];
            &&& after.reply.content.drop_last() =~= p.reply.content
            &&& begun matches Block::ToolCall(call) && call.id == field(e, "id"@) && call.name
                == str_at(function, "name"@)->0 && call.thought_signature is None
            &&& after.sent.len() == p.sent.len() + 2
            &&& after.sent.take(p.sent.len() as int) =~= p.sent
            &&& after.sent[p.sent.len() as int] == (Event::ToolCallStart {
                content_index: at,
                partial: after.reply,
            })
            &&& after.sent.last() == (Event::ToolCallDelta {
                content_index: at,
                delta: arguments,
                partial: after.reply,
            })
            &&& (number_at(e, "index"@) matches Some(n) && n.nanos == at * 1_000_000_000) && at
                <= u64::MAX ==> {
                let kept = get(after.memory.by_index, at as u64);
                &&& kept matches Some(call) && call.call.id == field(e, "id"@) && call.call.name
                    == str_at(function, "name"@)->0 && call.partial_args == Some(arguments)
                    && call.call.arguments == read(arguments)
            }
        }),
{
    let at = p.reply.content.len() as int;
    let d = call_delta(e);
    let after = call_streamed(p, d, properties, read);
    assert(after.reply.content =~= p.reply.content.push(after.reply.content[at]));
    if let Some(n) = number_at(e, "index"@) {
        let key = index_value(n);
        let block = crate::api::openai_completions::stream::new_call(d, properties);
        lemma_with_entry(p.memory.by_index, key, block, at as u64);
        if n.nanos == at * 1_000_000_000 && at <= u64::MAX {
            assert(key == at as u64);
            assert(Seq::<char>::empty() + arguments =~= arguments);
            let first = crate::json::with_entry(p.memory.by_index, key, block);
            let kept = get(after.memory.by_index, at as u64);
            assert(get(first, key) == Some(block));
            let next = Scratch {
                call: ToolCallBlock { arguments: read(arguments), ..block.call },
                partial_args: Some(arguments),
                ..block
            };
            lemma_with_entry(first, key, next, key);
        }
    }
}

/// A call that goes on: an entry at the index of a call adds its arguments to those
/// that came before, and nothing but the arguments of the call changes.
pub proof fn law_call_goes_on(
    p: Progress,
    e: Entries,
    function: Entries,
    n: Number,
    before: Scratch,
    more: Seq<char>,
    properties: Pairs,
    read: spec_fn(Seq<char>) -> Json,
)
    requires
        object_at(e, "function"@) == Some(function),
        number_at(e, "index"@) == Some(n),
        get(p.memory.by_index, index_value(n)) == Some(before),
        str_at(function, "arguments"@) == Some(more),
    ensures
        ({
            let after = call_streamed(p, call_delta(e), properties, read);
            let told = after.sent.last();
            &&& after.reply == p.reply
            &&& after.sent.drop_last() =~= p.sent
            &&& told matches Event::ToolCallDelta { delta, content_index, .. } && delta == more
            &&& told->ToolCallDelta_content_index == index_value(n) ==> {
                let kept = get(after.memory.by_index, index_value(n));
                let text = match before.partial_args {
                    Some(text) => text + more,
                    None => more,
                };
                &&& kept matches Some(call) && call.partial_args == Some(text)
                    && call.call.arguments == read(text) && call.call.id == before.call.id
                    && call.call.name == before.call.name && call.call.thought_signature
                    == before.call.thought_signature
            }
        }),
{
    let d = call_delta(e);
    let key = index_value(n);
    let after = call_streamed(p, d, properties, read);
    lemma_with_entry(p.memory.by_index, key, before, key);
    let first = crate::json::with_entry(p.memory.by_index, key, before);
    let text = crate::json::text_or_empty(before.partial_args) + more;
    if before.partial_args is None {
        assert(Seq::<char>::empty() + more =~= more);
    }
    let next = Scratch {
        call: ToolCallBlock { arguments: read(text), ..before.call },
        partial_args: Some(text),
        ..before
    };
    lemma_with_entry(first, key, next, key);
}

/// A custom call that begins holds what the provider says it does under the
/// property of its tool, and its name is that of the custom tool.
pub proof fn law_custom_call_begins(
    p: Progress,
    e: Entries,
    custom: Entries,
    property: Seq<char>,
    properties: Pairs,
    read: spec_fn(Seq<char>) -> Json,
)
    requires
        object_at(e, "function"@) is None,
        object_at(e, "custom"@) == Some(custom),
        str_at(custom, "name"@) is Some,
        get(properties, str_at(custom, "name"@)->0) == Some(property),
        number_at(e, "index"@) matches Some(n) ==> get(p.memory.by_index, index_value(n)) is None,
        str_at(e, "id"@) matches Some(id) ==> get(p.memory.by_id, id) is None,
    ensures
        ({
            let after = call_streamed(p, call_delta(e), properties, read);
            &&& after.reply.content.drop_last() =~= p.reply.content
            &&& after.reply.content.last() matches Block::ToolCall(call) && call.id == field(
                e,
                "id"@,
            ) && call.name == str_at(custom, "name"@)->0 && call.arguments == one_entry(
                property,
                Json::Str(Seq::empty()),
            )
        }),
{
}

/// Reasoning that is encrypted is kept with the call of its id, and waits for one
/// where there is none yet; what is no such entry changes nothing.
pub proof fn law_encrypted_reasoning_is_kept(m: Memory, e: Entries, id: Seq<char>)
    requires
        id.len() > 0,
        str_at(e, "id"@) == Some(id),
    ensures
        ({
            let after = detail_kept(m, Json::Object(e));
            let whole = field(e, "data"@).len() > 0 && str_at(e, "type"@) == Some(
                "reasoning.encrypted"@,
            );
            &&& !whole ==> after == m
            &&& whole && get(m.by_id, id) is None ==> get(after.pending, id) == Some(
                json_text(Json::Object(e)),
            ) && after.by_id == m.by_id
            &&& whole && get(m.by_id, id) is Some ==> {
                let kept = get(after.by_id, id);
                &&& kept is Some
                &&& kept->0.call.thought_signature == Some(json_text(Json::Object(e)))
                &&& kept->0.call.id == get(m.by_id, id)->0.call.id
                &&& kept->0.call.name == get(m.by_id, id)->0.call.name
                &&& kept->0.call.arguments == get(m.by_id, id)->0.call.arguments
                &&& after.pending == m.pending
            }
        }),
{
    lemma_with_entry(m.pending, id, json_text(Json::Object(e)), id);
    if let Some(block) = get(m.by_id, id) {
        lemma_with_entry(
            m.by_id,
            id,
            Scratch {
                call: ToolCallBlock {
                    thought_signature: Some(json_text(Json::Object(e))),
                    ..block.call
                },
                ..block
            },
            id,
        );
    }
}

/// The entries of encrypted reasoning are kept one after another.
pub proof fn law_details_follow_each_other(m: Memory, a: Seq<Json>, b: Seq<Json>)
    ensures
        details_kept(m, a + b) == details_kept(details_kept(m, a), b),
        details_kept(m, Seq::empty()) == m,
    decreases b.len(),
{
    if b.len() == 0 {
        assert(a + b =~= a);
    } else {
        law_details_follow_each_other(m, a, b.drop_last());
        assert((a + b).drop_last() =~= a + b.drop_last());
        assert((a + b).last() == b.last());
    }
}

/// What a chunk says of the response: its id is the first that comes, and its model
/// is the first that comes and is not the one that was asked for.
pub proof fn law_response_is_named(m: Reply, e: Entries, model: Model, price: Pricing)
    ensures
        ({
            let after = head_taken(m, e, model, price);
            &&& m.response_id is Some ==> after.response_id == m.response_id
            &&& m.response_id is None && field(e, "id"@).len() > 0 ==> after.response_id == Some(
                field(e, "id"@),
            )
            &&& m.response_id is None && field(e, "id"@).len() == 0 ==> after.response_id is None
            &&& m.response_model is Some ==> after.response_model == m.response_model
            &&& m.response_model is None && field(e, "model"@).len() > 0 && field(e, "model"@)
                != model.id@ ==> after.response_model == Some(field(e, "model"@))
            &&& m.response_model is None && (field(e, "model"@).len() == 0 || field(e, "model"@)
                == model.id@) ==> after.response_model is None
            &&& after.content == m.content
            &&& after.stop_reason == m.stop_reason
        }),
{
}

/// The first thinking begins a block that is signed with the field that carried it,
/// and the first text begins a block of its own; what came before stays.
pub proof fn law_blocks_begin(p: Progress, key: Seq<char>, delta: Seq<char>)
    ensures
        ({
            let after = thinking_streamed(p, key, delta);
            &&& p.memory.thinking is None ==> {
                &&& after.reply.content.drop_last() =~= p.reply.content
                &&& after.reply.content.last() matches Block::Thinking(block)
                    && block.thinking_signature == Some(key) && block.redacted is None
                &&& after.memory.thinking matches Some(block) && block.thinking =~= delta
                &&& after.sent[p.sent.len() as int] == (Event::ThinkingStart {
                    content_index: p.reply.content.len() as int,
                    partial: after.reply,
                })
            }
            &&& p.memory.thinking matches Some(block) ==> {
                &&& after.reply == p.reply
                &&& after.memory.thinking matches Some(next) && next.thinking == block.thinking
                    + delta && next.thinking_signature == block.thinking_signature
            }
            &&& after.memory.text == p.memory.text
        }),
        ({
            let after = text_streamed(p, delta);
            &&& p.memory.text is None ==> {
                &&& after.reply.content.drop_last() =~= p.reply.content
                &&& after.reply.content.last() is Text
                &&& after.memory.text matches Some(block) && block.text =~= delta
                &&& after.sent[p.sent.len() as int] == (Event::TextStart {
                    content_index: p.reply.content.len() as int,
                    partial: after.reply,
                })
            }
            &&& p.memory.text matches Some(block) ==> {
                &&& after.reply == p.reply
                &&& after.memory.text matches Some(next) && next.text == block.text + delta
            }
            &&& after.memory.thinking == p.memory.thinking
        }),
{
}

/// Thinking is signed with the field that carried it; one provider has what comes
/// as `reasoning` back as `reasoning_content`.
pub proof fn law_thinking_is_signed(model: Model, key: Seq<char>)
    ensures
        model.provider@ != "opencode-go"@ ==> signature_field(model, key) == key,
        key != "reasoning"@ ==> signature_field(model, key) == key,
        model.provider@ == "opencode-go"@ ==> signature_field(model, "reasoning"@)
            == "reasoning_content"@,
{
}

proof fn lemma_ending(content: Seq<Block>, e: Ending)
    ensures
        ({
            let i = crate::api::openai_completions::stream::ending_index(content, e);
            &&& 0 <= i <= content.len()
            &&& i < content.len() ==> ends(content[i], e)
            &&& forall|j: int| 0 <= j < i ==> !ends(content[j], e)
        }),
    decreases content.len(),
{
    if content.len() > 0 && !ends(content[0], e) {
        let rest = content.drop_first();
        lemma_ending(rest, e);
        let i = crate::api::openai_completions::stream::ending_index(content, e);
        assert forall|j: int| 0 <= j < i implies !ends(content[j], e) by {
            if j > 0 {
                assert(!ends(rest[j - 1], e));
            }
        }
    }
}

/// The end of a block is told at the first block that it can be the end of.
pub proof fn law_text_and_thinking_end(
    m: Reply,
    sent: Seq<Event>,
    text: Seq<char>,
    read: spec_fn(Seq<char>) -> Json,
    at: int,
)
    requires
        0 <= at < m.content.len(),
    ensures
        (m.content[at] matches Block::Text(block) && block.text == text) ==> {
            let (after, told) = block_finished(m, sent, Ending::Text(text), read);
            &&& after == m
            &&& told.drop_last() =~= sent
            &&& told.last() matches Event::TextEnd { content_index, content, partial } && content
                == text && partial == m && 0 <= content_index <= at && (
            m.content[content_index] matches Block::Text(found) && found.text == text)
        },
        (m.content[at] matches Block::Thinking(block) && block.thinking == text) ==> {
            let (after, told) = block_finished(m, sent, Ending::Thinking(text), read);
            &&& after == m
            &&& told.drop_last() =~= sent
            &&& told.last() matches Event::ThinkingEnd { content_index, content, partial }
                && content == text && partial == m && 0 <= content_index <= at && (
            m.content[content_index] matches Block::Thinking(found) && found.thinking == text)
        },
{
    lemma_ending(m.content, Ending::Text(text));
    lemma_ending(m.content, Ending::Thinking(text));
}

/// The end of a call: its arguments are read from the whole of what was streamed,
/// and the end is told with the call as it then is, with its id and its name.
pub proof fn law_call_ends(
    m: Reply,
    sent: Seq<Event>,
    call: Scratch,
    read: spec_fn(Seq<char>) -> Json,
    at: int,
)
    requires
        0 <= at < m.content.len(),
        is_call(m.content[at], call.call.id),
        forall|j: int| 0 <= j < at ==> !is_call(#[trigger] m.content[j], call.call.id),
        call.custom_input is None,
    ensures
        ({
            let (after, told) = block_finished(m, sent, Ending::Call(call), read);
            let was = m.content[at]->ToolCall_0;
            &&& after.content.len() == m.content.len()
            &&& forall|j: int|
                0 <= j < m.content.len() && j != at ==> (#[trigger] after.content[j])
                    == m.content[j]
            &&& after.content[at] matches Block::ToolCall(now) && now.id == was.id && now.name
                == was.name && (call.partial_args is Some ==> now.arguments == read(
                call.partial_args->0,
            )) && (call.partial_args is None ==> now == was)
            &&& told.drop_last() =~= sent
            &&& told.last() == (Event::ToolCallEnd {
                content_index: at,
                tool_call: after.content[at]->ToolCall_0,
                partial: after,
            })
        }),
{
    lemma_ending(m.content, Ending::Call(call));
    let e = Ending::Call(call);
    let i = crate::api::openai_completions::stream::ending_index(m.content, e);
    assert(ends(m.content[at], e));
    assert(i <= at);
    if i < at {
        assert(ends(m.content[i], e));
        assert(!is_call(m.content[i], call.call.id));
    }
}

/// Blocks are ended one after another.
pub proof fn law_endings_follow_each_other(
    m: Reply,
    sent: Seq<Event>,
    a: Seq<Ending>,
    b: Seq<Ending>,
    read: spec_fn(Seq<char>) -> Json,
)
    ensures
        blocks_finished(m, sent, a + b, read) == blocks_finished(
            blocks_finished(m, sent, a, read).0,
            blocks_finished(m, sent, a, read).1,
            b,
            read,
        ),
        blocks_finished(m, sent, Seq::empty(), read) == (m, sent),
    decreases b.len(),
{
    if b.len() == 0 {
        assert(a + b =~= a);
    } else {
        law_endings_follow_each_other(m, sent, a, b.drop_last(), read);
        assert((a + b).drop_last() =~= a + b.drop_last());
        assert((a + b).last() == b.last());
    }
}

/// Each block of a reply has an end of its own, of its own kind: a text ends with its
/// text, thinking with what was thought, and a call with what was streamed for its
/// id.
pub proof fn law_every_block_ends(content: Seq<Block>, by_index: Seq<(u64, Scratch)>, i: int)
    requires
        0 <= i < content.len(),
    ensures
        endings_of(content, by_index).len() == content.len(),
        content[i] matches Block::Text(block) ==> endings_of(content, by_index)[i] == Ending::Text(
            block.text,
        ),
        content[i] matches Block::Thinking(block) ==> endings_of(content, by_index)[i]
            == Ending::Thinking(block.thinking),
        content[i] matches Block::ToolCall(call) ==> (endings_of(content, by_index)[i]
            matches Ending::Call(scratch) && scratch.call.id == call.id),
        content[i] matches Block::ToolCall(call) ==> (forall|k: int|
            0 <= k < by_index.len() && by_index[k].1.call.id == call.id && (forall|j: int|
                0 <= j < k ==> (#[trigger] by_index[j]).1.call.id != call.id)
                ==> endings_of(content, by_index)[i] == Ending::Call(#[trigger] by_index[k].1)),
{
    if let Block::ToolCall(call) = content[i] {
        lemma_scratch(by_index, call.id);
    }
}

proof fn lemma_scratch(by_index: Seq<(u64, Scratch)>, id: Seq<char>)
    ensures
        crate::api::openai_completions::stream::scratch_of(by_index, id) matches Some(s)
            ==> s.call.id == id,
        forall|k: int|
            0 <= k < by_index.len() && by_index[k].1.call.id == id && (forall|j: int|
                0 <= j < k ==> (#[trigger] by_index[j]).1.call.id != id)
                ==> crate::api::openai_completions::stream::scratch_of(by_index, id) == Some(
                #[trigger] by_index[k].1,
            ),
    decreases by_index.len(),
{
    if by_index.len() > 0 {
        let rest = by_index.drop_first();
        lemma_scratch(rest, id);
        assert forall|k: int|
            0 <= k < by_index.len() && by_index[k].1.call.id == id && (forall|j: int|
                0 <= j < k ==> (#[trigger] by_index[j]).1.call.id
                    != id) implies crate::api::openai_completions::stream::scratch_of(
            by_index,
            id,
        ) == Some(#[trigger] by_index[k].1) by {
            if k > 0 {
                assert(by_index[0].1.call.id != id);
                assert(rest[k - 1].1 == by_index[k].1);
                assert forall|j: int| 0 <= j < k - 1 implies (#[trigger] rest[j]).1.call.id
                    != id by {
                    assert(rest[j] == by_index[j + 1]);
                }
            }
        }
    }
}

} // verus!
