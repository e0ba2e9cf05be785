//! What a Gemini stream puts into the reply that it builds.
use vstd::prelude::*;
use crate::api::google_shared::stream::{
    chunk_taken, has_call, parts_streamed, progress_wf, GoogleInterface, Progress,
};
use crate::json::{
    array_at, bool_at, get, json_text, object_at, str_at, text_or_empty, Entries, Json,
};
use crate::text::decimal;
use crate::types::{Block, Event, Pricing};

verus! {

/// The parts of a candidate may come in pieces: the second goes on where the first
/// ended.
pub proof fn law_pieces_do_not_matter(
    p: Progress,
    a: Seq<Json>,
    b: Seq<Json>,
    interface: GoogleInterface,
    now: u64,
)
    ensures
        parts_streamed(p, a + b, interface, now) == parts_streamed(
            parts_streamed(p, a, interface, now),
            b,
            interface,
            now,
        ),
    decreases b.len(),
{
    if b.len() == 0 {
        assert(a + b =~= a);
    } else {
        law_pieces_do_not_matter(p, a, b.drop_last(), interface, now);
        assert((a + b).drop_last() =~= a + b.drop_last());
        assert((a + b).last() == b.last());
    }
}

/// The words of a block.
pub open spec fn words_of(b: Block) -> Seq<char> {
    match b {
        Block::Text(t) => t.text,
        Block::Thinking(t) => t.thinking,
        _ => Seq::empty(),
    }
}

/// The signature of a block.
pub open spec fn signature_of(b: Block) -> Option<Seq<char>> {
    match b {
        Block::Text(t) => t.text_signature,
        Block::Thinking(t) => t.thinking_signature,
        _ => None,
    }
}

/// A part with a text adds that text to the block of its sort, which it begins
/// where another one was streamed, and sends it on as it is. A thought makes a
/// thinking block and anything else a text block. A signature that is not empty
/// takes the place of the one before. The block that was streamed before ends with
/// the words that it holds.
pub proof fn law_text_is_streamed(
    p: Progress,
    e: Entries,
    text: Seq<char>,
    interface: GoogleInterface,
    now: u64,
)
    requires
        progress_wf(p),
        str_at(e, "text"@) == Some(text),
        get(e, "functionCall"@) is None,
    ensures
        ({
            let thinking = bool_at(e, "thought"@) == Some(true);
            let grows = p.thinking == Some(thinking);
            let after = parts_streamed(p, seq![Json::Object(e)], interface, now);
            let n = after.reply.content.len() - 1;
            let block = after.reply.content[n];
            let signature = str_at(e, "thoughtSignature"@);
            &&& progress_wf(after)
            &&& after.reply.content.len() == p.reply.content.len() + if grows {
                0int
            } else {
                1int
            }
            &&& after.thinking == Some(thinking)
            &&& thinking ==> block is Thinking
            &&& !thinking ==> block is Text
            &&& grows ==> words_of(block) == words_of(p.reply.content[n]) + text
            &&& !grows ==> words_of(block) == text
            &&& signature is Some && signature->0.len() > 0 ==> signature_of(block) == signature
            &&& signature is None && grows ==> signature_of(block) == signature_of(
                p.reply.content[n],
            )
            &&& signature is None && !grows ==> signature_of(block) is None
            &&& forall|i: int|
                0 <= i < p.reply.content.len() && i != n ==> #[trigger] after.reply.content[i]
                    == p.reply.content[i]
            &&& after.sent.last() == if thinking {
                Event::ThinkingDelta { content_index: n, delta: text, partial: after.reply }
            } else {
                Event::TextDelta { content_index: n, delta: text, partial: after.reply }
            }
            &&& p.thinking == Some(!thinking) ==> after.sent[p.sent.len() as int] == if thinking {
                Event::TextEnd {
                    content_index: n - 1,
                    content: words_of(p.reply.content[n - 1]),
                    partial: p.reply,
                }
            } else {
                Event::ThinkingEnd {
                    content_index: n - 1,
                    content: words_of(p.reply.content[n - 1]),
                    partial: p.reply,
                }
            }
        }),
{
    let list = seq![Json::Object(e)];
    assert(list.drop_last() =~= Seq::<Json>::empty());
    assert(list.last() == Json::Object(e));
    reveal_with_fuel(parts_streamed, 2);
    let after = parts_streamed(p, list, interface, now);
    assert(Seq::<char>::empty() + text =~= text);
}

/// A part that calls a function adds one call with the name, the arguments and the
/// signature of that part. It keeps the id that it was given where no call of the
/// reply has it. Its start, its arguments and its end are sent in this order.
pub proof fn law_call_is_taken(
    p: Progress,
    e: Entries,
    call: Entries,
    interface: GoogleInterface,
    now: u64,
)
    requires
        progress_wf(p),
        str_at(e, "text"@) is None,
        object_at(e, "functionCall"@) == Some(call),
    ensures
        ({
            let after = parts_streamed(p, seq![Json::Object(e)], interface, now);
            let n = p.reply.content.len() as int;
            let k = after.sent.len() - 3;
            let given = str_at(call, "id"@);
            &&& after.reply.content.len() == n + 1
            &&& after.reply.content.drop_last() == p.reply.content
            &&& after.reply.content[n] matches Block::ToolCall(made) && {
                &&& made.name == text_or_empty(str_at(call, "name"@))
                &&& get(call, "args"@) is Some ==> made.arguments == get(call, "args"@)->0
                &&& get(call, "args"@) is None ==> made.arguments == Json::Object(Seq::empty())
                &&& made.thought_signature == str_at(e, "thoughtSignature"@)
                &&& made.namespace is None
                &&& given is Some && !has_call(p.reply, given->0) ==> made.id == given->0
                &&& given is None ==> exists|number: u64|
                    made.id == made.name + "_"@ + #[trigger] decimal(now as nat) + "_"@
                        + #[trigger] decimal(number as nat)
                &&& k >= p.sent.len()
                &&& after.sent[k] == Event::ToolCallStart { content_index: n, partial: after.reply }
                &&& after.sent[k + 1] == Event::ToolCallDelta {
                    content_index: n,
                    delta: json_text(made.arguments),
                    partial: after.reply,
                }
                &&& after.sent[k + 2] == Event::ToolCallEnd {
                    content_index: n,
                    tool_call: made,
                    partial: after.reply,
                }
            }
        }),
{
    let list = seq![Json::Object(e)];
    assert(list.drop_last() =~= Seq::<Json>::empty());
    assert(list.last() == Json::Object(e));
    reveal_with_fuel(parts_streamed, 2);
    let after = parts_streamed(p, list, interface, now);
    assert(after.reply.content.drop_last() =~= p.reply.content);
    let number = crate::api::google_shared::stream::id_number(p.made, interface);
    assert(decimal(number as nat) == decimal(number as nat));
}

/// A chunk streams the parts of its first candidate.
pub proof fn law_chunk_streams_its_parts(
    p: Progress,
    e: Entries,
    candidates: Seq<Json>,
    candidate: Entries,
    content: Entries,
    parts: Seq<Json>,
    interface: GoogleInterface,
    now: u64,
    price: Pricing,
)
    requires
        array_at(e, "candidates"@) == Some(candidates),
        candidates.len() > 0,
        candidates[0] == Json::Object(candidate),
        object_at(candidate, "content"@) == Some(content),
        array_at(content, "parts"@) == Some(parts),
        p.reply.response_id is Some,
    ensures
        ({
            let after = chunk_taken(p, Json::Object(e), interface, now, price);
            let streamed = parts_streamed(p, parts, interface, now);
            &&& after.reply.content == streamed.reply.content
            &&& after.sent == streamed.sent
            &&& after.reply.response_id == streamed.reply.response_id
            &&& str_at(candidate, "finishReason"@) is Some ==> after.reply.raw_stop_reason
                == str_at(candidate, "finishReason"@)
        }),
{
    reveal(chunk_taken);
    let known = Progress {
        reply: crate::types::Reply { response_id: p.reply.response_id, ..p.reply },
        ..p
    };
    assert(known == p);
}

/// The id of a response is the first one that is not empty.
pub proof fn law_response_id_is_the_first(
    p: Progress,
    e: Entries,
    interface: GoogleInterface,
    now: u64,
    price: Pricing,
)
    requires
        array_at(e, "candidates"@) is None,
    ensures
        ({
            let after = chunk_taken(p, Json::Object(e), interface, now, price).reply;
            let id = str_at(e, "responseId"@);
            &&& p.reply.response_id is Some ==> after.response_id == p.reply.response_id
            &&& p.reply.response_id is None && id is Some && id->0.len() > 0 ==> after.response_id
                == id
            &&& p.reply.response_id is None && (id is None || id->0.len() == 0)
                ==> after.response_id is None
        }),
{
    reveal(chunk_taken);
}

} // verus!
